//! Route metadata carried alongside a handler: security schemes with their
//! scopes, and response status codes with their types, with the rendering
//! each uses for documentation output.

use vstd::prelude::*;
use vstd::string::*;

use crate::param_type::{ParamType, ParamTypeV};

verus! {

/// A bracketed array of string literals.
#[derive(Debug, PartialEq, Eq)]
pub struct StrArray(pub Vec<String>);

impl View for StrArray {
    type V = Seq<Seq<char>>;

    open spec fn view(&self) -> Seq<Seq<char>> {
        self.0.deep_view()
    }
}

impl Clone for StrArray {
    fn clone(&self) -> (r: Self)
        ensures
            r@ == self@,
    {
        let mut out: Vec<String> = Vec::new();
        let mut i: usize = 0;
        while i < self.0.len()
            invariant
                i <= self.0.len(),
                out@.len() == i,
                forall|k: int| 0 <= k < i ==> out@[k]@ == self.0@[k]@,
            decreases self.0.len() - i,
        {
            out.push(self.0[i].clone());
            i += 1;
        }
        let r = StrArray(out);
        proof {
            assert(r@ =~= self@);
        }
        r
    }
}

/// What one array item contributes to the rendering: the item in double
/// quotes, with a separating comma before every item but the first.
pub open spec fn str_array_item_piece(first: bool, item: Seq<char>) -> Seq<char> {
    (if first {
        seq!['"']
    } else {
        seq![',', ' ', '"']
    }) + item + seq!['"']
}

/// The items of an array rendering, from one item onward.
pub open spec fn str_array_items_v(items: Seq<Seq<char>>, first: bool) -> Seq<char>
    decreases items.len(),
{
    if items.len() == 0 {
        Seq::empty()
    } else {
        str_array_item_piece(first, items[0]) + str_array_items_v(items.drop_first(), false)
    }
}

/// The rendering of a string array: its quoted items, comma-separated,
/// in brackets.
pub open spec fn str_array_v(items: Seq<Seq<char>>) -> Seq<char> {
    seq!['['] + str_array_items_v(items, true) + seq![']']
}

impl StrArray {
    /// Renders the array, e.g. `["read", "write"]`.
    #[verifier::loop_isolation(false)]
    pub fn render(&self) -> (r: String)
        ensures
            r@ == str_array_v(self@),
    {
        let ghost items = self@;
        let mut s = String::from_str("[");
        proof {
            reveal_strlit("[");
            assert("["@ =~= seq!['[']);
            assert(items.skip(0) =~= items);
        }
        let mut i: usize = 0;
        while i < self.0.len()
            invariant
                i <= self.0.len(),
                seq!['['] + str_array_items_v(items, true) == s@ + str_array_items_v(
                    items.skip(i as int),
                    i == 0,
                ),
            decreases self.0.len() - i,
        {
            let ghost pre = s@;
            proof {
                assert(items.skip(i as int)[0] == items[i as int]);
                assert(items.skip(i as int).drop_first() =~= items.skip(i + 1));
                assert(self.0@[i as int]@ == items[i as int]);
            }
            if i == 0 {
                s.append("\"");
                proof {
                    reveal_strlit("\"");
                    assert("\""@ =~= seq!['"']);
                }
            } else {
                s.append(", \"");
                proof {
                    reveal_strlit(", \"");
                    assert(", \""@ =~= seq![',', ' ', '"']);
                }
            }
            s.append(self.0[i].as_str());
            s.append("\"");
            proof {
                reveal_strlit("\"");
                assert("\""@ =~= seq!['"']);
                assert(s@ =~= pre + str_array_item_piece(i == 0, items[i as int]));
                assert((pre + str_array_item_piece(i == 0, items[i as int])) + str_array_items_v(
                    items.skip(i + 1),
                    false,
                ) =~= pre + (str_array_item_piece(i == 0, items[i as int]) + str_array_items_v(
                    items.skip(i + 1),
                    false,
                )));
                assert(i + 1 != 0);
            }
            i += 1;
        }
        proof {
            assert(items.skip(items.len() as int) =~= Seq::<Seq<char>>::empty());
            assert(s@ + Seq::<char>::empty() =~= s@);
        }
        s.append("]");
        proof {
            reveal_strlit("]");
            assert("]"@ =~= seq![']']);
            assert(s@ =~= str_array_v(items));
        }
        s
    }
}

/// The security schemes of a route: each scheme name with its scopes.
#[derive(Debug, PartialEq, Eq)]
pub struct Security(pub Vec<(String, StrArray)>);

impl View for Security {
    type V = Seq<(Seq<char>, Seq<Seq<char>>)>;

    open spec fn view(&self) -> Seq<(Seq<char>, Seq<Seq<char>>)> {
        self.0@.map_values(|e: (String, StrArray)| (e.0@, e.1@))
    }
}

/// What one scheme contributes to the rendering: its name, a colon, and its
/// scopes, with a separating comma before every scheme but the first.
pub open spec fn security_item_piece(first: bool, scheme: Seq<char>, scopes: Seq<Seq<char>>) -> Seq<
    char,
> {
    (if first {
        Seq::<char>::empty()
    } else {
        seq![',', ' ']
    }) + scheme + seq![':', ' '] + str_array_v(scopes)
}

/// The schemes of a security rendering, from one scheme onward.
pub open spec fn security_items_v(items: Seq<(Seq<char>, Seq<Seq<char>>)>, first: bool) -> Seq<
    char,
>
    decreases items.len(),
{
    if items.len() == 0 {
        Seq::empty()
    } else {
        security_item_piece(first, items[0].0, items[0].1) + security_items_v(
            items.drop_first(),
            false,
        )
    }
}

/// The rendering of the security schemes, in braces.
pub open spec fn security_v(items: Seq<(Seq<char>, Seq<Seq<char>>)>) -> Seq<char> {
    seq!['{'] + security_items_v(items, true) + seq!['}']
}

impl Security {
    /// Renders the schemes, e.g. `{token: ["read"]}`.
    #[verifier::loop_isolation(false)]
    pub fn render(&self) -> (r: String)
        ensures
            r@ == security_v(self@),
    {
        let ghost items = self@;
        let mut s = String::from_str("{");
        proof {
            reveal_strlit("{");
            assert("{"@ =~= seq!['{']);
            assert(items.skip(0) =~= items);
        }
        let mut i: usize = 0;
        while i < self.0.len()
            invariant
                i <= self.0.len(),
                seq!['{'] + security_items_v(items, true) == s@ + security_items_v(
                    items.skip(i as int),
                    i == 0,
                ),
            decreases self.0.len() - i,
        {
            let ghost pre = s@;
            proof {
                assert(items.skip(i as int)[0] == items[i as int]);
                assert(items.skip(i as int).drop_first() =~= items.skip(i + 1));
                assert(self.0@[i as int]@ == items[i as int]);
            }
            if i > 0 {
                s.append(", ");
                proof {
                    reveal_strlit(", ");
                    assert(", "@ =~= seq![',', ' ']);
                }
            } else {
                proof {
                    assert(pre + Seq::<char>::empty() =~= pre);
                }
            }
            s.append(self.0[i].0.as_str());
            s.append(": ");
            let scopes = self.0[i].1.render();
            s.append(scopes.as_str());
            proof {
                reveal_strlit(": ");
                assert(": "@ =~= seq![':', ' ']);
                assert(s@ =~= pre + security_item_piece(
                    i == 0,
                    items[i as int].0,
                    items[i as int].1,
                ));
                assert((pre + security_item_piece(i == 0, items[i as int].0, items[i as int].1))
                    + security_items_v(items.skip(i + 1), false) =~= pre + (security_item_piece(
                    i == 0,
                    items[i as int].0,
                    items[i as int].1,
                ) + security_items_v(items.skip(i + 1), false)));
                assert(i + 1 != 0);
            }
            i += 1;
        }
        proof {
            assert(items.skip(items.len() as int) =~= Seq::<(Seq<char>, Seq<Seq<char>>)>::empty());
            assert(s@ + Seq::<char>::empty() =~= s@);
        }
        s.append("}");
        proof {
            reveal_strlit("}");
            assert("}"@ =~= seq!['}']);
            assert(s@ =~= security_v(items));
        }
        s
    }
}

/// The declared responses of a route: each status literal with its type.
#[derive(Debug, PartialEq, Eq)]
pub struct Responses(pub Vec<(String, ParamType)>);

impl View for Responses {
    type V = Seq<(Seq<char>, ParamTypeV)>;

    open spec fn view(&self) -> Seq<(Seq<char>, ParamTypeV)> {
        self.0@.map_values(|e: (String, ParamType)| (e.0@, e.1@))
    }
}

/// What one response contributes to the rendering: its status literal, a
/// colon, and the text of its type, with a separating comma before every
/// response but the first.
pub open spec fn response_item_piece(first: bool, status: Seq<char>, ty: ParamTypeV) -> Seq<char> {
    (if first {
        Seq::<char>::empty()
    } else {
        seq![',', ' ']
    }) + status + seq![':', ' '] + ty.text
}

/// The entries of a responses rendering, from one entry onward.
pub open spec fn response_items_v(items: Seq<(Seq<char>, ParamTypeV)>, first: bool) -> Seq<char>
    decreases items.len(),
{
    if items.len() == 0 {
        Seq::empty()
    } else {
        response_item_piece(first, items[0].0, items[0].1) + response_items_v(
            items.drop_first(),
            false,
        )
    }
}

/// The rendering of the declared responses, in braces.
pub open spec fn responses_v(items: Seq<(Seq<char>, ParamTypeV)>) -> Seq<char> {
    seq!['{'] + response_items_v(items, true) + seq!['}']
}

impl Responses {
    /// Renders the responses, e.g. `{200: String}`.
    #[verifier::loop_isolation(false)]
    pub fn render(&self) -> (r: String)
        ensures
            r@ == responses_v(self@),
    {
        let ghost items = self@;
        let mut s = String::from_str("{");
        proof {
            reveal_strlit("{");
            assert("{"@ =~= seq!['{']);
            assert(items.skip(0) =~= items);
        }
        let mut i: usize = 0;
        while i < self.0.len()
            invariant
                i <= self.0.len(),
                seq!['{'] + response_items_v(items, true) == s@ + response_items_v(
                    items.skip(i as int),
                    i == 0,
                ),
            decreases self.0.len() - i,
        {
            let ghost pre = s@;
            proof {
                assert(items.skip(i as int)[0] == items[i as int]);
                assert(items.skip(i as int).drop_first() =~= items.skip(i + 1));
                assert(self.0@[i as int]@ == items[i as int]);
            }
            if i > 0 {
                s.append(", ");
                proof {
                    reveal_strlit(", ");
                    assert(", "@ =~= seq![',', ' ']);
                }
            } else {
                proof {
                    assert(pre + Seq::<char>::empty() =~= pre);
                }
            }
            s.append(self.0[i].0.as_str());
            s.append(": ");
            s.append(self.0[i].1.text.as_str());
            proof {
                reveal_strlit(": ");
                assert(": "@ =~= seq![':', ' ']);
                assert(s@ =~= pre + response_item_piece(
                    i == 0,
                    items[i as int].0,
                    items[i as int].1,
                ));
                assert((pre + response_item_piece(i == 0, items[i as int].0, items[i as int].1))
                    + response_items_v(items.skip(i + 1), false) =~= pre + (response_item_piece(
                    i == 0,
                    items[i as int].0,
                    items[i as int].1,
                ) + response_items_v(items.skip(i + 1), false)));
                assert(i + 1 != 0);
            }
            i += 1;
        }
        proof {
            assert(items.skip(items.len() as int) =~= Seq::<(Seq<char>, ParamTypeV)>::empty());
            assert(s@ + Seq::<char>::empty() =~= s@);
        }
        s.append("}");
        proof {
            reveal_strlit("}");
            assert("}"@ =~= seq!['}']);
            assert(s@ =~= responses_v(items));
        }
        s
    }
}

} // verus!
