//! Splitting of character sequences on a separator, and counting of
//! positional placeholders, with the lemmas the route compiler needs.

use vstd::prelude::*;
use vstd::string::*;

verus! {

/// The pieces of `s` between occurrences of `sep`, in order.
///
/// Splitting the empty sequence yields one empty piece, and a separator at
/// either end yields an empty piece there, as `str::split` does.
pub open spec fn split_on(s: Seq<char>, sep: char) -> Seq<Seq<char>>
    decreases s.len(),
{
    if s.len() == 0 {
        seq![Seq::<char>::empty()]
    } else {
        let rest = split_on(s.drop_first(), sep);
        if s[0] == sep {
            seq![Seq::<char>::empty()] + rest
        } else {
            seq![seq![s[0]] + rest[0]] + rest.drop_first()
        }
    }
}

pub proof fn lemma_split_on_len(s: Seq<char>, sep: char)
    ensures
        split_on(s, sep).len() >= 1,
    decreases s.len(),
{
    if s.len() != 0 {
        lemma_split_on_len(s.drop_first(), sep);
    }
}

/// Splitting at the first separator: the part before it is the first piece,
/// and the rest of the pieces split the part after it.
pub proof fn lemma_split_at_sep(s: Seq<char>, sep: char, k: int)
    requires
        0 <= k < s.len(),
        s[k] == sep,
        forall|j: int| 0 <= j < k ==> s[j] != sep,
    ensures
        split_on(s, sep) == seq![s.take(k)] + split_on(s.skip(k + 1), sep),
    decreases k,
{
    if k == 0 {
        assert(s.take(0) =~= Seq::<char>::empty());
        assert(s.skip(1) =~= s.drop_first());
    } else {
        let rest = split_on(s.drop_first(), sep);
        lemma_split_at_sep(s.drop_first(), sep, k - 1);
        assert(s.drop_first().take(k - 1) =~= s.subrange(1, k));
        assert(rest[0] == s.subrange(1, k));
        assert(seq![s[0]] + s.subrange(1, k) =~= s.take(k));
        assert(s.drop_first().skip(k) =~= s.skip(k + 1));
        assert(rest.drop_first() =~= split_on(s.skip(k + 1), sep));
        assert(split_on(s, sep) =~= seq![s.take(k)] + split_on(s.skip(k + 1), sep));
    }
}

/// A sequence without the separator splits into itself as the single piece.
pub proof fn lemma_split_no_sep(s: Seq<char>, sep: char)
    requires
        forall|j: int| 0 <= j < s.len() ==> s[j] != sep,
    ensures
        split_on(s, sep) == seq![s],
    decreases s.len(),
{
    if s.len() == 0 {
        assert(s =~= Seq::<char>::empty());
        assert(split_on(s, sep) =~= seq![s]);
    } else {
        let rest = split_on(s.drop_first(), sep);
        lemma_split_no_sep(s.drop_first(), sep);
        assert(seq![s[0]] + s.drop_first() =~= s);
        assert(rest.drop_first() =~= Seq::<Seq<char>>::empty());
        assert(split_on(s, sep) =~= seq![s]);
    }
}

/// Splits `s` on `sep`, keeping empty pieces, as `str::split` does.
pub fn split_str(s: &str, sep: char) -> (parts: Vec<String>)
    ensures
        parts.deep_view() == split_on(s@, sep),
{
    let n = s.unicode_len();
    let mut parts: Vec<String> = Vec::new();
    proof {
        assert(s@.skip(0) =~= s@);
        assert(parts.deep_view() =~= Seq::<Seq<char>>::empty());
        assert(parts.deep_view() + split_on(s@, sep) =~= split_on(s@, sep));
    }
    let mut start: usize = 0;
    let mut i: usize = 0;
    while i < n
        invariant
            start <= i <= n,
            n == s@.len(),
            forall|j: int| start <= j < i ==> s@[j] != sep,
            split_on(s@, sep) == parts.deep_view() + split_on(s@.skip(start as int), sep),
        decreases n - i,
    {
        let c = s.get_char(i);
        if c == sep {
            let piece = String::from_str(s.substring_char(start, i));
            proof {
                let tail = s@.skip(start as int);
                assert(forall|j: int|
                    0 <= j < i - start ==> tail[j] == s@[j + start] && tail[j] != sep);
                lemma_split_at_sep(tail, sep, i - start as int);
                assert(tail.take(i - start as int) =~= s@.subrange(start as int, i as int));
                assert(tail.skip(i - start as int + 1) =~= s@.skip(i + 1));
            }
            let ghost old_parts = parts.deep_view();
            parts.push(piece);
            proof {
                assert(parts.deep_view() =~= old_parts + seq![piece@]);
                assert(old_parts + (seq![s@.subrange(start as int, i as int)] + split_on(
                    s@.skip(i + 1),
                    sep,
                )) =~= parts.deep_view() + split_on(s@.skip(i + 1), sep));
            }
            start = i + 1;
        }
        i += 1;
    }
    let piece = String::from_str(s.substring_char(start, n));
    proof {
        let tail = s@.skip(start as int);
        assert(forall|j: int| 0 <= j < tail.len() ==> tail[j] == s@[j + start] && tail[j] != sep);
        lemma_split_no_sep(tail, sep);
        assert(piece@ == tail);
    }
    let ghost old_parts = parts.deep_view();
    parts.push(piece);
    proof {
        assert(parts.deep_view() =~= old_parts + seq![piece@]);
        assert(split_on(s@, sep) =~= parts.deep_view());
    }
    parts
}

/// The number of positions at which the positional placeholder `{}` occurs.
pub open spec fn placeholder_count(s: Seq<char>) -> nat
    decreases s.len(),
{
    if s.len() < 2 {
        0
    } else {
        (if s[0] == '{' && s[1] == '}' {
            1nat
        } else {
            0nat
        }) + placeholder_count(s.drop_first())
    }
}

/// Placeholders in a concatenation: those of each part, plus one where the
/// boundary itself forms `{}`.
pub proof fn lemma_placeholder_count_concat(a: Seq<char>, b: Seq<char>)
    ensures
        placeholder_count(a + b) == placeholder_count(a) + placeholder_count(b) + (if a.len() > 0
            && b.len() > 0 && a.last() == '{' && b[0] == '}' {
            1nat
        } else {
            0nat
        }),
    decreases a.len(),
{
    if a.len() == 0 {
        assert(a + b =~= b);
    } else if a.len() == 1 {
        if b.len() == 0 {
            assert(a + b =~= a);
        } else {
            assert((a + b).drop_first() =~= b);
            assert((a + b)[0] == a[0] && (a + b)[1] == b[0]);
        }
    } else {
        lemma_placeholder_count_concat(a.drop_first(), b);
        assert((a + b).drop_first() =~= a.drop_first() + b);
        assert((a + b)[0] == a[0] && (a + b)[1] == a[1]);
        assert(a.drop_first().last() == a.last());
    }
}

/// A sequence without an opening brace holds no placeholder.
pub proof fn lemma_placeholder_count_brace_free(s: Seq<char>)
    requires
        forall|j: int| 0 <= j < s.len() ==> s[j] != '{',
    ensures
        placeholder_count(s) == 0,
    decreases s.len(),
{
    if s.len() >= 2 {
        lemma_placeholder_count_brace_free(s.drop_first());
    }
}

} // verus!
