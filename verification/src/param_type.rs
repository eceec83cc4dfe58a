//! A syntactic model of a handler parameter's type: its rendered text, and
//! the shape of its last path segment, which is what state-type inference
//! reads.

use vstd::prelude::*;
use vstd::string::*;

verus! {

/// One generic argument of a path segment: a type argument carrying its
/// rendered text, or any other kind of argument (a lifetime, a const).
#[derive(Debug, PartialEq, Eq)]
pub enum GenericArg {
    TypeArg(String),
    OtherArg,
}

/// Mathematical model of [`GenericArg`].
pub enum GenericArgV {
    TypeArg(Seq<char>),
    OtherArg,
}

impl View for GenericArg {
    type V = GenericArgV;

    open spec fn view(&self) -> GenericArgV {
        match self {
            GenericArg::TypeArg(t) => GenericArgV::TypeArg(t@),
            GenericArg::OtherArg => GenericArgV::OtherArg,
        }
    }
}

impl Clone for GenericArg {
    fn clone(&self) -> (r: Self)
        ensures
            r@ == self@,
    {
        match self {
            GenericArg::TypeArg(t) => GenericArg::TypeArg(t.clone()),
            GenericArg::OtherArg => GenericArg::OtherArg,
        }
    }
}

/// The last path segment of a path type: its unqualified name, and its
/// angle-bracketed generic arguments, where it has any.
#[derive(Debug, PartialEq, Eq)]
pub struct LastSegment {
    pub name: String,
    pub args: Option<Vec<GenericArg>>,
}

/// Mathematical model of [`LastSegment`].
pub struct LastSegmentV {
    pub name: Seq<char>,
    pub args: Option<Seq<GenericArgV>>,
}

impl View for LastSegment {
    type V = LastSegmentV;

    open spec fn view(&self) -> LastSegmentV {
        LastSegmentV {
            name: self.name@,
            args: match self.args {
                Some(v) => Some(v@.map_values(|g: GenericArg| g@)),
                None => None,
            },
        }
    }
}

impl Clone for LastSegment {
    fn clone(&self) -> (r: Self)
        ensures
            r@ == self@,
    {
        let args: Option<Vec<GenericArg>> = match &self.args {
            Some(v) => {
                let mut out: Vec<GenericArg> = Vec::new();
                let mut j: usize = 0;
                while j < v.len()
                    invariant
                        j <= v.len(),
                        out@.len() == j,
                        forall|k: int| 0 <= k < j ==> out@[k]@ == v@[k]@,
                    decreases v.len() - j,
                {
                    out.push(v[j].clone());
                    j += 1;
                }
                proof {
                    assert(out@.map_values(|g: GenericArg| g@) =~= v@.map_values(
                        |g: GenericArg| g@,
                    ));
                }
                Some(out)
            },
            None => None,
        };
        let r = LastSegment { name: self.name.clone(), args };
        proof {
            assert(r@.args == self@.args);
        }
        r
    }
}

/// A handler parameter's type, as the route compiler sees it: the rendered
/// text of the whole type, and, where the type is a plain path type, the
/// shape of its last segment.
#[derive(Debug, PartialEq, Eq)]
pub struct ParamType {
    pub text: String,
    pub last_segment: Option<LastSegment>,
}

/// Mathematical model of [`ParamType`].
pub struct ParamTypeV {
    pub text: Seq<char>,
    pub last_segment: Option<LastSegmentV>,
}

impl View for ParamType {
    type V = ParamTypeV;

    open spec fn view(&self) -> ParamTypeV {
        ParamTypeV {
            text: self.text@,
            last_segment: match &self.last_segment {
                Some(s) => Some(s@),
                None => None,
            },
        }
    }
}

impl Clone for ParamType {
    fn clone(&self) -> (r: Self)
        ensures
            r@ == self@,
    {
        let r = ParamType {
            text: self.text.clone(),
            last_segment: match &self.last_segment {
                Some(s) => Some(s.clone()),
                None => None,
            },
        };
        proof {
            assert(r@.last_segment == self@.last_segment);
        }
        r
    }
}

/// The unit type `()`, the placeholder a segment carries before binding.
pub open spec fn unit_type_v() -> ParamTypeV {
    ParamTypeV { text: seq!['(', ')'], last_segment: None }
}

impl ParamType {
    /// The unit type `()`.
    pub fn unit() -> (r: ParamType)
        ensures
            r@ == unit_type_v(),
    {
        let r = ParamType { text: String::from_str("()"), last_segment: None };
        proof {
            reveal_strlit("()");
            assert(r@.text =~= unit_type_v().text);
        }
        r
    }

    /// The sole type argument, where this type's last path segment is
    /// literally `State` applied to exactly one type argument.
    pub open spec fn spec_state_argument(self_v: ParamTypeV) -> Option<Seq<char>> {
        match self_v.last_segment {
            Some(seg) => match seg.args {
                Some(args) => if seg.name == "State"@ && args.len() == 1 && (args[0] matches
                    GenericArgV::TypeArg(_)) {
                    Some(args[0]->TypeArg_0)
                } else {
                    None
                },
                None => None,
            },
            None => None,
        }
    }

    /// The sole type argument of a `State<T>` wrapper, if this is one.
    pub fn state_argument(&self) -> (r: Option<String>)
        ensures
            match r {
                Some(t) => Self::spec_state_argument(self@) == Some(t@),
                None => Self::spec_state_argument(self@) is None,
            },
    {
        let state_name = String::from_str("State");
        match &self.last_segment {
            Some(seg) => match &seg.args {
                Some(args) => {
                    if seg.name == state_name && args.len() == 1 {
                        proof {
                            assert(self@.last_segment->Some_0.args->Some_0[0] == args@[0]@);
                        }
                        match &args[0] {
                            GenericArg::TypeArg(t) => Some(t.clone()),
                            GenericArg::OtherArg => None,
                        }
                    } else {
                        None
                    }
                },
                None => None,
            },
            None => None,
        }
    }
}

} // verus!
