//! Tokenizing a route-pattern string into path segments and query names,
//! and classifying each path segment as static, capture or wildcard.

use vstd::prelude::*;
use vstd::string::*;

use crate::param_type::{unit_type_v, ParamType, ParamTypeV};
use crate::strutil::{lemma_split_on_len, split_on, split_str};

verus! {

/// Why a route string is malformed.
#[derive(Clone, Copy, Debug, PartialEq, Eq)]
pub enum MalformedReason {
    /// More than one `?` occurs in the route.
    TooManyQuerySeparators,
    /// The path part does not start with `/`.
    MissingLeadingSlash,
}

/// An error raised while compiling one route pattern.
#[derive(Debug, PartialEq, Eq)]
pub enum RouteError {
    /// The route string itself cannot be tokenized.
    MalformedRoute { reason: MalformedReason },
    /// A wildcard segment stands anywhere but in final position.
    InvalidWildcardPosition,
    /// A capture or wildcard name has no entry in the parameter pool.
    UnboundPathParameter { name: String },
    /// A query name has no entry in the parameter pool.
    UnboundQueryParameter { name: String },
}

/// Mathematical model of [`RouteError`].
pub enum RouteErrorV {
    MalformedRoute { reason: MalformedReason },
    InvalidWildcardPosition,
    UnboundPathParameter { name: Seq<char> },
    UnboundQueryParameter { name: Seq<char> },
}

impl View for RouteError {
    type V = RouteErrorV;

    open spec fn view(&self) -> RouteErrorV {
        match self {
            RouteError::MalformedRoute { reason } => RouteErrorV::MalformedRoute {
                reason: *reason,
            },
            RouteError::InvalidWildcardPosition => RouteErrorV::InvalidWildcardPosition,
            RouteError::UnboundPathParameter { name } => RouteErrorV::UnboundPathParameter {
                name: name@,
            },
            RouteError::UnboundQueryParameter { name } => RouteErrorV::UnboundQueryParameter {
                name: name@,
            },
        }
    }
}

/// The diagnostic text for an error, as rendered against the route string.
pub open spec fn spec_message(e: RouteErrorV) -> Seq<char> {
    match e {
        RouteErrorV::MalformedRoute { reason } => match reason {
            MalformedReason::TooManyQuerySeparators => "expected at most one '?'"@,
            MalformedReason::MissingLeadingSlash => "expected path to start with '/'"@,
        },
        RouteErrorV::InvalidWildcardPosition => "wildcard path param must be the last path param"@,
        RouteErrorV::UnboundPathParameter { name } => "path parameter `"@ + name
            + "` not found in function arguments"@,
        RouteErrorV::UnboundQueryParameter { name } => "query parameter `"@ + name
            + "` not found in function arguments"@,
    }
}

impl RouteError {
    /// The diagnostic text for this error.
    pub fn message(&self) -> (r: String)
        ensures
            r@ == spec_message(self@),
    {
        match self {
            RouteError::MalformedRoute { reason } => match reason {
                MalformedReason::TooManyQuerySeparators => String::from_str(
                    "expected at most one '?'",
                ),
                MalformedReason::MissingLeadingSlash => String::from_str(
                    "expected path to start with '/'",
                ),
            },
            RouteError::InvalidWildcardPosition => String::from_str(
                "wildcard path param must be the last path param",
            ),
            RouteError::UnboundPathParameter { name } => {
                let mut s = String::from_str("path parameter `");
                s.append(name.as_str());
                s.append("` not found in function arguments");
                s
            },
            RouteError::UnboundQueryParameter { name } => {
                let mut s = String::from_str("query parameter `");
                s.append(name.as_str());
                s.append("` not found in function arguments");
                s
            },
        }
    }
}

/// One classified path segment.  A capture carries the name written in the
/// route, the identifier it binds to, and the bound type; before binding the
/// identifier equals the name and the type is the unit placeholder.
#[derive(Debug, PartialEq, Eq)]
pub enum PathParam {
    WildCard { name: String, ident: String, ty: ParamType },
    Capture { name: String, ident: String, ty: ParamType },
    Static { text: String },
}

/// Mathematical model of [`PathParam`].
pub enum PathParamV {
    WildCard { name: Seq<char>, ident: Seq<char>, ty: ParamTypeV },
    Capture { name: Seq<char>, ident: Seq<char>, ty: ParamTypeV },
    Static { text: Seq<char> },
}

impl View for PathParam {
    type V = PathParamV;

    open spec fn view(&self) -> PathParamV {
        match self {
            PathParam::WildCard { name, ident, ty } => PathParamV::WildCard {
                name: name@,
                ident: ident@,
                ty: ty@,
            },
            PathParam::Capture { name, ident, ty } => PathParamV::Capture {
                name: name@,
                ident: ident@,
                ty: ty@,
            },
            PathParam::Static { text } => PathParamV::Static { text: text@ },
        }
    }
}

/// Classification of one raw segment: `:name` is a capture, `*name` (with a
/// nonempty name) is a wildcard, anything else is static text.
pub open spec fn classify_v(raw: Seq<char>) -> PathParamV {
    if raw.len() > 0 && raw[0] == ':' {
        PathParamV::Capture { name: raw.drop_first(), ident: raw.drop_first(), ty: unit_type_v() }
    } else if raw.len() > 1 && raw[0] == '*' {
        PathParamV::WildCard { name: raw.drop_first(), ident: raw.drop_first(), ty: unit_type_v() }
    } else {
        PathParamV::Static { text: raw }
    }
}

/// Whether this segment is a capture or a wildcard.
pub open spec fn spec_captures(p: PathParamV) -> bool {
    match p {
        PathParamV::WildCard { .. } => true,
        PathParamV::Capture { .. } => true,
        PathParamV::Static { .. } => false,
    }
}

/// The bound identifier and type of a capture or wildcard segment.
pub open spec fn spec_capture(p: PathParamV) -> Option<(Seq<char>, ParamTypeV)> {
    match p {
        PathParamV::WildCard { ident, ty, .. } => Some((ident, ty)),
        PathParamV::Capture { ident, ty, .. } => Some((ident, ty)),
        PathParamV::Static { .. } => None,
    }
}

/// Whether this segment may stand only in final position: a wildcard, or a
/// static segment whose text is exactly `*`.
pub open spec fn spec_must_be_last(p: PathParamV) -> bool {
    match p {
        PathParamV::WildCard { .. } => true,
        PathParamV::Capture { .. } => false,
        PathParamV::Static { text } => text == seq!['*'],
    }
}

impl PathParam {
    /// Classifies one raw segment string.
    pub fn new(raw: &str) -> (p: PathParam)
        ensures
            p@ == classify_v(raw@),
    {
        let n = raw.unicode_len();
        if n > 0 && raw.get_char(0) == ':' {
            proof {
                assert(raw@.subrange(1, n as int) =~= raw@.drop_first());
            }
            PathParam::Capture {
                name: String::from_str(raw.substring_char(1, n)),
                ident: String::from_str(raw.substring_char(1, n)),
                ty: ParamType::unit(),
            }
        } else if n > 1 && raw.get_char(0) == '*' {
            proof {
                assert(raw@.subrange(1, n as int) =~= raw@.drop_first());
            }
            PathParam::WildCard {
                name: String::from_str(raw.substring_char(1, n)),
                ident: String::from_str(raw.substring_char(1, n)),
                ty: ParamType::unit(),
            }
        } else {
            PathParam::Static { text: String::from_str(raw) }
        }
    }

    /// Whether this segment is a capture or a wildcard.
    pub fn captures(&self) -> (r: bool)
        ensures
            r == spec_captures(self@),
    {
        match self {
            PathParam::Capture { .. } => true,
            PathParam::WildCard { .. } => true,
            PathParam::Static { .. } => false,
        }
    }

    /// The bound identifier and type, where this segment is a capture or a
    /// wildcard.
    pub fn capture(&self) -> (r: Option<(&String, &ParamType)>)
        ensures
            match r {
                Some(p) => spec_capture(self@) == Some((p.0@, p.1@)),
                None => spec_capture(self@) is None,
            },
    {
        match self {
            PathParam::Capture { ident, ty, .. } => Some((ident, ty)),
            PathParam::WildCard { ident, ty, .. } => Some((ident, ty)),
            PathParam::Static { .. } => None,
        }
    }

    /// Whether this segment may stand only in final position.
    fn must_be_last(&self) -> (r: bool)
        ensures
            r == spec_must_be_last(self@),
    {
        match self {
            PathParam::WildCard { .. } => true,
            PathParam::Capture { .. } => false,
            PathParam::Static { text } => {
                let n = text.as_str().unicode_len();
                if n == 1 && text.as_str().get_char(0) == '*' {
                    proof {
                        assert(text@ =~= seq!['*']);
                    }
                    true
                } else {
                    proof {
                        if text@ == seq!['*'] {
                            assert(text@.len() == 1 && text@[0] == '*');
                        }
                    }
                    false
                }
            },
        }
    }
}

/// The classification of every raw segment, in order.
pub open spec fn classify_all(raws: Seq<Seq<char>>) -> Seq<PathParamV> {
    raws.map_values(|r: Seq<char>| classify_v(r))
}

/// Whether some segment that must be last stands before the final position.
pub open spec fn has_misplaced_wildcard(segs: Seq<PathParamV>) -> bool {
    exists|i: int| 0 <= i < segs.len() - 1 && spec_must_be_last(segs[i])
}

/// The tokenized and classified form of a route string, before binding.
pub struct RouteParser {
    pub path_params: Vec<PathParam>,
    pub query_params: Vec<String>,
}

/// Mathematical model of [`RouteParser`].
pub struct RouteParserV {
    pub path_params: Seq<PathParamV>,
    pub query_params: Seq<Seq<char>>,
}

impl View for RouteParser {
    type V = RouteParserV;

    open spec fn view(&self) -> RouteParserV {
        RouteParserV {
            path_params: self.path_params@.map_values(|p: PathParam| p@),
            query_params: self.query_params.deep_view(),
        }
    }
}

/// Tokenizing and classifying a route string: split on `?` (at most one),
/// demand a leading `/`, split the path on `/` and classify each segment,
/// refuse a non-final wildcard, and split the query part, if any, on `&`.
pub open spec fn parse_route_v(s: Seq<char>) -> Result<RouteParserV, RouteErrorV> {
    let parts = split_on(s, '?');
    if parts.len() > 2 {
        Err(
            RouteErrorV::MalformedRoute { reason: MalformedReason::TooManyQuerySeparators },
        )
    } else if parts[0].len() == 0 || parts[0][0] != '/' {
        Err(RouteErrorV::MalformedRoute { reason: MalformedReason::MissingLeadingSlash })
    } else {
        let segs = classify_all(split_on(parts[0].drop_first(), '/'));
        if has_misplaced_wildcard(segs) {
            Err(RouteErrorV::InvalidWildcardPosition)
        } else {
            Ok(
                RouteParserV {
                    path_params: segs,
                    query_params: if parts.len() == 2 {
                        split_on(parts[1], '&')
                    } else {
                        Seq::empty()
                    },
                },
            )
        }
    }
}

impl RouteParser {
    /// Tokenizes and classifies one route string.
    pub fn new(route: &str) -> (r: Result<RouteParser, RouteError>)
        ensures
            match r {
                Ok(p) => parse_route_v(route@) == Ok::<RouteParserV, RouteErrorV>(p@),
                Err(e) => parse_route_v(route@) == Err::<RouteParserV, RouteErrorV>(e@),
            },
    {
        let parts = split_str(route, '?');
        proof {
            lemma_split_on_len(route@, '?');
        }
        if parts.len() > 2 {
            return Err(
                RouteError::MalformedRoute { reason: MalformedReason::TooManyQuerySeparators },
            );
        }
        let path: &String = &parts[0];
        proof {
            assert(path@ == split_on(route@, '?')[0]);
        }
        let path_len = path.as_str().unicode_len();
        if path_len == 0 || path.as_str().get_char(0) != '/' {
            return Err(
                RouteError::MalformedRoute { reason: MalformedReason::MissingLeadingSlash },
            );
        }
        let tail = path.as_str().substring_char(1, path_len);
        proof {
            assert(tail@ =~= path@.drop_first());
        }
        let raw_segs = split_str(tail, '/');
        let ghost segs_v = classify_all(split_on(path@.drop_first(), '/'));

        let mut path_params: Vec<PathParam> = Vec::new();
        let mut i: usize = 0;
        while i < raw_segs.len()
            invariant
                i <= raw_segs.len(),
                raw_segs.deep_view() == split_on(path@.drop_first(), '/'),
                segs_v == classify_all(split_on(path@.drop_first(), '/')),
                path_params@.len() == i,
                forall|k: int| 0 <= k < i ==> path_params@[k]@ == segs_v[k],
            decreases raw_segs.len() - i,
        {
            let seg = PathParam::new(raw_segs[i].as_str());
            proof {
                assert(raw_segs[i as int]@ == raw_segs.deep_view()[i as int]);
            }
            path_params.push(seg);
            i += 1;
        }
        proof {
            assert(path_params@.map_values(|p: PathParam| p@) =~= segs_v);
        }

        let n_segs = path_params.len();
        let mut misplaced = false;
        let mut j: usize = 0;
        while j < n_segs
            invariant
                j <= n_segs,
                n_segs == path_params@.len(),
                path_params@.map_values(|p: PathParam| p@) == segs_v,
                misplaced ==> has_misplaced_wildcard(segs_v),
                !misplaced ==> forall|k: int|
                    0 <= k < j ==> !(k < segs_v.len() - 1 && spec_must_be_last(segs_v[k])),
            decreases n_segs - j,
        {
            proof {
                assert(path_params@[j as int]@ == segs_v[j as int]);
            }
            if j + 1 < n_segs && path_params[j].must_be_last() {
                misplaced = true;
            }
            j += 1;
        }
        if misplaced {
            return Err(RouteError::InvalidWildcardPosition);
        }
        proof {
            assert(!has_misplaced_wildcard(segs_v));
        }

        let query_params: Vec<String> = if parts.len() == 2 {
            let q = split_str(parts[1].as_str(), '&');
            proof {
                assert(parts[1]@ == split_on(route@, '?')[1]);
            }
            q
        } else {
            let q: Vec<String> = Vec::new();
            proof {
                assert(q.deep_view() =~= Seq::<Seq<char>>::empty());
            }
            q
        };

        Ok(RouteParser { path_params, query_params })
    }
}

/// A parsed route attribute: the classified pattern, the query names, the
/// explicit state type where one was written, and the original pattern text.
pub struct Route {
    pub path_params: Vec<PathParam>,
    pub query_params: Vec<String>,
    pub state: Option<String>,
    pub route_lit: String,
}

/// Mathematical model of [`Route`].
pub struct RouteV {
    pub path_params: Seq<PathParamV>,
    pub query_params: Seq<Seq<char>>,
    pub state: Option<Seq<char>>,
    pub route_lit: Seq<char>,
}

impl View for Route {
    type V = RouteV;

    open spec fn view(&self) -> RouteV {
        RouteV {
            path_params: self.path_params@.map_values(|p: PathParam| p@),
            query_params: self.query_params.deep_view(),
            state: match &self.state {
                Some(s) => Some(s@),
                None => None,
            },
            route_lit: self.route_lit@,
        }
    }
}

} // verus!
