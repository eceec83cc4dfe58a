//! A compiler for compact route-pattern strings.
//!
//! A pattern such as `/item/:id?amount&offset` is tokenized into path
//! segments and query names, each dynamic segment is classified, and the
//! names are bound against a pool of typed handler parameters.  The result
//! is a compiled route from which the router path string, the display-format
//! string and the ordered identifier bindings are generated.

use vstd::prelude::*;

pub mod compilation;
pub mod laws;
pub mod metadata;
pub mod param_type;
pub mod parsing;
pub mod strutil;

verus! {

/// The HTTP verbs supported by HTMX.
#[non_exhaustive]
#[derive(Debug, PartialEq, Eq)]
pub enum HtmxMethod {
    Get,
    Post,
    Delete,
    Patch,
    Put,
}

impl HtmxMethod {
    /// The HTML attribute name that corresponds with this verb.
    pub open spec fn spec_attribute_name(&self) -> Seq<char> {
        match self {
            HtmxMethod::Get => "hx-get"@,
            HtmxMethod::Post => "hx-post"@,
            HtmxMethod::Delete => "hx-delete"@,
            HtmxMethod::Patch => "hx-patch"@,
            HtmxMethod::Put => "hx-put"@,
        }
    }

    /// The HTML attribute name for this verb, e.g. `hx-get`.
    pub fn attribute_name(&self) -> (r: String)
        ensures
            r@ == self.spec_attribute_name(),
    {
        match self {
            HtmxMethod::Get => String::from_str("hx-get"),
            HtmxMethod::Post => String::from_str("hx-post"),
            HtmxMethod::Delete => String::from_str("hx-delete"),
            HtmxMethod::Patch => String::from_str("hx-patch"),
            HtmxMethod::Put => String::from_str("hx-put"),
        }
    }
}

} // verus!
