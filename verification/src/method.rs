//! The HTTP request method.
use vstd::prelude::*;

verus! {

/// An HTTP verb. `Get` is the default.
#[derive(Clone, Copy, PartialEq, Eq, Structural, Debug)]
pub enum Method {
    Get,
    Head,
    Post,
    Put,
    Delete,
    Options,
    Patch,
    Trace,
}

impl Method {
    /// The canonical upper-case name of the verb.
    pub open spec fn spec_name(self) -> Seq<char> {
        match self {
            Method::Get => "GET"@,
            Method::Head => "HEAD"@,
            Method::Post => "POST"@,
            Method::Put => "PUT"@,
            Method::Delete => "DELETE"@,
            Method::Options => "OPTIONS"@,
            Method::Patch => "PATCH"@,
            Method::Trace => "TRACE"@,
        }
    }

    pub fn name(&self) -> (r: &'static str)
        ensures
            r@ == self.spec_name(),
    {
        match self {
            Method::Get => "GET",
            Method::Head => "HEAD",
            Method::Post => "POST",
            Method::Put => "PUT",
            Method::Delete => "DELETE",
            Method::Options => "OPTIONS",
            Method::Patch => "PATCH",
            Method::Trace => "TRACE",
        }
    }

    /// The verb written with the given upper-case name, if there is one.
    pub open spec fn spec_from_name(s: Seq<char>) -> Option<Method> {
        if s == "GET"@ {
            Some(Method::Get)
        } else if s == "HEAD"@ {
            Some(Method::Head)
        } else if s == "POST"@ {
            Some(Method::Post)
        } else if s == "PUT"@ {
            Some(Method::Put)
        } else if s == "DELETE"@ {
            Some(Method::Delete)
        } else if s == "OPTIONS"@ {
            Some(Method::Options)
        } else if s == "PATCH"@ {
            Some(Method::Patch)
        } else if s == "TRACE"@ {
            Some(Method::Trace)
        } else {
            None
        }
    }

    pub fn from_name(s: &str) -> (r: Option<Method>)
        ensures
            r == Method::spec_from_name(s@),
    {
        if crate::text::str_eq(s, "GET") {
            Some(Method::Get)
        } else if crate::text::str_eq(s, "HEAD") {
            Some(Method::Head)
        } else if crate::text::str_eq(s, "POST") {
            Some(Method::Post)
        } else if crate::text::str_eq(s, "PUT") {
            Some(Method::Put)
        } else if crate::text::str_eq(s, "DELETE") {
            Some(Method::Delete)
        } else if crate::text::str_eq(s, "OPTIONS") {
            Some(Method::Options)
        } else if crate::text::str_eq(s, "PATCH") {
            Some(Method::Patch)
        } else if crate::text::str_eq(s, "TRACE") {
            Some(Method::Trace)
        } else {
            None
        }
    }
}

impl Default for Method {
    fn default() -> (r: Method)
        ensures
            r == Method::Get,
    {
        Method::Get
    }
}

} // verus!
