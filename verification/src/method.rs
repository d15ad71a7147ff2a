//! The request methods and their literals.

use vstd::prelude::*;
use crate::text::same_text;

verus! {

/// An HTTP request method.
#[derive(Debug, Clone, Copy, PartialEq, Eq, Structural)]
pub enum Method {
    Get,
    Head,
    Put,
    Post,
    Delete,
    Patch,
    Options,
    Trace,
    Connect,
}

/// The literal of a method, in upper case.
pub open spec fn method_name(method: Method) -> Seq<char> {
    match method {
        Method::Get => "GET"@,
        Method::Head => "HEAD"@,
        Method::Put => "PUT"@,
        Method::Post => "POST"@,
        Method::Delete => "DELETE"@,
        Method::Patch => "PATCH"@,
        Method::Options => "OPTIONS"@,
        Method::Trace => "TRACE"@,
        Method::Connect => "CONNECT"@,
    }
}

/// The method whose literal a token is, letter for letter.
pub open spec fn method_named(token: Seq<char>) -> Option<Method> {
    if token == "GET"@ {
        Some(Method::Get)
    } else if token == "PUT"@ {
        Some(Method::Put)
    } else if token == "HEAD"@ {
        Some(Method::Head)
    } else if token == "POST"@ {
        Some(Method::Post)
    } else if token == "PATCH"@ {
        Some(Method::Patch)
    } else if token == "OPTIONS"@ {
        Some(Method::Options)
    } else if token == "DELETE"@ {
        Some(Method::Delete)
    } else if token == "TRACE"@ {
        Some(Method::Trace)
    } else if token == "CONNECT"@ {
        Some(Method::Connect)
    } else {
        None
    }
}

impl Method {
    /// The method that a token names, if it is one of the nine literals.
    pub fn from_token(token: &str) -> (r: Option<Method>)
        ensures
            r == method_named(token@),
    {
        if same_text(token, "GET") {
            Some(Method::Get)
        } else if same_text(token, "PUT") {
            Some(Method::Put)
        } else if same_text(token, "HEAD") {
            Some(Method::Head)
        } else if same_text(token, "POST") {
            Some(Method::Post)
        } else if same_text(token, "PATCH") {
            Some(Method::Patch)
        } else if same_text(token, "OPTIONS") {
            Some(Method::Options)
        } else if same_text(token, "DELETE") {
            Some(Method::Delete)
        } else if same_text(token, "TRACE") {
            Some(Method::Trace)
        } else if same_text(token, "CONNECT") {
            Some(Method::Connect)
        } else {
            None
        }
    }

    /// The literal of this method.
    pub fn as_str(&self) -> (name: &'static str)
        ensures
            name@ == method_name(*self),
    {
        match self {
            Method::Get => "GET",
            Method::Head => "HEAD",
            Method::Put => "PUT",
            Method::Post => "POST",
            Method::Delete => "DELETE",
            Method::Patch => "PATCH",
            Method::Options => "OPTIONS",
            Method::Trace => "TRACE",
            Method::Connect => "CONNECT",
        }
    }
}

} // verus!
