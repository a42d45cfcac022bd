//! The request methods that the decoder recognises.

use super::text::same_text;
use std::str::FromStr;
use vstd::prelude::*;

verus! {

/// A request method. The names are matched case-sensitively.
#[derive(Copy, Clone, Debug, PartialEq, Eq, Structural)]
pub enum Method {
    GET,
    DELETE,
    POST,
    PUT,
    HEAD,
    CONNECT,
    OPTIONS,
    TRACE,
    PATCH,
}

/// A token that names no method.
#[derive(Copy, Clone, Debug, PartialEq, Eq, Structural)]
pub struct MethodError;

impl Method {
    /// The token that names this method.
    pub open spec fn name(self) -> Seq<char> {
        match self {
            Method::GET => "GET"@,
            Method::DELETE => "DELETE"@,
            Method::POST => "POST"@,
            Method::PUT => "PUT"@,
            Method::HEAD => "HEAD"@,
            Method::CONNECT => "CONNECT"@,
            Method::OPTIONS => "OPTIONS"@,
            Method::TRACE => "TRACE"@,
            Method::PATCH => "PATCH"@,
        }
    }

    /// The method that a token names, if it names one.
    pub open spec fn named(token: Seq<char>) -> Option<Method> {
        if token == "GET"@ {
            Some(Method::GET)
        } else if token == "DELETE"@ {
            Some(Method::DELETE)
        } else if token == "POST"@ {
            Some(Method::POST)
        } else if token == "PUT"@ {
            Some(Method::PUT)
        } else if token == "HEAD"@ {
            Some(Method::HEAD)
        } else if token == "CONNECT"@ {
            Some(Method::CONNECT)
        } else if token == "OPTIONS"@ {
            Some(Method::OPTIONS)
        } else if token == "TRACE"@ {
            Some(Method::TRACE)
        } else if token == "PATCH"@ {
            Some(Method::PATCH)
        } else {
            None
        }
    }

    /// Reads a method from its token.
    pub fn parse(token: &str) -> (r: Result<Method, MethodError>)
        ensures
            match r {
                Ok(m) => Method::named(token@) == Some(m),
                Err(_) => Method::named(token@) is None,
            },
    {
        if same_text(token, "GET") {
            Ok(Method::GET)
        } else if same_text(token, "DELETE") {
            Ok(Method::DELETE)
        } else if same_text(token, "POST") {
            Ok(Method::POST)
        } else if same_text(token, "PUT") {
            Ok(Method::PUT)
        } else if same_text(token, "HEAD") {
            Ok(Method::HEAD)
        } else if same_text(token, "CONNECT") {
            Ok(Method::CONNECT)
        } else if same_text(token, "OPTIONS") {
            Ok(Method::OPTIONS)
        } else if same_text(token, "TRACE") {
            Ok(Method::TRACE)
        } else if same_text(token, "PATCH") {
            Ok(Method::PATCH)
        } else {
            Err(MethodError)
        }
    }
}

impl FromStr for Method {
    type Err = MethodError;

    fn from_str(s: &str) -> (r: Result<Self, Self::Err>)
        ensures
            match r {
                Ok(m) => Method::named(s@) == Some(m),
                Err(_) => Method::named(s@) is None,
            },
    {
        Method::parse(s)
    }
}

/// Every method is named by its own token and by no other method's: the
/// names are pairwise different.
pub proof fn lemma_name_names_method(m: Method)
    ensures
        Method::named(m.name()) == Some(m),
{
    reveal_strlit("GET");
    reveal_strlit("DELETE");
    reveal_strlit("POST");
    reveal_strlit("PUT");
    reveal_strlit("HEAD");
    reveal_strlit("CONNECT");
    reveal_strlit("OPTIONS");
    reveal_strlit("TRACE");
    reveal_strlit("PATCH");
    assert("GET"@.len() == 3 && "GET"@[0] == 'G');
    assert("PUT"@.len() == 3 && "PUT"@[0] == 'P');
    assert("POST"@.len() == 4 && "POST"@[0] == 'P');
    assert("HEAD"@.len() == 4 && "HEAD"@[0] == 'H');
    assert("TRACE"@.len() == 5 && "TRACE"@[0] == 'T');
    assert("PATCH"@.len() == 5 && "PATCH"@[0] == 'P');
    assert("DELETE"@.len() == 6);
    assert("CONNECT"@.len() == 7 && "CONNECT"@[0] == 'C');
    assert("OPTIONS"@.len() == 7 && "OPTIONS"@[0] == 'O');
}

/// A token names a method only if it is that method's name.
pub proof fn lemma_named_is_name(token: Seq<char>)
    ensures
        Method::named(token) matches Some(m) ==> token == m.name(),
{
}

} // verus!
