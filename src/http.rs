//! What the request layer reads from headers: the negotiated content type
//! and the bearer token of the authorization header.
use vstd::prelude::*;

use crate::codec::opt_view;
use crate::text::{contains_text, occurs_at, text_contains};

verus! {

#[derive(Debug, Clone, Copy, PartialEq, Eq, Structural, Default)]
pub enum ContentTypes {
    #[default]
    Json,
    Html,
    Other,
}

#[derive(Debug, Clone, Copy, Default)]
pub struct ContentType(pub ContentTypes);

pub open spec fn json_media() -> Seq<char> {
    seq!['a', 'p', 'p', 'l', 'i', 'c', 'a', 't', 'i', 'o', 'n', '/', 'j', 's', 'o', 'n']
}

pub open spec fn html_media() -> Seq<char> {
    seq!['t', 'e', 'x', 't', '/', 'h', 't', 'm', 'l']
}

/// The content type that a content-type or accept header value asks for.
pub open spec fn content_type_spec(v: Option<Seq<char>>) -> ContentTypes {
    match v {
        Some(t) => if contains_text(t, json_media()) {
            ContentTypes::Json
        } else if contains_text(t, html_media()) {
            ContentTypes::Html
        } else {
            ContentTypes::Other
        },
        None => ContentTypes::Other,
    }
}

impl ContentType {
    /// The content type asked for by a content-type or accept header value:
    /// JSON where it names `application/json`, else HTML where it names
    /// `text/html`, else other.
    pub fn from_header_value(value: &Option<String>) -> (r: ContentType)
        ensures
            r.0 == content_type_spec(opt_view(*value)),
    {
        proof {
            reveal_strlit("application/json");
            reveal_strlit("text/html");
        }
        assert("application/json"@ =~= json_media());
        assert("text/html"@ =~= html_media());
        match value {
            Some(c) => if text_contains(c.as_str(), "application/json") {
                ContentType(ContentTypes::Json)
            } else if text_contains(c.as_str(), "text/html") {
                ContentType(ContentTypes::Html)
            } else {
                ContentType(ContentTypes::Other)
            },
            None => ContentType(ContentTypes::Other),
        }
    }
}

/// Why an authorization header gave no token.
#[derive(Debug, Clone, Copy, PartialEq, Eq, Structural)]
pub enum HeaderError {
    /// There is no authorization header.
    MissingAuth,
    /// The header is not of the form `Bearer <token>`.
    HeaderDecodeBearer,
}

/// The token of an authorization header.
#[derive(Debug, PartialEq, Eq, Clone)]
pub struct AuthUserHeaderCustom(pub String);

pub open spec fn bearer_prefix() -> Seq<char> {
    seq!['B', 'e', 'a', 'r', 'e', 'r', ' ']
}

/// The token of a header value `Bearer <token>`: what follows the first space
/// when what precedes it is exactly `Bearer`.
pub open spec fn bearer_token(a: Seq<char>) -> Option<Seq<char>> {
    if a.len() >= 7 && a.subrange(0, 7) == bearer_prefix() {
        Some(a.subrange(7, a.len() as int))
    } else {
        None
    }
}

impl AuthUserHeaderCustom {
    pub fn from_header(contents: &str) -> (r: AuthUserHeaderCustom)
        ensures
            r.0@ == contents@,
    {
        AuthUserHeaderCustom(contents.to_owned())
    }

    /// The bearer token of the authorization header value, if there is one.
    pub fn decode(authorization: &Option<String>) -> (r: Result<AuthUserHeaderCustom, HeaderError>)
        ensures
            match opt_view(*authorization) {
                None => r == Err::<AuthUserHeaderCustom, HeaderError>(HeaderError::MissingAuth),
                Some(a) => match bearer_token(a) {
                    Some(t) => r is Ok && r->Ok_0.0@ == t,
                    None => r == Err::<AuthUserHeaderCustom, HeaderError>(HeaderError::HeaderDecodeBearer),
                },
            },
    {
        proof {
            reveal_strlit("Bearer ");
        }
        assert("Bearer "@ =~= bearer_prefix());
        let a = match authorization {
            Some(a) => a.as_str(),
            None => return Err(HeaderError::MissingAuth),
        };
        let n = a.unicode_len();
        if n >= 7 && occurs_at(a, "Bearer ", 0) {
            Ok(AuthUserHeaderCustom::from_header(a.substring_char(7, n)))
        } else {
            Err(HeaderError::HeaderDecodeBearer)
        }
    }
}

/// The query of the sign-in callback.
#[derive(Debug, Clone)]
pub struct CallbackQuery {
    pub code: String,
    pub state: String,
}

} // verus!
