//! Request method and protocol version types.

use vstd::prelude::*;
use vstd::string::*;
use crate::abnf;
use crate::error::HttpError;

verus! {

/// The closed set of methods the core understands. `Unset` is the state of a
/// freshly allocated request before parsing fills it in.
#[derive(Clone, Copy, PartialEq, Eq, Structural, Debug)]
pub enum HttpMethod {
    Unset,
    Get,
    Post,
}

/// Case-insensitive equality of two characters, where letters compare equal
/// to their other-case ASCII counterpart.
pub open spec fn spec_char_ci_eq(a: char, b: char) -> bool {
    a == b || (abnf::spec_is_alpha(a) && abnf::spec_is_alpha(b) && (a as u32 == b as u32 + 0x20
        || b as u32 == a as u32 + 0x20))
}

/// The method a (case-normalized) method token denotes, if any.
pub open spec fn spec_method_from(s: Seq<char>) -> Option<HttpMethod> {
    if s.len() == 3 && spec_char_ci_eq(s[0], 'G') && spec_char_ci_eq(s[1], 'E')
        && spec_char_ci_eq(s[2], 'T') {
        Some(HttpMethod::Get)
    } else if s.len() == 4 && spec_char_ci_eq(s[0], 'P') && spec_char_ci_eq(s[1], 'O')
        && spec_char_ci_eq(s[2], 'S') && spec_char_ci_eq(s[3], 'T') {
        Some(HttpMethod::Post)
    } else {
        None
    }
}

impl HttpMethod {
    /// Map a method token onto the closed method set, ignoring letter case;
    /// anything but GET and POST is a bad request.
    pub fn from_str(s: &str) -> (r: Result<Self, HttpError>)
        ensures
            match r {
                Ok(m) => spec_method_from(s@) == Some(m),
                Err(e) => {
                    &&& spec_method_from(s@) == None::<HttpMethod>
                    &&& e.code == 400
                    &&& e.detail@ == "Unsupported HTTP Method"@
                },
            },
    {
        let n = s.unicode_len();
        if n == 3 {
            let c0 = s.get_char(0);
            let c1 = s.get_char(1);
            let c2 = s.get_char(2);
            if (c0 == 'G' || c0 == 'g') && (c1 == 'E' || c1 == 'e') && (c2 == 'T' || c2 == 't') {
                return Ok(HttpMethod::Get);
            }
        } else if n == 4 {
            let c0 = s.get_char(0);
            let c1 = s.get_char(1);
            let c2 = s.get_char(2);
            let c3 = s.get_char(3);
            if (c0 == 'P' || c0 == 'p') && (c1 == 'O' || c1 == 'o') && (c2 == 'S' || c2 == 's')
                && (c3 == 'T' || c3 == 't') {
                return Ok(HttpMethod::Post);
            }
        }
        Err(HttpError { code: 400, detail: String::from_str("Unsupported HTTP Method") })
    }
}

/// The protocol versions the core can name.
#[derive(Clone, Copy, PartialEq, Eq, Structural, Debug)]
pub enum HttpVersion {
    V1_0,
    V1_1,
    V2,
    V3,
}

/// The version a version marker string denotes, if any.
pub open spec fn spec_version_from(s: Seq<char>) -> Option<HttpVersion> {
    if s == "HTTP/1.0"@ {
        Some(HttpVersion::V1_0)
    } else if s == "HTTP/1.1"@ {
        Some(HttpVersion::V1_1)
    } else if s == "HTTP/2"@ {
        Some(HttpVersion::V2)
    } else if s == "HTTP/3"@ {
        Some(HttpVersion::V3)
    } else {
        None
    }
}

impl HttpVersion {
    /// Map a version marker onto the closed version set; anything else is a
    /// bad request.
    pub fn from_str(s: &str) -> (r: Result<Self, HttpError>)
        ensures
            match r {
                Ok(v) => spec_version_from(s@) == Some(v),
                Err(e) => {
                    &&& spec_version_from(s@) == None::<HttpVersion>
                    &&& e.code == 400
                    &&& e.detail@ == "Unsupported HTTP Version"@
                },
            },
    {
        let t = s.to_owned();
        if t == String::from_str("HTTP/1.0") {
            Ok(HttpVersion::V1_0)
        } else if t == String::from_str("HTTP/1.1") {
            Ok(HttpVersion::V1_1)
        } else if t == String::from_str("HTTP/2") {
            Ok(HttpVersion::V2)
        } else if t == String::from_str("HTTP/3") {
            Ok(HttpVersion::V3)
        } else {
            Err(HttpError { code: 400, detail: String::from_str("Unsupported HTTP Version") })
        }
    }
}

} // verus!
