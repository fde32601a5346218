//! Plain request and response values, and the request-line reader.
//!
//! Wire-level HTTP parsing and serialization are outside this crate's scope;
//! a request here is just a method and a path, and a response a status code
//! and a body. The reader below takes the first two whitespace-delimited
//! tokens of a decoded request line, nothing more.

use vstd::prelude::*;
use vstd::string::StrSliceExecFns;

use crate::path::to_char_vec;

verus! {

/// An HTTP verb.
#[derive(Clone, Copy, Debug, PartialEq, Eq, Structural)]
pub enum Method {
    Get,
    Post,
    Put,
    Delete,
    Head,
    Options,
    Patch,
}

/// Error returned when a request line cannot be read.
#[derive(Clone, Copy, Debug, PartialEq, Eq, Structural)]
pub enum ParseError {
    Malformed,
}

/// The token that names a verb on the request line.
pub open spec fn method_token(m: Method) -> Seq<char> {
    match m {
        Method::Get => seq!['G', 'E', 'T'],
        Method::Post => seq!['P', 'O', 'S', 'T'],
        Method::Put => seq!['P', 'U', 'T'],
        Method::Delete => seq!['D', 'E', 'L', 'E', 'T', 'E'],
        Method::Head => seq!['H', 'E', 'A', 'D'],
        Method::Options => seq!['O', 'P', 'T', 'I', 'O', 'N', 'S'],
        Method::Patch => seq!['P', 'A', 'T', 'C', 'H'],
    }
}

/// The verb a token names, if any.
pub open spec fn spec_method_of(token: Seq<char>) -> Option<Method> {
    if token == method_token(Method::Get) {
        Some(Method::Get)
    } else if token == method_token(Method::Post) {
        Some(Method::Post)
    } else if token == method_token(Method::Put) {
        Some(Method::Put)
    } else if token == method_token(Method::Delete) {
        Some(Method::Delete)
    } else if token == method_token(Method::Head) {
        Some(Method::Head)
    } else if token == method_token(Method::Options) {
        Some(Method::Options)
    } else if token == method_token(Method::Patch) {
        Some(Method::Patch)
    } else {
        None
    }
}

/// One request: what dispatch consumes. Middleware may replace the in-flight
/// value with a rewritten one.
#[derive(Clone, Debug)]
pub struct Request {
    /// The request's verb.
    pub method: Method,
    /// The request's path, as it stands on the request line.
    pub path: String,
}

/// Mathematical model of a request.
#[verifier::ext_equal]
pub struct ReqView {
    pub method: Method,
    pub path: Seq<char>,
}

impl View for Request {
    type V = ReqView;

    open spec fn view(&self) -> ReqView {
        ReqView { method: self.method, path: self.path@ }
    }
}

/// One response: produced exactly once per dispatched request.
#[derive(Clone, Debug)]
pub struct Response {
    /// The status code.
    pub status: u16,
    /// The body text.
    pub body: String,
}

/// Mathematical model of a response.
#[verifier::ext_equal]
pub struct RespView {
    pub status: u16,
    pub body: Seq<char>,
}

impl View for Response {
    type V = RespView;

    open spec fn view(&self) -> RespView {
        RespView { status: self.status, body: self.body@ }
    }
}

/// The response dispatch falls back to when no pipeline entry produces one:
/// status 404 with an empty body.
pub open spec fn not_found_view() -> RespView {
    RespView { status: 404u16, body: Seq::<char>::empty() }
}

impl Response {
    /// The defined no-match default response.
    pub fn not_found() -> (r: Response)
        ensures
            r@ == not_found_view(),
    {
        let r = Response { status: 404, body: String::new() };
        proof {
            assert(r@ =~= not_found_view());
        }
        r
    }
}

/// Whether a character can stand inside a request-line token.
pub open spec fn is_token_char(c: char) -> bool {
    c != ' ' && c != '\r' && c != '\n'
}

/// The first position at or after `from` that ends a token: the first
/// space, carriage return or line feed, or the end of the text.
pub open spec fn token_end(s: Seq<char>, from: int) -> int
    decreases s.len() - from,
{
    if from < 0 || from >= s.len() {
        s.len() as int
    } else if !is_token_char(s[from]) {
        from
    } else {
        token_end(s, from + 1)
    }
}

/// What reading a request line yields: the verb named by the first token and
/// the path given by the second, or nothing when either token is empty, the
/// verb is unknown, or the two are not separated by a single space.
pub open spec fn spec_parse_request(t: Seq<char>) -> Option<(Method, Seq<char>)> {
    let me = token_end(t, 0);
    if me == 0 || me >= t.len() || t[me] != ' ' {
        None
    } else {
        match spec_method_of(t.subrange(0, me)) {
            Option::None => None,
            Option::Some(m) => {
                let ps = me + 1;
                let pe = token_end(t, ps);
                if pe == ps {
                    None
                } else {
                    Some((m, t.subrange(ps, pe)))
                }
            },
        }
    }
}

fn token_end_exec(chars: &Vec<char>, from: usize) -> (e: usize)
    requires
        from <= chars.len(),
    ensures
        e == token_end(chars@, from as int),
        from <= e <= chars.len(),
{
    let mut i: usize = from;
    while i < chars.len()
        invariant
            from <= i <= chars.len(),
            token_end(chars@, from as int) == token_end(chars@, i as int),
        decreases chars.len() - i,
    {
        let c = chars[i];
        if c == ' ' || c == '\r' || c == '\n' {
            proof {
                assert(token_end(chars@, i as int) == i);
            }
            return i;
        }
        proof {
            assert(token_end(chars@, i as int) == token_end(chars@, i + 1));
        }
        i += 1;
    }
    proof {
        assert(token_end(chars@, i as int) == chars@.len());
    }
    i
}

fn method_from_token(chars: &Vec<char>, from: usize, to: usize) -> (m: Option<Method>)
    requires
        from <= to <= chars.len(),
    ensures
        m == spec_method_of(chars@.subrange(from as int, to as int)),
{
    let ghost token = chars@.subrange(from as int, to as int);
    proof {
        assert(token.len() == to - from);
        assert forall|k: int| 0 <= k < token.len() implies token[k] == chars@[from + k] by {}
        assert(method_token(Method::Get).len() == 3 && method_token(Method::Get)[0] == 'G'
            && method_token(Method::Get)[1] == 'E' && method_token(Method::Get)[2] == 'T');
        assert(method_token(Method::Put).len() == 3 && method_token(Method::Put)[0] == 'P'
            && method_token(Method::Put)[1] == 'U' && method_token(Method::Put)[2] == 'T');
        assert(method_token(Method::Post).len() == 4 && method_token(Method::Post)[0] == 'P'
            && method_token(Method::Post)[1] == 'O' && method_token(Method::Post)[2] == 'S'
            && method_token(Method::Post)[3] == 'T');
        assert(method_token(Method::Head).len() == 4 && method_token(Method::Head)[0] == 'H'
            && method_token(Method::Head)[1] == 'E' && method_token(Method::Head)[2] == 'A'
            && method_token(Method::Head)[3] == 'D');
        assert(method_token(Method::Patch).len() == 5 && method_token(Method::Patch)[0] == 'P'
            && method_token(Method::Patch)[1] == 'A' && method_token(Method::Patch)[2] == 'T'
            && method_token(Method::Patch)[3] == 'C' && method_token(Method::Patch)[4] == 'H');
        assert(method_token(Method::Delete).len() == 6 && method_token(Method::Delete)[0] == 'D'
            && method_token(Method::Delete)[1] == 'E' && method_token(Method::Delete)[2] == 'L'
            && method_token(Method::Delete)[3] == 'E' && method_token(Method::Delete)[4] == 'T'
            && method_token(Method::Delete)[5] == 'E');
        assert(method_token(Method::Options).len() == 7 && method_token(Method::Options)[0] == 'O'
            && method_token(Method::Options)[1] == 'P' && method_token(Method::Options)[2] == 'T'
            && method_token(Method::Options)[3] == 'I' && method_token(Method::Options)[4] == 'O'
            && method_token(Method::Options)[5] == 'N' && method_token(Method::Options)[6]
            == 'S');
    }
    let len = to - from;
    let r: Option<Method> = if len == 3 {
        if chars[from] == 'G' && chars[from + 1] == 'E' && chars[from + 2] == 'T' {
            proof {
                assert(token =~= method_token(Method::Get));
            }
            Some(Method::Get)
        } else if chars[from] == 'P' && chars[from + 1] == 'U' && chars[from + 2] == 'T' {
            proof {
                assert(token =~= method_token(Method::Put));
            }
            Some(Method::Put)
        } else {
            None
        }
    } else if len == 4 {
        if chars[from] == 'P' && chars[from + 1] == 'O' && chars[from + 2] == 'S' && chars[from
            + 3] == 'T' {
            proof {
                assert(token =~= method_token(Method::Post));
            }
            Some(Method::Post)
        } else if chars[from] == 'H' && chars[from + 1] == 'E' && chars[from + 2] == 'A'
            && chars[from + 3] == 'D' {
            proof {
                assert(token =~= method_token(Method::Head));
            }
            Some(Method::Head)
        } else {
            None
        }
    } else if len == 5 {
        if chars[from] == 'P' && chars[from + 1] == 'A' && chars[from + 2] == 'T' && chars[from
            + 3] == 'C' && chars[from + 4] == 'H' {
            proof {
                assert(token =~= method_token(Method::Patch));
            }
            Some(Method::Patch)
        } else {
            None
        }
    } else if len == 6 {
        if chars[from] == 'D' && chars[from + 1] == 'E' && chars[from + 2] == 'L' && chars[from
            + 3] == 'E' && chars[from + 4] == 'T' && chars[from + 5] == 'E' {
            proof {
                assert(token =~= method_token(Method::Delete));
            }
            Some(Method::Delete)
        } else {
            None
        }
    } else if len == 7 {
        if chars[from] == 'O' && chars[from + 1] == 'P' && chars[from + 2] == 'T' && chars[from
            + 3] == 'I' && chars[from + 4] == 'O' && chars[from + 5] == 'N' && chars[from + 6]
            == 'S' {
            proof {
                assert(token =~= method_token(Method::Options));
            }
            Some(Method::Options)
        } else {
            None
        }
    } else {
        None
    };
    r
}

impl Request {
    /// Reads a request line: the verb from its first token, the path from
    /// its second. Returns `Err` exactly when `spec_parse_request` yields
    /// nothing.
    pub fn parse(text: &str) -> (r: Result<Request, ParseError>)
        ensures
            match r {
                Ok(req) => spec_parse_request(text@) == Some((req.method, req.path@)),
                Err(e) => spec_parse_request(text@) is None && e == ParseError::Malformed,
            },
    {
        let chars = to_char_vec(text);
        let me = token_end_exec(&chars, 0);
        if me == 0 {
            return Err(ParseError::Malformed);
        }
        if me >= chars.len() {
            return Err(ParseError::Malformed);
        }
        if chars[me] != ' ' {
            return Err(ParseError::Malformed);
        }
        let m = match method_from_token(&chars, 0, me) {
            Some(m) => m,
            None => {
                return Err(ParseError::Malformed);
            },
        };
        let ps = me + 1;
        let pe = token_end_exec(&chars, ps);
        if pe == ps {
            return Err(ParseError::Malformed);
        }
        let path_str = text.substring_char(ps, pe);
        let req = Request { method: m, path: path_str.to_owned() };
        Ok(req)
    }
}

} // verus!
