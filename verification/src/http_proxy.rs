//! The HTTP proxy request parser and response builders: the CR-LF request
//! line split into exactly three tokens, case-folded headers with a byte
//! budget, URI decomposition for CONNECT and absolute-URI forms, Basic
//! proxy-authorization parsing, and the forwarded-request and error-response
//! texts.

use vstd::prelude::*;

use crate::auth::{spec_outcome_granted, AuthError};
use crate::base64::{decode_base64, spec_b64_decode};
use crate::strutil::{
    find_char, is_ws, lower_string, push_char, spec_dec_string, spec_find_char, spec_is_ws,
    spec_lower_chars, spec_parse_u16, spec_split, spec_trim, spec_upper_chars, spec_views,
    parse_u16, split_str, substr, trim_str, upper_string,
};
use vstd::string::StringSliceAdditionalSpecFns;

verus! {

broadcast use vstd::string::group_string_axioms;

/// The ways a proxy request is refused.
#[derive(Debug, Clone, Copy, PartialEq, Eq, Structural)]
pub enum HttpError {
    EmptyRequest,
    MalformedRequestLine,
    OversizeRequest,
    InvalidUri,
    InvalidPort,
}

impl HttpError {
    /// A short description of the error.
    pub fn message(&self) -> (r: &'static str) {
        match self {
            HttpError::EmptyRequest => "empty HTTP request line",
            HttpError::MalformedRequestLine => "invalid HTTP request line format",
            HttpError::OversizeRequest => "request exceeds the size limit",
            HttpError::InvalidUri => "invalid proxy URI format",
            HttpError::InvalidPort => "invalid port in URI",
        }
    }
}

/// The maximal runs of non-whitespace characters, in order.
pub open spec fn spec_ws_tokens(s: Seq<char>) -> Seq<Seq<char>>
    decreases s.len(),
{
    if s.len() == 0 {
        Seq::<Seq<char>>::empty()
    } else if spec_is_ws(s[0]) {
        spec_ws_tokens(s.skip(1))
    } else {
        let rest = spec_ws_tokens(s.skip(1));
        if s.len() >= 2 && !spec_is_ws(s[1]) {
            seq![seq![s[0]] + rest[0]] + rest.skip(1)
        } else {
            seq![seq![s[0]]] + rest
        }
    }
}

/// Splits a string into its whitespace-separated tokens, starting at `from`.
fn ws_tokens_from(s: &str, from: usize) -> (tokens: Vec<String>)
    requires
        from <= s@.len(),
    ensures
        spec_views(tokens@) == spec_ws_tokens(s@.skip(from as int)),
    decreases s@.len() - from,
{
    let n = s.unicode_len();
    if from == n {
        let tokens: Vec<String> = Vec::new();
        proof {
            assert(s@.skip(from as int) =~= Seq::<char>::empty());
            assert(spec_views(tokens@) =~= spec_ws_tokens(s@.skip(from as int)));
        }
        return tokens;
    }
    let c = s.get_char(from);
    proof {
        assert(s@.skip(from as int)[0] == c);
        assert(s@.skip(from as int).skip(1) =~= s@.skip(from as int + 1));
    }
    if is_ws(c) {
        ws_tokens_from(s, from + 1)
    } else {
        let mut rest = ws_tokens_from(s, from + 1);
        if from + 1 < n && !is_ws(s.get_char(from + 1)) {
            proof {
                assert(s@.skip(from as int)[1] == s@[from as int + 1]);
                assert(s@.skip(from as int + 1)[0] == s@[from as int + 1]);
                assert(spec_ws_tokens(s@.skip(from as int + 1)).len() >= 1);
            }
            let mut first = String::new();
            push_char(&mut first, c);
            first.append(rest[0].as_str());
            rest.set(0, first);
            proof {
                assert(spec_views(rest@) =~= spec_ws_tokens(s@.skip(from as int)));
            }
            rest
        } else {
            let mut tok = String::new();
            push_char(&mut tok, c);
            rest.insert(0, tok);
            proof {
                assert(spec_views(rest@) =~= spec_ws_tokens(s@.skip(from as int)));
            }
            rest
        }
    }
}

/// The views of a header list.
pub open spec fn spec_header_views(h: Seq<(String, String)>) -> Seq<(Seq<char>, Seq<char>)> {
    h.map_values(|p: (String, String)| (p.0@, p.1@))
}

pub open spec fn spec_has_header(h: Seq<(String, String)>, name: Seq<char>) -> bool {
    exists|i: int| 0 <= i < h.len() && (#[trigger] h[i]).0@ == name
}

pub open spec fn spec_header_index(h: Seq<(String, String)>, name: Seq<char>) -> int {
    choose|i: int| 0 <= i < h.len() && (#[trigger] h[i]).0@ == name
}

/// A parsed request: the three request-line tokens and the case-folded
/// headers, each name appearing once.
#[derive(Debug, Clone, PartialEq)]
pub struct HttpRequest {
    pub method: String,
    pub uri: String,
    pub version: String,
    pub headers: Vec<(String, String)>,
}

/// Whether the URI names its scheme.
pub open spec fn spec_starts_https(u: Seq<char>) -> bool {
    u.len() >= 8 && u.take(8) == "https://"@
}

pub open spec fn spec_starts_http(u: Seq<char>) -> bool {
    u.len() >= 7 && u.take(7) == "http://"@
}

/// `host:port` with exactly one colon and a port that fits in sixteen bits.
pub open spec fn spec_parse_connect_uri(u: Seq<char>) -> Result<(Seq<char>, u16), HttpError> {
    let parts = spec_split(u, ':');
    if parts.len() != 2 {
        Err(HttpError::InvalidUri)
    } else {
        match spec_parse_u16(parts[1]) {
            Some(p) => Ok((parts[0], p)),
            None => Err(HttpError::InvalidPort),
        }
    }
}

/// An absolute URI: the scheme prefix is stripped, the authority runs to the
/// first slash, an explicit port is taken after a colon, and otherwise the
/// scheme chooses 443 or 80.
pub open spec fn spec_parse_proxy_uri(u: Seq<char>) -> Result<(Seq<char>, u16), HttpError> {
    let stripped = if spec_starts_http(u) {
        u.skip(7)
    } else if spec_starts_https(u) {
        u.skip(8)
    } else {
        u
    };
    let slash = spec_find_char(stripped, '/');
    let head = if slash < 0 {
        stripped
    } else {
        stripped.take(slash)
    };
    let parts = spec_split(head, ':');
    if parts[0].len() == 0 {
        Err(HttpError::InvalidUri)
    } else if parts.len() > 1 {
        match spec_parse_u16(parts[1]) {
            Some(p) => Ok((parts[0], p)),
            None => Err(HttpError::InvalidPort),
        }
    } else {
        Ok((parts[0], if spec_starts_https(u) {
            443u16
        } else {
            80u16
        }))
    }
}

/// The target of a request: the CONNECT rule on CONNECT methods, the
/// absolute-URI rule otherwise.
pub open spec fn spec_get_host_port(r: HttpRequest) -> Result<(Seq<char>, u16), HttpError> {
    if spec_upper_chars(r.method@) == "CONNECT"@ {
        spec_parse_connect_uri(r.uri@)
    } else {
        spec_parse_proxy_uri(r.uri@)
    }
}

/// Finds a header by exact (already folded) name; meaningful with unique
/// names.
fn find_header_index(headers: &Vec<(String, String)>, name: &String) -> (r: Option<usize>)
    requires
        forall|i: int, j: int|
            0 <= i < j < headers@.len() ==> (#[trigger] headers@[i]).0@ != (
            #[trigger] headers@[j]).0@,
    ensures
        match r {
            Some(i) => i < headers@.len() && headers@[i as int].0@ == name@ && spec_has_header(
                headers@,
                name@,
            ) && i as int == spec_header_index(headers@, name@),
            None => !spec_has_header(headers@, name@),
        },
{
    let n = headers.len();
    for i in 0..n
        invariant
            n == headers@.len(),
            forall|k: int| 0 <= k < i ==> (#[trigger] headers@[k]).0@ != name@,
            forall|p: int, q: int|
                0 <= p < q < headers@.len() ==> (#[trigger] headers@[p]).0@ != (
                #[trigger] headers@[q]).0@,
    {
        if headers[i].0 == *name {
            proof {
                let j = spec_header_index(headers@, name@);
                assert(headers@[i as int].0@ == name@);
                assert(0 <= j < headers@.len() && headers@[j].0@ == name@);
                assert(i as int == j);
            }
            return Some(i);
        }
    }
    None
}

impl HttpRequest {
    /// Header names are unique, as in a mapping.
    pub open spec fn wf(self) -> bool {
        forall|i: int, j: int|
            0 <= i < j < self.headers@.len() ==> (#[trigger] self.headers@[i]).0@ != (
            #[trigger] self.headers@[j]).0@
    }

    /// Whether the method is CONNECT, ASCII case-insensitively.
    pub fn is_connect(&self) -> (r: bool)
        ensures
            r == (spec_upper_chars(self.method@) == "CONNECT"@),
    {
        let upper = upper_string(self.method.as_str());
        upper == String::from_str("CONNECT")
    }

    /// The value stored under an exact header name.
    pub fn header_value(&self, name: &str) -> (r: Option<&String>)
        requires
            self.wf(),
        ensures
            match r {
                Some(v) => spec_has_header(self.headers@, name@) && v@ == self.headers@[
                    spec_header_index(self.headers@, name@)
                ].1@,
                None => !spec_has_header(self.headers@, name@),
            },
    {
        let key = String::from_str(name);
        match find_header_index(&self.headers, &key) {
            Some(i) => Some(&self.headers[i].1),
            None => None,
        }
    }

    /// Splits a CONNECT URI into host and port.
    pub fn parse_connect_uri(&self) -> (r: Result<(String, u16), HttpError>)
        ensures
            match r {
                Ok(hp) => spec_parse_connect_uri(self.uri@) == Ok::<(Seq<char>, u16), HttpError>(
                    (hp.0@, hp.1),
                ),
                Err(e) => spec_parse_connect_uri(self.uri@) == Err::<(Seq<char>, u16), HttpError>(
                    e,
                ),
            },
    {
        let mut parts = split_str(self.uri.as_str(), 0, ':');
        proof {
            assert(self.uri@.skip(0) =~= self.uri@);
            assert(spec_split(self.uri@, ':')[0] == parts@[0]@);
        }
        if parts.len() != 2 {
            return Err(HttpError::InvalidUri);
        }
        proof {
            assert(spec_split(self.uri@, ':')[1] == parts@[1]@);
        }
        match parse_u16(parts[1].as_str()) {
            Some(port) => {
                let host = parts.remove(0);
                Ok((host, port))
            },
            None => Err(HttpError::InvalidPort),
        }
    }

    /// Splits an absolute URI into host and port, defaulting the port by
    /// scheme.
    pub fn parse_proxy_uri(&self) -> (r: Result<(String, u16), HttpError>)
        ensures
            match r {
                Ok(hp) => spec_parse_proxy_uri(self.uri@) == Ok::<(Seq<char>, u16), HttpError>(
                    (hp.0@, hp.1),
                ),
                Err(e) => spec_parse_proxy_uri(self.uri@) == Err::<(Seq<char>, u16), HttpError>(e),
            },
    {
        let u = self.uri.as_str();
        let n = u.unicode_len();
        let https;
        let stripped: String;
        if n >= 7 && substr(u, 0, 7) == String::from_str("http://") {
            proof {
                assert(u@.take(7) == "http://"@);
            }
            https = false;
            stripped = substr(u, 7, n);
            proof {
                assert(stripped@ =~= u@.skip(7));
                if spec_starts_https(u@) {
                    reveal_strlit("http://");
                    reveal_strlit("https://");
                    assert("http://"@[5] == '/');
                    assert("https://"@[5] == 's');
                    assert(u@.take(8)[5] == u@[5] && u@.take(7)[5] == u@[5]);
                    assert(false);
                }
            }
        } else if n >= 8 && substr(u, 0, 8) == String::from_str("https://") {
            proof {
                assert(u@.take(8) == "https://"@);
            }
            https = true;
            stripped = substr(u, 8, n);
            proof {
                assert(stripped@ =~= u@.skip(8));
            }
        } else {
            https = false;
            stripped = substr(u, 0, n);
            proof {
                assert(stripped@ =~= u@);
            }
        }
        let head: String = match find_char(stripped.as_str(), '/') {
            Some(i) => substr(stripped.as_str(), 0, i),
            None => stripped,
        };
        let mut parts = split_str(head.as_str(), 0, ':');
        proof {
            assert(head@.skip(0) =~= head@);
            assert(spec_split(head@, ':')[0] == parts@[0]@);
        }
        if parts[0].as_str().is_empty() {
            return Err(HttpError::InvalidUri);
        }
        if parts.len() > 1 {
            proof {
                assert(spec_split(head@, ':')[1] == parts@[1]@);
            }
            match parse_u16(parts[1].as_str()) {
                Some(port) => {
                    let host = parts.remove(0);
                    Ok((host, port))
                },
                None => Err(HttpError::InvalidPort),
            }
        } else {
            let host = parts.remove(0);
            let port: u16 = if https {
                443
            } else {
                80
            };
            Ok((host, port))
        }
    }

    /// The target host and port of the request.
    pub fn get_host_port(&self) -> (r: Result<(String, u16), HttpError>)
        ensures
            match r {
                Ok(hp) => spec_get_host_port(*self) == Ok::<(Seq<char>, u16), HttpError>(
                    (hp.0@, hp.1),
                ),
                Err(e) => spec_get_host_port(*self) == Err::<(Seq<char>, u16), HttpError>(e),
            },
    {
        if self.is_connect() {
            self.parse_connect_uri()
        } else {
            self.parse_proxy_uri()
        }
    }
}

/// Where the incremental parser stands.
#[derive(Debug, Clone, Copy, PartialEq, Eq, Structural)]
pub enum HttpParseState {
    AwaitRequestLine,
    AwaitHeaders,
    Complete,
    Failed,
}

/// What one fed line produced.
#[derive(Debug, Clone, Copy, PartialEq, Eq, Structural)]
pub enum HttpFeed {
    NeedMore,
    Done,
    Reject(HttpError),
}

/// Reads a request line by line under a byte budget: first the request line,
/// then headers until a blank line or end of input.
pub struct HttpParser {
    pub max_request_size: usize,
    pub bytes_read: usize,
    pub state: HttpParseState,
    pub method: String,
    pub uri: String,
    pub version: String,
    pub headers: Vec<(String, String)>,
}

impl HttpParser {
    /// The byte budget holds and header names are unique.
    pub open spec fn wf(self) -> bool {
        &&& self.bytes_read <= self.max_request_size
        &&& forall|i: int, j: int|
            0 <= i < j < self.headers@.len() ==> (#[trigger] self.headers@[i]).0@ != (
            #[trigger] self.headers@[j]).0@
    }

    pub fn new(max_request_size: usize) -> (r: Self)
        ensures
            r.wf(),
            r.max_request_size == max_request_size,
            r.bytes_read == 0,
            r.state == HttpParseState::AwaitRequestLine,
            r.headers@.len() == 0,
    {
        HttpParser {
            max_request_size,
            bytes_read: 0,
            state: HttpParseState::AwaitRequestLine,
            method: String::new(),
            uri: String::new(),
            version: String::new(),
            headers: Vec::new(),
        }
    }

    /// Feeds one line (its raw byte count included). The byte budget is
    /// enforced first; the request line must split into exactly three
    /// tokens; headers end at a blank line or end of input, a line without a
    /// colon is skipped, and a repeated name replaces the stored value.
    pub fn feed_line(&mut self, line: &str, raw_len: usize) -> (r: HttpFeed)
        requires
            old(self).wf(),
            old(self).state == HttpParseState::AwaitRequestLine || old(self).state
                == HttpParseState::AwaitHeaders,
        ensures
            final(self).wf(),
            final(self).max_request_size == old(self).max_request_size,
            raw_len > old(self).max_request_size - old(self).bytes_read ==> (r == HttpFeed::Reject(
                HttpError::OversizeRequest,
            ) && final(self).state == HttpParseState::Failed),
            raw_len <= old(self).max_request_size - old(self).bytes_read ==> final(self).bytes_read == old(self).bytes_read + raw_len,
            (raw_len <= old(self).max_request_size - old(self).bytes_read && old(self).state
                == HttpParseState::AwaitRequestLine) ==> {
                let toks = spec_ws_tokens(line@);
                &&& line@.len() == 0 ==> (r == HttpFeed::Reject(HttpError::EmptyRequest) && final(self).state == HttpParseState::Failed)
                &&& (line@.len() > 0 && toks.len() == 3) ==> (r == HttpFeed::NeedMore && final(self).state == HttpParseState::AwaitHeaders && final(self).method@ == toks[0] && final(self).uri@ == toks[1] && final(self).version@ == toks[2] && final(self).headers@
                    == old(self).headers@)
                &&& (line@.len() > 0 && toks.len() != 3) ==> (r == HttpFeed::Reject(
                    HttpError::MalformedRequestLine,
                ) && final(self).state == HttpParseState::Failed)
            },
            (raw_len <= old(self).max_request_size - old(self).bytes_read && old(self).state
                == HttpParseState::AwaitHeaders) ==> {
                let t = spec_trim(line@);
                &&& final(self).method == old(self).method
                &&& final(self).uri == old(self).uri
                &&& final(self).version == old(self).version
                &&& t.len() == 0 ==> (r == HttpFeed::Done && final(self).state
                    == HttpParseState::Complete && final(self).headers@ == old(self).headers@)
                &&& (t.len() > 0 && spec_find_char(t, ':') < 0) ==> (r == HttpFeed::NeedMore
                    && final(self).state == HttpParseState::AwaitHeaders && final(self).headers@
                    == old(self).headers@)
                &&& (t.len() > 0 && spec_find_char(t, ':') >= 0) ==> {
                    let i = spec_find_char(t, ':');
                    let name = spec_lower_chars(spec_trim(t.take(i)));
                    let value = spec_trim(t.skip(i + 1));
                    &&& r == HttpFeed::NeedMore
                    &&& final(self).state == HttpParseState::AwaitHeaders
                    &&& spec_has_header(old(self).headers@, name) ==> {
                        let j = spec_header_index(old(self).headers@, name);
                        &&& final(self).headers@.len() == old(self).headers@.len()
                        &&& final(self).headers@[j].0@ == name
                        &&& final(self).headers@[j].1@ == value
                        &&& forall|k: int|
                            0 <= k < final(self).headers@.len() && k != j ==> final(self).headers@[k] == old(self).headers@[k]
                    }
                    &&& !spec_has_header(old(self).headers@, name) ==> {
                        &&& final(self).headers@.len() == old(self).headers@.len() + 1
                        &&& final(self).headers@.last().0@ == name
                        &&& final(self).headers@.last().1@ == value
                        &&& forall|k: int|
                            0 <= k < old(self).headers@.len() ==> final(self).headers@[k] == old(self).headers@[k]
                    }
                }
            },
    {
        if raw_len > self.max_request_size - self.bytes_read {
            self.state = HttpParseState::Failed;
            return HttpFeed::Reject(HttpError::OversizeRequest);
        }
        self.bytes_read = self.bytes_read + raw_len;
        match self.state {
            HttpParseState::AwaitRequestLine => {
                if line.unicode_len() == 0 {
                    self.state = HttpParseState::Failed;
                    return HttpFeed::Reject(HttpError::EmptyRequest);
                }
                let mut tokens = ws_tokens_from(line, 0);
                proof {
                    assert(line@.skip(0) =~= line@);
                }
                if tokens.len() != 3 {
                    self.state = HttpParseState::Failed;
                    return HttpFeed::Reject(HttpError::MalformedRequestLine);
                }
                proof {
                    assert(spec_ws_tokens(line@)[0] == tokens@[0]@);
                    assert(spec_ws_tokens(line@)[1] == tokens@[1]@);
                    assert(spec_ws_tokens(line@)[2] == tokens@[2]@);
                }
                self.version = tokens.pop().unwrap();
                self.uri = tokens.pop().unwrap();
                self.method = tokens.pop().unwrap();
                self.state = HttpParseState::AwaitHeaders;
                HttpFeed::NeedMore
            },
            HttpParseState::AwaitHeaders => {
                let trimmed = trim_str(line);
                if trimmed.as_str().is_empty() {
                    self.state = HttpParseState::Complete;
                    return HttpFeed::Done;
                }
                match find_char(trimmed.as_str(), ':') {
                    Some(colon) => {
                        let raw_name = substr(trimmed.as_str(), 0, colon);
                        let tn = trimmed.as_str().unicode_len();
                        let raw_value = substr(trimmed.as_str(), colon + 1, tn);
                        proof {
                            assert(raw_name@ =~= trimmed@.take(colon as int));
                            assert(raw_value@ =~= trimmed@.skip(colon as int + 1));
                        }
                        let trimmed_name = trim_str(raw_name.as_str());
                        let name = lower_string(trimmed_name.as_str());
                        let value = trim_str(raw_value.as_str());
                        match find_header_index(&self.headers, &name) {
                            Some(j) => {
                                self.headers.set(j, (name, value));
                                proof {
                                    assert forall|p: int, q: int|
                                        0 <= p < q < self.headers@.len() implies (
                                    #[trigger] self.headers@[p]).0@ != (
                                    #[trigger] self.headers@[q]).0@ by {
                                        assert(old(self).headers@[p].0@ != old(self).headers@[q].0@);
                                    }
                                }
                            },
                            None => {
                                self.headers.push((name, value));
                                proof {
                                    assert forall|p: int, q: int|
                                        0 <= p < q < self.headers@.len() implies (
                                    #[trigger] self.headers@[p]).0@ != (
                                    #[trigger] self.headers@[q]).0@ by {
                                        if q == self.headers@.len() - 1 {
                                            assert(!spec_has_header(
                                                old(self).headers@,
                                                self.headers@[q].0@,
                                            ));
                                        } else {
                                            assert(old(self).headers@[p].0@ != old(self).headers@[q].0@);
                                        }
                                    }
                                }
                            },
                        }
                        HttpFeed::NeedMore
                    },
                    None => HttpFeed::NeedMore,
                }
            },
            _ => {
                proof {
                    assert(false);
                }
                HttpFeed::NeedMore
            },
        }
    }

    /// The finished request.
    pub fn to_request(&self) -> (r: HttpRequest)
        requires
            self.state == HttpParseState::Complete,
            self.wf(),
        ensures
            r.wf(),
            r.method == self.method,
            r.uri == self.uri,
            r.version == self.version,
            r.headers@ == self.headers@,
    {
        let mut headers: Vec<(String, String)> = Vec::new();
        let n = self.headers.len();
        for i in 0..n
            invariant
                n == self.headers@.len(),
                headers@ =~= self.headers@.take(i as int),
        {
            headers.push((self.headers[i].0.clone(), self.headers[i].1.clone()));
            proof {
                assert(headers@ =~= self.headers@.take(i + 1));
            }
        }
        proof {
            assert(self.headers@.take(n as int) =~= self.headers@);
        }
        HttpRequest {
            method: self.method.clone(),
            uri: self.uri.clone(),
            version: self.version.clone(),
            headers,
        }
    }
}

/// The first index where byte `b` occurs, or a negative value.
pub open spec fn spec_find_byte(s: Seq<u8>, b: u8) -> int
    decreases s.len(),
{
    if s.len() == 0 {
        -1
    } else if s[0] == b {
        0
    } else {
        let r = spec_find_byte(s.skip(1), b);
        if r < 0 {
            -1
        } else {
            r + 1
        }
    }
}

proof fn lemma_find_byte_at(s: Seq<u8>, b: u8, i: int)
    requires
        0 <= i <= s.len(),
        forall|k: int| 0 <= k < i ==> #[trigger] s[k] != b,
        i < s.len() ==> s[i] == b,
    ensures
        i < s.len() ==> spec_find_byte(s, b) == i,
        i == s.len() ==> spec_find_byte(s, b) == -1,
    decreases i + 1,
{
    if s.len() == 0 {
    } else if i > 0 {
        assert(s[0] != b);
        assert(forall|k: int| 0 <= k < i - 1 ==> #[trigger] s.skip(1)[k] == s[k + 1]);
        assert(i - 1 < s.skip(1).len() ==> s.skip(1)[i - 1] == s[i]);
        lemma_find_byte_at(s.skip(1), b, i - 1);
    }
}

fn byte_range(src: &Vec<u8>, from: usize, to: usize) -> (out: Vec<u8>)
    requires
        from <= to <= src@.len(),
    ensures
        out@ == src@.subrange(from as int, to as int),
{
    let mut out: Vec<u8> = Vec::new();
    let mut i: usize = from;
    while i < to
        invariant
            from <= i <= to <= src@.len(),
            out@ =~= src@.subrange(from as int, i as int),
        decreases to - i,
    {
        out.push(src[i]);
        i = i + 1;
        proof {
            assert(src@.subrange(from as int, i as int) =~= src@.subrange(
                from as int,
                i - 1,
            ).push(src@[i - 1]));
        }
    }
    out
}

/// The credentials carried by a `Proxy-Authorization` value: the scheme word
/// `Basic` (any ASCII case) and a space, then base64 of `user:pass`, split at
/// the first colon.
pub open spec fn spec_parse_basic(v: Seq<char>) -> Option<(Seq<u8>, Seq<u8>)> {
    if v.len() >= 6 && spec_lower_chars(v.take(6)) == "basic "@ {
        match spec_b64_decode(v.skip(6)) {
            Some(d) => {
                let i = spec_find_byte(d, 58);
                if i < 0 {
                    None
                } else {
                    Some((d.take(i), d.skip(i + 1)))
                }
            },
            None => None,
        }
    } else {
        None
    }
}

/// Extracts the username and password bytes from a `Proxy-Authorization`
/// value.
pub fn parse_basic_credentials(value: &str) -> (r: Option<(Vec<u8>, Vec<u8>)>)
    ensures
        match r {
            Some(up) => spec_parse_basic(value@) == Some((up.0@, up.1@)),
            None => spec_parse_basic(value@) is None,
        },
{
    let n = value.unicode_len();
    if n < 6 {
        return None;
    }
    let mut prefix = String::new();
    for i in 0..6usize
        invariant
            n == value@.len(),
            n >= 6,
            prefix@ =~= spec_lower_chars(value@.take(6)).take(i as int),
    {
        proof {
            assert(value@.take(6)[i as int] == value@[i as int]);
        }
        push_char(&mut prefix, crate::strutil::lower_char(value.get_char(i)));
        proof {
            assert(prefix@ =~= spec_lower_chars(value@.take(6)).take(i + 1));
        }
    }
    proof {
        assert(spec_lower_chars(value@.take(6)).take(6) =~= spec_lower_chars(value@.take(6)));
    }
    if !(prefix == String::from_str("basic ")) {
        return None;
    }
    let decoded = match decode_base64(value, 6) {
        Some(d) => d,
        None => {
            return None;
        },
    };
    let dn = decoded.len();
    for i in 0..dn
        invariant
            dn == decoded@.len(),
            value@.len() >= 6,
            spec_lower_chars(value@.take(6)) == "basic "@,
            spec_b64_decode(value@.skip(6)) == Some(decoded@),
            forall|k: int| 0 <= k < i ==> #[trigger] decoded@[k] != 58u8,
    {
        if decoded[i] == 58 {
            proof {
                lemma_find_byte_at(decoded@, 58, i as int);
            }
            let user = byte_range(&decoded, 0, i);
            let pass = byte_range(&decoded, i + 1, dn);
            proof {
                assert(user@ =~= decoded@.take(i as int));
                assert(pass@ =~= decoded@.skip(i as int + 1));
            }
            return Some((user, pass));
        }
    }
    proof {
        lemma_find_byte_at(decoded@, 58, dn as int);
    }
    None
}

/// One rendered header line, with the two hop-by-hop names dropped.
pub open spec fn spec_render_header(p: (Seq<char>, Seq<char>)) -> Seq<char> {
    if p.0 == "proxy-connection"@ || p.0 == "proxy-authorization"@ {
        Seq::<char>::empty()
    } else {
        p.0 + ": "@ + p.1 + "\r\n"@
    }
}

/// The header block, in stored order.
pub open spec fn spec_render_headers(h: Seq<(Seq<char>, Seq<char>)>) -> Seq<char>
    decreases h.len(),
{
    if h.len() == 0 {
        Seq::<char>::empty()
    } else {
        spec_render_headers(h.drop_last()) + spec_render_header(h.last())
    }
}

/// The request forwarded upstream: the original request line, every header
/// except `proxy-connection` and `proxy-authorization`, and a blank line.
pub open spec fn spec_forward_request(
    m: Seq<char>,
    u: Seq<char>,
    v: Seq<char>,
    h: Seq<(Seq<char>, Seq<char>)>,
) -> Seq<char> {
    m + " "@ + u + " "@ + v + "\r\n"@ + spec_render_headers(h) + "\r\n"@
}

/// The byte length a `&str` reports for itself.
pub open spec fn spec_str_byte_len(s: &str) -> nat {
    (s.spec_bytes().len() as usize) as nat
}

/// An error reply: the status line carries the caller's message, the body
/// repeats it, and the connection is marked closed. `blen` is the body's
/// byte length.
pub open spec fn spec_error_response(status: u16, msg: Seq<char>, blen: nat) -> Seq<char> {
    "HTTP/1.1 "@ + spec_dec_string(status as nat) + " "@ + msg + "\r\nContent-Length: "@
        + spec_dec_string(blen) + "\r\nConnection: close\r\n\r\n"@ + msg
}

/// The handler's pure half: it turns parsed requests and outcomes into the
/// exact bytes the proxy writes.
pub struct HttpProxyHandler;

impl HttpProxyHandler {
    /// The bytes sent upstream for an absolute-URI request.
    pub fn build_forward_request(&self, request: &HttpRequest) -> (r: String)
        ensures
            r@ == spec_forward_request(
                request.method@,
                request.uri@,
                request.version@,
                spec_header_views(request.headers@),
            ),
    {
        let mut out = String::new();
        out.append(request.method.as_str());
        out.append(" ");
        out.append(request.uri.as_str());
        out.append(" ");
        out.append(request.version.as_str());
        out.append("\r\n");
        let ghost line = out@;
        let n = request.headers.len();
        for i in 0..n
            invariant
                n == request.headers@.len(),
                out@ == line + spec_render_headers(spec_header_views(request.headers@).take(
                    i as int,
                )),
        {
            let name = &request.headers[i].0;
            proof {
                assert(spec_header_views(request.headers@).take(i + 1).drop_last()
                    =~= spec_header_views(request.headers@).take(i as int));
                assert(spec_header_views(request.headers@).take(i + 1).last()
                    == spec_header_views(request.headers@)[i as int]);
            }
            if *name == String::from_str("proxy-connection") || *name == String::from_str(
                "proxy-authorization",
            ) {
                proof {
                    assert(out@ =~= line + spec_render_headers(
                        spec_header_views(request.headers@).take(i + 1),
                    ));
                }
            } else {
                out.append(request.headers[i].0.as_str());
                out.append(": ");
                out.append(request.headers[i].1.as_str());
                out.append("\r\n");
                proof {
                    assert(out@ =~= line + spec_render_headers(
                        spec_header_views(request.headers@).take(i + 1),
                    ));
                }
            }
        }
        out.append("\r\n");
        proof {
            assert(spec_header_views(request.headers@).take(n as int) =~= spec_header_views(
                request.headers@,
            ));
        }
        out
    }

    /// The reply confirming an established CONNECT tunnel.
    pub fn connection_established(&self) -> (r: &'static str)
        ensures
            r@ == "HTTP/1.1 200 Connection Established\r\n\r\n"@,
    {
        "HTTP/1.1 200 Connection Established\r\n\r\n"
    }

    /// An error reply with the message as both reason text and body, a
    /// matching `Content-Length`, and `Connection: close`.
    pub fn error_response(&self, status_code: u16, message: &str) -> (r: String)
        ensures
            r@ == spec_error_response(status_code, message@, spec_str_byte_len(message)),
    {
        let mut out = String::new();
        out.append("HTTP/1.1 ");
        let status = crate::strutil::format_u64(status_code as u64);
        out.append(status.as_str());
        out.append(" ");
        out.append(message);
        out.append("\r\nContent-Length: ");
        let blen = crate::strutil::format_u64(message.len() as u64);
        out.append(blen.as_str());
        out.append("\r\nConnection: close\r\n\r\n");
        out.append(message);
        proof {
            assert(out@ =~= spec_error_response(status_code, message@, spec_str_byte_len(message)));
        }
        out
    }

    /// The challenge sent when proxy authentication is required: a 407 whose
    /// message carries the `Proxy-Authenticate: Basic` header.
    pub fn auth_required_response(&self) -> (r: String)
        ensures
            r@ == spec_error_response(
                407,
                "Proxy Authentication Required\r\nProxy-Authenticate: Basic realm=\"Proxy\""@,
                spec_str_byte_len(
                    "Proxy Authentication Required\r\nProxy-Authenticate: Basic realm=\"Proxy\"",
                ),
            ),
    {
        self.error_response(
            407,
            "Proxy Authentication Required\r\nProxy-Authenticate: Basic realm=\"Proxy\"",
        )
    }
}

/// On the HTTP side too, a credential denial and a backend infrastructure
/// failure are indistinguishable: both collapse to the same decision, so the
/// same 407 challenge is sent in either case.
pub proof fn lemma_http_denied_and_infra_identical(
    denied: Result<bool, AuthError>,
    infra: Result<bool, AuthError>,
)
    requires
        denied == Ok::<bool, AuthError>(false),
        infra is Err,
    ensures
        spec_outcome_granted(denied) == spec_outcome_granted(infra),
{
}

} // verus!
