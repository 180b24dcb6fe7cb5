//! Subgraph forwarding: frame a decomposed query as the wire body, send it,
//! and interpret the structured reply. A transport failure — unreachable
//! host, timeout, unreadable body — is one error kind; a reachable subgraph
//! answering with its own `errors` list and no usable value is another,
//! deliberately distinct. A reply that carries both `errors` and a value
//! degrades to the value rather than failing the whole read.

use vstd::prelude::*;

use vstd::string::StringExecFns;

use crate::value::{doc_get, SpecVal, Val};

verus! {

/// Why a forwarded query produced no value.
#[derive(Debug)]
pub enum ForwardError {
    /// The subgraph could not be reached or its reply could not be read.
    Transport(String),
    /// The subgraph answered, but with its own error list and no value;
    /// the list is carried along.
    RemoteProtocol(Val),
}

/// The value a structured reply carries for the named query:
/// `data.<name>`, or null when any segment of that path is absent.
pub open spec fn spec_extract(resp: SpecVal, name: Seq<char>) -> SpecVal {
    match doc_get(resp, "data"@) {
        Some(data) => match doc_get(data, name) {
            Some(v) => v,
            None => SpecVal::Null,
        },
        None => SpecVal::Null,
    }
}

/// A reply reporting remote errors with no usable value for the named query.
pub open spec fn spec_protocol_error(resp: SpecVal, name: Seq<char>) -> bool {
    doc_get(resp, "errors"@) is Some && spec_extract(resp, name) == SpecVal::Null
}

/// Interpret a structured subgraph reply for the named query.
pub fn interpret_response(resp: &Val, query_name: &str) -> (r: Result<Val, ForwardError>)
    ensures
        match r {
            Ok(v) => v@ == spec_extract(resp@, query_name@) && !spec_protocol_error(
                resp@,
                query_name@,
            ),
            Err(ForwardError::RemoteProtocol(e)) => spec_protocol_error(resp@, query_name@)
                && doc_get(resp@, "errors"@) == Some(e@),
            Err(ForwardError::Transport(_)) => false,
        },
{
    let value = match resp.get_field("data") {
        Some(data) => match data.get_field(query_name) {
            Some(v) => v.duplicate(),
            None => Val::Null,
        },
        None => Val::Null,
    };
    match resp.get_field("errors") {
        Some(errs) => {
            let is_null = match &value {
                Val::Null => true,
                _ => false,
            };
            if is_null {
                Err(ForwardError::RemoteProtocol(errs.duplicate()))
            } else {
                Ok(value)
            }
        },
        None => Ok(value),
    }
}

/// What a reply body parses to, when it is well-formed; parsing is a
/// function of the text alone.
pub uninterp spec fn parsed_json(text: Seq<char>) -> Option<SpecVal>;

/// The parsed-reply tree type of the JSON library, declared so a parsed
/// reply can be carried into the document model.
#[verifier::external_type_specification]
#[verifier::external_body]
pub struct ExSerdeValue(serde_json::Value);

/// Relies on serde_json: carries a parsed tree over into the document model,
/// one node for one node; an integer too wide for the model is carried as
/// its text.
#[verifier::external_body]
fn json_to_val(v: serde_json::Value) -> Val {
    match v {
        serde_json::Value::Null => Val::Null,
        serde_json::Value::Bool(b) => Val::Bool(b),
        serde_json::Value::Number(n) => match n.as_i64() {
            Some(i) => Val::Int(i),
            None => Val::Str(n.to_string()),
        },
        serde_json::Value::String(s) => Val::Str(s),
        serde_json::Value::Array(items) => Val::Arr(items.into_iter().map(json_to_val).collect()),
        serde_json::Value::Object(m) => Val::Obj(
            m.into_iter().map(|(k, v)| (k, json_to_val(v))).collect(),
        ),
    }
}

/// Relies on serde_json::from_str: whether a body parses, and to what, is a
/// function of the body text alone.
#[verifier::external_body]
fn parse_response(text: &str) -> (r: Option<Val>)
    ensures
        match r {
            Some(v) => parsed_json(text@) == Some(v@),
            None => parsed_json(text@) is None,
        },
{
    match serde_json::from_str::<serde_json::Value>(text) {
        Ok(v) => Some(json_to_val(v)),
        Err(_) => None,
    }
}

/// Relies on reqwest::blocking: one HTTP POST of a prepared JSON body to the
/// given URL, answered with the reply body's text. Nothing is assumed of
/// what the network answers.
#[verifier::external_body]
fn http_post(url: &str, body: &str) -> Result<String, String> {
    let client = match reqwest::blocking::Client::builder().build() {
        Ok(c) => c,
        Err(e) => return Err(format!("{}", e)),
    };
    match client.post(url).header("content-type", "application/json").body(
        body.to_string(),
    ).send() {
        Ok(resp) => match resp.text() {
            Ok(t) => Ok(t),
            Err(e) => Err(format!("{}", e)),
        },
        Err(e) => Err(format!("{}", e)),
    }
}

/// One character of query text as it stands inside a JSON string literal.
pub open spec fn spec_escape_char(c: char) -> Seq<char> {
    if c == '"' {
        seq!['\\', '"']
    } else if c == '\\' {
        seq!['\\', '\\']
    } else {
        seq![c]
    }
}

/// Query text as it stands inside a JSON string literal.
pub open spec fn spec_escaped(s: Seq<char>) -> Seq<char>
    decreases s.len(),
{
    if s.len() == 0 {
        Seq::empty()
    } else {
        spec_escaped(s.drop_last()) + spec_escape_char(s.last())
    }
}

#[verifier::loop_isolation(false)]
fn append_escaped(out: &mut String, s: &str)
    ensures
        final (out)@ == old(out)@ + spec_escaped(s@),
{
    let n = s.unicode_len();
    let mut i: usize = 0;
    while i < n
        invariant
            i <= n,
            n == s@.len(),
            out@ == old(out)@ + spec_escaped(s@.take(i as int)),
        decreases n - i,
    {
        let c = s.get_char(i);
        if c == '"' {
            out.append("\\\"");
            proof {
                reveal_strlit("\\\"");
                assert("\\\""@ =~= seq!['\\', '"']);
            }
        } else if c == '\\' {
            out.append("\\\\");
            proof {
                reveal_strlit("\\\\");
                assert("\\\\"@ =~= seq!['\\', '\\']);
            }
        } else {
            let piece = s.substring_char(i, i + 1);
            out.append(piece);
            proof {
                assert(piece@ =~= seq![c]);
            }
        }
        proof {
            assert(s@.take(i as int + 1).drop_last() =~= s@.take(i as int));
            assert(s@.take(i as int + 1).last() == s@[i as int]);
            assert(out@ =~= old(out)@ + spec_escaped(s@.take(i as int + 1)));
        }
        i += 1;
    }
    proof {
        assert(s@.take(s@.len() as int) =~= s@);
    }
}

/// The wire body a forwarded query is sent as.
pub open spec fn spec_request_body(query: Seq<char>) -> Seq<char> {
    "{\"query\": \""@ + spec_escaped(query) + "\"}"@
}

/// Frame a query string as the JSON wire body.
pub fn build_request_body(query: &str) -> (r: String)
    ensures
        r@ == spec_request_body(query@),
{
    let mut out = "{\"query\": \"".to_owned();
    append_escaped(&mut out, query);
    out.append("\"}");
    proof {
        assert(out@ =~= spec_request_body(query@));
    }
    out
}

/// The capability of sending a decomposed query somewhere and yielding the
/// named result.
pub trait QueryForwarder {
    fn forward(&self, query: &str, query_name: &str) -> Result<Val, ForwardError>;
}

/// The forwarder that POSTs to a configured subgraph URL over HTTP.
pub struct HttpForwarder {
    pub url: String,
}

impl HttpForwarder {
    /// Send `query` and interpret the reply: whatever the network answered,
    /// the result is a transport error, a remote protocol error carrying the
    /// subgraph's error list, or the value some parsed reply carries for
    /// `query_name`.
    pub fn forward_query(&self, query: &str, query_name: &str) -> (r: Result<Val, ForwardError>)
        ensures
            match r {
                Ok(v) => exists|resp: SpecVal|
                    #[trigger] spec_extract(resp, query_name@) == v@ && !spec_protocol_error(
                        resp,
                        query_name@,
                    ),
                Err(ForwardError::RemoteProtocol(e)) => exists|resp: SpecVal|
                    #[trigger] spec_protocol_error(resp, query_name@) && doc_get(resp, "errors"@)
                        == Some(e@),
                Err(ForwardError::Transport(_)) => true,
            },
    {
        let body = build_request_body(query);
        match http_post(self.url.as_str(), body.as_str()) {
            Err(e) => Err(ForwardError::Transport(e)),
            Ok(text) => match parse_response(text.as_str()) {
                None => Err(ForwardError::Transport("malformed response body".to_owned())),
                Some(resp) => {
                    let r = interpret_response(&resp, query_name);
                    proof {
                        let rr = r;
                        match rr {
                            Ok(v) => {
                                assert(spec_extract(resp@, query_name@) == v@
                                    && !spec_protocol_error(resp@, query_name@));
                            },
                            Err(ForwardError::RemoteProtocol(e)) => {
                                assert(spec_protocol_error(resp@, query_name@) && doc_get(
                                    resp@,
                                    "errors"@,
                                ) == Some(e@));
                            },
                            Err(ForwardError::Transport(_)) => {},
                        }
                    }
                    r
                },
            },
        }
    }
}

impl QueryForwarder for HttpForwarder {
    fn forward(&self, query: &str, query_name: &str) -> Result<Val, ForwardError> {
        self.forward_query(query, query_name)
    }
}

} // verus!
