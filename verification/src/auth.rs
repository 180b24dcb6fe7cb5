//! Requester authorization: credential extraction from an inbound request,
//! the fail-open per-document read check, write stamping, and the push-down
//! read filter. Two variants exist: one that authorizes everything, and one
//! that takes the requester's identity from a bearer token's subject claim
//! without verifying the token — by design the token is an identity carrier
//! only, trusted because an outer transport layer has authenticated it.

use vstd::prelude::*;

use crate::query::{Cond, Filter, SpecCond};
use crate::value::{
    doc_get, lemma_lookup_found, lemma_lookup_skip, spec_lookup, spec_set_field, str_eq, sval,
    SpecVal, Val,
};

verus! {

/// An inbound call's header mapping; the gateway reads nothing else from a
/// request, and never mutates one.
pub struct Request {
    pub headers: Vec<(String, String)>,
}

pub open spec fn spec_headers(req: &Request) -> Seq<(Seq<char>, Seq<char>)> {
    Seq::new(req.headers@.len(), |i: int| (req.headers@[i].0@, req.headers@[i].1@))
}

impl Request {
    /// The first header with the given name, if any.
    pub open spec fn spec_header(&self, name: Seq<char>) -> Option<Seq<char>> {
        spec_lookup(spec_headers(self), name)
    }

    pub fn new(headers: Vec<(String, String)>) -> (r: Request)
        ensures
            r.headers == headers,
    {
        Request { headers }
    }

    #[verifier::loop_isolation(false)]
    pub fn get_header(&self, name: &str) -> (r: Option<&String>)
        ensures
            match r {
                Some(v) => self.spec_header(name@) == Some(v@),
                None => self.spec_header(name@) is None,
            },
    {
        let ghost hs = spec_headers(self);
        proof {
            assert(hs.skip(0) =~= hs);
        }
        let mut i: usize = 0;
        while i < self.headers.len()
            invariant
                i <= self.headers@.len(),
                spec_lookup(hs, name@) == spec_lookup(hs.skip(i as int), name@),
            decreases self.headers@.len() - i,
        {
            if str_eq(self.headers[i].0.as_str(), name) {
                proof {
                    lemma_lookup_found(hs, name@, i as int);
                }
                return Some(&self.headers[i].1);
            }
            proof {
                lemma_lookup_skip(hs, name@, i as int);
            }
            i += 1;
        }
        proof {
            assert(hs.skip(hs.len() as int) =~= Seq::<(Seq<char>, Seq<char>)>::empty());
        }
        None
    }
}

/// The fail-open read policy: a requester may read a document unless it
/// carries a credential and the document carries a non-empty
/// `authorized_readers` list that does not contain that credential.
pub open spec fn spec_is_authorized(cred: Option<Seq<char>>, d: SpecVal) -> bool {
    match cred {
        None => true,
        Some(c) => match doc_get(d, "authorized_readers"@) {
            Some(SpecVal::Arr(readers)) => readers.len() == 0 || exists|i: int|
                0 <= i < readers.len() && readers[i] == SpecVal::Str(c),
            _ => true,
        },
    }
}

/// A document about to be written, stamped with its writer's credential.
pub open spec fn spec_secure_data(cred: Option<Seq<char>>, d: SpecVal) -> SpecVal {
    match cred {
        Some(c) => spec_set_field(d, "authorized_readers"@, SpecVal::Arr(seq![SpecVal::Str(c)])),
        None => d,
    }
}

/// An outgoing storage query, narrowed so that only documents listing the
/// credential are fetched; without a credential the query is unchanged.
pub open spec fn spec_secure_read(
    cred: Option<Seq<char>>,
    f: Seq<(Seq<char>, SpecCond)>,
) -> Seq<(Seq<char>, SpecCond)> {
    match cred {
        Some(c) => f.push(("authorized_readers"@, SpecCond::AnyOf(seq![SpecVal::Str(c)]))),
        None => f,
    }
}

/// The fail-open document check, shared by every authorizer variant.
#[verifier::loop_isolation(false)]
pub fn check_authorized(cred: &Option<String>, data: &Val) -> (r: bool)
    ensures
        r == spec_is_authorized(cred.deep_view(), data@),
{
    match cred {
        None => true,
        Some(c) => match data.get_field("authorized_readers") {
            Some(Val::Arr(readers)) => {
                if readers.len() == 0 {
                    return true;
                }
                let ghost rs = doc_get(data@, "authorized_readers"@)->Some_0->Arr_0;
                let mut i: usize = 0;
                while i < readers.len()
                    invariant
                        i <= readers@.len(),
                        rs.len() == readers@.len(),
                        forall|j: int| 0 <= j < rs.len() ==> rs[j] == sval(readers@[j]),
                        forall|j: int| 0 <= j < i ==> rs[j] != SpecVal::Str(c@),
                    decreases readers@.len() - i,
                {
                    match &readers[i] {
                        Val::Str(s) => {
                            if str_eq(s.as_str(), c.as_str()) {
                                proof {
                                    assert(rs[i as int] == SpecVal::Str(c@));
                                }
                                return true;
                            }
                        },
                        _ => {},
                    }
                    i += 1;
                }
                false
            },
            _ => true,
        },
    }
}

/// Stamp the document with `authorized_readers = [credential]` when a
/// credential is present; hand it back unchanged otherwise.
pub fn stamp_reader(cred: Option<String>, data: Val) -> (r: Val)
    ensures
        r@ == spec_secure_data(cred.deep_view(), data@),
{
    match cred {
        Some(c) => {
            let ghost cv = c@;
            let sv = Val::Str(c);
            proof {
                assert(sv@ == SpecVal::Str(cv));
            }
            let mut items: Vec<Val> = Vec::new();
            items.push(sv);
            let readers = Val::Arr(items);
            proof {
                assert(items@.len() == 1);
                assert(sval(items@[0]) == SpecVal::Str(cv));
                assert(readers@->Arr_0 =~= seq![SpecVal::Str(cv)]);
            }
            data.set_field("authorized_readers", readers)
        },
        None => data,
    }
}

/// Append the push-down membership clause for the credential, if one is
/// present.
pub fn push_read_clause(cred: Option<String>, query: &mut Filter)
    ensures
        final (query)@ == spec_secure_read(cred.deep_view(), old(query)@),
{
    match cred {
        Some(c) => {
            let ghost before = query@;
            let ghost cv = c@;
            let mut items: Vec<Val> = Vec::new();
            items.push(Val::Str(c));
            let clause = Cond::AnyOf(items);
            proof {
                assert(clause@->AnyOf_0 =~= seq![SpecVal::Str(cv)]);
            }
            query.entries.push(("authorized_readers".to_owned(), clause));
            proof {
                assert(query@ =~= before.push(
                    ("authorized_readers"@, SpecCond::AnyOf(seq![SpecVal::Str(c@)])),
                ));
            }
        },
        None => {},
    }
}

/// The capability set every authorizer variant offers. All variants share
/// the fail-open policy; they differ in how a credential is extracted and
/// in response redaction.
pub trait Authorizer {
    /// The credential this variant extracts from a request, if any.
    spec fn spec_credential(&self, req: &Request) -> Option<Seq<char>>;

    /// The response transformation this variant applies.
    spec fn spec_response(&self, req: &Request, res: SpecVal) -> SpecVal;

    /// Extract the requester's credential.
    fn get_credential(&self, req: &Request) -> (r: Option<String>)
        ensures
            r.deep_view() == self.spec_credential(req),
    ;

    /// Stamp a document about to be written with its writer's credential.
    fn secure_data(&self, req: &Request, data: Val) -> (r: Val)
        ensures
            r@ == spec_secure_data(self.spec_credential(req), data@),
    ;

    /// Response-level redaction hook.
    fn authorize_response(&self, req: &Request, res: Val) -> (r: Val)
        ensures
            r@ == self.spec_response(req, res@),
    ;

    /// The fail-open per-document read check.
    fn is_authorized(&self, req: &Request, data: &Val) -> (r: bool)
        ensures
            r == spec_is_authorized(self.spec_credential(req), data@),
    ;

    /// Narrow an outgoing storage query by the requester's credential.
    fn secure_read(&self, req: &Request, query: &mut Filter)
        ensures
            final (query)@ == spec_secure_read(self.spec_credential(req), old(query)@),
    ;
}

/// The authorizer that records no credential: everything is readable and
/// nothing is stamped or filtered.
pub struct NoOpAuthorizer;

impl Authorizer for NoOpAuthorizer {
    open spec fn spec_credential(&self, req: &Request) -> Option<Seq<char>> {
        None
    }

    open spec fn spec_response(&self, req: &Request, res: SpecVal) -> SpecVal {
        res
    }

    fn get_credential(&self, req: &Request) -> (r: Option<String>) {
        None
    }

    fn secure_data(&self, req: &Request, data: Val) -> (r: Val) {
        data
    }

    fn authorize_response(&self, req: &Request, res: Val) -> (r: Val) {
        res
    }

    fn is_authorized(&self, req: &Request, data: &Val) -> (r: bool) {
        true
    }

    fn secure_read(&self, req: &Request, query: &mut Filter) {
    }
}

/// What decoding a token's payload yields as its subject claim; the decode
/// performs no validation, so this is a function of the token text alone.
pub uninterp spec fn jwt_subject(token: Seq<char>) -> Option<Seq<char>>;

/// Relies on jsonwebtoken::dangerous::insecure_decode_claims: it splits the token,
/// base64-decodes the payload and deserializes it, with no signature,
/// algorithm or claim validation of any kind, so the subject it yields
/// depends on the token text alone.
#[verifier::external_body]
fn decode_token_subject(token: &str) -> (r: Option<String>)
    ensures
        r.deep_view() == jwt_subject(token@),
{
    match jsonwebtoken::dangerous::insecure_decode_claims::<serde_json::Value>(token) {
        Ok(claims) => claims.get("sub").and_then(|v| v.as_str()).map(|s| s.to_string()),
        Err(_) => None,
    }
}

/// The credential carried by an `authorization: Bearer <token>` header.
pub open spec fn spec_bearer_credential(header: Option<Seq<char>>) -> Option<Seq<char>> {
    match header {
        Some(h) => if h.len() >= 7 && h.subrange(0, 7) == "Bearer "@ {
            jwt_subject(h.skip(7))
        } else {
            None
        },
        None => None,
    }
}

/// The authorizer that takes the requester's identity from a bearer token's
/// subject claim, deliberately without verifying the token.
pub struct JWTSubAuthorizer;

impl Authorizer for JWTSubAuthorizer {
    open spec fn spec_credential(&self, req: &Request) -> Option<Seq<char>> {
        spec_bearer_credential(req.spec_header("authorization"@))
    }

    open spec fn spec_response(&self, req: &Request, res: SpecVal) -> SpecVal {
        res
    }

    fn get_credential(&self, req: &Request) -> (r: Option<String>) {
        match req.get_header("authorization") {
            Some(h) => {
                let hs = h.as_str();
                let n = hs.unicode_len();
                if n >= 7 {
                    let prefix = hs.substring_char(0, 7);
                    if str_eq(prefix, "Bearer ") {
                        let token = hs.substring_char(7, n);
                        proof {
                            assert(hs@.subrange(7, n as int) =~= hs@.skip(7));
                        }
                        return decode_token_subject(token);
                    }
                }
                None
            },
            None => None,
        }
    }

    fn secure_data(&self, req: &Request, data: Val) -> (r: Val) {
        stamp_reader(self.get_credential(req), data)
    }

    fn authorize_response(&self, req: &Request, res: Val) -> (r: Val) {
        res
    }

    fn is_authorized(&self, req: &Request, data: &Val) -> (r: bool) {
        let cred = self.get_credential(req);
        check_authorized(&cred, data)
    }

    fn secure_read(&self, req: &Request, query: &mut Filter) {
        push_read_clause(self.get_credential(req), query)
    }
}

/// Law: a document whose `authorized_readers` field is absent or an empty
/// list is readable by every requester, whatever credential the request
/// carries.
pub proof fn law_absent_or_empty_readers_authorized(cred: Option<Seq<char>>, d: SpecVal)
    requires
        doc_get(d, "authorized_readers"@) is None || doc_get(d, "authorized_readers"@) == Some(
            SpecVal::Arr(Seq::<SpecVal>::empty()),
        ),
    ensures
        spec_is_authorized(cred, d),
{
}

/// Law: when a document's `authorized_readers` is exactly `[c]`, a request
/// with credential `c` and an anonymous request may read it, and a request
/// with any other credential may not.
pub proof fn law_single_reader(cred: Option<Seq<char>>, d: SpecVal, c: Seq<char>)
    requires
        doc_get(d, "authorized_readers"@) == Some(SpecVal::Arr(seq![SpecVal::Str(c)])),
    ensures
        cred == Some(c) ==> spec_is_authorized(cred, d),
        cred is None ==> spec_is_authorized(cred, d),
        cred is Some && cred->Some_0 != c ==> !spec_is_authorized(cred, d),
{
    let readers = seq![SpecVal::Str(c)];
    if cred == Some(c) {
        assert(readers[0] == SpecVal::Str(c));
    }
    if cred is Some && cred->Some_0 != c {
        let cc = cred->Some_0;
        assert forall|i: int| 0 <= i < readers.len() implies readers[i] != SpecVal::Str(cc) by {
            assert(readers[0] == SpecVal::Str(c));
        }
    }
}

} // verus!
