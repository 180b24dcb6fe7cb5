//! The temporal snapshot: a versioned, append-only document collection read
//! as of a point in time. For every logical `id` the snapshot keeps exactly
//! the newest version whose `createdAt` lies strictly before `at`, among the
//! versions matching the query filter; ties in `createdAt` resolve to the
//! earliest-stored version, so a fixed collection always yields the same
//! ordered result.

use vstd::prelude::*;

use crate::auth::{spec_is_authorized, Authorizer, Request};
use crate::query::{
    get_timestamp, matches_filter, parsed_filter, process_query_template, rendered_query,
    spec_matches, spec_timestamp, Cond, Filter, SpecCond,
};
use crate::value::{doc_get, SpecVal, Val};

verus! {

/// The version timestamp of a document, when it carries an integer
/// `createdAt` field.
pub open spec fn spec_doc_created(d: SpecVal) -> Option<int> {
    match doc_get(d, "createdAt"@) {
        Some(SpecVal::Int(t)) => Some(t),
        _ => None,
    }
}

/// The logical identity a document's versions share.
pub open spec fn spec_doc_id(d: SpecVal) -> Option<SpecVal> {
    doc_get(d, "id"@)
}

/// A version is eligible when it matches the filter and existed strictly
/// before `at`.
pub open spec fn spec_eligible(d: SpecVal, f: Seq<(Seq<char>, SpecCond)>, at: int) -> bool {
    spec_matches(d, f) && (spec_doc_created(d) matches Some(t) && t < at)
}

/// `docs[j]` is the version the snapshot keeps for its id: it is eligible,
/// and every eligible version of the same id is either strictly older, or of
/// the same age but not stored earlier.
pub open spec fn spec_is_latest(
    docs: Seq<SpecVal>,
    f: Seq<(Seq<char>, SpecCond)>,
    at: int,
    j: int,
) -> bool {
    &&& 0 <= j < docs.len()
    &&& spec_eligible(docs[j], f, at)
    &&& forall|k: int|
        0 <= k < docs.len() && spec_eligible(docs[k], f, at) && spec_doc_id(docs[k])
            == spec_doc_id(docs[j]) ==> spec_doc_created(docs[k])->Some_0 < spec_doc_created(
            docs[j],
        )->Some_0 || (spec_doc_created(docs[k]) == spec_doc_created(docs[j]) && j <= k)
}

/// The snapshot of the first `n` versions: the kept versions, in storage
/// order.
pub open spec fn spec_snapshot_upto(
    docs: Seq<SpecVal>,
    f: Seq<(Seq<char>, SpecCond)>,
    at: int,
    n: int,
) -> Seq<SpecVal>
    decreases n,
{
    if n <= 0 {
        Seq::empty()
    } else {
        let rest = spec_snapshot_upto(docs, f, at, n - 1);
        if spec_is_latest(docs, f, at, n - 1) {
            rest.push(docs[n - 1])
        } else {
            rest
        }
    }
}

/// The point-in-time view of the whole collection.
pub open spec fn spec_snapshot(
    docs: Seq<SpecVal>,
    f: Seq<(Seq<char>, SpecCond)>,
    at: int,
) -> Seq<SpecVal> {
    spec_snapshot_upto(docs, f, at, docs.len() as int)
}

fn doc_created(d: &Val) -> (r: Option<i64>)
    ensures
        match r {
            Some(t) => spec_doc_created(d@) == Some(t as int),
            None => spec_doc_created(d@) is None,
        },
{
    match d.get_field("createdAt") {
        Some(Val::Int(t)) => Some(*t),
        _ => None,
    }
}

fn same_id(a: &Val, b: &Val) -> (r: bool)
    ensures
        r == (spec_doc_id(a@) == spec_doc_id(b@)),
{
    match (a.get_field("id"), b.get_field("id")) {
        (Some(x), Some(y)) => crate::value::val_eq(x, y),
        (None, None) => true,
        _ => false,
    }
}

/// Whether `d` matches `filter` and existed strictly before `at`.
pub fn eligible(d: &Val, filter: &Filter, at: i64) -> (r: bool)
    ensures
        r == spec_eligible(d@, filter@, at as int),
{
    if !matches_filter(d, filter) {
        return false;
    }
    match doc_created(d) {
        Some(t) => t < at,
        None => false,
    }
}

#[verifier::loop_isolation(false)]
fn is_latest_version(docs: &Vec<Val>, filter: &Filter, at: i64, i: usize) -> (r: bool)
    requires
        i < docs@.len(),
        spec_eligible(docs.deep_view()[i as int], filter@, at as int),
    ensures
        r == spec_is_latest(docs.deep_view(), filter@, at as int, i as int),
{
    let ghost ds = docs.deep_view();
    let ghost f = filter@;
    let mut k: usize = 0;
    while k < docs.len()
        invariant
            k <= docs@.len(),
            forall|m: int|
                0 <= m < k && spec_eligible(ds[m], f, at as int) && spec_doc_id(ds[m])
                    == spec_doc_id(ds[i as int]) ==> spec_doc_created(ds[m])->Some_0
                    < spec_doc_created(ds[i as int])->Some_0 || (spec_doc_created(ds[m])
                    == spec_doc_created(ds[i as int]) && i as int <= m),
        decreases docs@.len() - k,
    {
        if eligible(&docs[k], filter, at) && same_id(&docs[k], &docs[i]) {
            match (doc_created(&docs[k]), doc_created(&docs[i])) {
                (Some(tk), Some(ti)) => {
                    if tk > ti || (tk == ti && k < i) {
                        proof {
                            assert(spec_eligible(ds[k as int], f, at as int));
                            assert(!spec_is_latest(ds, f, at as int, i as int));
                        }
                        return false;
                    }
                },
                _ => {
                    proof {
                        assert(false);
                    }
                },
            }
        }
        k += 1;
    }
    true
}

/// The snapshot itself: one pass over the collection keeping, in storage
/// order, each version that `spec_is_latest` selects.
#[verifier::loop_isolation(false)]
pub fn temporal_snapshot(docs: &Vec<Val>, filter: &Filter, at: i64) -> (r: Vec<Val>)
    ensures
        r.deep_view() == spec_snapshot(docs.deep_view(), filter@, at as int),
{
    let ghost ds = docs.deep_view();
    let ghost f = filter@;
    let mut out: Vec<Val> = Vec::new();
    let mut i: usize = 0;
    while i < docs.len()
        invariant
            i <= docs@.len(),
            out.deep_view() == spec_snapshot_upto(ds, f, at as int, i as int),
        decreases docs@.len() - i,
    {
        if eligible(&docs[i], filter, at) && is_latest_version(docs, filter, at, i) {
            let c = docs[i].duplicate();
            out.push(c);
        }
        proof {
            assert(out.deep_view() =~= spec_snapshot_upto(ds, f, at as int, i as int + 1));
        }
        i += 1;
    }
    out
}

/// The indices of the versions a snapshot keeps, in storage order.
pub open spec fn spec_snapshot_idx(
    docs: Seq<SpecVal>,
    f: Seq<(Seq<char>, SpecCond)>,
    at: int,
    n: int,
) -> Seq<int>
    decreases n,
{
    if n <= 0 {
        Seq::empty()
    } else {
        let rest = spec_snapshot_idx(docs, f, at, n - 1);
        if spec_is_latest(docs, f, at, n - 1) {
            rest.push(n - 1)
        } else {
            rest
        }
    }
}

proof fn lemma_snapshot_idx(docs: Seq<SpecVal>, f: Seq<(Seq<char>, SpecCond)>, at: int, n: int)
    ensures
        spec_snapshot_idx(docs, f, at, n).len() == spec_snapshot_upto(docs, f, at, n).len(),
        forall|p: int|
            0 <= p < spec_snapshot_idx(docs, f, at, n).len() ==> {
                let j = #[trigger] spec_snapshot_idx(docs, f, at, n)[p];
                &&& 0 <= j < n
                &&& spec_is_latest(docs, f, at, j)
                &&& spec_snapshot_upto(docs, f, at, n)[p] == docs[j]
            },
        forall|p: int, q: int|
            0 <= p < q < spec_snapshot_idx(docs, f, at, n).len() ==> spec_snapshot_idx(
                docs,
                f,
                at,
                n,
            )[p] < spec_snapshot_idx(docs, f, at, n)[q],
    decreases n,
{
    if n > 0 {
        lemma_snapshot_idx(docs, f, at, n - 1);
    }
}

/// Law: a snapshot holds at most one version per logical id; every version
/// it holds is eligible; and no eligible version of the same id is newer
/// than the one it holds.
pub proof fn law_snapshot_one_per_id(docs: Seq<SpecVal>, f: Seq<(Seq<char>, SpecCond)>, at: int)
    ensures
        forall|p: int, q: int|
            0 <= p < q < spec_snapshot(docs, f, at).len() ==> spec_doc_id(
                #[trigger] spec_snapshot(docs, f, at)[p],
            ) != spec_doc_id(#[trigger] spec_snapshot(docs, f, at)[q]),
        forall|p: int|
            0 <= p < spec_snapshot(docs, f, at).len() ==> spec_eligible(
                #[trigger] spec_snapshot(docs, f, at)[p],
                f,
                at,
            ),
        forall|p: int, k: int|
            #![trigger spec_snapshot(docs, f, at)[p], spec_eligible(docs[k], f, at)]
            0 <= p < spec_snapshot(docs, f, at).len() && 0 <= k < docs.len() && spec_eligible(
                docs[k],
                f,
                at,
            ) && spec_doc_id(docs[k]) == spec_doc_id(spec_snapshot(docs, f, at)[p])
                ==> spec_doc_created(docs[k])->Some_0 <= spec_doc_created(
                spec_snapshot(docs, f, at)[p],
            )->Some_0,
{
    let n = docs.len() as int;
    lemma_snapshot_idx(docs, f, at, n);
    let snap = spec_snapshot(docs, f, at);
    let idx = spec_snapshot_idx(docs, f, at, n);
    assert forall|p: int| 0 <= p < snap.len() implies spec_eligible(#[trigger] snap[p], f, at) by {
        let j = idx[p];
        assert(spec_is_latest(docs, f, at, j));
    }
    assert forall|p: int, k: int|
        #![trigger snap[p], spec_eligible(docs[k], f, at)]
        0 <= p < snap.len() && 0 <= k < docs.len() && spec_eligible(docs[k], f, at) && spec_doc_id(
            docs[k],
        ) == spec_doc_id(snap[p]) implies spec_doc_created(docs[k])->Some_0
        <= spec_doc_created(snap[p])->Some_0 by {
        let j = idx[p];
        assert(snap[p] == docs[j]);
        assert(spec_is_latest(docs, f, at, j));
    }
    assert forall|p: int, q: int|
        0 <= p < q < snap.len() implies spec_doc_id(#[trigger] snap[p]) != spec_doc_id(
        #[trigger] snap[q],
    ) by {
        let jp = idx[p];
        let jq = idx[q];
        assert(jp < jq);
        if spec_doc_id(docs[jp]) == spec_doc_id(docs[jq]) {
            assert(spec_is_latest(docs, f, at, jp));
            assert(spec_is_latest(docs, f, at, jq));
            assert(spec_doc_created(docs[jp])->Some_0 < spec_doc_created(docs[jq])->Some_0 || (
            spec_doc_created(docs[jp]) == spec_doc_created(docs[jq]) && jq <= jp));
            assert(spec_doc_created(docs[jq])->Some_0 < spec_doc_created(docs[jp])->Some_0 || (
            spec_doc_created(docs[jq]) == spec_doc_created(docs[jp]) && jp <= jq));
            assert(false);
        }
    }
}

/// Law: the snapshot of a fixed collection at a fixed point in time is one
/// sequence: two reads that both satisfy the snapshot contract return the
/// same documents in the same order.
pub proof fn law_snapshot_repeatable(
    docs: Seq<SpecVal>,
    f: Seq<(Seq<char>, SpecCond)>,
    at: int,
    r1: Seq<SpecVal>,
    r2: Seq<SpecVal>,
)
    requires
        r1 == spec_snapshot(docs, f, at),
        r2 == spec_snapshot(docs, f, at),
    ensures
        r1 == r2,
{
}

/// How a request bears on a read: no request at all, or a request whose
/// authorizer extracted the given credential.
pub open spec fn spec_requester<A: Authorizer>(
    authorizer: &A,
    req: Option<&Request>,
) -> Option<Option<Seq<char>>> {
    match req {
        Some(rq) => Some(authorizer.spec_credential(rq)),
        None => None,
    }
}

pub open spec fn spec_read_allowed(auth: Option<Option<Seq<char>>>, d: SpecVal) -> bool {
    match auth {
        None => true,
        Some(cred) => spec_is_authorized(cred, d),
    }
}

/// The post-fetch authorization filter: the subsequence a requester may see.
pub open spec fn spec_keep_allowed(s: Seq<SpecVal>, auth: Option<Option<Seq<char>>>) -> Seq<
    SpecVal,
>
    decreases s.len(),
{
    if s.len() == 0 {
        Seq::empty()
    } else {
        let rest = spec_keep_allowed(s.drop_last(), auth);
        if spec_read_allowed(auth, s.last()) {
            rest.push(s.last())
        } else {
            rest
        }
    }
}

/// Keep, in order, the documents the requester may read.
#[verifier::loop_isolation(false)]
pub fn authorize_docs<A: Authorizer>(docs: Vec<Val>, req: Option<&Request>, authorizer: &A) -> (r:
    Vec<Val>)
    ensures
        r.deep_view() == spec_keep_allowed(docs.deep_view(), spec_requester(authorizer, req)),
{
    let ghost ds = docs.deep_view();
    let ghost auth = spec_requester(authorizer, req);
    let mut out: Vec<Val> = Vec::new();
    let mut i: usize = 0;
    while i < docs.len()
        invariant
            i <= docs@.len(),
            out.deep_view() == spec_keep_allowed(ds.take(i as int), auth),
        decreases docs@.len() - i,
    {
        let allowed = match req {
            Some(rq) => authorizer.is_authorized(rq, &docs[i]),
            None => true,
        };
        if allowed {
            let c = docs[i].duplicate();
            out.push(c);
        }
        proof {
            assert(ds.take(i as int + 1).drop_last() =~= ds.take(i as int));
            assert(ds.take(i as int + 1).last() == ds[i as int]);
            assert(out.deep_view() =~= spec_keep_allowed(ds.take(i as int + 1), auth));
        }
        i += 1;
    }
    proof {
        assert(ds.take(ds.len() as int) =~= ds);
    }
    out
}

/// Why a read produced no documents or failed outright.
#[derive(Debug)]
pub enum ResolveError {
    /// The query template could not be expanded or its expansion was not a
    /// valid query.
    TemplateExpansion(String),
    /// No matching document, or one the requester may not see; the two are
    /// deliberately indistinguishable.
    NotFound,
    /// The endpoint declares no read under the requested name.
    UnknownField,
}

/// A vector read over the collection: expand the template, bound the view at
/// the caller's `at` argument (or `now`), take the temporal snapshot, and
/// keep what the requester may read.
pub fn vector<A: Authorizer>(
    docs: &Vec<Val>,
    query_template: &str,
    args: &Val,
    now: i64,
    req: Option<&Request>,
    authorizer: &A,
) -> (r: Result<Vec<Val>, ResolveError>)
    ensures
        match rendered_query(query_template@, args@) {
            Err(e) => r matches Err(ResolveError::TemplateExpansion(m)) && m@ == e,
            Ok(text) => match parsed_filter(text) {
                Err(e) => r matches Err(ResolveError::TemplateExpansion(m)) && m@ == e,
                Ok(base) => r matches Ok(out) && out.deep_view() == spec_keep_allowed(
                    spec_snapshot(
                        docs.deep_view(),
                        base.push(("createdAt"@, SpecCond::Lt(spec_timestamp(args@, now as int)))),
                        spec_timestamp(args@, now as int),
                    ),
                    spec_requester(authorizer, req),
                ),
            },
        },
{
    match process_query_template(args, query_template) {
        Err(e) => Err(ResolveError::TemplateExpansion(e)),
        Ok(mut base) => {
            let at = get_timestamp(args, now);
            let ghost before = base@;
            base.entries.push(("createdAt".to_owned(), Cond::Lt(at)));
            proof {
                assert(base@ =~= before.push(("createdAt"@, SpecCond::Lt(at as int))));
            }
            let snap = temporal_snapshot(docs, &base, at);
            Ok(authorize_docs(snap, req, authorizer))
        },
    }
}


/// Whether any version in the collection matches the filter.
pub open spec fn spec_has_match(docs: Seq<SpecVal>, f: Seq<(Seq<char>, SpecCond)>) -> bool {
    exists|i: int| 0 <= i < docs.len() && spec_matches(docs[i], f)
}

/// The position of the first matching version; meaningful only when one
/// exists.
pub open spec fn spec_first_match(docs: Seq<SpecVal>, f: Seq<(Seq<char>, SpecCond)>) -> int
    decreases docs.len(),
{
    if docs.len() == 0 {
        0
    } else if spec_matches(docs[0], f) {
        0
    } else {
        1 + spec_first_match(docs.drop_first(), f)
    }
}

proof fn lemma_first_match(docs: Seq<SpecVal>, f: Seq<(Seq<char>, SpecCond)>)
    requires
        spec_has_match(docs, f),
    ensures
        0 <= spec_first_match(docs, f) < docs.len(),
        spec_matches(docs[spec_first_match(docs, f)], f),
        forall|j: int| 0 <= j < spec_first_match(docs, f) ==> !spec_matches(docs[j], f),
    decreases docs.len(),
{
    if docs.len() > 0 && !spec_matches(docs[0], f) {
        let w = choose|i: int| 0 <= i < docs.len() && spec_matches(docs[i], f);
        assert(docs.drop_first()[w - 1] == docs[w]);
        lemma_first_match(docs.drop_first(), f);
        let fm = spec_first_match(docs, f);
        assert(docs.drop_first()[fm - 1] == docs[fm]);
        assert forall|j: int| 0 <= j < fm implies !spec_matches(docs[j], f) by {
            if j > 0 {
                assert(docs.drop_first()[j - 1] == docs[j]);
            }
        }
    }
}

/// What a singleton read yields: the first matching document, provided the
/// requester may read it; otherwise nothing, whether because nothing matched
/// or because the match was withheld.
pub open spec fn spec_singleton(
    docs: Seq<SpecVal>,
    f: Seq<(Seq<char>, SpecCond)>,
    auth: Option<Option<Seq<char>>>,
) -> Option<SpecVal> {
    if spec_has_match(docs, f) && spec_read_allowed(auth, docs[spec_first_match(docs, f)]) {
        Some(docs[spec_first_match(docs, f)])
    } else {
        None
    }
}

/// Find the one document a singleton read returns for an expanded filter.
#[verifier::loop_isolation(false)]
pub fn find_singleton<A: Authorizer>(
    docs: &Vec<Val>,
    base: &Filter,
    req: Option<&Request>,
    authorizer: &A,
) -> (r: Option<Val>)
    ensures
        match r {
            Some(v) => spec_singleton(docs.deep_view(), base@, spec_requester(authorizer, req))
                == Some(v@),
            None => spec_singleton(docs.deep_view(), base@, spec_requester(authorizer, req))
                is None,
        },
{
    let ghost ds = docs.deep_view();
    let ghost f = base@;
    let mut i: usize = 0;
    while i < docs.len()
        invariant
            i <= docs@.len(),
            forall|j: int| 0 <= j < i ==> !spec_matches(ds[j], f),
        decreases docs@.len() - i,
    {
        if matches_filter(&docs[i], base) {
            proof {
                assert(spec_matches(ds[i as int], f));
                assert(spec_has_match(ds, f));
                lemma_first_match(ds, f);
                let fm = spec_first_match(ds, f);
                if fm < i as int {
                    assert(!spec_matches(ds[fm], f));
                    assert(false);
                } else if fm > i as int {
                    assert(!spec_matches(ds[i as int], f));
                    assert(false);
                }
            }
            let allowed = match req {
                Some(rq) => authorizer.is_authorized(rq, &docs[i]),
                None => true,
            };
            if allowed {
                return Some(docs[i].duplicate());
            } else {
                return None;
            }
        }
        i += 1;
    }
    None
}

/// A singleton read: expand the template, look the one matching document up,
/// and hand it out only if the requester may read it.
pub fn singleton<A: Authorizer>(
    docs: &Vec<Val>,
    query_template: &str,
    args: &Val,
    req: Option<&Request>,
    authorizer: &A,
) -> (r: Result<Val, ResolveError>)
    ensures
        match rendered_query(query_template@, args@) {
            Err(e) => r matches Err(ResolveError::TemplateExpansion(m)) && m@ == e,
            Ok(text) => match parsed_filter(text) {
                Err(e) => r matches Err(ResolveError::TemplateExpansion(m)) && m@ == e,
                Ok(base) => match spec_singleton(
                    docs.deep_view(),
                    base,
                    spec_requester(authorizer, req),
                ) {
                    Some(d) => r matches Ok(v) && v@ == d,
                    None => r matches Err(ResolveError::NotFound),
                },
            },
        },
{
    match process_query_template(args, query_template) {
        Err(e) => Err(ResolveError::TemplateExpansion(e)),
        Ok(base) => match find_singleton(docs, &base, req, authorizer) {
            Some(v) => Ok(v),
            None => Err(ResolveError::NotFound),
        },
    }
}


spec fn spec_best_idx(
    docs: Seq<SpecVal>,
    f: Seq<(Seq<char>, SpecCond)>,
    at: int,
    target: Option<SpecVal>,
    n: int,
) -> int
    decreases n,
{
    if n <= 0 {
        0
    } else {
        let rest = spec_best_idx(docs, f, at, target, n - 1);
        if !(spec_eligible(docs[n - 1], f, at) && spec_doc_id(docs[n - 1]) == target) {
            rest
        } else if exists|m: int|
            0 <= m < n - 1 && spec_eligible(docs[m], f, at) && spec_doc_id(docs[m]) == target {
            if spec_doc_created(docs[n - 1])->Some_0 > spec_doc_created(docs[rest])->Some_0 {
                n - 1
            } else {
                rest
            }
        } else {
            n - 1
        }
    }
}

proof fn lemma_best_idx(
    docs: Seq<SpecVal>,
    f: Seq<(Seq<char>, SpecCond)>,
    at: int,
    target: Option<SpecVal>,
    n: int,
)
    requires
        0 <= n <= docs.len(),
        exists|m: int| 0 <= m < n && spec_eligible(docs[m], f, at) && spec_doc_id(docs[m]) == target,
    ensures
        ({
            let b = spec_best_idx(docs, f, at, target, n);
            &&& 0 <= b < n
            &&& spec_eligible(docs[b], f, at)
            &&& spec_doc_id(docs[b]) == target
            &&& forall|m: int|
                0 <= m < n && spec_eligible(docs[m], f, at) && spec_doc_id(docs[m]) == target
                    ==> spec_doc_created(docs[m])->Some_0 < spec_doc_created(docs[b])->Some_0 || (
                spec_doc_created(docs[m]) == spec_doc_created(docs[b]) && b <= m)
        }),
    decreases n,
{
    let b = spec_best_idx(docs, f, at, target, n);
    let lastok = spec_eligible(docs[n - 1], f, at) && spec_doc_id(docs[n - 1]) == target;
    if exists|m: int| 0 <= m < n - 1 && spec_eligible(docs[m], f, at) && spec_doc_id(docs[m])
        == target {
        lemma_best_idx(docs, f, at, target, n - 1);
        let rest = spec_best_idx(docs, f, at, target, n - 1);
        assert forall|m: int|
            0 <= m < n && spec_eligible(docs[m], f, at) && spec_doc_id(docs[m])
                == target implies spec_doc_created(docs[m])->Some_0 < spec_doc_created(
            docs[b],
        )->Some_0 || (spec_doc_created(docs[m]) == spec_doc_created(docs[b]) && b <= m) by {
            if m < n - 1 {
                if lastok && spec_doc_created(docs[n - 1])->Some_0 > spec_doc_created(
                    docs[rest],
                )->Some_0 {
                    assert(b == n - 1);
                } else {
                    assert(b == rest);
                }
            } else {
                assert(m == n - 1 && lastok);
            }
        }
    } else {
        let w = choose|m: int|
            0 <= m < n && spec_eligible(docs[m], f, at) && spec_doc_id(docs[m]) == target;
        assert(w == n - 1);
        assert(b == n - 1);
    }
}

proof fn lemma_latest_in_snapshot(
    docs: Seq<SpecVal>,
    f: Seq<(Seq<char>, SpecCond)>,
    at: int,
    n: int,
    j: int,
)
    requires
        0 <= j < n <= docs.len(),
        spec_is_latest(docs, f, at, j),
    ensures
        exists|p: int|
            0 <= p < spec_snapshot_upto(docs, f, at, n).len() && #[trigger] spec_snapshot_upto(
                docs,
                f,
                at,
                n,
            )[p] == docs[j],
    decreases n,
{
    if j == n - 1 {
        let snap = spec_snapshot_upto(docs, f, at, n);
        assert(snap[snap.len() - 1] == docs[j]);
    } else {
        lemma_latest_in_snapshot(docs, f, at, n - 1, j);
        let prev = spec_snapshot_upto(docs, f, at, n - 1);
        let p = choose|p: int| 0 <= p < prev.len() && #[trigger] prev[p] == docs[j];
        assert(spec_snapshot_upto(docs, f, at, n)[p] == docs[j]);
    }
}

/// Law: the snapshot is complete: every logical id with an eligible version
/// is represented in the snapshot.
pub proof fn law_snapshot_complete(
    docs: Seq<SpecVal>,
    f: Seq<(Seq<char>, SpecCond)>,
    at: int,
    k: int,
)
    requires
        0 <= k < docs.len(),
        spec_eligible(docs[k], f, at),
    ensures
        exists|p: int|
            0 <= p < spec_snapshot(docs, f, at).len() && spec_doc_id(
                #[trigger] spec_snapshot(docs, f, at)[p],
            ) == spec_doc_id(docs[k]),
{
    let n = docs.len() as int;
    let target = spec_doc_id(docs[k]);
    lemma_best_idx(docs, f, at, target, n);
    let b = spec_best_idx(docs, f, at, target, n);
    assert(spec_is_latest(docs, f, at, b));
    lemma_latest_in_snapshot(docs, f, at, n, b);
    let snap = spec_snapshot(docs, f, at);
    let p = choose|p: int| 0 <= p < snap.len() && #[trigger] snap[p] == docs[b];
    assert(spec_doc_id(snap[p]) == target);
}

} // verus!


