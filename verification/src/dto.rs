//! DTO assembly: a stored document becomes the response object field by
//! field. A field wired to a resolver takes the resolved value handed in for
//! it — federated resolution happens between the read and the fill — and
//! every other field copies the stored value. No source key is ever dropped.

use vstd::prelude::*;

use crate::config::DtoResolver;
use crate::value::{
    lemma_lookup_found, lemma_lookup_skip, spec_lookup, str_eq, sval, SpecVal, Val,
};

verus! {

/// The view of a resolved-values table.
pub open spec fn entries_view(es: Seq<(String, Val)>) -> Seq<(Seq<char>, SpecVal)> {
    Seq::new(es.len(), |i: int| (es[i].0@, sval(es[i].1)))
}

/// First resolved value recorded under `key`, if any.
#[verifier::loop_isolation(false)]
fn resolved_get<'a>(resolved: &'a Vec<(String, Val)>, key: &str) -> (r: Option<&'a Val>)
    ensures
        match r {
            Some(v) => spec_lookup(entries_view(resolved@), key@) == Some(v@),
            None => spec_lookup(entries_view(resolved@), key@) is None,
        },
{
    let ghost es = entries_view(resolved@);
    proof {
        assert(es.skip(0) =~= es);
    }
    let mut i: usize = 0;
    while i < resolved.len()
        invariant
            i <= resolved@.len(),
            spec_lookup(es, key@) == spec_lookup(es.skip(i as int), key@),
        decreases resolved@.len() - i,
    {
        if str_eq(resolved[i].0.as_str(), key) {
            proof {
                lemma_lookup_found(es, key@, i as int);
            }
            return Some(&resolved[i].1);
        }
        proof {
            lemma_lookup_skip(es, key@, i as int);
        }
        i += 1;
    }
    proof {
        assert(es.skip(es.len() as int) =~= Seq::<(Seq<char>, SpecVal)>::empty());
    }
    None
}

/// The per-endpoint factory that turns stored documents into response
/// objects; it holds the declared federated-field table.
pub struct DTOFactory {
    pub resolvers: Vec<DtoResolver>,
}

impl DTOFactory {
    /// Whether a resolver is declared under this field name.
    pub open spec fn spec_is_resolved(&self, key: Seq<char>) -> bool {
        exists|i: int| 0 <= i < self.resolvers@.len() && self.resolvers@[i].name@ == key
    }

    /// The response value of one field: a resolver-wired field takes the
    /// resolved value, or null when none was resolved; any other field keeps
    /// the stored value.
    pub open spec fn spec_fill_value(
        &self,
        key: Seq<char>,
        stored: SpecVal,
        resolved: Seq<(Seq<char>, SpecVal)>,
    ) -> SpecVal {
        if self.spec_is_resolved(key) {
            match spec_lookup(resolved, key) {
                Some(v) => v,
                None => SpecVal::Null,
            }
        } else {
            stored
        }
    }

    /// The response object for one document: the document's own keys in the
    /// document's own order, each filled by `spec_fill_value`; a non-object
    /// document yields an empty object.
    pub open spec fn spec_fill_one(
        &self,
        d: SpecVal,
        resolved: Seq<(Seq<char>, SpecVal)>,
    ) -> SpecVal {
        match d {
            SpecVal::Obj(es) => SpecVal::Obj(
                Seq::new(
                    es.len(),
                    |i: int| (es[i].0, self.spec_fill_value(es[i].0, es[i].1, resolved)),
                ),
            ),
            _ => SpecVal::Obj(Seq::empty()),
        }
    }

    pub fn new(resolvers: Vec<DtoResolver>) -> (r: DTOFactory)
        ensures
            r.resolvers == resolvers,
    {
        DTOFactory { resolvers }
    }

    #[verifier::loop_isolation(false)]
    fn is_resolved(&self, key: &str) -> (r: bool)
        ensures
            r == self.spec_is_resolved(key@),
    {
        let mut i: usize = 0;
        while i < self.resolvers.len()
            invariant
                i <= self.resolvers@.len(),
                forall|j: int| 0 <= j < i ==> self.resolvers@[j].name@ != key@,
            decreases self.resolvers@.len() - i,
        {
            if str_eq(self.resolvers[i].name.as_str(), key) {
                return true;
            }
            i += 1;
        }
        false
    }

    /// Assemble the response object for one document.
    #[verifier::loop_isolation(false)]
    pub fn fill_one(&self, data: &Val, resolved: &Vec<(String, Val)>) -> (r: Val)
        ensures
            r@ == self.spec_fill_one(data@, entries_view(resolved@)),
    {
        let ghost rv = entries_view(resolved@);
        match data {
            Val::Obj(entries) => {
                let ghost es = data@->Obj_0;
                let mut out: Vec<(String, Val)> = Vec::new();
                let mut i: usize = 0;
                while i < entries.len()
                    invariant
                        i <= entries@.len(),
                        out@.len() == i,
                        forall|j: int|
                            0 <= j < i ==> out@[j].0@ == es[j].0 && sval(out@[j].1)
                                == self.spec_fill_value(es[j].0, es[j].1, rv),
                    decreases entries@.len() - i,
                {
                    let key = entries[i].0.clone();
                    if self.is_resolved(key.as_str()) {
                        let v = match resolved_get(resolved, key.as_str()) {
                            Some(v) => v.duplicate(),
                            None => Val::Null,
                        };
                        out.push((key, v));
                    } else {
                        let v = entries[i].1.duplicate();
                        out.push((key, v));
                    }
                    i += 1;
                }
                let r = Val::Obj(out);
                proof {
                    assert(r@->Obj_0 =~= self.spec_fill_one(data@, rv)->Obj_0);
                }
                r
            },
            _ => {
                let r = Val::Obj(Vec::new());
                proof {
                    assert(r@->Obj_0 =~= Seq::<(Seq<char>, SpecVal)>::empty());
                }
                r
            },
        }
    }

    /// Assemble the response objects for an ordered batch, in order; the
    /// resolved-values tables are given per document.
    #[verifier::loop_isolation(false)]
    pub fn fill_many(&self, data_list: &Vec<Val>, resolved: &Vec<Vec<(String, Val)>>) -> (r: Vec<
        Val,
    >)
        requires
            resolved@.len() == data_list@.len(),
        ensures
            r@.len() == data_list@.len(),
            forall|i: int|
                0 <= i < r@.len() ==> sval(r@[i]) == self.spec_fill_one(
                    sval(data_list@[i]),
                    entries_view(resolved@[i]@),
                ),
    {
        let mut out: Vec<Val> = Vec::new();
        let mut i: usize = 0;
        while i < data_list.len()
            invariant
                i <= data_list@.len(),
                out@.len() == i,
                forall|j: int|
                    0 <= j < i ==> sval(out@[j]) == self.spec_fill_one(
                        sval(data_list@[j]),
                        entries_view(resolved@[j]@),
                    ),
            decreases data_list@.len() - i,
        {
            let filled = self.fill_one(&data_list[i], &resolved[i]);
            out.push(filled);
            i += 1;
        }
        out
    }
}

/// Law: DTO assembly preserves every key of the source document: the output
/// object has exactly the source's keys, in the source's order.
pub proof fn law_fill_preserves_keys(
    factory: &DTOFactory,
    d: SpecVal,
    resolved: Seq<(Seq<char>, SpecVal)>,
)
    requires
        d is Obj,
    ensures
        factory.spec_fill_one(d, resolved) is Obj,
        factory.spec_fill_one(d, resolved)->Obj_0.len() == d->Obj_0.len(),
        forall|i: int|
            0 <= i < d->Obj_0.len() ==> #[trigger] factory.spec_fill_one(d, resolved)->Obj_0[i].0
                == d->Obj_0[i].0,
{
}

} // verus!
