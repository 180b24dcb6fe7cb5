//! Per-endpoint composition: one `Root` is built from an endpoint's
//! configuration and holds its fixed, inspectable table of singleton and
//! vector reads, dispatched by name; a `Context` pairs it with the
//! endpoint's DTO factory.

use vstd::prelude::*;

use crate::auth::{Authorizer, Request};
use crate::config::{DtoConfig, DtoSingleton, DtoVector, Graphlette};
use crate::dto::DTOFactory;
use crate::query::{parsed_filter, rendered_query, spec_timestamp, SpecCond};
use crate::temporal::{
    singleton, spec_keep_allowed, spec_requester, spec_singleton, spec_snapshot, vector,
    ResolveError,
};
use crate::value::{lemma_lookup_found, lemma_lookup_skip, spec_lookup, str_eq, Val};

verus! {

/// The dispatch table of one endpoint.
pub struct Root {
    pub singletons: Vec<DtoSingleton>,
    pub vectors: Vec<DtoVector>,
}

impl Root {
    /// The singleton dispatch table as name-to-template pairs.
    pub open spec fn spec_singleton_entries(&self) -> Seq<(Seq<char>, Seq<char>)> {
        Seq::new(
            self.singletons@.len(),
            |i: int| (self.singletons@[i].name@, self.singletons@[i].query@),
        )
    }

    /// The vector dispatch table as name-to-template pairs.
    pub open spec fn spec_vector_entries(&self) -> Seq<(Seq<char>, Seq<char>)> {
        Seq::new(self.vectors@.len(), |i: int| (self.vectors@[i].name@, self.vectors@[i].query@))
    }

    /// The template of the first singleton read declared under `name`.
    pub open spec fn spec_singleton_template(&self, name: Seq<char>) -> Option<Seq<char>> {
        spec_lookup(self.spec_singleton_entries(), name)
    }

    /// The template of the first vector read declared under `name`.
    pub open spec fn spec_vector_template(&self, name: Seq<char>) -> Option<Seq<char>> {
        spec_lookup(self.spec_vector_entries(), name)
    }

    pub fn new(config: DtoConfig) -> (r: Root)
        ensures
            r.singletons == config.singletons,
            r.vectors == config.vectors,
    {
        Root { singletons: config.singletons, vectors: config.vectors }
    }

    /// The declared query template of the singleton read named `name`.
    #[verifier::loop_isolation(false)]
    pub fn singleton_template(&self, name: &str) -> (r: Option<&String>)
        ensures
            match r {
                Some(t) => self.spec_singleton_template(name@) matches Some(q) && t@ == q,
                None => self.spec_singleton_template(name@) is None,
            },
    {
        let ghost es = self.spec_singleton_entries();
        proof {
            assert(es.skip(0) =~= es);
        }
        let mut i: usize = 0;
        while i < self.singletons.len()
            invariant
                i <= self.singletons@.len(),
                spec_lookup(es, name@) == spec_lookup(es.skip(i as int), name@),
            decreases self.singletons@.len() - i,
        {
            if str_eq(self.singletons[i].name.as_str(), name) {
                proof {
                    lemma_lookup_found(es, name@, i as int);
                }
                return Some(&self.singletons[i].query);
            }
            proof {
                lemma_lookup_skip(es, name@, i as int);
            }
            i += 1;
        }
        proof {
            assert(es.skip(es.len() as int) =~= Seq::<(Seq<char>, Seq<char>)>::empty());
        }
        None
    }

    /// The declared query template of the vector read named `name`.
    #[verifier::loop_isolation(false)]
    pub fn vector_template(&self, name: &str) -> (r: Option<&String>)
        ensures
            match r {
                Some(t) => self.spec_vector_template(name@) matches Some(q) && t@ == q,
                None => self.spec_vector_template(name@) is None,
            },
    {
        let ghost es = self.spec_vector_entries();
        proof {
            assert(es.skip(0) =~= es);
        }
        let mut i: usize = 0;
        while i < self.vectors.len()
            invariant
                i <= self.vectors@.len(),
                spec_lookup(es, name@) == spec_lookup(es.skip(i as int), name@),
            decreases self.vectors@.len() - i,
        {
            if str_eq(self.vectors[i].name.as_str(), name) {
                proof {
                    lemma_lookup_found(es, name@, i as int);
                }
                return Some(&self.vectors[i].query);
            }
            proof {
                lemma_lookup_skip(es, name@, i as int);
            }
            i += 1;
        }
        proof {
            assert(es.skip(es.len() as int) =~= Seq::<(Seq<char>, Seq<char>)>::empty());
        }
        None
    }

    /// Dispatch a singleton read by name against the collection.
    pub fn resolve_singleton<A: Authorizer>(
        &self,
        name: &str,
        docs: &Vec<Val>,
        args: &Val,
        req: Option<&Request>,
        authorizer: &A,
    ) -> (r: Result<Val, ResolveError>)
        ensures
            match self.spec_singleton_template(name@) {
                None => r matches Err(ResolveError::UnknownField),
                Some(q) => match rendered_query(q, args@) {
                    Err(e) => r matches Err(ResolveError::TemplateExpansion(m)) && m@ == e,
                    Ok(text) => match parsed_filter(text) {
                        Err(e) => r matches Err(ResolveError::TemplateExpansion(m)) && m@ == e,
                        Ok(base) => match spec_singleton(
                            docs.deep_view(),
                            base,
                            spec_requester(authorizer, req),
                        ) {
                            Some(d) => r matches Ok(v) && v@ == d,
                            None => r matches Err(ResolveError::NotFound),
                        },
                    },
                },
            },
    {
        match self.singleton_template(name) {
            Some(template) => {
                let t = template.clone();
                singleton(docs, t.as_str(), args, req, authorizer)
            },
            None => Err(ResolveError::UnknownField),
        }
    }

    /// Dispatch a vector read by name against the collection.
    pub fn resolve_vector<A: Authorizer>(
        &self,
        name: &str,
        docs: &Vec<Val>,
        args: &Val,
        now: i64,
        req: Option<&Request>,
        authorizer: &A,
    ) -> (r: Result<Vec<Val>, ResolveError>)
        ensures
            match self.spec_vector_template(name@) {
                None => r matches Err(ResolveError::UnknownField),
                Some(q) => match rendered_query(q, args@) {
                    Err(e) => r matches Err(ResolveError::TemplateExpansion(m)) && m@ == e,
                    Ok(text) => match parsed_filter(text) {
                        Err(e) => r matches Err(ResolveError::TemplateExpansion(m)) && m@ == e,
                        Ok(base) => r matches Ok(out) && out.deep_view() == spec_keep_allowed(
                            spec_snapshot(
                                docs.deep_view(),
                                base.push(
                                    ("createdAt"@, SpecCond::Lt(spec_timestamp(args@, now as int))),
                                ),
                                spec_timestamp(args@, now as int),
                            ),
                            spec_requester(authorizer, req),
                        ),
                    },
                },
            },
    {
        match self.vector_template(name) {
            Some(template) => {
                let t = template.clone();
                vector(docs, t.as_str(), args, now, req, authorizer)
            },
            None => Err(ResolveError::UnknownField),
        }
    }
}

/// One endpoint's composed read machinery.
pub struct Context {
    pub dto_factory: DTOFactory,
    pub root: Root,
}

impl Context {
    pub fn new(config: Graphlette) -> (r: Context)
        ensures
            r.dto_factory.resolvers == config.dto_config.resolvers,
            r.root.singletons == config.dto_config.singletons,
            r.root.vectors == config.dto_config.vectors,
    {
        let DtoConfig { singletons, vectors, resolvers } = config.dto_config;
        Context { dto_factory: DTOFactory::new(resolvers), root: Root { singletons, vectors } }
    }
}

} // verus!
