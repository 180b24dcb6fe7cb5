//! The document value model: stored documents, query arguments and subgraph
//! replies are all values of `Val`, an ordered-keys document tree. Its
//! mathematical counterpart is `SpecVal`, built from `Seq` and `int`, which
//! every contract in the crate speaks of.

use vstd::prelude::*;

verus! {

broadcast use vstd::std_specs::vec::axiom_vec_index_decreases, vstd::seq::axiom_seq_index_decreases;

/// The mathematical shape of a document value.
pub enum SpecVal {
    Null,
    Bool(bool),
    Int(int),
    Str(Seq<char>),
    Arr(Seq<SpecVal>),
    Obj(Seq<(Seq<char>, SpecVal)>),
}

/// A document value: `Obj` keeps its entries in the document's own key order,
/// as the store hands them out; duplicate keys resolve to the first entry.
#[derive(Debug)]
pub enum Val {
    Null,
    Bool(bool),
    Int(i64),
    Str(String),
    Arr(Vec<Val>),
    Obj(Vec<(String, Val)>),
}

pub open spec fn sval(v: Val) -> SpecVal
    decreases v,
{
    match v {
        Val::Null => SpecVal::Null,
        Val::Bool(b) => SpecVal::Bool(b),
        Val::Int(i) => SpecVal::Int(i as int),
        Val::Str(s) => SpecVal::Str(s@),
        Val::Arr(items) => SpecVal::Arr(
            Seq::new(
                items@.len(),
                |i: int|
                    if 0 <= i < items@.len() {
                        sval(items@[i])
                    } else {
                        SpecVal::Null
                    },
            ),
        ),
        Val::Obj(entries) => SpecVal::Obj(
            Seq::new(
                entries@.len(),
                |i: int|
                    (
                        entries@[i].0@,
                        if 0 <= i < entries@.len() {
                            sval(entries@[i].1)
                        } else {
                            SpecVal::Null
                        },
                    ),
            ),
        ),
    }
}

impl View for Val {
    type V = SpecVal;

    open spec fn view(&self) -> SpecVal {
        sval(*self)
    }
}

impl DeepView for Val {
    type V = SpecVal;

    open spec fn deep_view(&self) -> SpecVal {
        sval(*self)
    }
}

/// First entry of `entries` whose key is `key`, if any.
pub open spec fn spec_lookup<T>(entries: Seq<(Seq<char>, T)>, key: Seq<char>) -> Option<T>
    decreases entries.len(),
{
    if entries.len() == 0 {
        None
    } else if entries[0].0 == key {
        Some(entries[0].1)
    } else {
        spec_lookup(entries.drop_first(), key)
    }
}

/// Field `key` of document `d`: `None` when `d` is not an object or has no
/// such field.
pub open spec fn doc_get(d: SpecVal, key: Seq<char>) -> Option<SpecVal> {
    match d {
        SpecVal::Obj(entries) => spec_lookup(entries, key),
        _ => None,
    }
}

pub proof fn lemma_lookup_skip<T>(entries: Seq<(Seq<char>, T)>, key: Seq<char>, i: int)
    requires
        0 <= i < entries.len(),
        entries[i].0 != key,
    ensures
        spec_lookup(entries.skip(i), key) == spec_lookup(entries.skip(i + 1), key),
{
    assert(entries.skip(i).len() > 0);
    assert(entries.skip(i)[0] == entries[i]);
    assert(entries.skip(i).drop_first() =~= entries.skip(i + 1));
}

pub proof fn lemma_lookup_found<T>(entries: Seq<(Seq<char>, T)>, key: Seq<char>, i: int)
    requires
        0 <= i < entries.len(),
        entries[i].0 == key,
    ensures
        spec_lookup(entries.skip(i), key) == Some(entries[i].1),
{
    assert(entries.skip(i).len() > 0);
    assert(entries.skip(i)[0] == entries[i]);
}

/// Character-for-character string comparison.
pub fn str_eq(a: &str, b: &str) -> (r: bool)
    ensures
        r == (a@ == b@),
{
    let alen = a.unicode_len();
    let blen = b.unicode_len();
    if alen != blen {
        return false;
    }
    let mut i: usize = 0;
    while i < alen
        invariant
            alen == a@.len(),
            blen == b@.len(),
            alen == blen,
            i <= alen,
            forall|j: int| 0 <= j < i ==> a@[j] == b@[j],
        decreases alen - i,
    {
        if a.get_char(i) != b.get_char(i) {
            return false;
        }
        i += 1;
    }
    proof {
        assert(a@ =~= b@);
    }
    true
}

impl Val {
    /// The field named `key` of this value, when it is an object that has one.
    #[verifier::loop_isolation(false)]
    pub fn get_field<'a>(&'a self, key: &str) -> (r: Option<&'a Val>)
        ensures
            match r {
                Some(v) => doc_get(self@, key@) == Some(v@),
                None => doc_get(self@, key@) is None,
            },
    {
        match self {
            Val::Obj(entries) => {
                let ghost es = self@->Obj_0;
                proof {
                    assert(es.skip(0) =~= es);
                }
                let mut i: usize = 0;
                while i < entries.len()
                    invariant
                        es.len() == entries@.len(),
                        forall|j: int|
                            0 <= j < es.len() ==> es[j] == (entries@[j].0@, sval(entries@[j].1)),
                        i <= entries@.len(),
                        spec_lookup(es, key@) == spec_lookup(es.skip(i as int), key@),
                    decreases entries@.len() - i,
                {
                    if str_eq(entries[i].0.as_str(), key) {
                        proof {
                            lemma_lookup_found(es, key@, i as int);
                        }
                        return Some(&entries[i].1);
                    }
                    proof {
                        lemma_lookup_skip(es, key@, i as int);
                    }
                    i += 1;
                }
                proof {
                    assert(es.skip(es.len() as int) =~= Seq::empty());
                }
                None
            },
            _ => None,
        }
    }

    /// An exact copy of this value.
    #[verifier::loop_isolation(false)]
    pub fn duplicate(&self) -> (r: Val)
        ensures
            r@ == self@,
        decreases self,
    {
        match self {
            Val::Null => Val::Null,
            Val::Bool(b) => Val::Bool(*b),
            Val::Int(i) => Val::Int(*i),
            Val::Str(s) => Val::Str(s.clone()),
            Val::Arr(items) => {
                let mut out: Vec<Val> = Vec::new();
                let mut i: usize = 0;
                while i < items.len()
                    invariant
                        i <= items@.len(),
                        out@.len() == i,
                        forall|j: int| 0 <= j < i ==> sval(out@[j]) == sval(items@[j]),
                    decreases items@.len() - i,
                {
                    proof {
                        assert(decreases_to!(*self => self->Arr_0));
                        assert(decreases_to!(self->Arr_0 => self->Arr_0@));
                        assert(decreases_to!(self->Arr_0@ => self->Arr_0@[i as int]));
                        assert(decreases_to!(*self => items@[i as int]));
                    }
                    let c = items[i].duplicate();
                    out.push(c);
                    i += 1;
                }
                let r = Val::Arr(out);
                proof {
                    assert(r@->Arr_0 =~= self@->Arr_0);
                }
                r
            },
            Val::Obj(entries) => {
                let mut out: Vec<(String, Val)> = Vec::new();
                let mut i: usize = 0;
                while i < entries.len()
                    invariant
                        i <= entries@.len(),
                        out@.len() == i,
                        forall|j: int|
                            0 <= j < i ==> out@[j].0@ == entries@[j].0@ && sval(out@[j].1) == sval(
                                entries@[j].1,
                            ),
                    decreases entries@.len() - i,
                {
                    let k = entries[i].0.clone();
                    proof {
                        assert(decreases_to!(*self => self->Obj_0));
                        assert(decreases_to!(self->Obj_0 => self->Obj_0@));
                        assert(decreases_to!(self->Obj_0@ => self->Obj_0@[i as int]));
                        assert(decreases_to!(self->Obj_0@[i as int] => self->Obj_0@[i as int].1));
                        assert(decreases_to!(*self => entries@[i as int].1));
                    }
                    let v = entries[i].1.duplicate();
                    out.push((k, v));
                    i += 1;
                }
                let r = Val::Obj(out);
                proof {
                    assert(r@->Obj_0 =~= self@->Obj_0);
                }
                r
            },
        }
    }
}


/// Index of the first entry of `entries` whose key is `key`; meaningful only
/// when such an entry exists.
pub open spec fn spec_key_index<T>(entries: Seq<(Seq<char>, T)>, key: Seq<char>) -> int
    decreases entries.len(),
{
    if entries.len() == 0 {
        0
    } else if entries[0].0 == key {
        0
    } else {
        1 + spec_key_index(entries.drop_first(), key)
    }
}

pub proof fn lemma_key_index<T>(entries: Seq<(Seq<char>, T)>, key: Seq<char>)
    requires
        spec_lookup(entries, key) is Some,
    ensures
        0 <= spec_key_index(entries, key) < entries.len(),
        entries[spec_key_index(entries, key)].0 == key,
        entries[spec_key_index(entries, key)].1 == spec_lookup(entries, key)->Some_0,
        forall|j: int| 0 <= j < spec_key_index(entries, key) ==> entries[j].0 != key,
    decreases entries.len(),
{
    if entries.len() > 0 && entries[0].0 != key {
        lemma_key_index(entries.drop_first(), key);
        let ki = spec_key_index(entries, key);
        assert forall|j: int| 0 <= j < ki implies entries[j].0 != key by {
            if j > 0 {
                assert(entries.drop_first()[j - 1] == entries[j]);
            }
        }
        assert(entries.drop_first()[ki - 1] == entries[ki]);
    }
}

/// The entries after storing `v` under `key`: the first entry with that key is
/// replaced in place; when none exists the pair is appended.
pub open spec fn spec_set_entries<T>(
    entries: Seq<(Seq<char>, T)>,
    key: Seq<char>,
    v: T,
) -> Seq<(Seq<char>, T)> {
    if spec_lookup(entries, key) is Some {
        entries.update(spec_key_index(entries, key), (key, v))
    } else {
        entries.push((key, v))
    }
}

/// Document `d` with field `key` set to `v`: objects get the field stored,
/// a null document becomes a one-field object, anything else is unchanged.
pub open spec fn spec_set_field(d: SpecVal, key: Seq<char>, v: SpecVal) -> SpecVal {
    match d {
        SpecVal::Obj(entries) => SpecVal::Obj(spec_set_entries(entries, key, v)),
        SpecVal::Null => SpecVal::Obj(seq![(key, v)]),
        _ => d,
    }
}

/// Structural equality of two values.
#[verifier::loop_isolation(false)]
pub fn val_eq(a: &Val, b: &Val) -> (r: bool)
    ensures
        r == (a@ == b@),
    decreases a,
{
    match (a, b) {
        (Val::Null, Val::Null) => true,
        (Val::Bool(x), Val::Bool(y)) => x == y,
        (Val::Int(x), Val::Int(y)) => x == y,
        (Val::Str(x), Val::Str(y)) => str_eq(x.as_str(), y.as_str()),
        (Val::Arr(xs), Val::Arr(ys)) => {
            if xs.len() != ys.len() {
                proof {
                    assert(a@->Arr_0.len() == xs@.len());
                    assert(b@->Arr_0.len() == ys@.len());
                }
                return false;
            }
            let mut i: usize = 0;
            while i < xs.len()
                invariant
                    i <= xs@.len(),
                    forall|j: int| 0 <= j < i ==> sval(xs@[j]) == sval(ys@[j]),
                decreases xs@.len() - i,
            {
                proof {
                    assert(decreases_to!(*a => a->Arr_0));
                    assert(decreases_to!(a->Arr_0 => a->Arr_0@));
                    assert(decreases_to!(a->Arr_0@ => a->Arr_0@[i as int]));
                    assert(decreases_to!(*a => xs@[i as int]));
                }
                if !val_eq(&xs[i], &ys[i]) {
                    proof {
                        assert(a@->Arr_0[i as int] == sval(xs@[i as int]));
                        assert(b@->Arr_0[i as int] == sval(ys@[i as int]));
                    }
                    return false;
                }
                i += 1;
            }
            proof {
                assert(a@->Arr_0 =~= b@->Arr_0);
            }
            true
        },
        (Val::Obj(xs), Val::Obj(ys)) => {
            if xs.len() != ys.len() {
                proof {
                    assert(a@->Obj_0.len() == xs@.len());
                    assert(b@->Obj_0.len() == ys@.len());
                }
                return false;
            }
            let mut i: usize = 0;
            while i < xs.len()
                invariant
                    i <= xs@.len(),
                    forall|j: int|
                        0 <= j < i ==> xs@[j].0@ == ys@[j].0@ && sval(xs@[j].1) == sval(ys@[j].1),
                decreases xs@.len() - i,
            {
                if !str_eq(xs[i].0.as_str(), ys[i].0.as_str()) {
                    proof {
                        assert(a@->Obj_0[i as int].0 == xs@[i as int].0@);
                        assert(b@->Obj_0[i as int].0 == ys@[i as int].0@);
                    }
                    return false;
                }
                proof {
                    assert(decreases_to!(*a => a->Obj_0));
                    assert(decreases_to!(a->Obj_0 => a->Obj_0@));
                    assert(decreases_to!(a->Obj_0@ => a->Obj_0@[i as int]));
                    assert(decreases_to!(a->Obj_0@[i as int] => a->Obj_0@[i as int].1));
                    assert(decreases_to!(*a => xs@[i as int].1));
                }
                if !val_eq(&xs[i].1, &ys[i].1) {
                    proof {
                        assert(a@->Obj_0[i as int].1 == sval(xs@[i as int].1));
                        assert(b@->Obj_0[i as int].1 == sval(ys@[i as int].1));
                    }
                    return false;
                }
                i += 1;
            }
            proof {
                assert(a@->Obj_0 =~= b@->Obj_0);
            }
            true
        },
        _ => false,
    }
}

impl Val {
    /// This value with field `key` set to `v`, as `spec_set_field` describes.
    #[verifier::loop_isolation(false)]
    pub fn set_field(self, key: &str, v: Val) -> (r: Val)
        ensures
            r@ == spec_set_field(self@, key@, v@),
    {
        match self {
            Val::Obj(mut entries) => {
                let ghost es = Seq::new(
                    entries@.len(),
                    |i: int| (entries@[i].0@, sval(entries@[i].1)),
                );
                proof {
                    assert(es =~= sval(Val::Obj(entries))->Obj_0);
                    assert(es.skip(0) =~= es);
                }
                let mut i: usize = 0;
                while i < entries.len()
                    invariant
                        i <= entries@.len(),
                        es.len() == entries@.len(),
                        forall|j: int|
                            0 <= j < es.len() ==> es[j] == (entries@[j].0@, sval(entries@[j].1)),
                        spec_lookup(es, key@) == spec_lookup(es.skip(i as int), key@),
                        forall|j: int| 0 <= j < i ==> es[j].0 != key@,
                    decreases entries@.len() - i,
                {
                    if str_eq(entries[i].0.as_str(), key) {
                        proof {
                            lemma_lookup_found(es, key@, i as int);
                            lemma_key_index(es, key@);
                            let ki = spec_key_index(es, key@);
                            if ki < i as int {
                                assert(es[ki].0 != key@);
                                assert(false);
                            } else if ki > i as int {
                                assert(es[i as int].0 != key@);
                                assert(false);
                            }
                            assert(ki == i as int);
                        }
                        entries.remove(i);
                        entries.insert(i, (key.to_owned(), v));
                        let r = Val::Obj(entries);
                        proof {
                            assert(r@->Obj_0 =~= spec_set_entries(es, key@, v@));
                        }
                        return r;
                    }
                    proof {
                        lemma_lookup_skip(es, key@, i as int);
                    }
                    i += 1;
                }
                proof {
                    assert(es.skip(es.len() as int) =~= Seq::empty());
                }
                entries.push((key.to_owned(), v));
                let r = Val::Obj(entries);
                proof {
                    assert(r@->Obj_0 =~= spec_set_entries(es, key@, v@));
                }
                r
            },
            Val::Null => {
                let r = Val::Obj(vec![(key.to_owned(), v)]);
                proof {
                    assert(r@->Obj_0 =~= seq![(key@, v@)]);
                }
                r
            },
            _ => self,
        }
    }
}

} // verus!

