//! Structured storage queries: the filter a query template expands to, the
//! conditions the gateway adds to it, and what it means for a document to
//! match a filter.

use vstd::prelude::*;

use crate::value::{doc_get, sval, str_eq, val_eq, SpecVal, Val};

verus! {

/// The mathematical shape of one filter condition.
pub enum SpecCond {
    Eq(SpecVal),
    Lt(int),
    AnyOf(Seq<SpecVal>),
}

/// One condition on a document field.
#[derive(Debug)]
pub enum Cond {
    /// The field holds exactly this value.
    Eq(Val),
    /// The field holds an integer strictly below this bound.
    Lt(i64),
    /// The field holds one of these values, or an array containing one.
    AnyOf(Vec<Val>),
}

impl View for Cond {
    type V = SpecCond;

    open spec fn view(&self) -> SpecCond {
        match self {
            Cond::Eq(v) => SpecCond::Eq(sval(*v)),
            Cond::Lt(b) => SpecCond::Lt(*b as int),
            Cond::AnyOf(vs) => SpecCond::AnyOf(Seq::new(vs@.len(), |i: int| sval(vs@[i]))),
        }
    }
}

/// A structured storage query: a conjunction of conditions on fields.
pub struct Filter {
    pub entries: Vec<(String, Cond)>,
}

impl View for Filter {
    type V = Seq<(Seq<char>, SpecCond)>;

    open spec fn view(&self) -> Seq<(Seq<char>, SpecCond)> {
        Seq::new(self.entries@.len(), |i: int| (self.entries@[i].0@, self.entries@[i].1@))
    }
}

/// Membership as the store reads it: the field equals `v` outright, or is an
/// array with an element equal to `v`.
pub open spec fn spec_in_matches(field: SpecVal, v: SpecVal) -> bool {
    field == v || match field {
        SpecVal::Arr(items) => exists|j: int| 0 <= j < items.len() && items[j] == v,
        _ => false,
    }
}

pub open spec fn spec_cond_holds(field: Option<SpecVal>, c: SpecCond) -> bool {
    match c {
        SpecCond::Eq(v) => field == Some(v),
        SpecCond::Lt(bound) => field matches Some(SpecVal::Int(x)) && x < bound,
        SpecCond::AnyOf(vs) => field matches Some(fv) && exists|i: int|
            0 <= i < vs.len() && spec_in_matches(fv, vs[i]),
    }
}

/// A document matches a filter when every condition holds of its field.
pub open spec fn spec_matches(d: SpecVal, f: Seq<(Seq<char>, SpecCond)>) -> bool {
    forall|i: int| 0 <= i < f.len() ==> spec_cond_holds(doc_get(d, f[i].0), f[i].1)
}

#[verifier::loop_isolation(false)]
fn in_matches(field: &Val, v: &Val) -> (r: bool)
    ensures
        r == spec_in_matches(field@, v@),
{
    if val_eq(field, v) {
        return true;
    }
    match field {
        Val::Arr(items) => {
            let mut i: usize = 0;
            while i < items.len()
                invariant
                    i <= items@.len(),
                    forall|j: int| 0 <= j < i ==> field@->Arr_0[j] != v@,
                decreases items@.len() - i,
            {
                if val_eq(&items[i], v) {
                    proof {
                        assert(field@->Arr_0[i as int] == sval(items@[i as int]));
                    }
                    return true;
                }
                proof {
                    assert(field@->Arr_0[i as int] == sval(items@[i as int]));
                }
                i += 1;
            }
            false
        },
        _ => false,
    }
}

#[verifier::loop_isolation(false)]
fn cond_holds(doc: &Val, key: &str, c: &Cond) -> (r: bool)
    ensures
        r == spec_cond_holds(doc_get(doc@, key@), c@),
{
    let field = doc.get_field(key);
    match c {
        Cond::Eq(v) => match field {
            Some(f) => val_eq(f, v),
            None => false,
        },
        Cond::Lt(bound) => match field {
            Some(Val::Int(x)) => *x < *bound,
            _ => false,
        },
        Cond::AnyOf(vs) => match field {
            Some(f) => {
                let mut i: usize = 0;
                while i < vs.len()
                    invariant
                        i <= vs@.len(),
                        forall|j: int| 0 <= j < i ==> !spec_in_matches(f@, c@->AnyOf_0[j]),
                    decreases vs@.len() - i,
                {
                    if in_matches(f, &vs[i]) {
                        proof {
                            assert(c@->AnyOf_0[i as int] == sval(vs@[i as int]));
                        }
                        return true;
                    }
                    proof {
                        assert(c@->AnyOf_0[i as int] == sval(vs@[i as int]));
                    }
                    i += 1;
                }
                false
            },
            None => false,
        },
    }
}

/// Whether `doc` satisfies every condition of `filter`.
#[verifier::loop_isolation(false)]
pub fn matches_filter(doc: &Val, filter: &Filter) -> (r: bool)
    ensures
        r == spec_matches(doc@, filter@),
{
    let mut i: usize = 0;
    while i < filter.entries.len()
        invariant
            i <= filter.entries@.len(),
            forall|j: int| 0 <= j < i ==> spec_cond_holds(doc_get(doc@, filter@[j].0), filter@[j].1),
        decreases filter.entries@.len() - i,
    {
        if !cond_holds(doc, filter.entries[i].0.as_str(), &filter.entries[i].1) {
            proof {
                assert(!spec_cond_holds(doc_get(doc@, filter@[i as int].0), filter@[i as int].1));
            }
            return false;
        }
        i += 1;
    }
    true
}

/// What the template engine renders for a template and an argument object.
pub uninterp spec fn rendered_query(template: Seq<char>, args: SpecVal) -> Result<
    Seq<char>,
    Seq<char>,
>;

/// What a rendered query text parses to as a base filter.
pub uninterp spec fn parsed_filter(text: Seq<char>) -> Result<
    Seq<(Seq<char>, SpecCond)>,
    Seq<char>,
>;

pub open spec fn spec_str_result(r: Result<String, String>) -> Result<Seq<char>, Seq<char>> {
    match r {
        Ok(s) => Ok(s@),
        Err(e) => Err(e@),
    }
}

pub open spec fn spec_filter_result(r: Result<Filter, String>) -> Result<
    Seq<(Seq<char>, SpecCond)>,
    Seq<char>,
> {
    match r {
        Ok(f) => Ok(f@),
        Err(e) => Err(e@),
    }
}

/// Relies on handlebars::Handlebars::render_template: expanding a template
/// against an argument object is a function of the template text and the
/// arguments alone. Top-level scalar arguments are handed to the engine;
/// a non-object or nested argument value is reported as an error.
/// Relies on serde_json: one scalar argument value, as the template engine
/// takes it; a nested value has no place in an argument object.
#[verifier::external_body]
fn scalar_json(v: &Val) -> Option<serde_json::Value> {
    match v {
        Val::Null => Some(serde_json::Value::Null),
        Val::Bool(b) => Some(serde_json::Value::Bool(*b)),
        Val::Int(i) => Some(serde_json::Value::from(*i)),
        Val::Str(s) => Some(serde_json::Value::String(s.clone())),
        _ => None,
    }
}

#[verifier::external_body]
fn render_query(query_template: &str, parameters: &Val) -> (r: Result<String, String>)
    ensures
        spec_str_result(r) == rendered_query(query_template@, parameters@),
{
    let entries = match parameters {
        Val::Obj(es) => es,
        _ => return Err("query arguments must be an object".to_string()),
    };
    let mut map = serde_json::Map::new();
    for (k, v) in entries {
        match scalar_json(v) {
            Some(jv) => map.insert(k.clone(), jv),
            None => return Err("query arguments must be scalar".to_string()),
        };
    }
    let hb = handlebars::Handlebars::new();
    hb.render_template(query_template, &serde_json::Value::Object(map)).map_err(|e| format!("template rendering failed: {}", e))
}

/// Relies on serde_json::from_str: parsing the rendered query text is a
/// function of the text alone. The expansion must be a flat object of
/// scalar fields; anything else is reported as an error.
/// Relies on serde_json: one scalar field of an expanded query, carried into
/// the filter model; a nested field makes the expansion no flat filter.
#[verifier::external_body]
fn scalar_cond(v: serde_json::Value) -> Result<Cond, String> {
    match v {
        serde_json::Value::Null => Ok(Cond::Eq(Val::Null)),
        serde_json::Value::Bool(b) => Ok(Cond::Eq(Val::Bool(b))),
        serde_json::Value::Number(n) => n.as_i64().map(|i| Cond::Eq(Val::Int(i))).ok_or("unsupported number in query".to_string()),
        serde_json::Value::String(s) => Ok(Cond::Eq(Val::Str(s))),
        _ => Err("expanded query must be flat".to_string()),
    }
}

#[verifier::external_body]
fn parse_base_filter(text: &str) -> (r: Result<Filter, String>)
    ensures
        spec_filter_result(r) == parsed_filter(text@),
{
    let parsed: serde_json::Value = match serde_json::from_str(text) {
        Ok(v) => v,
        Err(e) => return Err(format!("failed to parse query JSON: {}", e)),
    };
    let obj = match parsed {
        serde_json::Value::Object(m) => m,
        _ => return Err("expanded query is not an object".to_string()),
    };
    let mut entries: Vec<(String, Cond)> = Vec::new();
    for (k, v) in obj {
        entries.push((k, scalar_cond(v)?));
    }
    Ok(Filter { entries })
}

/// Expand a query template against caller arguments into the base storage
/// filter; template failures and malformed expansions are reported, never
/// raised.
pub fn process_query_template(parameters: &Val, query_template: &str) -> (r: Result<Filter, String>)
    ensures
        match rendered_query(query_template@, parameters@) {
            Ok(text) => spec_filter_result(r) == parsed_filter(text),
            Err(e) => r matches Err(msg) && msg@ == e,
        },
{
    match render_query(query_template, parameters) {
        Ok(text) => parse_base_filter(text.as_str()),
        Err(e) => Err(e),
    }
}

/// The point-in-time bound of a vector read: the caller-supplied `at`
/// argument when present, else the supplied current time.
pub open spec fn spec_timestamp(args: SpecVal, now: int) -> int {
    match doc_get(args, "at"@) {
        Some(SpecVal::Int(v)) => v,
        _ => now,
    }
}

pub fn get_timestamp(args: &Val, now: i64) -> (r: i64)
    ensures
        r as int == spec_timestamp(args@, now as int),
{
    match args.get_field("at") {
        Some(Val::Int(v)) => *v,
        _ => now,
    }
}

} // verus!
