//! Query decomposition: a parsed fragment of the inbound query — one field
//! and its nested selection — is rendered back into a syntactically
//! self-contained query string for that field's subgraph, with the owning
//! document's id bound as the argument. Fragment spreads and inline
//! fragments render as nothing; the surrounding joins keep the output
//! whitespace-insensitively equal either way.

use vstd::prelude::*;

use vstd::string::StringExecFns;

verus! {

/// One field of a query fragment: its name and its nested selection.
pub struct FieldNode {
    pub name: String,
    pub children: Vec<SelectionNode>,
}

/// One selection of a query fragment: a plain field, or a construct (a
/// fragment spread, an inline fragment) the decomposer does not forward.
pub enum SelectionNode {
    Field(FieldNode),
    Other,
}

/// The text one selection renders to: a leaf field is its bare name, a field
/// with a nested selection is `name { children }`, anything else is nothing.
pub open spec fn spec_field_text(s: SelectionNode) -> Seq<char>
    decreases s,
{
    match s {
        SelectionNode::Other => Seq::empty(),
        SelectionNode::Field(f) => if f.children@.len() == 0 {
            f.name@
        } else {
            f.name@ + " { "@ + spec_selections_text(f.children@) + " }"@
        },
    }
}

/// The text a selection set renders to: the rendered selections joined by
/// single spaces.
pub open spec fn spec_selections_text(items: Seq<SelectionNode>) -> Seq<char>
    decreases items,
{
    if items.len() == 0 {
        Seq::empty()
    } else if items.len() == 1 {
        spec_field_text(items[0])
    } else {
        spec_selections_text(items.drop_last()) + " "@ + spec_field_text(items.last())
    }
}

/// Render one selection.
pub fn process_field_node(selection: &SelectionNode) -> (r: String)
    ensures
        r@ == spec_field_text(*selection),
    decreases *selection,
{
    match selection {
        SelectionNode::Other => String::new(),
        SelectionNode::Field(f) => {
            if f.children.len() == 0 {
                f.name.clone()
            } else {
                proof {
                    assert(decreases_to!(*selection => selection->Field_0));
                    assert(decreases_to!(selection->Field_0 => selection->Field_0.children));
                    assert(decreases_to!(*selection => f.children));
                }
                let inner = process_selection_set(&f.children);
                let mut out = f.name.clone();
                out.append(" { ");
                out.append(inner.as_str());
                out.append(" }");
                proof {
                    assert(out@ =~= spec_field_text(*selection));
                }
                out
            }
        },
    }
}

/// Render a selection set.
#[verifier::loop_isolation(false)]
pub fn process_selection_set(selection_set: &Vec<SelectionNode>) -> (r: String)
    ensures
        r@ == spec_selections_text(selection_set@),
    decreases *selection_set,
{
    let ghost items = selection_set@;
    let mut out = String::new();
    let mut i: usize = 0;
    while i < selection_set.len()
        invariant
            i <= items.len(),
            out@ == spec_selections_text(items.take(i as int)),
        decreases items.len() - i,
    {
        proof {
            assert(decreases_to!(*selection_set => items[i as int]));
        }
        let piece = process_field_node(&selection_set[i]);
        if i > 0 {
            out.append(" ");
        }
        out.append(piece.as_str());
        proof {
            assert(items.take(i as int + 1).drop_last() =~= items.take(i as int));
            assert(items.take(i as int + 1).last() == items[i as int]);
            if i > 0 {
                assert(out@ =~= spec_selections_text(items.take(i as int + 1)));
            } else {
                assert(out@ =~= spec_selections_text(items.take(1)));
            }
        }
        i += 1;
    }
    proof {
        assert(items.take(items.len() as int) =~= items);
    }
    out
}

/// The standalone query text for one field: the rendered selections wrapped
/// under the remote query name, with the id bound as the argument.
pub open spec fn spec_context_text(
    id: Seq<char>,
    items: Seq<SelectionNode>,
    query_name: Seq<char>,
) -> Seq<char> {
    "{ "@ + query_name + "(id: \""@ + id + "\") { "@ + spec_selections_text(items) + " } }"@
}

/// Reassemble a standalone query for one field's subgraph.
pub fn process_context(id: &str, selection_set: &Vec<SelectionNode>, query_name: &str) -> (r:
    String)
    ensures
        r@ == spec_context_text(id@, selection_set@, query_name@),
{
    let selections = process_selection_set(selection_set);
    let mut out = "{ ".to_owned();
    out.append(query_name);
    out.append("(id: \"");
    out.append(id);
    out.append("\") { ");
    out.append(selections.as_str());
    out.append(" } }");
    proof {
        assert(out@ =~= spec_context_text(id@, selection_set@, query_name@));
    }
    out
}

} // verus!
