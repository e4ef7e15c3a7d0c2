//! Building the upsert queries and mutations that merge one node into the
//! graph store.
//!
//! Each node gets a query variable derived from the merger's query
//! parameter. One conditional mutation creates the node if no node with its
//! key exists; per property, one mutation writes the predicate onto the
//! existing node and one onto the newly created node, whichever condition
//! holds. The store's own mutation type carries exactly two texts — the
//! n-quads to set and the condition — so a mutation is modeled here as that
//! pair of strings; the host packs them into its client's mutation values.

use vstd::prelude::*;
use vstd::string::StringExecFns;

use crate::digits::dec_digits;
use crate::digits::u128_to_decimal;
use crate::upsert::Escaped;
use crate::upsert::NodeProperty;
use crate::upsert::escape_prop;
use crate::upsert::escape_quote;
use crate::upsert::property_chars;
use crate::upsert::quoted;

verus! {

/// One conditional mutation for the graph store: the n-quads it sets and
/// the condition under which it applies.
pub struct UpsertMutation {
    pub set_nquads: String,
    pub cond: String,
}

/// The mathematical content of a mutation.
#[verifier::ext_equal]
pub struct MutationModel {
    pub set_nquads: Seq<char>,
    pub cond: Seq<char>,
}

impl View for UpsertMutation {
    type V = MutationModel;

    open spec fn view(&self) -> MutationModel {
        MutationModel { set_nquads: self.set_nquads@, cond: self.cond@ }
    }
}

impl DeepView for UpsertMutation {
    type V = MutationModel;

    open spec fn deep_view(&self) -> MutationModel {
        self.view()
    }
}

/// The query variable that holds whether the node already exists.
pub open spec fn creation_var_chars(query_param: u128) -> Seq<char> {
    "node_exists_"@ + dec_digits(query_param as nat)
}

/// The query block that binds the creation variable and selects the
/// matching node, if any.
pub open spec fn creation_query_chars(cv: Seq<char>, node_key: Seq<char>) -> Seq<char> {
    "\n            "@ + cv + " as var(func: eq(node_key, "@ + node_key
        + "), first: 1) @cascade\n            q_"@ + cv + "(func: uid("@ + cv
        + "), first: 1) @cascade\n            {\n                uid,\n                node_key,\n            }\n    "@
}

/// The n-quads that create the node with its key and type.
pub open spec fn creation_nquads_chars(cv: Seq<char>, node_key: Seq<char>, node_type: Seq<char>)
    -> Seq<char> {
    "_:"@ + cv + " <node_key> "@ + node_key + " .\n_:"@ + cv + " <dgraph.type> \""@ + node_type
        + "\" ."@
}

/// The condition that the node does not exist yet.
pub open spec fn cond_when_absent(cv: Seq<char>) -> Seq<char> {
    "@if(eq(len("@ + cv + "), 0))"@
}

/// The condition that the node already exists.
pub open spec fn cond_when_present(cv: Seq<char>) -> Seq<char> {
    "@if(eq(len("@ + cv + "), 1))"@
}

/// The query block that re-binds the creation variable for one property.
pub open spec fn prop_query_chars(cv: Seq<char>) -> Seq<char> {
    "\n            var(func: uid("@ + cv + "), first: 1)\n    "@
}

/// The n-quads that write one predicate onto the existing node.
pub open spec fn prop_update_nquads(cv: Seq<char>, name: Seq<char>, value: Seq<char>) -> Seq<
    char,
> {
    "uid("@ + cv + ") <"@ + name + "> "@ + value + " ."@
}

/// The n-quads that write one predicate onto the newly created node.
pub open spec fn prop_create_nquads(cv: Seq<char>, name: Seq<char>, value: Seq<char>) -> Seq<
    char,
> {
    "_:"@ + cv + " <"@ + name + "> "@ + value + " ."@
}

/// Whether a property takes part in the upsert: the node key and the store's
/// type predicate are written by the creation mutation, not per property.
pub open spec fn upserted(name: Seq<char>) -> bool {
    name != "node_key"@ && name != "dgraph.type"@
}

/// The escaped value of one property, as the upsert writes it.
pub open spec fn upsert_value_chars(p: NodeProperty) -> Seq<char> {
    quoted(property_chars(p.property))
}

/// The queries appended for the properties `props[i..]`, in order, each
/// followed by a newline; skipped properties contribute nothing.
pub open spec fn prop_queries_from(props: Seq<(String, NodeProperty)>, cv: Seq<char>, i: int)
    -> Seq<char>
    decreases props.len() - i,
{
    if i < 0 || i >= props.len() {
        Seq::empty()
    } else if upserted(props[i].0@) {
        prop_query_chars(cv) + "\n"@ + prop_queries_from(props, cv, i + 1)
    } else {
        prop_queries_from(props, cv, i + 1)
    }
}

/// The two mutations appended for each upserted property of `props[i..]`:
/// the update onto the existing node, then the write onto the new node.
pub open spec fn prop_mutations_from(props: Seq<(String, NodeProperty)>, cv: Seq<char>, i: int)
    -> Seq<MutationModel>
    decreases props.len() - i,
{
    if i < 0 || i >= props.len() {
        Seq::empty()
    } else if upserted(props[i].0@) {
        seq![
            MutationModel {
                set_nquads: prop_update_nquads(
                    cv,
                    props[i].0@,
                    upsert_value_chars(props[i].1),
                ),
                cond: cond_when_present(cv),
            },
            MutationModel {
                set_nquads: prop_create_nquads(
                    cv,
                    props[i].0@,
                    upsert_value_chars(props[i].1),
                ),
                cond: cond_when_absent(cv),
            },
        ] + prop_mutations_from(props, cv, i + 1)
    } else {
        prop_mutations_from(props, cv, i + 1)
    }
}

fn creation_var_name(query_param: u128) -> (s: String)
    ensures
        s@ == creation_var_chars(query_param),
{
    let mut s = String::new();
    s.append("node_exists_");
    let digits = u128_to_decimal(query_param);
    let digit_str = crate::upsert::chars_to_string(&digits);
    s.append(digit_str.as_str());
    proof {
        assert(s@ =~= creation_var_chars(query_param));
    }
    s
}

/// Build the node-creation parts of an upsert: the query variable's name,
/// the query block that binds it, and the conditional mutation that creates
/// the node — with its key and type — only if no node with that key exists.
pub fn node_creation_quads(query_param: u128, node_key: &Escaped, node_type: &str) -> (r: (
    String,
    String,
    UpsertMutation,
))
    ensures
        r.0@ == creation_var_chars(query_param),
        r.1@ == creation_query_chars(creation_var_chars(query_param), node_key@),
        r.2@.set_nquads == creation_nquads_chars(
            creation_var_chars(query_param),
            node_key@,
            node_type@,
        ),
        r.2@.cond == cond_when_absent(creation_var_chars(query_param)),
{
    let cv = creation_var_name(query_param);

    let mut query = String::new();
    query.append("\n            ");
    query.append(cv.as_str());
    query.append(" as var(func: eq(node_key, ");
    query.append(node_key.as_str());
    query.append("), first: 1) @cascade\n            q_");
    query.append(cv.as_str());
    query.append("(func: uid(");
    query.append(cv.as_str());
    query.append(
        "), first: 1) @cascade\n            {\n                uid,\n                node_key,\n            }\n    ",
    );

    let mut nquads = String::new();
    nquads.append("_:");
    nquads.append(cv.as_str());
    nquads.append(" <node_key> ");
    nquads.append(node_key.as_str());
    nquads.append(" .\n_:");
    nquads.append(cv.as_str());
    nquads.append(" <dgraph.type> \"");
    nquads.append(node_type);
    nquads.append("\" .");

    let cond = cond_absent(&cv);
    proof {
        assert(query@ =~= creation_query_chars(cv@, node_key@));
        assert(nquads@ =~= creation_nquads_chars(cv@, node_key@, node_type@));
    }
    (cv, query, UpsertMutation { set_nquads: nquads, cond })
}

fn cond_absent(cv: &String) -> (s: String)
    ensures
        s@ == cond_when_absent(cv@),
{
    let mut s = String::new();
    s.append("@if(eq(len(");
    s.append(cv.as_str());
    s.append("), 0))");
    proof {
        assert(s@ =~= cond_when_absent(cv@));
    }
    s
}

fn cond_present(cv: &String) -> (s: String)
    ensures
        s@ == cond_when_present(cv@),
{
    let mut s = String::new();
    s.append("@if(eq(len(");
    s.append(cv.as_str());
    s.append("), 1))");
    proof {
        assert(s@ =~= cond_when_present(cv@));
    }
    s
}

/// Build the upsert parts for one property: the query block that re-binds
/// the creation variable, the mutation that writes the predicate onto the
/// existing node ("last write wins"), and the one that writes it onto the
/// newly created node.
pub fn gen_node_property_upsert_quads(
    creation_var_name: &String,
    prop_name: &str,
    prop_value: &Escaped,
) -> (r: (String, UpsertMutation, UpsertMutation))
    ensures
        r.0@ == prop_query_chars(creation_var_name@),
        r.1@.set_nquads == prop_update_nquads(creation_var_name@, prop_name@, prop_value@),
        r.1@.cond == cond_when_present(creation_var_name@),
        r.2@.set_nquads == prop_create_nquads(creation_var_name@, prop_name@, prop_value@),
        r.2@.cond == cond_when_absent(creation_var_name@),
{
    let cv = creation_var_name;

    let mut query = String::new();
    query.append("\n            var(func: uid(");
    query.append(cv.as_str());
    query.append("), first: 1)\n    ");

    let mut update = String::new();
    update.append("uid(");
    update.append(cv.as_str());
    update.append(") <");
    update.append(prop_name);
    update.append("> ");
    update.append(prop_value.as_str());
    update.append(" .");

    let mut create = String::new();
    create.append("_:");
    create.append(cv.as_str());
    create.append(" <");
    create.append(prop_name);
    create.append("> ");
    create.append(prop_value.as_str());
    create.append(" .");

    let on_existing = UpsertMutation { set_nquads: update, cond: cond_present(cv) };
    let on_created = UpsertMutation { set_nquads: create, cond: cond_absent(cv) };
    proof {
        assert(query@ =~= prop_query_chars(cv@));
        assert(on_existing@.set_nquads =~= prop_update_nquads(cv@, prop_name@, prop_value@));
        assert(on_created@.set_nquads =~= prop_create_nquads(cv@, prop_name@, prop_value@));
    }
    (query, on_existing, on_created)
}

/// Build the whole upsert for one node: the creation query and mutation,
/// then per property — the node key and type predicates excepted — the
/// query block and the two conditional predicate writes. The node key is
/// recorded against its query variable in `key_query_map`.
pub fn build_upserts(
    query_param: u128,
    node_key: &str,
    node_type: &str,
    properties: &Vec<(String, NodeProperty)>,
    key_query_map: &mut Vec<(String, String)>,
) -> (r: (String, Vec<UpsertMutation>))
    ensures
        ({
            let cv = creation_var_chars(query_param);
            &&& r.0@ == creation_query_chars(cv, quoted(node_key@)) + "\n"@ + prop_queries_from(
                properties@,
                cv,
                0,
            )
            &&& r.1.deep_view() == seq![
                MutationModel {
                    set_nquads: creation_nquads_chars(cv, quoted(node_key@), node_type@),
                    cond: cond_when_absent(cv),
                },
            ] + prop_mutations_from(properties@, cv, 0)
            &&& final(key_query_map)@.len() == old(key_query_map)@.len() + 1
            &&& final(key_query_map)@ == old(key_query_map)@.push(final(key_query_map)@.last())
            &&& final(key_query_map)@.last().0@ == node_key@
            &&& final(key_query_map)@.last().1@ == cv
        }),
{
    let escaped_key = escape_quote(node_key);
    let (cv, creation_query, creation_mutation) = node_creation_quads(
        query_param,
        &escaped_key,
        node_type,
    );
    let ghost cvs = creation_var_chars(query_param);

    let mut recorded_key = String::new();
    recorded_key.append(node_key);
    let ghost old_map = key_query_map@;
    key_query_map.push((recorded_key, cv.clone()));
    proof {
        assert(key_query_map@ =~= old_map.push(key_query_map@.last()));
    }

    let mut queries = String::new();
    queries.append(creation_query.as_str());
    queries.append("\n");
    let mut mutations: Vec<UpsertMutation> = Vec::new();
    mutations.push(creation_mutation);

    let ghost head_q = creation_query_chars(cvs, quoted(node_key@)) + "\n"@;
    let ghost head_m = seq![
        MutationModel {
            set_nquads: creation_nquads_chars(cvs, quoted(node_key@), node_type@),
            cond: cond_when_absent(cvs),
        },
    ];
    let ghost mut done_q: Seq<char> = Seq::empty();
    let ghost mut done_m: Seq<MutationModel> = Seq::empty();
    let mut i: usize = 0;
    proof {
        assert(queries@ =~= head_q + done_q);
        assert(mutations.deep_view() =~= head_m + done_m);
        assert(done_q + prop_queries_from(properties@, cvs, 0) =~= prop_queries_from(
            properties@,
            cvs,
            0,
        ));
        assert(done_m + prop_mutations_from(properties@, cvs, 0) =~= prop_mutations_from(
            properties@,
            cvs,
            0,
        ));
    }
    while i < properties.len()
        invariant
            cv@ == cvs,
            i <= properties@.len(),
            queries@ == head_q + done_q,
            mutations.deep_view() == head_m + done_m,
            prop_queries_from(properties@, cvs, 0) == done_q + prop_queries_from(
                properties@,
                cvs,
                i as int,
            ),
            prop_mutations_from(properties@, cvs, 0) == done_m + prop_mutations_from(
                properties@,
                cvs,
                i as int,
            ),
        decreases properties@.len() - i,
    {
        let key_predicate = String::from_str("node_key");
        let type_predicate = String::from_str("dgraph.type");
        let name_is_key = properties[i].0 == key_predicate;
        let name_is_type = properties[i].0 == type_predicate;
        if !name_is_key && !name_is_type {
            let prop_value = escape_prop(&properties[i].1);
            let (next_query, on_existing, on_created) = gen_node_property_upsert_quads(
                &cv,
                properties[i].0.as_str(),
                &prop_value,
            );
            let ghost old_q = queries@;
            let ghost old_m = mutations.deep_view();
            queries.append(next_query.as_str());
            queries.append("\n");
            mutations.push(on_existing);
            mutations.push(on_created);
            proof {
                let step_q = prop_query_chars(cvs) + "\n"@;
                let step_m = seq![
                    MutationModel {
                        set_nquads: prop_update_nquads(
                            cvs,
                            properties@[i as int].0@,
                            upsert_value_chars(properties@[i as int].1),
                        ),
                        cond: cond_when_present(cvs),
                    },
                    MutationModel {
                        set_nquads: prop_create_nquads(
                            cvs,
                            properties@[i as int].0@,
                            upsert_value_chars(properties@[i as int].1),
                        ),
                        cond: cond_when_absent(cvs),
                    },
                ];
                assert(queries@ =~= old_q + step_q);
                assert(mutations.deep_view() =~= old_m + step_m);
                assert(queries@ =~= head_q + (done_q + step_q));
                assert(mutations.deep_view() =~= head_m + (done_m + step_m));
                assert(prop_queries_from(properties@, cvs, i as int) == step_q
                    + prop_queries_from(properties@, cvs, i as int + 1));
                assert(prop_mutations_from(properties@, cvs, i as int) =~= step_m
                    + prop_mutations_from(properties@, cvs, i as int + 1));
                assert(done_q + (step_q + prop_queries_from(properties@, cvs, i as int + 1)) =~= (
                done_q + step_q) + prop_queries_from(properties@, cvs, i as int + 1));
                assert(done_m + (step_m + prop_mutations_from(properties@, cvs, i as int + 1)) =~= (
                done_m + step_m) + prop_mutations_from(properties@, cvs, i as int + 1));
                done_q = done_q + step_q;
                done_m = done_m + step_m;
            }
        } else {
            proof {
                assert(!upserted(properties@[i as int].0@));
            }
        }
        i = i + 1;
    }
    proof {
        assert(prop_queries_from(properties@, cvs, properties@.len() as int) =~= Seq::<
            char,
        >::empty());
        assert(done_q + Seq::<char>::empty() =~= done_q);
        assert(done_m + Seq::<MutationModel>::empty() =~= done_m);
        assert(queries@ =~= creation_query_chars(cvs, quoted(node_key@)) + "\n"@
            + prop_queries_from(properties@, cvs, 0));
    }
    (queries, mutations)
}

} // verus!
