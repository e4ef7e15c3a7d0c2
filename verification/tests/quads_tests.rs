use grapl_core::NodeProperty;
use grapl_core::Property;
use grapl_core::build_upserts;
use grapl_core::escape_quote;
use grapl_core::gen_node_property_upsert_quads;
use grapl_core::node_creation_quads;

#[test]
fn creation_quads_bind_the_query_variable() {
    let node_key = escape_quote("key-1");
    let (var_name, query, mutation) = node_creation_quads(7, &node_key, "Process");

    assert_eq!(var_name, "node_exists_7");
    assert_eq!(
        query,
        "\n            node_exists_7 as var(func: eq(node_key, \"key-1\"), first: 1) @cascade\n            q_node_exists_7(func: uid(node_exists_7), first: 1) @cascade\n            {\n                uid,\n                node_key,\n            }\n    "
    );
    assert_eq!(
        mutation.set_nquads,
        "_:node_exists_7 <node_key> \"key-1\" .\n_:node_exists_7 <dgraph.type> \"Process\" ."
    );
    assert_eq!(mutation.cond, "@if(eq(len(node_exists_7), 0))");
}

#[test]
fn property_quads_cover_both_conditions() {
    let var_name = String::from("node_exists_7");
    let value = escape_quote("svchost.exe");
    let (query, on_existing, on_created) =
        gen_node_property_upsert_quads(&var_name, "name", &value);

    assert_eq!(query, "\n            var(func: uid(node_exists_7), first: 1)\n    ");
    assert_eq!(on_existing.set_nquads, "uid(node_exists_7) <name> \"svchost.exe\" .");
    assert_eq!(on_existing.cond, "@if(eq(len(node_exists_7), 1))");
    assert_eq!(on_created.set_nquads, "_:node_exists_7 <name> \"svchost.exe\" .");
    assert_eq!(on_created.cond, "@if(eq(len(node_exists_7), 0))");
}

#[test]
fn build_upserts_emits_creation_then_property_mutations() {
    let properties = vec![
        (
            String::from("name"),
            NodeProperty { property: Property::ImmutableStrProp(String::from("svchost.exe")) },
        ),
        // written by the creation mutation, not upserted per property
        (
            String::from("node_key"),
            NodeProperty { property: Property::ImmutableStrProp(String::from("key-1")) },
        ),
        (String::from("pid"), NodeProperty { property: Property::ImmutableUintProp(1234) }),
    ];
    let mut key_query_map: Vec<(String, String)> = Vec::new();
    let (queries, mutations) = build_upserts(9, "key-1", "Process", &properties, &mut key_query_map);

    assert_eq!(key_query_map.len(), 1);
    assert_eq!(key_query_map[0].0, "key-1");
    assert_eq!(key_query_map[0].1, "node_exists_9");

    // the creation mutation, then two per upserted property
    assert_eq!(mutations.len(), 5);
    assert_eq!(mutations[0].cond, "@if(eq(len(node_exists_9), 0))");
    assert_eq!(mutations[1].set_nquads, "uid(node_exists_9) <name> \"svchost.exe\" .");
    assert_eq!(mutations[2].set_nquads, "_:node_exists_9 <name> \"svchost.exe\" .");
    assert_eq!(mutations[3].set_nquads, "uid(node_exists_9) <pid> \"1234\" .");
    assert_eq!(mutations[4].set_nquads, "_:node_exists_9 <pid> \"1234\" .");

    // the query text holds the creation block and one block per kept property
    assert!(queries.starts_with("\n            node_exists_9 as var(func: eq(node_key, \"key-1\"), first: 1) @cascade"));
    assert_eq!(queries.matches("var(func: uid(node_exists_9), first: 1)").count(), 2);
    assert!(queries.ends_with("\n"));
}
