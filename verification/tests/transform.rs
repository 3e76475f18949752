use coordtest::ast::{FullItemName, Node, RawDatabaseSpecifier, Role, Shape, Statement, StatementKind};
use coordtest::transform::{
    ambiguous_err, create_stmt_rename, create_stmt_rename_refs, create_stmt_rename_schema_refs,
    create_stmt_replace_ids, rewrite_query, CreateSqlRewriter, QueryIdentAgg,
};
use std::collections::BTreeMap;

fn node(role: Role, shape: Shape, names: &[&str]) -> Node {
    Node { role, shape, id: None, names: names.iter().map(|n| n.to_string()).collect() }
}

fn item(role: Role, names: &[&str]) -> Node {
    node(role, Shape::ItemName, names)
}

fn column(names: &[&str]) -> Node {
    node(Role::Query, Shape::Identifier, names)
}

fn wildcard(names: &[&str]) -> Node {
    node(Role::Query, Shape::QualifiedWildcard, names)
}

fn ident(name: &str) -> Node {
    node(Role::Query, Shape::Ident, &[name])
}

fn full(database: Option<&str>, schema: &str, item: &str) -> FullItemName {
    FullItemName {
        database: match database {
            Some(d) => RawDatabaseSpecifier::Name(d.to_string()),
            None => RawDatabaseSpecifier::Ambient,
        },
        schema: schema.to_string(),
        item: item.to_string(),
    }
}

fn view(nodes: Vec<Node>) -> Statement {
    Statement { kind: StatementKind::CreateView, nodes }
}

#[test]
fn rename_schema_rewrites_fully_qualified_references() {
    let mut stmt = view(vec![
        item(Role::Name, &["db", "old", "v"]),
        item(Role::Query, &["db", "old", "t"]),
        item(Role::Query, &["other", "old", "t"]),
        item(Role::Query, &["db", "keep", "t"]),
        column(&["db", "old", "t", "a"]),
        column(&["db", "old", "t"]),
        wildcard(&["db", "old", "t"]),
        ident("old"),
        item(Role::Query, &["t"]),
    ]);
    assert_eq!(create_stmt_rename_schema_refs(&mut stmt, "db", "old", "new"), Ok(()));
    assert_eq!(
        stmt,
        view(vec![
            item(Role::Name, &["db", "new", "v"]),
            item(Role::Query, &["db", "new", "t"]),
            item(Role::Query, &["other", "old", "t"]),
            item(Role::Query, &["db", "keep", "t"]),
            column(&["db", "new", "t", "a"]),
            column(&["db", "old", "t"]),
            wildcard(&["db", "new", "t"]),
            ident("old"),
            item(Role::Query, &["t"]),
        ])
    );
}

#[test]
fn rename_schema_reports_the_first_reference_without_database() {
    let mut stmt = view(vec![
        item(Role::Query, &["old", "t"]),
        column(&["old", "u", "a"]),
        item(Role::Query, &["db", "old", "w"]),
        item(Role::Query, &["keep", "x"]),
    ]);
    assert_eq!(
        create_stmt_rename_schema_refs(&mut stmt, "db", "old", "new"),
        Err(("old".to_string(), "t".to_string()))
    );
    assert_eq!(
        stmt,
        view(vec![
            item(Role::Query, &["old", "t"]),
            column(&["old", "u", "a"]),
            item(Role::Query, &["db", "new", "w"]),
            item(Role::Query, &["keep", "x"]),
        ])
    );
    let mut later = view(vec![column(&["old", "u", "a"]), wildcard(&["old", "t"])]);
    assert_eq!(
        create_stmt_rename_schema_refs(&mut later, "db", "old", "new"),
        Err(("old".to_string(), "u".to_string()))
    );
}

#[test]
fn rename_sets_the_last_part_of_the_name() {
    let mut stmt = Statement {
        kind: StatementKind::CreateTable,
        nodes: vec![item(Role::Name, &["db", "public", "t"]), ident("a")],
    };
    create_stmt_rename(&mut stmt, "renamed".to_string());
    assert_eq!(
        stmt,
        Statement {
            kind: StatementKind::CreateTable,
            nodes: vec![item(Role::Name, &["db", "public", "renamed"]), ident("a")],
        }
    );
    let mut short = view(vec![ident("c"), item(Role::Name, &["v"])]);
    create_stmt_rename(&mut short, "w".to_string());
    assert_eq!(short, view(vec![ident("c"), item(Role::Name, &["w"])]));
}

#[test]
fn rename_gives_an_index_its_name() {
    let target = item(Role::Target, &["db", "public", "t"]);
    let mut unnamed = Statement { kind: StatementKind::CreateIndex, nodes: vec![target.clone()] };
    create_stmt_rename(&mut unnamed, "idx".to_string());
    assert_eq!(
        unnamed,
        Statement {
            kind: StatementKind::CreateIndex,
            nodes: vec![node(Role::Name, Shape::Ident, &["idx"]), target.clone()],
        }
    );
    create_stmt_rename(&mut unnamed, "idx2".to_string());
    assert_eq!(
        unnamed,
        Statement {
            kind: StatementKind::CreateIndex,
            nodes: vec![node(Role::Name, Shape::Ident, &["idx2"]), target],
        }
    );
}

#[test]
fn rename_refs_updates_the_relation_of_an_index() {
    let mut index = Statement {
        kind: StatementKind::CreateIndex,
        nodes: vec![
            node(Role::Name, Shape::Ident, &["idx"]),
            item(Role::Target, &["db", "public", "t"]),
            node(Role::Other, Shape::Identifier, &["t", "a"]),
        ],
    };
    assert_eq!(
        create_stmt_rename_refs(&mut index, full(Some("db"), "public", "t"), "u".to_string()),
        Ok(())
    );
    assert_eq!(index.nodes[1], item(Role::Target, &["db", "public", "u"]));
    assert_eq!(index.nodes[2], node(Role::Other, Shape::Identifier, &["t", "a"]));
    assert_eq!(
        create_stmt_rename_refs(&mut index, full(None, "public", "u"), "w".to_string()),
        Ok(())
    );
    assert_eq!(index.nodes[1], item(Role::Target, &["db", "public", "u"]));
    let mut sink = Statement {
        kind: StatementKind::CreateSink,
        nodes: vec![item(Role::Name, &["s"]), item(Role::Target, &["public", "u"])],
    };
    assert_eq!(
        create_stmt_rename_refs(&mut sink, full(None, "public", "u"), "w".to_string()),
        Ok(())
    );
    assert_eq!(sink.nodes[1], item(Role::Target, &["public", "w"]));
    assert_eq!(sink.nodes[0], item(Role::Name, &["s"]));
}

#[test]
fn rename_refs_leaves_statements_without_references() {
    let mut table = Statement {
        kind: StatementKind::CreateTable,
        nodes: vec![item(Role::Name, &["db", "public", "t"]), item(Role::Query, &["db", "public", "t"])],
    };
    let before = table.clone();
    assert_eq!(
        create_stmt_rename_refs(&mut table, full(Some("db"), "public", "t"), "u".to_string()),
        Ok(())
    );
    assert_eq!(table, before);
}

#[test]
fn rename_refs_rewrites_a_view_query() {
    let mut stmt = view(vec![
        item(Role::Name, &["db", "public", "v"]),
        item(Role::Query, &["db", "public", "t"]),
        column(&["t", "a"]),
        column(&["public", "t", "b"]),
        column(&["db", "public", "t", "c"]),
        wildcard(&["t"]),
        column(&["b"]),
        ident("alias"),
        item(Role::Query, &["db", "public", "other"]),
        node(Role::Other, Shape::Identifier, &["t", "a"]),
    ]);
    assert_eq!(
        create_stmt_rename_refs(&mut stmt, full(Some("db"), "public", "t"), "u".to_string()),
        Ok(())
    );
    assert_eq!(
        stmt,
        view(vec![
            item(Role::Name, &["db", "public", "v"]),
            item(Role::Query, &["db", "public", "u"]),
            column(&["u", "a"]),
            column(&["public", "u", "b"]),
            column(&["db", "public", "u", "c"]),
            wildcard(&["u"]),
            column(&["b"]),
            ident("alias"),
            item(Role::Query, &["db", "public", "other"]),
            node(Role::Other, Shape::Identifier, &["t", "a"]),
        ])
    );
}

#[test]
fn rename_refs_refuses_a_new_name_that_the_query_uses() {
    let nodes = vec![item(Role::Query, &["db", "public", "t"]), column(&["t", "u"])];
    let mut stmt = view(nodes.clone());
    assert_eq!(
        create_stmt_rename_refs(&mut stmt, full(Some("db"), "public", "t"), "u".to_string()),
        Err("found reference to \"u\"; cannot rename \"t\" to any identity used in any existing view definitions".to_string())
    );
    assert_eq!(stmt, view(nodes));
}

#[test]
fn rename_refs_refuses_a_name_used_as_column_or_alias() {
    let mut as_column = view(vec![item(Role::Query, &["db", "public", "t"]), column(&["x", "t"])]);
    assert_eq!(
        create_stmt_rename_refs(&mut as_column, full(Some("db"), "public", "t"), "u".to_string()),
        Err("\"t\" potentially used ambiguously as item and column".to_string())
    );
    let mut as_alias = view(vec![item(Role::Query, &["db", "public", "t"]), ident("t")]);
    assert_eq!(
        create_stmt_rename_refs(&mut as_alias, full(Some("db"), "public", "t"), "u".to_string()),
        Err("\"t\" potentially used ambiguously as item and alias or column".to_string())
    );
    let mut as_schema = view(vec![item(Role::Query, &["db", "t", "x"])]);
    assert_eq!(
        create_stmt_rename_refs(&mut as_schema, full(Some("db"), "public", "t"), "u".to_string()),
        Err("\"t\" potentially used ambiguously as item and database, schema, or function".to_string())
    );
    let mut unqualified_item = view(vec![item(Role::Query, &["public", "t"])]);
    assert_eq!(
        create_stmt_rename_refs(&mut unqualified_item, full(Some("db"), "public", "t"), "u".to_string()),
        Err("\"t\" potentially used ambiguously as item and database, schema, or function".to_string())
    );
}

#[test]
fn rename_refs_requires_enough_qualification() {
    let nodes = vec![
        item(Role::Query, &["db", "a", "t"]),
        item(Role::Query, &["db", "b", "t"]),
        column(&["t", "x"]),
    ];
    let mut stmt = view(nodes.clone());
    assert_eq!(
        create_stmt_rename_refs(&mut stmt, full(Some("db"), "a", "t"), "u".to_string()),
        Err("\"t\" is not sufficiently qualified to support renaming".to_string())
    );
    assert_eq!(stmt, view(nodes));
}

#[test]
fn rename_refs_renames_only_the_item_of_the_schema() {
    let mut stmt = view(vec![
        item(Role::Query, &["db", "a", "t"]),
        item(Role::Query, &["db", "b", "t"]),
        column(&["a", "t", "x"]),
        column(&["b", "t", "x"]),
        wildcard(&["db", "a", "t"]),
    ]);
    assert_eq!(
        create_stmt_rename_refs(&mut stmt, full(Some("db"), "a", "t"), "u".to_string()),
        Ok(())
    );
    assert_eq!(
        stmt,
        view(vec![
            item(Role::Query, &["db", "a", "u"]),
            item(Role::Query, &["db", "b", "t"]),
            column(&["a", "u", "x"]),
            column(&["b", "t", "x"]),
            wildcard(&["db", "a", "u"]),
        ])
    );
}

#[test]
fn qual_depth_follows_the_qualifiers_seen() {
    let one = vec![item(Role::Query, &["db", "a", "t"]), column(&["t", "x"])];
    assert_eq!(QueryIdentAgg::determine_qual_depth("t", None, &one), Ok(1));
    let two = vec![
        item(Role::Query, &["db", "a", "t"]),
        item(Role::Query, &["db", "b", "t"]),
        column(&["a", "t", "x"]),
    ];
    assert_eq!(QueryIdentAgg::determine_qual_depth("t", None, &two), Ok(2));
    let three = vec![
        item(Role::Query, &["db", "a", "t"]),
        item(Role::Query, &["other", "a", "t"]),
        column(&["db", "a", "t", "x"]),
    ];
    assert_eq!(QueryIdentAgg::determine_qual_depth("t", None, &three), Ok(3));
    let short = vec![
        item(Role::Query, &["db", "a", "t"]),
        item(Role::Query, &["other", "a", "t"]),
        wildcard(&["a", "t"]),
    ];
    assert_eq!(
        QueryIdentAgg::determine_qual_depth("t", None, &short),
        Err("\"t\" is not sufficiently qualified to support renaming".to_string())
    );
    assert_eq!(QueryIdentAgg::determine_qual_depth("t", None, &vec![]), Ok(1));
    assert_eq!(
        QueryIdentAgg::determine_qual_depth("t", Some("x".to_string()), &one),
        Err("found reference to \"x\"; cannot rename \"t\" to any identity used in any existing view definitions".to_string())
    );
}

#[test]
fn qual_depth_reports_the_last_complaint() {
    let nodes = vec![column(&["a", "t"]), ident("t"), column(&["t", "x"])];
    assert_eq!(
        QueryIdentAgg::determine_qual_depth("t", None, &nodes),
        Err("\"t\" potentially used ambiguously as item and alias or column".to_string())
    );
    let outside = vec![node(Role::Other, Shape::Ident, &["t"]), column(&["t", "x"])];
    assert_eq!(QueryIdentAgg::determine_qual_depth("t", None, &outside), Ok(1));
}

#[test]
fn rewriter_renames_at_the_given_depth() {
    let from = full(None, "public", "t");
    let mut nodes = vec![
        column(&["t", "a"]),
        column(&["public", "t", "a"]),
        column(&["<none>", "public", "t", "a"]),
        wildcard(&["t"]),
        item(Role::Query, &["x", "public", "t"]),
    ];
    CreateSqlRewriter::rewrite_query_with_qual_depth(&from, "u".to_string(), 2, &mut nodes);
    assert_eq!(
        nodes,
        vec![
            column(&["t", "a"]),
            column(&["public", "u", "a"]),
            column(&["<none>", "public", "u", "a"]),
            wildcard(&["t"]),
            item(Role::Query, &["x", "public", "u"]),
        ]
    );
    CreateSqlRewriter::rewrite_query_with_qual_depth(
        &full(None, "public", "u"),
        "w".to_string(),
        3,
        &mut nodes,
    );
    assert_eq!(nodes[2], column(&["<none>", "public", "w", "a"]));
    assert_eq!(nodes[4], item(Role::Query, &["x", "public", "u"]));
    CreateSqlRewriter::rewrite_query_with_qual_depth(
        &full(None, "public", "t"),
        "z".to_string(),
        1,
        &mut nodes,
    );
    assert_eq!(nodes[0], column(&["z", "a"]));
    assert_eq!(nodes[3], wildcard(&["z"]));
}

#[test]
fn rewrite_query_changes_nothing_when_it_is_refused() {
    let before = vec![
        item(Role::Query, &["db", "a", "t"]),
        item(Role::Query, &["db", "b", "t"]),
        column(&["a", "t", "x"]),
    ];
    let mut nodes = before.clone();
    assert_eq!(
        rewrite_query(&full(Some("db"), "a", "t"), "b".to_string(), &mut nodes),
        Err("found reference to \"b\"; cannot rename \"t\" to any identity used in any existing view definitions".to_string())
    );
    assert_eq!(nodes, before);
    assert_eq!(rewrite_query(&full(Some("db"), "a", "t"), "u".to_string(), &mut nodes), Ok(()));
    assert_eq!(
        nodes,
        vec![
            item(Role::Query, &["db", "a", "u"]),
            item(Role::Query, &["db", "b", "t"]),
            column(&["a", "u", "x"]),
        ]
    );
}

#[test]
fn replace_ids_swaps_known_ids() {
    let mut stmt = view(vec![
        Node { role: Role::Query, shape: Shape::ItemName, id: Some(1), names: vec!["t".to_string()] },
        Node { role: Role::Query, shape: Shape::ItemName, id: Some(2), names: vec!["u".to_string()] },
        Node { role: Role::Target, shape: Shape::ItemName, id: Some(3), names: vec![] },
        Node { role: Role::Query, shape: Shape::ItemName, id: None, names: vec!["w".to_string()] },
        Node { role: Role::Query, shape: Shape::Ident, id: Some(1), names: vec!["x".to_string()] },
    ]);
    let ids: BTreeMap<u64, u64> = [(1, 10), (3, 1), (10, 99)].into_iter().collect();
    create_stmt_replace_ids(&mut stmt, &ids);
    let got: Vec<Option<u64>> = stmt.nodes.iter().map(|n| n.id).collect();
    assert_eq!(got, vec![Some(10), Some(2), Some(1), None, Some(1)]);
    assert_eq!(stmt.nodes[0].names, vec!["t".to_string()]);
    assert_eq!(stmt.kind, StatementKind::CreateView);
}

#[test]
fn ambiguous_err_quotes_the_name() {
    assert_eq!(
        ambiguous_err("t", "column"),
        "\"t\" potentially used ambiguously as item and column"
    );
    assert_eq!(
        ambiguous_err("a\"b", "alias or column"),
        "\"a\\\"b\" potentially used ambiguously as item and alias or column"
    );
    assert_eq!(ambiguous_err("", ""), "\"\" potentially used ambiguously as item and ");
}

#[test]
fn database_specifier_as_text() {
    assert_eq!(RawDatabaseSpecifier::Ambient.to_text(), "<none>");
    assert_eq!(RawDatabaseSpecifier::Name("db".to_string()).to_text(), "db");
}
