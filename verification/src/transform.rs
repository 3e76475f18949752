//! Renames in the `CREATE` statements of catalog items.

use crate::ast::{
    lemma_node_views_push, node_views, FullItemName, Node, NodeView, RawDatabaseSpecifier, Role,
    Shape, Statement, StatementKind,
};
use crate::feedback::ObjectId;
use crate::text::{chars_of, push_char, str_is, texts};
use std::collections::BTreeMap;
use vstd::prelude::*;

verus! {

/// Whether a statement of this kind creates something that the catalog
/// keeps.
pub open spec fn creates_item(kind: StatementKind) -> bool {
    !(kind is Other)
}

/// How many of its names, counted from the first, a node offers to a
/// rename: all but the column of an identifier, all the names before a
/// wildcard, all of an item name, and none of an identifier by itself.
pub open spec fn scope_len(node: NodeView) -> int {
    match node.shape {
        Shape::Identifier => node.names.len() - 1,
        Shape::QualifiedWildcard => node.names.len() as int,
        Shape::ItemName => node.names.len() as int,
        Shape::Ident => 0,
    }
}

/// Whether the nodes are as a walk through a statement gives them: an
/// identifier has a column at least.
pub open spec fn nodes_in_order(nodes: Seq<NodeView>) -> bool {
    forall|i: int|
        0 <= i < nodes.len() && (#[trigger] nodes[i]).shape is Identifier ==> nodes[i].names.len()
            >= 1
}

/// The schema and item of a reference that names the schema without its
/// database, where the first `scope` of the names are such a reference.
pub open spec fn names_conflict(names: Seq<Seq<char>>, scope: int, cur_schema: Seq<char>) -> Option<
    (Seq<char>, Seq<char>),
> {
    if scope == 2 && names[0] == cur_schema {
        Some((names[0], names[1]))
    } else {
        None
    }
}

/// Names after the rename of a schema: where the first `scope` of them
/// are a reference by database, schema and item that names the schema in
/// its database, the reference names the new schema.
pub open spec fn names_schema_renamed(
    names: Seq<Seq<char>>,
    scope: int,
    database: Seq<char>,
    cur_schema: Seq<char>,
    new_schema: Seq<char>,
) -> Seq<Seq<char>> {
    if scope == 3 && names[0] == database && names[1] == cur_schema {
        names.update(1, new_schema)
    } else {
        names
    }
}

/// The schema and item of a reference that names the schema without its
/// database: such a reference cannot be followed through a rename of the
/// schema.
pub open spec fn schema_conflict(node: NodeView, cur_schema: Seq<char>) -> Option<
    (Seq<char>, Seq<char>),
> {
    names_conflict(node.names, scope_len(node), cur_schema)
}

/// A node after the rename of a schema: a reference by database, schema and
/// item that names the schema in its database names the new schema.
pub open spec fn schema_renamed(
    node: NodeView,
    database: Seq<char>,
    cur_schema: Seq<char>,
    new_schema: Seq<char>,
) -> NodeView {
    NodeView {
        names: names_schema_renamed(
            node.names,
            scope_len(node),
            database,
            cur_schema,
            new_schema,
        ),
        ..node
    }
}

/// The first conflict that a walk through the nodes meets.
pub open spec fn first_conflict(nodes: Seq<NodeView>, cur_schema: Seq<char>) -> Option<
    (Seq<char>, Seq<char>),
>
    decreases nodes.len(),
{
    if nodes.len() == 0 {
        None
    } else {
        match first_conflict(nodes.drop_last(), cur_schema) {
            Some(conflict) => Some(conflict),
            None => schema_conflict(nodes.last(), cur_schema),
        }
    }
}

/// The nodes after the rename of a schema.
pub open spec fn schema_renamed_nodes(
    nodes: Seq<NodeView>,
    database: Seq<char>,
    cur_schema: Seq<char>,
    new_schema: Seq<char>,
) -> Seq<NodeView> {
    nodes.map_values(|n: NodeView| schema_renamed(n, database, cur_schema, new_schema))
}

/// Puts `value` in the place of the name at position `at`.
fn set_name(names: &mut Vec<String>, at: usize, value: String)
    requires
        at < old(names).len(),
    ensures
        texts(final(names)@) == texts(old(names)@).update(at as int, value@),
{
    names.remove(at);
    names.insert(at, value);
    assert(texts(names@) =~= texts(old(names)@).update(at as int, value@));
}

/// How many of its names a node offers to a rename.
fn scope_of(node: &Node) -> (len: usize)
    requires
        node@.shape is Identifier ==> node@.names.len() >= 1,
    ensures
        len == scope_len(node@),
{
    assert(node@.names.len() == node.names@.len());
    match node.shape {
        Shape::Identifier => node.names.len() - 1,
        Shape::QualifiedWildcard => node.names.len(),
        Shape::ItemName => node.names.len(),
        Shape::Ident => 0,
    }
}

/// The rename of a schema under way: the names involved, and the first
/// reference met that cannot be followed through the rename.
struct CreateSqlRewriteSchema<'a> {
    database: &'a str,
    cur_schema: &'a str,
    new_schema: &'a str,
    error: Option<(String, String)>,
}

/// A pair of strings as a pair of texts.
pub open spec fn pair_text(pair: Option<(String, String)>) -> Option<(Seq<char>, Seq<char>)> {
    match pair {
        Some((a, b)) => Some((a@, b@)),
        None => None,
    }
}

impl<'a> CreateSqlRewriteSchema<'a> {
    /// Looks at the first `scope` of the names of a node: rewrites the
    /// schema of a reference by database, schema and item, and notes the
    /// first reference by schema and item alone that names the schema.
    fn maybe_rewrite_idents(&mut self, name: &mut Vec<String>, scope: usize)
        requires
            scope <= old(name).len(),
        ensures
            final(self).database == old(self).database,
            final(self).cur_schema == old(self).cur_schema,
            final(self).new_schema == old(self).new_schema,
            texts(final(name)@) == names_schema_renamed(
                texts(old(name)@),
                scope as int,
                old(self).database@,
                old(self).cur_schema@,
                old(self).new_schema@,
            ),
            pair_text(final(self).error) == match pair_text(old(self).error) {
                Some(conflict) => Some(conflict),
                None => names_conflict(texts(old(name)@), scope as int, old(self).cur_schema@),
            },
    {
        if scope == 2 && str_is(name[0].as_str(), self.cur_schema) {
            if self.error.is_none() {
                self.error = Some((name[0].clone(), name[1].clone()));
            }
        } else if scope == 3 && str_is(name[0].as_str(), self.database) && str_is(
            name[1].as_str(),
            self.cur_schema,
        ) {
            set_name(name, 1, self.new_schema.to_owned());
        }
    }
}

/// Rewrites, in the statement that creates an item, all references to the
/// schema `cur_schema` of `database` so that they name `new_schema`.
///
/// A reference by database, schema and item is rewritten where it names the
/// schema in its database. A reference by schema and item alone that names
/// the schema is left as it is and reported: the first such reference ends
/// the rename with its schema and item, though the references that can be
/// rewritten are rewritten all the same.
pub fn create_stmt_rename_schema_refs(
    create_stmt: &mut Statement,
    database: &str,
    cur_schema: &str,
    new_schema: &str,
) -> (renamed: Result<(), (String, String)>)
    requires
        creates_item(old(create_stmt).kind),
        nodes_in_order(node_views(old(create_stmt).nodes@)),
    ensures
        final(create_stmt).kind == old(create_stmt).kind,
        node_views(final(create_stmt).nodes@) == schema_renamed_nodes(
            node_views(old(create_stmt).nodes@),
            database@,
            cur_schema@,
            new_schema@,
        ),
        match renamed {
            Ok(()) => first_conflict(node_views(old(create_stmt).nodes@), cur_schema@) is None,
            Err((schema, item)) => first_conflict(node_views(old(create_stmt).nodes@), cur_schema@)
                == Some((schema@, item@)),
        },
{
    let mut nodes: Vec<Node> = Vec::new();
    core::mem::swap(&mut nodes, &mut create_stmt.nodes);
    let ghost all = nodes@;
    let mut rewritten: Vec<Node> = Vec::new();
    let mut visitor = CreateSqlRewriteSchema { database, cur_schema, new_schema, error: None };
    proof {
        assert(node_views(all.take(0)) =~= Seq::<NodeView>::empty());
        assert(node_views(rewritten@) =~= schema_renamed_nodes(
            node_views(all.take(0)),
            database@,
            cur_schema@,
            new_schema@,
        ));
    }
    for node in it: nodes
        invariant
            it.seq() == all,
            nodes_in_order(node_views(all)),
            node_views(rewritten@) == schema_renamed_nodes(
                node_views(all.take(it.index())),
                database@,
                cur_schema@,
                new_schema@,
            ),
            visitor.database@ == database@,
            visitor.cur_schema@ == cur_schema@,
            visitor.new_schema@ == new_schema@,
            pair_text(visitor.error) == first_conflict(
                node_views(all.take(it.index())),
                cur_schema@,
            ),
    {
        let ghost before = all.take(it.index());
        proof {
            assert(all.take(it.index() + 1) == before.push(node));
            lemma_node_views_push(before, node);
            assert(node_views(before.push(node)).drop_last() == node_views(before));
            assert(node_views(all)[it.index()] == node@);
            assert(schema_renamed_nodes(
                node_views(before.push(node)),
                database@,
                cur_schema@,
                new_schema@,
            ) =~= schema_renamed_nodes(
                node_views(before),
                database@,
                cur_schema@,
                new_schema@,
            ).push(schema_renamed(node@, database@, cur_schema@, new_schema@)));
        }
        let mut node = node;
        let ghost prior = node@;
        let scope = scope_of(&node);
        visitor.maybe_rewrite_idents(&mut node.names, scope);
        proof {
            assert(node@ == schema_renamed(prior, database@, cur_schema@, new_schema@));
            lemma_node_views_push(rewritten@, node);
        }
        rewritten.push(node);
    }
    create_stmt.nodes = rewritten;
    proof {
        assert(all.take(all.len() as int) == all);
    }
    match visitor.error {
        None => Ok(()),
        Some(conflict) => Err(conflict),
    }
}

/// A text with each double quote in it escaped by a backslash.
pub open spec fn escaped(s: Seq<char>) -> Seq<char>
    decreases s.len(),
{
    if s.len() == 0 {
        Seq::empty()
    } else if s.last() == '"' {
        escaped(s.drop_last()) + seq!['\\', '"']
    } else {
        escaped(s.drop_last()).push(s.last())
    }
}

/// A text between double quotes, with the double quotes in it escaped.
pub open spec fn quoted(s: Seq<char>) -> Seq<char> {
    seq!['"'] + escaped(s) + seq!['"']
}

/// The complaint that a name is used both for an item and for `what`.
pub open spec fn ambiguous_message(name: Seq<char>, what: Seq<char>) -> Seq<char> {
    quoted(name) + " potentially used ambiguously as item and "@ + what
}

/// The complaint that a query already refers to the name that an item is
/// to get.
pub open spec fn reference_message(found: Seq<char>, name: Seq<char>) -> Seq<char> {
    "found reference to "@ + quoted(found) + "; cannot rename "@ + quoted(name)
        + " to any identity used in any existing view definitions"@
}

/// The complaint that some reference to a name lacks a qualifier that
/// others show to be needed.
pub open spec fn unqualified_message(name: Seq<char>) -> Seq<char> {
    quoted(name) + " is not sufficiently qualified to support renaming"@
}

/// Writes a text between double quotes at the end of `out`.
fn push_quoted(out: &mut String, s: &str)
    ensures
        final(out)@ == old(out)@ + quoted(s@),
{
    let chars = chars_of(s);
    push_char(out, '"');
    let mut i: usize = 0;
    proof {
        assert(chars@.take(0) =~= Seq::<char>::empty());
        assert(out@ =~= old(out)@ + seq!['"'] + escaped(chars@.take(0)));
    }
    while i < chars.len()
        invariant
            i <= chars.len(),
            out@ == old(out)@ + seq!['"'] + escaped(chars@.take(i as int)),
        decreases chars.len() - i,
    {
        proof {
            assert(chars@.take(i + 1).drop_last() == chars@.take(i as int));
            assert(chars@.take(i + 1).last() == chars[i as int]);
        }
        let c = chars[i];
        if c == '"' {
            push_char(out, '\\');
            push_char(out, '"');
            proof {
                let e = escaped(chars@.take(i as int));
                assert(out@ =~= old(out)@ + seq!['"'] + (e + seq!['\\', '"']));
            }
        } else {
            push_char(out, c);
            proof {
                let e = escaped(chars@.take(i as int));
                assert(out@ =~= old(out)@ + seq!['"'] + e.push(c));
            }
        }
        i += 1;
    }
    proof {
        assert(chars@.take(chars@.len() as int) == chars@);
    }
    push_char(out, '"');
    proof {
        assert(out@ =~= old(out)@ + quoted(s@));
    }
}

/// The complaint that `n` is used both for an item and for `t`.
pub fn ambiguous_err(n: &str, t: &str) -> (message: String)
    ensures
        message@ == ambiguous_message(n@, t@),
{
    let mut message = String::new();
    push_quoted(&mut message, n);
    message.append(" potentially used ambiguously as item and ");
    message.append(t);
    proof {
        assert(message@ =~= ambiguous_message(n@, t@));
    }
    message
}

fn reference_err(found: &str, name: &str) -> (message: String)
    ensures
        message@ == reference_message(found@, name@),
{
    let mut message = String::new();
    message.append("found reference to ");
    push_quoted(&mut message, found);
    message.append("; cannot rename ");
    push_quoted(&mut message, name);
    message.append(" to any identity used in any existing view definitions");
    proof {
        assert(message@ =~= reference_message(found@, name@));
    }
    message
}

fn unqualified_err(name: &str) -> (message: String)
    ensures
        message@ == unqualified_message(name@),
{
    let mut message = String::new();
    push_quoted(&mut message, name);
    message.append(" is not sufficiently qualified to support renaming");
    proof {
        assert(message@ =~= unqualified_message(name@));
    }
    message
}

/// The last position at which `name` stands among `names`.
pub open spec fn last_position(names: Seq<Seq<char>>, name: Seq<char>) -> Option<int>
    decreases names.len(),
{
    if names.len() == 0 {
        None
    } else if names.last() == name {
        Some(names.len() - 1)
    } else {
        last_position(names.drop_last(), name)
    }
}

/// The last position of a name is a position of that name, and none
/// stands behind it.
pub proof fn lemma_last_position(names: Seq<Seq<char>>, name: Seq<char>)
    ensures
        match last_position(names, name) {
            Some(p) => 0 <= p < names.len() && names[p] == name && forall|k: int|
                p < k < names.len() ==> names[k] != name,
            None => forall|k: int| 0 <= k < names.len() ==> names[k] != name,
        },
    decreases names.len(),
{
    if names.len() > 0 && names.last() != name {
        let front = names.drop_last();
        lemma_last_position(front, name);
        match last_position(front, name) {
            Some(p) => {
                assert(front[p] == names[p]);
                assert forall|k: int| p < k < names.len() implies names[k] != name by {
                    if k < names.len() - 1 {
                        assert(front[k] == names[k]);
                    }
                }
            },
            None => {
                assert forall|k: int| 0 <= k < names.len() implies names[k] != name by {
                    if k < names.len() - 1 {
                        assert(front[k] == names[k]);
                    }
                }
            },
        }
    }
}

/// What else than an item a node in a query takes `name` for, if it
/// uses the name in a way that is not plainly a reference to an item.
pub open spec fn node_ambiguity(node: NodeView, name: Seq<char>) -> Option<Seq<char>> {
    let hit = last_position(node.names, name);
    match node.shape {
        Shape::Identifier => if hit == Some(node.names.len() - 1) {
            Some("column"@)
        } else {
            None
        },
        Shape::QualifiedWildcard => None,
        Shape::Ident => if hit is Some {
            Some("alias or column"@)
        } else {
            None
        },
        Shape::ItemName => if hit is Some && !(node.names.len() == 3 && hit == Some(2int)) {
            Some("database, schema, or function"@)
        } else {
            None
        },
    }
}

/// The complaint that a node gives rise to, if any. A node outside the
/// query gives none. In the query, an ambiguous use of `name` is one; where
/// there is none, a use of the name in `fail_on` is.
pub open spec fn node_error(node: NodeView, name: Seq<char>, fail_on: Option<Seq<char>>) -> Option<
    Seq<char>,
> {
    if !(node.role is Query) {
        None
    } else {
        match node_ambiguity(node, name) {
            Some(what) => Some(ambiguous_message(name, what)),
            None => match fail_on {
                Some(f) => if node.names.contains(f) {
                    Some(reference_message(f, name))
                } else {
                    None
                },
                None => None,
            },
        }
    }
}

/// The complaint of the last node that gives rise to one.
pub open spec fn last_error(
    nodes: Seq<NodeView>,
    name: Seq<char>,
    fail_on: Option<Seq<char>>,
) -> Option<
    Seq<char>,
>
    decreases nodes.len(),
{
    if nodes.len() == 0 {
        None
    } else {
        match node_error(nodes.last(), name, fail_on) {
            Some(e) => Some(e),
            None => last_error(nodes.drop_last(), name, fail_on),
        }
    }
}

/// With how many parts a node in a query refers to the item `name`, if it
/// does: a full item name with three, a qualifier of a column or of a
/// wildcard with as many as stand up to the name.
pub open spec fn node_depth(node: NodeView, name: Seq<char>) -> Option<int> {
    if !(node.role is Query) {
        None
    } else {
        match (node.shape, last_position(node.names, name)) {
            (Shape::Identifier, Some(p)) => if p == node.names.len() - 1 {
                None
            } else {
                Some(p + 1)
            },
            (Shape::QualifiedWildcard, Some(p)) => Some(p + 1),
            (Shape::ItemName, Some(p)) => if node.names.len() == 3 && p == 2 {
                Some(3int)
            } else {
                None
            },
            _ => None,
        }
    }
}

/// The least number of parts with which a node refers to the item; the
/// greatest `usize` where none does.
pub open spec fn min_depth(nodes: Seq<NodeView>, name: Seq<char>) -> int
    decreases nodes.len(),
{
    if nodes.len() == 0 {
        usize::MAX as int
    } else {
        let before = min_depth(nodes.drop_last(), name);
        match node_depth(nodes.last(), name) {
            Some(d) => if d < before {
                d
            } else {
                before
            },
            None => before,
        }
    }
}

/// The schema and the database by which a full item name in a query
/// qualifies the item `name`.
pub open spec fn node_qualifier(node: NodeView, name: Seq<char>) -> Option<(Seq<char>, Seq<char>)> {
    if node.role is Query && node.shape is ItemName && node.names.len() == 3 && node.names[2]
        == name {
        Some((node.names[1], node.names[0]))
    } else {
        None
    }
}

/// The qualifiers of the item `name` in a query, in order.
pub open spec fn qualifier_pairs(nodes: Seq<NodeView>, name: Seq<char>) -> Seq<
    (Seq<char>, Seq<char>),
>
    decreases nodes.len(),
{
    if nodes.len() == 0 {
        Seq::empty()
    } else {
        let before = qualifier_pairs(nodes.drop_last(), name);
        match node_qualifier(nodes.last(), name) {
            Some(pair) => before.push(pair),
            None => before,
        }
    }
}

/// Whether one schema occurs with two databases.
pub open spec fn needs_database(pairs: Seq<(Seq<char>, Seq<char>)>) -> bool {
    exists|i: int, j: int|
        0 <= i < pairs.len() && 0 <= j < pairs.len() && (#[trigger] pairs[i]).0 == (
        #[trigger] pairs[j]).0 && pairs[i].1 != pairs[j].1
}

/// Whether two schemas occur.
pub open spec fn needs_schema(pairs: Seq<(Seq<char>, Seq<char>)>) -> bool {
    exists|i: int, j: int|
        0 <= i < pairs.len() && 0 <= j < pairs.len() && (#[trigger] pairs[i]).0 != (
        #[trigger] pairs[j]).0
}

/// With how many parts an item must be named so that the qualifiers seen
/// tell its references apart.
pub open spec fn required_depth(pairs: Seq<(Seq<char>, Seq<char>)>) -> int {
    if needs_database(pairs) {
        3
    } else if needs_schema(pairs) {
        2
    } else {
        1
    }
}

/// With how many parts the item `name` can be referred to in a query
/// without doubt, or why it cannot be renamed.
pub open spec fn qual_depth(
    nodes: Seq<NodeView>,
    name: Seq<char>,
    fail_on: Option<Seq<char>>,
) -> Result<
    int,
    Seq<char>,
> {
    match last_error(nodes, name, fail_on) {
        Some(e) => Err(e),
        None => if min_depth(nodes, name) < required_depth(qualifier_pairs(nodes, name)) {
            Err(unqualified_message(name))
        } else {
            Ok(required_depth(qualifier_pairs(nodes, name)))
        },
    }
}

/// The contents of a list of pairs of strings.
pub open spec fn pair_views(pairs: Seq<(String, String)>) -> Seq<(Seq<char>, Seq<char>)> {
    pairs.map_values(|p: (String, String)| (p.0@, p.1@))
}

/// Finds the last position at which `name` stands among `names`.
fn last_position_of(names: &Vec<String>, name: &str) -> (found: Option<usize>)
    ensures
        match found {
            Some(p) => p < names.len() && last_position(texts(names@), name@) == Some(p as int),
            None => last_position(texts(names@), name@) is None,
        },
{
    let ghost all = texts(names@);
    let mut i: usize = names.len();
    proof {
        assert(all.take(i as int) == all);
    }
    while i > 0
        invariant
            i <= names.len(),
            all == texts(names@),
            last_position(all, name@) == last_position(all.take(i as int), name@),
        decreases i,
    {
        proof {
            assert(all.take(i as int).drop_last() == all.take(i - 1));
            assert(all.take(i as int).last() == names[i - 1]@);
        }
        if str_is(names[i - 1].as_str(), name) {
            return Some(i - 1);
        }
        i -= 1;
    }
    None
}

/// Whether `name` stands among `names`.
fn contains_name(names: &Vec<String>, name: &str) -> (found: bool)
    ensures
        found == texts(names@).contains(name@),
{
    proof {
        lemma_last_position(texts(names@), name@);
    }
    match last_position_of(names, name) {
        Some(p) => {
            assert(texts(names@)[p as int] == name@);
            true
        },
        None => false,
    }
}

/// With how many parts an item must be named, given its qualifiers.
fn required_depth_of(pairs: &Vec<(String, String)>) -> (depth: usize)
    ensures
        depth == required_depth(pair_views(pairs@)),
{
    let ghost views = pair_views(pairs@);
    let mut i: usize = 0;
    while i < pairs.len()
        invariant
            i <= pairs.len(),
            views == pair_views(pairs@),
            forall|a: int, b: int|
                0 <= a < i && 0 <= b < views.len() ==> !((#[trigger] views[a]).0 == (
                #[trigger] views[b]).0 && views[a].1 != views[b].1),
        decreases pairs.len() - i,
    {
        let mut j: usize = 0;
        while j < pairs.len()
            invariant
                i < pairs.len(),
                j <= pairs.len(),
                views == pair_views(pairs@),
                forall|b: int|
                    0 <= b < j ==> !(views[i as int].0 == (#[trigger] views[b]).0
                        && views[i as int].1 != views[b].1),
            decreases pairs.len() - j,
        {
            if pairs[i].0 == pairs[j].0 && pairs[i].1 != pairs[j].1 {
                assert(views[i as int].0 == views[j as int].0 && views[i as int].1
                    != views[j as int].1);
                return 3;
            }
            j += 1;
        }
        i += 1;
    }
    assert(!needs_database(views));
    let mut k: usize = 1;
    while k < pairs.len()
        invariant
            1 <= k,
            views == pair_views(pairs@),
            !needs_database(views),
            forall|b: int| 0 <= b < k && b < views.len() ==> (#[trigger] views[b]).0 == views[0].0,
        decreases pairs.len() - k,
    {
        if pairs[k].0 != pairs[0].0 {
            assert(views[k as int].0 != views[0].0);
            assert(needs_schema(views));
            return 2;
        }
        k += 1;
    }
    assert(!needs_schema(views));
    1
}

/// What a walk through a query has gathered about the uses of one name.
pub struct QueryIdentAgg<'a> {
    /// The name whose usage is assessed.
    name: &'a str,
    /// The schema and the database of each full item name that ends in
    /// `name`.
    qualifiers: Vec<(String, String)>,
    /// The least qualified reference to `name` seen.
    min_qual_depth: usize,
    /// A name whose use anywhere in the query is a complaint.
    fail_on: Option<String>,
    err: Option<String>,
}

/// An optional string as an optional text.
pub open spec fn option_text(s: Option<String>) -> Option<Seq<char>> {
    match s {
        Some(s) => Some(s@),
        None => None,
    }
}

impl<'a> QueryIdentAgg<'a> {
    /// Whether the walk has gathered exactly what the given nodes show.
    pub closed spec fn gathered(&self, nodes: Seq<NodeView>) -> bool {
        &&& option_text(self.err) == last_error(nodes, self.name@, option_text(self.fail_on))
        &&& pair_views(self.qualifiers@) == qualifier_pairs(nodes, self.name@)
        &&& self.min_qual_depth == min_depth(nodes, self.name@)
    }

    /// The name whose usage is assessed.
    pub closed spec fn name(&self) -> Seq<char> {
        self.name@
    }

    /// The name whose use is a complaint.
    pub closed spec fn fail_on(&self) -> Option<Seq<char>> {
        option_text(self.fail_on)
    }

    /// Determines the depth of qualification needed to refer to the item
    /// `name` in a query without doubt: 1 for the item alone, 2 with its
    /// schema, 3 with its database too.
    ///
    /// There is no such depth where the query uses the name for something
    /// else than an item, where it uses the name in `fail_on` at all, or
    /// where some reference to the item is less qualified than the
    /// qualifiers seen require; the message says which. Only the nodes in
    /// the query of the statement count.
    pub fn determine_qual_depth(name: &str, fail_on: Option<String>, nodes: &Vec<Node>) -> (depth:
        Result<usize, String>)
        requires
            nodes_in_order(node_views(nodes@)),
        ensures
            match depth {
                Ok(d) => qual_depth(node_views(nodes@), name@, option_text(fail_on)) == Ok::<
                    int,
                    Seq<char>,
                >(d as int) && 1 <= d <= 3,
                Err(e) => qual_depth(node_views(nodes@), name@, option_text(fail_on)) == Err::<
                    int,
                    Seq<char>,
                >(e@),
            },
    {
        let mut v = QueryIdentAgg {
            qualifiers: Vec::new(),
            min_qual_depth: usize::MAX,
            err: None,
            name,
            fail_on,
        };
        let ghost all = node_views(nodes@);
        let mut i: usize = 0;
        proof {
            assert(all.take(0) =~= Seq::<NodeView>::empty());
            assert(pair_views(v.qualifiers@) =~= qualifier_pairs(all.take(0), name@));
        }
        while i < nodes.len()
            invariant
                i <= nodes.len(),
                all == node_views(nodes@),
                nodes_in_order(all),
                v.name() == name@,
                v.fail_on() == option_text(fail_on),
                v.gathered(all.take(i as int)),
            decreases nodes.len() - i,
        {
            proof {
                assert(all.take(i + 1).drop_last() == all.take(i as int));
                assert(all.take(i + 1).last() == nodes[i as int]@);
                assert(all[i as int] == nodes[i as int]@);
            }
            v.visit(&nodes[i], Ghost(all.take(i as int)));
            proof {
                assert(all.take(i as int).push(nodes[i as int]@) == all.take(i + 1));
            }
            i += 1;
        }
        proof {
            assert(all.take(all.len() as int) == all);
        }
        if let Some(e) = v.err {
            return Err(e);
        }
        let req_depth = required_depth_of(&v.qualifiers);
        if v.min_qual_depth < req_depth {
            Err(unqualified_err(name))
        } else {
            Ok(req_depth)
        }
    }

    /// Complains where `v` holds the name that must not be used.
    fn check_failure(&mut self, v: &Vec<String>)
        ensures
            final(self).name == old(self).name,
            final(self).qualifiers == old(self).qualifiers,
            final(self).min_qual_depth == old(self).min_qual_depth,
            final(self).fail_on == old(self).fail_on,
            option_text(final(self).err) == match option_text(old(self).fail_on) {
                Some(f) => if texts(v@).contains(f) {
                    Some(reference_message(f, old(self).name@))
                } else {
                    option_text(old(self).err)
                },
                None => option_text(old(self).err),
            },
    {
        let found = match &self.fail_on {
            Some(f) => if contains_name(v, f.as_str()) {
                Some(reference_err(f.as_str(), self.name))
            } else {
                None
            },
            None => None,
        };
        if found.is_some() {
            self.err = found;
        }
    }

    /// Takes in one node of the walk.
    fn visit(&mut self, node: &Node, Ghost(before): Ghost<Seq<NodeView>>)
        requires
            old(self).gathered(before),
            node@.shape is Identifier ==> node@.names.len() >= 1,
        ensures
            final(self).name() == old(self).name(),
            final(self).fail_on() == old(self).fail_on(),
            final(self).gathered(before.push(node@)),
    {
        proof {
            assert(before.push(node@).drop_last() == before);
            assert(node@.names.len() == node.names@.len());
            lemma_last_position(node@.names, self.name@);
        }
        match node.role {
            Role::Query => {},
            _ => {
                return ;
            },
        }
        self.check_failure(&node.names);
        let hit = last_position_of(&node.names, self.name);
        match node.shape {
            Shape::Identifier => {
                if let Some(p) = hit {
                    if p == node.names.len() - 1 {
                        self.err = Some(ambiguous_err(self.name, "column"));
                        return ;
                    }
                    if p + 1 < self.min_qual_depth {
                        self.min_qual_depth = p + 1;
                    }
                }
            },
            Shape::QualifiedWildcard => {
                if let Some(p) = hit {
                    if p + 1 < self.min_qual_depth {
                        self.min_qual_depth = p + 1;
                    }
                }
            },
            Shape::Ident => {
                if hit.is_some() {
                    self.err = Some(ambiguous_err(self.name, "alias or column"));
                }
            },
            Shape::ItemName => {
                if let Some(p) = hit {
                    if p == node.names.len() - 1 && node.names.len() == 3 {
                        let pair = (node.names[1].clone(), node.names[0].clone());
                        proof {
                            assert(pair_views(self.qualifiers@.push(pair)) =~= pair_views(
                                self.qualifiers@,
                            ).push((pair.0@, pair.1@)));
                        }
                        self.qualifiers.push(pair);
                        if 3 < self.min_qual_depth {
                            self.min_qual_depth = 3;
                        }
                    } else {
                        self.err = Some(
                            ambiguous_err(self.name, "database, schema, or function"),
                        );
                    }
                }
            },
        }
    }
}

/// Whether `names` ends with the names in `suffix`.
pub open spec fn ends_with(names: Seq<Seq<char>>, suffix: Seq<Seq<char>>) -> bool {
    &&& suffix.len() <= names.len()
    &&& forall|k: int|
        0 <= k < suffix.len() ==> names[names.len() - suffix.len() + k] == #[trigger] suffix[k]
}

/// A node of a query after the rename of an item: where the names that the
/// node offers end with `from`, the last of them becomes `to`.
pub open spec fn item_renamed(node: NodeView, from: Seq<Seq<char>>, to: Seq<char>) -> NodeView {
    let scope = scope_len(node);
    if node.role is Query && scope > 0 && ends_with(node.names.take(scope), from) {
        NodeView { names: node.names.update(scope - 1, to), ..node }
    } else {
        node
    }
}

/// The nodes after the rename of an item in the query.
pub open spec fn item_renamed_nodes(
    nodes: Seq<NodeView>,
    from: Seq<Seq<char>>,
    to: Seq<char>,
) -> Seq<
    NodeView,
> {
    nodes.map_values(|n: NodeView| item_renamed(n, from, to))
}

/// The last `depth` of the three parts of a full name.
pub open spec fn qualified_to(from: FullItemName, depth: int) -> Seq<Seq<char>> {
    from.qualified().skip(3 - depth)
}

/// The rename of an item in the query of a view: the nodes after it, and
/// whether it can stand.
///
/// The query must not use the new name at all, and must refer to the old
/// one without doubt; else nothing is renamed. Then each reference that is
/// as qualified as the query requires is renamed. The rename stands if the
/// query then refers to the new name without doubt.
pub open spec fn query_rewritten(nodes: Seq<NodeView>, from: FullItemName, to: Seq<char>) -> (
    Seq<NodeView>,
    Result<(), Seq<char>>,
) {
    match qual_depth(nodes, from.item@, Some(to)) {
        Err(e) => (nodes, Err(e)),
        Ok(depth) => {
            let renamed = item_renamed_nodes(nodes, qualified_to(from, depth), to);
            match qual_depth(renamed, to, None) {
                Ok(_) => (renamed, Ok(())),
                Err(e) => (renamed, Err(e)),
            }
        },
    }
}

/// Renaming keeps the nodes as a walk gives them.
pub proof fn lemma_item_renamed_in_order(nodes: Seq<NodeView>, from: Seq<Seq<char>>, to: Seq<char>)
    requires
        nodes_in_order(nodes),
    ensures
        nodes_in_order(item_renamed_nodes(nodes, from, to)),
{
    let renamed = item_renamed_nodes(nodes, from, to);
    assert forall|i: int|
        0 <= i < renamed.len() && (#[trigger] renamed[i]).shape is Identifier implies renamed[
        i].names.len() >= 1 by {
        assert(nodes[i].shape is Identifier);
    }
}

impl RawDatabaseSpecifier {
    /// The database as text.
    pub fn to_text(&self) -> (text: String)
        ensures
            text@ == self.text(),
    {
        match self {
            RawDatabaseSpecifier::Ambient => "<none>".to_owned(),
            RawDatabaseSpecifier::Name(name) => name.clone(),
        }
    }
}

/// The rename of the references to one item in a query.
pub struct CreateSqlRewriter {
    from: Vec<String>,
    to: String,
}

impl CreateSqlRewriter {
    /// Renames, in the query of a statement, each reference to `from_name`
    /// that shows the last `qual_depth` parts of the name, so that it ends
    /// in `to_name`.
    pub fn rewrite_query_with_qual_depth(
        from_name: &FullItemName,
        to_name: String,
        qual_depth: usize,
        nodes: &mut Vec<Node>,
    )
        requires
            1 <= qual_depth <= 3,
            nodes_in_order(node_views(old(nodes)@)),
        ensures
            node_views(final(nodes)@) == item_renamed_nodes(
                node_views(old(nodes)@),
                qualified_to(*from_name, qual_depth as int),
                to_name@,
            ),
    {
        let mut from: Vec<String> = Vec::new();
        if qual_depth >= 3 {
            from.push(from_name.database.to_text());
        }
        if qual_depth >= 2 {
            from.push(from_name.schema.clone());
        }
        from.push(from_name.item.clone());
        proof {
            assert(texts(from@) =~= qualified_to(*from_name, qual_depth as int));
        }
        let v = CreateSqlRewriter { from, to: to_name };
        let mut walked: Vec<Node> = Vec::new();
        core::mem::swap(&mut walked, nodes);
        let ghost all = walked@;
        proof {
            assert(node_views(all.take(0)) =~= Seq::<NodeView>::empty());
            assert(node_views(nodes@) =~= item_renamed_nodes(
                node_views(all.take(0)),
                texts(v.from@),
                v.to@,
            ));
        }
        for node in it: walked
            invariant
                it.seq() == all,
                nodes_in_order(node_views(all)),
                v.from@.len() >= 1,
                node_views(nodes@) == item_renamed_nodes(
                    node_views(all.take(it.index())),
                    texts(v.from@),
                    v.to@,
                ),
        {
            let ghost before = all.take(it.index());
            proof {
                assert(all.take(it.index() + 1) == before.push(node));
                lemma_node_views_push(before, node);
                assert(node_views(all)[it.index()] == node@);
                assert(item_renamed_nodes(node_views(before.push(node)), texts(v.from@), v.to@)
                    =~= item_renamed_nodes(node_views(before), texts(v.from@), v.to@).push(
                    item_renamed(node@, texts(v.from@), v.to@),
                ));
            }
            let mut node = node;
            let ghost prior = node@;
            let scope = scope_of(&node);
            match node.role {
                Role::Query => {
                    v.maybe_rewrite_idents(&mut node.names, scope);
                },
                _ => {},
            }
            proof {
                assert(node@ == item_renamed(prior, texts(v.from@), v.to@));
                lemma_node_views_push(nodes@, node);
            }
            nodes.push(node);
        }
        proof {
            assert(all.take(all.len() as int) == all);
        }
    }

    /// Renames the last of the first `scope` names where they end with the
    /// names of the item.
    fn maybe_rewrite_idents(&self, name: &mut Vec<String>, scope: usize)
        requires
            scope <= old(name).len(),
        ensures
            texts(final(name)@) == if scope > 0 && ends_with(
                texts(old(name)@).take(scope as int),
                texts(self.from@),
            ) {
                texts(old(name)@).update(scope - 1, self.to@)
            } else {
                texts(old(name)@)
            },
    {
        if scope > 0 && self.scope_ends_with(name, scope) {
            set_name(name, scope - 1, self.to.clone());
        }
    }

    /// Whether the first `scope` names end with the names of the item.
    fn scope_ends_with(&self, name: &Vec<String>, scope: usize) -> (ends: bool)
        requires
            scope <= name.len(),
        ensures
            ends == ends_with(texts(name@).take(scope as int), texts(self.from@)),
    {
        let n = self.from.len();
        if n > scope {
            return false;
        }
        let ghost names = texts(name@).take(scope as int);
        let ghost suffix = texts(self.from@);
        let mut k: usize = 0;
        while k < n
            invariant
                k <= n <= scope <= name.len(),
                n == self.from.len(),
                names == texts(name@).take(scope as int),
                suffix == texts(self.from@),
                forall|j: int| 0 <= j < k ==> names[names.len() - suffix.len() + j] == suffix[j],
            decreases n - k,
        {
            if name[scope - n + k] != self.from[k] {
                assert(names[names.len() - suffix.len() + k] != suffix[k as int]);
                return false;
            }
            k += 1;
        }
        true
    }
}

/// Rewrites the references to `from` in the query of a statement so that
/// they name `to`, or says why that is too ambiguous.
pub fn rewrite_query(from: &FullItemName, to: String, nodes: &mut Vec<Node>) -> (rewritten: Result<
    (),
    String,
>)
    requires
        nodes_in_order(node_views(old(nodes)@)),
    ensures
        node_views(final(nodes)@) == query_rewritten(node_views(old(nodes)@), *from, to@).0,
        match rewritten {
            Ok(()) => query_rewritten(node_views(old(nodes)@), *from, to@).1 is Ok,
            Err(e) => query_rewritten(node_views(old(nodes)@), *from, to@).1 == Err::<
                (),
                Seq<char>,
            >(e@),
        },
{
    let qual_depth = match QueryIdentAgg::determine_qual_depth(
        from.item.as_str(),
        Some(to.clone()),
        nodes,
    ) {
        Ok(depth) => depth,
        Err(e) => {
            return Err(e);
        },
    };
    proof {
        lemma_item_renamed_in_order(
            node_views(nodes@),
            qualified_to(*from, qual_depth as int),
            to@,
        );
    }
    CreateSqlRewriter::rewrite_query_with_qual_depth(from, to.clone(), qual_depth, nodes);
    match QueryIdentAgg::determine_qual_depth(to.as_str(), None, nodes) {
        Ok(_) => Ok(()),
        Err(e) => Err(e),
    }
}

/// Whether the references of a statement of this kind can be updated:
/// whether it creates an item that may depend on another.
pub open spec fn refers_to_items(kind: StatementKind) -> bool {
    !(kind is Other || kind is CreateDatabase || kind is CreateSchema || kind is CreateType)
}

/// Whether a statement of this kind has its references in a query.
pub open spec fn has_query(kind: StatementKind) -> bool {
    kind is CreateView || kind is CreateMaterializedView
}

/// Whether a statement of this kind has one relation that it is about.
pub open spec fn has_target(kind: StatementKind) -> bool {
    kind is CreateIndex || kind is CreateSink
}

/// A node with its last name changed to `to`.
pub open spec fn with_last_name(node: NodeView, to: Seq<char>) -> NodeView {
    NodeView { names: node.names.update(node.names.len() - 1, to), ..node }
}

/// The relation that a statement is about, after the rename of an item:
/// where it is named exactly as the item is, it ends in the new name.
pub open spec fn target_renamed(node: NodeView, from: Seq<Seq<char>>, to: Seq<char>) -> NodeView {
    if node.role is Target && node.names == from && from.len() > 0 {
        with_last_name(node, to)
    } else {
        node
    }
}

/// The nodes of a statement after the rename of the relation that it is
/// about.
pub open spec fn target_renamed_nodes(
    nodes: Seq<NodeView>,
    from: Seq<Seq<char>>,
    to: Seq<char>,
) -> Seq<
    NodeView,
> {
    nodes.map_values(|n: NodeView| target_renamed(n, from, to))
}

/// The statement after all its references to the item `from` were made to
/// name `to`, and whether the rename can stand.
///
/// An index and a sink refer to an item as the relation that they are
/// about. A view refers to items in its query, where a rename can be too
/// ambiguous to stand. The statements of the other kinds refer to no item
/// by name.
pub open spec fn refs_renamed(
    kind: StatementKind,
    nodes: Seq<NodeView>,
    from: FullItemName,
    to: Seq<char>,
) -> (Seq<NodeView>, Result<(), Seq<char>>) {
    if has_target(kind) {
        (target_renamed_nodes(nodes, from.parts(), to), Ok(()))
    } else if has_query(kind) {
        query_rewritten(nodes, from, to)
    } else {
        (nodes, Ok(()))
    }
}

/// Whether the names of a node read as the full name does.
fn names_are(names: &Vec<String>, full: &FullItemName) -> (same: bool)
    ensures
        same == (texts(names@) == full.parts()),
{
    match &full.database {
        RawDatabaseSpecifier::Ambient => {
            let same = names.len() == 2 && names[0] == full.schema && names[1] == full.item;
            proof {
                if same {
                    assert(texts(names@) =~= full.parts());
                } else if names.len() == 2 {
                    assert(texts(names@)[0] == names[0]@);
                    assert(texts(names@)[1] == names[1]@);
                }
            }
            same
        },
        RawDatabaseSpecifier::Name(database) => {
            let same = names.len() == 3 && names[0] == *database && names[1] == full.schema
                && names[2] == full.item;
            proof {
                if same {
                    assert(texts(names@) =~= full.parts());
                } else if names.len() == 3 {
                    assert(texts(names@)[0] == names[0]@);
                    assert(texts(names@)[1] == names[1]@);
                    assert(texts(names@)[2] == names[2]@);
                }
            }
            same
        },
    }
}

/// Updates all references of `from_name` in `create_stmt` to `to_item_name`
/// or says why the request is ambiguous.
///
/// A request is ambiguous if the statement creates a view and its query
/// uses `to_item_name` as an identifier anywhere, uses the item of
/// `from_name` also for something that is no item, or refers to it with
/// fewer qualifiers than it needs to tell items of that name apart.
pub fn create_stmt_rename_refs(
    create_stmt: &mut Statement,
    from_name: FullItemName,
    to_item_name: String,
) -> (renamed: Result<(), String>)
    requires
        refers_to_items(old(create_stmt).kind),
        nodes_in_order(node_views(old(create_stmt).nodes@)),
    ensures
        final(create_stmt).kind == old(create_stmt).kind,
        node_views(final(create_stmt).nodes@) == refs_renamed(
            old(create_stmt).kind,
            node_views(old(create_stmt).nodes@),
            from_name,
            to_item_name@,
        ).0,
        match renamed {
            Ok(()) => refs_renamed(
                old(create_stmt).kind,
                node_views(old(create_stmt).nodes@),
                from_name,
                to_item_name@,
            ).1 is Ok,
            Err(e) => refs_renamed(
                old(create_stmt).kind,
                node_views(old(create_stmt).nodes@),
                from_name,
                to_item_name@,
            ).1 == Err::<(), Seq<char>>(e@),
        },
{
    match create_stmt.kind {
        StatementKind::CreateIndex | StatementKind::CreateSink => {
            let mut nodes: Vec<Node> = Vec::new();
            core::mem::swap(&mut nodes, &mut create_stmt.nodes);
            let ghost all = nodes@;
            let ghost from = from_name.parts();
            let mut updated: Vec<Node> = Vec::new();
            proof {
                assert(node_views(all.take(0)) =~= Seq::<NodeView>::empty());
                assert(node_views(updated@) =~= target_renamed_nodes(
                    node_views(all.take(0)),
                    from,
                    to_item_name@,
                ));
            }
            for node in it: nodes
                invariant
                    it.seq() == all,
                    from == from_name.parts(),
                    node_views(updated@) == target_renamed_nodes(
                        node_views(all.take(it.index())),
                        from,
                        to_item_name@,
                    ),
            {
                let ghost before = all.take(it.index());
                proof {
                    assert(all.take(it.index() + 1) == before.push(node));
                    lemma_node_views_push(before, node);
                    assert(target_renamed_nodes(node_views(before.push(node)), from, to_item_name@)
                        =~= target_renamed_nodes(node_views(before), from, to_item_name@).push(
                        target_renamed(node@, from, to_item_name@),
                    ));
                }
                let mut node = node;
                let ghost prior = node@;
                match node.role {
                    Role::Target => {
                        if names_are(&node.names, &from_name) {
                            let last = node.names.len() - 1;
                            set_name(&mut node.names, last, to_item_name.clone());
                        }
                    },
                    _ => {},
                }
                proof {
                    assert(node@ == target_renamed(prior, from, to_item_name@));
                    lemma_node_views_push(updated@, node);
                }
                updated.push(node);
            }
            create_stmt.nodes = updated;
            proof {
                assert(all.take(all.len() as int) == all);
            }
            Ok(())
        },
        StatementKind::CreateView | StatementKind::CreateMaterializedView => {
            let mut nodes: Vec<Node> = Vec::new();
            core::mem::swap(&mut nodes, &mut create_stmt.nodes);
            let rewritten = rewrite_query(&from_name, to_item_name, &mut nodes);
            create_stmt.nodes = nodes;
            rewritten
        },
        _ => Ok(()),
    }
}

/// Whether a statement can be given a new name: an index always; of the
/// others those that create an item with a name of its own, where the
/// statement shows that name.
pub open spec fn can_rename(kind: StatementKind, nodes: Seq<NodeView>) -> bool {
    ||| kind is CreateIndex
    ||| {
        &&& refers_to_items(kind)
        &&& exists|i: int| 0 <= i < nodes.len() && (#[trigger] nodes[i]).role is Name
        &&& forall|i: int|
            0 <= i < nodes.len() && (#[trigger] nodes[i]).role is Name ==> nodes[i].names.len() > 0
    }
}

/// Whether some node is the name of the statement's item.
pub open spec fn has_name(nodes: Seq<NodeView>) -> bool {
    exists|i: int| 0 <= i < nodes.len() && (#[trigger] nodes[i]).role is Name
}

/// The name of an index as a node: one identifier by itself.
pub open spec fn index_name(to: Seq<char>) -> NodeView {
    NodeView { role: Role::Name, shape: Shape::Ident, id: None, names: seq![to] }
}

/// A node after the statement's item got the name `to`. The name of an
/// index is one identifier, which is replaced. Any other name is dotted,
/// and its last part is.
pub open spec fn name_set(kind: StatementKind, node: NodeView, to: Seq<char>) -> NodeView {
    if !(node.role is Name) {
        node
    } else if kind is CreateIndex {
        NodeView { names: seq![to], ..node }
    } else {
        with_last_name(node, to)
    }
}

/// The nodes after the statement's item got the name `to`. An index that
/// had no name gets one, in front of all else.
pub open spec fn renamed_nodes(kind: StatementKind, nodes: Seq<NodeView>, to: Seq<char>) -> Seq<
    NodeView,
> {
    if kind is CreateIndex && !has_name(nodes) {
        seq![index_name(to)] + nodes
    } else {
        nodes.map_values(|n: NodeView| name_set(kind, n, to))
    }
}

/// Changes the name of the item that `create_stmt` creates. To complete a
/// rename, the references in the statements of all dependent items must
/// be updated as well.
pub fn create_stmt_rename(create_stmt: &mut Statement, to_item_name: String)
    requires
        can_rename(old(create_stmt).kind, node_views(old(create_stmt).nodes@)),
    ensures
        final(create_stmt).kind == old(create_stmt).kind,
        node_views(final(create_stmt).nodes@) == renamed_nodes(
            old(create_stmt).kind,
            node_views(old(create_stmt).nodes@),
            to_item_name@,
        ),
{
    let kind = create_stmt.kind;
    let is_index = match kind {
        StatementKind::CreateIndex => true,
        _ => false,
    };
    let mut nodes: Vec<Node> = Vec::new();
    core::mem::swap(&mut nodes, &mut create_stmt.nodes);
    let ghost all = nodes@;
    let mut updated: Vec<Node> = Vec::new();
    let mut named = false;
    proof {
        assert(node_views(all.take(0)) =~= Seq::<NodeView>::empty());
        assert(node_views(updated@) =~= node_views(all.take(0)).map_values(
            |n: NodeView| name_set(kind, n, to_item_name@),
        ));
    }
    for node in it: nodes
        invariant
            it.seq() == all,
            is_index == (kind is CreateIndex),
            !is_index ==> forall|i: int|
                0 <= i < all.len() && (#[trigger] node_views(all)[i]).role is Name ==> node_views(
                    all,
                )[i].names.len() > 0,
            named == has_name(node_views(all.take(it.index()))),
            node_views(updated@) == node_views(all.take(it.index())).map_values(
                |n: NodeView| name_set(kind, n, to_item_name@),
            ),
    {
        let ghost before = all.take(it.index());
        proof {
            assert(all.take(it.index() + 1) == before.push(node));
            lemma_node_views_push(before, node);
            assert(node_views(all)[it.index()] == node@);
            assert(node_views(before.push(node)).map_values(
                |n: NodeView| name_set(kind, n, to_item_name@),
            ) =~= node_views(before).map_values(
                |n: NodeView| name_set(kind, n, to_item_name@),
            ).push(name_set(kind, node@, to_item_name@)));
            if has_name(node_views(before.push(node))) && !(node@.role is Name) {
                let i = choose|i: int|
                    0 <= i < before.len() + 1 && (#[trigger] node_views(
                        before.push(node),
                    )[i]).role is Name;
                assert(node_views(before)[i].role is Name);
            }
            if has_name(node_views(before)) {
                let i = choose|i: int|
                    0 <= i < before.len() && (#[trigger] node_views(before)[i]).role is Name;
                assert(node_views(before.push(node))[i].role is Name);
            }
        }
        let mut node = node;
        let ghost prior = node@;
        match node.role {
            Role::Name => {
                proof {
                    assert(node_views(before.push(node))[before.len() as int].role is Name);
                }
                named = true;
                if is_index {
                    let mut names: Vec<String> = Vec::new();
                    names.push(to_item_name.clone());
                    node.names = names;
                    proof {
                        assert(node@.names =~= seq![to_item_name@]);
                    }
                } else {
                    let last = node.names.len() - 1;
                    set_name(&mut node.names, last, to_item_name.clone());
                }
            },
            _ => {},
        }
        proof {
            assert(node@ == name_set(kind, prior, to_item_name@));
            lemma_node_views_push(updated@, node);
        }
        updated.push(node);
    }
    proof {
        assert(all.take(all.len() as int) == all);
    }
    if is_index && !named {
        let mut names: Vec<String> = Vec::new();
        names.push(to_item_name);
        let node = Node { role: Role::Name, shape: Shape::Ident, id: None, names };
        proof {
            assert(node@.names =~= seq![to_item_name@]);
            assert(node_views(updated@) =~= node_views(all)) by {
                assert forall|i: int| 0 <= i < all.len() implies node_views(updated@)[i]
                    == node_views(all)[i] by {
                    assert(!(node_views(all)[i].role is Name));
                }
            }
        }
        let ghost unnamed = updated@;
        updated.insert(0, node);
        proof {
            assert(updated@ == unnamed.insert(0, node));
            assert(node_views(updated@) =~= seq![index_name(to_item_name@)] + node_views(unnamed));
        }
    }
    create_stmt.nodes = updated;
}

/// A node after ids were replaced: an item name that carries one of the
/// keys of `ids` carries the value that belongs to it.
pub open spec fn id_replaced(node: NodeView, ids: Map<ObjectId, ObjectId>) -> NodeView {
    match node.id {
        Some(id) => if node.shape is ItemName && ids.contains_key(id) {
            NodeView { id: Some(ids[id]), ..node }
        } else {
            node
        },
        None => node,
    }
}

/// Looks up the id that replaces `id`.
fn replacement_of(ids: &BTreeMap<ObjectId, ObjectId>, id: ObjectId) -> (found: Option<ObjectId>)
    ensures
        found == if ids@.contains_key(id) {
            Some(ids@[id])
        } else {
            None
        },
{
    broadcast use vstd::std_specs::btree::group_btree_axioms;
    broadcast use vstd::laws_cmp::group_laws_cmp;

    match ids.get(&id) {
        Some(new_id) => Some(*new_id),
        None => None,
    }
}

/// Updates all ids from the keys of `ids` to the values of `ids` within
/// `create_stmt`.
pub fn create_stmt_replace_ids(create_stmt: &mut Statement, ids: &BTreeMap<ObjectId, ObjectId>)
    ensures
        final(create_stmt).kind == old(create_stmt).kind,
        node_views(final(create_stmt).nodes@) == node_views(old(create_stmt).nodes@).map_values(
            |n: NodeView| id_replaced(n, ids@),
        ),
{
    let mut nodes: Vec<Node> = Vec::new();
    core::mem::swap(&mut nodes, &mut create_stmt.nodes);
    let ghost all = nodes@;
    let mut updated: Vec<Node> = Vec::new();
    proof {
        assert(node_views(all.take(0)) =~= Seq::<NodeView>::empty());
        assert(node_views(updated@) =~= node_views(all.take(0)).map_values(
            |n: NodeView| id_replaced(n, ids@),
        ));
    }
    for node in it: nodes
        invariant
            it.seq() == all,
            node_views(updated@) == node_views(all.take(it.index())).map_values(
                |n: NodeView| id_replaced(n, ids@),
            ),
    {
        let ghost before = all.take(it.index());
        proof {
            assert(all.take(it.index() + 1) == before.push(node));
            lemma_node_views_push(before, node);
            assert(node_views(before.push(node)).map_values(|n: NodeView| id_replaced(n, ids@))
                =~= node_views(before).map_values(|n: NodeView| id_replaced(n, ids@)).push(
                id_replaced(node@, ids@),
            ));
        }
        let mut node = node;
        let ghost prior = node@;
        match node.shape {
            Shape::ItemName => {
                if let Some(old_id) = node.id {
                    if let Some(new_id) = replacement_of(ids, old_id) {
                        node.id = Some(new_id);
                    }
                }
            },
            _ => {},
        }
        proof {
            assert(node@ == id_replaced(prior, ids@));
            lemma_node_views_push(updated@, node);
        }
        updated.push(node);
    }
    create_stmt.nodes = updated;
    proof {
        assert(all.take(all.len() as int) == all);
    }
}

} // verus!
