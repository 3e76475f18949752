//! A `CREATE` statement as the renames see it: its kind, and every place
//! where it uses a name.

use crate::feedback::ObjectId;
use crate::text::texts;
use vstd::prelude::*;

verus! {

/// The kind of a statement.
#[derive(Clone, Copy, Debug, PartialEq, Eq)]
pub enum StatementKind {
    CreateConnection,
    CreateDatabase,
    CreateSchema,
    CreateWebhookSource,
    CreateSource,
    CreateSubsource,
    CreateSink,
    CreateView,
    CreateMaterializedView,
    CreateTable,
    CreateTableFromSource,
    CreateIndex,
    CreateType,
    CreateSecret,
    /// Any statement that creates no catalog item.
    Other,
}

/// The part of a statement in which a name stands.
#[derive(Clone, Copy, Debug, PartialEq, Eq)]
pub enum Role {
    /// The name of the item that the statement creates.
    Name,
    /// The relation that an index is on or that a sink reads from.
    Target,
    /// The query of a view.
    Query,
    /// Anywhere else.
    Other,
}

/// How a place in a statement uses its names.
#[derive(Clone, Copy, Debug, PartialEq, Eq)]
pub enum Shape {
    /// An identifier in an expression: a column, after the names that
    /// qualify it.
    Identifier,
    /// All columns of a relation: the names before `.*`.
    QualifiedWildcard,
    /// The dotted name of a catalog item.
    ItemName,
    /// One identifier by itself: an alias, the name of a column.
    Ident,
}

/// A place where a statement uses a name.
#[derive(Clone, Debug, PartialEq, Eq)]
pub struct Node {
    pub role: Role,
    pub shape: Shape,
    /// The id that an item name carries, where it was resolved to one.
    pub id: Option<ObjectId>,
    /// The identifiers, from the widest qualifier to the narrowest.
    pub names: Vec<String>,
}

/// A statement: its kind and the places where it uses names, in the order
/// in which a walk through the statement meets them.
#[derive(Clone, Debug, PartialEq, Eq)]
pub struct Statement {
    pub kind: StatementKind,
    pub nodes: Vec<Node>,
}

/// The mathematical content of a [`Node`].
pub struct NodeView {
    pub role: Role,
    pub shape: Shape,
    pub id: Option<ObjectId>,
    pub names: Seq<Seq<char>>,
}

impl View for Node {
    type V = NodeView;

    open spec fn view(&self) -> NodeView {
        NodeView { role: self.role, shape: self.shape, id: self.id, names: texts(self.names@) }
    }
}

/// The contents of a list of nodes, node by node.
pub open spec fn node_views(nodes: Seq<Node>) -> Seq<NodeView> {
    nodes.map_values(|n: Node| n@)
}

/// The contents of a list of nodes grow with the list.
pub proof fn lemma_node_views_push(nodes: Seq<Node>, n: Node)
    ensures
        node_views(nodes.push(n)) == node_views(nodes).push(n@),
{
    assert(node_views(nodes.push(n)) =~= node_views(nodes).push(n@));
}

/// The database part of a full name: given, or left to the surroundings.
#[derive(Clone, Debug, PartialEq, Eq)]
pub enum RawDatabaseSpecifier {
    Ambient,
    Name(String),
}

/// The full name of a catalog item.
#[derive(Clone, Debug, PartialEq, Eq)]
pub struct FullItemName {
    pub database: RawDatabaseSpecifier,
    pub schema: String,
    pub item: String,
}

/// The text that stands for a database that is left to the surroundings.
pub open spec fn ambient() -> Seq<char> {
    "<none>"@
}

impl RawDatabaseSpecifier {
    /// The database as text.
    pub open spec fn text(&self) -> Seq<char> {
        match *self {
            RawDatabaseSpecifier::Ambient => ambient(),
            RawDatabaseSpecifier::Name(name) => name@,
        }
    }
}

impl FullItemName {
    /// The dotted name that refers to the item: schema and item, after the
    /// database where one is given.
    pub open spec fn parts(&self) -> Seq<Seq<char>> {
        match self.database {
            RawDatabaseSpecifier::Ambient => seq![self.schema@, self.item@],
            RawDatabaseSpecifier::Name(database) => seq![database@, self.schema@, self.item@],
        }
    }

    /// Database, schema and item, each as text.
    pub open spec fn qualified(&self) -> Seq<Seq<char>> {
        seq![self.database.text(), self.schema@, self.item@]
    }
}

} // verus!
