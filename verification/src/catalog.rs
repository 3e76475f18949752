//! A snapshot of the coordinator's namespace and the resolution of dotted
//! object paths against it.
//!
//! A snapshot is taken afresh for each request and never kept: the catalog
//! can change from one directive to the next.

use crate::feedback::ObjectId;
use crate::text::{
    chars_of, lemma_split_on_len, lemma_texts_push, split, split_on, string_of, texts,
};
use vstd::prelude::*;

verus! {

/// A named item of a schema and its stable id.
#[derive(Clone, Debug, PartialEq, Eq)]
pub struct Item {
    pub name: String,
    pub id: ObjectId,
}

/// A named schema and its items.
#[derive(Clone, Debug, PartialEq, Eq)]
pub struct Schema {
    pub name: String,
    pub items: Vec<Item>,
}

/// A named database and its schemas.
#[derive(Clone, Debug, PartialEq, Eq)]
pub struct Database {
    pub name: String,
    pub schemas: Vec<Schema>,
}

/// The namespace at one moment: database, schema, item, id.
#[derive(Clone, Debug, PartialEq, Eq)]
pub struct Catalog {
    pub databases: Vec<Database>,
}

/// The part of a path that names a database, a schema or an item.
#[derive(Clone, Copy, Debug, PartialEq, Eq)]
pub enum Level {
    Database,
    Schema,
    Item,
}

/// Why a path does not resolve.
#[derive(Clone, Debug, PartialEq, Eq)]
pub enum CatalogError {
    /// The path does not have exactly three components.
    Malformed,
    /// The snapshot holds nothing of this name at this level; `siblings` are
    /// the names that it does hold there.
    Missing { level: Level, name: String, siblings: Vec<String> },
}

/// The mathematical content of a [`CatalogError`].
pub enum CatalogMiss {
    Malformed,
    Missing { level: Level, name: Seq<char>, siblings: Seq<Seq<char>> },
}

impl View for CatalogError {
    type V = CatalogMiss;

    open spec fn view(&self) -> CatalogMiss {
        match *self {
            CatalogError::Malformed => CatalogMiss::Malformed,
            CatalogError::Missing { level, name, siblings } => CatalogMiss::Missing {
                level,
                name: name@,
                siblings: texts(siblings@),
            },
        }
    }
}

/// The names of the given databases, in order.
pub open spec fn database_names(databases: Seq<Database>) -> Seq<Seq<char>> {
    databases.map_values(|d: Database| d.name@)
}

/// The names of the given schemas, in order.
pub open spec fn schema_names(schemas: Seq<Schema>) -> Seq<Seq<char>> {
    schemas.map_values(|s: Schema| s.name@)
}

/// The names of the given items, in order.
pub open spec fn item_names(items: Seq<Item>) -> Seq<Seq<char>> {
    items.map_values(|i: Item| i.name@)
}

/// The first position at which `wanted` stands among `names`.
pub open spec fn first_named(names: Seq<Seq<char>>, wanted: Seq<char>) -> Option<int>
    decreases names.len(),
{
    if names.len() == 0 {
        None
    } else if names[0] == wanted {
        Some(0int)
    } else {
        match first_named(names.drop_first(), wanted) {
            Some(i) => Some(i + 1),
            None => None,
        }
    }
}

/// What a path resolves to in a snapshot.
///
/// The path is cut at its dots. Its first component names a database, the
/// second a schema of that database, the third an item of that schema; the
/// item's id is the result. A component that names nothing is reported with
/// the names known at its level. A path with fewer or more than three
/// components is malformed; that shows where the missing component is needed,
/// or, for a fourth component, once the first three have resolved.
pub open spec fn resolve(databases: Seq<Database>, path: Seq<char>) -> Result<
    ObjectId,
    CatalogMiss,
> {
    let parts = split_on(path, '.');
    match first_named(database_names(databases), parts[0]) {
        None => Err(
            CatalogMiss::Missing {
                level: Level::Database,
                name: parts[0],
                siblings: database_names(databases),
            },
        ),
        Some(d) => if parts.len() < 2 {
            Err(CatalogMiss::Malformed)
        } else {
            let schemas = databases[d].schemas@;
            match first_named(schema_names(schemas), parts[1]) {
                None => Err(
                    CatalogMiss::Missing {
                        level: Level::Schema,
                        name: parts[1],
                        siblings: schema_names(schemas),
                    },
                ),
                Some(s) => if parts.len() < 3 {
                    Err(CatalogMiss::Malformed)
                } else {
                    let items = schemas[s].items@;
                    match first_named(item_names(items), parts[2]) {
                        None => Err(
                            CatalogMiss::Missing {
                                level: Level::Item,
                                name: parts[2],
                                siblings: item_names(items),
                            },
                        ),
                        Some(i) => if parts.len() > 3 {
                            Err(CatalogMiss::Malformed)
                        } else {
                            Ok(items[i].id)
                        },
                    }
                },
            }
        },
    }
}

/// The first position of a name is a position of that name, and none
/// stands before it.
pub proof fn lemma_first_named(names: Seq<Seq<char>>, wanted: Seq<char>)
    ensures
        match first_named(names, wanted) {
            Some(i) => 0 <= i < names.len() && names[i] == wanted && forall|j: int|
                0 <= j < i ==> names[j] != wanted,
            None => forall|j: int| 0 <= j < names.len() ==> names[j] != wanted,
        },
    decreases names.len(),
{
    if names.len() > 0 && names[0] != wanted {
        let rest = names.drop_first();
        lemma_first_named(rest, wanted);
        match first_named(rest, wanted) {
            Some(i) => {
                assert forall|j: int| 0 <= j < i + 1 implies names[j] != wanted by {
                    if j > 0 {
                        assert(rest[j - 1] == names[j]);
                    }
                }
            },
            None => {
                assert forall|j: int| 0 <= j < names.len() implies names[j] != wanted by {
                    if j > 0 {
                        assert(rest[j - 1] == names[j]);
                    }
                }
            },
        }
    }
}

/// Finds the first of `names` that reads `wanted`.
fn position_of(names: &Vec<String>, wanted: &String) -> (found: Option<usize>)
    ensures
        match found {
            Some(i) => i < names.len() && first_named(texts(names@), wanted@) == Some(i as int),
            None => first_named(texts(names@), wanted@) is None,
        },
{
    let mut i: usize = 0;
    while i < names.len()
        invariant
            i <= names.len(),
            forall|j: int| 0 <= j < i ==> texts(names@)[j] != wanted@,
        decreases names.len() - i,
    {
        if names[i] == *wanted {
            proof {
                assert(texts(names@)[i as int] == wanted@);
                lemma_first_named(texts(names@), wanted@);
            }
            return Some(i);
        }
        i += 1;
    }
    proof {
        lemma_first_named(texts(names@), wanted@);
    }
    None
}

fn names_of_databases(databases: &Vec<Database>) -> (names: Vec<String>)
    ensures
        texts(names@) == database_names(databases@),
{
    let mut names: Vec<String> = Vec::new();
    let mut i: usize = 0;
    while i < databases.len()
        invariant
            i <= databases.len(),
            texts(names@) =~= database_names(databases@.take(i as int)),
        decreases databases.len() - i,
    {
        let name = databases[i].name.clone();
        proof {
            lemma_texts_push(names@, name);
            assert(databases@.take(i + 1) == databases@.take(i as int).push(databases[i as int]));
        }
        names.push(name);
        i += 1;
    }
    proof {
        assert(databases@.take(databases@.len() as int) == databases@);
    }
    names
}

fn names_of_schemas(schemas: &Vec<Schema>) -> (names: Vec<String>)
    ensures
        texts(names@) == schema_names(schemas@),
{
    let mut names: Vec<String> = Vec::new();
    let mut i: usize = 0;
    while i < schemas.len()
        invariant
            i <= schemas.len(),
            texts(names@) =~= schema_names(schemas@.take(i as int)),
        decreases schemas.len() - i,
    {
        let name = schemas[i].name.clone();
        proof {
            lemma_texts_push(names@, name);
            assert(schemas@.take(i + 1) == schemas@.take(i as int).push(schemas[i as int]));
        }
        names.push(name);
        i += 1;
    }
    proof {
        assert(schemas@.take(schemas@.len() as int) == schemas@);
    }
    names
}

fn names_of_items(items: &Vec<Item>) -> (names: Vec<String>)
    ensures
        texts(names@) == item_names(items@),
{
    let mut names: Vec<String> = Vec::new();
    let mut i: usize = 0;
    while i < items.len()
        invariant
            i <= items.len(),
            texts(names@) =~= item_names(items@.take(i as int)),
        decreases items.len() - i,
    {
        let name = items[i].name.clone();
        proof {
            lemma_texts_push(names@, name);
            assert(items@.take(i + 1) == items@.take(i as int).push(items[i as int]));
        }
        names.push(name);
        i += 1;
    }
    proof {
        assert(items@.take(items@.len() as int) == items@);
    }
    names
}

impl Catalog {
    /// Resolves the path `database.schema.item` to the id of the item.
    pub fn get(&self, name: &str) -> (found: Result<ObjectId, CatalogError>)
        ensures
            match found {
                Ok(id) => resolve(self.databases@, name@) == Ok::<ObjectId, CatalogMiss>(id),
                Err(e) => resolve(self.databases@, name@) == Err::<ObjectId, CatalogMiss>(e@),
            },
    {
        let path = chars_of(name);
        let parts = split(&path, '.');
        proof {
            lemma_split_on_len(name@, '.');
        }
        let database_name = string_of(&parts[0]);
        let databases = names_of_databases(&self.databases);
        proof {
            assert(databases@.len() == self.databases@.len());
        }
        let d = match position_of(&databases, &database_name) {
            Some(d) => d,
            None => {
                return Err(
                    CatalogError::Missing {
                        level: Level::Database,
                        name: database_name,
                        siblings: databases,
                    },
                );
            },
        };
        if parts.len() < 2 {
            return Err(CatalogError::Malformed);
        }
        let schema_name = string_of(&parts[1]);
        let schemas = names_of_schemas(&self.databases[d].schemas);
        proof {
            assert(schemas@.len() == self.databases[d as int].schemas@.len());
        }
        let s = match position_of(&schemas, &schema_name) {
            Some(s) => s,
            None => {
                return Err(
                    CatalogError::Missing {
                        level: Level::Schema,
                        name: schema_name,
                        siblings: schemas,
                    },
                );
            },
        };
        if parts.len() < 3 {
            return Err(CatalogError::Malformed);
        }
        let item_name = string_of(&parts[2]);
        let items = names_of_items(&self.databases[d].schemas[s].items);
        proof {
            assert(items@.len() == self.databases[d as int].schemas[s as int].items@.len());
        }
        let i = match position_of(&items, &item_name) {
            Some(i) => i,
            None => {
                return Err(
                    CatalogError::Missing { level: Level::Item, name: item_name, siblings: items },
                );
            },
        };
        if parts.len() > 3 {
            return Err(CatalogError::Malformed);
        }
        Ok(self.databases[d].schemas[s].items[i].id)
    }
}

} // verus!
