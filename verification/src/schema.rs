//! Typed schema metadata returned by schema exploration, and the decisions
//! taken on query results.

use vstd::prelude::*;

use crate::error::AppError;
use crate::text::same_text;

verus! {

/// A schema (namespace) of the database.
#[derive(Clone, Debug)]
pub struct SchemaInfo {
    pub name: String,
}

/// A table, view, materialized view or foreign table.
#[derive(Clone, Debug)]
pub struct RelationInfo {
    pub schema: String,
    pub name: String,
    pub relation_type: String,
}

/// A column of a relation.
#[derive(Clone, Debug)]
pub struct ColumnInfo {
    pub name: String,
    pub data_type: String,
    pub nullable: bool,
    pub ordinal_position: i32,
}

/// An index of a relation, with its definition.
#[derive(Clone, Debug)]
pub struct IndexInfo {
    pub name: String,
    pub definition: String,
}

/// A constraint of a relation, with its type (such as `PRIMARY KEY`).
#[derive(Clone, Debug)]
pub struct ConstraintInfo {
    pub name: String,
    pub constraint_type: String,
}

/// A relation with its columns, indexes and constraints.
#[derive(Clone, Debug)]
pub struct RelationDetails {
    pub relation: RelationInfo,
    pub columns: Vec<ColumnInfo>,
    pub indexes: Vec<IndexInfo>,
    pub constraints: Vec<ConstraintInfo>,
}

/// `i` is the first position in `relations` whose relation is named `name`.
pub open spec fn is_first_named(relations: Seq<RelationInfo>, i: int, name: Seq<char>) -> bool {
    &&& 0 <= i < relations.len()
    &&& relations[i].name@ == name
    &&& forall|j: int| 0 <= j < i ==> (#[trigger] relations[j]).name@ != name
}

/// The relation named `relation` among `relations` (the first one, should
/// several share the name), or `NotFound`.
pub fn find_relation(relations: Vec<RelationInfo>, relation: &str) -> (r: Result<
    RelationInfo,
    AppError,
>)
    ensures
        r matches Ok(info) ==> exists|i: int|
            is_first_named(relations@, i, relation@) && info == relations@[i],
        r matches Err(e) ==> e is NotFound,
        r is Err <==> forall|j: int|
            0 <= j < relations@.len() ==> (#[trigger] relations@[j]).name@ != relation@,
{
    let mut items = relations;
    let ghost given = items@;
    let mut i: usize = 0;
    while i < items.len()
        invariant
            items@ == given,
            given == relations@,
            i <= items.len(),
            forall|j: int| 0 <= j < i ==> (#[trigger] given[j]).name@ != relation@,
        decreases items.len() - i,
    {
        if same_text(items[i].name.as_str(), relation) {
            let info = items.swap_remove(i);
            assert(info == given[i as int]);
            assert(is_first_named(given, i as int, relation@));
            assert(given[i as int].name@ == relation@);
            return Ok(info);
        }
        i = i + 1;
    }
    Err(AppError::NotFound)
}

/// The error reported when a schema query fails with `message`.
pub fn database_error(message: &str) -> (r: AppError)
    ensures
        r matches AppError::Database(detail) && detail@ == "schema query failed: "@ + message@,
{
    let mut detail = String::from_str("schema query failed: ");
    detail.append(message);
    AppError::Database(detail)
}

} // verus!
