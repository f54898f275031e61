use vstd::prelude::*;

verus! {

/// Why a query could not be built.
#[derive(Debug, PartialEq, Eq)]
pub enum Ciboulette2SqlError {
    /// An identifier holds a NUL character, which PostgreSQL refuses.
    NullCharIdent(String),
    /// No table is registered for this resource type.
    UnknownTable(String),
    /// This resource type is not registered in the store.
    UnknownType(String),
    /// A requested field (second) is not part of the resource type (first).
    UnknownField(String, String),
    /// The resource type (first) has no relationship alias for the other type (second).
    MissingAliasTranslation(String, String),
    /// The type (first) has no relationship for the second: the bucket of a many-to-many
    /// relationship has no column for that type, or a type has no relationship of that alias.
    UnknownRelationship(String, String),
    /// A request meant to update an object carried a relationship instead.
    UpdatingRelationships,
    /// A request meant to update a relationship carried an object instead.
    UpdatingMainObject,
    /// A to-many relationship cannot be updated through its parent object.
    UpdatingManyRelationships,
    /// A to-one relationship of this type was given several identifiers.
    RequiredSingleRelationship(String),
    /// The non-optional relationship from the first type to the second is missing.
    MissingRelationship(String, String),
}

} // verus!
