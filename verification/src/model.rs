use vstd::prelude::*;
use crate::error::Ciboulette2SqlError;
use crate::text::str_eq;

verus! {

/// How the identifiers of a resource type are represented.
#[derive(Clone, Copy, PartialEq, Eq, Structural, Debug)]
pub enum CibouletteIdType {
    Number,
    Uuid,
    Text,
}

/// The identifier of one resource.
#[derive(Debug, PartialEq, Eq)]
pub enum CibouletteId {
    Number(u64),
    Uuid(u128),
    Text(String),
}

/// A value bound to a numbered parameter of the generated statement.
#[derive(Debug, PartialEq, Eq)]
pub enum Ciboulette2SqlValue {
    Boolean(Option<bool>),
    Integer(Option<i64>),
    Numeric(Option<u64>),
    Text(Option<String>),
    Uuid(Option<u128>),
    Json(Option<String>),
}

/// The parameter value that stands for a resource identifier.
pub open spec fn spec_value_of_id(id: CibouletteId) -> Ciboulette2SqlValue {
    match id {
        CibouletteId::Number(n) => Ciboulette2SqlValue::Numeric(Some(n)),
        CibouletteId::Uuid(u) => Ciboulette2SqlValue::Uuid(Some(u)),
        CibouletteId::Text(s) => Ciboulette2SqlValue::Text(Some(s)),
    }
}

/// The typed NULL that stands for a missing identifier of the given kind.
pub open spec fn spec_null_of_id_type(t: CibouletteIdType) -> Ciboulette2SqlValue {
    match t {
        CibouletteIdType::Number => Ciboulette2SqlValue::Numeric(None),
        CibouletteIdType::Uuid => Ciboulette2SqlValue::Uuid(None),
        CibouletteIdType::Text => Ciboulette2SqlValue::Text(None),
    }
}

impl Ciboulette2SqlValue {
    /// The parameter value that stands for a resource identifier.
    pub fn from_id(id: &CibouletteId) -> (r: Self)
        ensures
            r == spec_value_of_id(*id),
    {
        match id {
            CibouletteId::Number(n) => Ciboulette2SqlValue::Numeric(Some(*n)),
            CibouletteId::Uuid(u) => Ciboulette2SqlValue::Uuid(Some(*u)),
            CibouletteId::Text(s) => Ciboulette2SqlValue::Text(Some(s.clone())),
        }
    }

    /// A copy of the value.
    pub fn duplicate(&self) -> (r: Self)
        ensures
            r == *self,
    {
        match self {
            Ciboulette2SqlValue::Boolean(b) => Ciboulette2SqlValue::Boolean(*b),
            Ciboulette2SqlValue::Integer(n) => Ciboulette2SqlValue::Integer(*n),
            Ciboulette2SqlValue::Numeric(n) => Ciboulette2SqlValue::Numeric(*n),
            Ciboulette2SqlValue::Text(s) => Ciboulette2SqlValue::Text(
                match s {
                    Some(s) => Some(s.clone()),
                    None => None,
                },
            ),
            Ciboulette2SqlValue::Uuid(u) => Ciboulette2SqlValue::Uuid(*u),
            Ciboulette2SqlValue::Json(s) => Ciboulette2SqlValue::Json(
                match s {
                    Some(s) => Some(s.clone()),
                    None => None,
                },
            ),
        }
    }

    /// The typed NULL that stands for a missing identifier of the given kind.
    pub fn null_of_id_type(t: CibouletteIdType) -> (r: Self)
        ensures
            r == spec_null_of_id_type(t),
    {
        match t {
            CibouletteIdType::Number => Ciboulette2SqlValue::Numeric(None),
            CibouletteIdType::Uuid => Ciboulette2SqlValue::Uuid(None),
            CibouletteIdType::Text => Ciboulette2SqlValue::Text(None),
        }
    }
}

/// The kind of an identifier.
pub open spec fn spec_kind_of_id(id: CibouletteId) -> CibouletteIdType {
    match id {
        CibouletteId::Number(_) => CibouletteIdType::Number,
        CibouletteId::Uuid(_) => CibouletteIdType::Uuid,
        CibouletteId::Text(_) => CibouletteIdType::Text,
    }
}

/// Whether a parameter value is a NULL.
pub open spec fn is_sql_null(v: Ciboulette2SqlValue) -> bool {
    match v {
        Ciboulette2SqlValue::Boolean(x) => x is None,
        Ciboulette2SqlValue::Integer(x) => x is None,
        Ciboulette2SqlValue::Numeric(x) => x is None,
        Ciboulette2SqlValue::Text(x) => x is None,
        Ciboulette2SqlValue::Uuid(x) => x is None,
        Ciboulette2SqlValue::Json(x) => x is None,
    }
}

/// Whether two parameter values are bound with the same SQL type.
pub open spec fn same_sql_type(a: Ciboulette2SqlValue, b: Ciboulette2SqlValue) -> bool {
    {
        ||| (a is Boolean && b is Boolean)
        ||| (a is Integer && b is Integer)
        ||| (a is Numeric && b is Numeric)
        ||| (a is Text && b is Text)
        ||| (a is Uuid && b is Uuid)
        ||| (a is Json && b is Json)
    }
}

/// The NULL of an identifier kind is a NULL bound with the SQL type of the identifiers of
/// that kind: a column that holds such identifiers accepts it.
pub proof fn lemma_null_of_id_type_fits_ids(id: CibouletteId)
    ensures
        is_sql_null(spec_null_of_id_type(spec_kind_of_id(id))),
        same_sql_type(spec_null_of_id_type(spec_kind_of_id(id)), spec_value_of_id(id)),
        !is_sql_null(spec_value_of_id(id)),
{
}

/// The kind of an attribute in a resource schema.
#[derive(Clone, Copy, PartialEq, Eq, Structural, Debug)]
pub enum AttributeKind {
    Bool,
    Number,
    Text,
    Uuid,
    Json,
}

/// The value of one attribute of a resource, as read from a request document.
pub enum AttributeValue {
    /// The attribute is not in the document at all.
    Absent,
    /// The attribute is an explicit `null`, of the given kind.
    Null(AttributeKind),
    Bool(bool),
    Number(i64),
    Text(String),
    Uuid(u128),
    /// A nested object or array, in its JSON text.
    Json(String),
}

/// The attributes object of a resource: a map from attribute name to value, kept as pairs
/// in key order (`wf`).
pub struct AttributeObject {
    pub entries: Vec<(String, AttributeValue)>,
}

/// One property of a resource schema; nested objects are not selected column by column.
pub struct CibouletteSchemaProperty {
    pub name: String,
    pub is_object: bool,
}

/// A resource type: its name, the kind of its identifiers, its attributes, and the alias
/// under which each related type appears in its documents. Its properties and aliases are
/// maps, kept in key order (`wf`).
pub struct CibouletteResourceType {
    pub name: String,
    pub id_type: CibouletteIdType,
    pub properties: Vec<CibouletteSchemaProperty>,
    pub relationships_type_to_alias: Vec<(String, String)>,
}

impl CibouletteResourceType {
    /// The alias under which the related type `other` appears in documents of this type.
    pub fn get_alias(&self, other: &str) -> (r: Result<&String, Ciboulette2SqlError>)
        ensures
            r is Ok <==> spec_find_key(self.relationships_type_to_alias@, other@) is Some,
            r matches Ok(a) ==> *a == self.relationships_type_to_alias@[spec_find_key(
                self.relationships_type_to_alias@,
                other@,
            )->0].1,
            r matches Err(e) ==> e matches Ciboulette2SqlError::MissingAliasTranslation(a, b) && a@
                == self.name@ && b@ == other@,
    {
        proof {
            lemma_find_key_bounds(self.relationships_type_to_alias@, other@);
        }
        match find_key(&self.relationships_type_to_alias, other) {
            Some(i) => Ok(&self.relationships_type_to_alias[i].1),
            None => Err(Ciboulette2SqlError::MissingAliasTranslation(self.name.clone(), String::from_str(other))),
        }
    }
}

/// The first index in `props` of a property named `name`.
pub open spec fn spec_find_property(props: Seq<CibouletteSchemaProperty>, name: Seq<char>) -> Option<int>
    decreases props.len(),
{
    if props.len() == 0 {
        None
    } else {
        match spec_find_property(props.drop_last(), name) {
            Some(i) => Some(i),
            None => if props.last().name@ == name {
                Some(props.len() - 1)
            } else {
                None
            },
        }
    }
}

/// The first index of a property named `name`.
pub fn find_property(props: &Vec<CibouletteSchemaProperty>, name: &str) -> (r: Option<usize>)
    ensures
        r matches Some(i) ==> spec_find_property(props@, name@) == Some(i as int),
        r is None ==> spec_find_property(props@, name@) is None,
{
    let mut i: usize = 0;
    while i < props.len()
        invariant
            i <= props@.len(),
            spec_find_property(props@.take(i as int), name@) is None,
        decreases props@.len() - i,
    {
        proof {
            assert(props@.take(i + 1).drop_last() =~= props@.take(i as int));
        }
        if str_eq(props[i].name.as_str(), name) {
            proof {
                lemma_find_property_prefix(props@, name@, i + 1);
            }
            return Some(i);
        }
        i = i + 1;
    }
    proof {
        assert(props@.take(i as int) =~= props@);
    }
    None
}

proof fn lemma_find_property_prefix(props: Seq<CibouletteSchemaProperty>, name: Seq<char>, j: int)
    requires
        0 <= j <= props.len(),
        spec_find_property(props.take(j), name) is Some,
    ensures
        spec_find_property(props, name) == spec_find_property(props.take(j), name),
    decreases props.len() - j,
{
    if j < props.len() {
        assert(props.take(j + 1).drop_last() =~= props.take(j));
        lemma_find_property_prefix(props, name, j + 1);
    } else {
        assert(props.take(j) =~= props);
    }
}

pub proof fn lemma_find_property_bounds(props: Seq<CibouletteSchemaProperty>, name: Seq<char>)
    ensures
        spec_find_property(props, name) matches Some(i) ==> 0 <= i < props.len()
            && props[i].name@ == name,
    decreases props.len(),
{
    if props.len() > 0 {
        lemma_find_property_bounds(props.drop_last(), name);
    }
}

/// The names of the properties of a schema, in order.
pub open spec fn spec_property_names(props: Seq<CibouletteSchemaProperty>) -> Seq<String> {
    props.map_values(|p: CibouletteSchemaProperty| p.name)
}

/// The names of the properties of a schema, in order.
pub fn property_names(props: &Vec<CibouletteSchemaProperty>) -> (r: Vec<String>)
    ensures
        r@ == spec_property_names(props@),
{
    let mut r: Vec<String> = Vec::new();
    let mut i: usize = 0;
    while i < props.len()
        invariant
            i <= props@.len(),
            r@ == spec_property_names(props@.take(i as int)),
        decreases props@.len() - i,
    {
        r.push(props[i].name.clone());
        proof {
            assert(spec_property_names(props@.take(i + 1)) =~= spec_property_names(props@.take(i as int)).push(props@[i as int].name));
        }
        i = i + 1;
    }
    proof {
        assert(props@.take(i as int) =~= props@);
    }
    r
}

/// The query parameters of a request: the fields to return per type (sparse fieldsets, a
/// map kept in key order, `wf`) and the related types whose data is included.
pub struct CibouletteQueryParameters {
    pub sparse: Vec<(String, Vec<String>)>,
    pub included_types: Vec<String>,
}

/// Whether the type named `name` is in the included types.
pub open spec fn spec_is_included(query: CibouletteQueryParameters, name: Seq<char>) -> bool {
    exists|i: int| 0 <= i < query.included_types@.len() && #[trigger] query.included_types@[i]@ == name
}

impl CibouletteQueryParameters {
    /// Whether the type named `name` is in the included types.
    pub fn is_included(&self, name: &str) -> (r: bool)
        ensures
            r == spec_is_included(*self, name@),
    {
        let mut i: usize = 0;
        while i < self.included_types.len()
            invariant
                i <= self.included_types@.len(),
                forall|j: int| 0 <= j < i ==> self.included_types@[j]@ != name@,
            decreases self.included_types@.len() - i,
        {
            if str_eq(self.included_types[i].as_str(), name) {
                return true;
            }
            i = i + 1;
        }
        false
    }
}

/// The first index in `pairs` whose key is `key`.
pub open spec fn spec_find_key<V>(pairs: Seq<(String, V)>, key: Seq<char>) -> Option<int>
    decreases pairs.len(),
{
    if pairs.len() == 0 {
        None
    } else {
        match spec_find_key(pairs.drop_last(), key) {
            Some(i) => Some(i),
            None => if pairs.last().0@ == key {
                Some(pairs.len() - 1)
            } else {
                None
            },
        }
    }
}

pub proof fn lemma_find_key_step<V>(pairs: Seq<(String, V)>, key: Seq<char>, i: int)
    requires
        0 <= i < pairs.len(),
        spec_find_key(pairs.take(i), key) is None,
    ensures
        spec_find_key(pairs.take(i + 1), key) == (if pairs[i].0@ == key {
            Some(i)
        } else {
            None::<int>
        }),
{
    assert(pairs.take(i + 1).drop_last() =~= pairs.take(i));
}

pub proof fn lemma_find_key_prefix<V>(pairs: Seq<(String, V)>, key: Seq<char>, j: int)
    requires
        0 <= j <= pairs.len(),
        spec_find_key(pairs.take(j), key) is Some,
    ensures
        spec_find_key(pairs, key) == spec_find_key(pairs.take(j), key),
    decreases pairs.len() - j,
{
    if j < pairs.len() {
        assert(pairs.take(j + 1).drop_last() =~= pairs.take(j));
        lemma_find_key_prefix(pairs, key, j + 1);
    } else {
        assert(pairs.take(j) =~= pairs);
    }
}

pub proof fn lemma_find_key_bounds<V>(pairs: Seq<(String, V)>, key: Seq<char>)
    ensures
        spec_find_key(pairs, key) matches Some(i) ==> 0 <= i < pairs.len() && pairs[i].0@ == key,
    decreases pairs.len(),
{
    if pairs.len() > 0 {
        lemma_find_key_bounds(pairs.drop_last(), key);
    }
}

/// Looks up the first pair whose key is `key`.
pub fn find_key<V>(pairs: &Vec<(String, V)>, key: &str) -> (r: Option<usize>)
    ensures
        r matches Some(i) ==> spec_find_key(pairs@, key@) == Some(i as int),
        r is None ==> spec_find_key(pairs@, key@) is None,
{
    let mut i: usize = 0;
    while i < pairs.len()
        invariant
            i <= pairs@.len(),
            spec_find_key(pairs@.take(i as int), key@) is None,
        decreases pairs@.len() - i,
    {
        proof {
            lemma_find_key_step(pairs@, key@, i as int);
        }
        if str_eq(pairs[i].0.as_str(), key) {
            proof {
                lemma_find_key_prefix(pairs@, key@, i + 1);
            }
            return Some(i);
        }
        i = i + 1;
    }
    proof {
        assert(pairs@.take(i as int) =~= pairs@);
    }
    None
}

/// A one-to-many relationship: resources of `one_table` each own many resources of
/// `many_table`, which hold the identifier of their owner in the column `many_table_key`.
pub struct CibouletteRelationshipOneToManyOption {
    pub one_table: String,
    pub one_table_id_type: CibouletteIdType,
    pub many_table: String,
    pub many_table_key: String,
    pub optional: bool,
    pub part_of_many_to_many: Option<String>,
}

impl CibouletteRelationshipOneToManyOption {
    /// A copy of the option.
    pub fn duplicate(&self) -> (r: Self)
        ensures
            r == *self,
    {
        CibouletteRelationshipOneToManyOption {
            one_table: self.one_table.clone(),
            one_table_id_type: self.one_table_id_type,
            many_table: self.many_table.clone(),
            many_table_key: self.many_table_key.clone(),
            optional: self.optional,
            part_of_many_to_many: match &self.part_of_many_to_many {
                Some(s) => Some(s.clone()),
                None => None,
            },
        }
    }
}

/// A many-to-many relationship through the bucket resource `bucket_resource`, whose rows
/// hold, for each of the two related types, the identifier of one resource in a column.
pub struct CibouletteRelationshipManyToManyOption {
    pub bucket_resource: String,
    pub keys: ((String, String), (String, String)),
}

/// The first column of the bucket that holds identifiers of the type `dest_type`.
pub open spec fn spec_dest_key(opt: CibouletteRelationshipManyToManyOption, dest_type: Seq<char>) -> Option<String> {
    if opt.keys.0.0@ == dest_type {
        Some(opt.keys.0.1)
    } else if opt.keys.1.0@ == dest_type {
        Some(opt.keys.1.1)
    } else {
        None
    }
}

impl CibouletteRelationshipManyToManyOption {
    /// A copy of the option.
    pub fn duplicate(&self) -> (r: Self)
        ensures
            r == *self,
    {
        CibouletteRelationshipManyToManyOption {
            bucket_resource: self.bucket_resource.clone(),
            keys: (
                (self.keys.0.0.clone(), self.keys.0.1.clone()),
                (self.keys.1.0.clone(), self.keys.1.1.clone()),
            ),
        }
    }

    /// The first column of the bucket that holds identifiers of the type `dest_type`.
    pub fn dest_key(&self, dest_type: &str) -> (r: Result<&String, Ciboulette2SqlError>)
        ensures
            r matches Ok(k) ==> spec_dest_key(*self, dest_type@) == Some(*k),
            r is Err ==> spec_dest_key(*self, dest_type@) is None,
            r matches Err(e) ==> e matches Ciboulette2SqlError::UnknownRelationship(a, b)
                && a@ == self.bucket_resource@ && b@ == dest_type@,
    {
        if str_eq(self.keys.0.0.as_str(), dest_type) {
            Ok(&self.keys.0.1)
        } else if str_eq(self.keys.1.0.as_str(), dest_type) {
            Ok(&self.keys.1.1)
        } else {
            Err(Ciboulette2SqlError::UnknownRelationship(self.bucket_resource.clone(), String::from_str(dest_type)))
        }
    }
}

/// A relationship from one resource type to another, as an edge of the store.
pub enum CibouletteRelationshipOption {
    /// From the owner to the owned resources.
    OneToMany(CibouletteRelationshipOneToManyOption),
    /// From an owned resource to its owner.
    ManyToOne(CibouletteRelationshipOneToManyOption),
    ManyToMany(CibouletteRelationshipManyToManyOption),
}

/// The linkage data of a relationship in a request document.
pub enum CibouletteOptionalData {
    One(CibouletteId),
    Many(Vec<CibouletteId>),
    /// No resource: `true` when the document says `null`, `false` when it says nothing.
    Null(bool),
}

/// The attributes and relationships (a map by alias, kept in key order, `wf`) of a resource
/// in a request document.
pub struct CibouletteResource {
    pub attributes: Option<AttributeObject>,
    pub relationships: Vec<(String, CibouletteOptionalData)>,
}

/// The new linkage of one relationship of a resource.
pub struct CibouletteUpdateRelationship {
    pub type_: String,
    pub value: CibouletteOptionalData,
}

/// What an update request carries: a resource, or one of its relationships.
pub enum CibouletteUpdateRequestType {
    MainType(CibouletteResource),
    Relationship(CibouletteUpdateRelationship),
}

/// A request to update the resource `resource_id` of type `resource_type`.
pub struct CibouletteUpdateRequest {
    pub resource_type: String,
    pub resource_id: CibouletteId,
    pub query: CibouletteQueryParameters,
    pub data: CibouletteUpdateRequestType,
}

/// What a read request designates.
pub enum CiboulettePath {
    /// Every resource of the type.
    Type,
    /// One resource.
    TypeId(CibouletteId),
    /// The resources related to one resource through the relationship with this alias.
    TypeIdRelated(CibouletteId, String),
    /// The linkage of one relationship of one resource.
    TypeIdRelationship(CibouletteId, String),
}

/// A request to read resources of type `resource_type`.
pub struct CibouletteReadRequest {
    pub resource_type: String,
    pub path: CiboulettePath,
    pub query: CibouletteQueryParameters,
}

/// A request to delete the resource `resource_id` of type `resource_type`.
pub struct CibouletteDeleteRequest {
    pub resource_type: String,
    pub resource_id: CibouletteId,
}

/// Whether the data of a related resource is returned, or its identifier alone.
#[derive(Clone, Copy, PartialEq, Eq, Structural, Debug)]
pub enum Ciboulette2PostgresResponseType {
    Object,
    Id,
}

/// Which relationships a query selects.
#[derive(Clone, Copy, PartialEq, Eq, Structural, Debug)]
pub enum RelationshipFilter {
    /// All of them: data for the included types, identifiers for the others.
    All,
    /// Those of the included types alone, with their data.
    IncludedOnly,
}

/// What a query selects of the relationships to the type `name`, if anything.
pub open spec fn spec_requirement(
    filter: RelationshipFilter,
    query: CibouletteQueryParameters,
    name: Seq<char>,
) -> Option<Ciboulette2PostgresResponseType> {
    if spec_is_included(query, name) {
        Some(Ciboulette2PostgresResponseType::Object)
    } else {
        match filter {
            RelationshipFilter::All => Some(Ciboulette2PostgresResponseType::Id),
            RelationshipFilter::IncludedOnly => None,
        }
    }
}

/// What a query selects of the relationships to the type `name`, if anything.
pub fn requirement(
    filter: RelationshipFilter,
    query: &CibouletteQueryParameters,
    name: &str,
) -> (r: Option<Ciboulette2PostgresResponseType>)
    ensures
        r == spec_requirement(filter, *query, name@),
{
    if query.is_included(name) {
        Some(Ciboulette2PostgresResponseType::Object)
    } else {
        match filter {
            RelationshipFilter::All => Some(Ciboulette2PostgresResponseType::Id),
            RelationshipFilter::IncludedOnly => None,
        }
    }
}

/// Whether the key `a` comes before the key `b`: the order of their characters' code
/// points, which is the order of the keys of an ordered map of strings.
pub open spec fn key_lt(a: Seq<char>, b: Seq<char>) -> bool
    decreases a.len(),
{
    if b.len() == 0 {
        false
    } else if a.len() == 0 {
        true
    } else if a[0] != b[0] {
        (a[0] as int) < (b[0] as int)
    } else {
        key_lt(a.skip(1), b.skip(1))
    }
}

/// No key comes before itself.
pub proof fn lemma_key_lt_irreflexive(a: Seq<char>)
    ensures
        !key_lt(a, a),
    decreases a.len(),
{
    if a.len() > 0 {
        lemma_key_lt_irreflexive(a.skip(1));
    }
}

/// Whether a list of pairs is an ordered map: its keys strictly increase, so that each key
/// occurs once and the pairs come in the order of their keys.
pub open spec fn keys_ordered<V>(pairs: Seq<(String, V)>) -> bool {
    forall|i: int, j: int| 0 <= i < j < pairs.len() ==> key_lt(#[trigger] pairs[i].0@, #[trigger] pairs[j].0@)
}

/// Whether the properties of a schema form an ordered map by name.
pub open spec fn properties_ordered(props: Seq<CibouletteSchemaProperty>) -> bool {
    forall|i: int, j: int| 0 <= i < j < props.len() ==> key_lt(#[trigger] props[i].name@, #[trigger] props[j].name@)
}

impl CibouletteResourceType {
    /// Whether the maps of a resource type are ordered maps: its properties by name, and
    /// its aliases by related type.
    pub open spec fn wf(self) -> bool {
        properties_ordered(self.properties@) && keys_ordered(self.relationships_type_to_alias@)
    }
}

impl CibouletteQueryParameters {
    /// Whether the sparse fieldsets form an ordered map by type.
    pub open spec fn wf(self) -> bool {
        keys_ordered(self.sparse@)
    }
}

impl AttributeObject {
    /// Whether the attributes form an ordered map by name.
    pub open spec fn wf(self) -> bool {
        keys_ordered(self.entries@)
    }
}

impl CibouletteResource {
    /// Whether the attributes and the relationships form ordered maps by name and by alias.
    pub open spec fn wf(self) -> bool {
        keys_ordered(self.relationships@) && (self.attributes matches Some(o) ==> o.wf())
    }
}

/// In an ordered map, the lookup of a key finds the one pair of that key.
pub proof fn lemma_find_key_ordered<V>(pairs: Seq<(String, V)>, key: Seq<char>, i: int)
    requires
        keys_ordered(pairs),
        0 <= i < pairs.len(),
        pairs[i].0@ == key,
    ensures
        spec_find_key(pairs, key) == Some(i),
    decreases pairs.len(),
{
    let d = pairs.drop_last();
    lemma_find_key_bounds(d, key);
    if i == pairs.len() - 1 {
        if let Some(j) = spec_find_key(d, key) {
            assert(d[j] == pairs[j]);
            lemma_key_lt_irreflexive(key);
            assert(key_lt(pairs[j].0@, pairs[i].0@));
        }
    } else {
        assert forall|a: int, b: int| 0 <= a < b < d.len() implies key_lt(#[trigger] d[a].0@, #[trigger] d[b].0@) by {
            assert(d[a] == pairs[a] && d[b] == pairs[b]);
        }
        assert(d[i] == pairs[i]);
        lemma_find_key_ordered(d, key, i);
    }
}

/// In a schema whose properties form an ordered map, the lookup of a name finds the one
/// property of that name.
pub proof fn lemma_find_property_ordered(props: Seq<CibouletteSchemaProperty>, name: Seq<char>, i: int)
    requires
        properties_ordered(props),
        0 <= i < props.len(),
        props[i].name@ == name,
    ensures
        spec_find_property(props, name) == Some(i),
    decreases props.len(),
{
    let d = props.drop_last();
    lemma_find_property_bounds(d, name);
    if i == props.len() - 1 {
        if let Some(j) = spec_find_property(d, name) {
            assert(d[j] == props[j]);
            lemma_key_lt_irreflexive(name);
            assert(key_lt(props[j].name@, props[i].name@));
        }
    } else {
        assert forall|a: int, b: int| 0 <= a < b < d.len() implies key_lt(#[trigger] d[a].name@, #[trigger] d[b].name@) by {
            assert(d[a] == props[a] && d[b] == props[b]);
        }
        assert(d[i] == props[i]);
        lemma_find_property_ordered(d, name, i);
    }
}

/// The order of keys is transitive.
pub proof fn lemma_key_lt_transitive(a: Seq<char>, b: Seq<char>, c: Seq<char>)
    requires
        key_lt(a, b),
        key_lt(b, c),
    ensures
        key_lt(a, c),
    decreases a.len(),
{
    if a.len() > 0 && a[0] == b[0] && b[0] == c[0] {
        lemma_key_lt_transitive(a.skip(1), b.skip(1), c.skip(1));
    }
}

/// Whether the key `a` comes before the key `b`.
pub fn str_lt(a: &str, b: &str) -> (r: bool)
    ensures
        r == key_lt(a@, b@),
{
    let n = a.unicode_len();
    let m = b.unicode_len();
    let mut i: usize = 0;
    proof {
        assert(a@.skip(0) =~= a@);
        assert(b@.skip(0) =~= b@);
    }
    while i < n && i < m
        invariant
            n == a@.len(),
            m == b@.len(),
            i <= n,
            i <= m,
            key_lt(a@, b@) == key_lt(a@.skip(i as int), b@.skip(i as int)),
        decreases n - i,
    {
        let c = a.get_char(i);
        let d = b.get_char(i);
        proof {
            assert(a@.skip(i as int)[0] == c);
            assert(b@.skip(i as int)[0] == d);
        }
        if c != d {
            return (c as u32) < (d as u32);
        }
        proof {
            assert(a@.skip(i as int).skip(1) =~= a@.skip(i + 1));
            assert(b@.skip(i as int).skip(1) =~= b@.skip(i + 1));
        }
        i = i + 1;
    }
    i < m
}

/// Whether a list of pairs is an ordered map: its keys strictly increase.
pub fn keys_are_ordered<V>(pairs: &Vec<(String, V)>) -> (r: bool)
    ensures
        r == keys_ordered(pairs@),
{
    let mut i: usize = 1;
    if pairs.len() == 0 {
        return true;
    }
    while i < pairs.len()
        invariant
            1 <= i <= pairs@.len(),
            forall|a: int, b: int| 0 <= a < b < i ==> key_lt(#[trigger] pairs@[a].0@, #[trigger] pairs@[b].0@),
        decreases pairs@.len() - i,
    {
        if !str_lt(pairs[i - 1].0.as_str(), pairs[i].0.as_str()) {
            return false;
        }
        proof {
            assert forall|a: int, b: int| 0 <= a < b < i + 1 implies key_lt(#[trigger] pairs@[a].0@, #[trigger] pairs@[b].0@) by {
                if b == i && a < i - 1 {
                    lemma_key_lt_transitive(pairs@[a].0@, pairs@[i - 1].0@, pairs@[b].0@);
                }
            }
        }
        i = i + 1;
    }
    true
}

/// Whether the properties of a schema form an ordered map by name.
pub fn properties_are_ordered(props: &Vec<CibouletteSchemaProperty>) -> (r: bool)
    ensures
        r == properties_ordered(props@),
{
    let mut i: usize = 1;
    if props.len() == 0 {
        return true;
    }
    while i < props.len()
        invariant
            1 <= i <= props@.len(),
            forall|a: int, b: int| 0 <= a < b < i ==> key_lt(#[trigger] props@[a].name@, #[trigger] props@[b].name@),
        decreases props@.len() - i,
    {
        if !str_lt(props[i - 1].name.as_str(), props[i].name.as_str()) {
            return false;
        }
        proof {
            assert forall|a: int, b: int| 0 <= a < b < i + 1 implies key_lt(#[trigger] props@[a].name@, #[trigger] props@[b].name@) by {
                if b == i && a < i - 1 {
                    lemma_key_lt_transitive(props@[a].name@, props@[i - 1].name@, props@[b].name@);
                }
            }
        }
        i = i + 1;
    }
    true
}

/// A key never comes both before and after another.
pub proof fn lemma_key_lt_asymmetric(a: Seq<char>, b: Seq<char>)
    requires
        key_lt(a, b),
    ensures
        !key_lt(b, a),
    decreases a.len(),
{
    if a.len() > 0 && b.len() > 0 && a[0] == b[0] {
        lemma_key_lt_asymmetric(a.skip(1), b.skip(1));
    }
}

/// Of two different keys, one comes before the other.
pub proof fn lemma_key_lt_total(a: Seq<char>, b: Seq<char>)
    requires
        a != b,
    ensures
        key_lt(a, b) || key_lt(b, a),
    decreases a.len(),
{
    if a.len() > 0 && b.len() > 0 {
        if a[0] == b[0] {
            if a.skip(1) =~= b.skip(1) {
                assert(a =~= b) by {
                    assert forall|i: int| 0 <= i < a.len() implies a[i] == b[i] by {
                        if i > 0 {
                            assert(a[i] == a.skip(1)[i - 1]);
                            assert(b[i] == b.skip(1)[i - 1]);
                        }
                    }
                }
            }
            lemma_key_lt_total(a.skip(1), b.skip(1));
        } else {
            assert((a[0] as int) != (b[0] as int));
        }
    } else if a.len() == 0 && b.len() == 0 {
        assert(a =~= b);
    }
}

/// The ordered map `m` with the key `k` bound to `v`: the pair replaces the one of the same
/// key, or goes before the first greater key.
pub open spec fn ordered_insert<V>(m: Seq<(String, V)>, k: String, v: V) -> Seq<(String, V)>
    decreases m.len(),
{
    if m.len() == 0 {
        seq![(k, v)]
    } else if key_lt(k@, m[0].0@) {
        seq![(k, v)] + m
    } else if m[0].0@ == k@ {
        seq![(k, v)] + m.skip(1)
    } else {
        seq![m[0]] + ordered_insert(m.skip(1), k, v)
    }
}

/// Where `ordered_insert` puts a key: at the first key that is not before it.
pub proof fn lemma_ordered_insert_at<V>(m: Seq<(String, V)>, k: String, v: V, j: int)
    requires
        0 <= j <= m.len(),
        forall|i: int| 0 <= i < j ==> key_lt(#[trigger] m[i].0@, k@),
        j < m.len() ==> !key_lt(m[j].0@, k@),
    ensures
        ordered_insert(m, k, v) == if j < m.len() && m[j].0@ == k@ {
            m.update(j, (k, v))
        } else {
            m.insert(j, (k, v))
        },
    decreases j,
{
    if j == 0 {
        if m.len() == 0 {
            assert(m.insert(0, (k, v)) =~= seq![(k, v)]);
        } else if m[0].0@ == k@ {
            lemma_key_lt_irreflexive(k@);
            assert(m.update(0, (k, v)) =~= seq![(k, v)] + m.skip(1));
        } else {
            lemma_key_lt_total(k@, m[0].0@);
            assert(m.insert(0, (k, v)) =~= seq![(k, v)] + m);
        }
    } else {
        lemma_key_lt_asymmetric(m[0].0@, k@);
        lemma_key_lt_irreflexive(k@);
        let t = m.skip(1);
        assert forall|i: int| 0 <= i < j - 1 implies key_lt(#[trigger] t[i].0@, k@) by {
            assert(t[i] == m[i + 1]);
        }
        lemma_ordered_insert_at(t, k, v, j - 1);
        if j < m.len() && m[j].0@ == k@ {
            assert(m.update(j, (k, v)) =~= seq![m[0]] + t.update(j - 1, (k, v)));
        } else {
            assert(m.insert(j, (k, v)) =~= seq![m[0]] + t.insert(j - 1, (k, v)));
        }
    }
}

/// Binding a key keeps an ordered map ordered.
pub proof fn lemma_ordered_insert_ordered<V>(m: Seq<(String, V)>, k: String, v: V, j: int)
    requires
        keys_ordered(m),
        0 <= j <= m.len(),
        forall|i: int| 0 <= i < j ==> key_lt(#[trigger] m[i].0@, k@),
        j < m.len() ==> !key_lt(m[j].0@, k@),
    ensures
        keys_ordered(ordered_insert(m, k, v)),
{
    lemma_ordered_insert_at(m, k, v, j);
    let r = ordered_insert(m, k, v);
    if j < m.len() && m[j].0@ == k@ {
        assert forall|a: int, b: int| 0 <= a < b < r.len() implies key_lt(#[trigger] r[a].0@, #[trigger] r[b].0@) by {
            assert(r[a].0@ == m[a].0@ && r[b].0@ == m[b].0@);
        }
    } else {
        if j < m.len() {
            lemma_key_lt_total(k@, m[j].0@);
        }
        assert forall|a: int, b: int| 0 <= a < b < r.len() implies key_lt(#[trigger] r[a].0@, #[trigger] r[b].0@) by {
            if b < j {
                assert(r[a] == m[a] && r[b] == m[b]);
            } else if b == j {
                assert(r[a] == m[a] && r[b] == (k, v));
            } else if a < j {
                assert(r[a] == m[a] && r[b] == m[b - 1]);
                assert(key_lt(m[a].0@, k@));
                if b - 1 > j {
                    assert(key_lt(m[j].0@, m[b - 1].0@));
                    lemma_key_lt_transitive(k@, m[j].0@, m[b - 1].0@);
                }
                lemma_key_lt_transitive(m[a].0@, k@, m[b - 1].0@);
            } else if a == j {
                assert(r[a] == (k, v) && r[b] == m[b - 1]);
                if b - 1 > j {
                    assert(key_lt(m[j].0@, m[b - 1].0@));
                    lemma_key_lt_transitive(k@, m[j].0@, m[b - 1].0@);
                }
            } else {
                assert(r[a] == m[a - 1] && r[b] == m[b - 1]);
            }
        }
    }
}

/// Binds the key `k` to `v` in the ordered map `m`.
pub fn ordered_insert_exec<V>(m: &mut Vec<(String, V)>, k: String, v: V)
    requires
        keys_ordered(old(m)@),
    ensures
        final(m)@ == ordered_insert(old(m)@, k, v),
        keys_ordered(final(m)@),
{
    let mut j: usize = 0;
    while j < m.len() && str_lt(m[j].0.as_str(), k.as_str())
        invariant
            j <= m@.len(),
            forall|i: int| 0 <= i < j ==> key_lt(#[trigger] m@[i].0@, k@),
        decreases m@.len() - j,
    {
        j = j + 1;
    }
    proof {
        lemma_ordered_insert_at(m@, k, v, j as int);
        lemma_ordered_insert_ordered(m@, k, v, j as int);
    }
    if j < m.len() && str_eq(m[j].0.as_str(), k.as_str()) {
        m.set(j, (k, v));
    } else {
        m.insert(j, (k, v));
    }
}

} // verus!
