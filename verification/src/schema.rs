//! The restricted JSON-Schema object model that component schemas and
//! parameter schemas are given in.

use vstd::prelude::*;
use crate::json::{JsonMember, JsonValue};

verus! {

/// The `type` keyword of a schema.
#[derive(Debug, PartialEq, Eq, Clone, Copy)]
pub enum InstanceType {
    Null,
    Boolean,
    Object,
    Array,
    Number,
    String,
    Integer,
}

/// A `type` keyword that names one type or a list of them.
#[derive(Debug, PartialEq)]
pub enum SchemaTypes {
    Single(InstanceType),
    Multiple(Vec<InstanceType>),
}

/// An `items` keyword that holds one schema or a tuple of them.
#[derive(Debug, PartialEq)]
pub enum ArrayItems {
    Single(Box<Schema>),
    Multiple(Vec<Schema>),
}

/// A schema: `true`, `false`, or an object of keywords.
#[derive(Debug, PartialEq)]
pub enum Schema {
    Bool(bool),
    Object(SchemaObject),
}

/// The keywords of a schema object that the generator reads.
#[derive(Debug, PartialEq)]
pub struct SchemaObject {
    pub metadata: Option<Metadata>,
    pub instance_type: Option<SchemaTypes>,
    pub format: Option<String>,
    pub enum_values: Option<Vec<JsonValue>>,
    pub const_value: Option<JsonValue>,
    pub subschemas: Option<Box<SubschemaValidation>>,
    pub array: Option<Box<ArrayValidation>>,
    pub object: Option<Box<ObjectValidation>>,
    pub reference: Option<String>,
    pub extensions: Vec<JsonMember>,
}

/// Annotations of a schema.
#[derive(Debug, PartialEq)]
pub struct Metadata {
    pub description: Option<String>,
    pub default: Option<JsonValue>,
    pub deprecated: bool,
}

/// Keywords that combine subschemas.
#[derive(Debug, PartialEq)]
pub struct SubschemaValidation {
    pub all_of: Option<Vec<Schema>>,
    pub any_of: Option<Vec<Schema>>,
    pub one_of: Option<Vec<Schema>>,
    pub not: Option<Box<Schema>>,
    pub if_schema: Option<Box<Schema>>,
    pub then_schema: Option<Box<Schema>>,
    pub else_schema: Option<Box<Schema>>,
}

/// Keywords that apply to arrays.
#[derive(Debug, PartialEq)]
pub struct ArrayValidation {
    pub items: Option<ArrayItems>,
    pub additional_items: Option<Box<Schema>>,
    pub unique_items: Option<bool>,
}

/// A named property of an object schema.
#[derive(Debug, PartialEq)]
pub struct Property {
    pub name: String,
    pub schema: Schema,
}

/// Keywords that apply to objects.
#[derive(Debug, PartialEq)]
pub struct ObjectValidation {
    pub max_properties: Option<u32>,
    pub min_properties: Option<u32>,
    pub required: Vec<String>,
    pub properties: Vec<Property>,
    pub pattern_properties: Vec<Property>,
    pub additional_properties: Option<Box<Schema>>,
    pub property_names: Option<Box<Schema>>,
}

/// Whether `name` is one of `names`.
pub open spec fn names_contain(names: Seq<String>, name: Seq<char>) -> bool {
    exists|i: int| 0 <= i < names.len() && #[trigger] names[i]@ == name
}

/// Whether `name` is one of `names`.
pub fn contains_name(names: &Vec<String>, name: &str) -> (r: bool)
    ensures
        r == names_contain(names@, name@),
{
    let mut i: usize = 0;
    while i < names.len()
        invariant
            i <= names.len(),
            forall|j: int| 0 <= j < i ==> names[j]@ != name@,
        decreases names.len() - i,
    {
        if crate::text::str_eq(names[i].as_str(), name) {
            return true;
        }
        i += 1;
    }
    false
}

impl SchemaObject {
    /// A schema object with no keyword set.
    pub fn empty() -> (r: SchemaObject)
        ensures
            r.metadata is None,
            r.instance_type is None,
            r.format is None,
            r.enum_values is None,
            r.const_value is None,
            r.subschemas is None,
            r.array is None,
            r.object is None,
            r.reference is None,
            r.extensions@.len() == 0,
    {
        SchemaObject {
            metadata: None,
            instance_type: None,
            format: None,
            enum_values: None,
            const_value: None,
            subschemas: None,
            array: None,
            object: None,
            reference: None,
            extensions: Vec::new(),
        }
    }

    /// Whether the schema is a `$ref`.
    pub fn is_ref(&self) -> (r: bool)
        ensures
            r == self.reference is Some,
    {
        self.reference.is_some()
    }
}

impl ObjectValidation {
    /// Object keywords with nothing set.
    pub fn empty() -> (r: ObjectValidation)
        ensures
            r.max_properties is None,
            r.min_properties is None,
            r.required@.len() == 0,
            r.properties@.len() == 0,
            r.pattern_properties@.len() == 0,
            r.additional_properties is None,
            r.property_names is None,
    {
        ObjectValidation {
            max_properties: None,
            min_properties: None,
            required: Vec::new(),
            properties: Vec::new(),
            pattern_properties: Vec::new(),
            additional_properties: None,
            property_names: None,
        }
    }
}

} // verus!
