//! Why a schema falls outside the supported subset.

use vstd::prelude::*;

verus! {

/// The reason a schema cannot be turned into a type or a field type.
#[derive(Debug, PartialEq, Eq, Clone, Copy)]
pub enum SchemaError {
    /// A parameter gives `content` where a schema is expected.
    ContentFormat,
    /// A boolean schema stands where an object schema is expected.
    BoolSchema,
    /// An integer without one of the known width formats.
    UnsupportedIntegerFormat,
    /// A `const`, or the single `enum` value, that is not a string.
    NonStringConst,
    /// A string field with an `enum` of other than one value.
    EnumAsFieldType,
    /// A string with a format other than the known ones.
    UnsupportedStringFormat,
    /// An array without array keywords.
    ArrayWithoutProps,
    /// An array with `additionalItems`.
    AdditionalItems,
    /// An array without `items`.
    ArrayWithoutItems,
    /// An array whose `items` is a tuple of schemas.
    MultiTypedArray,
    /// An object without object keywords.
    ObjectWithoutValidation,
    /// An object field without `additionalProperties`.
    ObjectWithoutAdditionalProperties,
    /// `additionalProperties` on a named object type.
    AdditionalProperties,
    /// `additionalProperties: false` on an object field.
    AdditionalPropertiesFalse,
    MaxProperties,
    MinProperties,
    /// Inline `properties` on an object field.
    PropertiesOnFieldType,
    PatternProperties,
    PropertyNames,
    /// `required` on an object field.
    RequiredOnFieldType,
    /// A type other than the supported ones.
    UnsupportedType,
    /// A list of types.
    MultipleTypes,
    /// Neither a type nor a usable `$ref`.
    TypelessParameter,
    /// No `type` on a named schema.
    NoType,
    /// A `const` on a field that is not a string.
    ConstValue,
    /// An `enum` on a field that is not a string.
    EnumValues,
    /// An integer type without `x-enum-varnames`.
    IntegerWithoutVarnames,
    /// `x-enum-varnames` that is not a list.
    VarnamesNotList,
    /// An integer type without `enum`.
    IntegerWithoutEnumValues,
    /// `x-enum-varnames` and `enum` of different lengths.
    VarnamesLengthMismatch,
    /// A string type without `enum`.
    StringWithoutEnumValues,
    /// A value of a string enum that is not a string.
    EnumValueNotString,
    /// A value of an integer enum that is a number but no 64-bit integer.
    EnumValueNotInteger,
    /// A value of an integer enum that is not a number.
    EnumValueNotNumber,
    /// A name among `x-enum-varnames` that is not a string.
    EnumVarnameNotString,
    AllOf,
    AnyOf,
    Not,
    If,
    Then,
    Else,
    /// A one-valued `enum` in a variant whose value is not a string.
    DiscriminatorNotString,
    /// A variant without a one-valued string `enum` property.
    NoDiscriminator,
    /// Variants that name different discriminator fields.
    DiscriminatorMismatch,
    /// Variants that name different content fields.
    ContentFieldMismatch,
    /// A variant with no property, or with more than two.
    VariantPropertyCount,
    /// A variant whose content is neither an inline object nor a `$ref`.
    NoContent,
    /// A `$ref` that does not point into the component schemas.
    ForeignReference,
    /// A `oneOf` without variants.
    NoDiscriminatorField,
    /// A `oneOf` in which no variant has content.
    NoContentField,
}

} // verus!
