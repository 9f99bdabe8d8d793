//! The blueprint: the validated, compiled intermediate representation of a
//! GraphQL schema plus resolver bindings. It is produced by the (external)
//! configuration layer, is immutable after construction, and is shared
//! read-only across all requests.

use vstd::prelude::*;

use crate::http::RequestDescriptor;

verus! {

/// An abstract type descriptor: a named type or a list of an inner
/// descriptor, each independently markable as non-null.
#[derive(Debug)]
pub enum Type {
    NamedType { name: String, non_null: bool },
    ListType { of_type: Box<Type>, non_null: bool },
}

/// A resolver expression attached to an object field. The expression
/// language at large is an external collaborator; the one operator this
/// core depends on is the upstream HTTP call.
#[derive(Debug)]
pub enum Expression {
    Http(RequestDescriptor),
}

/// An argument declared on an object field: a name and a type descriptor.
#[derive(Debug)]
pub struct ArgumentDefinition {
    pub name: String,
    pub of_type: Type,
}

/// A field of an object or interface definition. A field without a
/// resolver expression is a projection field: its value is read out of the
/// parent value by this field's name.
#[derive(Debug)]
pub struct FieldDefinition {
    pub name: String,
    pub of_type: Type,
    pub args: Vec<ArgumentDefinition>,
    pub resolver: Option<Expression>,
}

/// A field of an input object definition.
#[derive(Debug)]
pub struct InputFieldDefinition {
    pub name: String,
    pub of_type: Type,
}

/// One declared value of an enum definition.
#[derive(Debug)]
pub struct EnumValueDefinition {
    pub name: String,
}

#[derive(Debug)]
pub struct ObjectTypeDefinition {
    pub name: String,
    pub fields: Vec<FieldDefinition>,
    pub implements: Vec<String>,
}

#[derive(Debug)]
pub struct InterfaceTypeDefinition {
    pub name: String,
    pub fields: Vec<FieldDefinition>,
}

#[derive(Debug)]
pub struct InputObjectTypeDefinition {
    pub name: String,
    pub fields: Vec<InputFieldDefinition>,
}

#[derive(Debug)]
pub struct ScalarTypeDefinition {
    pub name: String,
    pub description: Option<String>,
}

#[derive(Debug)]
pub struct EnumTypeDefinition {
    pub name: String,
    pub enum_values: Vec<EnumValueDefinition>,
}

#[derive(Debug)]
pub struct UnionTypeDefinition {
    pub name: String,
    pub types: Vec<String>,
}

/// The closed set of definition variants of a blueprint.
#[derive(Debug)]
pub enum Definition {
    ObjectTypeDefinition(ObjectTypeDefinition),
    InterfaceTypeDefinition(InterfaceTypeDefinition),
    InputObjectTypeDefinition(InputObjectTypeDefinition),
    ScalarTypeDefinition(ScalarTypeDefinition),
    EnumTypeDefinition(EnumTypeDefinition),
    UnionTypeDefinition(UnionTypeDefinition),
}

/// A schema-level directive: its arguments are ambient environment entries
/// that resolvers may consume.
#[derive(Debug)]
pub struct DirectiveDefinition {
    pub name: String,
    pub arguments: Vec<(String, String)>,
}

/// Root operation names and schema-level directive metadata.
#[derive(Debug)]
pub struct SchemaDefinition {
    pub query: String,
    pub mutation: Option<String>,
    pub directives: Vec<DirectiveDefinition>,
}

/// The blueprint: an ordered list of definitions plus the root operation
/// names. The query root is always present; the mutation root is optional.
#[derive(Debug)]
pub struct Blueprint {
    pub definitions: Vec<Definition>,
    pub schema: SchemaDefinition,
}

impl Definition {
    /// The name the definition declares, whichever variant it is.
    pub open spec fn spec_name(&self) -> Seq<char> {
        match self {
            Definition::ObjectTypeDefinition(d) => d.name@,
            Definition::InterfaceTypeDefinition(d) => d.name@,
            Definition::InputObjectTypeDefinition(d) => d.name@,
            Definition::ScalarTypeDefinition(d) => d.name@,
            Definition::EnumTypeDefinition(d) => d.name@,
            Definition::UnionTypeDefinition(d) => d.name@,
        }
    }
}

impl Blueprint {
    /// The name of the query root operation type.
    pub fn query(&self) -> (r: String)
        ensures
            r@ == self.schema.query@,
    {
        self.schema.query.clone()
    }

    /// The name of the mutation root operation type, where one is declared.
    pub fn mutation(&self) -> (r: Option<String>)
        ensures
            match r {
                Some(m) => self.schema.mutation matches Some(n) && m@ == n@,
                None => self.schema.mutation is None,
            },
    {
        match &self.schema.mutation {
            Some(m) => Some(m.clone()),
            None => None,
        }
    }
}

} // verus!
