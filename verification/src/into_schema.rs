//! The blueprint-to-schema compiler: maps abstract type descriptors onto
//! concrete type references and turns each definition of a blueprint into
//! a schema-level type whose object fields carry an explicit resolver.

use vstd::prelude::*;

use crate::blueprint::ArgumentDefinition;
use crate::blueprint::Blueprint;
use crate::blueprint::Definition;
use crate::blueprint::DirectiveDefinition;
use crate::blueprint::Expression;
use crate::blueprint::FieldDefinition;
use crate::blueprint::InputFieldDefinition;
use crate::blueprint::Type;
use crate::http::clone_descriptor;
use crate::http::DescriptorKey;

verus! {

/// A concrete type reference of the compiled schema: a reference by name,
/// a list of an inner reference, or a reference wrapped in a required
/// (non-null) marker.
#[derive(Debug)]
pub enum TypeRef {
    Named(String),
    List(Box<TypeRef>),
    NonNull(Box<TypeRef>),
}

/// The mapping relation between an abstract type descriptor and a concrete
/// type reference: named types map to a reference by name, list types
/// recurse into the element and wrap, and a non-null marker is applied at
/// the outermost level only, so it is never doubled.
pub open spec fn is_mapped(t: Type, r: TypeRef) -> bool
    decreases t,
{
    match t {
        Type::NamedType { name, non_null } => {
            if non_null {
                r matches TypeRef::NonNull(inner) && *inner matches TypeRef::Named(n) && n@
                    == name@
            } else {
                r matches TypeRef::Named(n) && n@ == name@
            }
        },
        Type::ListType { of_type, non_null } => {
            if non_null {
                r matches TypeRef::NonNull(inner) && *inner matches TypeRef::List(el)
                    && is_mapped(*of_type, *el)
            } else {
                r matches TypeRef::List(el) && is_mapped(*of_type, *el)
            }
        },
    }
}

/// The deep equality of two type references: same shape, same names.
pub open spec fn ref_eq(a: TypeRef, b: TypeRef) -> bool
    decreases a,
{
    match (a, b) {
        (TypeRef::Named(x), TypeRef::Named(y)) => x@ == y@,
        (TypeRef::List(x), TypeRef::List(y)) => ref_eq(*x, *y),
        (TypeRef::NonNull(x), TypeRef::NonNull(y)) => ref_eq(*x, *y),
        _ => false,
    }
}

/// Mapping a type descriptor is deterministic: any two references that the
/// mapping relation admits for one descriptor are equal.
pub proof fn lemma_mapping_deterministic(t: Type, r1: TypeRef, r2: TypeRef)
    requires
        is_mapped(t, r1),
        is_mapped(t, r2),
    ensures
        ref_eq(r1, r2),
    decreases t,
{
    reveal_with_fuel(ref_eq, 3);
    reveal_with_fuel(is_mapped, 2);
    match t {
        Type::NamedType { name, non_null } => {},
        Type::ListType { of_type, non_null } => {
            if non_null {
                match (r1, r2) {
                    (TypeRef::NonNull(i1), TypeRef::NonNull(i2)) => match (*i1, *i2) {
                        (TypeRef::List(e1), TypeRef::List(e2)) => {
                            lemma_mapping_deterministic(*of_type, *e1, *e2);
                        },
                        _ => {},
                    },
                    _ => {},
                }
            } else {
                match (r1, r2) {
                    (TypeRef::List(e1), TypeRef::List(e2)) => {
                        lemma_mapping_deterministic(*of_type, *e1, *e2);
                    },
                    _ => {},
                }
            }
        },
    }
}

/// A non-null list of a non-null named type maps to a reference carrying
/// exactly two non-null markers: one around the list and one around the
/// element, and none anywhere else.
pub proof fn lemma_non_null_list_shape(name: String, r: TypeRef)
    requires
        is_mapped(
            Type::ListType {
                of_type: Box::new(Type::NamedType { name, non_null: true }),
                non_null: true,
            },
            r,
        ),
    ensures
        r matches TypeRef::NonNull(list_ref) && *list_ref matches TypeRef::List(el)
            && *el matches TypeRef::NonNull(named_ref) && *named_ref matches TypeRef::Named(n)
            && n@ == name@,
{
    reveal_with_fuel(is_mapped, 2);
}

/// Translate an abstract type descriptor into the schema's type-reference
/// representation. Pure and total over the closed descriptor grammar.
pub fn to_type_ref(type_of: &Type) -> (r: TypeRef)
    ensures
        is_mapped(*type_of, r),
    decreases *type_of,
{
    match type_of {
        Type::NamedType { name, non_null } => {
            if *non_null {
                TypeRef::NonNull(Box::new(TypeRef::Named(name.clone())))
            } else {
                TypeRef::Named(name.clone())
            }
        },
        Type::ListType { of_type, non_null } => {
            let inner = Box::new(to_type_ref(of_type));
            if *non_null {
                TypeRef::NonNull(Box::new(TypeRef::List(inner)))
            } else {
                TypeRef::List(inner)
            }
        },
    }
}

/// How a schema field produces its value: by projecting the field's name
/// out of the parent value, or by evaluating a resolver expression.
#[derive(Debug)]
pub enum FieldResolver {
    Projection,
    Expression(Expression),
}

/// A declared argument or input-object field of the compiled schema.
#[derive(Debug)]
pub struct SchemaInputValue {
    pub name: String,
    pub of_type: TypeRef,
}

/// A field of a compiled object type, carrying its resolver.
#[derive(Debug)]
pub struct SchemaField {
    pub name: String,
    pub of_type: TypeRef,
    pub args: Vec<SchemaInputValue>,
    pub resolver: FieldResolver,
}

/// A field of a compiled interface type: interfaces carry no resolvers.
#[derive(Debug)]
pub struct SchemaInterfaceField {
    pub name: String,
    pub of_type: TypeRef,
}

#[derive(Debug)]
pub struct SchemaObject {
    pub name: String,
    pub fields: Vec<SchemaField>,
    pub implements: Vec<String>,
}

#[derive(Debug)]
pub struct SchemaInterface {
    pub name: String,
    pub fields: Vec<SchemaInterfaceField>,
}

#[derive(Debug)]
pub struct SchemaInputObject {
    pub name: String,
    pub fields: Vec<SchemaInputValue>,
}

#[derive(Debug)]
pub struct SchemaScalar {
    pub name: String,
    pub description: Option<String>,
}

#[derive(Debug)]
pub struct SchemaEnum {
    pub name: String,
    pub items: Vec<String>,
}

#[derive(Debug)]
pub struct SchemaUnion {
    pub name: String,
    pub types: Vec<String>,
}

/// A compiled schema-level type, one variant per definition variant.
#[derive(Debug)]
pub enum SchemaType {
    Object(SchemaObject),
    Interface(SchemaInterface),
    InputObject(SchemaInputObject),
    Scalar(SchemaScalar),
    Enum(SchemaEnum),
    Union(SchemaUnion),
}

impl SchemaType {
    /// The name the compiled type declares.
    pub open spec fn spec_name(&self) -> Seq<char> {
        match self {
            SchemaType::Object(t) => t.name@,
            SchemaType::Interface(t) => t.name@,
            SchemaType::InputObject(t) => t.name@,
            SchemaType::Scalar(t) => t.name@,
            SchemaType::Enum(t) => t.name@,
            SchemaType::Union(t) => t.name@,
        }
    }
}

/// The deduplication key of the upstream call a resolver expression
/// issues: what identifies the expression's observable behaviour.
pub open spec fn expr_key(e: Expression) -> DescriptorKey {
    match e {
        Expression::Http(d) => d.key(),
    }
}

/// Cloning an expression keeps the call it issues.
pub fn clone_expression(e: &Expression) -> (r: Expression)
    ensures
        expr_key(r) == expr_key(*e),
{
    match e {
        Expression::Http(d) => Expression::Http(clone_descriptor(d)),
    }
}

/// Cloning a list of names keeps every name.
pub fn clone_names(v: &Vec<String>) -> (r: Vec<String>)
    ensures
        r@.len() == v@.len(),
        forall|i: int| 0 <= i < v@.len() ==> (#[trigger] r@[i])@ == v@[i]@,
{
    let mut out: Vec<String> = Vec::new();
    let n = v.len();
    let mut i: usize = 0;
    while i < n
        invariant
            n == v.len(),
            i <= n,
            out@.len() == i,
            forall|k: int| 0 <= k < i ==> (#[trigger] out@[k])@ == v@[k]@,
        decreases n - i,
    {
        out.push(v[i].clone());
        i += 1;
    }
    out
}

/// The compilation relation for one declared argument.
pub open spec fn compiled_arg(a: ArgumentDefinition, s: SchemaInputValue) -> bool {
    s.name@ == a.name@ && is_mapped(a.of_type, s.of_type)
}

/// The compilation relation for one input-object field.
pub open spec fn compiled_input_field(f: InputFieldDefinition, s: SchemaInputValue) -> bool {
    s.name@ == f.name@ && is_mapped(f.of_type, s.of_type)
}

/// The compilation relation for a field's resolver: a field without a
/// resolver expression becomes a projection, one with an expression keeps
/// exactly that expression's upstream call.
pub open spec fn compiled_resolver(r: Option<Expression>, fr: FieldResolver) -> bool {
    match r {
        None => fr is Projection,
        Some(e) => fr matches FieldResolver::Expression(e2) && expr_key(e2) == expr_key(e),
    }
}

/// The compilation relation for one object field: name and mapped type
/// kept, declared arguments attached in order, resolver wired as declared.
pub open spec fn compiled_field(f: FieldDefinition, s: SchemaField) -> bool {
    &&& s.name@ == f.name@
    &&& is_mapped(f.of_type, s.of_type)
    &&& s.args@.len() == f.args@.len()
    &&& forall|i: int| 0 <= i < f.args@.len() ==> compiled_arg(f.args@[i], #[trigger] s.args@[i])
    &&& compiled_resolver(f.resolver, s.resolver)
}

/// The compilation relation for one interface field.
pub open spec fn compiled_interface_field(f: FieldDefinition, s: SchemaInterfaceField) -> bool {
    s.name@ == f.name@ && is_mapped(f.of_type, s.of_type)
}

/// Two name lists that agree pointwise.
pub open spec fn names_match(a: Seq<String>, b: Seq<String>) -> bool {
    a.len() == b.len() && forall|i: int| 0 <= i < a.len() ==> (#[trigger] b[i])@ == a[i]@
}

/// The compilation relation between a blueprint definition and the
/// schema-level type built for it.
pub open spec fn compiled_definition(d: Definition, t: SchemaType) -> bool {
    match d {
        Definition::ObjectTypeDefinition(o) => {
            &&& t matches SchemaType::Object(so)
            &&& so.name@ == o.name@
            &&& so.fields@.len() == o.fields@.len()
            &&& forall|i: int|
                0 <= i < o.fields@.len() ==> compiled_field(o.fields@[i], #[trigger] so.fields@[i])
            &&& names_match(o.implements@, so.implements@)
        },
        Definition::InterfaceTypeDefinition(it) => {
            &&& t matches SchemaType::Interface(si)
            &&& si.name@ == it.name@
            &&& si.fields@.len() == it.fields@.len()
            &&& forall|i: int|
                0 <= i < it.fields@.len() ==> compiled_interface_field(
                    it.fields@[i],
                    #[trigger] si.fields@[i],
                )
        },
        Definition::InputObjectTypeDefinition(io) => {
            &&& t matches SchemaType::InputObject(si)
            &&& si.name@ == io.name@
            &&& si.fields@.len() == io.fields@.len()
            &&& forall|i: int|
                0 <= i < io.fields@.len() ==> compiled_input_field(
                    io.fields@[i],
                    #[trigger] si.fields@[i],
                )
        },
        Definition::ScalarTypeDefinition(sc) => {
            &&& t matches SchemaType::Scalar(ss)
            &&& ss.name@ == sc.name@
            &&& match (sc.description, ss.description) {
                (Some(a), Some(b)) => b@ == a@,
                (None, None) => true,
                _ => false,
            }
        },
        Definition::EnumTypeDefinition(en) => {
            &&& t matches SchemaType::Enum(se)
            &&& se.name@ == en.name@
            &&& se.items@.len() == en.enum_values@.len()
            &&& forall|i: int|
                0 <= i < en.enum_values@.len() ==> (#[trigger] se.items@[i])@
                    == en.enum_values@[i].name@
        },
        Definition::UnionTypeDefinition(un) => {
            &&& t matches SchemaType::Union(su)
            &&& su.name@ == un.name@
            &&& names_match(un.types@, su.types@)
        },
    }
}

/// Compile one object field: keep its name and mapped type, attach its
/// declared arguments, and wire the resolver the field declares.
fn to_field(field: &FieldDefinition) -> (r: SchemaField)
    ensures
        compiled_field(*field, r),
{
    let mut args: Vec<SchemaInputValue> = Vec::new();
    let n = field.args.len();
    let mut i: usize = 0;
    while i < n
        invariant
            n == field.args.len(),
            i <= n,
            args@.len() == i,
            forall|k: int|
                0 <= k < i ==> compiled_arg(field.args@[k], #[trigger] args@[k]),
        decreases n - i,
    {
        let arg = &field.args[i];
        args.push(SchemaInputValue { name: arg.name.clone(), of_type: to_type_ref(&arg.of_type) });
        i += 1;
    }
    let resolver = match &field.resolver {
        None => FieldResolver::Projection,
        Some(e) => FieldResolver::Expression(clone_expression(e)),
    };
    SchemaField {
        name: field.name.clone(),
        of_type: to_type_ref(&field.of_type),
        args,
        resolver,
    }
}

/// Turn one blueprint definition into the corresponding schema-level
/// type: objects get resolver-carrying fields, interfaces and input
/// objects get name/type fields, scalars keep their description, enums
/// one item per declared value, unions their member type names.
pub fn to_type(def: &Definition) -> (t: SchemaType)
    ensures
        compiled_definition(*def, t),
{
    match def {
        Definition::ObjectTypeDefinition(o) => {
            let mut fields: Vec<SchemaField> = Vec::new();
            let n = o.fields.len();
            let mut i: usize = 0;
            while i < n
                invariant
                    n == o.fields.len(),
                    i <= n,
                    fields@.len() == i,
                    forall|k: int|
                        0 <= k < i ==> compiled_field(o.fields@[k], #[trigger] fields@[k]),
                decreases n - i,
            {
                fields.push(to_field(&o.fields[i]));
                i += 1;
            }
            SchemaType::Object(
                SchemaObject {
                    name: o.name.clone(),
                    fields,
                    implements: clone_names(&o.implements),
                },
            )
        },
        Definition::InterfaceTypeDefinition(it) => {
            let mut fields: Vec<SchemaInterfaceField> = Vec::new();
            let n = it.fields.len();
            let mut i: usize = 0;
            while i < n
                invariant
                    n == it.fields.len(),
                    i <= n,
                    fields@.len() == i,
                    forall|k: int|
                        0 <= k < i ==> compiled_interface_field(
                            it.fields@[k],
                            #[trigger] fields@[k],
                        ),
                decreases n - i,
            {
                let f = &it.fields[i];
                fields.push(
                    SchemaInterfaceField {
                        name: f.name.clone(),
                        of_type: to_type_ref(&f.of_type),
                    },
                );
                i += 1;
            }
            SchemaType::Interface(SchemaInterface { name: it.name.clone(), fields })
        },
        Definition::InputObjectTypeDefinition(io) => {
            let mut fields: Vec<SchemaInputValue> = Vec::new();
            let n = io.fields.len();
            let mut i: usize = 0;
            while i < n
                invariant
                    n == io.fields.len(),
                    i <= n,
                    fields@.len() == i,
                    forall|k: int|
                        0 <= k < i ==> compiled_input_field(io.fields@[k], #[trigger] fields@[k]),
                decreases n - i,
            {
                let f = &io.fields[i];
                fields.push(
                    SchemaInputValue { name: f.name.clone(), of_type: to_type_ref(&f.of_type) },
                );
                i += 1;
            }
            SchemaType::InputObject(SchemaInputObject { name: io.name.clone(), fields })
        },
        Definition::ScalarTypeDefinition(sc) => {
            let description = match &sc.description {
                Some(d) => Some(d.clone()),
                None => None,
            };
            SchemaType::Scalar(SchemaScalar { name: sc.name.clone(), description })
        },
        Definition::EnumTypeDefinition(en) => {
            let mut items: Vec<String> = Vec::new();
            let n = en.enum_values.len();
            let mut i: usize = 0;
            while i < n
                invariant
                    n == en.enum_values.len(),
                    i <= n,
                    items@.len() == i,
                    forall|k: int|
                        0 <= k < i ==> (#[trigger] items@[k])@ == en.enum_values@[k].name@,
                decreases n - i,
            {
                items.push(en.enum_values[i].name.clone());
                i += 1;
            }
            SchemaType::Enum(SchemaEnum { name: en.name.clone(), items })
        },
        Definition::UnionTypeDefinition(un) => {
            SchemaType::Union(SchemaUnion { name: un.name.clone(), types: clone_names(&un.types) })
        },
    }
}

/// The compiled types of a blueprint, together with the root operation
/// names and the schema-level directives, before structural validation.
#[derive(Debug)]
pub struct SchemaBuilder {
    pub query: String,
    pub mutation: Option<String>,
    pub directives: Vec<DirectiveDefinition>,
    pub types: Vec<SchemaType>,
}

/// A structurally validated schema: what the server serves for its whole
/// lifetime.
#[derive(Debug)]
pub struct Schema {
    pub query: String,
    pub mutation: Option<String>,
    pub directives: Vec<DirectiveDefinition>,
    pub types: Vec<SchemaType>,
}

/// The compilation relation for a whole blueprint: roots kept, directives
/// kept, one compiled type per definition, in order.
pub open spec fn compiled_blueprint(bp: Blueprint, b: SchemaBuilder) -> bool {
    &&& b.query@ == bp.schema.query@
    &&& match (bp.schema.mutation, b.mutation) {
        (Some(m), Some(n)) => n@ == m@,
        (None, None) => true,
        _ => false,
    }
    &&& b.directives == bp.schema.directives
    &&& b.types@.len() == bp.definitions@.len()
    &&& forall|i: int|
        0 <= i < bp.definitions@.len() ==> compiled_definition(
            bp.definitions@[i],
            #[trigger] b.types@[i],
        )
}

/// Compile a blueprint: register one schema-level type per definition,
/// keeping the blueprint's order and root operation names. Runs once at
/// server start and never suspends.
pub fn create(blueprint: Blueprint) -> (b: SchemaBuilder)
    ensures
        compiled_blueprint(blueprint, b),
{
    let query = blueprint.query();
    let mutation = blueprint.mutation();
    let mut types: Vec<SchemaType> = Vec::new();
    let n = blueprint.definitions.len();
    let mut i: usize = 0;
    while i < n
        invariant
            n == blueprint.definitions.len(),
            i <= n,
            types@.len() == i,
            forall|k: int|
                0 <= k < i ==> compiled_definition(
                    blueprint.definitions@[k],
                    #[trigger] types@[k],
                ),
        decreases n - i,
    {
        types.push(to_type(&blueprint.definitions[i]));
        i += 1;
    }
    SchemaBuilder { query, mutation, directives: blueprint.schema.directives, types }
}

impl From<Blueprint> for SchemaBuilder {
    /// Compile the blueprint; the contract lives on `create`.
    fn from(blueprint: Blueprint) -> SchemaBuilder {
        create(blueprint)
    }
}

impl vstd::std_specs::convert::FromSpecImpl<Blueprint> for SchemaBuilder {
    open spec fn obeys_from_spec() -> bool {
        false
    }

    open spec fn from_spec(t: Blueprint) -> SchemaBuilder {
        vstd::pervasive::arbitrary()
    }
}

/// A structural compile failure: the schema build is rejected and the
/// server does not start.
#[derive(Debug)]
pub enum CompileError {
    /// Two declared types share this name.
    DuplicateTypeName(String),
    /// An object implements this interface, but no interface definition
    /// declares it.
    UndeclaredInterface(String),
    /// A field attaches an argument whose base type is neither declared
    /// nor a built-in scalar.
    UndeclaredArgumentType(String),
}

/// The name at the base of a type reference, under all list and non-null
/// wrappers.
pub open spec fn ref_base(r: TypeRef) -> Seq<char>
    decreases r,
{
    match r {
        TypeRef::Named(n) => n@,
        TypeRef::List(inner) => ref_base(*inner),
        TypeRef::NonNull(inner) => ref_base(*inner),
    }
}

/// The built-in scalar names that need no declaration.
pub open spec fn builtin_scalar(name: Seq<char>) -> bool {
    ||| name == "Int"@
    ||| name == "Float"@
    ||| name == "String"@
    ||| name == "Boolean"@
    ||| name == "ID"@
}

/// Whether some declared type carries this name.
pub open spec fn declares(types: Seq<SchemaType>, name: Seq<char>) -> bool {
    exists|i: int| 0 <= i < types.len() && (#[trigger] types[i]).spec_name() == name
}

/// Whether a compiled type is an interface carrying this name.
pub open spec fn is_interface_named(t: SchemaType, name: Seq<char>) -> bool {
    t matches SchemaType::Interface(it) && it.name@ == name
}

/// Whether some declared interface carries this name.
pub open spec fn declares_interface(types: Seq<SchemaType>, name: Seq<char>) -> bool {
    exists|i: int| 0 <= i < types.len() && is_interface_named(#[trigger] types[i], name)
}

/// All declared type names are pairwise distinct.
pub open spec fn names_unique(types: Seq<SchemaType>) -> bool {
    forall|i: int, j: int|
        0 <= i < j < types.len() ==> (#[trigger] types[i]).spec_name() != (
        #[trigger] types[j]).spec_name()
}

/// Every interface this type implements — where it is an object — is
/// declared among `types`.
pub open spec fn type_interfaces_declared(types: Seq<SchemaType>, t: SchemaType) -> bool {
    match t {
        SchemaType::Object(o) => forall|j: int|
            0 <= j < o.implements@.len() ==> declares_interface(
                types,
                (#[trigger] o.implements@[j])@,
            ),
        _ => true,
    }
}

/// Every interface an object implements is declared.
pub open spec fn interfaces_declared(types: Seq<SchemaType>) -> bool {
    forall|i: int| 0 <= i < types.len() ==> type_interfaces_declared(types, #[trigger] types[i])
}

/// Every argument this field attaches has a declared or built-in base
/// type.
pub open spec fn field_args_declared(types: Seq<SchemaType>, f: SchemaField) -> bool {
    forall|k: int|
        0 <= k < f.args@.len() ==> {
            let base = ref_base((#[trigger] f.args@[k]).of_type);
            declares(types, base) || builtin_scalar(base)
        }
}

/// Every argument any field of this type attaches — where it is an object
/// — has a declared or built-in base type.
pub open spec fn type_args_declared(types: Seq<SchemaType>, t: SchemaType) -> bool {
    match t {
        SchemaType::Object(o) => forall|j: int|
            0 <= j < o.fields@.len() ==> field_args_declared(types, #[trigger] o.fields@[j]),
        _ => true,
    }
}

/// Every argument a field attaches has a declared or built-in base type.
pub open spec fn arg_types_declared(types: Seq<SchemaType>) -> bool {
    forall|i: int| 0 <= i < types.len() ==> type_args_declared(types, #[trigger] types[i])
}

/// The structural conditions a compiled schema must meet before the
/// server may start.
pub open spec fn valid_types(types: Seq<SchemaType>) -> bool {
    names_unique(types) && interfaces_declared(types) && arg_types_declared(types)
}

/// The name the compiled type declares.
fn name_of(t: &SchemaType) -> (r: &String)
    ensures
        r@ == t.spec_name(),
{
    match t {
        SchemaType::Object(x) => &x.name,
        SchemaType::Interface(x) => &x.name,
        SchemaType::InputObject(x) => &x.name,
        SchemaType::Scalar(x) => &x.name,
        SchemaType::Enum(x) => &x.name,
        SchemaType::Union(x) => &x.name,
    }
}

/// The name at the base of a type reference.
fn base_name(r: &TypeRef) -> (b: &String)
    ensures
        b@ == ref_base(*r),
    decreases *r,
{
    match r {
        TypeRef::Named(n) => n,
        TypeRef::List(inner) => base_name(inner),
        TypeRef::NonNull(inner) => base_name(inner),
    }
}

#[verifier::loop_isolation(false)]
fn declares_name(types: &Vec<SchemaType>, name: &String) -> (r: bool)
    ensures
        r == declares(types@, name@),
{
    let n = types.len();
    let mut i: usize = 0;
    while i < n
        invariant
            i <= n,
            forall|m: int| 0 <= m < i ==> (#[trigger] types@[m]).spec_name() != name@,
        decreases n - i,
    {
        if name_of(&types[i]).eq(name) {
            return true;
        }
        i += 1;
    }
    false
}

#[verifier::loop_isolation(false)]
fn declares_interface_name(types: &Vec<SchemaType>, name: &String) -> (r: bool)
    ensures
        r == declares_interface(types@, name@),
{
    let n = types.len();
    let mut i: usize = 0;
    while i < n
        invariant
            i <= n,
            forall|m: int| 0 <= m < i ==> !is_interface_named(#[trigger] types@[m], name@),
        decreases n - i,
    {
        match &types[i] {
            SchemaType::Interface(it) => {
                if it.name.eq(name) {
                    return true;
                }
            },
            _ => {},
        }
        i += 1;
    }
    false
}

fn is_builtin_scalar(name: &String) -> (r: bool)
    ensures
        r == builtin_scalar(name@),
{
    name.eq(&String::from_str("Int")) || name.eq(&String::from_str("Float")) || name.eq(
        &String::from_str("String"),
    ) || name.eq(&String::from_str("Boolean")) || name.eq(&String::from_str("ID"))
}

impl SchemaBuilder {
    /// Validate the compiled types and produce the schema the server will
    /// serve. The build is rejected — and the server does not start —
    /// exactly when two declared types share a name, an object implements
    /// an undeclared interface, or a field attaches an argument whose base
    /// type is neither declared nor built in; the error names the offender.
    #[verifier::loop_isolation(false)]
    pub fn finish(self) -> (r: Result<Schema, CompileError>)
        ensures
            r is Ok <==> valid_types(self.types@),
            r matches Ok(s) ==> s.query == self.query && s.mutation == self.mutation
                && s.directives == self.directives && s.types == self.types,
            r matches Err(CompileError::DuplicateTypeName(n)) ==> exists|i: int, j: int|
                0 <= i < j < self.types@.len() && (#[trigger] self.types@[i]).spec_name() == (
                #[trigger] self.types@[j]).spec_name() && self.types@[j].spec_name() == n@,
            r matches Err(CompileError::UndeclaredInterface(n)) ==> !interfaces_declared(
                self.types@,
            ) && !declares_interface(self.types@, n@),
            r matches Err(CompileError::UndeclaredArgumentType(n)) ==> !arg_types_declared(
                self.types@,
            ) && !declares(self.types@, n@) && !builtin_scalar(n@),
    {
        let n = self.types.len();
        // Duplicate declared names.
        let mut i: usize = 0;
        while i < n
            invariant
                i <= n,
                forall|a: int, b: int|
                    0 <= a < b < n && a < i ==> (#[trigger] self.types@[a]).spec_name() != (
                    #[trigger] self.types@[b]).spec_name(),
            decreases n - i,
        {
            let mut j: usize = i + 1;
            while j < n
                invariant
                    i < j <= n,
                    forall|b: int|
                        i < b < j ==> (#[trigger] self.types@[b]).spec_name()
                            != self.types@[i as int].spec_name(),
                decreases n - j,
            {
                if name_of(&self.types[i]).eq(name_of(&self.types[j])) {
                    return Err(CompileError::DuplicateTypeName(name_of(&self.types[j]).clone()));
                }
                j += 1;
            }
            i += 1;
        }
        // Implemented interfaces and attached argument types.
        let mut i: usize = 0;
        while i < n
            invariant
                i <= n,
                names_unique(self.types@),
                forall|a: int|
                    0 <= a < i ==> type_interfaces_declared(self.types@, #[trigger] self.types@[a]),
                forall|a: int|
                    0 <= a < i ==> type_args_declared(self.types@, #[trigger] self.types@[a]),
            decreases n - i,
        {
            match &self.types[i] {
                SchemaType::Object(o) => {
                    let m = o.implements.len();
                    let mut j: usize = 0;
                    while j < m
                        invariant
                            j <= m,
                            forall|b: int|
                                0 <= b < j ==> declares_interface(
                                    self.types@,
                                    (#[trigger] o.implements@[b])@,
                                ),
                        decreases m - j,
                    {
                        if !declares_interface_name(&self.types, &o.implements[j]) {
                            return Err(
                                CompileError::UndeclaredInterface(o.implements[j].clone()),
                            );
                        }
                        j += 1;
                    }
                    let m = o.fields.len();
                    let mut j: usize = 0;
                    while j < m
                        invariant
                            j <= m,
                            forall|b: int|
                                0 <= b < j ==> field_args_declared(
                                    self.types@,
                                    #[trigger] o.fields@[b],
                                ),
                        decreases m - j,
                    {
                        let p = o.fields[j].args.len();
                        let mut k: usize = 0;
                        while k < p
                            invariant
                                k <= p,
                                forall|c: int|
                                    0 <= c < k ==> {
                                        let base = ref_base(
                                            (#[trigger] o.fields@[j as int].args@[c]).of_type,
                                        );
                                        declares(self.types@, base) || builtin_scalar(base)
                                    },
                            decreases p - k,
                        {
                            let base = base_name(&o.fields[j].args[k].of_type);
                            if !is_builtin_scalar(base) && !declares_name(&self.types, base) {
                                return Err(CompileError::UndeclaredArgumentType(base.clone()));
                            }
                            k += 1;
                        }
                        j += 1;
                    }
                },
                _ => {},
            }
            i += 1;
        }
        Ok(
            Schema {
                query: self.query,
                mutation: self.mutation,
                directives: self.directives,
                types: self.types,
            },
        )
    }
}

} // verus!
