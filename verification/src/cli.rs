//! The computational side of the command-line layer: the rendering of a
//! blueprint's schema, the sorted endpoint log, the event name derived
//! from a command, and the decisions behind project initialisation. The
//! prompting, file handling and process glue around these stay outside
//! the library.

use convert_case::Case;
use convert_case::Casing;
use vstd::prelude::*;
use vstd::multiset::Multiset;
use vstd::utf8::encode_utf8;

use crate::blueprint::ArgumentDefinition;
use crate::blueprint::Blueprint;
use crate::blueprint::Definition;
use crate::blueprint::EnumValueDefinition;
use crate::blueprint::FieldDefinition;
use crate::blueprint::InputFieldDefinition;
use crate::blueprint::SchemaDefinition;
use crate::blueprint::Type;
use crate::http::Method;

verus! {

broadcast use vstd::seq_lib::group_to_multiset_ensures;

/// The path under which checked REST endpoints are served.
pub const API_URL_PREFIX: &'static str = "/api";

/// One checked REST endpoint: its method and its path.
#[derive(Debug)]
pub struct Endpoint {
    pub method: Method,
    pub path: String,
}

/// The set of REST endpoints a configuration declares.
#[derive(Debug)]
pub struct EndpointSet {
    pub endpoints: Vec<Endpoint>,
}

/// Lexicographic order on byte sequences.
pub open spec fn bytes_le(a: Seq<u8>, b: Seq<u8>) -> bool
    decreases a.len(),
{
    if a.len() == 0 {
        true
    } else if b.len() == 0 {
        false
    } else if a[0] != b[0] {
        a[0] < b[0]
    } else {
        bytes_le(a.drop_first(), b.drop_first())
    }
}

proof fn lemma_bytes_le_total(a: Seq<u8>, b: Seq<u8>)
    ensures
        bytes_le(a, b) || bytes_le(b, a),
    decreases a.len(),
{
    if a.len() > 0 && b.len() > 0 && a[0] == b[0] {
        lemma_bytes_le_total(a.drop_first(), b.drop_first());
    }
}

proof fn lemma_bytes_le_trans(a: Seq<u8>, b: Seq<u8>, c: Seq<u8>)
    requires
        bytes_le(a, b),
        bytes_le(b, c),
    ensures
        bytes_le(a, c),
    decreases a.len(),
{
    if a.len() > 0 && b.len() > 0 && c.len() > 0 && a[0] == b[0] && b[0] == c[0] {
        lemma_bytes_le_trans(a.drop_first(), b.drop_first(), c.drop_first());
    }
}

/// The order in which endpoints are logged: by the method's name, then by
/// the path's bytes. The method ranks follow the wire names' alphabetical
/// order.
pub open spec fn endpoint_le(a: Endpoint, b: Endpoint) -> bool {
    if a.method.spec_rank() != b.method.spec_rank() {
        a.method.spec_rank() < b.method.spec_rank()
    } else {
        bytes_le(encode_utf8(a.path@), encode_utf8(b.path@))
    }
}

proof fn lemma_endpoint_le_total(a: Endpoint, b: Endpoint)
    ensures
        endpoint_le(a, b) || endpoint_le(b, a),
{
    lemma_bytes_le_total(encode_utf8(a.path@), encode_utf8(b.path@));
}

proof fn lemma_endpoint_le_trans(a: Endpoint, b: Endpoint, c: Endpoint)
    requires
        endpoint_le(a, b),
        endpoint_le(b, c),
    ensures
        endpoint_le(a, c),
{
    if a.method.spec_rank() == b.method.spec_rank() && b.method.spec_rank()
        == c.method.spec_rank() {
        lemma_bytes_le_trans(
            encode_utf8(a.path@),
            encode_utf8(b.path@),
            encode_utf8(c.path@),
        );
    }
}

/// Lexicographic comparison of two byte slices.
fn le_bytes(a: &[u8], b: &[u8]) -> (r: bool)
    ensures
        r == bytes_le(a@, b@),
{
    let alen = a.len();
    let blen = b.len();
    let mut i: usize = 0;
    proof {
        assert(a@.skip(0) =~= a@);
        assert(b@.skip(0) =~= b@);
    }
    while i < alen && i < blen
        invariant
            i <= alen,
            i <= blen,
            alen == a@.len(),
            blen == b@.len(),
            bytes_le(a@, b@) == bytes_le(a@.skip(i as int), b@.skip(i as int)),
        decreases alen - i,
    {
        let x = a[i];
        let y = b[i];
        proof {
            assert(a@.skip(i as int)[0] == a@[i as int]);
            assert(b@.skip(i as int)[0] == b@[i as int]);
        }
        if x < y {
            return true;
        }
        if x > y {
            return false;
        }
        proof {
            assert(a@.skip(i as int).drop_first() =~= a@.skip(i + 1));
            assert(b@.skip(i as int).drop_first() =~= b@.skip(i + 1));
        }
        i += 1;
    }
    proof {
        if i == alen {
            assert(a@.skip(i as int).len() == 0);
        } else {
            assert(b@.skip(i as int).len() == 0);
            assert(a@.skip(i as int).len() > 0);
        }
    }
    i == alen
}

/// Compare two endpoints in log order.
fn le_endpoint(a: &Endpoint, b: &Endpoint) -> (r: bool)
    ensures
        r == endpoint_le(*a, *b),
{
    let ra = a.method.rank();
    let rb = b.method.rank();
    if ra != rb {
        ra < rb
    } else {
        le_bytes(a.path.as_str().as_bytes(), b.path.as_str().as_bytes())
    }
}

/// Copying an endpoint keeps its value.
fn clone_endpoint(e: &Endpoint) -> (r: Endpoint)
    ensures
        r == *e,
{
    Endpoint { method: e.method, path: e.path.clone() }
}

/// The endpoints of a set, in log order: a permutation of the declared
/// endpoints sorted by method name, then path.
pub fn sorted_endpoints(set: &EndpointSet) -> (r: Vec<Endpoint>)
    ensures
        r@.to_multiset() == set.endpoints@.to_multiset(),
        vstd::relations::sorted_by(r@, |a: Endpoint, b: Endpoint| endpoint_le(a, b)),
{
    let ghost leq = |a: Endpoint, b: Endpoint| endpoint_le(a, b);
    let mut work: Vec<Endpoint> = Vec::new();
    let n = set.endpoints.len();
    let mut i: usize = 0;
    while i < n
        invariant
            n == set.endpoints.len(),
            i <= n,
            work@.len() == i,
            forall|k: int| 0 <= k < i ==> #[trigger] work@[k] == set.endpoints@[k],
        decreases n - i,
    {
        work.push(clone_endpoint(&set.endpoints[i]));
        i += 1;
    }
    proof {
        assert(work@ =~= set.endpoints@);
    }
    let mut out: Vec<Endpoint> = Vec::new();
    while work.len() > 0
        invariant
            out@.to_multiset().add(work@.to_multiset()) == set.endpoints@.to_multiset(),
            vstd::relations::sorted_by(out@, leq),
            leq == (|a: Endpoint, b: Endpoint| endpoint_le(a, b)),
            forall|x: int, y: int|
                0 <= x < out@.len() && 0 <= y < work@.len() ==> endpoint_le(
                    #[trigger] out@[x],
                    #[trigger] work@[y],
                ),
        decreases work.len(),
    {
        let mut m: usize = 0;
        let mut j: usize = 1;
        proof {
            lemma_endpoint_le_total(work@[0], work@[0]);
        }
        while j < work.len()
            invariant
                m < j <= work@.len(),
                work@.len() > 0,
                forall|k: int| 0 <= k < j ==> endpoint_le(work@[m as int], #[trigger] work@[k]),
            decreases work.len() - j,
        {
            if le_endpoint(&work[j], &work[m]) {
                proof {
                    assert forall|k: int| 0 <= k < j + 1 implies endpoint_le(
                        work@[j as int],
                        #[trigger] work@[k],
                    ) by {
                        if k == j {
                            lemma_endpoint_le_total(work@[j as int], work@[j as int]);
                        } else {
                            lemma_endpoint_le_trans(work@[j as int], work@[m as int], work@[k]);
                        }
                    }
                }
                m = j;
            } else {
                proof {
                    lemma_endpoint_le_total(work@[m as int], work@[j as int]);
                }
            }
            j += 1;
        }
        let ghost pre_out = out@;
        let ghost pre_work = work@;
        let e = work.remove(m);
        out.push(e);
        proof {
            assert(pre_work.to_multiset().count(e) > 0) by {
                assert(pre_work[m as int] == e);
                assert(pre_work.contains(e));
            }
            assert(out@.to_multiset().add(work@.to_multiset()) =~= pre_out.to_multiset().add(
                pre_work.to_multiset(),
            ));
            assert forall|x: int, y: int|
                0 <= x < out@.len() && 0 <= y < work@.len() implies endpoint_le(
                #[trigger] out@[x],
                #[trigger] work@[y],
            ) by {
                assert(work@[y] == if y < m { pre_work[y] } else { pre_work[y + 1] });
                if x < pre_out.len() {
                    assert(out@[x] == pre_out[x]);
                } else {
                    assert(out@[x] == e);
                }
            }
            assert(vstd::relations::sorted_by(out@, leq)) by {
                assert forall|x: int, y: int| 0 <= x < y < out@.len() implies leq(
                    out@[x],
                    out@[y],
                ) by {
                    if y < pre_out.len() {
                        assert(vstd::relations::sorted_by(pre_out, leq));
                        assert(leq(pre_out[x], pre_out[y]));
                    } else {
                        assert(out@[y] == e);
                        assert(endpoint_le(pre_out[x], pre_work[m as int]));
                    }
                }
            }
        }
    }
    proof {
        assert(work@.to_multiset() =~= Multiset::<Endpoint>::empty());
        assert(out@.to_multiset() =~= set.endpoints@.to_multiset());
    }
    out
}

/// The log line reported for one checked endpoint.
pub open spec fn endpoint_log_line(e: Endpoint) -> Seq<char> {
    "Endpoint: "@ + e.method.spec_name() + " "@ + API_URL_PREFIX@ + e.path@ + " ... ok"@
}

/// One log line per checked endpoint, in log order: the lines of some
/// permutation of the declared endpoints that is sorted by method name,
/// then path.
pub fn log_endpoint_set(endpoint_set: &EndpointSet) -> (r: Vec<String>)
    ensures
        r@.len() == endpoint_set.endpoints@.len(),
        exists|s: Seq<Endpoint>|
            #![trigger s.to_multiset()]
            {
                &&& s.to_multiset() == endpoint_set.endpoints@.to_multiset()
                &&& vstd::relations::sorted_by(s, |a: Endpoint, b: Endpoint| endpoint_le(a, b))
                &&& s.len() == r@.len()
                &&& forall|i: int| 0 <= i < s.len() ==> (#[trigger] r@[i])@ == endpoint_log_line(s[i])
            },
{
    let sorted = sorted_endpoints(endpoint_set);
    proof {
        assert(sorted@.len() == sorted@.to_multiset().len());
        assert(endpoint_set.endpoints@.len() == endpoint_set.endpoints@.to_multiset().len());
    }
    let mut lines: Vec<String> = Vec::new();
    let n = sorted.len();
    let mut i: usize = 0;
    while i < n
        invariant
            n == sorted@.len(),
            i <= n,
            lines@.len() == i,
            forall|k: int|
                0 <= k < i ==> (#[trigger] lines@[k])@ == endpoint_log_line(sorted@[k]),
        decreases n - i,
    {
        let e = &sorted[i];
        let line = String::from_str("Endpoint: ").concat(e.method.name()).concat(" ").concat(
            API_URL_PREFIX,
        ).concat(e.path.as_str()).concat(" ... ok");
        proof {
            assert(line@ =~= endpoint_log_line(sorted@[i as int]));
        }
        lines.push(line);
        i += 1;
    }
    proof {
        let leq = |a: Endpoint, b: Endpoint| endpoint_le(a, b);
        assert(sorted@.to_multiset() == endpoint_set.endpoints@.to_multiset()
            && vstd::relations::sorted_by(sorted@, leq) && sorted@.len() == lines@.len() && forall|
            i: int,
        | 0 <= i < sorted@.len() ==> (#[trigger] lines@[i])@ == endpoint_log_line(sorted@[i]));
    }
    lines
}

/// What `str::to_case` with the snake-case target returns: a function of
/// the input characters alone.
pub uninterp spec fn snake_of(s: Seq<char>) -> Seq<char>;

/// Relies on convert_case's `Casing::to_case` with `Case::Snake`: the
/// result is derived from the input's characters alone, delimiting words
/// with underscores and lowercasing them.
#[verifier::external_body]
fn to_snake_case(s: &str) -> (r: String)
    ensures
        r@ == snake_of(s@),
{
    s.to_case(Case::Snake)
}

/// The telemetry event name recorded for a command: the command's display
/// name rendered in snake case.
pub fn command_event_name(command: &str) -> (r: String)
    ensures
        r@ == snake_of(command@),
{
    to_snake_case(command)
}

/// Whether some entry of the list reads as `name`.
pub open spec fn contains_name(entries: Seq<String>, name: Seq<char>) -> bool {
    exists|i: int| 0 <= i < entries.len() && (#[trigger] entries[i])@ == name
}

/// Make sure a schema list names an entry: an absent entry is appended
/// and the flag reports the addition; a present entry leaves the list
/// unchanged.
#[verifier::loop_isolation(false)]
pub fn ensure_schema_entry(entries: Vec<String>, entry: &String) -> (r: (Vec<String>, bool))
    ensures
        r.1 == !contains_name(entries@, entry@),
        !r.1 ==> r.0 == entries,
        r.1 ==> r.0@.len() == entries@.len() + 1 && (forall|i: int|
            0 <= i < entries@.len() ==> #[trigger] r.0@[i] == entries@[i]) && r.0@.last()@
            == entry@,
{
    let n = entries.len();
    let mut i: usize = 0;
    while i < n
        invariant
            i <= n,
            forall|k: int| 0 <= k < i ==> (#[trigger] entries@[k])@ != entry@,
        decreases n - i,
    {
        if entries[i].eq(entry) {
            return (entries, false);
        }
        i += 1;
    }
    let mut extended = entries;
    extended.push(entry.clone());
    (extended, true)
}

/// The file formats an initial configuration can be generated in.
#[derive(Clone, Copy, Debug, PartialEq, Eq, Structural)]
pub enum FileFormat {
    Graphql,
    Json,
    Yaml,
}

impl FileFormat {
    /// The file extension the format uses.
    pub open spec fn spec_extension(&self) -> Seq<char> {
        match self {
            FileFormat::Graphql => ".graphql"@,
            FileFormat::Json => ".json"@,
            FileFormat::Yaml => ".yaml"@,
        }
    }
}

/// The name of the initial configuration file generated for a project:
/// the project's name followed by the format's extension.
pub fn config_file_name(project_name: &String, format: FileFormat) -> (r: String)
    ensures
        r@ == project_name@ + format.spec_extension(),
{
    let ext = match format {
        FileFormat::Graphql => ".graphql",
        FileFormat::Json => ".json",
        FileFormat::Yaml => ".yaml",
    };
    project_name.clone().concat(ext)
}

/// The rendering of a type descriptor in schema-definition syntax.
pub open spec fn sdl_type(t: Type) -> Seq<char>
    decreases t,
{
    match t {
        Type::NamedType { name, non_null } => if non_null {
            name@ + "!"@
        } else {
            name@
        },
        Type::ListType { of_type, non_null } => if non_null {
            "["@ + sdl_type(*of_type) + "]!"@
        } else {
            "["@ + sdl_type(*of_type) + "]"@
        },
    }
}

/// The rendering of one declared argument.
pub open spec fn sdl_arg(a: ArgumentDefinition) -> Seq<char> {
    a.name@ + ": "@ + sdl_type(a.of_type)
}

/// The rendering of an argument list, comma-separated.
pub open spec fn sdl_args(args: Seq<ArgumentDefinition>) -> Seq<char>
    decreases args.len(),
{
    if args.len() == 0 {
        Seq::<char>::empty()
    } else if args.len() == 1 {
        sdl_arg(args[0])
    } else {
        sdl_args(args.drop_last()) + ", "@ + sdl_arg(args.last())
    }
}

/// The rendering of one object or interface field.
pub open spec fn sdl_field(f: FieldDefinition) -> Seq<char> {
    "  "@ + f.name@ + (if f.args@.len() == 0 {
        Seq::<char>::empty()
    } else {
        "("@ + sdl_args(f.args@) + ")"@
    }) + ": "@ + sdl_type(f.of_type) + "\n"@
}

/// The rendering of a field block.
pub open spec fn sdl_fields(fields: Seq<FieldDefinition>) -> Seq<char>
    decreases fields.len(),
{
    if fields.len() == 0 {
        Seq::<char>::empty()
    } else {
        sdl_fields(fields.drop_last()) + sdl_field(fields.last())
    }
}

/// The rendering of one input-object field.
pub open spec fn sdl_input_field(f: InputFieldDefinition) -> Seq<char> {
    "  "@ + f.name@ + ": "@ + sdl_type(f.of_type) + "\n"@
}

/// The rendering of an input-object field block.
pub open spec fn sdl_input_fields(fields: Seq<InputFieldDefinition>) -> Seq<char>
    decreases fields.len(),
{
    if fields.len() == 0 {
        Seq::<char>::empty()
    } else {
        sdl_input_fields(fields.drop_last()) + sdl_input_field(fields.last())
    }
}

/// The rendering of an enum's value block.
pub open spec fn sdl_enum_values(values: Seq<EnumValueDefinition>) -> Seq<char>
    decreases values.len(),
{
    if values.len() == 0 {
        Seq::<char>::empty()
    } else {
        sdl_enum_values(values.drop_last()) + "  "@ + values.last().name@ + "\n"@
    }
}

/// A list of names joined by a separator.
pub open spec fn join_names(names: Seq<String>, sep: Seq<char>) -> Seq<char>
    decreases names.len(),
{
    if names.len() == 0 {
        Seq::<char>::empty()
    } else if names.len() == 1 {
        names[0]@
    } else {
        join_names(names.drop_last(), sep) + sep + names.last()@
    }
}

/// The rendering of an object's implements clause: empty where the object
/// implements nothing.
pub open spec fn sdl_implements(names: Seq<String>) -> Seq<char> {
    if names.len() == 0 {
        Seq::<char>::empty()
    } else {
        " implements "@ + join_names(names, " & "@)
    }
}

/// The rendering of one definition.
pub open spec fn sdl_definition(d: Definition) -> Seq<char> {
    match d {
        Definition::ObjectTypeDefinition(o) => "type "@ + o.name@ + sdl_implements(o.implements@)
            + " {\n"@ + sdl_fields(o.fields@) + "}\n"@,
        Definition::InterfaceTypeDefinition(it) => "interface "@ + it.name@ + " {\n"@ + sdl_fields(
            it.fields@,
        ) + "}\n"@,
        Definition::InputObjectTypeDefinition(io) => "input "@ + io.name@ + " {\n"@
            + sdl_input_fields(io.fields@) + "}\n"@,
        Definition::ScalarTypeDefinition(sc) => "scalar "@ + sc.name@ + "\n"@,
        Definition::EnumTypeDefinition(en) => "enum "@ + en.name@ + " {\n"@ + sdl_enum_values(
            en.enum_values@,
        ) + "}\n"@,
        Definition::UnionTypeDefinition(un) => "union "@ + un.name@ + " = "@ + join_names(
            un.types@,
            " | "@,
        ) + "\n"@,
    }
}

/// The rendering of a blueprint's definitions, one blank line before
/// each.
pub open spec fn sdl_definitions(defs: Seq<Definition>) -> Seq<char>
    decreases defs.len(),
{
    if defs.len() == 0 {
        Seq::<char>::empty()
    } else {
        sdl_definitions(defs.drop_last()) + "\n"@ + sdl_definition(defs.last())
    }
}

/// The rendering of the schema block naming the root operation types.
pub open spec fn sdl_schema_block(s: SchemaDefinition) -> Seq<char> {
    "schema {\n  query: "@ + s.query@ + "\n"@ + (match s.mutation {
        Some(m) => "  mutation: "@ + m@ + "\n"@,
        None => Seq::<char>::empty(),
    }) + "}\n"@
}

/// The full rendering of a blueprint in schema-definition syntax.
pub open spec fn sdl_blueprint(bp: Blueprint) -> Seq<char> {
    sdl_schema_block(bp.schema) + sdl_definitions(bp.definitions@)
}

fn render_type(t: &Type) -> (r: String)
    ensures
        r@ == sdl_type(*t),
    decreases *t,
{
    match t {
        Type::NamedType { name, non_null } => {
            if *non_null {
                let r = name.clone().concat("!");
                proof {
                    assert(r@ =~= sdl_type(*t));
                }
                r
            } else {
                name.clone()
            }
        },
        Type::ListType { of_type, non_null } => {
            let inner = render_type(of_type);
            let r = if *non_null {
                String::from_str("[").concat(inner.as_str()).concat("]!")
            } else {
                String::from_str("[").concat(inner.as_str()).concat("]")
            };
            proof {
                assert(r@ =~= sdl_type(*t));
            }
            r
        },
    }
}

#[verifier::loop_isolation(false)]
fn render_args(args: &Vec<ArgumentDefinition>) -> (r: String)
    ensures
        r@ == sdl_args(args@),
{
    let mut acc = String::new();
    let n = args.len();
    let mut i: usize = 0;
    while i < n
        invariant
            i <= n,
            acc@ == sdl_args(args@.take(i as int)),
        decreases n - i,
    {
        let a = &args[i];
        let piece = a.name.clone().concat(": ").concat(render_type(&a.of_type).as_str());
        proof {
            assert(piece@ =~= sdl_arg(args@[i as int]));
            assert(args@.take(i + 1).drop_last() =~= args@.take(i as int));
            assert(args@.take(i + 1).last() == args@[i as int]);
        }
        if i == 0 {
            acc = piece;
        } else {
            acc = acc.concat(", ").concat(piece.as_str());
            proof {
                assert(acc@ =~= sdl_args(args@.take(i + 1)));
            }
        }
        i += 1;
    }
    proof {
        assert(args@.take(n as int) =~= args@);
    }
    acc
}

#[verifier::loop_isolation(false)]
fn render_fields(fields: &Vec<FieldDefinition>) -> (r: String)
    ensures
        r@ == sdl_fields(fields@),
{
    let mut acc = String::new();
    let n = fields.len();
    let mut i: usize = 0;
    while i < n
        invariant
            i <= n,
            acc@ == sdl_fields(fields@.take(i as int)),
        decreases n - i,
    {
        let f = &fields[i];
        let mut line = String::from_str("  ").concat(f.name.as_str());
        if f.args.len() > 0 {
            line = line.concat("(").concat(render_args(&f.args).as_str()).concat(")");
        }
        let line = line.concat(": ").concat(render_type(&f.of_type).as_str()).concat("\n");
        proof {
            assert(line@ =~= sdl_field(fields@[i as int]));
            assert(fields@.take(i + 1).drop_last() =~= fields@.take(i as int));
            assert(fields@.take(i + 1).last() == fields@[i as int]);
        }
        acc = acc.concat(line.as_str());
        proof {
            assert(acc@ =~= sdl_fields(fields@.take(i + 1)));
        }
        i += 1;
    }
    proof {
        assert(fields@.take(n as int) =~= fields@);
    }
    acc
}

#[verifier::loop_isolation(false)]
fn render_input_fields(fields: &Vec<InputFieldDefinition>) -> (r: String)
    ensures
        r@ == sdl_input_fields(fields@),
{
    let mut acc = String::new();
    let n = fields.len();
    let mut i: usize = 0;
    while i < n
        invariant
            i <= n,
            acc@ == sdl_input_fields(fields@.take(i as int)),
        decreases n - i,
    {
        let f = &fields[i];
        let line = String::from_str("  ").concat(f.name.as_str()).concat(": ").concat(
            render_type(&f.of_type).as_str(),
        ).concat("\n");
        proof {
            assert(line@ =~= sdl_input_field(fields@[i as int]));
            assert(fields@.take(i + 1).drop_last() =~= fields@.take(i as int));
            assert(fields@.take(i + 1).last() == fields@[i as int]);
        }
        acc = acc.concat(line.as_str());
        proof {
            assert(acc@ =~= sdl_input_fields(fields@.take(i + 1)));
        }
        i += 1;
    }
    proof {
        assert(fields@.take(n as int) =~= fields@);
    }
    acc
}

#[verifier::loop_isolation(false)]
fn render_enum_values(values: &Vec<EnumValueDefinition>) -> (r: String)
    ensures
        r@ == sdl_enum_values(values@),
{
    let mut acc = String::new();
    let n = values.len();
    let mut i: usize = 0;
    while i < n
        invariant
            i <= n,
            acc@ == sdl_enum_values(values@.take(i as int)),
        decreases n - i,
    {
        proof {
            assert(values@.take(i + 1).drop_last() =~= values@.take(i as int));
            assert(values@.take(i + 1).last() == values@[i as int]);
        }
        acc = acc.concat("  ").concat(values[i].name.as_str()).concat("\n");
        proof {
            assert(acc@ =~= sdl_enum_values(values@.take(i + 1)));
        }
        i += 1;
    }
    proof {
        assert(values@.take(n as int) =~= values@);
    }
    acc
}

#[verifier::loop_isolation(false)]
fn render_join(names: &Vec<String>, sep: &str) -> (r: String)
    ensures
        r@ == join_names(names@, sep@),
{
    let mut acc = String::new();
    let n = names.len();
    let mut i: usize = 0;
    while i < n
        invariant
            i <= n,
            acc@ == join_names(names@.take(i as int), sep@),
        decreases n - i,
    {
        proof {
            assert(names@.take(i + 1).drop_last() =~= names@.take(i as int));
            assert(names@.take(i + 1).last() == names@[i as int]);
        }
        if i == 0 {
            acc = names[0].clone();
        } else {
            acc = acc.concat(sep).concat(names[i].as_str());
            proof {
                assert(acc@ =~= join_names(names@.take(i + 1), sep@));
            }
        }
        i += 1;
    }
    proof {
        assert(names@.take(n as int) =~= names@);
    }
    acc
}

fn render_definition(d: &Definition) -> (r: String)
    ensures
        r@ == sdl_definition(*d),
{
    match d {
        Definition::ObjectTypeDefinition(o) => {
            let mut head = String::from_str("type ").concat(o.name.as_str());
            if o.implements.len() > 0 {
                head = head.concat(" implements ").concat(
                    render_join(&o.implements, " & ").as_str(),
                );
            }
            let r = head.concat(" {\n").concat(render_fields(&o.fields).as_str()).concat("}\n");
            proof {
                assert(r@ =~= sdl_definition(*d));
            }
            r
        },
        Definition::InterfaceTypeDefinition(it) => {
            let r = String::from_str("interface ").concat(it.name.as_str()).concat(" {\n").concat(
                render_fields(&it.fields).as_str(),
            ).concat("}\n");
            proof {
                assert(r@ =~= sdl_definition(*d));
            }
            r
        },
        Definition::InputObjectTypeDefinition(io) => {
            let r = String::from_str("input ").concat(io.name.as_str()).concat(" {\n").concat(
                render_input_fields(&io.fields).as_str(),
            ).concat("}\n");
            proof {
                assert(r@ =~= sdl_definition(*d));
            }
            r
        },
        Definition::ScalarTypeDefinition(sc) => {
            let r = String::from_str("scalar ").concat(sc.name.as_str()).concat("\n");
            proof {
                assert(r@ =~= sdl_definition(*d));
            }
            r
        },
        Definition::EnumTypeDefinition(en) => {
            let r = String::from_str("enum ").concat(en.name.as_str()).concat(" {\n").concat(
                render_enum_values(&en.enum_values).as_str(),
            ).concat("}\n");
            proof {
                assert(r@ =~= sdl_definition(*d));
            }
            r
        },
        Definition::UnionTypeDefinition(un) => {
            let r = String::from_str("union ").concat(un.name.as_str()).concat(" = ").concat(
                render_join(&un.types, " | ").as_str(),
            ).concat("\n");
            proof {
                assert(r@ =~= sdl_definition(*d));
            }
            r
        },
    }
}

#[verifier::loop_isolation(false)]
fn render_definitions(defs: &Vec<Definition>) -> (r: String)
    ensures
        r@ == sdl_definitions(defs@),
{
    let mut acc = String::new();
    let n = defs.len();
    let mut i: usize = 0;
    while i < n
        invariant
            i <= n,
            acc@ == sdl_definitions(defs@.take(i as int)),
        decreases n - i,
    {
        proof {
            assert(defs@.take(i + 1).drop_last() =~= defs@.take(i as int));
            assert(defs@.take(i + 1).last() == defs@[i as int]);
        }
        acc = acc.concat("\n").concat(render_definition(&defs[i]).as_str());
        proof {
            assert(acc@ =~= sdl_definitions(defs@.take(i + 1)));
        }
        i += 1;
    }
    proof {
        assert(defs@.take(n as int) =~= defs@);
    }
    acc
}

/// Render the blueprint's schema for display: the heading, the schema
/// block naming the root operation types, and each definition in the
/// blueprint's order, in schema-definition syntax.
pub fn display_schema(blueprint: &Blueprint) -> (r: String)
    ensures
        r@ == "GraphQL Schema:\n"@ + sdl_blueprint(*blueprint) + "\n"@,
{
    let mut sdl = String::from_str("schema {\n  query: ").concat(
        blueprint.schema.query.as_str(),
    ).concat("\n");
    match &blueprint.schema.mutation {
        Some(m) => {
            sdl = sdl.concat("  mutation: ").concat(m.as_str()).concat("\n");
        },
        None => {},
    }
    let sdl = sdl.concat("}\n");
    proof {
        assert(sdl@ =~= sdl_schema_block(blueprint.schema));
    }
    let sdl = sdl.concat(render_definitions(&blueprint.definitions).as_str());
    let r = String::from_str("GraphQL Schema:\n").concat(sdl.as_str()).concat("\n");
    proof {
        assert(r@ =~= "GraphQL Schema:\n"@ + sdl_blueprint(*blueprint) + "\n"@);
    }
    r
}

} // verus!
