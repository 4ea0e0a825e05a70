//! Rendering of the TypeScript sources for one model, and the plan of the
//! files they are written to.

use crate::parser::{field_views, Field, FieldView, Model, ModelView};
use crate::strings::views;
use crate::text::{
    char_is_uppercase, char_to_lowercase, is_uppercase, lowercase_of, push_char, str_eq,
};
use vstd::prelude::*;
use vstd::string::{StrSliceExecFns, StringExecFns};

verus! {

// Kinds of source, operations, and where sources go

/// Where entities go, below the module's base path.
pub const ENTITY_PATH: &'static str = "domain/entity/";

/// Where mappers go, below the module's base path.
pub const MAPPER_PATH: &'static str = "infra/database/prisma/mappers";

/// Where abstract repositories go, below the module's base path.
pub const REPOSITORY_PATH: &'static str = "app/repositories";

/// Where repository adapters go, below the module's base path.
pub const PRISMA_REPOSITORY_PATH: &'static str = "infra/database/prisma";

/// A kind of source that can be rendered for a model. A repository carries
/// the operations chosen for it, once they have been chosen.
#[derive(Debug, PartialEq, Eq)]
pub enum ModuleType {
    Entity,
    Mapper,
    Repository(Option<Vec<RepositoryOperations>>),
    PrismaRepository,
}

/// An operation that a repository can offer.
#[derive(Debug, Clone, Copy, PartialEq, Eq, Structural)]
pub enum RepositoryOperations {
    Create,
    Find,
    FindMany,
    Delete,
    Update,
}

/// A source that is ready to be written: where it goes and what it holds.
#[derive(Debug, PartialEq, Eq)]
pub struct SourceFile {
    pub path: String,
    pub contents: String,
}

/// What a [`SourceFile`] holds, as mathematical values.
pub struct SourceFileView {
    pub path: Seq<char>,
    pub contents: Seq<char>,
}

impl View for SourceFile {
    type V = SourceFileView;

    open spec fn view(&self) -> SourceFileView {
        SourceFileView { path: self.path@, contents: self.contents@ }
    }
}

/// The views of a sequence of sources, in the same order.
pub open spec fn source_views(files: Seq<SourceFile>) -> Seq<SourceFileView> {
    files.map_values(|f: SourceFile| f@)
}

// Joining what is rendered item by item

/// The texts that `render` yields for the items of `items`, joined in the
/// order of `items`. An item for which `render` yields nothing leaves no
/// trace.
pub open spec fn join_rendered<A>(items: Seq<A>, render: spec_fn(A) -> Option<Seq<char>>) -> Seq<
    char,
> {
    items.filter_map(render).flatten()
}

/// What one item adds to a joined text.
pub open spec fn rendered_or_empty(text: Option<Seq<char>>) -> Seq<char> {
    match text {
        Some(t) => t,
        None => Seq::empty(),
    }
}

/// Joining the first `i + 1` items is joining the first `i` and appending
/// what item `i` renders to.
pub proof fn lemma_join_rendered_step<A>(
    items: Seq<A>,
    render: spec_fn(A) -> Option<Seq<char>>,
    i: int,
)
    requires
        0 <= i < items.len(),
    ensures
        join_rendered(items.take(i + 1), render) == join_rendered(items.take(i), render)
            + rendered_or_empty(render(items[i])),
{
    items.lemma_filter_map_take_succ(render, i);
    let before = items.take(i).filter_map(render);
    match render(items[i]) {
        Some(t) => {
            assert(before + seq![t] =~= before.push(t));
            before.lemma_flatten_push(t);
        },
        None => {
            assert(before + Seq::<Seq<char>>::empty() =~= before);
            assert(before.flatten() + Seq::<char>::empty() =~= before.flatten());
        },
    }
}

// Names derived from the model's name

/// `s` with its first character replaced by that character's lowercase
/// mapping; the empty string stays empty.
pub open spec fn lowercase_first(s: Seq<char>) -> Seq<char> {
    if s.len() == 0 {
        s
    } else {
        lowercase_of(s[0]) + s.drop_first()
    }
}

/// `head` followed by all of `s` but its first character.
pub open spec fn with_head(head: Seq<char>, s: Seq<char>) -> Seq<char> {
    if s.len() == 0 {
        s
    } else {
        head + s.drop_first()
    }
}

/// Replaces the first character of `s` by `head`. An empty `s` stays empty.
pub fn replace_first_char(s: &str, head: &str) -> (out: String)
    ensures
        out@ == with_head(head@, s@),
{
    let n = s.unicode_len();
    if n == 0 {
        String::new()
    } else {
        let mut out = head.to_owned();
        out.append(s.substring_char(1, n));
        out
    }
}

/// Lowercases the first character of `s`, as the name of a model's
/// persistence accessor and of its constructor parameter require.
pub fn lowercase_first_char(s: &str) -> (out: String)
    ensures
        out@ == lowercase_first(s@),
{
    if s.unicode_len() == 0 {
        String::new()
    } else {
        let head = char_to_lowercase(s.get_char(0));
        replace_first_char(s, head.as_str())
    }
}

/// What one character of a name contributes to its kebab-case form: a hyphen
/// where one is due, then the character's lowercase mapping.
pub open spec fn kebab_piece(lowered: Seq<char>, hyphenated: bool) -> Seq<char> {
    (if hyphenated {
        seq!['-']
    } else {
        Seq::empty()
    }) + lowered
}

/// Whether character `i` is marked as uppercase. A character without a mark
/// counts as not uppercase.
pub open spec fn marked(upper: Seq<bool>, i: int) -> bool {
    0 <= i < upper.len() && upper[i]
}

/// The kebab-case form of a name, given for each of its characters the
/// lowercase mapping and whether the character is uppercase: the mappings
/// in order, with a hyphen before that of each uppercase character but the
/// first of the name.
pub open spec fn kebab_marked(lowered: Seq<Seq<char>>, upper: Seq<bool>) -> Seq<char> {
    Seq::new(lowered.len(), |i: int| kebab_piece(lowered[i], i > 0 && marked(upper, i))).flatten()
}

/// For each character of `name`, whether it is an uppercase character.
pub open spec fn uppercase_marks(name: Seq<char>) -> Seq<bool> {
    Seq::new(name.len(), |i: int| is_uppercase(name[i]))
}

/// For each character of `name`, its lowercase mapping.
pub open spec fn lowercase_mappings(name: Seq<char>) -> Seq<Seq<char>> {
    Seq::new(name.len(), |i: int| lowercase_of(name[i]))
}

/// The kebab-case form of `name`: every character lowercased, and a hyphen
/// before each uppercase character but the first of the name.
pub open spec fn kebab_case(name: Seq<char>) -> Seq<char> {
    kebab_marked(lowercase_mappings(name), uppercase_marks(name))
}

/// The kebab-case form of a name, given for each of its characters the
/// lowercase mapping and whether the character is uppercase.
pub fn kebab_with_marks(lowered: &Vec<String>, upper: &Vec<bool>) -> (out: String)
    ensures
        out@ == kebab_marked(views(lowered@), upper@),
{
    let ghost pieces = Seq::new(
        lowered@.len(),
        |i: int| kebab_piece(views(lowered@)[i], i > 0 && marked(upper@, i)),
    );
    let mut out = String::new();
    let mut i: usize = 0;
    assert(pieces.take(0).flatten() =~= Seq::<char>::empty());
    while i < lowered.len()
        invariant
            i <= lowered.len(),
            pieces == Seq::new(
                lowered@.len(),
                |i: int| kebab_piece(views(lowered@)[i], i > 0 && marked(upper@, i)),
            ),
            out@ == pieces.take(i as int).flatten(),
        decreases lowered.len() - i,
    {
        if i > 0 && i < upper.len() && upper[i] {
            push_char(&mut out, '-');
        }
        out.append(lowered[i].as_str());
        proof {
            assert(out@ =~= pieces.take(i as int).flatten() + pieces[i as int]);
            assert(pieces.take(i + 1) =~= pieces.take(i as int).push(pieces[i as int]));
            pieces.take(i as int).lemma_flatten_push(pieces[i as int]);
        }
        i += 1;
    }
    assert(pieces.take(pieces.len() as int) =~= pieces);
    out
}

/// The kebab-case form of `name`, as file names use it.
pub fn to_kebab_case(name: &str) -> (out: String)
    ensures
        out@ == kebab_case(name@),
{
    let mut lowered: Vec<String> = Vec::new();
    let mut upper: Vec<bool> = Vec::new();
    for c in it: name.chars()
        invariant
            it.seq() == name@,
            views(lowered@) == lowercase_mappings(name@).take(it.index() as int),
            upper@ == uppercase_marks(name@).take(it.index() as int),
    {
        let ghost before = views(lowered@);
        let lower = char_to_lowercase(c);
        let ghost mapping = lower@;
        lowered.push(lower);
        upper.push(char_is_uppercase(c));
        assert(views(lowered@) =~= before.push(mapping));
        assert(views(lowered@) =~= lowercase_mappings(name@).take(it.index() + 1));
        assert(upper@ =~= uppercase_marks(name@).take(it.index() + 1));
    }
    assert(views(lowered@) =~= lowercase_mappings(name@));
    assert(upper@ =~= uppercase_marks(name@));
    kebab_with_marks(&lowered, &upper)
}

// Members: from type tags to TypeScript declarations

/// The TypeScript type that stands for a scalar type tag of the schema. Any
/// other tag (a relation, an enum, a custom type) has none.
pub open spec fn ts_type(tag: Seq<char>) -> Option<Seq<char>> {
    if tag == "Float"@ || tag == "Int"@ || tag == "Decimal"@ || tag == "BigInt"@ {
        Some("number"@)
    } else if tag == "String"@ {
        Some("string"@)
    } else if tag == "Boolean"@ {
        Some("boolean"@)
    } else if tag == "DateTime"@ {
        Some("Date"@)
    } else {
        None
    }
}

/// A field is mappable where its tag is a scalar type.
pub open spec fn is_mappable(field: FieldView) -> bool {
    ts_type(field.field_type) is Some
}

/// What a member declaration says after its indentation and its optional
/// `readonly`: the name, the type, and `| null` for an optional member.
pub open spec fn member_body(field_type: Seq<char>, field_name: Seq<char>, is_optional: bool) -> Seq<
    char,
> {
    field_name + ": "@ + field_type + (if is_optional {
        " | null"@
    } else {
        Seq::empty()
    })
}

/// A member declaration on a line of its own.
pub open spec fn type_string(
    field_type: Seq<char>,
    field_name: Seq<char>,
    is_optional: bool,
    read_only: bool,
) -> Seq<char> {
    (if read_only {
        "\n  readonly "@
    } else {
        "\n  "@
    }) + member_body(field_type, field_name, is_optional)
}

/// The declaration of `field` as a member, if the field is mappable.
pub open spec fn declaration(field: FieldView, read_only: bool) -> Option<Seq<char>> {
    match ts_type(field.field_type) {
        Some(t) => Some(type_string(t, field.name, field.is_optional, read_only)),
        None => None,
    }
}

/// [`declaration`] with the mutability fixed.
pub open spec fn declaration_of(read_only: bool) -> spec_fn(FieldView) -> Option<Seq<char>> {
    |field: FieldView| declaration(field, read_only)
}

/// The member declarations of the mappable fields among `fields`, in order.
pub open spec fn members(fields: Seq<FieldView>, read_only: bool) -> Seq<char> {
    join_rendered(fields, declaration_of(read_only))
}

/// The TypeScript type for a scalar type tag, if the tag is one.
pub fn scalar_type(tag: &str) -> (out: Option<&'static str>)
    ensures
        match out {
            Some(t) => ts_type(tag@) == Some(t@),
            None => ts_type(tag@) is None,
        },
{
    if str_eq(tag, "Float") || str_eq(tag, "Int") || str_eq(tag, "Decimal") || str_eq(
        tag,
        "BigInt",
    ) {
        Some("number")
    } else if str_eq(tag, "String") {
        Some("string")
    } else if str_eq(tag, "Boolean") {
        Some("boolean")
    } else if str_eq(tag, "DateTime") {
        Some("Date")
    } else {
        None
    }
}

/// Formats one member declaration: `readonly` for the class, plain for the
/// interface, and `| null` appended for an optional member.
pub fn build_type_string(field_type: &str, field_name: &str, is_optional: bool, read_only: bool) -> (out:
    String)
    ensures
        out@ == type_string(field_type@, field_name@, is_optional, read_only),
{
    let mut body = field_name.to_owned();
    body.append(": ");
    body.append(field_type);
    if is_optional {
        body.append(" | null");
    } else {
        assert(body@ + Seq::<char>::empty() =~= body@);
    }
    let mut out = if read_only {
        "\n  readonly ".to_owned()
    } else {
        "\n  ".to_owned()
    };
    out.append(body.as_str());
    out
}

/// The member declaration for `field`, or nothing where its tag is no
/// scalar type.
pub fn get_field_with_type(field: &Field, read_only: bool) -> (out: Option<String>)
    ensures
        match out {
            Some(text) => declaration(field@, read_only) == Some(text@),
            None => declaration(field@, read_only) is None,
        },
{
    match scalar_type(field.field_type.as_str()) {
        Some(t) => Some(build_type_string(t, field.name.as_str(), field.is_optional, read_only)),
        None => None,
    }
}

fn push_members(out: &mut String, fields: &Vec<Field>, read_only: bool)
    ensures
        final(out)@ == old(out)@ + members(field_views(fields@), read_only),
{
    let ghost head = out@;
    let ghost all = field_views(fields@);
    let ghost render = declaration_of(read_only);
    assert(out@ + join_rendered(all.take(0), render) =~= out@);
    let mut i: usize = 0;
    while i < fields.len()
        invariant
            i <= fields.len(),
            all == field_views(fields@),
            render == declaration_of(read_only),
            out@ == head + join_rendered(all.take(i as int), render),
        decreases fields.len() - i,
    {
        proof {
            lemma_join_rendered_step(all, render, i as int);
        }
        match get_field_with_type(&fields[i], read_only) {
            Some(text) => {
                out.append(text.as_str());
            },
            None => {},
        }
        assert(out@ =~= head + (join_rendered(all.take(i as int), render) + rendered_or_empty(
            render(all[i as int]),
        )));
        i += 1;
    }
    assert(all.take(all.len() as int) =~= all);
}

// The entity

/// The entity of a model: the interface `I<Name>` with one mutable member
/// for each mappable field, then the class `<Name>` that implements it with
/// the same members `readonly` and a constructor that assigns all of them
/// from one value of the interface, named `param`.
pub open spec fn entity_text(model: ModelView, param: Seq<char>) -> Seq<char> {
    "export interface I"@ + model.name + " {"@ + members(model.fields, false) + "\n}\n\n"@
        + "export class "@ + model.name + " implements I"@ + model.name + " {"@ + members(
        model.fields,
        true,
    ) + "\n\n  constructor("@ + param + ": I"@ + model.name + ") {\n    Object.assign(this, "@
        + param + ")\n  }\n}\n"@
}

/// Renders the entity of `model`, with `param_name` as the name of the
/// constructor's parameter.
pub fn render_entity(model: &Model, param_name: &str) -> (out: String)
    ensures
        out@ == entity_text(model@, param_name@),
{
    let name = model.name.as_str();
    let mut out = "export interface I".to_owned();
    out.append(name);
    out.append(" {");
    push_members(&mut out, &model.fields, false);
    out.append("\n}\n\n");
    out.append("export class ");
    out.append(name);
    out.append(" implements I");
    out.append(name);
    out.append(" {");
    push_members(&mut out, &model.fields, true);
    out.append("\n\n  constructor(");
    out.append(param_name);
    out.append(": I");
    out.append(name);
    out.append(") {\n    Object.assign(this, ");
    out.append(param_name);
    out.append(")\n  }\n}\n");
    out
}

/// Renders the entity of `model`. The constructor's parameter is named as
/// the model, with the first character lowercased.
pub fn create_entity(model: &Model) -> (out: String)
    ensures
        out@ == entity_text(model@, lowercase_first(model@.name)),
{
    let param_name = lowercase_first_char(model.name.as_str());
    render_entity(model, param_name.as_str())
}

// The mapper

/// Whether values of this type tag are stored in a form that the domain
/// must coerce to a number.
pub open spec fn needs_coercion(tag: Seq<char>) -> bool {
    tag == "Decimal"@ || tag == "BigInt"@
}

/// The expression that reads `field` from the persistence record.
pub open spec fn mapped_value(field: FieldView) -> Seq<char> {
    if needs_coercion(field.field_type) {
        "Number(data."@ + field.name + ")"@
    } else {
        "data."@ + field.name
    }
}

/// The line of the mapper for `field`, if the field is mappable.
pub open spec fn mapping(field: FieldView) -> Option<Seq<char>> {
    if is_mappable(field) {
        Some("\n      "@ + field.name + ": "@ + mapped_value(field) + ","@)
    } else {
        None
    }
}

/// [`mapping`] as a function value.
pub open spec fn mapping_of() -> spec_fn(FieldView) -> Option<Seq<char>> {
    |field: FieldView| mapping(field)
}

/// The mapper of a model: a class with the static function `toDomain`, which
/// builds the entity from a persistence record, one line for each mappable
/// field, in order.
pub open spec fn mapper_text(model: ModelView) -> Seq<char> {
    "export class "@ + model.name + "Mapper {\n  static toDomain(data: Persistence"@ + model.name
        + "): "@ + model.name + " {\n    return new "@ + model.name + "({"@ + join_rendered(
        model.fields,
        mapping_of(),
    ) + "\n    })\n  }\n}"@
}

fn render_mapping(field: &Field) -> (out: Option<String>)
    ensures
        match out {
            Some(text) => mapping(field@) == Some(text@),
            None => mapping(field@) is None,
        },
{
    let tag = field.field_type.as_str();
    if scalar_type(tag).is_none() {
        return None;
    }
    let value = if str_eq(tag, "Decimal") || str_eq(tag, "BigInt") {
        let mut wrapped = "Number(data.".to_owned();
        wrapped.append(field.name.as_str());
        wrapped.append(")");
        wrapped
    } else {
        let mut plain = "data.".to_owned();
        plain.append(field.name.as_str());
        plain
    };
    let mut out = "\n      ".to_owned();
    out.append(field.name.as_str());
    out.append(": ");
    out.append(value.as_str());
    out.append(",");
    Some(out)
}

/// Renders the mapper of `model`.
pub fn create_mapper(model: &Model) -> (out: String)
    ensures
        out@ == mapper_text(model@),
{
    let name = model.name.as_str();
    let mut out = "export class ".to_owned();
    out.append(name);
    out.append("Mapper {\n  static toDomain(data: Persistence");
    out.append(name);
    out.append("): ");
    out.append(name);
    out.append(" {\n    return new ");
    out.append(name);
    out.append("({");
    let ghost head = out@;
    let ghost all = field_views(model.fields@);
    let ghost render = mapping_of();
    assert(out@ + join_rendered(all.take(0), render) =~= out@);
    let mut i: usize = 0;
    while i < model.fields.len()
        invariant
            i <= model.fields.len(),
            all == field_views(model.fields@),
            render == mapping_of(),
            out@ == head + join_rendered(all.take(i as int), render),
        decreases model.fields.len() - i,
    {
        proof {
            lemma_join_rendered_step(all, render, i as int);
        }
        match render_mapping(&model.fields[i]) {
            Some(text) => {
                out.append(text.as_str());
            },
            None => {},
        }
        assert(out@ =~= head + (join_rendered(all.take(i as int), render) + rendered_or_empty(
            render(all[i as int]),
        )));
        i += 1;
    }
    assert(all.take(all.len() as int) =~= all);
    out.append("\n    })\n  }\n}");
    out
}

// The methods of a repository

/// The name of the method that a repository declares for `op`.
pub open spec fn operation_name(op: RepositoryOperations) -> Seq<char> {
    match op {
        RepositoryOperations::Create => "create"@,
        RepositoryOperations::Find => "find"@,
        RepositoryOperations::FindMany => "findMany"@,
        RepositoryOperations::Delete => "delete"@,
        RepositoryOperations::Update => "update"@,
    }
}

/// The method of the persistence accessor that the adapter invokes for `op`.
/// A deletion is an update: records are marked as deleted, never removed.
pub open spec fn accessor_method(op: RepositoryOperations) -> Seq<char> {
    match op {
        RepositoryOperations::Create => "create"@,
        RepositoryOperations::Find => "findFirst"@,
        RepositoryOperations::FindMany => "findMany"@,
        RepositoryOperations::Delete => "update"@,
        RepositoryOperations::Update => "update"@,
    }
}

/// The `where` clause that selects a record by its `id`, each line indented
/// by `pad`.
pub open spec fn where_id(pad: Seq<char>) -> Seq<char> {
    pad + "where: {\n"@ + pad + "  id,\n"@ + pad + "},\n"@
}

/// The lines between the braces of the accessor call for `op`, each indented
/// by `pad`.
pub open spec fn arguments(op: RepositoryOperations, pad: Seq<char>) -> Seq<char> {
    match op {
        RepositoryOperations::Create => pad + "data,\n"@,
        RepositoryOperations::Find => pad + "where: data,\n"@,
        RepositoryOperations::FindMany => pad + "where: data,\n"@,
        RepositoryOperations::Delete => where_id(pad) + pad + "data: {\n"@ + pad
            + "  deletedAt: new Date(),\n"@ + pad + "},\n"@,
        RepositoryOperations::Update => where_id(pad) + pad + "data,\n"@,
    }
}

/// The call that the adapter makes for `op` on the accessor named
/// `accessor`; `pad` is the indentation of the statement that holds it.
pub open spec fn accessor_call(
    accessor: Seq<char>,
    op: RepositoryOperations,
    pad: Seq<char>,
) -> Seq<char> {
    "this.prisma."@ + accessor + "."@ + accessor_method(op) + "({\n"@ + arguments(
        op,
        pad + "  "@,
    ) + pad + "})"@
}

/// The expression that turns the fetched `result` into the domain type.
pub open spec fn mapped_result(op: RepositoryOperations, model_name: Seq<char>) -> Seq<char> {
    match op {
        RepositoryOperations::FindMany => "result.map("@ + model_name + "Mapper.toDomain)"@,
        _ => model_name + "Mapper.toDomain(result)"@,
    }
}

/// The parameters of the method for `op`: the record's `id` where one
/// record is meant, the `data` where data is handed over.
pub open spec fn parameters(op: RepositoryOperations, input_type: Seq<char>) -> Seq<char> {
    match op {
        RepositoryOperations::Delete => "id: string"@,
        RepositoryOperations::Update => "id: string, data: "@ + input_type,
        _ => "data: "@ + input_type,
    }
}

/// What the method for `op` resolves to: nothing for a deletion, a list for
/// `findMany`, one value for the others.
pub open spec fn promised(op: RepositoryOperations, return_type: Seq<char>) -> Seq<char> {
    match op {
        RepositoryOperations::Delete => "void"@,
        RepositoryOperations::FindMany => return_type + "[]"@,
        _ => return_type,
    }
}

/// The name and the parameters of the method for `op`.
pub open spec fn method_head(op: RepositoryOperations, input_type: Seq<char>) -> Seq<char> {
    operation_name(op) + "("@ + parameters(op, input_type) + ")"@
}

/// The signature of the method for `op` as the contract declares it.
pub open spec fn signature(
    op: RepositoryOperations,
    input_type: Seq<char>,
    return_type: Seq<char>,
) -> Seq<char> {
    method_head(op, input_type) + ": Promise<"@ + promised(op, return_type) + ">"@
}

/// The signature of the method for `op` as the adapter spells it: that of
/// the contract, but for a deletion, whose result the adapter leaves to be
/// inferred.
pub open spec fn adapter_signature(
    op: RepositoryOperations,
    input_type: Seq<char>,
    return_type: Seq<char>,
) -> Seq<char> {
    if op == RepositoryOperations::Delete {
        method_head(op, input_type)
    } else {
        signature(op, input_type, return_type)
    }
}

/// The statements of the adapter's method for `op`, up to and including the
/// closing brace of the method. A deletion awaits its call and returns
/// nothing. With a mapper, every other method awaits the call and returns
/// the mapped result; without one it returns what the call resolves to, so
/// that an update, too, returns the updated record.
pub open spec fn method_body(
    accessor: Seq<char>,
    model_name: Seq<char>,
    has_mapper: bool,
    op: RepositoryOperations,
) -> Seq<char> {
    if op == RepositoryOperations::Delete {
        "    await "@ + accessor_call(accessor, op, "    "@) + "\n  }"@
    } else if has_mapper {
        "    const result = await "@ + accessor_call(accessor, op, "    "@) + "\n\n    return "@
            + mapped_result(op, model_name) + "\n  }"@
    } else {
        "      return "@ + accessor_call(accessor, op, "      "@) + "\n  }"@
    }
}

/// The adapter's method for `op`: `async`, its signature, and its body.
pub open spec fn method_text(
    accessor: Seq<char>,
    model_name: Seq<char>,
    input_type: Seq<char>,
    return_type: Seq<char>,
    has_mapper: bool,
    op: RepositoryOperations,
) -> Seq<char> {
    "async "@ + adapter_signature(op, input_type, return_type) + " {\n"@ + method_body(
        accessor,
        model_name,
        has_mapper,
        op,
    )
}

impl RepositoryOperations {
    /// The name of the method that a repository declares for the operation.
    pub fn name(&self) -> (name: &'static str)
        ensures
            name@ == operation_name(*self),
    {
        match self {
            RepositoryOperations::Create => "create",
            RepositoryOperations::Find => "find",
            RepositoryOperations::FindMany => "findMany",
            RepositoryOperations::Delete => "delete",
            RepositoryOperations::Update => "update",
        }
    }

    /// The operation as it is shown to a reader: by the name of its method.
    pub fn to_string(&self) -> (shown: String)
        ensures
            shown@ == operation_name(*self),
    {
        self.name().to_owned()
    }
}

fn accessor_method_name(op: RepositoryOperations) -> (name: &'static str)
    ensures
        name@ == accessor_method(op),
{
    match op {
        RepositoryOperations::Create => "create",
        RepositoryOperations::Find => "findFirst",
        RepositoryOperations::FindMany => "findMany",
        RepositoryOperations::Delete | RepositoryOperations::Update => "update",
    }
}

fn render_where_id(pad: &str) -> (out: String)
    ensures
        out@ == where_id(pad@),
{
    let mut out = pad.to_owned();
    out.append("where: {\n");
    out.append(pad);
    out.append("  id,\n");
    out.append(pad);
    out.append("},\n");
    out
}

fn render_arguments(op: RepositoryOperations, pad: &str) -> (out: String)
    ensures
        out@ == arguments(op, pad@),
{
    match op {
        RepositoryOperations::Create => {
            let mut out = pad.to_owned();
            out.append("data,\n");
            out
        },
        RepositoryOperations::Find | RepositoryOperations::FindMany => {
            let mut out = pad.to_owned();
            out.append("where: data,\n");
            out
        },
        RepositoryOperations::Delete => {
            let mut out = render_where_id(pad);
            out.append(pad);
            out.append("data: {\n");
            out.append(pad);
            out.append("  deletedAt: new Date(),\n");
            out.append(pad);
            out.append("},\n");
            out
        },
        RepositoryOperations::Update => {
            let mut out = render_where_id(pad);
            out.append(pad);
            out.append("data,\n");
            out
        },
    }
}

fn render_accessor_call(accessor: &str, op: RepositoryOperations, pad: &str) -> (out: String)
    ensures
        out@ == accessor_call(accessor@, op, pad@),
{
    let mut inner = pad.to_owned();
    inner.append("  ");
    let args = render_arguments(op, inner.as_str());
    let mut out = "this.prisma.".to_owned();
    out.append(accessor);
    out.append(".");
    out.append(accessor_method_name(op));
    out.append("({\n");
    out.append(args.as_str());
    out.append(pad);
    out.append("})");
    out
}

fn render_mapped_result(op: RepositoryOperations, model_name: &str) -> (out: String)
    ensures
        out@ == mapped_result(op, model_name@),
{
    match op {
        RepositoryOperations::FindMany => {
            let mut out = "result.map(".to_owned();
            out.append(model_name);
            out.append("Mapper.toDomain)");
            out
        },
        _ => {
            let mut out = model_name.to_owned();
            out.append("Mapper.toDomain(result)");
            out
        },
    }
}

fn render_method_head(op: RepositoryOperations, input_type: &str) -> (out: String)
    ensures
        out@ == method_head(op, input_type@),
{
    let params = match op {
        RepositoryOperations::Delete => { "id: string".to_owned() },
        RepositoryOperations::Update => {
            let mut both = "id: string, data: ".to_owned();
            both.append(input_type);
            both
        },
        _ => {
            let mut data = "data: ".to_owned();
            data.append(input_type);
            data
        },
    };
    let mut out = op.name().to_owned();
    out.append("(");
    out.append(params.as_str());
    out.append(")");
    out
}

fn render_signature(op: RepositoryOperations, input_type: &str, return_type: &str) -> (out: String)
    ensures
        out@ == signature(op, input_type@, return_type@),
{
    let mut out = render_method_head(op, input_type);
    out.append(": Promise<");
    match op {
        RepositoryOperations::Delete => {
            out.append("void");
        },
        RepositoryOperations::FindMany => {
            out.append(return_type);
            out.append("[]");
        },
        _ => {
            out.append(return_type);
        },
    }
    out.append(">");
    assert(out@ =~= signature(op, input_type@, return_type@));
    out
}

fn render_adapter_signature(op: RepositoryOperations, input_type: &str, return_type: &str) -> (out:
    String)
    ensures
        out@ == adapter_signature(op, input_type@, return_type@),
{
    match op {
        RepositoryOperations::Delete => render_method_head(op, input_type),
        _ => render_signature(op, input_type, return_type),
    }
}

fn render_method_body(
    accessor: &str,
    model_name: &str,
    has_mapper: bool,
    op: RepositoryOperations,
) -> (out: String)
    ensures
        out@ == method_body(accessor@, model_name@, has_mapper, op),
{
    match op {
        RepositoryOperations::Delete => {
            let call = render_accessor_call(accessor, op, "    ");
            let mut out = "    await ".to_owned();
            out.append(call.as_str());
            out.append("\n  }");
            out
        },
        _ => {
            if has_mapper {
                let call = render_accessor_call(accessor, op, "    ");
                let result = render_mapped_result(op, model_name);
                let mut out = "    const result = await ".to_owned();
                out.append(call.as_str());
                out.append("\n\n    return ");
                out.append(result.as_str());
                out.append("\n  }");
                out
            } else {
                let call = render_accessor_call(accessor, op, "      ");
                let mut out = "      return ".to_owned();
                out.append(call.as_str());
                out.append("\n  }");
                out
            }
        },
    }
}

/// Renders the adapter's method for `op`, given the name of the persistence
/// accessor it delegates to.
pub fn render_method(
    accessor: &str,
    model_name: &str,
    input_type: &str,
    return_type: &str,
    has_mapper: bool,
    op: &RepositoryOperations,
) -> (out: String)
    ensures
        out@ == method_text(accessor@, model_name@, input_type@, return_type@, has_mapper, *op),
{
    let sig = render_adapter_signature(*op, input_type, return_type);
    let body = render_method_body(accessor, model_name, has_mapper, *op);
    let mut out = "async ".to_owned();
    out.append(sig.as_str());
    out.append(" {\n");
    out.append(body.as_str());
    out
}

/// Renders the adapter's method for `op` on the model named `model_name`.
/// The accessor is the model's name with its first character lowercased.
pub fn build_repository_methods(
    model_name: &str,
    input_type: &str,
    return_type: &str,
    has_mapper: bool,
    op: &RepositoryOperations,
) -> (out: String)
    ensures
        out@ == method_text(
            lowercase_first(model_name@),
            model_name@,
            input_type@,
            return_type@,
            has_mapper,
            *op,
        ),
{
    let accessor = lowercase_first_char(model_name);
    render_method(accessor.as_str(), model_name, input_type, return_type, has_mapper, op)
}

// The repository: contract and adapter

/// The order in which a repository lists its operations, whatever the order
/// in which they were chosen.
pub open spec fn canonical_operations() -> Seq<RepositoryOperations> {
    seq![
        RepositoryOperations::Find,
        RepositoryOperations::FindMany,
        RepositoryOperations::Create,
        RepositoryOperations::Delete,
        RepositoryOperations::Update,
    ]
}

/// The operations that an optional choice holds: none where there is no
/// choice.
pub open spec fn chosen(methods: Option<Vec<RepositoryOperations>>) -> Seq<RepositoryOperations> {
    match methods {
        Some(list) => list@,
        None => Seq::empty(),
    }
}

/// The type of the `data` parameter: a partial entity where the entity is
/// rendered too, `any` where it is not.
pub open spec fn input_type_of(model_name: Seq<char>, has_entity: bool) -> Seq<char> {
    if has_entity {
        "Partial<"@ + model_name + ">"@
    } else {
        "any"@
    }
}

/// The type that the operations resolve to: the entity where it is rendered
/// too, `any` where it is not.
pub open spec fn return_type_of(model_name: Seq<char>, has_entity: bool) -> Seq<char> {
    if has_entity {
        model_name
    } else {
        "any"@
    }
}

/// The line by which the contract declares `op`.
pub open spec fn contract_line(
    op: RepositoryOperations,
    input_type: Seq<char>,
    return_type: Seq<char>,
) -> Seq<char> {
    "\n    abstract "@ + signature(op, input_type, return_type)
}

/// The contract's line for an operation, for the operations among `methods`.
pub open spec fn contract_member(
    methods: Seq<RepositoryOperations>,
    input_type: Seq<char>,
    return_type: Seq<char>,
) -> spec_fn(RepositoryOperations) -> Option<Seq<char>> {
    |op: RepositoryOperations|
        if methods.contains(op) {
            Some(contract_line(op, input_type, return_type))
        } else {
            None
        }
}

/// The adapter's method for an operation, for the operations among `methods`.
pub open spec fn adapter_member(
    methods: Seq<RepositoryOperations>,
    accessor: Seq<char>,
    model_name: Seq<char>,
    input_type: Seq<char>,
    return_type: Seq<char>,
    has_mapper: bool,
) -> spec_fn(RepositoryOperations) -> Option<Seq<char>> {
    |op: RepositoryOperations|
        if methods.contains(op) {
            Some(
                "\n    "@ + method_text(
                    accessor,
                    model_name,
                    input_type,
                    return_type,
                    has_mapper,
                    op,
                ),
            )
        } else {
            None
        }
}

/// The abstract repository of a model: one abstract method for each chosen
/// operation, in canonical order.
pub open spec fn contract_text(
    model_name: Seq<char>,
    methods: Seq<RepositoryOperations>,
    has_entity: bool,
) -> Seq<char> {
    "export abstract class "@ + model_name + "Repository {"@ + join_rendered(
        canonical_operations(),
        contract_member(
            methods,
            input_type_of(model_name, has_entity),
            return_type_of(model_name, has_entity),
        ),
    ) + "\n}"@
}

/// The repository's adapter: an injectable class that implements the
/// contract, with one method for each chosen operation, in canonical order.
pub open spec fn adapter_text(
    model_name: Seq<char>,
    accessor: Seq<char>,
    methods: Seq<RepositoryOperations>,
    has_mapper: bool,
    has_entity: bool,
) -> Seq<char> {
    "@Injectable()\nexport class Prisma"@ + model_name + "Repository implements "@ + model_name
        + "Repository {\n    constructor(private readonly prisma: PrismaService) {}"@
        + join_rendered(
        canonical_operations(),
        adapter_member(
            methods,
            accessor,
            model_name,
            input_type_of(model_name, has_entity),
            return_type_of(model_name, has_entity),
            has_mapper,
        ),
    ) + "\n}"@
}

/// The operations in canonical order.
pub fn canonical_order() -> (ops: Vec<RepositoryOperations>)
    ensures
        ops@ == canonical_operations(),
{
    let mut ops: Vec<RepositoryOperations> = Vec::new();
    ops.push(RepositoryOperations::Find);
    ops.push(RepositoryOperations::FindMany);
    ops.push(RepositoryOperations::Create);
    ops.push(RepositoryOperations::Delete);
    ops.push(RepositoryOperations::Update);
    assert(ops@ =~= canonical_operations());
    ops
}

/// Whether `op` is among `methods`.
pub fn has_operation(methods: &Vec<RepositoryOperations>, op: RepositoryOperations) -> (found: bool)
    ensures
        found == methods@.contains(op),
{
    let mut i: usize = 0;
    while i < methods.len()
        invariant
            i <= methods.len(),
            forall|j: int| 0 <= j < i ==> methods@[j] != op,
        decreases methods.len() - i,
    {
        if methods[i] == op {
            return true;
        }
        i += 1;
    }
    false
}

fn render_contract_line(op: RepositoryOperations, input_type: &str, return_type: &str) -> (out:
    String)
    ensures
        out@ == contract_line(op, input_type@, return_type@),
{
    let sig = render_signature(op, input_type, return_type);
    let mut out = "\n    abstract ".to_owned();
    out.append(sig.as_str());
    out
}

/// Renders the abstract repository and its adapter for a model, given the
/// name of the persistence accessor. `methods` are the chosen operations in
/// any order; both classes list them in canonical order, each once.
pub fn render_repository(
    model_name: &str,
    accessor: &str,
    methods: &Vec<RepositoryOperations>,
    has_mapper: bool,
    has_entity: bool,
) -> (out: (String, String))
    ensures
        out.0@ == contract_text(model_name@, methods@, has_entity),
        out.1@ == adapter_text(model_name@, accessor@, methods@, has_mapper, has_entity),
{
    let mut input_type = "any".to_owned();
    let mut return_type = "any".to_owned();
    if has_entity {
        input_type = "Partial<".to_owned();
        input_type.append(model_name);
        input_type.append(">");
        return_type = model_name.to_owned();
    }
    let mut contract = "export abstract class ".to_owned();
    contract.append(model_name);
    contract.append("Repository {");
    let mut adapter = "@Injectable()\nexport class Prisma".to_owned();
    adapter.append(model_name);
    adapter.append("Repository implements ");
    adapter.append(model_name);
    adapter.append("Repository {\n    constructor(private readonly prisma: PrismaService) {}");

    let ghost contract_head = contract@;
    let ghost adapter_head = adapter@;
    let ghost declare = contract_member(methods@, input_type@, return_type@);
    let ghost implement = adapter_member(
        methods@,
        accessor@,
        model_name@,
        input_type@,
        return_type@,
        has_mapper,
    );
    let canonical = canonical_order();
    assert(contract@ + join_rendered(canonical@.take(0), declare) =~= contract@);
    assert(adapter@ + join_rendered(canonical@.take(0), implement) =~= adapter@);
    let mut i: usize = 0;
    while i < canonical.len()
        invariant
            i <= canonical.len(),
            canonical@ == canonical_operations(),
            declare == contract_member(methods@, input_type@, return_type@),
            implement == adapter_member(
                methods@,
                accessor@,
                model_name@,
                input_type@,
                return_type@,
                has_mapper,
            ),
            contract@ == contract_head + join_rendered(canonical@.take(i as int), declare),
            adapter@ == adapter_head + join_rendered(canonical@.take(i as int), implement),
        decreases canonical.len() - i,
    {
        let op = canonical[i];
        proof {
            lemma_join_rendered_step(canonical@, declare, i as int);
            lemma_join_rendered_step(canonical@, implement, i as int);
        }
        if has_operation(methods, op) {
            let line = render_contract_line(op, input_type.as_str(), return_type.as_str());
            contract.append(line.as_str());
            let method = render_method(
                accessor,
                model_name,
                input_type.as_str(),
                return_type.as_str(),
                has_mapper,
                &op,
            );
            adapter.append("\n    ");
            adapter.append(method.as_str());
            assert(adapter@ =~= adapter_head + (join_rendered(canonical@.take(i as int), implement)
                + rendered_or_empty(implement(op))));
            assert(contract@ =~= contract_head + (join_rendered(canonical@.take(i as int), declare)
                + rendered_or_empty(declare(op))));
        } else {
            assert(adapter@ =~= adapter_head + (join_rendered(canonical@.take(i as int), implement)
                + rendered_or_empty(implement(op))));
            assert(contract@ =~= contract_head + (join_rendered(canonical@.take(i as int), declare)
                + rendered_or_empty(declare(op))));
        }
        i += 1;
    }
    assert(canonical@.take(canonical@.len() as int) =~= canonical@);
    contract.append("\n}");
    adapter.append("\n}");
    (contract, adapter)
}

/// Renders the abstract repository and its adapter for `model`. `methods`
/// are the chosen operations in any order, none chosen where it is `None`.
pub fn create_repository(
    model: &Model,
    methods: Option<Vec<RepositoryOperations>>,
    has_mapper: bool,
    has_entity: bool,
) -> (out: (String, String))
    ensures
        out.0@ == contract_text(model@.name, chosen(methods), has_entity),
        out.1@ == adapter_text(
            model@.name,
            lowercase_first(model@.name),
            chosen(methods),
            has_mapper,
            has_entity,
        ),
{
    let accessor = lowercase_first_char(model.name.as_str());
    match methods {
        Some(list) => render_repository(
            model.name.as_str(),
            accessor.as_str(),
            &list,
            has_mapper,
            has_entity,
        ),
        None => {
            let none: Vec<RepositoryOperations> = Vec::new();
            render_repository(
                model.name.as_str(),
                accessor.as_str(),
                &none,
                has_mapper,
                has_entity,
            )
        },
    }
}

// Paths

/// The directory of a kind of source, below the module's base path.
pub open spec fn subpath(module_type: ModuleType) -> Seq<char> {
    match module_type {
        ModuleType::Entity => ENTITY_PATH@,
        ModuleType::Mapper => MAPPER_PATH@,
        ModuleType::Repository(_) => REPOSITORY_PATH@,
        ModuleType::PrismaRepository => PRISMA_REPOSITORY_PATH@,
    }
}

/// The file name of a kind of source for the model whose kebab-case name is
/// `kebab`.
pub open spec fn file_name(module_type: ModuleType, kebab: Seq<char>) -> Seq<char> {
    match module_type {
        ModuleType::Entity => kebab + ".entity.ts"@,
        ModuleType::Mapper => kebab + ".mapper.ts"@,
        ModuleType::Repository(_) => kebab + ".repository.ts"@,
        ModuleType::PrismaRepository => "prisma-"@ + kebab + ".repository.ts"@,
    }
}

/// The path of a source: the output root, the module's base path, the
/// directory of its kind, and its file name.
pub open spec fn path_text(
    dir: Seq<char>,
    base_path: Seq<char>,
    module_type: ModuleType,
    kebab: Seq<char>,
) -> Seq<char> {
    dir + "/"@ + base_path + subpath(module_type) + "/"@ + file_name(module_type, kebab)
}

/// The path of the source of kind `module_type` for the model whose
/// kebab-case name is `kebab_name`.
pub fn resolve_path(dir: &str, base_path: &str, module_type: &ModuleType, kebab_name: &str) -> (out:
    String)
    ensures
        out@ == path_text(dir@, base_path@, *module_type, kebab_name@),
{
    let mut file = String::new();
    let directory = match module_type {
        ModuleType::Entity => {
            file.append(kebab_name);
            file.append(".entity.ts");
            ENTITY_PATH
        },
        ModuleType::Mapper => {
            file.append(kebab_name);
            file.append(".mapper.ts");
            MAPPER_PATH
        },
        ModuleType::Repository(_) => {
            file.append(kebab_name);
            file.append(".repository.ts");
            REPOSITORY_PATH
        },
        ModuleType::PrismaRepository => {
            file.append("prisma-");
            file.append(kebab_name);
            file.append(".repository.ts");
            PRISMA_REPOSITORY_PATH
        },
    };
    assert(file@ =~= file_name(*module_type, kebab_name@));
    let mut out = dir.to_owned();
    out.append("/");
    out.append(base_path);
    out.append(directory);
    out.append("/");
    out.append(file.as_str());
    out
}

/// The path of the source of kind `module_type` for the model named
/// `model_name`.
pub fn build_path(dir: &str, base_path: &str, module_type: ModuleType, model_name: &str) -> (out:
    String)
    ensures
        out@ == path_text(dir@, base_path@, module_type, kebab_case(model_name@)),
{
    let kebab_model_name = to_kebab_case(model_name);
    resolve_path(dir, base_path, &module_type, kebab_model_name.as_str())
}

// The plan of what is written

/// Whether the entity is among the chosen kinds.
pub open spec fn selects_entity(modules: Seq<ModuleType>) -> bool {
    exists|i: int| 0 <= i < modules.len() && modules[i] is Entity
}

/// Whether the mapper is among the chosen kinds.
pub open spec fn selects_mapper(modules: Seq<ModuleType>) -> bool {
    exists|i: int| 0 <= i < modules.len() && modules[i] is Mapper
}

/// Whether every chosen kind is one that is chosen by itself. The adapter is
/// not: it comes with its repository.
pub open spec fn selectable(modules: Seq<ModuleType>) -> bool {
    forall|i: int| 0 <= i < modules.len() ==> !(#[trigger] modules[i] is PrismaRepository)
}

/// The sources that one chosen kind stands for: one for the entity, one for
/// the mapper, and for a repository the contract followed by the adapter.
pub open spec fn sources_of(
    module: ModuleType,
    has_mapper: bool,
    has_entity: bool,
    dir: Seq<char>,
    base_path: Seq<char>,
    model: ModelView,
    accessor: Seq<char>,
    kebab: Seq<char>,
) -> Seq<SourceFileView> {
    match module {
        ModuleType::Entity => seq![
            SourceFileView {
                path: path_text(dir, base_path, ModuleType::Entity, kebab),
                contents: entity_text(model, accessor),
            },
        ],
        ModuleType::Mapper => seq![
            SourceFileView {
                path: path_text(dir, base_path, ModuleType::Mapper, kebab),
                contents: mapper_text(model),
            },
        ],
        ModuleType::Repository(methods) => seq![
            SourceFileView {
                path: path_text(dir, base_path, ModuleType::Repository(None), kebab),
                contents: contract_text(model.name, chosen(methods), has_entity),
            },
            SourceFileView {
                path: path_text(dir, base_path, ModuleType::PrismaRepository, kebab),
                contents: adapter_text(
                    model.name,
                    accessor,
                    chosen(methods),
                    has_mapper,
                    has_entity,
                ),
            },
        ],
        ModuleType::PrismaRepository => Seq::empty(),
    }
}

/// [`sources_of`] as a function of the chosen kind alone.
pub open spec fn sources_for(
    has_mapper: bool,
    has_entity: bool,
    dir: Seq<char>,
    base_path: Seq<char>,
    model: ModelView,
    accessor: Seq<char>,
    kebab: Seq<char>,
) -> spec_fn(ModuleType) -> Seq<SourceFileView> {
    |module: ModuleType|
        sources_of(module, has_mapper, has_entity, dir, base_path, model, accessor, kebab)
}

/// All sources for a choice of kinds, in the order of the choice. A
/// repository is typed by the entity, and maps its results, exactly where the
/// entity, or the mapper, is chosen too.
pub open spec fn planned_sources(
    modules: Seq<ModuleType>,
    dir: Seq<char>,
    base_path: Seq<char>,
    model: ModelView,
    accessor: Seq<char>,
    kebab: Seq<char>,
) -> Seq<SourceFileView> {
    modules.map_values(
        sources_for(
            selects_mapper(modules),
            selects_entity(modules),
            dir,
            base_path,
            model,
            accessor,
            kebab,
        ),
    ).flatten()
}

/// Whether the entity is among the chosen kinds.
pub fn has_entity(modules: &Vec<ModuleType>) -> (found: bool)
    ensures
        found == selects_entity(modules@),
{
    let mut i: usize = 0;
    while i < modules.len()
        invariant
            i <= modules.len(),
            forall|j: int| 0 <= j < i ==> !(modules@[j] is Entity),
        decreases modules.len() - i,
    {
        if let ModuleType::Entity = &modules[i] {
            return true;
        }
        i += 1;
    }
    false
}

/// Whether the mapper is among the chosen kinds.
pub fn has_mapper(modules: &Vec<ModuleType>) -> (found: bool)
    ensures
        found == selects_mapper(modules@),
{
    let mut i: usize = 0;
    while i < modules.len()
        invariant
            i <= modules.len(),
            forall|j: int| 0 <= j < i ==> !(modules@[j] is Mapper),
        decreases modules.len() - i,
    {
        if let ModuleType::Mapper = &modules[i] {
            return true;
        }
        i += 1;
    }
    false
}

/// Renders every source that `modules` asks for, given the name of the
/// persistence accessor and the kebab-case name of the model.
pub fn plan_modules(
    modules: &Vec<ModuleType>,
    dir: &str,
    base_path: &str,
    model: &Model,
    accessor: &str,
    kebab_name: &str,
) -> (files: Vec<SourceFile>)
    requires
        selectable(modules@),
    ensures
        source_views(files@) == planned_sources(
            modules@,
            dir@,
            base_path@,
            model@,
            accessor@,
            kebab_name@,
        ),
{
    let with_mapper = has_mapper(modules);
    let with_entity = has_entity(modules);
    let ghost each = sources_for(
        with_mapper,
        with_entity,
        dir@,
        base_path@,
        model@,
        accessor@,
        kebab_name@,
    );
    let ghost all = modules@.map_values(each);
    let mut files: Vec<SourceFile> = Vec::new();
    assert(source_views(files@) =~= all.take(0).flatten());
    let mut i: usize = 0;
    while i < modules.len()
        invariant
            i <= modules.len(),
            selectable(modules@),
            each == sources_for(
                with_mapper,
                with_entity,
                dir@,
                base_path@,
                model@,
                accessor@,
                kebab_name@,
            ),
            all == modules@.map_values(each),
            source_views(files@) == all.take(i as int).flatten(),
        decreases modules.len() - i,
    {
        let ghost before = source_views(files@);
        match &modules[i] {
            ModuleType::Entity => {
                let path = resolve_path(dir, base_path, &ModuleType::Entity, kebab_name);
                let contents = render_entity(model, accessor);
                files.push(SourceFile { path, contents });
            },
            ModuleType::Mapper => {
                let path = resolve_path(dir, base_path, &ModuleType::Mapper, kebab_name);
                let contents = create_mapper(model);
                files.push(SourceFile { path, contents });
            },
            ModuleType::Repository(methods) => {
                let none: Vec<RepositoryOperations> = Vec::new();
                let list = match methods {
                    Some(list) => list,
                    None => &none,
                };
                let (contract, adapter) = render_repository(
                    model.name.as_str(),
                    accessor,
                    list,
                    with_mapper,
                    with_entity,
                );
                let contract_path = resolve_path(
                    dir,
                    base_path,
                    &ModuleType::Repository(None),
                    kebab_name,
                );
                let adapter_path = resolve_path(
                    dir,
                    base_path,
                    &ModuleType::PrismaRepository,
                    kebab_name,
                );
                files.push(SourceFile { path: contract_path, contents: contract });
                files.push(SourceFile { path: adapter_path, contents: adapter });
            },
            ModuleType::PrismaRepository => {},
        }
        proof {
            assert(all.take(i + 1) =~= all.take(i as int).push(all[i as int]));
            all.take(i as int).lemma_flatten_push(all[i as int]);
            assert(source_views(files@) =~= before + all[i as int]);
        }
        i += 1;
    }
    assert(all.take(all.len() as int) =~= all);
    files
}

/// Renders every source that `modules` asks for, for `model`, below the
/// output root `dir` and the module's base path. Nothing is written: the
/// sources are handed back, each with its path, in the order in which they
/// are to be written.
pub fn write_modules(modules: Vec<ModuleType>, dir: &str, base_path: &str, model: &Model) -> (files:
    Vec<SourceFile>)
    requires
        selectable(modules@),
    ensures
        source_views(files@) == planned_sources(
            modules@,
            dir@,
            base_path@,
            model@,
            lowercase_first(model@.name),
            kebab_case(model@.name),
        ),
{
    let accessor = lowercase_first_char(model.name.as_str());
    let kebab_name = to_kebab_case(model.name.as_str());
    plan_modules(&modules, dir, base_path, model, accessor.as_str(), kebab_name.as_str())
}

// Choosing: labels and operations

/// The label by which a kind of source is offered for choice.
pub open spec fn label_of(module_type: ModuleType) -> Seq<char> {
    match module_type {
        ModuleType::Entity => "Entity"@,
        ModuleType::Mapper => "Mapper"@,
        ModuleType::Repository(_) => "Repository"@,
        ModuleType::PrismaRepository => "Prisma repository"@,
    }
}

impl From<ModuleType> for &'static str {
    fn from(value: ModuleType) -> (label: &'static str)
        ensures
            label@ == label_of(value),
    {
        match value {
            ModuleType::Entity => "Entity",
            ModuleType::Mapper => "Mapper",
            ModuleType::Repository(_) => "Repository",
            ModuleType::PrismaRepository => "Prisma repository",
        }
    }
}

impl vstd::std_specs::convert::FromSpecImpl<ModuleType> for &'static str {
    open spec fn obeys_from_spec() -> bool {
        true
    }

    open spec fn from_spec(value: ModuleType) -> &'static str {
        match value {
            ModuleType::Entity => "Entity",
            ModuleType::Mapper => "Mapper",
            ModuleType::Repository(_) => "Repository",
            ModuleType::PrismaRepository => "Prisma repository",
        }
    }
}

/// Whether `value` is the label of a kind of source.
pub open spec fn is_label(value: Seq<char>) -> bool {
    value == "Entity"@ || value == "Mapper"@ || value == "Repository"@ || value
        == "Prisma repository"@
}

/// The kind of source that a label stands for. A repository named by its
/// label has no operations chosen yet.
pub open spec fn labelled(value: Seq<char>) -> ModuleType {
    if value == "Entity"@ {
        ModuleType::Entity
    } else if value == "Mapper"@ {
        ModuleType::Mapper
    } else if value == "Repository"@ {
        ModuleType::Repository(None)
    } else {
        ModuleType::PrismaRepository
    }
}

/// Whether a kind is a repository whose operations are yet to be chosen.
pub open spec fn awaits_operations(module_type: ModuleType) -> bool {
    module_type matches ModuleType::Repository(None)
}

impl ModuleType {
    /// The kind of source that the label `value` stands for.
    pub fn from(value: &str) -> (kind: ModuleType)
        requires
            is_label(value@),
        ensures
            kind == labelled(value@),
    {
        if str_eq(value, "Entity") {
            ModuleType::Entity
        } else if str_eq(value, "Mapper") {
            ModuleType::Mapper
        } else if str_eq(value, "Repository") {
            ModuleType::Repository(None)
        } else {
            ModuleType::PrismaRepository
        }
    }

    /// The kind of source that `value` stands for, if it is a label at all.
    pub fn from_label(value: &str) -> (kind: Option<ModuleType>)
        ensures
            kind == if is_label(value@) {
                Some(labelled(value@))
            } else {
                None
            },
    {
        if str_eq(value, "Entity") || str_eq(value, "Mapper") || str_eq(value, "Repository")
            || str_eq(value, "Prisma repository") {
            Some(ModuleType::from(value))
        } else {
            None
        }
    }
}

/// Whether a repository among `modules` still awaits its operations.
pub fn needs_operations(modules: &Vec<ModuleType>) -> (needed: bool)
    ensures
        needed == exists|i: int| 0 <= i < modules.len() && awaits_operations(modules@[i]),
{
    let mut i: usize = 0;
    while i < modules.len()
        invariant
            i <= modules.len(),
            forall|j: int| 0 <= j < i ==> !awaits_operations(modules@[j]),
        decreases modules.len() - i,
    {
        if let ModuleType::Repository(None) = &modules[i] {
            return true;
        }
        i += 1;
    }
    false
}

/// Hands the chosen operations to the repository that awaits them: the first
/// such repository among `modules` is replaced by one that holds
/// `operations`. Every other kind stays as it is and where it is.
pub fn with_operations(modules: Vec<ModuleType>, operations: Vec<RepositoryOperations>) -> (out:
    Vec<ModuleType>)
    ensures
        forall|at: int|
            0 <= at < modules.len() && awaits_operations(modules@[at]) && (forall|j: int|
                0 <= j < at ==> !awaits_operations(modules@[j])) ==> out@ == modules@.update(
                at,
                ModuleType::Repository(Some(operations)),
            ),
        (forall|j: int| 0 <= j < modules.len() ==> !awaits_operations(modules@[j])) ==> out@
            == modules@,
{
    let mut out = modules;
    let mut i: usize = 0;
    while i < out.len()
        invariant
            i <= out.len(),
            out@ == modules@,
            forall|j: int| 0 <= j < i ==> !awaits_operations(modules@[j]),
        decreases out.len() - i,
    {
        if let ModuleType::Repository(None) = &out[i] {
            out.set(i, ModuleType::Repository(Some(operations)));
            return out;
        }
        i += 1;
    }
    out
}

} // verus!
