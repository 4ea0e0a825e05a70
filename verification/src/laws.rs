//! What holds of every rendering, stated once and proved.

use crate::code_gen::{
    adapter_member, adapter_text, canonical_operations, chosen, contract_line, contract_member,
    contract_text, declaration, declaration_of, entity_text, input_type_of, is_mappable,
    join_rendered, lemma_join_rendered_step, mapped_value, mapper_text, mapping, mapping_of,
    member_body, members, method_text, needs_coercion, planned_sources, promised,
    rendered_or_empty, return_type_of, selects_entity, selects_mapper, source_views, sources_for,
    ts_type, ModuleType, RepositoryOperations, SourceFile,
};
use crate::parser::{FieldView, ModelView};
use vstd::prelude::*;
use vstd::utf8::encode_utf8;

verus! {

/// The fields that are rendered: those whose tag is a scalar type.
pub open spec fn mappable() -> spec_fn(FieldView) -> bool {
    |field: FieldView| is_mappable(field)
}

/// The member that declares a mappable field: its indentation, `readonly`
/// where the member is immutable, and the field's name, type and
/// nullability.
pub open spec fn declared(read_only: bool) -> spec_fn(FieldView) -> Seq<char> {
    |field: FieldView|
        (if read_only {
            "\n  readonly "@
        } else {
            "\n  "@
        }) + member_body(ts_type(field.field_type)->0, field.name, field.is_optional)
}

/// Rendering what can be rendered is choosing first and rendering then.
proof fn lemma_filter_then_map<A, B>(
    items: Seq<A>,
    render: spec_fn(A) -> Option<B>,
    keep: spec_fn(A) -> bool,
    map: spec_fn(A) -> B,
)
    requires
        forall|x: A| #[trigger] render(x) == (if keep(x) { Some(map(x)) } else { None::<B> }),
    ensures
        items.filter_map(render) == items.filter(keep).map_values(map),
    decreases items.len(),
{
    reveal(Seq::filter);
    if items.len() > 0 {
        let rest = items.drop_last();
        lemma_filter_then_map(rest, render, keep, map);
        if keep(items.last()) {
            assert(rest.filter(keep).push(items.last()).map_values(map) =~= rest.filter(
                keep,
            ).map_values(map) + seq![map(items.last())]);
        }
    } else {
        assert(items.filter_map(render) =~= items.filter(keep).map_values(map));
    }
}

/// The interface and the class of an entity declare the same fields: the
/// mappable fields of the model, all of them, in the order of the model.
/// The class declares each as the interface does, with `readonly` before
/// it; in nothing else do the two lists of members differ.
pub proof fn entity_members_agree(model: ModelView, param: Seq<char>)
    ensures
        entity_text(model, param) == "export interface I"@ + model.name + " {"@ + members(
            model.fields,
            false,
        ) + "\n}\n\n"@ + "export class "@ + model.name + " implements I"@ + model.name + " {"@
            + members(model.fields, true) + "\n\n  constructor("@ + param + ": I"@ + model.name
            + ") {\n    Object.assign(this, "@ + param + ")\n  }\n}\n"@,
        forall|read_only: bool| #[trigger]
            members(model.fields, read_only) == model.fields.filter(mappable()).map_values(
                declared(read_only),
            ).flatten(),
        forall|field: FieldView| #[trigger]
            is_mappable(field) ==> declared(false)(field) == "\n  "@ + member_body(
                ts_type(field.field_type)->0,
                field.name,
                field.is_optional,
            ) && declared(true)(field) == "\n  readonly "@ + member_body(
                ts_type(field.field_type)->0,
                field.name,
                field.is_optional,
            ),
{
    assert forall|read_only: bool| #[trigger]
        members(model.fields, read_only) == model.fields.filter(mappable()).map_values(
            declared(read_only),
        ).flatten() by {
        lemma_filter_then_map(
            model.fields,
            declaration_of(read_only),
            mappable(),
            declared(read_only),
        );
    }
}

/// The line by which the mapper hands over a mappable field.
pub open spec fn mapped() -> spec_fn(FieldView) -> Seq<char> {
    |field: FieldView| "\n      "@ + field.name + ": "@ + mapped_value(field) + ","@
}

/// The mapper hands over the same fields that the entity declares: the
/// mappable fields of the model, all of them, in the order of the model. A
/// field that is not mappable is not referred to.
pub proof fn mapper_maps_the_mappable_fields(model: ModelView)
    ensures
        mapper_text(model) == "export class "@ + model.name
            + "Mapper {\n  static toDomain(data: Persistence"@ + model.name + "): "@ + model.name
            + " {\n    return new "@ + model.name + "({"@ + model.fields.filter(
            mappable(),
        ).map_values(mapped()).flatten() + "\n    })\n  }\n}"@,
{
    lemma_filter_then_map(model.fields, mapping_of(), mappable(), mapped());
}

/// A `Decimal` or `BigInt` field is declared as a `number`, and the mapper
/// coerces what the persistence record holds for it with `Number(..)`. Every
/// other mappable field is handed over as the record holds it. A field that
/// is not mappable is neither declared nor mapped.
pub proof fn big_numbers_are_coerced(field: FieldView, read_only: bool)
    ensures
        needs_coercion(field.field_type) ==> ts_type(field.field_type) == Some("number"@)
            && declaration(field, read_only) == Some(
            (if read_only {
                "\n  readonly "@
            } else {
                "\n  "@
            }) + member_body("number"@, field.name, field.is_optional),
        ) && mapping(field) == Some(
            "\n      "@ + field.name + ": "@ + ("Number(data."@ + field.name + ")"@) + ","@,
        ),
        is_mappable(field) && !needs_coercion(field.field_type) ==> mapping(field) == Some(
            "\n      "@ + field.name + ": "@ + ("data."@ + field.name) + ","@,
        ),
        !is_mappable(field) ==> declaration(field, read_only) is None && mapping(field) is None,
{
}

/// Whether `pattern` occurs somewhere in `text`.
pub open spec fn occurs_in(pattern: Seq<char>, text: Seq<char>) -> bool {
    exists|i: int| occurs_at(pattern, text, i)
}

/// Whether `pattern` occurs in `text` at index `i`.
pub open spec fn occurs_at(pattern: Seq<char>, text: Seq<char>, i: int) -> bool {
    0 <= i && i + pattern.len() <= text.len() && text.subrange(i, i + pattern.len()) == pattern
}

/// The adapter's `delete` up to the name of the accessor.
pub open spec fn delete_opening() -> Seq<char> {
    "async delete(id: string) {\n    await this.prisma."@
}

/// The adapter's `delete` after the name of the accessor: the update that
/// stamps the record with the time of its deletion.
pub open spec fn delete_closing() -> Seq<char> {
    ".update({\n      where: {\n        id,\n      },\n      data: {\n        deletedAt: new Date(),\n      },\n    })\n  }"@
}

/// A call `.delete(` in the adapter's `delete` can only come from the name
/// of the accessor.
proof fn lemma_delete_call_comes_from_accessor(accessor: Seq<char>, i: int)
    requires
        occurs_at(".delete("@, delete_opening() + accessor + delete_closing(), i),
    ensures
        occurs_in(".delete("@, accessor) || "delete("@.is_prefix_of(accessor),
{
    reveal_strlit("async delete(id: string) {\n    await this.prisma.");
    reveal_strlit(
        ".update({\n      where: {\n        id,\n      },\n      data: {\n        deletedAt: new Date(),\n      },\n    })\n  }",
    );
    reveal_strlit(".delete(");
    reveal_strlit("delete(");
    let pattern = ".delete("@;
    let opening = delete_opening();
    let closing = delete_closing();
    let text = opening + accessor + closing;
    let n = accessor.len() as int;
    assert forall|k: int| 0 <= k < 8 implies text[i + k] == pattern[k] by {
        assert(text.subrange(i, i + 8)[k] == text[i + k]);
    }
    if i < 48 {
        assert(text[i] == pattern[0]);
        assert(text[i + 1] == pattern[1]);
    } else if i == 48 {
        if n < 7 {
            assert(text[i + 1 + n] == pattern[1 + n]);
        } else {
            assert forall|k: int| 0 <= k < 7 implies accessor[k] == "delete("@[k] by {
                assert(text[i + 1 + k] == pattern[1 + k]);
            }
            assert("delete("@ =~= accessor.subrange(0, 7));
        }
    } else if i < 49 + n {
        if i + 8 <= 49 + n {
            assert forall|k: int| 0 <= k < 8 implies accessor[i - 49 + k] == pattern[k] by {
                assert(text[i + k] == pattern[k]);
            }
            assert(accessor.subrange(i - 49, i - 49 + 8) =~= pattern);
            assert(occurs_at(pattern, accessor, i - 49));
        } else {
            assert(text[i + (49 + n - i)] == pattern[49 + n - i]);
        }
    } else {
        assert(text[i] == pattern[0]);
        assert(text[i + 1] == pattern[1]);
    }
}

/// A `return` in the adapter's `delete` can only come from the name of the
/// accessor.
proof fn lemma_return_comes_from_accessor(accessor: Seq<char>, i: int)
    requires
        occurs_at("return"@, delete_opening() + accessor + delete_closing(), i),
    ensures
        occurs_in("return"@, accessor),
{
    reveal_strlit("async delete(id: string) {\n    await this.prisma.");
    reveal_strlit(
        ".update({\n      where: {\n        id,\n      },\n      data: {\n        deletedAt: new Date(),\n      },\n    })\n  }",
    );
    reveal_strlit("return");
    let pattern = "return"@;
    let opening = delete_opening();
    let closing = delete_closing();
    let text = opening + accessor + closing;
    let n = accessor.len() as int;
    assert forall|k: int| 0 <= k < 6 implies text[i + k] == pattern[k] by {
        assert(text.subrange(i, i + 6)[k] == text[i + k]);
    }
    if i < 49 {
        if i + 6 <= 49 {
            assert(text[i] == pattern[0]);
            assert(text[i + 1] == pattern[1]);
            assert(text[i + 2] == pattern[2]);
        } else {
            assert(text[i + (48 - i)] == pattern[48 - i]);
        }
    } else if i < 49 + n {
        if i + 6 <= 49 + n {
            assert forall|k: int| 0 <= k < 6 implies accessor[i - 49 + k] == pattern[k] by {
                assert(text[i + k] == pattern[k]);
            }
            assert(accessor.subrange(i - 49, i - 49 + 6) =~= pattern);
            assert(occurs_at(pattern, accessor, i - 49));
        } else {
            assert(text[i + (49 + n - i)] == pattern[49 + n - i]);
        }
    } else {
        assert(text[i] == pattern[0]);
        assert(text[i + 1] == pattern[1]);
        assert(text[i + 2] == pattern[2]);
    }
}

/// What occurs in the name of the accessor occurs in the text around it.
proof fn lemma_occurs_within(
    pattern: Seq<char>,
    opening: Seq<char>,
    accessor: Seq<char>,
    closing: Seq<char>,
)
    requires
        occurs_in(pattern, accessor),
    ensures
        occurs_in(pattern, opening + accessor + closing),
{
    let j = choose|j: int| occurs_at(pattern, accessor, j);
    let text = opening + accessor + closing;
    let at = opening.len() + j;
    assert(text.subrange(at, at + pattern.len()) =~= accessor.subrange(j, j + pattern.len()));
    assert(occurs_at(pattern, text, at));
}

/// A deletion is soft. The adapter's `delete` awaits one call of the
/// accessor's `update`, which sets `deletedAt` to the current time on the
/// record with the given `id`, and that is all it does, whatever else is
/// chosen. It calls no `.delete(` and has no `return`, unless the name of
/// the accessor itself spells one.
pub proof fn delete_is_soft(
    accessor: Seq<char>,
    model_name: Seq<char>,
    input_type: Seq<char>,
    return_type: Seq<char>,
    has_mapper: bool,
)
    ensures
        method_text(
            accessor,
            model_name,
            input_type,
            return_type,
            has_mapper,
            RepositoryOperations::Delete,
        ) == delete_opening() + accessor + delete_closing(),
        promised(RepositoryOperations::Delete, return_type) == "void"@,
        occurs_in("deletedAt: new Date()"@, delete_closing()),
        occurs_in(".delete("@, delete_opening() + accessor + delete_closing()) <==> occurs_in(
            ".delete("@,
            accessor,
        ) || "delete("@.is_prefix_of(accessor),
        occurs_in("return"@, delete_opening() + accessor + delete_closing()) <==> occurs_in(
            "return"@,
            accessor,
        ),
{
    let opening = delete_opening();
    let closing = delete_closing();
    let text = opening + accessor + closing;
    assert(method_text(
        accessor,
        model_name,
        input_type,
        return_type,
        has_mapper,
        RepositoryOperations::Delete,
    ) =~= text) by {
        reveal_strlit("async delete(id: string) {\n    await this.prisma.");
        reveal_strlit(
            ".update({\n      where: {\n        id,\n      },\n      data: {\n        deletedAt: new Date(),\n      },\n    })\n  }",
        );
        reveal_strlit("async ");
        reveal_strlit("delete");
        reveal_strlit("(");
        reveal_strlit(")");
        reveal_strlit("id: string");
        reveal_strlit(" {\n");
        reveal_strlit("    await ");
        reveal_strlit("this.prisma.");
        reveal_strlit(".");
        reveal_strlit("update");
        reveal_strlit("({\n");
        reveal_strlit("    ");
        reveal_strlit("  ");
        reveal_strlit("where: {\n");
        reveal_strlit("  id,\n");
        reveal_strlit("},\n");
        reveal_strlit("data: {\n");
        reveal_strlit("  deletedAt: new Date(),\n");
        reveal_strlit("})");
        reveal_strlit("\n  }");
    }
    assert(occurs_at("deletedAt: new Date()"@, closing, 68)) by {
        reveal_strlit(
            ".update({\n      where: {\n        id,\n      },\n      data: {\n        deletedAt: new Date(),\n      },\n    })\n  }",
        );
        reveal_strlit("deletedAt: new Date()");
        assert(closing.subrange(68, 89) =~= "deletedAt: new Date()"@);
    }
    if occurs_in(".delete("@, text) {
        let i = choose|i: int| occurs_at(".delete("@, text, i);
        lemma_delete_call_comes_from_accessor(accessor, i);
    }
    if occurs_in(".delete("@, accessor) {
        lemma_occurs_within(".delete("@, opening, accessor, closing);
    }
    if "delete("@.is_prefix_of(accessor) {
        reveal_strlit("async delete(id: string) {\n    await this.prisma.");
        reveal_strlit(".delete(");
        reveal_strlit("delete(");
        assert(text.subrange(48, 56) =~= ".delete("@) by {
            assert forall|k: int| 1 <= k < 8 implies text[48 + k] == ".delete("@[k] by {
                assert(accessor.subrange(0, 7)[k - 1] == "delete("@[k - 1]);
            }
        }
        assert(occurs_at(".delete("@, text, 48));
    }
    if occurs_in("return"@, text) {
        let i = choose|i: int| occurs_at("return"@, text, i);
        lemma_return_comes_from_accessor(accessor, i);
    }
    if occurs_in("return"@, accessor) {
        lemma_occurs_within("return"@, opening, accessor, closing);
    }
}

/// What an operation adds to a class: `text` where the operation is among
/// `methods`, nothing where it is not.
pub open spec fn if_chosen(
    methods: Seq<RepositoryOperations>,
    op: RepositoryOperations,
    text: Seq<char>,
) -> Seq<char> {
    if methods.contains(op) {
        text
    } else {
        Seq::empty()
    }
}

/// Joining over the five operations, written out.
proof fn lemma_join_over_operations(render: spec_fn(RepositoryOperations) -> Option<Seq<char>>)
    ensures
        join_rendered(canonical_operations(), render) == rendered_or_empty(
            render(RepositoryOperations::Find),
        ) + rendered_or_empty(render(RepositoryOperations::FindMany)) + rendered_or_empty(
            render(RepositoryOperations::Create),
        ) + rendered_or_empty(render(RepositoryOperations::Delete)) + rendered_or_empty(
            render(RepositoryOperations::Update),
        ),
{
    let all = canonical_operations();
    assert(join_rendered(all.take(0), render) =~= Seq::<char>::empty());
    lemma_join_rendered_step(all, render, 0);
    lemma_join_rendered_step(all, render, 1);
    lemma_join_rendered_step(all, render, 2);
    lemma_join_rendered_step(all, render, 3);
    lemma_join_rendered_step(all, render, 4);
    assert(all.take(5) =~= all);
    assert(Seq::<char>::empty() + rendered_or_empty(render(RepositoryOperations::Find))
        =~= rendered_or_empty(render(RepositoryOperations::Find)));
}

/// Both classes of a repository list the chosen operations in one fixed
/// order: `find`, `findMany`, `create`, `delete`, `update`. Each chosen
/// operation is there once, and no other is there.
pub proof fn repository_lists_in_canonical_order(
    model_name: Seq<char>,
    accessor: Seq<char>,
    methods: Seq<RepositoryOperations>,
    has_mapper: bool,
    has_entity: bool,
)
    ensures
        ({
            let input = input_type_of(model_name, has_entity);
            let output = return_type_of(model_name, has_entity);
            let declare = |op: RepositoryOperations|
                if_chosen(methods, op, contract_line(op, input, output));
            contract_text(model_name, methods, has_entity) == "export abstract class "@
                + model_name + "Repository {"@ + (declare(RepositoryOperations::Find) + declare(
                RepositoryOperations::FindMany,
            ) + declare(RepositoryOperations::Create) + declare(RepositoryOperations::Delete)
                + declare(RepositoryOperations::Update)) + "\n}"@
        }),
        ({
            let input = input_type_of(model_name, has_entity);
            let output = return_type_of(model_name, has_entity);
            let implement = |op: RepositoryOperations|
                if_chosen(
                    methods,
                    op,
                    "\n    "@ + method_text(accessor, model_name, input, output, has_mapper, op),
                );
            adapter_text(model_name, accessor, methods, has_mapper, has_entity)
                == "@Injectable()\nexport class Prisma"@ + model_name + "Repository implements "@
                + model_name
                + "Repository {\n    constructor(private readonly prisma: PrismaService) {}"@ + (
            implement(RepositoryOperations::Find) + implement(RepositoryOperations::FindMany)
                + implement(RepositoryOperations::Create) + implement(RepositoryOperations::Delete)
                + implement(RepositoryOperations::Update)) + "\n}"@
        }),
{
    let input = input_type_of(model_name, has_entity);
    let output = return_type_of(model_name, has_entity);
    lemma_join_over_operations(contract_member(methods, input, output));
    lemma_join_over_operations(
        adapter_member(methods, accessor, model_name, input, output, has_mapper),
    );
}

/// The order in which operations were chosen, and how often each was, does
/// not show in a repository: two choices of the same operations render the
/// same two classes.
pub proof fn repository_ignores_order_of_choice(
    model_name: Seq<char>,
    accessor: Seq<char>,
    first: Seq<RepositoryOperations>,
    second: Seq<RepositoryOperations>,
    has_mapper: bool,
    has_entity: bool,
)
    requires
        forall|op: RepositoryOperations| first.contains(op) <==> second.contains(op),
    ensures
        contract_text(model_name, first, has_entity) == contract_text(
            model_name,
            second,
            has_entity,
        ),
        adapter_text(model_name, accessor, first, has_mapper, has_entity) == adapter_text(
            model_name,
            accessor,
            second,
            has_mapper,
            has_entity,
        ),
{
    repository_lists_in_canonical_order(model_name, accessor, first, has_mapper, has_entity);
    repository_lists_in_canonical_order(model_name, accessor, second, has_mapper, has_entity);
}

/// Two kinds stand for the same choice where they are the same kind and,
/// for a repository, hold the same operations.
pub open spec fn same_choice(first: ModuleType, second: ModuleType) -> bool {
    match (first, second) {
        (ModuleType::Entity, ModuleType::Entity) => true,
        (ModuleType::Mapper, ModuleType::Mapper) => true,
        (ModuleType::Repository(a), ModuleType::Repository(b)) => chosen(a) == chosen(b),
        (ModuleType::PrismaRepository, ModuleType::PrismaRepository) => true,
        _ => false,
    }
}

/// Rendering is a function of what is asked for. From the same model, the
/// same choice of kinds, the same output root and the same base path, a
/// second run renders the same sources as the first: as many, in the same
/// order, at the same paths, and with the same bytes.
pub proof fn regeneration_is_identical(
    first: Seq<SourceFile>,
    second: Seq<SourceFile>,
    first_modules: Seq<ModuleType>,
    second_modules: Seq<ModuleType>,
    dir: Seq<char>,
    base_path: Seq<char>,
    model: ModelView,
    accessor: Seq<char>,
    kebab: Seq<char>,
)
    requires
        first_modules.len() == second_modules.len(),
        forall|i: int|
            0 <= i < first_modules.len() ==> same_choice(
                #[trigger] first_modules[i],
                second_modules[i],
            ),
        source_views(first) == planned_sources(
            first_modules,
            dir,
            base_path,
            model,
            accessor,
            kebab,
        ),
        source_views(second) == planned_sources(
            second_modules,
            dir,
            base_path,
            model,
            accessor,
            kebab,
        ),
    ensures
        first.len() == second.len(),
        forall|i: int|
            0 <= i < first.len() ==> (#[trigger] first[i]).path@ == second[i].path@
                && encode_utf8(first[i].contents@) == encode_utf8(second[i].contents@),
{
    assert(selects_mapper(first_modules) == selects_mapper(second_modules)) by {
        if selects_mapper(first_modules) {
            let i = choose|i: int| 0 <= i < first_modules.len() && first_modules[i] is Mapper;
            assert(same_choice(first_modules[i], second_modules[i]));
        }
        if selects_mapper(second_modules) {
            let i = choose|i: int| 0 <= i < second_modules.len() && second_modules[i] is Mapper;
            assert(same_choice(first_modules[i], second_modules[i]));
        }
    }
    assert(selects_entity(first_modules) == selects_entity(second_modules)) by {
        if selects_entity(first_modules) {
            let i = choose|i: int| 0 <= i < first_modules.len() && first_modules[i] is Entity;
            assert(same_choice(first_modules[i], second_modules[i]));
        }
        if selects_entity(second_modules) {
            let i = choose|i: int| 0 <= i < second_modules.len() && second_modules[i] is Entity;
            assert(same_choice(first_modules[i], second_modules[i]));
        }
    }
    let each = sources_for(
        selects_mapper(first_modules),
        selects_entity(first_modules),
        dir,
        base_path,
        model,
        accessor,
        kebab,
    );
    assert(first_modules.map_values(each) =~= second_modules.map_values(each)) by {
        assert forall|i: int| 0 <= i < first_modules.len() implies each(first_modules[i]) == each(
            second_modules[i],
        ) by {
            assert(same_choice(first_modules[i], second_modules[i]));
        }
    }
    assert(source_views(first) == source_views(second));
    assert(first.len() == source_views(first).len());
    assert(second.len() == source_views(second).len());
    assert forall|i: int| 0 <= i < first.len() implies (#[trigger] first[i]).path@
        == second[i].path@ && first[i].contents@ == second[i].contents@ by {
        assert(source_views(first)[i] == first[i]@);
        assert(source_views(second)[i] == second[i]@);
    }
}

} // verus!
