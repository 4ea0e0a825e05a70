use prisma_scaffold::code_gen::{
    build_path, build_repository_methods, build_type_string, canonical_order, create_entity,
    create_mapper, create_repository, get_field_with_type, has_entity, has_mapper, has_operation,
    kebab_with_marks, lowercase_first_char, needs_operations, plan_modules, render_entity,
    render_method,
    render_repository, replace_first_char, resolve_path, scalar_type, to_kebab_case,
    with_operations, write_modules, ModuleType, RepositoryOperations, SourceFile, ENTITY_PATH,
    MAPPER_PATH, PRISMA_REPOSITORY_PATH, REPOSITORY_PATH,
};
use prisma_scaffold::parser::{parse_schema, Field, Model};

fn field(name: &str, field_type: &str, is_optional: bool) -> Field {
    Field { name: name.to_string(), field_type: field_type.to_string(), is_optional }
}

fn user() -> Model {
    Model {
        name: "User".to_string(),
        fields: vec![
            field("id", "String", false),
            field("age", "Int", true),
            field("email", "String", false),
        ],
    }
}

fn account() -> Model {
    Model {
        name: "Account".to_string(),
        fields: vec![
            field("id", "String", false),
            field("balance", "Decimal", false),
            field("big", "BigInt", true),
            field("owner", "User", false),
            field("active", "Boolean", false),
            field("tags", "String[]", false),
            field("openedAt", "DateTime", true),
        ],
    }
}

const USER_ENTITY: &str = "export interface IUser {\n  id: string\n  age: number | null\n  email: string\n}\n\nexport class User implements IUser {\n  readonly id: string\n  readonly age: number | null\n  readonly email: string\n\n  constructor(user: IUser) {\n    Object.assign(this, user)\n  }\n}\n";

const USER_MAPPER: &str = "export class UserMapper {\n  static toDomain(data: PersistenceUser): User {\n    return new User({\n      id: data.id,\n      age: data.age,\n      email: data.email,\n    })\n  }\n}";

#[test]
fn kebab_case_of_the_named_examples() {
    assert_eq!(to_kebab_case("UserProfile"), "user-profile");
    assert_eq!(to_kebab_case("User"), "user");
    assert_eq!(to_kebab_case("ABTest"), "a-b-test");
}

#[test]
fn kebab_case_of_edge_names() {
    assert_eq!(to_kebab_case(""), "");
    assert_eq!(to_kebab_case("user"), "user");
    assert_eq!(to_kebab_case("userID2"), "user-i-d2");
    assert_eq!(to_kebab_case("snake_Case"), "snake_-case");
    assert_eq!(to_kebab_case("a\u{c9}"), "a-\u{e9}");
    assert_eq!(to_kebab_case("caf\u{c9}X"), "caf-\u{e9}-x");
    assert_eq!(to_kebab_case("\u{c9}cole"), "\u{e9}cole");
    assert_eq!(to_kebab_case("x\u{130}y"), "x-i\u{307}y");
    assert_eq!(to_kebab_case("\u{3a3}\u{3a3}"), "\u{3c3}-\u{3c3}");
}

fn pieces(list: &[&str]) -> Vec<String> {
    list.iter().map(|piece| piece.to_string()).collect()
}

#[test]
fn kebab_with_marks_hyphenates_by_the_marks() {
    let lowered = pieces(&["a", "b", "t", "e", "s", "t"]);
    assert_eq!(
        kebab_with_marks(&lowered, &vec![true, true, true, false, false, false]),
        "a-b-test"
    );
    assert_eq!(kebab_with_marks(&lowered, &vec![false; 6]), "abtest");
    assert_eq!(kebab_with_marks(&pieces(&["a", "b", "c"]), &vec![true; 3]), "a-b-c");
    assert_eq!(kebab_with_marks(&pieces(&["a", "b", "c", "d"]), &vec![false, true]), "a-bcd");
    assert_eq!(kebab_with_marks(&pieces(&["a", "b"]), &vec![true, false, true, true]), "ab");
    assert_eq!(kebab_with_marks(&pieces(&[]), &vec![true]), "");
    assert_eq!(kebab_with_marks(&pieces(&["x", "_", "y"]), &vec![false, false, true]), "x_-y");
    assert_eq!(kebab_with_marks(&pieces(&["a", "i\u{307}", ""]), &vec![false, true, true]), "a-i\u{307}-");
}

#[test]
fn lowercase_first_char_lowers_only_the_first() {
    assert_eq!(lowercase_first_char("User"), "user");
    assert_eq!(lowercase_first_char("UserProfile"), "userProfile");
    assert_eq!(lowercase_first_char("already"), "already");
    assert_eq!(lowercase_first_char("X"), "x");
    assert_eq!(lowercase_first_char(""), "");
    assert_eq!(lowercase_first_char("\u{c9}cole"), "\u{e9}cole");
    assert_eq!(lowercase_first_char("\u{130}zmir"), "i\u{307}zmir");
}

#[test]
fn replace_first_char_swaps_the_head() {
    assert_eq!(replace_first_char("User", "u"), "user");
    assert_eq!(replace_first_char("X", "abc"), "abc");
    assert_eq!(replace_first_char("", "abc"), "");
    assert_eq!(replace_first_char("\u{130}z", ""), "z");
}

#[test]
fn scalar_types_follow_the_table() {
    assert_eq!(scalar_type("Float"), Some("number"));
    assert_eq!(scalar_type("Int"), Some("number"));
    assert_eq!(scalar_type("Decimal"), Some("number"));
    assert_eq!(scalar_type("BigInt"), Some("number"));
    assert_eq!(scalar_type("String"), Some("string"));
    assert_eq!(scalar_type("Boolean"), Some("boolean"));
    assert_eq!(scalar_type("DateTime"), Some("Date"));
    assert_eq!(scalar_type("Json"), None);
    assert_eq!(scalar_type("string"), None);
    assert_eq!(scalar_type("Int?"), None);
    assert_eq!(scalar_type(""), None);
}

#[test]
fn build_type_string_formats_a_member() {
    assert_eq!(build_type_string("number", "age", false, false), "\n  age: number");
    assert_eq!(build_type_string("number", "age", true, false), "\n  age: number | null");
    assert_eq!(build_type_string("string", "id", false, true), "\n  readonly id: string");
    assert_eq!(build_type_string("Date", "at", true, true), "\n  readonly at: Date | null");
}

#[test]
fn get_field_with_type_maps_scalars_and_omits_the_rest() {
    assert_eq!(
        get_field_with_type(&field("price", "Decimal", false), false),
        Some("\n  price: number".to_string())
    );
    assert_eq!(
        get_field_with_type(&field("count", "BigInt", true), true),
        Some("\n  readonly count: number | null".to_string())
    );
    assert_eq!(
        get_field_with_type(&field("ratio", "Float", false), true),
        Some("\n  readonly ratio: number".to_string())
    );
    assert_eq!(
        get_field_with_type(&field("ok", "Boolean", true), false),
        Some("\n  ok: boolean | null".to_string())
    );
    assert_eq!(
        get_field_with_type(&field("at", "DateTime", false), false),
        Some("\n  at: Date".to_string())
    );
    assert_eq!(get_field_with_type(&field("owner", "User", false), false), None);
    assert_eq!(get_field_with_type(&field("role", "Role", true), true), None);
}

#[test]
fn entity_of_the_user_model() {
    assert_eq!(create_entity(&user()), USER_ENTITY);
}

#[test]
fn entity_from_schema_text() {
    let schema: Vec<String> = "model User {\n  id String\n  age Int?\n  email String\n}\n"
        .lines()
        .map(String::from)
        .collect();
    let models = parse_schema(&schema);
    assert_eq!(models.len(), 1);
    assert_eq!(create_entity(&models[0]), USER_ENTITY);
}

#[test]
fn entity_lists_the_same_fields_twice() {
    let text = create_entity(&account());
    assert_eq!(
        text,
        "export interface IAccount {\n  id: string\n  balance: number\n  big: number | null\n  active: boolean\n  openedAt: Date | null\n}\n\nexport class Account implements IAccount {\n  readonly id: string\n  readonly balance: number\n  readonly big: number | null\n  readonly active: boolean\n  readonly openedAt: Date | null\n\n  constructor(account: IAccount) {\n    Object.assign(this, account)\n  }\n}\n"
    );
    let (interface, class) = text.split_once("\n}\n\n").unwrap();
    let declared: Vec<&str> = interface.lines().skip(1).collect();
    let held: Vec<String> = class
        .lines()
        .skip(1)
        .take_while(|line| !line.is_empty())
        .map(|line| line.replacen("readonly ", "", 1))
        .collect();
    assert_eq!(declared, held);
    assert!(!text.contains("owner"));
    assert!(!text.contains("tags"));
}

#[test]
fn entity_of_a_model_without_mappable_fields() {
    let model = Model { name: "Link".to_string(), fields: vec![field("a", "A", false)] };
    assert_eq!(
        create_entity(&model),
        "export interface ILink {\n}\n\nexport class Link implements ILink {\n\n  constructor(link: ILink) {\n    Object.assign(this, link)\n  }\n}\n"
    );
}

#[test]
fn render_entity_takes_the_parameter_name() {
    let model = Model { name: "A".to_string(), fields: vec![] };
    assert_eq!(
        render_entity(&model, "value"),
        "export interface IA {\n}\n\nexport class A implements IA {\n\n  constructor(value: IA) {\n    Object.assign(this, value)\n  }\n}\n"
    );
}

#[test]
fn mapper_passes_scalars_through() {
    assert_eq!(create_mapper(&user()), USER_MAPPER);
}

#[test]
fn mapper_coerces_decimal_and_bigint() {
    assert_eq!(
        create_mapper(&account()),
        "export class AccountMapper {\n  static toDomain(data: PersistenceAccount): Account {\n    return new Account({\n      id: data.id,\n      balance: Number(data.balance),\n      big: Number(data.big),\n      active: data.active,\n      openedAt: data.openedAt,\n    })\n  }\n}"
    );
}

#[test]
fn create_with_and_without_mapper() {
    assert_eq!(
        build_repository_methods("User", "Partial<User>", "User", true, &RepositoryOperations::Create),
        "async create(data: Partial<User>): Promise<User> {\n    const result = await this.prisma.user.create({\n      data,\n    })\n\n    return UserMapper.toDomain(result)\n  }"
    );
    assert_eq!(
        build_repository_methods("User", "any", "any", false, &RepositoryOperations::Create),
        "async create(data: any): Promise<any> {\n      return this.prisma.user.create({\n        data,\n      })\n  }"
    );
}

#[test]
fn find_with_and_without_mapper() {
    assert_eq!(
        build_repository_methods("User", "Partial<User>", "User", true, &RepositoryOperations::Find),
        "async find(data: Partial<User>): Promise<User> {\n    const result = await this.prisma.user.findFirst({\n      where: data,\n    })\n\n    return UserMapper.toDomain(result)\n  }"
    );
    assert_eq!(
        build_repository_methods("User", "any", "any", false, &RepositoryOperations::Find),
        "async find(data: any): Promise<any> {\n      return this.prisma.user.findFirst({\n        where: data,\n      })\n  }"
    );
}

#[test]
fn find_many_with_and_without_mapper() {
    assert_eq!(
        build_repository_methods(
            "UserProfile",
            "Partial<UserProfile>",
            "UserProfile",
            true,
            &RepositoryOperations::FindMany
        ),
        "async findMany(data: Partial<UserProfile>): Promise<UserProfile[]> {\n    const result = await this.prisma.userProfile.findMany({\n      where: data,\n    })\n\n    return result.map(UserProfileMapper.toDomain)\n  }"
    );
    assert_eq!(
        build_repository_methods("User", "any", "any", false, &RepositoryOperations::FindMany),
        "async findMany(data: any): Promise<any[]> {\n      return this.prisma.user.findMany({\n        where: data,\n      })\n  }"
    );
}

#[test]
fn update_with_and_without_mapper() {
    assert_eq!(
        build_repository_methods("User", "Partial<User>", "User", true, &RepositoryOperations::Update),
        "async update(id: string, data: Partial<User>): Promise<User> {\n    const result = await this.prisma.user.update({\n      where: {\n        id,\n      },\n      data,\n    })\n\n    return UserMapper.toDomain(result)\n  }"
    );
    assert_eq!(
        build_repository_methods("User", "any", "any", false, &RepositoryOperations::Update),
        "async update(id: string, data: any): Promise<any> {\n      return this.prisma.user.update({\n        where: {\n          id,\n        },\n        data,\n      })\n  }"
    );
}

#[test]
fn delete_marks_the_record_and_returns_nothing() {
    let expected = "async delete(id: string) {\n    await this.prisma.user.update({\n      where: {\n        id,\n      },\n      data: {\n        deletedAt: new Date(),\n      },\n    })\n  }";
    for has_mapper in [false, true] {
        let text = build_repository_methods(
            "User",
            "Partial<User>",
            "User",
            has_mapper,
            &RepositoryOperations::Delete,
        );
        assert_eq!(text, expected);
        assert!(!text.contains(".delete("));
        assert!(!text.contains("return"));
        assert!(text.contains("this.prisma.user.update("));
        assert!(text.contains("deletedAt: new Date()"));
    }
}

#[test]
fn render_method_takes_the_accessor() {
    assert_eq!(
        render_method("db", "M", "In", "Out", true, &RepositoryOperations::FindMany),
        "async findMany(data: In): Promise<Out[]> {\n    const result = await this.prisma.db.findMany({\n      where: data,\n    })\n\n    return result.map(MMapper.toDomain)\n  }"
    );
    assert_eq!(
        render_method("", "", "", "", false, &RepositoryOperations::Create),
        "async create(data: ): Promise<> {\n      return this.prisma..create({\n        data,\n      })\n  }"
    );
}

#[test]
fn repository_of_delete_and_find_is_ordered_find_then_delete() {
    let (contract, adapter) = create_repository(
        &user(),
        Some(vec![RepositoryOperations::Delete, RepositoryOperations::Find]),
        false,
        false,
    );
    assert_eq!(
        contract,
        "export abstract class UserRepository {\n    abstract find(data: any): Promise<any>\n    abstract delete(id: string): Promise<void>\n}"
    );
    assert_eq!(
        adapter,
        "@Injectable()\nexport class PrismaUserRepository implements UserRepository {\n    constructor(private readonly prisma: PrismaService) {}\n    async find(data: any): Promise<any> {\n      return this.prisma.user.findFirst({\n        where: data,\n      })\n  }\n    async delete(id: string) {\n    await this.prisma.user.update({\n      where: {\n        id,\n      },\n      data: {\n        deletedAt: new Date(),\n      },\n    })\n  }\n}"
    );
    assert_eq!(contract.matches("abstract ").count(), 3);
    assert_eq!(adapter.matches("async ").count(), 2);
}

#[test]
fn repository_does_not_depend_on_the_order_of_choice() {
    let one = create_repository(
        &user(),
        Some(vec![
            RepositoryOperations::Update,
            RepositoryOperations::Create,
            RepositoryOperations::Find,
            RepositoryOperations::Create,
        ]),
        true,
        true,
    );
    let other = create_repository(
        &user(),
        Some(vec![
            RepositoryOperations::Find,
            RepositoryOperations::Create,
            RepositoryOperations::Update,
        ]),
        true,
        true,
    );
    assert_eq!(one, other);
    let find = one.0.find("abstract find(").unwrap();
    let create = one.0.find("abstract create(").unwrap();
    let update = one.0.find("abstract update(").unwrap();
    assert!(find < create && create < update);
    assert!(!one.0.contains("findMany"));
    assert!(!one.0.contains("delete"));
}

#[test]
fn repository_with_every_operation_entity_and_mapper() {
    let (contract, adapter) = create_repository(&user(), Some(canonical_order()), true, true);
    assert_eq!(
        contract,
        "export abstract class UserRepository {\n    abstract find(data: Partial<User>): Promise<User>\n    abstract findMany(data: Partial<User>): Promise<User[]>\n    abstract create(data: Partial<User>): Promise<User>\n    abstract delete(id: string): Promise<void>\n    abstract update(id: string, data: Partial<User>): Promise<User>\n}"
    );
    let mut expected = String::from(
        "@Injectable()\nexport class PrismaUserRepository implements UserRepository {\n    constructor(private readonly prisma: PrismaService) {}",
    );
    for op in canonical_order() {
        expected.push_str("\n    ");
        expected.push_str(&build_repository_methods("User", "Partial<User>", "User", true, &op));
    }
    expected.push_str("\n}");
    assert_eq!(adapter, expected);
}

#[test]
fn repository_without_operations_is_empty() {
    let none = create_repository(&user(), None, true, true);
    let empty = create_repository(&user(), Some(vec![]), true, true);
    assert_eq!(none, empty);
    assert_eq!(none.0, "export abstract class UserRepository {\n}");
    assert_eq!(
        none.1,
        "@Injectable()\nexport class PrismaUserRepository implements UserRepository {\n    constructor(private readonly prisma: PrismaService) {}\n}"
    );
}

#[test]
fn repository_types_follow_the_entity_alone() {
    let ops = vec![RepositoryOperations::Create];
    let typed = render_repository("User", "user", &ops, false, true);
    assert_eq!(
        typed.0,
        "export abstract class UserRepository {\n    abstract create(data: Partial<User>): Promise<User>\n}"
    );
    assert!(typed.1.contains("async create(data: Partial<User>): Promise<User> {\n      return this.prisma.user.create({"));
    let mapped = render_repository("User", "user", &ops, true, false);
    assert_eq!(
        mapped.0,
        "export abstract class UserRepository {\n    abstract create(data: any): Promise<any>\n}"
    );
    assert!(mapped.1.contains("return UserMapper.toDomain(result)"));
}

#[test]
fn canonical_order_is_fixed() {
    assert_eq!(
        canonical_order(),
        vec![
            RepositoryOperations::Find,
            RepositoryOperations::FindMany,
            RepositoryOperations::Create,
            RepositoryOperations::Delete,
            RepositoryOperations::Update,
        ]
    );
}

#[test]
fn has_operation_looks_through_the_choice() {
    let ops = vec![RepositoryOperations::Delete, RepositoryOperations::Find];
    assert!(has_operation(&ops, RepositoryOperations::Find));
    assert!(has_operation(&ops, RepositoryOperations::Delete));
    assert!(!has_operation(&ops, RepositoryOperations::Update));
    assert!(!has_operation(&Vec::new(), RepositoryOperations::Find));
}

#[test]
fn operations_are_shown_by_their_method_names() {
    assert_eq!(RepositoryOperations::Create.to_string(), "create");
    assert_eq!(RepositoryOperations::Find.to_string(), "find");
    assert_eq!(RepositoryOperations::FindMany.to_string(), "findMany");
    assert_eq!(RepositoryOperations::Delete.to_string(), "delete");
    assert_eq!(RepositoryOperations::Update.to_string(), "update");
    assert_eq!(RepositoryOperations::FindMany.name(), "findMany");
}

#[test]
fn kinds_and_labels_convert_both_ways() {
    assert_eq!(<&str>::from(ModuleType::Entity), "Entity");
    assert_eq!(<&str>::from(ModuleType::Mapper), "Mapper");
    assert_eq!(<&str>::from(ModuleType::Repository(None)), "Repository");
    assert_eq!(
        <&str>::from(ModuleType::Repository(Some(vec![RepositoryOperations::Find]))),
        "Repository"
    );
    assert_eq!(<&str>::from(ModuleType::PrismaRepository), "Prisma repository");
    assert_eq!(ModuleType::from("Entity"), ModuleType::Entity);
    assert_eq!(ModuleType::from("Mapper"), ModuleType::Mapper);
    assert_eq!(ModuleType::from("Repository"), ModuleType::Repository(None));
    assert_eq!(ModuleType::from("Prisma repository"), ModuleType::PrismaRepository);
    assert_eq!(ModuleType::from_label("Mapper"), Some(ModuleType::Mapper));
    assert_eq!(ModuleType::from_label("mapper"), None);
    assert_eq!(ModuleType::from_label(""), None);
}

#[test]
fn paths_follow_the_layout() {
    assert_eq!(ENTITY_PATH, "domain/entity/");
    assert_eq!(MAPPER_PATH, "infra/database/prisma/mappers");
    assert_eq!(REPOSITORY_PATH, "app/repositories");
    assert_eq!(PRISMA_REPOSITORY_PATH, "infra/database/prisma");
    assert_eq!(
        build_path("/work/api", "src/", ModuleType::Entity, "UserProfile"),
        "/work/api/src/domain/entity//user-profile.entity.ts"
    );
    assert_eq!(
        build_path("/work/api", "src/", ModuleType::Mapper, "UserProfile"),
        "/work/api/src/infra/database/prisma/mappers/user-profile.mapper.ts"
    );
    assert_eq!(
        build_path("/work/api", "src/", ModuleType::Repository(None), "UserProfile"),
        "/work/api/src/app/repositories/user-profile.repository.ts"
    );
    assert_eq!(
        build_path(
            "/work/api",
            "src/",
            ModuleType::Repository(Some(vec![RepositoryOperations::Find])),
            "User"
        ),
        "/work/api/src/app/repositories/user.repository.ts"
    );
    assert_eq!(
        build_path("/work/api", "src/", ModuleType::PrismaRepository, "UserProfile"),
        "/work/api/src/infra/database/prisma/prisma-user-profile.repository.ts"
    );
    assert_eq!(
        build_path("", "", ModuleType::Mapper, ""),
        "/infra/database/prisma/mappers/.mapper.ts"
    );
}

#[test]
fn resolve_path_takes_the_kebab_name() {
    assert_eq!(
        resolve_path("root", "libs/core/", &ModuleType::PrismaRepository, "a-b"),
        "root/libs/core/infra/database/prisma/prisma-a-b.repository.ts"
    );
}

#[test]
fn has_entity_and_has_mapper_look_through_the_choice() {
    let modules = vec![ModuleType::Repository(None), ModuleType::Mapper];
    assert!(has_mapper(&modules));
    assert!(!has_entity(&modules));
    assert!(has_entity(&vec![ModuleType::Entity]));
    assert!(!has_mapper(&Vec::new()));
}

#[test]
fn write_modules_plans_every_source_in_order() {
    let modules = vec![
        ModuleType::Entity,
        ModuleType::Mapper,
        ModuleType::Repository(Some(vec![
            RepositoryOperations::Delete,
            RepositoryOperations::Find,
        ])),
    ];
    let files = write_modules(modules, "/work/api", "src/", &user());
    let (contract, adapter) = create_repository(
        &user(),
        Some(vec![RepositoryOperations::Find, RepositoryOperations::Delete]),
        true,
        true,
    );
    assert_eq!(
        files,
        vec![
            SourceFile {
                path: "/work/api/src/domain/entity//user.entity.ts".to_string(),
                contents: USER_ENTITY.to_string(),
            },
            SourceFile {
                path: "/work/api/src/infra/database/prisma/mappers/user.mapper.ts".to_string(),
                contents: USER_MAPPER.to_string(),
            },
            SourceFile {
                path: "/work/api/src/app/repositories/user.repository.ts".to_string(),
                contents: contract,
            },
            SourceFile {
                path: "/work/api/src/infra/database/prisma/prisma-user.repository.ts".to_string(),
                contents: adapter,
            },
        ]
    );
}

#[test]
fn write_modules_types_the_repository_by_what_else_is_chosen() {
    let alone = write_modules(
        vec![ModuleType::Repository(Some(vec![RepositoryOperations::Create]))],
        "d",
        "b/",
        &user(),
    );
    assert_eq!(alone.len(), 2);
    assert_eq!(
        alone[0].contents,
        "export abstract class UserRepository {\n    abstract create(data: any): Promise<any>\n}"
    );
    assert!(alone[1].contents.contains("return this.prisma.user.create({"));
    let after = write_modules(
        vec![
            ModuleType::Repository(Some(vec![RepositoryOperations::Create])),
            ModuleType::Entity,
        ],
        "d",
        "b/",
        &user(),
    );
    assert_eq!(after.len(), 3);
    assert_eq!(
        after[0].contents,
        "export abstract class UserRepository {\n    abstract create(data: Partial<User>): Promise<User>\n}"
    );
    assert_eq!(after[2].contents, USER_ENTITY);
}

#[test]
fn write_modules_of_nothing_plans_nothing() {
    assert!(write_modules(Vec::new(), "d", "b/", &user()).is_empty());
    let unset = write_modules(vec![ModuleType::Repository(None)], "d", "b/", &user());
    assert_eq!(unset.len(), 2);
    assert_eq!(unset[0].contents, "export abstract class UserRepository {\n}");
}

#[test]
fn rendering_twice_gives_the_same_bytes() {
    let choice = || {
        vec![
            ModuleType::Mapper,
            ModuleType::Repository(Some(canonical_order())),
            ModuleType::Entity,
        ]
    };
    let first = write_modules(choice(), "/out", "src/", &account());
    let second = write_modules(choice(), "/out", "src/", &account());
    assert_eq!(first.len(), 4);
    assert_eq!(first.len(), second.len());
    for (a, b) in first.iter().zip(second.iter()) {
        assert_eq!(a.path.as_bytes(), b.path.as_bytes());
        assert_eq!(a.contents.as_bytes(), b.contents.as_bytes());
    }
}

#[test]
fn plan_modules_takes_accessor_and_kebab_name() {
    let files = plan_modules(&vec![ModuleType::Entity], "d", "b/", &user(), "it", "the-user");
    assert_eq!(files.len(), 1);
    assert_eq!(files[0].path, "d/b/domain/entity//the-user.entity.ts");
    assert!(files[0].contents.contains("constructor(it: IUser) {\n    Object.assign(this, it)"));
}

#[test]
fn operations_are_handed_to_the_first_waiting_repository() {
    let modules = vec![ModuleType::Entity, ModuleType::Repository(None), ModuleType::Repository(None)];
    assert!(needs_operations(&modules));
    let ops = vec![RepositoryOperations::Find];
    assert_eq!(
        with_operations(modules, ops.clone()),
        vec![
            ModuleType::Entity,
            ModuleType::Repository(Some(ops.clone())),
            ModuleType::Repository(None),
        ]
    );
    let settled = vec![ModuleType::Repository(Some(vec![])), ModuleType::Mapper];
    assert!(!needs_operations(&settled));
    assert_eq!(
        with_operations(settled, ops),
        vec![ModuleType::Repository(Some(vec![])), ModuleType::Mapper]
    );
}
