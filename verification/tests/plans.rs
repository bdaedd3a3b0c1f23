use fancy_default::accessor::{plan_variant_accessors, VariantConfig};
use fancy_default::diag::{DiagKind, MalformedKind};
use fancy_default::names::{constant_accessor_name, function_accessor_name, snake_ident};
use fancy_default::plan::{build_enum_default_plan, build_group_plan, build_struct_plan, BoundExpr};
use fancy_default::schema::{
    Directive, DirectiveForm, EnumSchema, MarkerKind, Member, MemberGroup, NestedEntry,
    NestedValue, SchemaVariant, Shape, StructSchema,
};

fn default_dir(form: DirectiveForm) -> Directive {
    Directive { marker: MarkerKind::DefaultMarker, form }
}

fn variant_dir(form: DirectiveForm) -> Directive {
    Directive { marker: MarkerKind::VariantMarker, form }
}

fn expr_entry(text: &str) -> NestedEntry {
    NestedEntry {
        key: "expr".to_string(),
        value: Some(NestedValue::ExprRef(text.to_string())),
    }
}

fn bare_entry(key: &str) -> NestedEntry {
    NestedEntry { key: key.to_string(), value: None }
}

fn bool_entry(key: &str, b: bool) -> NestedEntry {
    NestedEntry { key: key.to_string(), value: Some(NestedValue::BoolLit(b)) }
}

/// `#[default(expr = <text>)]`
fn override_dir(text: &str) -> Directive {
    default_dir(DirectiveForm::KeyList(vec![expr_entry(text)]))
}

fn named(name: &str, ty: &str, directives: Vec<Directive>) -> Member {
    Member { name: Some(name.to_string()), ty: ty.to_string(), directives }
}

fn positional(ty: &str, directives: Vec<Directive>) -> Member {
    Member { name: None, ty: ty.to_string(), directives }
}

fn group(shape: Shape, members: Vec<Member>) -> MemberGroup {
    MemberGroup { shape, members }
}

fn unit_variant(name: &str, directives: Vec<Directive>) -> SchemaVariant {
    SchemaVariant {
        name: name.to_string(),
        directives,
        group: group(Shape::Unit, vec![]),
    }
}

fn variant(
    name: &str,
    directives: Vec<Directive>,
    shape: Shape,
    members: Vec<Member>,
) -> SchemaVariant {
    SchemaVariant { name: name.to_string(), directives, group: group(shape, members) }
}

#[test]
fn test_derive_struct() {
    let schema = StructSchema {
        name: "Struct".to_string(),
        group: group(
            Shape::Named,
            vec![
                named("name", "String", vec![override_dir("\"123\".to_owned()")]),
                named(
                    "id",
                    "usize",
                    vec![default_dir(DirectiveForm::ExprLiteral("10".to_string()))],
                ),
            ],
        ),
    };
    let plan = build_struct_plan(&schema).unwrap();
    assert_eq!(plan.shape, Shape::Named);
    assert_eq!(plan.bindings.len(), 2);
    assert_eq!(plan.bindings[0].ident, "name");
    assert_eq!(
        plan.bindings[0].expr,
        BoundExpr::Override("\"123\".to_owned()".to_string())
    );
    assert_eq!(plan.bindings[1].ident, "id");
    assert_eq!(plan.bindings[1].expr, BoundExpr::Override("10".to_string()));
}

#[test]
fn test_derive_struct_override() {
    let schema = StructSchema {
        name: "Struct".to_string(),
        group: group(
            Shape::Named,
            vec![
                named(
                    "name",
                    "String",
                    vec![default_dir(DirectiveForm::KeyList(vec![
                        expr_entry("\"123\".to_owned()"),
                        expr_entry("\"456\".to_owned()"),
                    ]))],
                ),
                named(
                    "id",
                    "usize",
                    vec![default_dir(DirectiveForm::ExprLiteral("10".to_string()))],
                ),
            ],
        ),
    };
    let plan = build_struct_plan(&schema).unwrap();
    assert_eq!(
        plan.bindings[0].expr,
        BoundExpr::Override("\"456\".to_owned()".to_string())
    );
    assert_eq!(plan.bindings[1].expr, BoundExpr::Override("10".to_string()));
}

#[test]
fn test_derive_tuple_struct() {
    let schema = StructSchema {
        name: "Struct".to_string(),
        group: group(
            Shape::Positional,
            vec![
                positional("String", vec![override_dir("\"123\".to_owned()")]),
                positional(
                    "usize",
                    vec![default_dir(DirectiveForm::ExprLiteral("10".to_string()))],
                ),
            ],
        ),
    };
    let plan = build_struct_plan(&schema).unwrap();
    assert_eq!(plan.shape, Shape::Positional);
    assert_eq!(plan.bindings.len(), 2);
    assert_eq!(plan.bindings[0].ident, "field_0");
    assert_eq!(
        plan.bindings[0].expr,
        BoundExpr::Override("\"123\".to_owned()".to_string())
    );
    assert_eq!(plan.bindings[1].ident, "field_1");
    assert_eq!(plan.bindings[1].expr, BoundExpr::Override("10".to_string()));
}

#[test]
fn test_derive_unit_struct() {
    let schema = StructSchema {
        name: "Struct".to_string(),
        group: group(Shape::Unit, vec![]),
    };
    let plan = build_struct_plan(&schema).unwrap();
    assert_eq!(plan.shape, Shape::Unit);
    assert!(plan.bindings.is_empty());
}

#[test]
fn test_derive_struct_const() {
    let schema = StructSchema {
        name: "Struct".to_string(),
        group: group(
            Shape::Named,
            vec![
                named("name", "&'a str", vec![override_dir("\"123\"")]),
                named(
                    "id",
                    "usize",
                    vec![default_dir(DirectiveForm::ExprLiteral("10".to_string()))],
                ),
            ],
        ),
    };
    let plan = build_struct_plan(&schema).unwrap();
    assert_eq!(plan.bindings.len(), 2);
    assert_eq!(plan.bindings[0].ident, "name");
    assert_eq!(plan.bindings[0].expr, BoundExpr::Override("\"123\"".to_string()));
    assert_eq!(plan.bindings[1].ident, "id");
    assert_eq!(plan.bindings[1].expr, BoundExpr::Override("10".to_string()));
}

#[test]
fn test_derive_enum() {
    let schema = EnumSchema {
        name: "Enum".to_string(),
        directives: vec![],
        variants: vec![unit_variant("Plain", vec![default_dir(DirectiveForm::Bare)])],
    };
    let plan = build_enum_default_plan(&schema).unwrap();
    assert_eq!(plan.variant_index, 0);
    assert_eq!(plan.variant_name, "Plain");
    assert_eq!(plan.plan.shape, Shape::Unit);
    assert!(plan.plan.bindings.is_empty());
}

#[test]
fn test_derive_enum_struct() {
    let schema = EnumSchema {
        name: "Enum".to_string(),
        directives: vec![],
        variants: vec![
            unit_variant("Plain", vec![]),
            variant(
                "Struct",
                vec![default_dir(DirectiveForm::BoolLiteral(true))],
                Shape::Named,
                vec![named("name", "String", vec![override_dir("\"123\".to_owned()")])],
            ),
        ],
    };
    let plan = build_enum_default_plan(&schema).unwrap();
    assert_eq!(plan.variant_index, 1);
    assert_eq!(plan.variant_name, "Struct");
    assert_eq!(plan.plan.bindings.len(), 1);
    assert_eq!(plan.plan.bindings[0].ident, "name");
    assert_eq!(
        plan.plan.bindings[0].expr,
        BoundExpr::Override("\"123\".to_owned()".to_string())
    );
}

#[test]
fn test_derive_enum_tuple() {
    let schema = EnumSchema {
        name: "Enum".to_string(),
        directives: vec![],
        variants: vec![
            unit_variant("Plain", vec![]),
            variant(
                "Struct",
                vec![],
                Shape::Named,
                vec![named("name", "String", vec![override_dir("\"123\".to_owned()")])],
            ),
            variant(
                "Tuple",
                vec![default_dir(DirectiveForm::Bare)],
                Shape::Positional,
                vec![positional(
                    "usize",
                    vec![default_dir(DirectiveForm::ExprLiteral("10".to_string()))],
                )],
            ),
        ],
    };
    let plan = build_enum_default_plan(&schema).unwrap();
    assert_eq!(plan.variant_index, 2);
    assert_eq!(plan.variant_name, "Tuple");
    assert_eq!(plan.plan.shape, Shape::Positional);
    assert_eq!(plan.plan.bindings.len(), 1);
    assert_eq!(plan.plan.bindings[0].ident, "field_0");
    assert_eq!(plan.plan.bindings[0].expr, BoundExpr::Override("10".to_string()));
}

#[test]
fn test_derive_enum_const() {
    let schema = EnumSchema {
        name: "Enum".to_string(),
        directives: vec![],
        variants: vec![
            unit_variant("Plain", vec![]),
            variant(
                "Struct",
                vec![],
                Shape::Named,
                vec![named("name", "String", vec![override_dir("\"123\".to_owned()")])],
            ),
            variant(
                "Tuple",
                vec![default_dir(DirectiveForm::Bare)],
                Shape::Positional,
                vec![positional(
                    "usize",
                    vec![default_dir(DirectiveForm::ExprLiteral("10".to_string()))],
                )],
            ),
        ],
    };
    let plan = build_enum_default_plan(&schema).unwrap();
    assert_eq!(plan.variant_name, "Tuple");
    assert_eq!(plan.plan.bindings.len(), 1);
    assert_eq!(plan.plan.bindings[0].ident, "field_0");
    assert_eq!(plan.plan.bindings[0].expr, BoundExpr::Override("10".to_string()));
}

#[test]
fn test_derive_variant() {
    // Enum-level baseline `#[variant(const)]`; `Struct` opts its constant
    // out and so produces no artifact at all, while `Plain` and `Tuple`
    // inherit the constant-accessor baseline.
    let schema = EnumSchema {
        name: "Enum".to_string(),
        directives: vec![variant_dir(DirectiveForm::KeyList(vec![bare_entry("const")]))],
        variants: vec![
            unit_variant("Plain", vec![]),
            variant(
                "Struct",
                vec![variant_dir(DirectiveForm::KeyList(vec![bool_entry("const", false)]))],
                Shape::Named,
                vec![named("name", "String", vec![override_dir("\"123\".to_owned()")])],
            ),
            variant(
                "Tuple",
                vec![default_dir(DirectiveForm::Bare)],
                Shape::Positional,
                vec![positional(
                    "usize",
                    vec![default_dir(DirectiveForm::ExprLiteral("10".to_string()))],
                )],
            ),
        ],
    };
    let plans = plan_variant_accessors(&schema).unwrap();
    assert_eq!(plans.len(), 2);
    assert_eq!(plans[0].variant, "Plain");
    assert_eq!(plans[0].constant_name.as_deref(), Some("PLAIN"));
    assert_eq!(plans[0].function_name, None);
    assert!(plans[0].plan.bindings.is_empty());
    assert_eq!(plans[1].variant, "Tuple");
    assert_eq!(plans[1].constant_name.as_deref(), Some("TUPLE"));
    assert_eq!(plans[1].function_name, None);
    assert_eq!(plans[1].plan.bindings[0].expr, BoundExpr::Override("10".to_string()));

    // When `Struct` is also explicitly marked for function emission, it
    // produces exactly that accessor.
    let mut with_function = schema;
    with_function.variants[1].directives = vec![variant_dir(DirectiveForm::KeyList(vec![
        bool_entry("const", false),
        bare_entry("fn"),
    ]))];
    let plans = plan_variant_accessors(&with_function).unwrap();
    assert_eq!(plans.len(), 3);
    assert_eq!(plans[1].variant, "Struct");
    assert_eq!(plans[1].constant_name, None);
    assert_eq!(plans[1].function_name.as_deref(), Some("default_struct"));
    assert_eq!(plans[1].plan.bindings.len(), 1);
    assert_eq!(plans[1].plan.bindings[0].ident, "name");
    assert_eq!(
        plans[1].plan.bindings[0].expr,
        BoundExpr::Override("\"123\".to_owned()".to_string())
    );
}

#[test]
fn test_struct_scenario_intrinsic_default() {
    // Fields `name` (override expression) and `id` (no override): the
    // plan binds the override first, then the intrinsic default, in
    // declaration order.
    let schema = StructSchema {
        name: "Person".to_string(),
        group: group(
            Shape::Named,
            vec![
                named("name", "String", vec![override_dir("\"no-name\".to_owned()")]),
                named("id", "usize", vec![]),
            ],
        ),
    };
    let plan = build_struct_plan(&schema).unwrap();
    assert_eq!(plan.bindings.len(), 2);
    assert_eq!(plan.bindings[0].ident, "name");
    assert_eq!(
        plan.bindings[0].expr,
        BoundExpr::Override("\"no-name\".to_owned()".to_string())
    );
    assert_eq!(plan.bindings[1].ident, "id");
    assert_eq!(plan.bindings[1].ty, "usize");
    assert_eq!(plan.bindings[1].expr, BoundExpr::IntrinsicDefault);
}

#[test]
fn test_enum_scenario_two_variants() {
    // Enum `{Plain, #[default] Tuple(#[default = 10] usize)}`: the
    // selector picks `Tuple` and its plan binds `field_0` to `10`.
    let schema = EnumSchema {
        name: "Enum".to_string(),
        directives: vec![],
        variants: vec![
            unit_variant("Plain", vec![]),
            variant(
                "Tuple",
                vec![default_dir(DirectiveForm::Bare)],
                Shape::Positional,
                vec![positional(
                    "usize",
                    vec![default_dir(DirectiveForm::ExprLiteral("10".to_string()))],
                )],
            ),
        ],
    };
    let plan = build_enum_default_plan(&schema).unwrap();
    assert_eq!(plan.variant_name, "Tuple");
    assert_eq!(plan.plan.bindings.len(), 1);
    assert_eq!(plan.plan.bindings[0].ident, "field_0");
    assert_eq!(plan.plan.bindings[0].expr, BoundExpr::Override("10".to_string()));
}

#[test]
fn test_no_default_variant_errors() {
    let schema = EnumSchema {
        name: "Enum".to_string(),
        directives: vec![],
        variants: vec![unit_variant("Plain", vec![]), unit_variant("Other", vec![])],
    };
    let errs = build_enum_default_plan(&schema).unwrap_err();
    assert_eq!(errs.len(), 1);
    assert_eq!(errs[0].kind, DiagKind::NoDefaultVariant);
    assert_eq!(errs[0].site, "Enum");
}

#[test]
fn test_ambiguous_default_variants_error() {
    // Two variants both marked default: one enum-level error plus one per
    // offending variant, and no plan at all.
    let schema = EnumSchema {
        name: "Enum".to_string(),
        directives: vec![],
        variants: vec![
            unit_variant("First", vec![default_dir(DirectiveForm::Bare)]),
            unit_variant("Middle", vec![]),
            unit_variant("Last", vec![default_dir(DirectiveForm::Bare)]),
        ],
    };
    let errs = build_enum_default_plan(&schema).unwrap_err();
    assert_eq!(errs.len(), 3);
    assert_eq!(errs[0].kind, DiagKind::AmbiguousDefaultVariant);
    assert_eq!(errs[0].site, "Enum");
    assert_eq!(errs[1].kind, DiagKind::AmbiguousDefaultVariant);
    assert_eq!(errs[1].site, "First");
    assert_eq!(errs[2].kind, DiagKind::AmbiguousDefaultVariant);
    assert_eq!(errs[2].site, "Last");
}

#[test]
fn test_bare_field_marker_keeps_intrinsic() {
    // A bare `#[default]` on a field is the baseline itself.
    let schema = StructSchema {
        name: "Struct".to_string(),
        group: group(
            Shape::Named,
            vec![named("id", "usize", vec![default_dir(DirectiveForm::Bare)])],
        ),
    };
    let plan = build_struct_plan(&schema).unwrap();
    assert_eq!(plan.bindings[0].expr, BoundExpr::IntrinsicDefault);
}

#[test]
fn test_bool_literal_override_text() {
    // `#[default = true]` on a field binds the literal itself.
    let schema = StructSchema {
        name: "Struct".to_string(),
        group: group(
            Shape::Named,
            vec![named(
                "flag",
                "bool",
                vec![default_dir(DirectiveForm::BoolLiteral(true))],
            )],
        ),
    };
    let plan = build_struct_plan(&schema).unwrap();
    assert_eq!(plan.bindings[0].expr, BoundExpr::Override("true".to_string()));
}

#[test]
fn test_accessor_name_derivation() {
    assert_eq!(snake_ident("StructVariant"), "struct_variant");
    assert_eq!(function_accessor_name("StructVariant"), "default_struct_variant");
    assert_eq!(constant_accessor_name("StructVariant"), "STRUCT_VARIANT");
    assert_eq!(function_accessor_name("Plain"), "default_plain");
    assert_eq!(constant_accessor_name("Plain"), "PLAIN");
}

#[test]
fn test_positional_identity_synthesis() {
    let schema = StructSchema {
        name: "Wide".to_string(),
        group: group(
            Shape::Positional,
            (0..12).map(|_| positional("u8", vec![])).collect(),
        ),
    };
    let plan = build_struct_plan(&schema).unwrap();
    assert_eq!(plan.bindings[0].ident, "field_0");
    assert_eq!(plan.bindings[9].ident, "field_9");
    assert_eq!(plan.bindings[10].ident, "field_10");
    assert_eq!(plan.bindings[11].ident, "field_11");
}

#[test]
fn test_unrecognized_key_rejected() {
    let schema = StructSchema {
        name: "Struct".to_string(),
        group: group(
            Shape::Named,
            vec![named(
                "id",
                "usize",
                vec![default_dir(DirectiveForm::KeyList(vec![bare_entry("bogus")]))],
            )],
        ),
    };
    let errs = build_struct_plan(&schema).unwrap_err();
    assert_eq!(errs.len(), 1);
    assert_eq!(
        errs[0].kind,
        DiagKind::MalformedDirective(MalformedKind::UnrecognizedKey)
    );
    assert_eq!(errs[0].site, "id");
}

#[test]
fn test_missing_value_rejected() {
    let schema = StructSchema {
        name: "Struct".to_string(),
        group: group(
            Shape::Named,
            vec![named(
                "id",
                "usize",
                vec![default_dir(DirectiveForm::KeyList(vec![bare_entry("expr")]))],
            )],
        ),
    };
    let errs = build_struct_plan(&schema).unwrap_err();
    assert_eq!(errs.len(), 1);
    assert_eq!(
        errs[0].kind,
        DiagKind::MalformedDirective(MalformedKind::MissingValue)
    );
}

#[test]
fn test_empty_directive_list_rejected() {
    let schema = StructSchema {
        name: "Struct".to_string(),
        group: group(
            Shape::Named,
            vec![named(
                "id",
                "usize",
                vec![default_dir(DirectiveForm::KeyList(vec![]))],
            )],
        ),
    };
    let errs = build_struct_plan(&schema).unwrap_err();
    assert_eq!(errs.len(), 1);
    assert_eq!(errs[0].kind, DiagKind::MalformedDirective(MalformedKind::EmptyList));
}

#[test]
fn test_wrong_literal_kind_rejected() {
    // A non-boolean literal on a variant's default marker.
    let schema = EnumSchema {
        name: "Enum".to_string(),
        directives: vec![],
        variants: vec![unit_variant(
            "Plain",
            vec![default_dir(DirectiveForm::ExprLiteral("10".to_string()))],
        )],
    };
    let errs = build_enum_default_plan(&schema).unwrap_err();
    assert_eq!(errs.len(), 1);
    assert_eq!(
        errs[0].kind,
        DiagKind::MalformedDirective(MalformedKind::WrongLiteralKind)
    );
    assert_eq!(errs[0].site, "Plain");
}

#[test]
fn test_aggregated_errors_across_members() {
    // Every malformed member is reported, in declaration order, not just
    // the first.
    let schema = StructSchema {
        name: "Struct".to_string(),
        group: group(
            Shape::Named,
            vec![
                named(
                    "first",
                    "u8",
                    vec![default_dir(DirectiveForm::KeyList(vec![bare_entry("bogus")]))],
                ),
                named("middle", "u8", vec![]),
                named(
                    "last",
                    "u8",
                    vec![default_dir(DirectiveForm::KeyList(vec![bare_entry("expr")]))],
                ),
            ],
        ),
    };
    let errs = build_struct_plan(&schema).unwrap_err();
    assert_eq!(errs.len(), 2);
    assert_eq!(errs[0].site, "first");
    assert_eq!(
        errs[0].kind,
        DiagKind::MalformedDirective(MalformedKind::UnrecognizedKey)
    );
    assert_eq!(errs[1].site, "last");
    assert_eq!(
        errs[1].kind,
        DiagKind::MalformedDirective(MalformedKind::MissingValue)
    );
}

#[test]
fn test_bare_variant_marker_enables_functions() {
    // A bare enum-level `#[variant]` turns function accessors on for
    // every variant.
    let schema = EnumSchema {
        name: "Enum".to_string(),
        directives: vec![variant_dir(DirectiveForm::Bare)],
        variants: vec![unit_variant("Plain", vec![]), unit_variant("Other", vec![])],
    };
    let plans = plan_variant_accessors(&schema).unwrap();
    assert_eq!(plans.len(), 2);
    assert_eq!(plans[0].function_name.as_deref(), Some("default_plain"));
    assert_eq!(plans[0].constant_name, None);
    assert_eq!(plans[1].function_name.as_deref(), Some("default_other"));
}

#[test]
fn test_variant_literal_opt_out_and_back_in() {
    // With the baseline on, `#[variant = false]` opts a variant fully
    // out, and `#[variant = true]` opts back into the inherited baseline.
    let schema = EnumSchema {
        name: "Enum".to_string(),
        directives: vec![variant_dir(DirectiveForm::KeyList(vec![bare_entry("const")]))],
        variants: vec![
            unit_variant("Out", vec![variant_dir(DirectiveForm::BoolLiteral(false))]),
            unit_variant("BackIn", vec![variant_dir(DirectiveForm::BoolLiteral(true))]),
        ],
    };
    let plans = plan_variant_accessors(&schema).unwrap();
    assert_eq!(plans.len(), 1);
    assert_eq!(plans[0].variant, "BackIn");
    assert_eq!(plans[0].constant_name.as_deref(), Some("BACK_IN"));
    assert_eq!(plans[0].function_name, None);
}

#[test]
fn test_enum_level_true_literal_profile() {
    // An explicit enum-level `#[variant = true]` resets the baseline to
    // the marker's profile: function accessors on, constants off.
    let schema = EnumSchema {
        name: "Enum".to_string(),
        directives: vec![variant_dir(DirectiveForm::BoolLiteral(true))],
        variants: vec![unit_variant("Plain", vec![])],
    };
    let plans = plan_variant_accessors(&schema).unwrap();
    assert_eq!(plans.len(), 1);
    assert_eq!(plans[0].function_name.as_deref(), Some("default_plain"));
    assert_eq!(plans[0].constant_name, None);
}

#[test]
fn test_skipped_variants_are_no_error() {
    // With no emission directive anywhere, every variant is skipped and
    // the planner succeeds with an empty plan list.
    let schema = EnumSchema {
        name: "Enum".to_string(),
        directives: vec![],
        variants: vec![unit_variant("Plain", vec![])],
    };
    let plans = plan_variant_accessors(&schema).unwrap();
    assert!(plans.is_empty());
}

#[test]
fn test_should_generate() {
    assert!(!VariantConfig { constant: false, function: false }.should_generate());
    assert!(VariantConfig { constant: true, function: false }.should_generate());
    assert!(VariantConfig { constant: false, function: true }.should_generate());
    assert!(VariantConfig { constant: true, function: true }.should_generate());
}

#[test]
fn test_group_plan_keeps_types() {
    let g = group(
        Shape::Named,
        vec![named("a", "Vec<u8>", vec![]), named("b", "Option<String>", vec![])],
    );
    let plan = build_group_plan(&g).unwrap();
    assert_eq!(plan.bindings[0].ty, "Vec<u8>");
    assert_eq!(plan.bindings[1].ty, "Option<String>");
}
