use educe::aggregate::{Aggregate, AggregateKind, Field};
use educe::bound::{infer_bounds, BoundMode, TypeRef, WhereBounds};
use educe::capability::{is_active, Trait};
use educe::default::{
    derive_default, Body, DefaultFieldAttributeBuilder, DefaultTypeAttribute, DefaultTypeAttributeBuilder, Init,
    Selection,
};
use educe::deref_mut::{select_deref_mut_field, FieldAttribute, FieldAttributeBuilder};
use educe::meta::{find_entry_index, Decoder, Error, Features, Lit, Meta, MetaKind, NestedMeta, Pos};

fn pos(line: u32) -> Pos {
    Pos { line, column: 1 }
}

fn word(name: &str) -> Meta {
    Meta { name: name.to_string(), kind: MetaKind::Word, pos: pos(1) }
}

fn name_value(name: &str, lit: Lit) -> Meta {
    Meta { name: name.to_string(), kind: MetaKind::NameValue(lit), pos: pos(1) }
}

fn list(name: &str, entries: Vec<NestedMeta>) -> Meta {
    Meta { name: name.to_string(), kind: MetaKind::List(entries), pos: pos(1) }
}

fn educe(entries: Vec<Meta>) -> Meta {
    list("educe", entries.into_iter().map(NestedMeta::Meta).collect())
}

fn str_lit(s: &str) -> Lit {
    Lit::Str(s.to_string())
}

fn ty(text: &str, idents: &[&str]) -> TypeRef {
    TypeRef { text: text.to_string(), idents: idents.iter().map(|s| s.to_string()).collect() }
}

fn field(name: &str, t: TypeRef, attrs: Vec<Meta>, line: u32) -> Field {
    Field { name: Some(name.to_string()), ty: t, attrs, pos: pos(line) }
}

fn aggregate(kind: AggregateKind, generics: &[&str], fields: Vec<Field>) -> Aggregate {
    Aggregate {
        ident: "Thing".to_string(),
        generics: generics.iter().map(|s| s.to_string()).collect(),
        kind,
        fields,
        pos: pos(99),
    }
}

fn params(names: &[&str]) -> WhereBounds {
    WhereBounds::Params(names.iter().map(|s| s.to_string()).collect())
}

const ACTIVE: [Trait; 2] = [Trait::Default, Trait::DerefMut];

#[test]
fn trait_names_are_recognised() {
    assert_eq!(Trait::from_name(&"DerefMut".to_string()), Some(Trait::DerefMut));
    assert_eq!(Trait::from_name(&"Default".to_string()), Some(Trait::Default));
    assert_eq!(Trait::from_name(&"Display".to_string()), None);
    assert!(is_active(&ACTIVE, Trait::Default));
    assert!(!is_active(&ACTIVE, Trait::Hash));
}

#[test]
fn deref_mut_marker_sets_flag() {
    let b = FieldAttributeBuilder { enable_flag: true };
    assert_eq!(b.from_attributes(&[educe(vec![word("DerefMut")])], &ACTIVE), Ok(FieldAttribute { flag: true }));
}

#[test]
fn deref_mut_without_annotation_is_unset() {
    let b = FieldAttributeBuilder { enable_flag: true };
    let other = name_value("doc", str_lit("text"));
    assert_eq!(b.from_attributes(&[other], &ACTIVE), Ok(FieldAttribute { flag: false }));
    assert_eq!(b.from_attributes(&[], &ACTIVE), Ok(FieldAttribute { flag: false }));
}

#[test]
fn deref_mut_rejects_other_shapes() {
    let b = FieldAttributeBuilder { enable_flag: true };
    let usage = Features { flag: true, new: false, expression: false, bound: false };
    let bad = list("DerefMut", vec![]);
    assert_eq!(
        b.from_deref_mut_meta(&bad),
        Err(Error::IncorrectAttributeFormat { capability: Trait::DerefMut, usage })
    );
    let disabled = FieldAttributeBuilder { enable_flag: false };
    assert_eq!(
        disabled.from_deref_mut_meta(&word("DerefMut")),
        Err(Error::IncorrectAttributeFormat {
            capability: Trait::DerefMut,
            usage: Features { flag: false, new: false, expression: false, bound: false },
        })
    );
}

#[test]
fn deref_mut_reused_on_one_field() {
    let b = FieldAttributeBuilder { enable_flag: true };
    let attrs = [educe(vec![word("DerefMut"), word("DerefMut")])];
    assert_eq!(b.from_attributes(&attrs, &ACTIVE), Err(Error::CapabilityReused(Trait::DerefMut)));
}

#[test]
fn capability_not_in_use_whatever_the_shape() {
    let b = FieldAttributeBuilder { enable_flag: true };
    for entry in [word("Hash"), list("Hash", vec![]), name_value("Hash", Lit::Bool(true))] {
        assert_eq!(b.from_attributes(&[educe(vec![entry])], &ACTIVE), Err(Error::CapabilityNotInUse(Trait::Hash)));
    }
    let d = DefaultFieldAttributeBuilder { enable_flag: true, enable_expression: true };
    assert_eq!(
        d.from_attributes(&[educe(vec![word("Hash"), word("Default")])], &ACTIVE),
        Err(Error::CapabilityNotInUse(Trait::Hash))
    );
}

#[test]
fn unknown_capability_and_malformed_tree() {
    let b = FieldAttributeBuilder { enable_flag: true };
    assert_eq!(
        b.from_attributes(&[educe(vec![word("Frobnicate")])], &ACTIVE),
        Err(Error::UnsupportedCapability("Frobnicate".to_string()))
    );
    assert_eq!(b.from_attributes(&[word("educe")], &ACTIVE), Err(Error::MalformedAnnotationTree));
    let literal = list("educe", vec![NestedMeta::Literal(str_lit("x"))]);
    assert_eq!(b.from_attributes(&[literal], &ACTIVE), Err(Error::MalformedAnnotationTree));
}

#[test]
fn entry_index_points_at_target() {
    let attrs = [word("doc"), educe(vec![word("Default"), word("DerefMut")])];
    assert_eq!(find_entry_index(&attrs, &ACTIVE, Decoder::DerefMut(FieldAttributeBuilder { enable_flag: true })), Ok(Some((1, 1))));
    assert_eq!(find_entry_index(&attrs, &ACTIVE, Decoder::Default(DefaultFieldAttributeBuilder { enable_flag: true, enable_expression: true })), Ok(Some((1, 0))));
}

#[test]
fn deref_mut_selection_over_fields() {
    let fields = vec![
        field("a", ty("u8", &["u8"]), vec![], 1),
        field("b", ty("u16", &["u16"]), vec![educe(vec![word("DerefMut")])], 2),
    ];
    assert_eq!(select_deref_mut_field(&fields, &ACTIVE), Ok(Some(1)));
    let none = vec![field("a", ty("u8", &["u8"]), vec![], 1)];
    assert_eq!(select_deref_mut_field(&none, &ACTIVE), Ok(None));
    let two = vec![
        field("a", ty("u8", &["u8"]), vec![educe(vec![word("DerefMut")])], 1),
        field("b", ty("u16", &["u16"]), vec![educe(vec![word("DerefMut")])], 2),
    ];
    assert_eq!(select_deref_mut_field(&two, &ACTIVE), Err(Error::CapabilityReused(Trait::DerefMut)));
}

#[test]
fn field_default_forms() {
    let d = DefaultFieldAttributeBuilder { enable_flag: true, enable_expression: true };
    assert_eq!(d.from_default_meta(&word("Default")), Ok(Selection::Flag));
    assert_eq!(d.from_default_meta(&name_value("Default", str_lit("7"))), Ok(Selection::Expression("7".to_string())));
    let listed = list("Default", vec![NestedMeta::Meta(name_value("expression", str_lit("1 + 1")))]);
    assert_eq!(d.from_default_meta(&listed), Ok(Selection::Expression("1 + 1".to_string())));
    let usage = Features { flag: true, new: false, expression: true, bound: false };
    assert_eq!(
        d.from_default_meta(&name_value("Default", Lit::Bool(true))),
        Err(Error::IncorrectAttributeFormat { capability: Trait::Default, usage })
    );
    let check = DefaultFieldAttributeBuilder { enable_flag: false, enable_expression: false };
    assert!(check.from_default_meta(&word("Default")).is_err());
}

#[test]
fn type_default_forms() {
    let b = DefaultTypeAttributeBuilder { enable_flag: true, enable_new: true, enable_expression: true, enable_bound: true };
    assert_eq!(
        b.from_default_meta(&word("Default")),
        Ok(DefaultTypeAttribute { flag: true, new: false, expression: None, bound: BoundMode::Auto })
    );
    let full = list(
        "Default",
        vec![
            NestedMeta::Meta(word("new")),
            NestedMeta::Meta(name_value("expression", str_lit("Self::empty()"))),
            NestedMeta::Meta(name_value("bound", str_lit("T: Default"))),
        ],
    );
    assert_eq!(
        b.from_default_meta(&full),
        Ok(DefaultTypeAttribute {
            flag: false,
            new: true,
            expression: Some("Self::empty()".to_string()),
            bound: BoundMode::Explicit("T: Default".to_string()),
        })
    );
    let off = list("Default", vec![NestedMeta::Meta(name_value("bound", Lit::Bool(false)))]);
    assert_eq!(b.from_default_meta(&off).map(|a| a.bound), Ok(BoundMode::Disabled));
    let twice = list("Default", vec![NestedMeta::Meta(word("new")), NestedMeta::Meta(word("new"))]);
    let usage = Features { flag: true, new: true, expression: true, bound: true };
    assert_eq!(b.from_default_meta(&twice), Err(Error::IncorrectAttributeFormat { capability: Trait::Default, usage }));
    let unknown = list("Default", vec![NestedMeta::Meta(word("fast"))]);
    assert!(b.from_default_meta(&unknown).is_err());
}

#[test]
fn single_field_rule() {
    let ast = aggregate(AggregateKind::Record, &["T", "U"], vec![field("v", ty("Vec<T>", &["Vec", "T"]), vec![], 1)]);
    let r = derive_default(&ast, &ACTIVE, &word("Default")).unwrap();
    assert_eq!(r.body, Body::Construct { selected: 0, init: Init::Fallback });
    assert_eq!(r.bounds, params(&["T"]));
    assert!(!r.new);
}

#[test]
fn single_union_field_without_annotation() {
    let ast = aggregate(AggregateKind::Union, &["T"], vec![field("v", ty("T", &["T"]), vec![], 1)]);
    let r = derive_default(&ast, &ACTIVE, &word("Default")).unwrap();
    assert_eq!(r.body, Body::Construct { selected: 0, init: Init::Fallback });
    assert_eq!(r.bounds, params(&["T"]));
}

#[test]
fn selection_exclusivity_in_record() {
    let marked = vec![educe(vec![name_value("Default", str_lit("5"))])];
    let ast = aggregate(
        AggregateKind::Record,
        &["A", "B", "C"],
        vec![
            field("a", ty("A", &["A"]), vec![], 1),
            field("b", ty("B", &["B"]), marked, 2),
            field("c", ty("Option<A>", &["Option", "A"]), vec![], 3),
        ],
    );
    let r = derive_default(&ast, &ACTIVE, &word("Default")).unwrap();
    assert_eq!(r.body, Body::Construct { selected: 1, init: Init::Expression("5".to_string()) });
    assert_eq!(r.bounds, params(&["A"]));
}

#[test]
fn selection_with_flag_in_union() {
    let ast = aggregate(
        AggregateKind::Union,
        &["A", "B"],
        vec![
            field("a", ty("A", &["A"]), vec![], 1),
            field("b", ty("B", &["B"]), vec![educe(vec![word("Default")])], 2),
        ],
    );
    let r = derive_default(&ast, &ACTIVE, &word("Default")).unwrap();
    assert_eq!(r.body, Body::Construct { selected: 1, init: Init::Fallback });
    assert_eq!(r.bounds, params(&["B"]));
}

#[test]
fn union_selection_with_expression_needs_no_bound() {
    let ast = aggregate(
        AggregateKind::Union,
        &["A"],
        vec![
            field("a", ty("A", &["A"]), vec![educe(vec![name_value("Default", str_lit("0"))])], 1),
            field("b", ty("u8", &["u8"]), vec![], 2),
        ],
    );
    let r = derive_default(&ast, &ACTIVE, &word("Default")).unwrap();
    assert_eq!(r.body, Body::Construct { selected: 0, init: Init::Expression("0".to_string()) });
    assert_eq!(r.bounds, params(&[]));
}

#[test]
fn conflict_cites_second_field() {
    let ast = aggregate(
        AggregateKind::Union,
        &[],
        vec![
            field("a", ty("u8", &["u8"]), vec![educe(vec![word("Default")])], 1),
            field("b", ty("u8", &["u8"]), vec![], 2),
            field("c", ty("u8", &["u8"]), vec![educe(vec![word("Default")])], 3),
        ],
    );
    assert_eq!(derive_default(&ast, &ACTIVE, &word("Default")), Err(Error::MultipleDefaultFields(pos(3))));
}

#[test]
fn absence_cites_type() {
    let ast = aggregate(
        AggregateKind::Union,
        &[],
        vec![field("a", ty("u8", &["u8"]), vec![], 1), field("b", ty("u16", &["u16"]), vec![], 2)],
    );
    assert_eq!(derive_default(&ast, &ACTIVE, &word("Default")), Err(Error::NoDefaultField(pos(99))));
    let empty = aggregate(AggregateKind::Record, &[], vec![]);
    assert_eq!(derive_default(&empty, &ACTIVE, &word("Default")), Err(Error::NoDefaultField(pos(99))));
}

#[test]
fn type_expression_takes_precedence() {
    let ast = aggregate(
        AggregateKind::Union,
        &["T"],
        vec![field("a", ty("T", &["T"]), vec![], 1), field("b", ty("T", &["T"]), vec![], 2)],
    );
    let meta = list(
        "Default",
        vec![NestedMeta::Meta(name_value("expression", str_lit("Thing { a: T::new() }"))), NestedMeta::Meta(word("new"))],
    );
    let r = derive_default(&ast, &ACTIVE, &meta).unwrap();
    assert_eq!(r.body, Body::Expression("Thing { a: T::new() }".to_string()));
    assert_eq!(r.bounds, params(&[]));
    assert!(r.new);
}

#[test]
fn type_expression_still_checks_fields() {
    let ast = aggregate(
        AggregateKind::Union,
        &[],
        vec![field("a", ty("u8", &["u8"]), vec![educe(vec![word("Default")])], 1)],
    );
    let usage = Features { flag: false, new: false, expression: false, bound: false };
    assert_eq!(
        derive_default(&ast, &ACTIVE, &name_value("Default", str_lit("Thing { a: 1 }"))),
        Err(Error::IncorrectAttributeFormat { capability: Trait::Default, usage })
    );
}

#[test]
fn bound_modes() {
    let a = ty("Pair<T, T>", &["Pair", "T", "T"]);
    let b = ty("(U, T)", &["U", "T"]);
    let generics: Vec<String> = vec!["T".to_string(), "U".to_string(), "V".to_string(), "T".to_string()];
    assert_eq!(infer_bounds(&BoundMode::Auto, &generics, &[&a, &b]), params(&["T", "U"]));
    assert_eq!(infer_bounds(&BoundMode::Disabled, &generics, &[&a, &b]), params(&[]));
    assert_eq!(
        infer_bounds(&BoundMode::Explicit("T: Copy".to_string()), &generics, &[&a]),
        WhereBounds::Written("T: Copy".to_string())
    );
    assert_eq!(infer_bounds(&BoundMode::Auto, &generics, &[]), params(&[]));
}

#[test]
fn record_fallback_bounds_skip_expression_field() {
    let ast = aggregate(
        AggregateKind::Record,
        &["A", "B"],
        vec![
            field("a", ty("A", &["A"]), vec![educe(vec![name_value("Default", str_lit("a()"))])], 1),
            field("b", ty("Vec<B>", &["Vec", "B"]), vec![], 2),
        ],
    );
    let meta = list("Default", vec![NestedMeta::Meta(word("new"))]);
    let r = derive_default(&ast, &ACTIVE, &meta).unwrap();
    assert_eq!(r.bounds, params(&["B"]));
    assert!(r.new);
    let off = list("Default", vec![NestedMeta::Meta(name_value("bound", Lit::Bool(false)))]);
    assert_eq!(derive_default(&ast, &ACTIVE, &off).unwrap().bounds, params(&[]));
}

#[test]
fn format_errors_carry_usage_examples() {
    let e = Error::IncorrectAttributeFormat {
        capability: Trait::Default,
        usage: Features { flag: true, new: false, expression: true, bound: false },
    };
    assert_eq!(
        e.usage_examples(),
        vec!["#[educe(Default)]".to_string(), "#[educe(Default(expression = \"value\"))]".to_string()]
    );
    let d = Error::IncorrectAttributeFormat {
        capability: Trait::DerefMut,
        usage: Features { flag: true, new: false, expression: false, bound: false },
    };
    assert_eq!(d.usage_examples(), vec!["#[educe(DerefMut)]".to_string()]);
    assert!(Error::NoDefaultField(pos(1)).usage_examples().is_empty());
    assert_eq!(Trait::PartialOrd.name(), "PartialOrd");
}

#[test]
fn other_literal_is_not_an_expression() {
    let d = DefaultFieldAttributeBuilder { enable_flag: true, enable_expression: true };
    assert!(d.from_default_meta(&name_value("Default", Lit::Other("5".to_string()))).is_err());
}

#[test]
fn deref_mut_entry_is_decoded_where_it_stands() {
    let disabled = FieldAttributeBuilder { enable_flag: false };
    let usage = Features { flag: false, new: false, expression: false, bound: false };
    let attrs = [educe(vec![word("DerefMut"), word("Hash")])];
    assert_eq!(
        disabled.from_attributes(&attrs, &ACTIVE),
        Err(Error::IncorrectAttributeFormat { capability: Trait::DerefMut, usage })
    );
    let enabled = FieldAttributeBuilder { enable_flag: true };
    let malformed_then_reused = [educe(vec![list("DerefMut", vec![NestedMeta::Meta(word("x"))]), word("DerefMut")])];
    assert_eq!(
        enabled.from_attributes(&malformed_then_reused, &ACTIVE),
        Err(Error::IncorrectAttributeFormat {
            capability: Trait::DerefMut,
            usage: Features { flag: true, new: false, expression: false, bound: false },
        })
    );
}

#[test]
fn default_entry_is_decoded_where_it_stands() {
    let check = DefaultFieldAttributeBuilder { enable_flag: false, enable_expression: false };
    let usage = Features { flag: false, new: false, expression: false, bound: false };
    let attrs = [educe(vec![word("Default"), word("Hash")])];
    assert_eq!(
        check.from_attributes(&attrs, &ACTIVE),
        Err(Error::IncorrectAttributeFormat { capability: Trait::Default, usage })
    );
}

#[test]
fn gating_applies_after_earlier_entries() {
    let b = FieldAttributeBuilder { enable_flag: true };
    let attrs = [word("doc"), educe(vec![word("Default")]), educe(vec![word("DerefMut"), list("Ord", vec![])])];
    assert_eq!(b.from_attributes(&attrs, &ACTIVE), Err(Error::CapabilityNotInUse(Trait::Ord)));
}

#[test]
fn record_initialises_every_field() {
    let marked = vec![educe(vec![name_value("Default", str_lit("5"))])];
    let ast = aggregate(
        AggregateKind::Record,
        &[],
        vec![
            field("a", ty("u8", &["u8"]), vec![], 1),
            field("b", ty("u8", &["u8"]), marked, 2),
            field("c", ty("u8", &["u8"]), vec![], 3),
        ],
    );
    let r = derive_default(&ast, &ACTIVE, &word("Default")).unwrap();
    assert_eq!(
        r.field_inits(ast.kind, ast.fields.len()),
        vec![(0, Init::Fallback), (1, Init::Expression("5".to_string())), (2, Init::Fallback)]
    );
}

#[test]
fn union_initialises_selected_field_only() {
    let ast = aggregate(
        AggregateKind::Union,
        &[],
        vec![
            field("a", ty("u8", &["u8"]), vec![], 1),
            field("b", ty("u16", &["u16"]), vec![educe(vec![word("Default")])], 2),
        ],
    );
    let r = derive_default(&ast, &ACTIVE, &word("Default")).unwrap();
    assert_eq!(r.field_inits(ast.kind, ast.fields.len()), vec![(1, Init::Fallback)]);
    let plain = aggregate(AggregateKind::Union, &[], vec![field("a", ty("u8", &["u8"]), vec![], 1)]);
    let e = derive_default(&plain, &ACTIVE, &name_value("Default", str_lit("Thing { a: 0 }"))).unwrap();
    assert!(e.field_inits(plain.kind, plain.fields.len()).is_empty());
}
