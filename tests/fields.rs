use validify_derive::fields::{collect_field_attributes, collect_field_info, collect_fields, map_field_types};
use validify_derive::rules::{parse_rule, rule_kind_from_keyword, ModifierKind, RuleKind};
use validify_derive::signature::{is_whitespace_char, resolve_type, strip_whitespace};
use validify_derive::syntax::{
    AnalysisError, Annotation, AnnotationArg, ArgValue, Data, DeriveInput, ErrorKind, Field, Span, TypeExpr,
};

fn sp(id: usize) -> Span {
    Span { id }
}

fn path(t: &str) -> TypeExpr {
    TypeExpr::Path { text: t.to_string() }
}

fn text_arg(name: &str, value: &str, id: usize) -> AnnotationArg {
    AnnotationArg { name: name.to_string(), value: ArgValue::Text(value.to_string()), span: sp(id) }
}

fn num_arg(name: &str, value: i64, id: usize) -> AnnotationArg {
    AnnotationArg { name: name.to_string(), value: ArgValue::Number(value), span: sp(id) }
}

fn annot(keyword: &str, args: Vec<AnnotationArg>, id: usize) -> Annotation {
    Annotation { keyword: keyword.to_string(), args, span: sp(id) }
}

fn field(name: &str, ty: TypeExpr, attrs: Vec<Annotation>, id: usize) -> Field {
    Field { name: Some(name.to_string()), ty, attrs, span: sp(id) }
}

fn structure(fields: Vec<Field>) -> DeriveInput {
    DeriveInput { data: Data::Struct { fields, span: sp(1) }, span: sp(0) }
}

fn err(kind: ErrorKind, id: usize) -> AnalysisError {
    AnalysisError { kind, span: sp(id) }
}

#[test]
fn phone_rule_has_default_code() {
    let input = structure(vec![field("val", path("String"), vec![annot("phone", vec![], 20)], 10)]);
    let infos = collect_field_info(&input, true).unwrap();
    assert_eq!(infos.len(), 1);
    assert_eq!(infos[0].name, "val");
    assert_eq!(infos[0].field_type, "String");
    assert_eq!(infos[0].validations.len(), 1);
    assert_eq!(infos[0].validations[0].kind, RuleKind::Phone);
    assert_eq!(infos[0].validations[0].code, "phone");
    assert_eq!(infos[0].validations[0].message, None);
    assert!(infos[0].validations[0].params.is_empty());
    assert!(infos[0].modifiers.is_empty());
}

#[test]
fn phone_rule_takes_code_override() {
    let a = annot("phone", vec![text_arg("code", "oops", 21)], 20);
    let input = structure(vec![field("val", path("String"), vec![a], 10)]);
    let infos = collect_field_info(&input, true).unwrap();
    assert_eq!(infos[0].validations.len(), 1);
    assert_eq!(infos[0].validations[0].kind, RuleKind::Phone);
    assert_eq!(infos[0].validations[0].code, "oops");
    assert_eq!(infos[0].validations[0].message, None);
}

#[test]
fn phone_rule_takes_message_override() {
    let a = annot("phone", vec![text_arg("message", "oops", 21)], 20);
    let input = structure(vec![field("val", path("String"), vec![a], 10)]);
    let infos = collect_field_info(&input, true).unwrap();
    assert_eq!(infos[0].validations[0].kind, RuleKind::Phone);
    assert_eq!(infos[0].validations[0].code, "phone");
    assert_eq!(infos[0].validations[0].message, Some("oops".to_string()));
}

#[test]
fn tuple_struct_is_refused_at_its_body() {
    let unnamed = Field { name: None, ty: path("String"), attrs: vec![], span: sp(10) };
    let input = structure(vec![unnamed]);
    assert_eq!(collect_field_info(&input, true).unwrap_err(), err(ErrorKind::NamedFieldsRequired, 1));
    assert_eq!(collect_fields(&input).unwrap_err(), err(ErrorKind::NamedFieldsRequired, 1));
}

#[test]
fn enum_is_refused_at_the_input() {
    let input = DeriveInput { data: Data::Enum, span: sp(0) };
    assert_eq!(collect_field_info(&input, true).unwrap_err(), err(ErrorKind::NamedFieldsRequired, 0));
    let input = DeriveInput { data: Data::Union, span: sp(5) };
    assert_eq!(collect_fields(&input).unwrap_err(), err(ErrorKind::NamedFieldsRequired, 5));
}

#[test]
fn plain_struct_gives_one_empty_descriptor_per_field_in_order() {
    let input = structure(vec![
        field("a", path("u32"), vec![], 10),
        field("b", path("Vec < String >"), vec![], 11),
        field("c", TypeExpr::Group { elem: "Option < u8 >".to_string() }, vec![], 12),
    ]);
    for allow in [true, false] {
        let infos = collect_field_info(&input, allow).unwrap();
        let names: Vec<&str> = infos.iter().map(|i| i.name.as_str()).collect();
        assert_eq!(names, vec!["a", "b", "c"]);
        let types: Vec<&str> = infos.iter().map(|i| i.field_type.as_str()).collect();
        assert_eq!(types, vec!["u32", "Vec<String>", "Option<u8>"]);
        assert!(infos.iter().all(|i| i.validations.is_empty() && i.modifiers.is_empty()));
        assert_eq!(infos[1].field.span, sp(11));
    }
}

#[test]
fn empty_struct_gives_no_descriptors() {
    let input = structure(vec![]);
    assert!(collect_field_info(&input, false).unwrap().is_empty());
}

#[test]
fn reference_field_needs_references_allowed() {
    let r = TypeExpr::Reference { lifetime: true, elem: "str".to_string() };
    let input = structure(vec![field("a", path("u8"), vec![], 10), field("name", r, vec![], 11)]);
    assert_eq!(collect_field_info(&input, false).unwrap_err(), err(ErrorKind::OwnedDataRequired, 11));
    let infos = collect_field_info(&input, true).unwrap();
    assert_eq!(infos[1].field_type, "&str");
}

#[test]
fn reference_without_lifetime_is_still_borrowed() {
    let r = TypeExpr::Reference { lifetime: false, elem: "str".to_string() };
    let sig = resolve_type(&r);
    assert_eq!(sig.text, "str");
    assert!(sig.is_reference);
    let fields = vec![field("name", r, vec![], 11)];
    assert_eq!(map_field_types(&fields, false).unwrap_err(), err(ErrorKind::OwnedDataRequired, 11));
    assert!(map_field_types(&fields, true).is_ok());
}

#[test]
fn only_a_reference_type_is_borrowed() {
    let sig = resolve_type(&path("Option < & 'a str >"));
    assert_eq!(sig.text, "Option<&'astr>");
    assert!(!sig.is_reference);
    let fields = vec![field("name", path("Option < & 'a str >"), vec![], 11)];
    assert!(map_field_types(&fields, false).is_ok());
    let sig = resolve_type(&path("Option < String >"));
    assert!(!sig.is_reference);
}

#[test]
fn first_reference_field_is_reported() {
    let r1 = TypeExpr::Reference { lifetime: true, elem: "str".to_string() };
    let r2 = TypeExpr::Reference { lifetime: true, elem: "u8".to_string() };
    let input = structure(vec![
        field("a", path("u8"), vec![annot("bogus", vec![], 30)], 10),
        field("b", r1, vec![], 11),
        field("c", r2, vec![], 12),
    ]);
    // types are resolved for every field before any annotation is read
    assert_eq!(collect_field_info(&input, false).unwrap_err(), err(ErrorKind::OwnedDataRequired, 11));
    assert_eq!(collect_field_info(&input, true).unwrap_err(), err(ErrorKind::UnknownAnnotation, 30));
}

#[test]
fn signatures_ignore_spacing() {
    let a = resolve_type(&path("HashMap < String ,\tVec<u8> >"));
    let b = resolve_type(&path("HashMap<String, Vec < u8 >>"));
    assert_eq!(a.text, "HashMap<String,Vec<u8>>");
    assert_eq!(a.text, b.text);
    let again = resolve_type(&path(&a.text));
    assert_eq!(again.text, a.text);
    let g = resolve_type(&TypeExpr::Group { elem: " Vec < u8 > ".to_string() });
    assert_eq!(g.text, "Vec<u8>");
    let o = resolve_type(&TypeExpr::Other { text: "[ u8 ; 4 ]".to_string() });
    assert_eq!(o.text, "[u8;4]");
    assert!(!o.is_reference);
}

#[test]
fn strip_whitespace_removes_every_kind() {
    assert_eq!(strip_whitespace(" a b\tc\nd\re "), "abcde");
    assert_eq!(strip_whitespace(""), "");
    assert_eq!(strip_whitespace("   "), "");
}

#[test]
fn unknown_keyword_is_an_error() {
    let f = field("val", path("String"), vec![annot("trim", vec![], 20), annot("phnoe", vec![], 21)], 10);
    assert_eq!(collect_field_attributes(&f, "String").unwrap_err(), err(ErrorKind::UnknownAnnotation, 21));
}

#[test]
fn rules_and_modifiers_keep_their_order() {
    let f = field(
        "val",
        path("String"),
        vec![
            annot("trim", vec![], 20),
            annot("email", vec![], 21),
            annot("uppercase", vec![], 22),
            annot("length", vec![num_arg("min", 1, 30), num_arg("max", 5, 31)], 23),
        ],
        10,
    );
    let (rules, mods) = collect_field_attributes(&f, "String").unwrap();
    let kinds: Vec<RuleKind> = rules.iter().map(|r| r.kind).collect();
    assert_eq!(kinds, vec![RuleKind::Email, RuleKind::Length]);
    let mkinds: Vec<ModifierKind> = mods.iter().map(|m| m.kind).collect();
    assert_eq!(mkinds, vec![ModifierKind::Trim, ModifierKind::Uppercase]);
    assert_eq!(rules[1].code, "length");
    assert_eq!(rules[1].params.len(), 2);
    assert_eq!(rules[1].params[0].name, "min");
    assert_eq!(rules[1].params[1].span, sp(31));
}

#[test]
fn overrides_are_not_parameters() {
    let a = annot(
        "contains",
        vec![text_arg("code", "c1", 30), text_arg("value", "x", 31), text_arg("message", "m", 32)],
        20,
    );
    let rule = parse_rule(RuleKind::Contains, &a, "String").unwrap();
    assert_eq!(rule.code, "c1");
    assert_eq!(rule.message, Some("m".to_string()));
    assert_eq!(rule.params.len(), 1);
    assert_eq!(rule.params[0].name, "value");
}

#[test]
fn unknown_argument_is_an_error() {
    let a = annot("phone", vec![num_arg("min", 3, 30)], 20);
    assert_eq!(parse_rule(RuleKind::Phone, &a, "String").unwrap_err(), err(ErrorKind::UnknownArgument, 30));
    let f = field("val", path("String"), vec![annot("trim", vec![num_arg("min", 3, 31)], 20)], 10);
    assert_eq!(collect_field_attributes(&f, "String").unwrap_err(), err(ErrorKind::UnknownArgument, 31));
}

#[test]
fn argument_of_wrong_type_is_an_error() {
    let a = annot("phone", vec![num_arg("code", 3, 30)], 20);
    assert_eq!(parse_rule(RuleKind::Phone, &a, "String").unwrap_err(), err(ErrorKind::ArgumentType, 30));
    let a = annot("length", vec![text_arg("min", "3", 31)], 20);
    assert_eq!(parse_rule(RuleKind::Length, &a, "String").unwrap_err(), err(ErrorKind::ArgumentType, 31));
}

#[test]
fn range_needs_a_number_field() {
    let a = annot("range", vec![num_arg("min", 1, 30)], 20);
    assert_eq!(parse_rule(RuleKind::Range, &a, "String").unwrap_err(), err(ErrorKind::IncompatibleField, 20));
    assert!(parse_rule(RuleKind::Range, &a, "u64").is_ok());
    assert!(parse_rule(RuleKind::Range, &a, "Option<i32>").is_ok());
    assert_eq!(parse_rule(RuleKind::Range, &a, "Option<String>").unwrap_err(), err(ErrorKind::IncompatibleField, 20));
    assert_eq!(parse_rule(RuleKind::Range, &a, "Vec<u8>").unwrap_err(), err(ErrorKind::IncompatibleField, 20));
}

#[test]
fn keywords_name_rule_kinds() {
    assert_eq!(rule_kind_from_keyword("phone"), Some(RuleKind::Phone));
    assert_eq!(rule_kind_from_keyword("does_not_contain"), Some(RuleKind::DoesNotContain));
    assert_eq!(rule_kind_from_keyword("trim"), None);
    assert_eq!(rule_kind_from_keyword("Phone"), None);
    assert_eq!(RuleKind::CreditCard.keyword(), "credit_card");
}

#[test]
fn error_kinds_have_messages() {
    assert!(ErrorKind::OwnedDataRequired.message().contains("owned data"));
    assert!(ErrorKind::NamedFieldsRequired.message().contains("named fields"));
    assert_eq!(ErrorKind::DuplicateArgument.message(), "argument given more than once");
}

#[test]
fn whitespace_matches_unicode_white_space() {
    for c in (0u32..=0x10FFFF).filter_map(char::from_u32) {
        assert_eq!(is_whitespace_char(c), c.is_whitespace(), "{:?}", c);
    }
    assert_eq!(strip_whitespace("Vec\u{C}<\u{A0}u8\u{3000}>"), "Vec<u8>");
}

#[test]
fn ownership_message_asks_for_owned_data() {
    assert_eq!(
        ErrorKind::OwnedDataRequired.message(),
        "Validify must be implemented for structs with owned data, if you just need validation and not modification, use Validate instead"
    );
    assert_eq!(
        ErrorKind::NamedFieldsRequired.message(),
        "#[derive(Validate/Validify)] can only be used on structs with named fields"
    );
    assert_eq!(ErrorKind::UnknownAnnotation.message(), "unknown validation rule or modifier");
}

#[test]
fn unknown_keyword_fails_whole_analysis() {
    let input = structure(vec![
        field("a", path("u8"), vec![], 10),
        field("b", path("String"), vec![annot("email", vec![], 20), annot("emial", vec![], 21)], 11),
    ]);
    assert_eq!(collect_field_info(&input, false).unwrap_err(), err(ErrorKind::UnknownAnnotation, 21));
}

#[test]
fn repeated_override_is_an_error() {
    let a = annot("phone", vec![text_arg("code", "c1", 30), text_arg("code", "c2", 31)], 20);
    assert_eq!(parse_rule(RuleKind::Phone, &a, "String").unwrap_err(), err(ErrorKind::DuplicateArgument, 31));
    let a = annot("phone", vec![text_arg("message", "m", 30), text_arg("code", "c", 31), text_arg("message", "n", 32)], 20);
    assert_eq!(parse_rule(RuleKind::Phone, &a, "String").unwrap_err(), err(ErrorKind::DuplicateArgument, 32));
}

#[test]
fn decimal_bounds_are_numbers() {
    let dec = AnnotationArg { name: "min".to_string(), value: ArgValue::Decimal("1.5".to_string()), span: sp(30) };
    let a = annot("range", vec![dec], 20);
    let rule = parse_rule(RuleKind::Range, &a, "f64").unwrap();
    assert_eq!(rule.params.len(), 1);
    assert!(matches!(&rule.params[0].value, ArgValue::Decimal(d) if d == "1.5"));
    let dec = AnnotationArg { name: "value".to_string(), value: ArgValue::Decimal("1.5".to_string()), span: sp(31) };
    let a = annot("contains", vec![dec], 21);
    assert_eq!(parse_rule(RuleKind::Contains, &a, "String").unwrap_err(), err(ErrorKind::ArgumentType, 31));
}
