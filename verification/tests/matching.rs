use restest::api::{assert_body_matches, resolve_binding_types, AmbiguousBindingError, Error};
use restest::bindings::{compile_bindings, PathStep};
use restest::extract::{extract_bindings, resolve, Extracted};
use restest::matcher::{check_matches, MatchError};
use restest::parse::parse;
use restest::pattern::{BindTy, Pattern, Scalar};
use restest::value::{Number, Value};

fn s(text: &str) -> String {
    text.to_string()
}

fn num(n: i64) -> Value {
    Value::Number(Number::Integral(n))
}

fn text(t: &str) -> Value {
    Value::Text(s(t))
}

fn arr(vs: Vec<Value>) -> Value {
    Value::Array(vs)
}

fn obj(fields: Vec<(&str, Value)>) -> Value {
    Value::Object(fields.into_iter().map(|(k, v)| (s(k), v)).collect())
}

fn hint(name: &str, ty: BindTy) -> (String, BindTy) {
    (s(name), ty)
}

fn int_hint(name: &str) -> (String, BindTy) {
    hint(name, BindTy::Scalar(Scalar::Int))
}

#[test]
fn literal_integer_matches_integral_number() {
    let pattern = parse("42").unwrap();
    assert_eq!(check_matches(&num(42), &pattern), Ok(()));
}

#[test]
fn literal_integer_rejects_other_integral_number() {
    let pattern = parse("42").unwrap();
    assert_eq!(
        check_matches(&num(41), &pattern),
        Err(MatchError::IntegerMismatch { expected: 42, found: 41 })
    );
}

#[test]
fn literal_integer_rejects_fractional_number() {
    let pattern = parse("42").unwrap();
    assert_eq!(
        check_matches(&Value::Number(Number::NonIntegral), &pattern),
        Err(MatchError::NotAnInteger)
    );
}

#[test]
fn literal_integer_rejects_string() {
    let pattern = parse("42").unwrap();
    assert_eq!(check_matches(&text("42"), &pattern), Err(MatchError::TypeMismatch));
}

#[test]
fn literal_string_matches_equal_string() {
    let pattern = parse("\"John Doe\"").unwrap();
    assert_eq!(check_matches(&text("John Doe"), &pattern), Ok(()));
}

#[test]
fn literal_string_rejects_different_string() {
    let pattern = parse("\"John Doe\"").unwrap();
    assert_eq!(
        check_matches(&text("Jane Doe"), &pattern),
        Err(MatchError::StringMismatch { expected: s("John Doe"), found: s("Jane Doe") })
    );
}

#[test]
fn array_length_strict_too_short_pattern() {
    let pattern = parse("[a, b]").unwrap();
    assert_eq!(
        check_matches(&arr(vec![num(1), num(2), num(3)]), &pattern),
        Err(MatchError::LengthMismatch { expected: 2, found: 3 })
    );
}

#[test]
fn array_exact_length_binds_in_order() {
    let hints = vec![int_hint("a"), int_hint("b")];
    let out = assert_body_matches(&arr(vec![num(1), num(2)]), "[a, b]", &hints).unwrap();
    assert_eq!(out, vec![(s("a"), Extracted::Int(1)), (s("b"), Extracted::Int(2))]);
}

#[test]
fn object_exhaustive_value_field_not_in_pattern() {
    let value = obj(vec![("a", num(1)), ("b", num(2))]);
    let pattern = parse("{a: 1}").unwrap();
    assert_eq!(
        check_matches(&value, &pattern),
        Err(MatchError::FieldNotInPattern { field: s("b") })
    );
}

#[test]
fn object_exhaustive_pattern_field_not_in_value() {
    let value = obj(vec![("a", num(1))]);
    let pattern = parse("{a: 1, b: _}").unwrap();
    assert_eq!(
        check_matches(&value, &pattern),
        Err(MatchError::FieldNotInValue { field: s("b") })
    );
}

#[test]
fn object_field_order_is_irrelevant_for_matching() {
    let value = obj(vec![("b", num(2)), ("a", num(1))]);
    let pattern = parse("{a: 1, b: 2}").unwrap();
    assert_eq!(check_matches(&value, &pattern), Ok(()));
}

#[test]
fn binding_order_follows_pattern_declaration_order() {
    let value = obj(vec![("name", text("X")), ("age", num(1))]);
    let hints = vec![hint("n", BindTy::Scalar(Scalar::Text)), int_hint("a")];
    let out = assert_body_matches(&value, "{name: n, age: a}", &hints).unwrap();
    assert_eq!(out, vec![(s("n"), Extracted::Text(s("X"))), (s("a"), Extracted::Int(1))]);
}

#[test]
fn binding_order_ignores_value_storage_order() {
    let value = obj(vec![("age", num(1)), ("name", text("X"))]);
    let hints = vec![hint("n", BindTy::Scalar(Scalar::Text)), int_hint("a")];
    let out = assert_body_matches(&value, "{name: n, age: a}", &hints).unwrap();
    assert_eq!(out, vec![(s("n"), Extracted::Text(s("X"))), (s("a"), Extracted::Int(1))]);
}

#[test]
fn nested_paths_resolve_and_bind() {
    let value = arr(vec![obj(vec![("id", num(1))]), obj(vec![("id", num(2))])]);
    let hints = vec![int_hint("x"), int_hint("y")];
    let out = assert_body_matches(&value, "[{id: x}, {id: y}]", &hints).unwrap();
    assert_eq!(out, vec![(s("x"), Extracted::Int(1)), (s("y"), Extracted::Int(2))]);
}

#[test]
fn wildcards_generalize_a_value_of_the_same_shape() {
    let value = obj(vec![("a", arr(vec![num(1), Value::Bool(true), text("x")])), ("b", num(7))]);
    for src in ["{a: [_, _, _], b: 7}", "{a: _, b: _}", "_"] {
        let pattern = parse(src).unwrap();
        assert_eq!(check_matches(&value, &pattern), Ok(()), "pattern {src}");
    }
}

#[test]
fn parsing_twice_yields_identical_patterns_and_bindings() {
    let src = "{name: n as String, items: [a as i64, _, \"x\"]}";
    let first = parse(src).unwrap();
    let second = parse(src).unwrap();
    assert_eq!(first, second);
    assert_eq!(compile_bindings(&first), compile_bindings(&second));
}

#[test]
fn compiled_paths_descend_in_pre_order() {
    let pattern = parse("{user: {id: x}, tags: [t]}").unwrap();
    let bindings = compile_bindings(&pattern);
    assert_eq!(bindings.len(), 2);
    assert_eq!(bindings[0].name, s("x"));
    assert_eq!(
        bindings[0].path,
        vec![PathStep::Field(s("user")), PathStep::Field(s("id"))]
    );
    assert_eq!(bindings[1].name, s("t"));
    assert_eq!(bindings[1].path, vec![PathStep::Field(s("tags")), PathStep::Index(0)]);
}

#[test]
fn wildcard_produces_no_binding() {
    let pattern = parse("[_, _]").unwrap();
    assert_eq!(compile_bindings(&pattern), vec![]);
}

#[test]
fn resolve_replays_a_path_to_the_sub_value() {
    let value = obj(vec![("items", arr(vec![num(10), num(20)]))]);
    let path = vec![PathStep::Field(s("items")), PathStep::Index(1)];
    assert_eq!(resolve(&value, &path), Some(&num(20)));
    let missing = vec![PathStep::Field(s("nope"))];
    assert_eq!(resolve(&value, &missing), None);
}

#[test]
fn extraction_converts_scalars_and_lists() {
    let value = obj(vec![("n", num(5)), ("flag", Value::Bool(true)), ("xs", arr(vec![num(1), num(2)]))]);
    let hints = vec![];
    let out = assert_body_matches(
        &value,
        "{n: n as i64, flag: f as bool, xs: xs as [i64]}",
        &hints,
    )
    .unwrap();
    assert_eq!(
        out,
        vec![
            (s("n"), Extracted::Int(5)),
            (s("f"), Extracted::Bool(true)),
            (s("xs"), Extracted::IntList(vec![1, 2])),
        ]
    );
}

#[test]
fn whole_body_binds_to_a_list() {
    let hints = vec![hint("a", BindTy::List(Scalar::Int))];
    let out = assert_body_matches(&arr(vec![num(42), num(101)]), "a", &hints).unwrap();
    assert_eq!(out, vec![(s("a"), Extracted::IntList(vec![42, 101]))]);
}

#[test]
fn untyped_binding_without_hint_is_ambiguous() {
    let out = assert_body_matches(&num(42), "v", &vec![]);
    assert_eq!(
        out,
        Err(Error::Ambiguous(AmbiguousBindingError { name: s("v") }))
    );
}

#[test]
fn matched_sub_value_of_the_wrong_type_is_a_conversion_error() {
    let out = assert_body_matches(&num(42), "v as String", &vec![]);
    match out {
        Err(Error::Conversion(e)) => assert_eq!(e.name, s("v")),
        other => panic!("expected a conversion error, got {other:?}"),
    }
}

#[test]
fn mismatch_beats_extraction() {
    let value = obj(vec![("a", num(1))]);
    let out = assert_body_matches(&value, "{a: 2}", &vec![]);
    assert_eq!(
        out,
        Err(Error::Mismatch(MatchError::IntegerMismatch { expected: 2, found: 1 }))
    );
}

#[test]
fn malformed_pattern_is_a_syntax_error() {
    for src in ["[1,", "{a 1}", "", "{a: }", "[1] ]", "\"abc", "99999999999999999999", "v as nope"] {
        let out = assert_body_matches(&num(1), src, &vec![]);
        assert!(matches!(out, Err(Error::Syntax(_))), "source {src:?}");
    }
}

#[test]
fn keyword_and_extreme_literals() {
    assert!(parse("as").is_err());
    let pattern = parse("9223372036854775807").unwrap();
    assert_eq!(check_matches(&num(i64::MAX), &pattern), Ok(()));
    assert!(parse("9223372036854775808").is_err());
    assert!(parse("-9223372036854775809").is_err());
}

#[test]
fn array_and_object_accessors_hand_the_contents_back() {
    let value = arr(vec![num(1), num(2)]);
    assert_eq!(value.to_array(), &vec![num(1), num(2)]);
    let value = obj(vec![("a", num(1))]);
    assert_eq!(value.to_object(), &vec![(s("a"), num(1))]);
}

#[test]
fn negative_integer_literals_parse_and_match() {
    let pattern = parse("[-5, -9223372036854775808]").unwrap();
    let value = arr(vec![num(-5), num(i64::MIN)]);
    assert_eq!(check_matches(&value, &pattern), Ok(()));
}

#[test]
fn trailing_commas_are_allowed() {
    let pattern = parse("{a: [1, 2,], }").unwrap();
    let value = obj(vec![("a", arr(vec![num(1), num(2)]))]);
    assert_eq!(check_matches(&value, &pattern), Ok(()));
}

#[test]
fn underscore_prefixed_names_are_bindings_not_wildcards() {
    let pattern = parse("val_").unwrap();
    let bindings = compile_bindings(&pattern);
    assert_eq!(bindings.len(), 1);
    assert_eq!(bindings[0].name, s("val_"));
}

#[test]
fn error_descriptions_name_the_field() {
    let e = MatchError::FieldNotInPattern { field: s("b") };
    assert_eq!(
        e.describe(),
        s("Field `b` is included in the object but not matched in the pattern")
    );
    let e = MatchError::FieldNotInValue { field: s("b") };
    assert_eq!(
        e.describe(),
        s("Field `b` is matched in the pattern but not found in the JSON")
    );
    assert_eq!(MatchError::TypeMismatch.describe(), s("Values don't have the same type"));
    assert_eq!(MatchError::NotAnInteger.describe(), s("Failed to convert Number to i64"));
    assert_eq!(
        MatchError::LengthMismatch { expected: 2, found: 3 }.describe(),
        s("Arrays don't have the same length")
    );
}

#[test]
fn resolve_binding_types_prefers_the_annotation() {
    let pattern = parse("{a: x as bool}").unwrap();
    let bindings = compile_bindings(&pattern);
    let hints = vec![int_hint("x")];
    let resolved = resolve_binding_types(&bindings, &hints).unwrap();
    assert_eq!(resolved[0].ty, Some(BindTy::Scalar(Scalar::Bool)));
}

#[test]
fn extraction_runs_in_binding_order_after_a_match() {
    let value = arr(vec![num(7), text("seven")]);
    let pattern = parse("[a as i64, b as String]").unwrap();
    let bindings = compile_bindings(&pattern);
    let typed = resolve_binding_types(&bindings, &vec![]).unwrap();
    check_matches(&value, &pattern).unwrap();
    let out = extract_bindings(&value, &typed).unwrap();
    assert_eq!(
        out,
        vec![(s("a"), Extracted::Int(7)), (s("b"), Extracted::Text(s("seven")))]
    );
}

#[test]
fn failure_descriptions_cover_every_stage() {
    let syntax = assert_body_matches(&num(1), "[", &vec![]).unwrap_err();
    assert_eq!(syntax.describe(), s("The token here is not one the grammar admits"));
    let ambiguous = assert_body_matches(&num(1), "v", &vec![]).unwrap_err();
    assert_eq!(ambiguous.describe(), s("Binding `v` has no requested type"));
    let mismatch = assert_body_matches(&num(1), "2", &vec![]).unwrap_err();
    assert_eq!(mismatch.describe(), s("Numbers don't have the same value"));
    let conversion = assert_body_matches(&num(1), "v as bool", &vec![]).unwrap_err();
    assert_eq!(
        conversion.describe(),
        s("Failed to convert binding `v` to its requested type")
    );
}

#[test]
fn whitespace_separates_tokens_freely() {
    let compact = parse("{a:[1,2],b:_}").unwrap();
    let spaced = parse(" {\ta : [ 1 ,\n 2 ] , b :\r _ } ").unwrap();
    assert_eq!(compact, spaced);
}

#[test]
fn nested_failures_surface_at_the_first_violating_position() {
    let pattern = parse("[1, 2, 3]").unwrap();
    assert_eq!(
        check_matches(&arr(vec![num(9), num(8), num(7)]), &pattern),
        Err(MatchError::IntegerMismatch { expected: 1, found: 9 })
    );
    let pattern = parse("{a: {b: [10]}}").unwrap();
    let value = obj(vec![("a", obj(vec![("b", arr(vec![text("x")]))]))]);
    assert_eq!(check_matches(&value, &pattern), Err(MatchError::TypeMismatch));
}

#[test]
fn reported_uncovered_field_is_the_first_in_value_order() {
    let value = obj(vec![("x", num(1)), ("y", num(2)), ("z", num(3))]);
    let pattern = parse("{y: _}").unwrap();
    assert_eq!(
        check_matches(&value, &pattern),
        Err(MatchError::FieldNotInPattern { field: s("x") })
    );
}

#[test]
fn missing_pattern_fields_are_reported_in_declaration_order() {
    let value = obj(vec![("a", num(1))]);
    let pattern = parse("{a: 1, b: _, c: _}").unwrap();
    assert_eq!(
        check_matches(&value, &pattern),
        Err(MatchError::FieldNotInValue { field: s("b") })
    );
}

#[test]
fn duplicate_object_keys_are_malformed() {
    let bad = Value::Object(vec![(s("a"), num(1)), (s("a"), num(2))]);
    assert!(!bad.is_wf());
    let nested = arr(vec![bad]);
    assert!(!nested.is_wf());
    let good = obj(vec![("a", num(1)), ("b", num(2))]);
    assert!(good.is_wf());
}

#[test]
fn null_and_bool_values_match_only_wildcards_and_bindings() {
    let pattern = parse("_").unwrap();
    assert_eq!(check_matches(&Value::Null, &pattern), Ok(()));
    assert_eq!(check_matches(&Value::Bool(false), &pattern), Ok(()));
    let int_pattern = parse("0").unwrap();
    assert_eq!(check_matches(&Value::Null, &int_pattern), Err(MatchError::TypeMismatch));
    assert_eq!(check_matches(&Value::Bool(true), &int_pattern), Err(MatchError::TypeMismatch));
}
