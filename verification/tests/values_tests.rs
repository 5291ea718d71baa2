use kompose::values::{
    assignment_text, classify_given, convert_to_tuple_array, fragment_text, pair_by_flags,
    parse_args_to_tuples, source_given_text, try_parse_args_to_tuples, DefineType,
    SiloValueType, ValueCombiner, ValueMatches, ValueOptions,
};

fn strings(items: &[&str]) -> Vec<String> {
    items.iter().map(|s| s.to_string()).collect()
}

fn pairs(items: &[(&str, &str)]) -> Vec<(String, String)> {
    items.iter().map(|(a, b)| (a.to_string(), b.to_string())).collect()
}

fn codes(args: &[&str], typ: DefineType) -> Vec<String> {
    let mut partials = Vec::new();
    ValueOptions::gen_code(&strings(args), &typ, &mut partials);
    partials
}

#[test]
fn tuple_array_pairs_two_by_two() {
    let got = convert_to_tuple_array(&strings(&["a", "b", "c", "d"]));
    assert_eq!(got, pairs(&[("a", "b"), ("c", "d")]));
    assert_eq!(convert_to_tuple_array(&Vec::new()), Vec::new());
}

#[test]
fn parse_takes_value_after_object_path() {
    let got = parse_args_to_tuples(&strings(&["k.apiserver", "image=X", "c=1"]));
    assert_eq!(got, pairs(&[("k.apiserver", "image=X"), ("", "c=1")]));
}

#[test]
fn parse_keeps_every_argument_in_order() {
    let args = strings(&["a.b", "x=1", "y=2", "c-d", "z=3"]);
    let got = parse_args_to_tuples(&args);
    assert_eq!(got, pairs(&[("a.b", "x=1"), ("", "y=2"), ("c-d", "z=3")]));
    let mut back = Vec::new();
    for (k, v) in got {
        if !k.is_empty() {
            back.push(k);
        }
        back.push(v);
    }
    assert_eq!(back, args);
}

#[test]
fn parse_refuses_object_path_without_value() {
    assert_eq!(try_parse_args_to_tuples(&strings(&["foo"])), None);
    assert_eq!(
        try_parse_args_to_tuples(&strings(&["a=b"])),
        Some(pairs(&[("", "a=b")]))
    );
}

#[test]
fn input_under_object_path_is_forced() {
    assert_eq!(
        codes(&["k.apiserver", "image=X"], DefineType::InputValue),
        strings(&[r#"({ k.apiserver = { input = { image | force = "X" } } })"#])
    );
}

#[test]
fn fragment_is_forced() {
    assert_eq!(
        codes(&["k.apiserver", "spec.replicas=3"], DefineType::Fragment),
        strings(&["({ k.apiserver = { fragment = { spec.replicas | force = 3 } } })"])
    );
}

#[test]
fn raw_record_fragment_is_kept_as_source() {
    assert_eq!(
        codes(
            &["k.apiserver", r#"{spec.template.spec.namedContainers.app.image="X"}"#],
            DefineType::Fragment
        ),
        strings(&[
            r#"({ k.apiserver = { fragment = {spec.template.spec.namedContainers.app.image="X"} } })"#
        ])
    );
}

#[test]
fn value_without_object_path() {
    assert_eq!(
        codes(&["cluster_name=cls-foo"], DefineType::InputValue),
        strings(&[r#"({ input = { cluster_name | force = "cls-foo" } })"#])
    );
}

#[test]
fn literals_numbers_and_compounds() {
    assert_eq!(
        codes(&["debug=true", "ab.c=null", "nn=-1.5", "list=[1, 2]"], DefineType::InputValue),
        strings(&[
            "({ input = { debug | force = true } })",
            "({ input = { ab.c | force = null } })",
            "({ input = { nn | force = -1.5 } })",
            "({ input = { list = [1, 2] } })",
        ])
    );
}

#[test]
fn file_and_data_values() {
    assert_eq!(
        codes(&["cfg=@./a.yaml", r#"data='json:{"a":1}"#], DefineType::Fragment),
        strings(&[
            r#"({ fragment = { cfg = import "./a.yaml" } })"#,
            r#"({ fragment = { data = std.deserialize 'Json m%"{"a":1}"% } })"#,
        ])
    );
    assert_eq!(
        codes(&["dd='yaml:a: 1"], DefineType::Fragment),
        strings(&[r#"({ fragment = { dd = std.deserialize 'Yaml m%"a: 1"% } })"#])
    );
}

#[test]
fn strings_are_quoted_and_escaped() {
    assert_eq!(
        codes(&[r#"msg=say "hi""#], DefineType::InputValue),
        strings(&[r#"({ input = { msg | force = "say \"hi\"" } })"#])
    );
}

#[test]
fn bare_file_and_raw_source() {
    assert_eq!(
        codes(&["@a.ncl", "x=1"], DefineType::InputValue),
        strings(&[r#"({ input = import "a.ncl" })"#, "({ input = x=1 })"])
    );
}

#[test]
fn empty_arguments_add_nothing() {
    let mut partials = strings(&["keep"]);
    ValueOptions::gen_code(&Vec::new(), &DefineType::InputValue, &mut partials);
    assert_eq!(partials, strings(&["keep"]));
}

#[test]
fn combine_appends_inputs_then_fragments() {
    let options = ValueOptions {
        inputs: strings(&["cluster_name=cls-foo"]),
        fragments: strings(&["monitor.statefulset", "spec.replicas=3"]),
    };
    let mut partials = strings(&["(import \"a.ncl\")"]);
    options.combine(&mut partials);
    assert_eq!(
        partials,
        strings(&[
            "(import \"a.ncl\")",
            r#"({ input = { cluster_name | force = "cls-foo" } })"#,
            "({ monitor.statefulset = { fragment = { spec.replicas | force = 3 } } })",
        ])
    );
}

#[test]
fn fragment_loaded_from_file_expression() {
    assert_eq!(
        codes(&["k.apiserver", r#"(import "./image.json")"#], DefineType::Fragment),
        strings(&[r#"({ k.apiserver = { fragment = (import "./image.json") } })"#])
    );
}

fn no_matches() -> ValueMatches {
    ValueMatches { number: false, compound: false, import_file: None, data: None }
}

#[test]
fn pairing_by_given_flags() {
    let args = strings(&["p", "v", "w", "q"]);
    assert_eq!(
        pair_by_flags(&args, &vec![true, false, false, false]),
        Some(pairs(&[("p", "v"), ("", "w"), ("", "q")]))
    );
    assert_eq!(pair_by_flags(&args, &vec![false, false, false, true]), None);
    assert_eq!(pair_by_flags(&Vec::new(), &Vec::new()), Some(Vec::new()));
}

#[test]
fn classification_by_given_matches() {
    let (kind, text) = classify_given("null", &no_matches());
    assert_eq!((kind, text.as_str()), (SiloValueType::Primitive, "null"));
    let m = ValueMatches { number: true, ..no_matches() };
    assert_eq!(classify_given("12", &m), (SiloValueType::Primitive, "12".to_string()));
    let m = ValueMatches { compound: true, ..no_matches() };
    assert_eq!(classify_given("[1]", &m), (SiloValueType::Composite, "[1]".to_string()));
    let m = ValueMatches { import_file: Some("x.ncl".to_string()), ..no_matches() };
    assert_eq!(classify_given("@x.ncl", &m), (SiloValueType::Composite, "import \"x.ncl\"".to_string()));
    let m = ValueMatches { data: Some(("yaml".to_string(), "a: 1".to_string())), ..no_matches() };
    assert_eq!(
        classify_given("'YAML:a: 1", &m),
        (SiloValueType::Composite, "std.deserialize 'Yaml m%\"a: 1\"%".to_string())
    );
    let m = ValueMatches { data: Some(("toml".to_string(), "c".to_string())), ..no_matches() };
    assert_eq!(classify_given("v", &m), (SiloValueType::Composite, " m%\"c\"%".to_string()));
    assert_eq!(
        classify_given("a\"b", &no_matches()),
        (SiloValueType::Primitive, "\"a\\\"b\"".to_string())
    );
}

#[test]
fn assignments_sources_and_fragments() {
    assert_eq!(assignment_text("k", SiloValueType::Primitive, "1"), "{ k | force = 1 }");
    assert_eq!(assignment_text("k", SiloValueType::Composite, "[1]"), "{ k = [1] }");
    assert_eq!(source_given_text("raw", Some("{ a = 1 }".to_string()), Some("f".to_string())), "{ a = 1 }");
    assert_eq!(source_given_text("raw", None, Some("f.ncl".to_string())), "import \"f.ncl\"");
    assert_eq!(source_given_text("raw", None, None), "raw");
    assert_eq!(fragment_text("", &DefineType::InputValue, "s"), "({ input = s })");
    assert_eq!(fragment_text("a.b", &DefineType::Fragment, "s"), "({ a.b = { fragment = s } })");
}
