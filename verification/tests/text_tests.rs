use alias_rs::error::AliasErrorCode;
use alias_rs::setting::{runtime_variables_vec_to_map, substitute_variables};

#[test]
fn substitution_replaces_every_occurrence() {
    let vars = runtime_variables_vec_to_map(vec!["x=1".to_owned(), "y=22".to_owned()]).unwrap();
    let out = substitute_variables(&"a {{x}} b {{y}} c {{x}}".to_owned(), &vars);
    assert_eq!(out, "a 1 b 22 c 1");
}

#[test]
fn substitution_leaves_unknown_placeholders() {
    let vars = runtime_variables_vec_to_map(vec!["x=1".to_owned()]).unwrap();
    let out = substitute_variables(&"{{x}} {{z}}".to_owned(), &vars);
    assert_eq!(out, "1 {{z}}");
}

#[test]
fn substitution_with_no_variables_is_identity() {
    let vars = runtime_variables_vec_to_map(Vec::new()).unwrap();
    let text = "left {{alone}} entirely".to_owned();
    assert_eq!(substitute_variables(&text, &vars), text);
}

#[test]
fn substituted_value_may_hold_structural_characters() {
    let vars = runtime_variables_vec_to_map(vec!["v=\"quoted\"".to_owned()]).unwrap();
    let out = substitute_variables(&"x={{v}}".to_owned(), &vars);
    assert_eq!(out, "x=\"quoted\"");
}

#[test]
fn malformed_define_without_equals_is_rejected() {
    let err = match runtime_variables_vec_to_map(vec!["foo".to_owned()]) {
        Err(e) => e,
        Ok(_) => panic!("expected a rejection"),
    };
    assert_eq!(err.err, AliasErrorCode::MalformedRuntimeVariable);
}

#[test]
fn define_with_two_equals_is_rejected() {
    let err = match runtime_variables_vec_to_map(vec!["a=b=c".to_owned()]) {
        Err(e) => e,
        Ok(_) => panic!("expected a rejection"),
    };
    assert_eq!(err.err, AliasErrorCode::MalformedRuntimeVariable);
}

#[test]
fn later_define_of_the_same_key_wins() {
    let vars =
        runtime_variables_vec_to_map(vec!["k=first".to_owned(), "k=second".to_owned()]).unwrap();
    assert_eq!(substitute_variables(&"{{k}}".to_owned(), &vars), "second");
}

#[test]
fn empty_key_and_empty_value_are_accepted() {
    let vars = runtime_variables_vec_to_map(vec!["k=".to_owned()]).unwrap();
    assert_eq!(substitute_variables(&"a{{k}}b".to_owned(), &vars), "ab");
}
