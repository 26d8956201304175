use onechat::prompt::{prompt_variable_name_is_valid, referenced_prompt_variables, substitute, PromptRenderError};

#[test]
fn referenced_variables_are_sorted_and_unique() {
    let names = referenced_prompt_variables("Hi {{b}} and {{a}}; again {{b}}, not \\{{c}}").unwrap();
    assert_eq!(names, vec!["a".to_string(), "b".to_string()]);
}

#[test]
fn invalid_and_unclosed_placeholders_are_refused() {
    let error = referenced_prompt_variables("{{not valid}}").unwrap_err();
    assert!(error.message().contains("Invalid prompt variable"));
    assert!(matches!(referenced_prompt_variables("{{open"), Err(PromptRenderError::InvalidTemplate(_))));
}

#[test]
fn substitution_replaces_each_placeholder_once() {
    let values = vec![("name".to_string(), "Orion".to_string()), ("nested".to_string(), "{{name}}".to_string())];
    let out = substitute("Hello {{name}}; \\{{name}}; {{nested}}", &values).unwrap();
    assert_eq!(out, "Hello Orion; {{name}}; {{name}}");
    let missing = substitute("{{missing}}", &values).unwrap_err();
    assert!(missing.message().contains("not defined"));
}

#[test]
fn variable_names_are_ascii_words() {
    assert!(prompt_variable_name_is_valid("onechat.os"));
    assert!(prompt_variable_name_is_valid("a-b_c"));
    assert!(!prompt_variable_name_is_valid("not valid"));
    assert!(!prompt_variable_name_is_valid(""));
}
