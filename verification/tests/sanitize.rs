use neural_mail::sanitize::sanitize_for_prompt;

#[test]
fn braces_and_brackets_become_parentheses() {
    assert_eq!(sanitize_for_prompt("{a} [b]"), "(a) (b)");
}

#[test]
fn triple_dashes_and_hashes_are_neutralized() {
    assert_eq!(sanitize_for_prompt("a---b"), "a - b");
    assert_eq!(sanitize_for_prompt("x###y"), "x # y");
}

#[test]
fn shorter_runs_pass_through() {
    assert_eq!(sanitize_for_prompt("a--b"), "a--b");
    assert_eq!(sanitize_for_prompt("x##y"), "x##y");
}

#[test]
fn runs_are_consumed_left_to_right() {
    assert_eq!(sanitize_for_prompt("----"), " - -");
    assert_eq!(sanitize_for_prompt("------"), " -  - ");
    assert_eq!(sanitize_for_prompt("#####"), " # ##");
}

#[test]
fn mixed_injection_tokens() {
    assert_eq!(
        sanitize_for_prompt("ignore this ---### {system} [sudo]"),
        "ignore this  -  #  (system) (sudo)"
    );
}

#[test]
fn empty_and_plain_text_unchanged() {
    assert_eq!(sanitize_for_prompt(""), "");
    assert_eq!(
        sanitize_for_prompt("Hello, plain text stays as is."),
        "Hello, plain text stays as is."
    );
}
