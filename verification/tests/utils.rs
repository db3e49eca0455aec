use moye::utils::{
    extract_digits, extract_ident, extract_operator, extract_whitespaces,
    extract_whitespaces_with_error, tag, take_while,
};

#[test]
fn utils_extract_one_digit() {
    assert_eq!(extract_digits("1+2"), Ok(("+2", "1")))
}

#[test]
fn utils_extract_two_digits() {
    assert_eq!(extract_digits("10+20"), Ok(("+20", "10")))
}

#[test]
fn do_not_extract_digits_when_input_is_invalid() {
    assert_eq!(extract_digits("abcd"), Err("expected digits".to_string()))
}

#[test]
fn do_not_extract_anything_from_empty_input() {
    assert_eq!(take_while(|c| c.is_ascii_digit(), ""), ("", ""));
    assert_eq!(extract_digits(""), Err("expected digits".to_string()));
}

#[test]
fn extract_newlines_or_spaces() {
    assert_eq!(extract_whitespaces(" \n     \n\nabc"), ("abc", " \n     \n\n"));
}

#[test]
fn do_not_extract_spaces_when_input_does_not_start_with_them() {
    assert_eq!(extract_whitespaces_with_error("blah"), Err("expected a space".to_string()));
}

#[test]
fn utils_extract_digits_with_no_remainder() {
    assert_eq!(extract_digits("100"), Ok(("", "100")))
}

#[test]
fn utils_extract_spaces() {
    assert_eq!(extract_whitespaces("  4"), ("4", "  "))
}

#[test]
fn utils_extract_alphabetic_ident() {
    assert_eq!(extract_ident("asdfasdfWEfzsdf let"), Ok((" let", "asdfasdfWEfzsdf")))
}

#[test]
fn utils_extract_alphanumeric_ident() {
    assert_eq!(extract_ident("var1()"), Ok(("()", "var1")))
}

#[test]
fn utils_cannot_extract_ident_beginning_with_number() {
    assert_eq!(extract_ident("123abc"), Err("expected identifier".to_string()));
}

#[test]
fn utils_tag_word() {
    assert_eq!(tag("let", "let a"), Ok(" a"));
}

#[test]
fn extract_plus() {
    assert_eq!(extract_operator("+2"), ("2", "+"));
}

#[test]
fn extract_minus() {
    assert_eq!(extract_operator("-10"), ("10", "-"));
}

#[test]
fn extract_star() {
    assert_eq!(extract_operator("*3"), ("3", "*"));
}

#[test]
fn extract_slash() {
    assert_eq!(extract_operator("/4"), ("4", "/"));
}
