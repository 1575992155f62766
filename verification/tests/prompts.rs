use promptconv::convert_prompt;
use promptconv::translate;

#[test]
fn convert_default_redhat() {
    let test_prompt = String::from("[\\u@\\h \\W]\\$ ");
    let new_prompt = convert_prompt(test_prompt);
    assert_eq!(new_prompt, String::from("[%n@%m %1~]%(#.#.$) "));
}

#[test]
fn convert_colourful_redhat() {
    let test_prompt = String::from("\\033[92m[\\u@\\033[94m\\h \\W\\033[92m]\\$ \\033[0m");
    let new_prompt = convert_prompt(test_prompt);
    assert_eq!(
        new_prompt,
        String::from("%F{10}[%n@%F{12}%m %1~%F{10}]%(#.#.$) %f")
    );
}

#[test]
fn convert_gentoo_root() {
    let test_prompt = String::from("\\033[91m\\h \\033[94m\\w \\$ \\033[0m");
    let new_prompt = convert_prompt(test_prompt);
    assert_eq!(new_prompt, String::from("%F{9}%m %F{12}%~ %(#.#.$) %f"));
}

#[test]
fn convert_gentoo_user() {
    let test_prompt = String::from("\\033[92m\\u@\\h \\033[94m\\w \\$ \\033[0m");
    let new_prompt = convert_prompt(test_prompt);
    assert_eq!(new_prompt, String::from("%F{10}%n@%m %F{12}%~ %(#.#.$) %f"));
}

#[test]
fn colors() {
    let test_prompt = String::from(
        "\\033[30m\\033[31m\\033[32m\\033[33m\\033[34m\\033[35m\\033[36m\\033[37m\\033[0m",
    );
    let new_prompt = convert_prompt(test_prompt);
    assert_eq!(
        new_prompt,
        String::from("%F{0}%F{1}%F{2}%F{3}%F{4}%F{5}%F{6}%F{7}%f")
    );
    let test_prompt = String::from(
        "\\033[90m\\033[91m\\033[92m\\033[93m\\033[94m\\033[95m\\033[96m\\033[97m\\033[0m",
    );
    let new_prompt = convert_prompt(test_prompt);
    assert_eq!(
        new_prompt,
        String::from("%F{8}%F{9}%F{10}%F{11}%F{12}%F{13}%F{14}%F{15}%f")
    );
}

#[test]
fn identity_on_plain_text() {
    assert_eq!(translate("user@host ~ $ ", true), "user@host ~ $ ");
    assert_eq!(translate("100% plain {text}", false), "100% plain {text}");
    assert_eq!(translate("", true), "");
    assert_eq!(translate("", false), "");
}

#[test]
fn escape_table_entries() {
    for colors in [true, false] {
        assert_eq!(translate("\\u", colors), "%n");
        assert_eq!(translate("\\h", colors), "%m");
        assert_eq!(translate("\\H", colors), "%M");
        assert_eq!(translate("\\j", colors), "%j");
        assert_eq!(translate("\\l", colors), "%y");
        assert_eq!(translate("\\t", colors), "%*");
        assert_eq!(translate("\\@", colors), "%@");
        assert_eq!(translate("\\w", colors), "%~");
        assert_eq!(translate("\\W", colors), "%1~");
        assert_eq!(translate("\\!", colors), "%!");
        assert_eq!(translate("\\$", colors), "%(#.#.$)");
    }
}

#[test]
fn unknown_escape_echoed() {
    assert_eq!(translate("\\z", true), "\\z");
    assert_eq!(translate("a\\qb", false), "a\\qb");
}

#[test]
fn trailing_backslash_echoed() {
    assert_eq!(translate("abc\\", true), "abc\\");
    assert_eq!(translate("\\", false), "\\");
}

#[test]
fn standard_code_indices() {
    assert_eq!(translate("\\033[30m", true), "%F{0}");
    assert_eq!(translate("\\033[37m", true), "%F{7}");
    assert_eq!(translate("\\033[90m", true), "%F{8}");
    assert_eq!(translate("\\033[97m", true), "%F{15}");
    assert_eq!(translate("\\033[0m", true), "%f");
}

#[test]
fn disabled_colors_byte_identical() {
    assert_eq!(translate("\\033[92m", false), "\\033[92m");
    assert_eq!(
        translate("x\\033[31mtext\\033[0m", false),
        "x\\033[31mtext\\033[0m"
    );
    assert_eq!(translate("\\u\\033[94m", false), "%n\\033[94m");
}

#[test]
fn colourful_prompt_with_colors_disabled() {
    assert_eq!(
        translate("\\033[92m[\\u@\\033[94m\\h \\W\\033[92m]\\$ \\033[0m", false),
        "\\033[92m[%n@\\033[94m%m %1~\\033[92m]%(#.#.$) \\033[0m"
    );
}

#[test]
fn unrepresentable_codes_pass_through() {
    assert_eq!(translate("\\033[41m", true), "\\033[41m");
    assert_eq!(translate("\\033[1m", true), "\\033[1m");
    assert_eq!(translate("\\033[00m", true), "\\033[00m");
    assert_eq!(translate("\\033[38m", true), "\\033[38m");
    assert_eq!(translate("\\033[98m", true), "\\033[98m");
    assert_eq!(translate("\\033[123m", true), "\\033[123m");
}

#[test]
fn malformed_sequences_echoed() {
    assert_eq!(translate("\\033[", true), "\\033[");
    assert_eq!(translate("\\033[31", true), "\\033[31");
    assert_eq!(translate("\\033[m", true), "\\033[m");
    assert_eq!(translate("\\033x", true), "\\033x");
    assert_eq!(translate("\\0334", true), "\\0334");
}

#[test]
fn multibyte_literals_pass_through() {
    assert_eq!(translate("héllo wörld", true), "héllo wörld");
    assert_eq!(translate("\\u héllo", true), "%n héllo");
}
