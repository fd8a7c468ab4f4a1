use zscheme::text::text_less_exec;
use zscheme::executor::strip_shebang;

#[test]
fn strips_shebang() {
    assert_eq!(
        strip_shebang("#!/usr/local/bin/zscheme\n(+ 1 2)"),
        "(+ 1 2)"
    );
}

#[test]
fn no_shebang_unchanged() {
    assert_eq!(strip_shebang("(+ 1 2)"), "(+ 1 2)");
}

#[test]
fn shebang_without_newline_leaves_nothing() {
    assert_eq!(strip_shebang("#!/usr/bin/env zscheme"), "");
}

#[test]
fn only_the_first_line_is_stripped() {
    assert_eq!(strip_shebang("#!a\n#!b\n(x)"), "#!b\n(x)");
}

#[test]
fn hash_without_bang_is_kept() {
    assert_eq!(strip_shebang("#t\n(+ 1 2)"), "#t\n(+ 1 2)");
    assert_eq!(strip_shebang(""), "");
    assert_eq!(strip_shebang("#"), "#");
}

#[test]
fn shebang_with_unicode_after_it() {
    assert_eq!(strip_shebang("#!zs ✓\n(display \"λ\")"), "(display \"λ\")");
}

#[test]
fn text_is_ordered_as_strings_are() {
    assert!(text_less_exec("a", "ab"));
    assert!(!text_less_exec("ab", "a"));
    assert!(text_less_exec("B", "a"));
    assert!(text_less_exec("z", "é"));
    assert!(!text_less_exec("x", "x"));
    assert!(text_less_exec("", "x"));
}
