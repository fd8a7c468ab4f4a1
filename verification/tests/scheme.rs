use zscheme::scheme::{dot_line_command, is_dot_command_line};
use zscheme::text::{is_ascii_letter_char, is_space_char};

#[test]
fn detects_bare_and_hash_dot_lines() {
    assert!(is_dot_command_line(".my.aliases.sky: did:ma:bar"));
    assert!(is_dot_command_line("#.my.aliases.sky: bar"));
    assert!(is_dot_command_line(".my.aliases.sky"));
    assert!(is_dot_command_line("  .my.inbox!flush  "));
}

#[test]
fn rejects_scheme_source() {
    assert!(!is_dot_command_line("(#.my.aliases.sky: \"bar\")"));
    assert!(!is_dot_command_line("(+ 1 2)"));
    assert!(!is_dot_command_line("#t"));
    assert!(!is_dot_command_line(".5"));
    assert!(!is_dot_command_line("..broken"));
    assert!(!is_dot_command_line("(define x 1)\n.my.x"));
}

#[test]
fn dot_lines_edge_cases() {
    assert!(!is_dot_command_line(""));
    assert!(!is_dot_command_line("."));
    assert!(!is_dot_command_line("#."));
    assert!(!is_dot_command_line("##.my.x"));
    assert!(is_dot_command_line("\t.x\n"));
    assert!(is_dot_command_line(".Z"));
    assert!(!is_dot_command_line(".é"));
    assert!(is_dot_command_line("\u{3000}.my.x\u{2028}"));
}

#[test]
fn dot_line_command_strips_whitespace_and_hash() {
    assert_eq!(dot_line_command("  #.my.aliases.sky: bar \n"), ".my.aliases.sky: bar");
    assert_eq!(dot_line_command(".my.x"), ".my.x");
    assert_eq!(dot_line_command(" # .my.x"), " .my.x");
    assert_eq!(dot_line_command("   "), "");
}

#[test]
fn whitespace_matches_std_for_every_char() {
    for u in 0u32..=0x10ffff {
        if let Some(c) = char::from_u32(u) {
            assert_eq!(is_space_char(c), c.is_whitespace(), "U+{u:04X}");
            assert_eq!(is_ascii_letter_char(c), c.is_ascii_alphabetic(), "U+{u:04X}");
        }
    }
}

#[test]
fn trimming_matches_std() {
    for s in ["", "  a b  ", "\u{85}x\u{a0}", "\t\n", "x", " \u{200a}λ\u{2029} "] {
        let v: Vec<char> = s.chars().collect();
        let (a, b) = zscheme::text::trim_bounds(&v);
        let t: String = v[a..b].iter().collect();
        assert_eq!(t, s.trim());
    }
}
