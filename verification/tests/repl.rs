use zscheme::repl::{LineAction, LineReader, PROMPT, PROMPT_CONT};

#[test]
fn single_line_expressions_are_submitted_trimmed() {
    let mut r = LineReader::new();
    let res = r.feed("  (+ 1 2)  ");
    assert!(res.remember);
    assert_eq!(res.action, LineAction::Submit("(+ 1 2)".into()));
    assert!(r.is_empty());
    assert_eq!(r.prompt(), PROMPT);
}

#[test]
fn open_parentheses_continue_the_expression() {
    let mut r = LineReader::new();
    let res = r.feed("(define (f x)");
    assert!(res.remember);
    assert_eq!(res.action, LineAction::Continue);
    assert_eq!(r.prompt(), PROMPT_CONT);
    let res = r.feed("  (* x x))");
    assert!(!res.remember);
    assert_eq!(res.action, LineAction::Submit("(define (f x)\n  (* x x))".into()));
    assert_eq!(r.prompt(), PROMPT);
}

#[test]
fn quit_commands_only_at_the_start() {
    for q in [":quit", ":q", " :exit ", "(exit)"] {
        let mut r = LineReader::new();
        assert_eq!(r.feed(q).action, LineAction::Quit);
    }
    let mut r = LineReader::new();
    let _ = r.feed("(begin");
    assert_eq!(r.feed(":q").action, LineAction::Continue);
    assert_eq!(r.feed(")").action, LineAction::Submit("(begin\n:q\n)".into()));
}

#[test]
fn blank_lines_and_extra_closers() {
    let mut r = LineReader::new();
    let res = r.feed("   ");
    assert!(!res.remember);
    assert_eq!(res.action, LineAction::Continue);
    assert!(r.is_empty());
    assert_eq!(r.feed("))").action, LineAction::Submit("))".into()));
    assert_eq!(r.feed("(a").action, LineAction::Continue);
    assert_eq!(r.feed("b)").action, LineAction::Submit("(a\nb)".into()));
}

#[test]
fn interrupt_clears_the_buffer() {
    let mut r = LineReader::new();
    assert!(!r.interrupt());
    let _ = r.feed("(((");
    assert!(r.interrupt());
    assert!(r.is_empty());
    assert_eq!(r.feed("x").action, LineAction::Submit("x".into()));
}
