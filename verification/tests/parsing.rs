use vnscript::error::DirectiveError;
use vnscript::error::EngineError;
use vnscript::parse::Context;
use vnscript::parse::Dialogue;
use vnscript::parse::Directive;
use vnscript::parse::Script;
use vnscript::parse::ScriptIter;
use vnscript::util::line_chars;

fn script(src: &str) -> Script {
    Script::new(src.to_string())
}

#[test]
fn dialogue_basic() {
    let mut s = script("[Alice] Hello");
    let ctx = s.next().unwrap().unwrap();
    assert_eq!(
        ctx,
        Context::Dialogue(Dialogue { name: "Alice".to_string(), dialogue: "Hello".to_string() })
    );
    assert!(s.next().is_none());
}

#[test]
fn dialogue_name_trimmed_body_normalized() {
    let mut s = script("[ Alice ] He llo\nmore\n# c");
    let ctx = s.next().unwrap().unwrap();
    match ctx {
        Context::Dialogue(d) => {
            assert_eq!(d.name, "Alice");
            // whitespace runs, line breaks included, collapse to single spaces
            assert_eq!(d.dialogue, "He llo more");
        }
        other => panic!("expected dialogue, got {:?}", other),
    }
    // the cursor rests exactly at the line that begins the comment marker
    assert_eq!(s.cur(), "\n# c");
}

#[test]
fn dialogue_body_runs_to_end_of_input() {
    let mut s = script("[A] x\ny");
    let ctx = s.next().unwrap().unwrap();
    assert_eq!(
        ctx,
        Context::Dialogue(Dialogue { name: "A".to_string(), dialogue: "x y".to_string() })
    );
    assert!(s.next().is_none());
}

#[test]
fn dialogue_stops_before_directive_line() {
    let mut s = script("[A] x\n@loadbg(b)");
    let ctx = s.next().unwrap().unwrap();
    assert_eq!(
        ctx,
        Context::Dialogue(Dialogue { name: "A".to_string(), dialogue: "x".to_string() })
    );
    assert_eq!(s.chars(), 5);
    assert_eq!(s.cur(), "\n@loadbg(b)");
}

#[test]
fn dialogue_unterminated_name_is_malformed() {
    let mut s = script("[Alice no close");
    let err = s.next().unwrap().unwrap_err();
    assert_eq!(err, EngineError::Malformed(15, ']'));
}

#[test]
fn dialogue_name_stops_at_line_break() {
    let mut s = script("[Ali\nce] x");
    let err = s.next().unwrap().unwrap_err();
    assert_eq!(err, EngineError::Malformed(4, ']'));
}

#[test]
fn directive_jump_one_arg() {
    let mut s = script("@jump(next.vn)");
    let ctx = s.next().unwrap().unwrap();
    match ctx {
        Context::Directive(Directive::Jump(j)) => {
            assert_eq!(j.choices, None);
            assert_eq!(j.path, "next.vn");
        }
        other => panic!("expected jump, got {:?}", other),
    }
}

#[test]
fn directive_jump_three_args_trimmed() {
    let mut s = script("@jump( a , b , p.vn )");
    let ctx = s.next().unwrap().unwrap();
    match ctx {
        Context::Directive(Directive::Jump(j)) => {
            assert_eq!(j.choices, Some(("a".to_string(), "b".to_string())));
            assert_eq!(j.path, "p.vn");
        }
        other => panic!("expected jump, got {:?}", other),
    }
}

#[test]
fn directive_jump_bad_arity() {
    let mut s = script("@jump(a,b)");
    let err = s.next().unwrap().unwrap_err();
    assert_eq!(
        err,
        EngineError::Directive(DirectiveError::Custom(
            "jump directive take either 1 or 3 arguments"
        ))
    );
}

#[test]
fn directive_jump_trailing_comma_counts_as_argument() {
    let mut s = script("@jump(a,)");
    let err = s.next().unwrap().unwrap_err();
    assert_eq!(
        err,
        EngineError::Directive(DirectiveError::Custom(
            "jump directive take either 1 or 3 arguments"
        ))
    );
}

#[test]
fn directive_unknown_name_carries_it() {
    let mut s = script("@foo(x)");
    let err = s.next().unwrap().unwrap_err();
    assert_eq!(
        err,
        EngineError::Directive(DirectiveError::UnknownDirective("foo".to_string()))
    );
}

#[test]
fn loadbg_zero_args_is_missing_argument() {
    let mut s = script("@loadbg()");
    let err = s.next().unwrap().unwrap_err();
    assert_eq!(
        err,
        EngineError::Directive(DirectiveError::MissingArgument(0, "bg path"))
    );
}

#[test]
fn loadbg_extra_args_are_ignored() {
    let mut s = script("@loadbg(a.png, extra)");
    let ctx = s.next().unwrap().unwrap();
    match ctx {
        Context::Directive(Directive::LoadBG(b)) => assert_eq!(b.bg, "a.png"),
        other => panic!("expected loadbg, got {:?}", other),
    }
}

#[test]
fn directive_missing_open_paren() {
    let mut s = script("@jump");
    let err = s.next().unwrap().unwrap_err();
    assert_eq!(err, EngineError::Malformed(5, '('));
}

#[test]
fn directive_empty_name() {
    let mut s = script("@(x)");
    let err = s.next().unwrap().unwrap_err();
    assert_eq!(err, EngineError::Malformed(1, '('));
}

#[test]
fn directive_missing_close_paren() {
    let mut s = script("@jump(a");
    let err = s.next().unwrap().unwrap_err();
    assert_eq!(err, EngineError::Malformed(7, ')'));
}

#[test]
fn directive_close_paren_must_be_on_same_line() {
    let mut s = script("@jump(a\n)");
    let err = s.next().unwrap().unwrap_err();
    assert_eq!(err, EngineError::Malformed(7, ')'));
}

#[test]
fn comment_consumes_line() {
    let mut s = script("# hello\n[A] hi");
    assert_eq!(s.next().unwrap().unwrap(), Context::Comment);
    let ctx = s.next().unwrap().unwrap();
    assert_eq!(
        ctx,
        Context::Dialogue(Dialogue { name: "A".to_string(), dialogue: "hi".to_string() })
    );
}

#[test]
fn comment_at_end_of_input_without_line_break() {
    let mut s = script("# tail");
    assert_eq!(s.next().unwrap().unwrap(), Context::Comment);
    assert!(s.next().is_none());
}

#[test]
fn empty_and_blank_sources_are_exhausted() {
    let mut s = script("");
    assert!(s.next().is_none());
    let mut s2 = script("  \t \n ");
    assert!(s2.next().is_none());
}

#[test]
fn error_leaves_position_where_parsing_failed() {
    let mut s = script("@foo(x)");
    assert_eq!(s.chars(), 0);
    assert!(s.next().unwrap().is_err());
    assert_eq!(s.chars(), 0);
    assert_eq!(s.ctx(), "@foo(x)");
}

#[test]
fn hints() {
    assert!(Dialogue::hint("[x"));
    assert!(!Dialogue::hint(""));
    assert!(!Dialogue::hint("x["));
    assert!(Directive::hint("@j"));
    assert!(!Directive::hint("j@"));
}

#[test]
fn script_iter_starts_at_beginning() {
    let s = script("[A] x");
    let mut it = s.iter();
    let peeked = it.peek().unwrap().unwrap();
    let stepped = it.next().unwrap().unwrap();
    assert_eq!(peeked, stepped);
    assert!(it.next().is_none());
}

#[test]
fn script_iter_new_over_borrowed_text() {
    let text = "# c\n[B] y".to_string();
    let mut it = ScriptIter::new(&text);
    assert_eq!(it.next().unwrap().unwrap(), Context::Comment);
    match it.next().unwrap().unwrap() {
        Context::Dialogue(d) => {
            assert_eq!(d.name, "B");
            assert_eq!(d.dialogue, "y");
        }
        other => panic!("expected dialogue, got {:?}", other),
    }
}

#[test]
fn line_chars_formula() {
    // position 3 of "ab\ncd" is the first column of line 2
    assert_eq!(line_chars("ab\ncd", 3), (2, 1));
    // the very start is line 1, column 1
    assert_eq!(line_chars("ab\ncd", 0), (1, 1));
    // one character in: still line 1, column 2
    assert_eq!(line_chars("ab", 1), (1, 2));
    // past the last character of line 2
    assert_eq!(line_chars("ab\ncd", 5), (2, 3));
    // an empty text reports the first line, first column
    assert_eq!(line_chars("", 0), (1, 1));
}

#[test]
fn script_line_chars_tracks_position() {
    let mut s = script("[A] x\n@foo(y)");
    assert_eq!(s.line_chars(), (1, 1));
    s.next().unwrap().unwrap();
    // the cursor now rests on the line break before the directive line,
    // the sixth column of the first line
    assert_eq!(s.line_chars(), (1, 6));
}

#[test]
fn unicode_whitespace_collapses_to_single_spaces() {
    let mut s = script("[A] \u{00A0}a\u{2003}b");
    match s.next().unwrap().unwrap() {
        Context::Dialogue(d) => assert_eq!(d.dialogue, "a b"),
        other => panic!("expected dialogue, got {:?}", other),
    }
}
