use vnscript::engine::Engine;
use vnscript::engine::Step;
use vnscript::error::EngineError;
use vnscript::parse::Context;
use vnscript::parse::Directive;

fn engine(src: &str) -> Engine {
    Engine::new(src.to_string())
}

#[test]
fn end_to_end_dialogue_loadbg_dialogue() {
    let mut e = engine("[Alice] Hello\n@loadbg(bg1.png)\n[Bob] Hi");
    match e.next() {
        Step::Ctx(Context::Dialogue(d)) => {
            assert_eq!(d.name, "Alice");
            assert_eq!(d.dialogue, "Hello");
        }
        other => panic!("expected dialogue, got {:?}", other),
    }
    assert_eq!(e.bg_path, None);
    match e.next() {
        Step::Ctx(Context::Directive(Directive::LoadBG(b))) => assert_eq!(b.bg, "bg1.png"),
        other => panic!("expected loadbg, got {:?}", other),
    }
    // the background path changed immediately after this step
    assert_eq!(e.bg_path, Some("bg1.png".to_string()));
    match e.next() {
        Step::Ctx(Context::Dialogue(d)) => {
            assert_eq!(d.name, "Bob");
            assert_eq!(d.dialogue, "Hi");
        }
        other => panic!("expected dialogue, got {:?}", other),
    }
    assert!(matches!(e.next(), Step::End));
}

#[test]
fn peek_is_effect_free_and_repeatable() {
    let e = engine("@loadbg(x)\n[A] hi");
    let p1 = e.peek().unwrap().unwrap();
    let p2 = e.peek().unwrap().unwrap();
    let p3 = e.peek().unwrap().unwrap();
    assert_eq!(p1, p2);
    assert_eq!(p2, p3);
    match &p1 {
        Context::Directive(Directive::LoadBG(b)) => assert_eq!(b.bg, "x"),
        other => panic!("expected loadbg, got {:?}", other),
    }
    // peeking ran no effect
    assert_eq!(e.bg_path, None);
    assert!(e.pending_jump.is_none());
}

#[test]
fn background_changes_only_on_next_never_on_peek() {
    let mut e = engine("@loadbg(x)");
    e.peek().unwrap().unwrap();
    assert_eq!(e.bg_path, None);
    match e.next() {
        Step::Ctx(Context::Directive(Directive::LoadBG(b))) => assert_eq!(b.bg, "x"),
        other => panic!("expected loadbg, got {:?}", other),
    }
    assert_eq!(e.bg_path, Some("x".to_string()));
}

#[test]
fn peek_agrees_with_next() {
    let mut e = engine("[A] one\n# two");
    let peeked = e.peek().unwrap().unwrap();
    match e.next() {
        Step::Ctx(c) => assert_eq!(c, peeked),
        other => panic!("expected element, got {:?}", other),
    }
}

#[test]
fn jump_replaces_script_and_reads_from_its_start() {
    let mut e = engine("@jump(next.vn)\n[X] rest");
    let path = match e.next() {
        Step::Jumping(p) => p,
        other => panic!("expected a pending jump, got {:?}", other),
    };
    assert_eq!(path, "next.vn");
    // the caller read the target file; hand its text to the engine
    let ctx = e.provide_script("[B] hi".to_string());
    match ctx {
        Context::Directive(Directive::Jump(j)) => {
            assert_eq!(j.choices, None);
            assert_eq!(j.path, "next.vn");
        }
        other => panic!("expected the jump element, got {:?}", other),
    }
    // the next element comes from the start of the new script, not from
    // the abandoned remainder of the old one
    match e.next() {
        Step::Ctx(Context::Dialogue(d)) => {
            assert_eq!(d.name, "B");
            assert_eq!(d.dialogue, "hi");
        }
        other => panic!("expected dialogue, got {:?}", other),
    }
    assert!(matches!(e.next(), Step::End));
}

#[test]
fn jump_with_choices_keeps_them() {
    let mut e = engine("@jump( yes , no , next.vn )");
    match e.next() {
        Step::Jumping(p) => assert_eq!(p, "next.vn"),
        other => panic!("expected a pending jump, got {:?}", other),
    }
    let j = e.pending_jump.clone().unwrap();
    assert_eq!(j.choices, Some(("yes".to_string(), "no".to_string())));
    assert_eq!(j.path, "next.vn");
}

#[test]
fn failed_jump_surfaces_error_and_leaves_script_untouched() {
    let mut e = engine("@jump(a,b,next.vn)");
    match e.next() {
        Step::Jumping(p) => assert_eq!(p, "next.vn"),
        other => panic!("expected a pending jump, got {:?}", other),
    }
    // the caller could not read next.vn
    let err = e.jump_failed();
    assert_eq!(err, EngineError::SourceUnreadable);
    // the old script was not partially swapped away
    assert_eq!(e.script.ctx(), "@jump(a,b,next.vn)");
    assert!(e.pending_jump.is_none());
    assert_eq!(e.bg_path, None);
}

#[test]
fn parse_error_stops_the_engine_with_fail() {
    let mut e = engine("[Alice] hi\n@nope(1)");
    assert!(matches!(e.next(), Step::Ctx(Context::Dialogue(_))));
    match e.next() {
        Step::Fail(err) => match err {
            EngineError::Directive(d) => {
                assert_eq!(format!("{:?}", d), "UnknownDirective(\"nope\")");
            }
            other => panic!("expected a directive error, got {:?}", other),
        },
        other => panic!("expected a failure, got {:?}", other),
    }
}

#[test]
fn fresh_engine_state_is_empty() {
    let e = engine("[A] x");
    assert_eq!(e.bg_path, None);
    assert!(e.pending_jump.is_none());
    assert!(e.sprites.is_empty());
    assert!(e.bgs_cache.is_empty());
    assert!(e.sprites_cache.is_empty());
}

#[test]
fn comments_are_yielded_but_carry_no_effect() {
    let mut e = engine("# note\n@loadbg(y)");
    assert!(matches!(e.next(), Step::Ctx(Context::Comment)));
    assert_eq!(e.bg_path, None);
    assert!(matches!(e.next(), Step::Ctx(Context::Directive(_))));
    assert_eq!(e.bg_path, Some("y".to_string()));
    assert!(matches!(e.next(), Step::End));
}
