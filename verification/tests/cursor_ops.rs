use conventional_commits::Alphabetic;
use conventional_commits::CharPred;
use conventional_commits::Cursor;
use conventional_commits::InsideScope;

#[test]
fn peek_is_idempotent_and_advance_consumes() {
    let mut c = Cursor::new("ab");
    assert_eq!(c.peek(), Some('a'));
    assert_eq!(c.peek(), Some('a'));
    c.advance();
    assert_eq!(c.peek(), Some('b'));
    c.advance();
    assert_eq!(c.peek(), None);
}

#[test]
fn take_while_stops_at_first_rejected_character() {
    let mut c = Cursor::new("feat(design)");
    let run = c.take_while(&Alphabetic);
    assert_eq!(run, "feat");
    assert_eq!(c.peek(), Some('('));
}

#[test]
fn take_while_may_return_an_empty_run() {
    let mut c = Cursor::new("(x)");
    let run = c.take_while(&Alphabetic);
    assert_eq!(run, "");
    assert_eq!(c.peek(), Some('('));
}

#[test]
fn take_while_inside_scope_stops_at_close() {
    let mut c = Cursor::new("design)rest");
    let run = c.take_while(&InsideScope);
    assert_eq!(run, "design");
    assert_eq!(c.peek(), Some(')'));
}

#[test]
fn drain_rest_returns_everything_left() {
    let mut c = Cursor::new("abc def");
    let run = c.take_while(&Alphabetic);
    let rest = c.drain_rest();
    assert_eq!(format!("{}{}", run, rest), "abc def");
    assert_eq!(c.peek(), None);
}

#[test]
fn rewind_restores_the_checkpoint() {
    let mut c = Cursor::new("feat!: x");
    let tag = c.take_while(&Alphabetic);
    assert_eq!(tag, "feat");
    c.checkpoint();
    c.advance();
    c.advance();
    c.rewind();
    assert_eq!(c.peek(), Some('!'));
    assert_eq!(c.drain_rest(), "!: x");
}

#[test]
fn no_characters_are_lost_or_duplicated() {
    let input = "feat(design)!: lorem ipsum";
    let mut c = Cursor::new(input);
    let mut consumed = String::new();
    consumed.push_str(&c.take_while(&Alphabetic));
    if let Some(ch) = c.peek() {
        c.advance();
        consumed.push(ch);
    }
    consumed.push_str(&c.take_while(&InsideScope));
    let rest = c.drain_rest();
    assert_eq!(format!("{}{}", consumed, rest), input);
}

#[test]
fn char_predicates_match_std() {
    assert!(Alphabetic.test('f'));
    assert!(Alphabetic.test('Z'));
    assert!(Alphabetic.test('\u{e9}'));
    assert!(!Alphabetic.test('1'));
    assert!(!Alphabetic.test('('));
    assert!(InsideScope.test('x'));
    assert!(InsideScope.test('('));
    assert!(!InsideScope.test(')'));
}
