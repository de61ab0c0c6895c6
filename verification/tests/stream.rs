use sexp_reader::{FileLocation, SExpParser};

fn reader(text: &str) -> SExpParser {
    SExpParser::new("input.lisp".to_string(), text.chars().collect())
}

fn at(line: usize, col: usize) -> FileLocation {
    FileLocation { file: "input.lisp".to_string(), line, col }
}

#[test]
fn a_new_reader_stands_at_line_zero_column_zero() {
    let p = reader("abc");
    assert_eq!(*p.loc(), at(0, 0));
    assert_eq!(p.peek(), Some('a'));
}

#[test]
fn a_new_reader_keeps_the_file_name() {
    let p = SExpParser::new("dir/other.scm".to_string(), vec!['x']);
    assert_eq!(p.loc().file, "dir/other.scm");
}

#[test]
fn peek_does_not_consume() {
    let p = reader("xy");
    assert_eq!(p.peek(), Some('x'));
    assert_eq!(p.peek(), Some('x'));
    assert_eq!(*p.loc(), at(0, 0));
}

#[test]
fn peek_on_an_empty_text_is_none() {
    let p = reader("");
    assert_eq!(p.peek(), None);
    assert_eq!(*p.loc(), at(0, 0));
}

#[test]
fn next_returns_the_characters_in_order() {
    let mut p = reader("ab");
    assert_eq!(p.next(), Some('a'));
    assert_eq!(p.peek(), Some('b'));
    assert_eq!(p.next(), Some('b'));
    assert_eq!(p.peek(), None);
    assert_eq!(p.next(), None);
    assert_eq!(p.next(), None);
}

#[test]
fn next_adds_one_to_the_column() {
    let mut p = reader("abc");
    p.next();
    assert_eq!(*p.loc(), at(0, 1));
    p.next();
    assert_eq!(*p.loc(), at(0, 2));
    p.next();
    assert_eq!(*p.loc(), at(0, 3));
}

#[test]
fn a_newline_begins_a_line_at_column_zero() {
    let mut p = reader("ab\ncd\n\ne");
    p.next();
    p.next();
    assert_eq!(*p.loc(), at(0, 2));
    assert_eq!(p.next(), Some('\n'));
    assert_eq!(*p.loc(), at(1, 0));
    p.next();
    p.next();
    assert_eq!(*p.loc(), at(1, 2));
    p.next();
    assert_eq!(*p.loc(), at(2, 0));
    p.next();
    assert_eq!(*p.loc(), at(3, 0));
    p.next();
    assert_eq!(*p.loc(), at(3, 1));
}

#[test]
fn a_carriage_return_is_an_ordinary_character() {
    let mut p = reader("a\r\nb");
    p.next();
    p.next();
    assert_eq!(*p.loc(), at(0, 2));
    p.next();
    assert_eq!(*p.loc(), at(1, 0));
}

#[test]
fn the_position_stays_at_the_end_of_the_text() {
    let mut p = reader("a\nb");
    p.next();
    p.next();
    p.next();
    assert_eq!(*p.loc(), at(1, 1));
    assert_eq!(p.next(), None);
    assert_eq!(*p.loc(), at(1, 1));
    p.advance();
    assert_eq!(*p.loc(), at(1, 1));
}

#[test]
fn advance_consumes_one_character() {
    let mut p = reader("xyz");
    p.advance();
    assert_eq!(p.peek(), Some('y'));
    assert_eq!(*p.loc(), at(0, 1));
    p.advance();
    p.advance();
    assert_eq!(p.peek(), None);
    p.advance();
    assert_eq!(p.peek(), None);
    assert_eq!(*p.loc(), at(0, 3));
}

#[test]
fn eat_white_space_stops_at_the_first_other_character() {
    let mut p = reader("  \t\n  x y");
    p.eat_white_space();
    assert_eq!(p.peek(), Some('x'));
    assert_eq!(*p.loc(), at(1, 2));
    p.eat_white_space();
    assert_eq!(p.peek(), Some('x'));
    assert_eq!(*p.loc(), at(1, 2));
}

#[test]
fn eat_white_space_runs_to_the_end_of_the_text() {
    let mut p = reader(" \n ");
    p.eat_white_space();
    assert_eq!(p.peek(), None);
    assert_eq!(*p.loc(), at(1, 1));
}

#[test]
fn eat_white_space_on_an_empty_text() {
    let mut p = reader("");
    p.eat_white_space();
    assert_eq!(p.peek(), None);
    assert_eq!(*p.loc(), at(0, 0));
}

#[test]
fn eat_white_space_takes_unicode_spaces() {
    let mut p = reader("\u{A0}\u{2003}\u{3000}\u{85}\u{200B}");
    p.eat_white_space();
    assert_eq!(p.peek(), Some('\u{200B}'));
    assert_eq!(*p.loc(), at(0, 4));
}

#[test]
fn a_cloned_location_is_equal() {
    let mut p = reader("a\nbc");
    p.next();
    p.next();
    p.next();
    let copy = p.loc().clone();
    assert_eq!(copy, at(1, 1));
    p.next();
    assert_eq!(copy, at(1, 1));
    assert_eq!(*p.loc(), at(1, 2));
}
