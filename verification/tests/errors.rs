use sexp_reader::{FileLocation, ReadError, SExpParser};

fn reader(text: &str) -> SExpParser {
    SExpParser::new("input.lisp".to_string(), text.chars().collect())
}

fn at(line: usize, col: usize) -> FileLocation {
    FileLocation { file: "input.lisp".to_string(), line, col }
}

#[test]
fn error_eof_carries_the_current_position() {
    let mut p = reader("a\nbc");
    assert_eq!(
        p.error_eof(),
        ReadError::EarlyEOF { loc: at(0, 0), msg: "Unexpected End of File".to_string() }
    );
    p.advance();
    p.advance();
    p.advance();
    assert_eq!(
        p.error_eof(),
        ReadError::EarlyEOF { loc: at(1, 1), msg: "Unexpected End of File".to_string() }
    );
}

#[test]
fn error_wrong_char_names_the_character_and_what_was_expected() {
    let mut p = reader("xy");
    p.advance();
    assert_eq!(
        p.error_wrong_char('y', "abc"),
        ReadError::WrongChar {
            loc: at(0, 1),
            msg: "Unexpect character 'y' expected one of 'abc'".to_string(),
        }
    );
    assert_eq!(
        p.error_wrong_char('\'', ""),
        ReadError::WrongChar {
            loc: at(0, 1),
            msg: "Unexpect character ''' expected one of ''".to_string(),
        }
    );
}

#[test]
fn error_paren_mismatch_names_both_brackets() {
    let mut p = reader("\n\n{a)");
    p.eat_white_space();
    p.advance();
    p.advance();
    assert_eq!(
        p.error_paren_mismatch('{', ')'),
        ReadError::ParenMismatch {
            loc: at(2, 2),
            msg: "List delimiters don't match:  '{' and ')'".to_string(),
        }
    );
}

#[test]
fn error_not_implemented_carries_nothing() {
    let mut p = reader("12");
    assert_eq!(p.error_not_implemented(), ReadError::NotImplemented);
    p.advance();
    assert_eq!(p.error_not_implemented(), ReadError::NotImplemented);
}

#[test]
fn an_error_keeps_the_position_of_its_making() {
    let mut p = reader("ab");
    let e = p.error_eof();
    p.advance();
    p.advance();
    assert_eq!(e, ReadError::EarlyEOF { loc: at(0, 0), msg: "Unexpected End of File".to_string() });
    assert_ne!(e, p.error_eof());
}

#[test]
fn errors_carry_the_file_name_of_the_reader() {
    let mut p = SExpParser::new("lib/core.lisp".to_string(), "(a".chars().collect());
    match p.read_sexp() {
        Err(ReadError::EarlyEOF { loc, msg }) => {
            assert_eq!(loc.file, "lib/core.lisp");
            assert_eq!(loc.line, 0);
            assert_eq!(loc.col, 2);
            assert_eq!(msg, "Unexpected End of File");
        }
        other => panic!("{:?}", other),
    }
}

#[test]
fn errors_of_different_kinds_differ() {
    let p = reader("x");
    let a = p.error_eof();
    let b = p.error_wrong_char('x', "y");
    let c = p.error_paren_mismatch('(', ']');
    let d = p.error_not_implemented();
    assert_ne!(a, b);
    assert_ne!(b, c);
    assert_ne!(c, d);
    assert_ne!(a, d);
    assert!(matches!(a, ReadError::EarlyEOF { .. }));
    assert!(matches!(b, ReadError::WrongChar { .. }));
    assert!(matches!(c, ReadError::ParenMismatch { .. }));
    assert!(matches!(d, ReadError::NotImplemented));
}
