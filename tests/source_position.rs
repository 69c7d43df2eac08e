use std::sync::Arc;

use fortytwo_lang::source::{Position, PositionRange, Source, SourcePositionRange};

fn range(source: &str, start: (usize, usize, usize), end: (usize, usize, usize)) -> SourcePositionRange {
    SourcePositionRange {
        source: Arc::new(Source::new("test".to_owned(), source.to_owned())),
        position: PositionRange {
            start: Position { line: start.0, column: start.1, offset: start.2 },
            end: Position { line: end.0, column: end.1, offset: end.2 },
        },
    }
}

#[test]
fn test_display() {
    let position = SourcePositionRange {
        source: Arc::new(Source::new("file.name".to_owned(), "text...".to_owned())),
        position: PositionRange {
            start: Position { line: 42, column: 5, offset: 1337 },
            end: Position { line: 43, column: 1, offset: 1340 },
        },
    };
    assert_eq!(position.to_string(), "file.name:42:5")
}

#[test]
fn position_prints_line_and_column() {
    let p = Position { line: 7, column: 120, offset: 3 };
    assert_eq!(p.to_string(), "7:120");
    let zero = Position { line: 0, column: 0, offset: 0 };
    assert_eq!(zero.to_string(), "0:0");
}

#[test]
fn source_keeps_every_character() {
    let source = Source::new("n".to_owned(), "héllo\n".to_owned());
    assert_eq!(source.name, "n");
    assert_eq!(source.text, vec!['h', 'é', 'l', 'l', 'o', '\n']);
}

#[test]
fn affected_code_is_inclusive() {
    let r = range("let answer = 42", (1, 5, 4), (1, 10, 9));
    assert_eq!(r.get_affected_code(), "answer");
    let one = range("abc", (1, 2, 1), (1, 2, 1));
    assert_eq!(one.get_affected_code(), "b");
    let empty = range("abc", (1, 2, 1), (1, 1, 0));
    assert_eq!(empty.get_affected_code(), "");
}

#[test]
fn affected_lines_span_the_range() {
    let text = "first\nsecond\r\nthird\nfourth\n";
    assert_eq!(range(text, (2, 1, 6), (3, 2, 15)).get_affected_lines(), "second\nthird");
    assert_eq!(range(text, (1, 1, 0), (1, 3, 2)).get_affected_lines(), "first");
    assert_eq!(range(text, (4, 1, 20), (4, 1, 20)).get_affected_lines(), "fourth");
    assert_eq!(range(text, (1, 1, 0), (4, 1, 20)).get_affected_lines(), "first\nsecond\nthird\nfourth");
}

#[test]
fn affected_lines_keep_empty_lines_and_a_lone_carriage_return() {
    let text = "a\n\nb\r";
    assert_eq!(range(text, (1, 1, 0), (3, 1, 3)).get_affected_lines(), "a\n\nb\r");
    assert_eq!(range(text, (2, 1, 2), (2, 1, 2)).get_affected_lines(), "");
}
