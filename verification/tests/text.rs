use poker_log_parser::parsers::parser::Parser;
use poker_log_parser::parsers::split::{split_lines, FastSplit};
use poker_log_parser::parsers::text::{
    ends_with, equal, find, find_at, find_byte, find_byte_at, rfind, rfind_byte, starts_with,
    StrOps,
};
use poker_log_parser::pklp::HandVec;

#[test]
fn searches_written_here() {
    let s = b"the quick brown fox";
    assert_eq!(Some(8), find_byte(s, b'k'));
    assert_eq!(Some(17), rfind_byte(s, b'o'));
    assert_eq!(Some(12), find_byte(s, b'o'));
    assert_eq!(None, find_byte(s, b'z'));
    assert_eq!(Some(17), find_byte_at(s, b'o', 13));
    assert_eq!(None, find_byte_at(s, b'o', 18));
    assert_eq!(Some(4), find(s, b"quick"));
    assert_eq!(None, find(s, b"quack"));
    assert_eq!(Some(0), find(s, b""));
    assert_eq!(Some(8), rfind(b"foo bar baz", b"ba"));
    assert_eq!(Some(4), find(b"foo bar baz", b"ba"));
    assert_eq!(Some(8), find_at(b"foo bar baz", b"ba", 5));
    assert_eq!(None, find_at(b"foo bar baz", b"ba", 9));
    assert_eq!(Some(11), rfind(b"foo bar baz", b""));
    assert!(starts_with(s, b"the "));
    assert!(!starts_with(s, b"he "));
    assert!(ends_with(s, b" fox"));
    assert!(!ends_with(s, b"fo"));
    assert!(equal(s, b"the quick brown fox"));
    assert!(!equal(s, b"the quick brown fix"));
}

#[test]
fn searches_of_the_fast_kind() {
    let s: &[u8] = b"the quick brown fox";
    assert_eq!(Some(8), s.find_fast_char('k'));
    assert_eq!(Some(12), s.find_fast_char('o'));
    assert_eq!(Some(17), s.rfind_fast_char('o'));
    assert_eq!(None, s.find_fast_char('z'));
    assert_eq!(None, s.rfind_fast_char('z'));
    assert_eq!(Some(2), s.find_fast_byte(b'e'));
    let s: &[u8] = b"foo bar baz";
    assert_eq!(Some(4), s.find_fast_str(b"ba"));
    assert_eq!(Some(8), s.rfind_fast_str(b"ba"));
    assert_eq!(None, s.find_fast_str(b"quux"));
    assert_eq!(None, s.rfind_fast_str(b"quux"));
}

#[test]
fn searches_that_tell_where_to_go_on() {
    let s: &[u8] = b"a: d: posts small blind $1";
    assert_eq!(Some(11), s.find_after(b": posts"));
    assert_eq!(Some(6), s.rfind_after(b": "));
    assert_eq!(Some(3), s.find_after(b": "));
    assert_eq!(Some(3), s.starts_with_after(b"a: "));
    assert_eq!(None, s.starts_with_after(b": "));
    assert_eq!(Some(24), s.ends_with_before(b"$1"));
    assert_eq!(None, s.ends_with_before(b"$"));
    let (head, rest) = s.split_after(b": ").unwrap();
    assert_eq!((&b"a"[..], 3), (head, rest));
    let (head, rest) = s.rsplit_after(b": ").unwrap();
    assert_eq!((&b"a: d"[..], 6), (head, rest));
    assert_eq!(None, s.split_after(b"folds"));
}

fn tx_lines(text: &[u8]) -> Vec<Vec<u8>> {
    let mut lines = Vec::new();
    let mut split = split_lines(text);
    while let Some(r) = split.next() {
        lines.push(text[r].to_vec());
    }
    lines
}

#[test]
fn lines_end_with_a_line_feed() {
    assert_eq!(vec![b"a".to_vec(), b"b".to_vec()], tx_lines(b"a\nb"));
    assert_eq!(vec![b"a".to_vec(), b"b".to_vec()], tx_lines(b"a\nb\n"));
    assert_eq!(vec![b"a".to_vec(), b"".to_vec(), b"b".to_vec()], tx_lines(b"a\n\nb\n"));
    assert_eq!(vec![b"a\r".to_vec()], tx_lines(b"a\r"));
    assert!(tx_lines(b"").is_empty());
}

#[test]
fn lines_end_as_the_first_line_ends() {
    assert_eq!(vec![b"a".to_vec(), b"b".to_vec()], tx_lines(b"a\r\nb\r\n"));
    // A line feed alone does not end a line once the first ended with both.
    assert_eq!(vec![b"a".to_vec(), b"b\nc".to_vec()], tx_lines(b"a\r\nb\nc"));
    // And a carriage return stays in the line where the first had none.
    assert_eq!(vec![b"a".to_vec(), b"b\r".to_vec(), b"c".to_vec()], tx_lines(b"a\nb\r\nc"));
}

#[test]
fn splitting_at_other_separators() {
    let text = b"a, b, c";
    let mut split = FastSplit::from_str(b", ", text);
    assert_eq!(Some(0..1), split.next());
    assert_eq!(Some(3..4), split.next());
    assert_eq!(Some(6..7), split.next());
    assert_eq!(None, split.next());
    assert_eq!(None, split.next());
    let mut split = FastSplit::from_char(' ', text);
    assert_eq!(Some(0..2), split.next());
    assert_eq!(Some(3..5), split.next());
    assert_eq!(Some(6..7), split.next());
    assert_eq!(None, split.next());
    let line: &[u8] = text;
    let mut split = line.fast_split_str(b", ");
    assert_eq!(Some(0..1), split.next());
    assert_eq!(Some(3..4), split.next());
    let mut split = line.fast_split_char(',');
    assert_eq!(Some(0..1), split.next());
    assert_eq!(Some(2..4), split.next());
    assert_eq!(Some(5..7), split.next());
    assert_eq!(None, split.next());
}

#[test]
fn cursor_walks_the_lines() {
    let mut p = Parser::new(b"one\ntwo\n\nfour", HandVec::default());
    assert!(!p.eof());
    assert_eq!(b"one", p.line);
    p.advance();
    assert_eq!(b"two", p.line);
    p.advance();
    assert_eq!(b"", p.line);
    assert!(!p.eof());
    p.advance();
    assert_eq!(b"four", p.line);
    p.advance();
    assert!(p.eof());
    assert_eq!(b"", p.line);
    p.advance();
    assert!(p.eof());
    let p = Parser::new(b"", HandVec::default());
    assert!(p.eof());
}
