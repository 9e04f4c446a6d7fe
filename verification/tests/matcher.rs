use parser_core::primitives::LiteralParser;
use parser_core::stream::Stream;

#[test]
fn literal_exact_match() {
    let parser = LiteralParser::new(String::from("ab"));
    let stream = Stream::new("ab");
    let call = parser.call(stream, 7u8);
    assert_eq!(call.function, 7u8);
    let (stream, outcome) = call.args;
    assert!(!outcome.is_failure());
    assert_eq!(*outcome.value(), Some(String::from("ab")));
    assert_eq!(stream.position(), 2);
}

#[test]
fn literal_mismatch() {
    let parser = LiteralParser::new(String::from("ab"));
    let stream = Stream::new("ac");
    let (stream, outcome) = parser.parse(stream);
    assert!(outcome.is_failure());
    assert_eq!(*outcome.value(), None);
    let failures = outcome.get_failures();
    assert_eq!(failures.len(), 1);
    assert_eq!(failures[0].message, "Expected `ab` but found `c`.");
    assert_eq!(failures[0].position, 1);
    assert_eq!(stream.position(), 1);
}

#[test]
fn literal_mismatch_at_first_grapheme() {
    let parser = LiteralParser::new(String::from("ab"));
    let stream = Stream::new("xb");
    let (stream, outcome) = parser.parse(stream);
    assert!(outcome.is_failure());
    assert_eq!(outcome.get_failures()[0].message, "Expected `ab` but found `x`.");
    assert_eq!(outcome.get_failures()[0].position, 0);
    assert_eq!(stream.position(), 0);
}

#[test]
fn literal_runs_out_of_input() {
    let parser = LiteralParser::new(String::from("ab"));
    let stream = Stream::new("a");
    let (stream, outcome) = parser.parse(stream);
    assert!(outcome.is_failure());
    assert_eq!(outcome.get_failures()[0].message, "Expected `ab` but found ``.");
    assert_eq!(outcome.get_failures()[0].position, 1);
    assert_eq!(stream.position(), 1);
}

#[test]
fn empty_literal_matches_anywhere() {
    let parser = LiteralParser::new(String::new());
    let stream = Stream::new("xyz");
    let (stream, outcome) = parser.parse(stream);
    assert!(!outcome.is_failure());
    assert_eq!(*outcome.value(), Some(String::new()));
    assert_eq!(stream.position(), 0);
}

#[test]
fn grapheme_cluster_matched_as_one_unit() {
    // A decomposed cluster (base letter plus combining acute accent) is one
    // grapheme: matching it advances the offset by one, not two.
    let literal = String::from("e\u{301}x");
    let parser = LiteralParser::new(literal.clone());
    let stream = Stream::new("e\u{301}xq");
    let (stream, outcome) = parser.parse(stream);
    assert!(!outcome.is_failure());
    assert_eq!(*outcome.value(), Some(literal));
    assert_eq!(stream.position(), 2);
}

#[test]
fn composed_cluster_matched_as_one_unit() {
    // The precomposed form of the accented letter is likewise one grapheme.
    let literal = String::from("\u{e9}x");
    let parser = LiteralParser::new(literal.clone());
    let stream = Stream::new("\u{e9}xz");
    let (stream, outcome) = parser.parse(stream);
    assert!(!outcome.is_failure());
    assert_eq!(*outcome.value(), Some(literal));
    assert_eq!(stream.position(), 2);
}

#[test]
fn grapheme_cluster_mismatch_reports_whole_cluster() {
    // The mismatching grapheme is reported as a whole cluster, not as its
    // first code point.
    let parser = LiteralParser::new(String::from("e\u{301}"));
    let stream = Stream::new("e\u{300}");
    let (stream, outcome) = parser.parse(stream);
    assert!(outcome.is_failure());
    assert_eq!(
        outcome.get_failures()[0].message,
        format!("Expected `e\u{301}` but found `e\u{300}`.")
    );
    assert_eq!(outcome.get_failures()[0].position, 0);
    assert_eq!(stream.position(), 0);
}

#[test]
fn stream_walks_graphemes() {
    let mut stream = Stream::new("a\u{310}b");
    assert_eq!(stream.position(), 0);
    assert_eq!(stream.next(), Some(&String::from("a\u{310}")));
    stream.read();
    assert_eq!(stream.position(), 1);
    assert_eq!(stream.next(), Some(&String::from("b")));
    stream.read();
    assert_eq!(stream.position(), 2);
    assert_eq!(stream.next(), None);
}
