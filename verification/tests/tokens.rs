use common_sense_coder::tokens::{BitIter, DecodeError, SemanticToken, TokenLegend};

#[test]
fn test_bit_iter() {
    let mut it = BitIter::new(0);
    assert_eq!(it.size_hint(), (0, Some(0)));
    assert_eq!(it.next(), None);

    let mut it = BitIter::new(1);
    assert_eq!(it.size_hint(), (1, Some(1)));
    assert_eq!(it.next(), Some(true));
    assert_eq!(it.size_hint(), (0, Some(0)));
    assert_eq!(it.next(), None);

    let mut it = BitIter::new(2);
    assert_eq!(it.size_hint(), (2, Some(2)));
    assert_eq!(it.next(), Some(false));
    assert_eq!(it.size_hint(), (1, Some(1)));
    assert_eq!(it.next(), Some(true));
    assert_eq!(it.size_hint(), (0, Some(0)));
    assert_eq!(it.next(), None);

    let mut it = BitIter::new(3);
    assert_eq!(it.size_hint(), (2, Some(2)));
    assert_eq!(it.next(), Some(true));
    assert_eq!(it.size_hint(), (1, Some(1)));
    assert_eq!(it.next(), Some(true));
    assert_eq!(it.size_hint(), (0, Some(0)));
    assert_eq!(it.next(), None);

    let mut it = BitIter::new(4);
    assert_eq!(it.size_hint(), (3, Some(3)));
    assert_eq!(it.next(), Some(false));
    assert_eq!(it.size_hint(), (2, Some(2)));
    assert_eq!(it.next(), Some(false));
    assert_eq!(it.size_hint(), (1, Some(1)));
    assert_eq!(it.next(), Some(true));
    assert_eq!(it.size_hint(), (0, Some(0)));
    assert_eq!(it.next(), None);

    let mut it = BitIter::new(5);
    assert_eq!(it.size_hint(), (3, Some(3)));
    assert_eq!(it.next(), Some(true));
    assert_eq!(it.size_hint(), (2, Some(2)));
    assert_eq!(it.next(), Some(false));
    assert_eq!(it.size_hint(), (1, Some(1)));
    assert_eq!(it.next(), Some(true));
    assert_eq!(it.size_hint(), (0, Some(0)));
    assert_eq!(it.next(), None);
}

#[test]
fn bit_iter_walks_a_full_word() {
    let mut it = BitIter::new(u32::MAX);
    assert_eq!(it.size_hint(), (32, Some(32)));
    let mut seen = 0;
    while let Some(bit) = it.next() {
        assert!(bit);
        seen += 1;
    }
    assert_eq!(seen, 32);
    assert_eq!(it.size_hint(), (0, Some(0)));
}

fn legend() -> TokenLegend {
    TokenLegend::new(
        vec!["namespace".to_owned(), "function".to_owned(), "variable".to_owned()],
        vec!["declaration".to_owned(), "public".to_owned(), "library".to_owned()],
    )
}

fn token(delta_line: u32, delta_start: u32, length: u32, token_type: u32, bits: u32) -> SemanticToken {
    SemanticToken {
        delta_line,
        delta_start,
        length,
        token_type,
        token_modifiers_bitset: bits,
    }
}

const FILE: &str = "mod sub;\n\npub fn accu(accu: u64) -> u64 {\r\n    accu + 1\n}\n";

fn stream() -> Vec<SemanticToken> {
    vec![
        token(0, 4, 3, 0, 0b001),
        token(2, 7, 4, 1, 0b011),
        token(0, 5, 4, 2, 0b001),
        token(1, 4, 4, 2, 0b000),
    ]
}

#[test]
fn decode_follows_the_cursor() {
    let legend = legend();
    let doc = legend.decode(FILE, stream()).unwrap();
    assert_eq!(doc.len(), 4);
    let all = doc.query("accu", None, None);
    let places: Vec<(u32, u32)> = all.iter().map(|t| (t.line(), t.character())).collect();
    assert_eq!(places, vec![(3, 8), (3, 13), (4, 5)]);
    let sub = doc.query("sub", None, None);
    assert_eq!(sub.len(), 1);
    assert_eq!((sub[0].line(), sub[0].character()), (1, 5));
    assert_eq!(sub[0].text(), "sub");
    assert_eq!(sub[0].token_type().as_str(), "namespace");
    assert_eq!(sub[0].token_type().to_string(), "namespace");
}

#[test]
fn decode_reads_the_modifiers() {
    let legend = legend();
    let doc = legend.decode(FILE, stream()).unwrap();
    let all = doc.query("accu", None, None);
    let names: Vec<Vec<String>> = all
        .iter()
        .map(|t| t.token_modifers().iter().iter().map(|m| m.to_string()).collect())
        .collect();
    assert_eq!(
        names,
        vec![
            vec!["declaration".to_owned(), "public".to_owned()],
            vec!["declaration".to_owned()],
            vec![],
        ]
    );
}

#[test]
fn modifiers_beyond_the_legend_are_dropped() {
    let legend = legend();
    let doc = legend.decode("abc", vec![token(0, 0, 3, 0, 0b1110_0100)]).unwrap();
    let found = doc.query("abc", None, None);
    let names: Vec<&str> = found[0].token_modifers().iter().iter().map(|m| m.as_str()).collect();
    assert_eq!(names, vec!["library"]);
}

#[test]
fn decode_rejects_an_unknown_type() {
    let legend = legend();
    let err = legend.decode(FILE, vec![token(0, 4, 3, 3, 0)]).unwrap_err();
    assert_eq!(err, DecodeError::InvalidTokenType { token_type: 3 });
}

#[test]
fn decode_rejects_a_line_behind_the_file() {
    let legend = legend();
    let err = legend.decode(FILE, vec![token(0, 4, 3, 0, 0), token(5, 0, 1, 0, 0)]).unwrap_err();
    assert_eq!(err, DecodeError::LineOutOfBounds { line: 5 });
    let ok = legend.decode(FILE, vec![token(4, 0, 1, 0, 0)]);
    assert!(ok.is_ok());
    let err = legend.decode("", vec![token(0, 0, 0, 0, 0)]).unwrap_err();
    assert_eq!(err, DecodeError::LineOutOfBounds { line: 0 });
}

#[test]
fn decode_rejects_a_range_behind_the_line() {
    let legend = legend();
    let err = legend.decode(FILE, vec![token(0, 4, 5, 0, 0)]).unwrap_err();
    assert_eq!(err, DecodeError::RangeOutOfBounds { start: 4, end: 9 });
    // the carriage return before the line feed is no part of the line
    let err = legend.decode(FILE, vec![token(2, 30, 2, 0, 0)]).unwrap_err();
    assert_eq!(err, DecodeError::RangeOutOfBounds { start: 30, end: 32 });
    assert!(legend.decode(FILE, vec![token(2, 30, 1, 0, 0)]).is_ok());
}

#[test]
fn decode_rejects_a_range_that_cuts_a_character() {
    let legend = legend();
    let text = "let ä = 1;";
    assert!(legend.decode(text, vec![token(0, 4, 2, 2, 0)]).is_ok());
    let err = legend.decode(text, vec![token(0, 4, 1, 2, 0)]).unwrap_err();
    assert_eq!(err, DecodeError::RangeOutOfBounds { start: 4, end: 5 });
    let err = legend.decode(text, vec![token(0, 5, 1, 2, 0)]).unwrap_err();
    assert_eq!(err, DecodeError::RangeOutOfBounds { start: 5, end: 6 });
}

#[test]
fn decode_reports_the_first_fault() {
    let legend = legend();
    let err = legend
        .decode(FILE, vec![token(0, 4, 3, 0, 0), token(0, 0, 50, 0, 0), token(0, 0, 1, 9, 0)])
        .unwrap_err();
    assert_eq!(err, DecodeError::RangeOutOfBounds { start: 4, end: 54 });
}

#[test]
fn lines_are_split_as_the_standard_library_splits_them() {
    let legend = legend();
    for text in ["", "a", "a\n", "a\nb", "a\r\nb\r\n", "a\r", "\n", "\r\n", "a\n\nb", "a\rb\n", "\n\n"] {
        let lines: Vec<&str> = text.lines().collect();
        for (number, line) in lines.iter().enumerate() {
            let stream = vec![token(number as u32, 0, line.len() as u32, 0, 0)];
            let doc = legend.decode(text, stream).unwrap();
            let found = doc.query(line, None, None);
            assert_eq!(found.len(), 1);
            assert_eq!(found[0].text(), *line);
            let beyond = vec![token(number as u32, 0, line.len() as u32 + 1, 0, 0)];
            assert!(matches!(
                legend.decode(text, beyond),
                Err(DecodeError::RangeOutOfBounds { .. })
            ));
        }
        let behind = vec![token(lines.len() as u32, 0, 0, 0, 0)];
        assert_eq!(
            legend.decode(text, behind).unwrap_err(),
            DecodeError::LineOutOfBounds { line: lines.len() as u64 }
        );
    }
}

#[test]
fn decoded_tokens_ascend_and_pack_back() {
    let legend = legend();
    let doc = legend.decode(FILE, stream()).unwrap();
    assert_eq!(doc.delta_stream(), stream());
    let all = doc.query("accu", None, None);
    for pair in all.windows(2) {
        assert!((pair[0].line(), pair[0].character()) <= (pair[1].line(), pair[1].character()));
    }
    let empty = legend.decode(FILE, vec![]).unwrap();
    assert_eq!(empty.delta_stream(), vec![]);
}

#[test]
fn query_takes_the_nearest_tokens() {
    let legend = legend();
    let doc = legend.decode(FILE, stream()).unwrap();
    let places = |line: Option<u32>, character: Option<u32>| -> Vec<(u32, u32)> {
        doc.query("accu", line, character).iter().map(|t| (t.line(), t.character())).collect()
    };
    assert_eq!(places(None, None), vec![(3, 8), (3, 13), (4, 5)]);
    assert_eq!(places(Some(3), None), vec![(3, 8), (3, 13)]);
    assert_eq!(places(Some(4), None), vec![(4, 5)]);
    assert_eq!(places(Some(100), None), vec![(4, 5)]);
    assert_eq!(places(Some(3), Some(12)), vec![(3, 13)]);
    assert_eq!(places(Some(3), Some(1)), vec![(3, 8)]);
    assert_eq!(places(None, Some(6)), vec![(4, 5)]);
    assert_eq!(places(None, Some(9)), vec![(3, 8)]);
    // a tie returns both
    let tie: Vec<(u32, u32)> = doc
        .query("accu", None, Some(10))
        .iter()
        .map(|t| (t.line(), t.character()))
        .collect();
    assert_eq!(tie, vec![(3, 8)]);
    assert_eq!(doc.query("missing", None, None).len(), 0);
    assert_eq!(doc.query("missing", Some(1), Some(1)).len(), 0);
}

#[test]
fn query_returns_every_token_of_a_tie() {
    let legend = legend();
    let text = "ab ab\nab\n";
    let stream = vec![token(0, 0, 2, 2, 0), token(0, 3, 2, 2, 0), token(1, 0, 2, 2, 0)];
    let doc = legend.decode(text, stream).unwrap();
    let places = |line: Option<u32>, character: Option<u32>| -> Vec<(u32, u32)> {
        doc.query("ab", line, character).iter().map(|t| (t.line(), t.character())).collect()
    };
    // line 1: characters 1 and 4; the hint 1:… lies as near to the one as to the other
    assert_eq!(places(Some(1), None), vec![(1, 1), (1, 4)]);
    assert_eq!(places(None, Some(1)), vec![(1, 1), (2, 1)]);
    assert_eq!(places(Some(2), Some(4)), vec![(2, 1)]);
}

#[test]
fn token_location_keeps_the_place() {
    let legend = legend();
    let doc = legend.decode(FILE, stream()).unwrap();
    let sub = doc.query("sub", Some(4), Some(1));
    let location = sub[0].location("src/lib.rs".to_owned(), "/workspace".to_owned());
    assert_eq!(location.to_string(), "src/lib.rs:1:5");
    assert_eq!(location.file(), "src/lib.rs");
    assert_eq!(location.workspace(), "/workspace");
    assert_eq!((location.line(), location.character()), (1, 5));
}
