use common_sense_coder::error::ErrorKind;
use common_sense_coder::info::{
    build_candidates, format_hover, format_marked_string, format_references, format_titled,
    format_token_section, FileContent, HoverContents, MarkedString, Reply, SymbolInfo,
    SymbolInfoAction, SymbolInfoEvent, SymbolInfoRequest, TokensResult,
};
use common_sense_coder::location::{Location, LocationLink, LocationVariants};
use common_sense_coder::tokens::{DecodeError, SemanticToken, TokenLegend};

const WORKSPACE: &str = "/fixtures/main_lib";
const LIB: &str = "use crate::sub::my_sub_lib_fn;\n\n\nmod sub;\n\nfn accu() {\n    let accu = 1;\n}\n";

fn legend() -> TokenLegend {
    TokenLegend::new(
        vec!["namespace".to_owned(), "function".to_owned(), "variable".to_owned()],
        vec!["declaration".to_owned(), "public".to_owned()],
    )
}

fn token(delta_line: u32, delta_start: u32, length: u32, token_type: u32, bits: u32) -> SemanticToken {
    SemanticToken {
        delta_line,
        delta_start,
        length,
        token_type,
        token_modifiers_bitset: bits,
    }
}

fn tokens() -> Vec<SemanticToken> {
    vec![
        token(0, 11, 3, 0, 0),
        token(3, 4, 3, 0, 1),
        token(2, 3, 4, 1, 3),
        token(1, 8, 4, 2, 1),
    ]
}

fn language(language: &str, value: &str) -> MarkedString {
    MarkedString::LanguageString {
        language: language.to_owned(),
        value: value.to_owned(),
    }
}

fn location(file: &str, line: u32, character: u32) -> Location {
    Location {
        uri: format!("file://{file}"),
        line,
        character,
    }
}

#[test]
fn marked_strings_are_trimmed_or_fenced() {
    assert_eq!(
        format_marked_string(MarkedString::String(" \n plain text\t\n".to_owned())),
        "plain text"
    );
    assert_eq!(format_marked_string(MarkedString::String("  ".to_owned())), "");
    assert_eq!(format_marked_string(MarkedString::String(String::new())), "");
    assert_eq!(
        format_marked_string(MarkedString::String("\u{a0}a b\u{2003}".to_owned())),
        "a b"
    );
    assert_eq!(
        format_marked_string(language("rust", "mod sub")),
        "```rust\nmod sub\n```"
    );
    assert_eq!(format_marked_string(language("", " x ")), "```\n x \n```");
}

#[test]
fn hover_contents_become_sections() {
    assert_eq!(
        format_hover(HoverContents::Scalar(MarkedString::String(" a ".to_owned()))),
        vec!["a"]
    );
    assert_eq!(
        format_hover(HoverContents::Array(vec![
            language("rust", "main_lib"),
            language("rust", "mod sub"),
        ])),
        vec!["```rust\nmain_lib\n```", "```rust\nmod sub\n```"]
    );
    assert_eq!(format_hover(HoverContents::Array(vec![])), Vec::<String>::new());
    assert_eq!(
        format_hover(HoverContents::Markup("\n# Title\n\ntext\n".to_owned())),
        vec!["# Title\n\ntext"]
    );
}

#[test]
fn the_token_section_lists_place_type_and_modifiers() {
    assert_eq!(
        format_token_section(
            r#"{"file":"src/lib.rs","line":4,"character":5}"#,
            "namespace",
            &vec!["declaration".to_owned()]
        ),
        "Token:\n\n- location: {\"file\":\"src/lib.rs\",\"line\":4,\"character\":5}\n- type: namespace\n- modifiers: declaration"
    );
    assert_eq!(
        format_token_section(
            "src/lib.rs:4:5",
            "function",
            &vec!["declaration".to_owned(), "public".to_owned()]
        ),
        "Token:\n\n- location: src/lib.rs:4:5\n- type: function\n- modifiers: declaration, public"
    );
    assert_eq!(
        format_token_section("a:1:1", "t", &vec![]),
        "Token:\n\n- location: a:1:1\n- type: t\n- modifiers: none"
    );
}

#[test]
fn titled_sections_and_references() {
    assert_eq!(format_titled("Declarations:", "None"), "Declarations:\nNone");
    let inside = location("/fixtures/main_lib/src/lib.rs", 0, 11);
    let outside = location("/elsewhere/dep.rs", 2, 2);
    let broken = Location {
        uri: "file:///a b".to_owned(),
        line: 0,
        character: 0,
    };
    let all = vec![inside.clone(), broken, outside.clone(), inside];
    assert_eq!(
        format_references(&all, WORKSPACE, false),
        [
            r#"- {"file":"src/lib.rs","line":1,"character":12}"#,
            r#"- {"file":"src/lib.rs","line":1,"character":12}"#,
        ]
        .join("\n")
    );
    assert_eq!(
        format_references(&all, WORKSPACE, true),
        [
            r#"- {"file":"src/lib.rs","line":1,"character":12}"#,
            r#"- {"file":"/elsewhere/dep.rs","line":3,"character":3}"#,
            r#"- {"file":"src/lib.rs","line":1,"character":12}"#,
        ]
        .join("\n")
    );
    assert_eq!(format_references(&vec![], WORKSPACE, true), "None");
    assert_eq!(format_references(&vec![outside], WORKSPACE, false), "None");
}

#[test]
fn candidates_are_the_nearest_tokens() {
    let legend = legend();
    let found = build_candidates(&legend, LIB, tokens(), "accu", None, None, "src/lib.rs", WORKSPACE);
    assert_eq!(found.unwrap().len(), 2);
    let found = build_candidates(&legend, LIB, tokens(), "accu", Some(7), None, "src/lib.rs", WORKSPACE);
    assert_eq!(found.unwrap().len(), 1);
    let found = build_candidates(&legend, LIB, tokens(), "nothing", None, None, "src/lib.rs", WORKSPACE);
    assert_eq!(found.unwrap().len(), 0);
    let err = build_candidates(&legend, LIB, vec![token(99, 0, 1, 0, 0)], "a", None, None, "f", WORKSPACE)
        .unwrap_err();
    assert_eq!(err, DecodeError::LineOutOfBounds { line: 99 });
    assert_eq!(err.message(), "token line out of bounds: 99");
    assert_eq!(
        DecodeError::InvalidTokenType { token_type: 7 }.message(),
        "invalid token type: 7"
    );
    assert_eq!(
        DecodeError::RangeOutOfBounds { start: 5, end: 90 }.message(),
        "range out of bounds: 5..90"
    );
}

fn request(name: &str, line: Option<u32>, character: Option<u32>) -> SymbolInfoRequest {
    SymbolInfoRequest {
        file: "src/lib.rs".to_owned(),
        name: name.to_owned(),
        line,
        character,
        workspace_and_dependencies: None,
    }
}

/// An inquiry that has read the file and got the tokens, with the action that came of it.
fn asked(name: &str, line: Option<u32>, character: Option<u32>) -> (SymbolInfo, SymbolInfoAction) {
    let legend = legend();
    let (mut session, action) = SymbolInfo::start(WORKSPACE.to_owned(), request(name, line, character));
    match action {
        SymbolInfoAction::ReadFile { file } => assert_eq!(file, "src/lib.rs"),
        other => panic!("{other:?}"),
    }
    let action = session.on_event(&legend, SymbolInfoEvent::File(FileContent::Found(LIB.to_owned())));
    match action {
        SymbolInfoAction::RequestSemanticTokens { uri } => {
            assert_eq!(uri, "file:///fixtures/main_lib/src/lib.rs");
        }
        other => panic!("{other:?}"),
    }
    let action = session.on_event(
        &legend,
        SymbolInfoEvent::SemanticTokens(Reply::Value(TokensResult::Tokens(tokens()))),
    );
    (session, action)
}

fn position_of(action: &SymbolInfoAction) -> (&str, u32, u32, &'static str) {
    let (position, what) = match action {
        SymbolInfoAction::RequestHover(p) => (p, "hover"),
        SymbolInfoAction::RequestDeclaration(p) => (p, "declaration"),
        SymbolInfoAction::RequestDefinition(p) => (p, "definition"),
        SymbolInfoAction::RequestImplementation(p) => (p, "implementation"),
        SymbolInfoAction::RequestTypeDefinition(p) => (p, "type definition"),
        SymbolInfoAction::RequestReferences {
            position,
            include_declaration,
        } => {
            assert!(!include_declaration);
            (position, "references")
        }
        other => panic!("{other:?}"),
    };
    (position.uri.as_str(), position.line, position.character, what)
}

const URI: &str = "file:///fixtures/main_lib/src/lib.rs";

#[test]
fn the_answers_for_a_token_are_written_into_one_text() {
    let legend = legend();
    let (mut session, action) = asked("sub", Some(4), Some(1));
    assert_eq!(position_of(&action), (URI, 3, 4, "hover"));

    let hover = HoverContents::Array(vec![language("rust", "main_lib"), language("rust", "mod sub")]);
    let action = session.on_event(&legend, SymbolInfoEvent::Hover(Reply::Value(hover)));
    assert_eq!(position_of(&action), (URI, 3, 4, "declaration"));

    let declaration = LocationVariants::Array(vec![location("/fixtures/main_lib/src/lib.rs", 3, 4)]);
    let action = session.on_event(&legend, SymbolInfoEvent::Locations(Reply::Value(declaration)));
    assert_eq!(position_of(&action), (URI, 3, 4, "definition"));

    let definition = LocationVariants::Link(vec![LocationLink {
        target_uri: "file:///fixtures/main_lib/src/sub.rs".to_owned(),
        target_line: 0,
        target_character: 0,
    }]);
    let action = session.on_event(&legend, SymbolInfoEvent::Locations(Reply::Value(definition)));
    assert_eq!(position_of(&action), (URI, 3, 4, "implementation"));

    let action = session.on_event(
        &legend,
        SymbolInfoEvent::Locations(Reply::Value(LocationVariants::Array(vec![]))),
    );
    assert_eq!(position_of(&action), (URI, 3, 4, "type definition"));

    let action = session.on_event(
        &legend,
        SymbolInfoEvent::Locations(Reply::Value(LocationVariants::Link(vec![]))),
    );
    assert_eq!(position_of(&action), (URI, 3, 4, "references"));
    assert!(!session.is_done());

    let references = vec![location("/fixtures/main_lib/src/lib.rs", 0, 11)];
    let action = session.on_event(&legend, SymbolInfoEvent::References(Reply::Value(references)));
    assert!(session.is_done());
    let texts = match action {
        SymbolInfoAction::Success(texts) => texts,
        other => panic!("{other:?}"),
    };
    let expected = [
        "Token:\n\n- location: {\"file\":\"src/lib.rs\",\"line\":4,\"character\":5}\n- type: namespace\n- modifiers: declaration",
        "```rust\nmain_lib\n```",
        "```rust\nmod sub\n```",
        "Declarations:\n- {\"file\":\"src/lib.rs\",\"line\":4,\"character\":5}",
        "Definitions:\n- {\"file\":\"src/sub.rs\",\"line\":1,\"character\":1}",
        "Implementations:\nNone",
        "Type Definitions:\nNone",
        "References:\n- {\"file\":\"src/lib.rs\",\"line\":1,\"character\":12}",
    ]
    .join("\n\n---\n\n");
    assert_eq!(texts, vec![expected]);
}

#[test]
fn what_the_server_does_not_know_is_left_out() {
    let legend = legend();
    let (mut session, _) = asked("sub", Some(1), None);
    let hover = HoverContents::Markup(" text ".to_owned());
    session.on_event(&legend, SymbolInfoEvent::Hover(Reply::Value(hover)));
    for _ in 0..4 {
        session.on_event(&legend, SymbolInfoEvent::Locations(Reply::Null));
    }
    match session.on_event(&legend, SymbolInfoEvent::References(Reply::Null)) {
        SymbolInfoAction::Success(texts) => assert_eq!(
            texts,
            vec!["Token:\n\n- location: {\"file\":\"src/lib.rs\",\"line\":1,\"character\":12}\n- type: namespace\n- modifiers: none\n\n---\n\ntext"]
        ),
        other => panic!("{other:?}"),
    }
}

#[test]
fn every_candidate_of_a_tie_is_asked_about() {
    let legend = legend();
    let (mut session, action) = asked("accu", None, None);
    assert_eq!(position_of(&action), (URI, 5, 3, "hover"));
    // the server shows nothing for the first: it is passed over
    let action = session.on_event(&legend, SymbolInfoEvent::Hover(Reply::Null));
    assert_eq!(position_of(&action), (URI, 6, 8, "hover"));
    let hover = HoverContents::Scalar(MarkedString::String("a number".to_owned()));
    session.on_event(&legend, SymbolInfoEvent::Hover(Reply::Value(hover)));
    let scalar = LocationVariants::Scalar(location("/fixtures/main_lib/src/lib.rs", 6, 8));
    session.on_event(&legend, SymbolInfoEvent::Locations(Reply::Value(scalar)));
    for _ in 0..3 {
        session.on_event(&legend, SymbolInfoEvent::Locations(Reply::Null));
    }
    match session.on_event(&legend, SymbolInfoEvent::References(Reply::Value(vec![]))) {
        SymbolInfoAction::Success(texts) => assert_eq!(
            texts,
            vec![[
                "Token:\n\n- location: {\"file\":\"src/lib.rs\",\"line\":7,\"character\":9}\n- type: variable\n- modifiers: declaration",
                "a number",
                "Declarations:\n- {\"file\":\"src/lib.rs\",\"line\":7,\"character\":9}",
                "References:\nNone",
            ]
            .join("\n\n---\n\n")]
        ),
        other => panic!("{other:?}"),
    }
}

#[test]
fn two_candidates_give_two_texts() {
    let legend = legend();
    let (mut session, _) = asked("accu", None, None);
    for name in ["first", "second"] {
        let hover = HoverContents::Scalar(MarkedString::String(name.to_owned()));
        session.on_event(&legend, SymbolInfoEvent::Hover(Reply::Value(hover)));
        for _ in 0..4 {
            session.on_event(&legend, SymbolInfoEvent::Locations(Reply::Null));
        }
        let action = session.on_event(&legend, SymbolInfoEvent::References(Reply::Null));
        if name == "first" {
            assert_eq!(position_of(&action), (URI, 6, 8, "hover"));
        } else {
            match action {
                SymbolInfoAction::Success(texts) => {
                    assert_eq!(texts.len(), 2);
                    assert!(texts[0].ends_with("\n\n---\n\nfirst"));
                    assert!(texts[0].starts_with(
                        "Token:\n\n- location: {\"file\":\"src/lib.rs\",\"line\":6,\"character\":4}\n- type: function"
                    ));
                    assert!(texts[1].ends_with("\n\n---\n\nsecond"));
                }
                other => panic!("{other:?}"),
            }
        }
    }
}

#[test]
fn no_candidate_gives_no_text() {
    let (session, action) = asked("does_not_exist", None, None);
    assert!(session.is_done());
    match action {
        SymbolInfoAction::Success(texts) => assert_eq!(texts, Vec::<String>::new()),
        other => panic!("{other:?}"),
    }
}

#[test]
fn a_missing_file_is_told_to_the_caller() {
    let legend = legend();
    let mut req = request("foo", None, None);
    req.file = "does_not_exist.rs".to_owned();
    let (mut session, _) = SymbolInfo::start(WORKSPACE.to_owned(), req);
    match session.on_event(&legend, SymbolInfoEvent::File(FileContent::Missing)) {
        SymbolInfoAction::ToolError(text) => assert_eq!(text, "file not found: does_not_exist.rs"),
        other => panic!("{other:?}"),
    }
    assert!(session.is_done());
}

fn failure(action: SymbolInfoAction) -> String {
    match action {
        SymbolInfoAction::Failure(e) => {
            assert_eq!(e.kind, ErrorKind::InternalError);
            e.message
        }
        other => panic!("{other:?}"),
    }
}

#[test]
fn failures_name_what_failed() {
    let legend = legend();
    let chain = || vec!["server gone".to_owned()];
    let start = || SymbolInfo::start(WORKSPACE.to_owned(), request("sub", None, None)).0;

    let mut session = start();
    let action = session.on_event(&legend, SymbolInfoEvent::File(FileContent::Unreadable(chain())));
    assert_eq!(failure(action), "read file: server gone");

    let mut req = request("sub", None, None);
    req.file = "a b.rs".to_owned();
    let mut session = SymbolInfo::start(WORKSPACE.to_owned(), req).0;
    let action = session.on_event(&legend, SymbolInfoEvent::File(FileContent::Found(String::new())));
    assert_eq!(failure(action), "convert path to text document identifier: invalid URI");

    let read = || {
        let mut session = start();
        session.on_event(&legend, SymbolInfoEvent::File(FileContent::Found(LIB.to_owned())));
        session
    };
    let mut session = read();
    let action = session.on_event(&legend, SymbolInfoEvent::SemanticTokens(Reply::Failed(chain())));
    assert_eq!(failure(action), "SemanticTokensFullRequest: server gone");
    let mut session = read();
    let action = session.on_event(&legend, SymbolInfoEvent::SemanticTokens(Reply::Null));
    assert_eq!(failure(action), "language server did not provide any semantic tokens");
    let mut session = read();
    let action = session.on_event(
        &legend,
        SymbolInfoEvent::SemanticTokens(Reply::Value(TokensResult::Partial)),
    );
    assert_eq!(failure(action), "partial semantic token results are not supported");
    let mut session = read();
    let action = session.on_event(
        &legend,
        SymbolInfoEvent::SemanticTokens(Reply::Value(TokensResult::Tokens(vec![token(0, 0, 1, 9, 0)]))),
    );
    assert_eq!(failure(action), "decode semantic tokens: invalid token type: 9");

    let (mut session, _) = asked("sub", Some(4), None);
    let action = session.on_event(&legend, SymbolInfoEvent::Hover(Reply::Failed(chain())));
    assert_eq!(failure(action), "HoverRequest: server gone");
    assert!(session.is_done());

    let names = ["GotoDeclaration", "GotoDefinition", "GotoImplementation", "GotoTypeDefinition"];
    for (n, name) in names.iter().enumerate() {
        let (mut session, _) = asked("sub", Some(4), None);
        let hover = HoverContents::Markup("x".to_owned());
        session.on_event(&legend, SymbolInfoEvent::Hover(Reply::Value(hover)));
        for _ in 0..n {
            session.on_event(&legend, SymbolInfoEvent::Locations(Reply::Null));
        }
        let action = session.on_event(&legend, SymbolInfoEvent::Locations(Reply::Failed(chain())));
        assert_eq!(failure(action), format!("{name}: server gone"));
    }

    let (mut session, _) = asked("sub", Some(4), None);
    session.on_event(&legend, SymbolInfoEvent::Hover(Reply::Value(HoverContents::Markup("x".to_owned()))));
    let broken = LocationVariants::Scalar(Location {
        uri: "file:///a b".to_owned(),
        line: 0,
        character: 0,
    });
    let action = session.on_event(&legend, SymbolInfoEvent::Locations(Reply::Value(broken)));
    assert_eq!(failure(action), "format location variants: invalid URI");

    let (mut session, _) = asked("sub", Some(4), None);
    session.on_event(&legend, SymbolInfoEvent::Hover(Reply::Value(HoverContents::Markup("x".to_owned()))));
    for _ in 0..4 {
        session.on_event(&legend, SymbolInfoEvent::Locations(Reply::Null));
    }
    let action = session.on_event(&legend, SymbolInfoEvent::References(Reply::Failed(chain())));
    assert_eq!(failure(action), "References: server gone");
}

#[test]
fn an_event_out_of_turn_fails_the_inquiry() {
    let legend = legend();
    let mut session = SymbolInfo::start(WORKSPACE.to_owned(), request("sub", None, None)).0;
    let action = session.on_event(&legend, SymbolInfoEvent::Hover(Reply::Null));
    assert_eq!(failure(action), "unexpected event");
    assert!(session.is_done());
    let (mut session, _) = asked("sub", Some(4), None);
    let action = session.on_event(&legend, SymbolInfoEvent::References(Reply::Null));
    assert_eq!(failure(action), "unexpected event");
    let (mut session, _) = asked("sub", Some(4), None);
    let action = session.on_event(&legend, SymbolInfoEvent::Locations(Reply::Null));
    assert_eq!(failure(action), "unexpected event");
    let action = session.on_event(&legend, SymbolInfoEvent::File(FileContent::Missing));
    assert_eq!(failure(action), "unexpected event");
}

#[test]
fn places_beyond_the_workspace_are_shown_on_request() {
    let legend = legend();
    let shown = r#"- {"file":"/elsewhere/dep.rs","line":1,"character":1}"#;
    for (beyond, expected) in [(None, "None"), (Some(false), "None"), (Some(true), shown)] {
        let mut req = request("sub", Some(4), None);
        req.workspace_and_dependencies = beyond;
        let (mut session, _) = SymbolInfo::start(WORKSPACE.to_owned(), req);
        session.on_event(&legend, SymbolInfoEvent::File(FileContent::Found(LIB.to_owned())));
        session.on_event(
            &legend,
            SymbolInfoEvent::SemanticTokens(Reply::Value(TokensResult::Tokens(tokens()))),
        );
        session.on_event(&legend, SymbolInfoEvent::Hover(Reply::Value(HoverContents::Markup("x".to_owned()))));
        let outside = LocationVariants::Scalar(location("/elsewhere/dep.rs", 0, 0));
        session.on_event(&legend, SymbolInfoEvent::Locations(Reply::Value(outside)));
        for _ in 0..3 {
            session.on_event(&legend, SymbolInfoEvent::Locations(Reply::Null));
        }
        match session.on_event(&legend, SymbolInfoEvent::References(Reply::Null)) {
            SymbolInfoAction::Success(texts) => {
                assert!(texts[0].ends_with(&format!("\n\n---\n\nDeclarations:\n{expected}")));
            }
            other => panic!("{other:?}"),
        }
    }
}
