use common_sense_coder::init::{
    check_server, initialize_params, InitError, MarkupKind, SemanticTokensFullOptions,
    SemanticTokensLegend, SemanticTokensServerCapabilities, ServerCapabilities,
};
use common_sense_coder::intercept::{
    launch_plan, read_message, writer_action, written_message, InterceptedStream, Message,
    WriterAction,
};
use common_sense_coder::lang::{ProgrammingLanguage, Quirks, Rust};
use common_sense_coder::orchestrate::{ChildExit, Stopped, Teardown, TeardownEvent, TeardownStage};
use common_sense_coder::tasks::TaskError;
use common_sense_coder::tokens::{SemanticToken, TokenLegend};

fn error(parts: &[&str]) -> TaskError {
    TaskError {
        chain: parts.iter().map(|s| s.to_string()).collect(),
    }
}

#[test]
fn the_quirks_of_rust() {
    let quirks = ProgrammingLanguage::Rust.quirks();
    assert_eq!(quirks.server_command, "rust-analyzer");
    assert_eq!(Rust.language_server(), "rust-analyzer");
    assert_eq!(
        quirks.expected_init_progress_tokens,
        vec![
            "rustAnalyzer/Building CrateGraph",
            "rustAnalyzer/Roots Scanned",
            "rustAnalyzer/cachePriming",
            "rust-analyzer/flycheck/0"
        ]
    );
    assert_eq!(Rust.init_progress_parts(), quirks.expected_init_progress_tokens);
    assert_eq!(Rust.semantic_token_modifier_scores(), quirks.modifier_scores);
    let options = quirks.init_options.unwrap();
    assert_eq!(Some(options.clone()), Rust.initialization_options());
    let value: serde_json::Value = serde_json::from_str(&options).unwrap();
    assert_eq!(value["files"]["watcher"], "server");
    assert_eq!(value["hover"]["dropGlue"]["enable"], false);
    assert_eq!(value["hover"]["memoryLayout"]["enable"], false);
    assert_eq!(value["hover"]["show"]["enumVariants"], 100);
    assert_eq!(value["hover"]["show"]["fields"], 100);
    assert_eq!(value["hover"]["show"]["traitAssocItems"], 100);
    assert_eq!(value["workspace"]["symbol"]["search"]["scope"], "workspace_and_dependencies");
}

#[test]
fn modifiers_are_scored() {
    let quirks = ProgrammingLanguage::Rust.quirks();
    assert_eq!(quirks.modifier_score("declaration"), 10);
    assert_eq!(quirks.modifier_score("injected"), -100);
    assert_eq!(quirks.modifier_score("library"), -1);
    assert_eq!(quirks.modifier_score("public"), 10);
    assert_eq!(quirks.modifier_score("unknown"), 0);
    let mut names: Vec<&str> = quirks.modifier_scores.iter().map(|entry| entry.0.as_str()).collect();
    names.sort();
    names.dedup();
    assert_eq!(names.len(), quirks.modifier_scores.len());
    assert_eq!(quirks.modifier_score(""), 0);

    let legend = TokenLegend::new(
        vec!["function".to_owned()],
        vec![
            "declaration".to_owned(),
            "injected".to_owned(),
            "async".to_owned(),
            "library".to_owned(),
        ],
    );
    let score = |bits: u32| -> i128 {
        let stream = vec![SemanticToken {
            delta_line: 0,
            delta_start: 0,
            length: 1,
            token_type: 0,
            token_modifiers_bitset: bits,
        }];
        let doc = legend.decode("x", stream).unwrap();
        let found = doc.query("x", None, None);
        quirks.score(&found[0].token_modifers())
    };
    assert_eq!(score(0), 0);
    assert_eq!(score(0b0001), 10);
    assert_eq!(score(0b0100), 0);
    assert_eq!(score(0b1011), -91);
    assert_eq!(score(0b1111_0000), 0);

    let large = Quirks {
        server_command: String::new(),
        init_options: None,
        expected_init_progress_tokens: vec![],
        modifier_scores: vec![
            ("declaration".to_owned(), i64::MAX),
            ("injected".to_owned(), i64::MAX),
            ("declaration".to_owned(), 1),
        ],
    };
    assert_eq!(large.modifier_score("declaration"), i64::MAX);
    let stream = vec![SemanticToken {
        delta_line: 0,
        delta_start: 0,
        length: 1,
        token_type: 0,
        token_modifiers_bitset: 3,
    }];
    let doc = legend.decode("x", stream).unwrap();
    let found = doc.query("x", None, None);
    assert_eq!(large.score(&found[0].token_modifers()), 2 * (i64::MAX as i128));
}

#[test]
fn the_greeting_of_a_server() {
    let quirks = ProgrammingLanguage::Rust.quirks();
    let params = initialize_params("/home/user/main_lib", "bridge", "1.0, revision abc", &quirks).unwrap();
    assert_eq!(params.position_encodings, vec!["utf-8"]);
    assert_eq!(params.hover_content_format, vec![MarkupKind::Markdown]);
    assert!(!params.dynamic_registration);
    assert!(!params.multiline_token_support);
    assert!(!params.overlapping_token_support);
    assert!(!params.semantic_tokens_range);
    assert!(params.semantic_tokens_full_delta);
    assert!(!params.document_save_notifications);
    assert!(params.work_done_progress);
    assert_eq!(params.symbol_kinds, vec![14, 10, 22, 8, 12, 11, 6, 2, 3, 19, 23, 26, 13]);
    assert!(params.workspace_folders);
    assert_eq!(params.client_name, "bridge");
    assert_eq!(params.client_version, "1.0, revision abc");
    assert_eq!(params.initialization_options, quirks.init_options);
    assert_eq!(params.workspace_folder_uri, "file:///home/user/main_lib");
    assert_eq!(params.workspace_folder_name, "root");

    let err = initialize_params("/home/user/my project", "bridge", "1", &quirks).unwrap_err();
    assert_eq!(err, InitError::WorkspaceUri);
    assert_eq!(err.message(), "cannot parse workspace URI");
}

fn server(encoding: Option<&str>, full: Option<SemanticTokensFullOptions>) -> ServerCapabilities {
    ServerCapabilities {
        position_encoding: encoding.map(str::to_owned),
        semantic_tokens_provider: Some(SemanticTokensServerCapabilities::SemanticTokensOptions {
            full,
            legend: SemanticTokensLegend {
                token_types: vec!["namespace".to_owned()],
                token_modifiers: vec!["declaration".to_owned()],
            },
        }),
    }
}

#[test]
fn a_server_is_held_against_what_the_bridge_requires() {
    let delta = |delta: Option<bool>| Some(SemanticTokensFullOptions::Delta { delta });

    let legend = check_server(server(Some("utf-8"), delta(Some(true)))).unwrap();
    let stream = vec![SemanticToken {
        delta_line: 0,
        delta_start: 0,
        length: 1,
        token_type: 0,
        token_modifiers_bitset: 1,
    }];
    let doc = legend.decode("x", stream).unwrap();
    let found = doc.query("x", None, None);
    assert_eq!(found[0].token_type().as_str(), "namespace");
    assert_eq!(found[0].token_modifers().iter()[0].as_str(), "declaration");

    let fault = |caps: ServerCapabilities| -> (InitError, String) {
        let err = check_server(caps).unwrap_err();
        (err, err.message())
    };
    assert_eq!(
        fault(server(None, delta(Some(true)))),
        (
            InitError::MissingPositionEncoding,
            "language server reports position encoding".to_owned()
        )
    );
    assert_eq!(
        fault(server(Some("utf-16"), delta(Some(true)))),
        (InitError::PositionEncodingNotUtf8, "position encoding is UTF-8".to_owned())
    );
    assert_eq!(
        fault(server(Some("UTF-8"), delta(Some(true)))).0,
        InitError::PositionEncodingNotUtf8
    );
    assert_eq!(
        fault(ServerCapabilities {
            position_encoding: Some("utf-8".to_owned()),
            semantic_tokens_provider: None,
        }),
        (
            InitError::MissingSemanticTokens,
            "expect language server to support semantic tokens".to_owned()
        )
    );
    assert_eq!(
        fault(server(Some("utf-8"), None)),
        (
            InitError::MissingFullDocumentTokens,
            "language server supports semantic tokens for full document".to_owned()
        )
    );
    for full in [
        delta(Some(false)),
        delta(None),
        Some(SemanticTokensFullOptions::Bool(true)),
        Some(SemanticTokensFullOptions::Bool(false)),
    ] {
        assert_eq!(
            fault(server(Some("utf-8"), full)),
            (
                InitError::NoDeltaMode,
                "language server uses delta mode to transfer semantic tokens".to_owned()
            )
        );
    }
    assert_eq!(
        fault(ServerCapabilities {
            position_encoding: Some("utf-8".to_owned()),
            semantic_tokens_provider: Some(
                SemanticTokensServerCapabilities::SemanticTokensRegistrationOptions
            ),
        }),
        (
            InitError::DynamicRegistration,
            "dynamic token registration not supported".to_owned()
        )
    );
    // the encoding is looked at before the tokens
    assert_eq!(
        fault(ServerCapabilities {
            position_encoding: None,
            semantic_tokens_provider: None,
        })
        .0,
        InitError::MissingPositionEncoding
    );
}

#[test]
fn copies_hold_what_the_stream_took_or_gave() {
    match written_message(b"hello world", 5) {
        Message::Data(data) => assert_eq!(data, b"hello"),
        other => panic!("{other:?}"),
    }
    match written_message(b"hello", 0) {
        Message::Data(data) => assert_eq!(data, b""),
        other => panic!("{other:?}"),
    }
    match written_message(b"hello", 5) {
        Message::Data(data) => assert_eq!(data, b"hello"),
        other => panic!("{other:?}"),
    }
    match read_message(b"hello world", 6) {
        Message::Data(data) => assert_eq!(data, b"world"),
        other => panic!("{other:?}"),
    }
    match read_message(b"hello", 5) {
        Message::Data(data) => assert_eq!(data, b""),
        other => panic!("{other:?}"),
    }
}

#[test]
fn the_writer_of_a_copy_follows_its_messages() {
    match writer_action(Some(Message::Data(vec![1, 2, 3]))) {
        WriterAction::Write(bytes) => assert_eq!(bytes, vec![1, 2, 3]),
        other => panic!("{other:?}"),
    }
    assert!(matches!(writer_action(Some(Message::Flush)), WriterAction::Flush));
    assert!(matches!(writer_action(Some(Message::Shutdown)), WriterAction::Close));
    assert!(matches!(writer_action(None), WriterAction::Close));
}

#[test]
fn the_copies_have_their_files() {
    assert_eq!(InterceptedStream::LspStdin.log_file(), "lsp.stdin.txt");
    assert_eq!(InterceptedStream::LspStdout.log_file(), "lsp.stdout.txt");
    assert_eq!(InterceptedStream::LspStderr.log_file(), "lsp.stderr.txt");
    assert_eq!(InterceptedStream::McpStdin.log_file(), "mcp.stdin.txt");
    assert_eq!(InterceptedStream::McpStdout.log_file(), "mcp.stdout.txt");
    let quirks = ProgrammingLanguage::Rust.quirks();
    let plan = launch_plan(&quirks, false);
    assert_eq!(plan.command, "rust-analyzer");
    assert!(plan.kill_on_drop);
    assert_eq!((plan.stderr_log, plan.stdin_log, plan.stdout_log), (None, None, None));
    let plan = launch_plan(&quirks, true);
    assert_eq!(plan.command, "rust-analyzer");
    assert!(plan.kill_on_drop);
    assert_eq!(plan.stderr_log.as_deref(), Some("lsp.stderr.txt"));
    assert_eq!(plan.stdin_log.as_deref(), Some("lsp.stdin.txt"));
    assert_eq!(plan.stdout_log.as_deref(), Some("lsp.stdout.txt"));
}

fn exited(success: bool) -> TeardownEvent {
    TeardownEvent::Child(ChildExit::Exited {
        success,
        status: "exit status: 1".to_owned(),
    })
}

#[test]
fn a_clean_teardown_exits_with_zero() {
    let down = Teardown::start(Stopped::Service(Ok(())));
    assert_eq!(down.stage, TeardownStage::ShuttingDownServer);
    let down = down.on_event(TeardownEvent::ServerShutdown(Ok(())));
    assert_eq!(down.stage, TeardownStage::ExitingServer);
    let down = down.on_event(TeardownEvent::ServerExited(Ok(())));
    assert_eq!(down.stage, TeardownStage::AwaitingChild);
    let down = down.on_event(exited(true));
    assert_eq!(down.stage, TeardownStage::ShuttingDownTasks);
    let down = down.on_event(TeardownEvent::Tasks(Ok(())));
    assert_eq!(down.stage, TeardownStage::Done);
    assert!(down.result.is_ok());
    assert_eq!(down.exit_code(), 0);
}

#[test]
fn every_step_is_taken_and_the_first_error_kept() {
    let down = Teardown::start(Stopped::Task(error(&["task lsp", "panic", "boom"])));
    let down = down.on_event(TeardownEvent::ServerShutdown(Err(error(&["pipe closed"]))));
    // a server that does not shut down is not told to exit
    assert_eq!(down.stage, TeardownStage::AwaitingChild);
    let down = down.on_event(exited(false));
    assert_eq!(down.stage, TeardownStage::ShuttingDownTasks);
    let down = down.on_event(TeardownEvent::Tasks(Err(error(&["late"]))));
    assert_eq!(down.stage, TeardownStage::Done);
    assert_eq!(down.exit_code(), 1);
    assert_eq!(down.result.unwrap_err().to_string(), "tasks: task lsp: panic: boom");
}

#[test]
fn each_step_has_its_word() {
    let from = |events: Vec<TeardownEvent>| -> String {
        let mut down = Teardown::start(Stopped::Service(Ok(())));
        for event in events {
            down = down.on_event(event);
        }
        assert_eq!(down.stage, TeardownStage::Done);
        assert_eq!(down.exit_code(), 1);
        down.result.unwrap_err().to_string()
    };
    let fine = || TeardownEvent::Tasks(Ok(()));
    assert_eq!(
        from(vec![TeardownEvent::ServerShutdown(Err(error(&["x"]))), exited(true), fine()]),
        "shutdown language server: x"
    );
    assert_eq!(
        from(vec![
            TeardownEvent::ServerShutdown(Ok(())),
            TeardownEvent::ServerExited(Err(error(&["x"]))),
            exited(true),
            fine()
        ]),
        "exit language server: x"
    );
    assert_eq!(
        from(vec![
            TeardownEvent::ServerShutdown(Ok(())),
            TeardownEvent::ServerExited(Ok(())),
            exited(false),
            fine()
        ]),
        "LSP exit was not clean: exit status: 1"
    );
    assert_eq!(
        from(vec![
            TeardownEvent::ServerShutdown(Ok(())),
            TeardownEvent::ServerExited(Ok(())),
            TeardownEvent::Child(ChildExit::Failed(error(&["no child"]))),
            fine()
        ]),
        "terminate language server: no child"
    );
    assert_eq!(
        from(vec![
            TeardownEvent::ServerShutdown(Ok(())),
            TeardownEvent::ServerExited(Ok(())),
            exited(true),
            TeardownEvent::Tasks(Err(error(&["task x", "boom"])))
        ]),
        "task shutdown: task x: boom"
    );
    let down = Teardown::start(Stopped::Service(Err(error(&["wait for service", "closed"]))));
    assert_eq!(down.exit_code(), 1);
    assert_eq!(
        down.result.as_ref().unwrap_err().to_string(),
        "main: wait for service: closed"
    );
}

#[test]
fn an_event_out_of_turn_changes_nothing() {
    let down = Teardown::start(Stopped::Service(Ok(())));
    let down = down.on_event(TeardownEvent::Tasks(Err(error(&["x"]))));
    assert_eq!(down.stage, TeardownStage::ShuttingDownServer);
    assert!(down.result.is_ok());
    let down = down.on_event(exited(false));
    assert_eq!(down.stage, TeardownStage::ShuttingDownServer);
    assert!(down.result.is_ok());
    let down = down.on_event(TeardownEvent::ServerExited(Err(error(&["x"]))));
    assert_eq!(down.stage, TeardownStage::ShuttingDownServer);
    assert_eq!(down.exit_code(), 0);
}
