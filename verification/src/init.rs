//! The handshake with a language server: what the bridge asks of the server, and what it
//! requires of the server's answer.

use crate::lang::Quirks;
use crate::location::{is_uri, uri_path, uri_too_long};
use crate::text::{opt_text, str_eq, texts};
use crate::tokens::TokenLegend;
use vstd::prelude::*;
use vstd::string::*;

verus! {

/// The forms in which text is marked up.
#[derive(Debug, Clone, Copy, PartialEq, Eq, Structural)]
pub enum MarkupKind {
    PlainText,
    Markdown,
}

/// What the bridge says of itself and asks for when it greets a server.
#[derive(Debug)]
pub struct InitializeParams {
    /// The encodings of positions that the bridge understands, the preferred one first.
    pub position_encodings: Vec<String>,
    /// The forms in which hover content is accepted.
    pub hover_content_format: Vec<MarkupKind>,
    /// Whether capabilities may be registered later on; for hovering, semantic tokens and
    /// the synchronisation of documents alike.
    pub dynamic_registration: bool,
    /// Whether tokens may span several lines.
    pub multiline_token_support: bool,
    /// Whether tokens may overlap.
    pub overlapping_token_support: bool,
    /// Whether the tokens of a part of a document are asked for.
    pub semantic_tokens_range: bool,
    /// Whether the tokens of a whole document are asked for, packed as deltas.
    pub semantic_tokens_full_delta: bool,
    /// Whether the server is told when documents are saved or about to be.
    pub document_save_notifications: bool,
    /// Whether the server may report the progress of its work.
    pub work_done_progress: bool,
    /// The numbers of the kinds of symbols that the bridge knows.
    pub symbol_kinds: Vec<i32>,
    /// Whether the bridge knows of workspace folders.
    pub workspace_folders: bool,
    pub client_name: String,
    pub client_version: String,
    /// Options for the server, as JSON text.
    pub initialization_options: Option<String>,
    /// The one workspace folder: the root of the workspace.
    pub workspace_folder_uri: String,
    pub workspace_folder_name: String,
}

/// The name of the one encoding of positions that the bridge works with.
pub open spec fn utf8_encoding() -> Seq<char> {
    "utf-8"@
}

/// The numbers of the kinds of symbols that the bridge asks for: constant, enum, enum
/// member, field, function, interface, method, module, namespace, object, struct, type
/// parameter and variable.
pub open spec fn known_symbol_kinds() -> Seq<i32> {
    seq![14i32, 10, 22, 8, 12, 11, 6, 2, 3, 19, 23, 26, 13]
}

/// Why the handshake with a server fails.
#[derive(Debug, Clone, Copy, PartialEq, Eq, Structural)]
pub enum InitError {
    /// The workspace's path does not make a URI.
    WorkspaceUri,
    /// The server does not say how it encodes positions.
    MissingPositionEncoding,
    /// The server encodes positions otherwise than in UTF-8.
    PositionEncodingNotUtf8,
    /// The server has no semantic tokens.
    MissingSemanticTokens,
    /// The server has no semantic tokens for whole documents.
    MissingFullDocumentTokens,
    /// The server does not pack the tokens of a document as deltas.
    NoDeltaMode,
    /// The server wants to register its semantic tokens later on.
    DynamicRegistration,
}

impl InitError {
    /// The error in words.
    pub open spec fn text(self) -> Seq<char> {
        match self {
            InitError::WorkspaceUri => "cannot parse workspace URI"@,
            InitError::MissingPositionEncoding => "language server reports position encoding"@,
            InitError::PositionEncodingNotUtf8 => "position encoding is UTF-8"@,
            InitError::MissingSemanticTokens => "expect language server to support semantic tokens"@,
            InitError::MissingFullDocumentTokens => "language server supports semantic tokens for full document"@,
            InitError::NoDeltaMode => "language server uses delta mode to transfer semantic tokens"@,
            InitError::DynamicRegistration => "dynamic token registration not supported"@,
        }
    }

    /// The error in words: what was expected of the server and was not found.
    pub fn message(&self) -> (res: String)
        ensures
            res@ == self.text(),
    {
        match self {
            InitError::WorkspaceUri => String::from_str("cannot parse workspace URI"),
            InitError::MissingPositionEncoding => String::from_str(
                "language server reports position encoding",
            ),
            InitError::PositionEncodingNotUtf8 => String::from_str("position encoding is UTF-8"),
            InitError::MissingSemanticTokens => String::from_str(
                "expect language server to support semantic tokens",
            ),
            InitError::MissingFullDocumentTokens => String::from_str(
                "language server supports semantic tokens for full document",
            ),
            InitError::NoDeltaMode => String::from_str(
                "language server uses delta mode to transfer semantic tokens",
            ),
            InitError::DynamicRegistration => String::from_str(
                "dynamic token registration not supported",
            ),
        }
    }
}

/// Whether `params` is what the bridge greets a server with.
///
/// Positions are encoded in UTF-8 and hover content is marked down. The tokens of whole
/// documents are asked for, packed as deltas, and neither tokens of parts, tokens over
/// several lines nor overlapping tokens. The server may report its progress. The
/// workspace's root is the one workspace folder.
pub open spec fn greets(
    params: InitializeParams,
    workspace: Seq<char>,
    client_name: Seq<char>,
    client_version: Seq<char>,
    initialization_options: Option<Seq<char>>,
) -> bool {
    &&& texts(params.position_encodings@) == seq![utf8_encoding()]
    &&& params.hover_content_format@ == seq![MarkupKind::Markdown]
    &&& !params.dynamic_registration
    &&& !params.multiline_token_support
    &&& !params.overlapping_token_support
    &&& !params.semantic_tokens_range
    &&& params.semantic_tokens_full_delta
    &&& !params.document_save_notifications
    &&& params.work_done_progress
    &&& params.symbol_kinds@ == known_symbol_kinds()
    &&& params.workspace_folders
    &&& params.client_name@ == client_name
    &&& params.client_version@ == client_version
    &&& opt_text(params.initialization_options) == initialization_options
    &&& params.workspace_folder_uri@ == "file://"@ + workspace
    &&& params.workspace_folder_name@ == "root"@
}

/// Makes what the bridge greets a server with: see `greets`. Fails where the workspace's
/// path does not make a URI.
pub fn initialize_params(
    workspace: &str,
    client_name: &str,
    client_version: &str,
    quirks: &Quirks,
) -> (res: Result<InitializeParams, InitError>)
    ensures
        match res {
            Ok(params) => {
                &&& greets(
                    params,
                    workspace@,
                    client_name@,
                    client_version@,
                    opt_text(quirks.init_options),
                )
                &&& !uri_too_long("file://"@ + workspace@)
                &&& uri_path("file://"@ + workspace@) is Some
            },
            Err(e) => e == InitError::WorkspaceUri && (uri_too_long("file://"@ + workspace@)
                || uri_path("file://"@ + workspace@) is None),
        },
{
    let mut uri = String::from_str("file://");
    uri.append(workspace);
    if !is_uri(uri.as_str()) {
        return Err(InitError::WorkspaceUri);
    }
    let mut position_encodings: Vec<String> = Vec::new();
    position_encodings.push(String::from_str("utf-8"));
    let mut hover_content_format: Vec<MarkupKind> = Vec::new();
    hover_content_format.push(MarkupKind::Markdown);
    let mut symbol_kinds: Vec<i32> = Vec::new();
    symbol_kinds.push(14);
    symbol_kinds.push(10);
    symbol_kinds.push(22);
    symbol_kinds.push(8);
    symbol_kinds.push(12);
    symbol_kinds.push(11);
    symbol_kinds.push(6);
    symbol_kinds.push(2);
    symbol_kinds.push(3);
    symbol_kinds.push(19);
    symbol_kinds.push(23);
    symbol_kinds.push(26);
    symbol_kinds.push(13);
    let initialization_options = match &quirks.init_options {
        Some(options) => Some(options.clone()),
        None => None,
    };
    proof {
        assert(texts(position_encodings@) =~= seq![utf8_encoding()]);
        assert(hover_content_format@ =~= seq![MarkupKind::Markdown]);
        assert(symbol_kinds@ =~= known_symbol_kinds());
    }
    Ok(
        InitializeParams {
            position_encodings,
            hover_content_format,
            dynamic_registration: false,
            multiline_token_support: false,
            overlapping_token_support: false,
            semantic_tokens_range: false,
            semantic_tokens_full_delta: true,
            document_save_notifications: false,
            work_done_progress: true,
            symbol_kinds,
            workspace_folders: true,
            client_name: String::from_str(client_name),
            client_version: String::from_str(client_version),
            initialization_options,
            workspace_folder_uri: uri,
            workspace_folder_name: String::from_str("root"),
        },
    )
}

/// How a server offers the semantic tokens of whole documents.
#[derive(Debug, Clone, Copy, PartialEq, Eq, Structural)]
pub enum SemanticTokensFullOptions {
    Bool(bool),
    Delta { delta: Option<bool> },
}

/// The two word lists of a server: the types and the modifiers of its tokens.
#[derive(Debug)]
pub struct SemanticTokensLegend {
    pub token_types: Vec<String>,
    pub token_modifiers: Vec<String>,
}

/// How a server offers semantic tokens: at once, or by registering them later on.
#[derive(Debug)]
pub enum SemanticTokensServerCapabilities {
    SemanticTokensOptions { full: Option<SemanticTokensFullOptions>, legend: SemanticTokensLegend },
    SemanticTokensRegistrationOptions,
}

/// What a server says of itself in answer to the greeting, as far as the bridge reads it.
#[derive(Debug)]
pub struct ServerCapabilities {
    pub position_encoding: Option<String>,
    pub semantic_tokens_provider: Option<SemanticTokensServerCapabilities>,
}

/// Whether a server packs the tokens of whole documents as deltas.
pub open spec fn uses_delta(full: SemanticTokensFullOptions) -> bool {
    match full {
        SemanticTokensFullOptions::Bool(_) => false,
        SemanticTokensFullOptions::Delta { delta } => delta == Some(true),
    }
}

/// What keeps the bridge from working with a server, if anything. The encoding of
/// positions is looked at first, then the semantic tokens.
pub open spec fn server_fault(capabilities: ServerCapabilities) -> Option<InitError> {
    match capabilities.position_encoding {
        None => Some(InitError::MissingPositionEncoding),
        Some(encoding) => if encoding@ != utf8_encoding() {
            Some(InitError::PositionEncodingNotUtf8)
        } else {
            match capabilities.semantic_tokens_provider {
                None => Some(InitError::MissingSemanticTokens),
                Some(SemanticTokensServerCapabilities::SemanticTokensRegistrationOptions) => Some(
                    InitError::DynamicRegistration,
                ),
                Some(SemanticTokensServerCapabilities::SemanticTokensOptions { full, legend }) => {
                    match full {
                        None => Some(InitError::MissingFullDocumentTokens),
                        Some(full) => if uses_delta(full) {
                            None
                        } else {
                            Some(InitError::NoDeltaMode)
                        },
                    }
                },
            }
        },
    }
}

/// Holds what a server says of itself against what the bridge requires, and takes the
/// server's legend.
///
/// The server has to encode positions in UTF-8 and to offer the semantic tokens of whole
/// documents at once, packed as deltas.
pub fn check_server(capabilities: ServerCapabilities) -> (res: Result<TokenLegend, InitError>)
    ensures
        match res {
            Ok(token_legend) => {
                &&& server_fault(capabilities) is None
                &&& capabilities.semantic_tokens_provider matches Some(
                    SemanticTokensServerCapabilities::SemanticTokensOptions { full, legend },
                )
                &&& token_legend.types() == texts(legend.token_types@)
                &&& token_legend.modifiers() == texts(legend.token_modifiers@)
            },
            Err(e) => server_fault(capabilities) == Some(e),
        },
{
    let encoding = match capabilities.position_encoding {
        Some(encoding) => encoding,
        None => {
            return Err(InitError::MissingPositionEncoding);
        },
    };
    if !str_eq(encoding.as_str(), "utf-8") {
        return Err(InitError::PositionEncodingNotUtf8);
    }
    match capabilities.semantic_tokens_provider {
        None => Err(InitError::MissingSemanticTokens),
        Some(SemanticTokensServerCapabilities::SemanticTokensRegistrationOptions) => Err(
            InitError::DynamicRegistration,
        ),
        Some(SemanticTokensServerCapabilities::SemanticTokensOptions { full, legend }) => {
            let full = match full {
                Some(full) => full,
                None => {
                    return Err(InitError::MissingFullDocumentTokens);
                },
            };
            let delta = match full {
                SemanticTokensFullOptions::Bool(_) => false,
                SemanticTokensFullOptions::Delta { delta } => match delta {
                    Some(delta) => delta,
                    None => false,
                },
            };
            if !delta {
                return Err(InitError::NoDeltaMode);
            }
            Ok(TokenLegend::new(legend.token_types, legend.token_modifiers))
        },
    }
}

} // verus!
