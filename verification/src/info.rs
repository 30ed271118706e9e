//! What is known of a symbol: the answers of a language server to a handful of requests
//! about one token, written out as one text.

use crate::error::{flattened, internal_error, internal_with_context, ErrorKind, McpError};
use crate::location::{
    bullet, formatted, located, path_to_text_document_identifier, path_to_uri, place_json, uri_path,
    uri_text, uri_too_long, Location, LocationError, LocationVariants, LocationView, McpLocation,
    TextDocumentPosition,
};
use crate::text::{join, joined, texts, trim, trimmed};
use crate::tokens::{
    decoded_stream, first_fault, is_best, DecodeError, SemanticToken, Token, TokenLegend,
    TokenView,
};
use vstd::prelude::*;
use vstd::string::*;

verus! {

/// A piece of text that a server shows for a symbol: plain, or code in a named language.
#[derive(Debug, Clone)]
pub enum MarkedString {
    String(String),
    LanguageString { language: String, value: String },
}

/// What a server shows where a symbol is hovered over.
#[derive(Debug, Clone)]
pub enum HoverContents {
    Scalar(MarkedString),
    Array(Vec<MarkedString>),
    /// Marked-up text: of its kind and its value, the value.
    Markup(String),
}

/// What stands between the sections of one answer.
pub open spec fn section_break() -> Seq<char> {
    "\n\n---\n\n"@
}

/// How a piece of text is written: plain text without the white space around it, code
/// between fences that name its language.
pub open spec fn marked_string_text(s: MarkedString) -> Seq<char> {
    match s {
        MarkedString::String(text) => trimmed(text@),
        MarkedString::LanguageString { language, value } => "```"@ + language@ + "\n"@ + value@
            + "\n```"@,
    }
}

/// Writes a piece of text out: see `marked_string_text`.
pub fn format_marked_string(s: MarkedString) -> (res: String)
    ensures
        res@ == marked_string_text(s),
{
    match s {
        MarkedString::String(text) => trim(text.as_str()),
        MarkedString::LanguageString { language, value } => {
            let mut out = String::from_str("```");
            out.append(language.as_str());
            out.append("\n");
            out.append(value.as_str());
            out.append("\n```");
            out
        },
    }
}

/// The texts of a list of pieces, each written as `marked_string_text` says.
pub open spec fn marked_string_texts(parts: Seq<MarkedString>) -> Seq<Seq<char>> {
    parts.map_values(|s: MarkedString| marked_string_text(s))
}

/// The sections that stand for what a server shows on hovering: one for a single piece,
/// one for each piece of a list, and one for marked-up text, without the white space
/// around it.
pub open spec fn hover_sections(contents: HoverContents) -> Seq<Seq<char>> {
    match contents {
        HoverContents::Scalar(s) => seq![marked_string_text(s)],
        HoverContents::Array(parts) => marked_string_texts(parts@),
        HoverContents::Markup(value) => seq![trimmed(value@)],
    }
}

fn copy_marked_string(s: &MarkedString) -> (res: MarkedString)
    ensures
        marked_string_text(res) == marked_string_text(*s),
{
    match s {
        MarkedString::String(text) => MarkedString::String(text.clone()),
        MarkedString::LanguageString { language, value } => MarkedString::LanguageString {
            language: language.clone(),
            value: value.clone(),
        },
    }
}

/// Writes out what a server shows on hovering: see `hover_sections`.
pub fn format_hover(contents: HoverContents) -> (res: Vec<String>)
    ensures
        texts(res@) == hover_sections(contents),
{
    let mut out: Vec<String> = Vec::new();
    match contents {
        HoverContents::Scalar(s) => {
            out.push(format_marked_string(s));
            proof {
                assert(texts(out@) =~= seq![marked_string_text(s)]);
            }
        },
        HoverContents::Array(parts) => {
            let mut i: usize = 0;
            while i < parts.len()
                invariant
                    i <= parts.len(),
                    out.len() == i,
                    forall|k: int|
                        0 <= k < i ==> (#[trigger] out@[k])@ == marked_string_text(parts@[k]),
                decreases parts.len() - i,
            {
                out.push(format_marked_string(copy_marked_string(&parts[i])));
                i += 1;
            }
            proof {
                assert(texts(out@) =~= marked_string_texts(parts@));
            }
        },
        HoverContents::Markup(value) => {
            out.push(trim(value.as_str()));
            proof {
                assert(texts(out@) =~= seq![trimmed(value@)]);
            }
        },
    }
    out
}

/// The modifiers of a token in one line: their names with commas between, or `none`.
pub open spec fn modifier_line(modifiers: Seq<Seq<char>>) -> Seq<char> {
    if joined(modifiers, ", "@).len() == 0 {
        "none"@
    } else {
        joined(modifiers, ", "@)
    }
}

/// The section that opens the answer for a token: where the token stands, its type and
/// its modifiers. The place is handed in as it is to be written, a JSON object.
pub open spec fn token_section(
    location: Seq<char>,
    token_type: Seq<char>,
    modifiers: Seq<Seq<char>>,
) -> Seq<char> {
    "Token:\n\n- location: "@ + location + "\n- type: "@ + token_type + "\n- modifiers: "@
        + modifier_line(modifiers)
}

/// Writes the section that opens the answer for a token: see `token_section`.
pub fn format_token_section(location: &str, token_type: &str, modifiers: &Vec<String>) -> (res:
    String)
    ensures
        res@ == token_section(location@, token_type@, texts(modifiers@)),
{
    let names = join(modifiers, ", ");
    let mut out = String::from_str("Token:\n\n- location: ");
    out.append(location);
    out.append("\n- type: ");
    out.append(token_type);
    out.append("\n- modifiers: ");
    if names.as_str().is_empty() {
        out.append("none");
    } else {
        out.append(names.as_str());
    }
    out
}

/// A section with a title: the title, a line break, and the body.
pub open spec fn titled(title: Seq<char>, body: Seq<char>) -> Seq<char> {
    title + "\n"@ + body
}

/// Writes a section with a title: see `titled`.
pub fn format_titled(title: &str, body: &str) -> (res: String)
    ensures
        res@ == titled(title@, body@),
{
    let mut out = String::from_str(title);
    out.append("\n");
    out.append(body);
    out
}

/// The lines of a list of references: one for each place that is shown, in their order.
/// A place that cannot be shown is passed over.
pub open spec fn reference_lines(
    locs: Seq<LocationView>,
    workspace: Seq<char>,
    workspace_and_dependencies: bool,
) -> Seq<Seq<char>>
    decreases locs.len(),
{
    if locs.len() == 0 {
        Seq::empty()
    } else {
        let lines = reference_lines(locs.drop_last(), workspace, workspace_and_dependencies);
        match located(locs.last(), workspace, workspace_and_dependencies) {
            Ok(Some(shown)) => lines.push(bullet(shown)),
            _ => lines,
        }
    }
}

/// The body of the section of references: the lines of `reference_lines`, or `None`
/// where there is no line.
pub open spec fn references_body(
    locs: Seq<LocationView>,
    workspace: Seq<char>,
    workspace_and_dependencies: bool,
) -> Seq<char> {
    let lines = reference_lines(locs, workspace, workspace_and_dependencies);
    if lines.len() == 0 {
        "None"@
    } else {
        joined(lines, "\n"@)
    }
}

/// Writes the body of the section of references: see `references_body`.
pub fn format_references(
    locations: &Vec<Location>,
    workspace: &str,
    workspace_and_dependencies: bool,
) -> (res: String)
    ensures
        res@ == references_body(
            locations@.map_values(|l: Location| l@),
            workspace@,
            workspace_and_dependencies,
        ),
{
    let ghost locs = locations@.map_values(|l: Location| l@);
    let mut lines: Vec<String> = Vec::new();
    let mut i: usize = 0;
    proof {
        assert(texts(lines@) =~= Seq::empty());
    }
    while i < locations.len()
        invariant
            i <= locations.len(),
            locs == locations@.map_values(|l: Location| l@),
            texts(lines@) == reference_lines(
                locs.take(i as int),
                workspace@,
                workspace_and_dependencies,
            ),
        decreases locations.len() - i,
    {
        let loc = &locations[i];
        proof {
            assert(locs.take(i + 1).drop_last() =~= locs.take(i as int));
            assert(locs.take(i + 1).last() == loc@);
        }
        let copy = Location { uri: loc.uri.clone(), line: loc.line, character: loc.character };
        match McpLocation::try_new(copy, workspace, workspace_and_dependencies) {
            Ok(Some(shown)) => {
                let ghost before = texts(lines@);
                let mut line = String::from_str("- ");
                let place = shown.to_json();
                line.append(place.as_str());
                lines.push(line);
                proof {
                    assert(texts(lines@) =~= before.push(bullet(shown@)));
                }
            },
            _ => {},
        }
        i += 1;
    }
    proof {
        assert(locs.take(locations.len() as int) =~= locs);
    }
    if lines.len() == 0 {
        String::from_str("None")
    } else {
        join(&lines, "\n")
    }
}

/// What a caller of `symbol_info` hands in.
#[derive(Debug, Clone)]
pub struct SymbolInfoRequest {
    /// Path to the file, absolute or relative to the workspace.
    pub file: String,
    /// The symbol's name.
    pub name: String,
    /// Line of the symbol, counted from one.
    pub line: Option<u32>,
    /// Character of the symbol in its line, counted from one.
    pub character: Option<u32>,
    /// Whether to show places beyond the workspace.
    pub workspace_and_dependencies: Option<bool>,
}

/// How a server answers a request: with nothing, with a value, or not at all.
#[derive(Debug)]
pub enum Reply<T> {
    Null,
    Value(T),
    /// The request failed: the error and its causes, outermost first.
    Failed(Vec<String>),
}

/// What became of the attempt to read a file.
#[derive(Debug)]
pub enum FileContent {
    Found(String),
    Missing,
    /// The file is there and cannot be read: the error and its causes, outermost first.
    Unreadable(Vec<String>),
}

/// The semantic tokens of a file as a server sends them: whole, or in parts.
#[derive(Debug)]
pub enum TokensResult {
    Tokens(Vec<SemanticToken>),
    Partial,
}

/// What happened while an inquiry was under way.
#[derive(Debug)]
pub enum SymbolInfoEvent {
    File(FileContent),
    SemanticTokens(Reply<TokensResult>),
    Hover(Reply<HoverContents>),
    Locations(Reply<LocationVariants>),
    References(Reply<Vec<Location>>),
}

/// What is to be done next for an inquiry. The last three end the inquiry.
#[derive(Debug)]
pub enum SymbolInfoAction {
    /// Read the file, and report its content.
    ReadFile { file: String },
    /// Ask the server for the semantic tokens of the whole document.
    RequestSemanticTokens { uri: String },
    /// Ask the server what it shows on hovering over the position.
    RequestHover(TextDocumentPosition),
    /// Ask the server where the symbol at the position is declared.
    RequestDeclaration(TextDocumentPosition),
    /// Ask the server where the symbol at the position is defined.
    RequestDefinition(TextDocumentPosition),
    /// Ask the server where the symbol at the position is implemented.
    RequestImplementation(TextDocumentPosition),
    /// Ask the server where the type of the symbol at the position is defined.
    RequestTypeDefinition(TextDocumentPosition),
    /// Ask the server where the symbol at the position is used.
    RequestReferences { position: TextDocumentPosition, include_declaration: bool },
    /// Answer the caller with the texts, one for each token.
    Success(Vec<String>),
    /// Answer the caller with a text that is marked as an error.
    ToolError(String),
    /// Fail the call.
    Failure(McpError),
}

/// How far an inquiry has come.
#[derive(Debug, Clone, Copy, PartialEq, Eq, Structural)]
pub enum SymbolInfoStage {
    ReadingFile,
    AwaitingTokens,
    AwaitingHover,
    AwaitingDeclaration,
    AwaitingDefinition,
    AwaitingImplementation,
    AwaitingTypeDefinition,
    AwaitingReferences,
    Done,
}

/// A token that answers the inquiry: the section that opens its answer, and its place,
/// counted from one.
#[derive(Debug)]
pub struct Candidate {
    header: String,
    line: u32,
    character: u32,
}

/// What a `Candidate` holds.
pub ghost struct CandidateView {
    pub header: Seq<char>,
    pub line: int,
    pub character: int,
}

impl View for Candidate {
    type V = CandidateView;

    closed spec fn view(&self) -> CandidateView {
        CandidateView {
            header: self.header@,
            line: self.line as int,
            character: self.character as int,
        }
    }
}

/// The candidate that a token makes in `file`.
pub open spec fn candidate_of(t: TokenView, file: Seq<char>) -> CandidateView {
    CandidateView {
        header: token_section(place_json(file, t.line, t.character), t.token_type, t.modifiers),
        line: t.line,
        character: t.character,
    }
}

/// The candidates among the tokens of a document: the tokens that answer the query for
/// `name` near the hinted place, in the document's order.
pub open spec fn candidates_of(
    doc: Seq<TokenView>,
    name: Seq<char>,
    line: Option<u32>,
    character: Option<u32>,
    file: Seq<char>,
) -> Seq<CandidateView> {
    doc.filter(|t: TokenView| is_best(doc, name, line, character, t)).map_values(
        |t: TokenView| candidate_of(t, file),
    )
}

/// Whether an action fails the call with an internal error of the given message.
pub open spec fn fails(action: SymbolInfoAction, message: Seq<char>) -> bool {
    action matches SymbolInfoAction::Failure(failure) && failure.kind == ErrorKind::InternalError
        && failure.message@ == message
}

/// Whether a position names the document and the place, counted from zero.
pub open spec fn position_is(
    position: TextDocumentPosition,
    uri: Seq<char>,
    line: int,
    character: int,
) -> bool {
    position.uri@ == uri && position.line == line && position.character == character
}

/// One inquiry about a symbol, from the caller's request to the answer.
///
/// The inquiry says what is to be done next, the caller of this library does it and
/// reports what happened, until the inquiry ends with an answer. The file is read and
/// its tokens are fetched; then, for each token that answers the query, the server is
/// asked six questions in a row, and what it says is written into one text.
#[derive(Debug)]
pub struct SymbolInfo {
    workspace: String,
    file: String,
    name: String,
    line: Option<u32>,
    character: Option<u32>,
    beyond: bool,
    stage: SymbolInfoStage,
    content: String,
    candidates: Vec<Candidate>,
    current: usize,
    uri: String,
    sections: Vec<String>,
    results: Vec<String>,
}

impl SymbolInfo {
    /// The workspace of the inquiry.
    pub closed spec fn workspace(&self) -> Seq<char> {
        self.workspace@
    }

    /// The file of the symbol.
    pub closed spec fn file(&self) -> Seq<char> {
        self.file@
    }

    /// The symbol's name.
    pub closed spec fn name(&self) -> Seq<char> {
        self.name@
    }

    /// The hinted line, counted from one.
    pub closed spec fn line(&self) -> Option<u32> {
        self.line
    }

    /// The hinted character, counted from one.
    pub closed spec fn character(&self) -> Option<u32> {
        self.character
    }

    /// Whether places beyond the workspace are shown.
    pub closed spec fn beyond(&self) -> bool {
        self.beyond
    }

    /// How far the inquiry has come.
    pub closed spec fn stage(&self) -> SymbolInfoStage {
        self.stage
    }

    /// The file's text, once it is read.
    pub closed spec fn content(&self) -> Seq<char> {
        self.content@
    }

    /// The tokens that answer the query, once they are known.
    pub closed spec fn candidates(&self) -> Seq<CandidateView> {
        self.candidates@.map_values(|c: Candidate| c@)
    }

    /// Which candidate the server is asked about.
    pub closed spec fn current(&self) -> int {
        self.current as int
    }

    /// The sections written so far for the current candidate.
    pub closed spec fn sections(&self) -> Seq<Seq<char>> {
        texts(self.sections@)
    }

    /// The texts of the candidates that are done.
    pub closed spec fn results(&self) -> Seq<Seq<char>> {
        texts(self.results@)
    }

    /// The URI of the file.
    pub open spec fn uri(&self) -> Seq<char> {
        uri_text(self.workspace(), self.file())
    }

    /// What every inquiry keeps: while the server is asked about a candidate, that
    /// candidate is there and the file can be named to the server.
    #[verifier::type_invariant]
    spec fn well_formed(&self) -> bool {
        &&& forall|k: int|
            0 <= k < self.candidates@.len() ==> (#[trigger] self.candidates@[k]).line >= 1
                && self.candidates@[k].character >= 1
        &&& self.asking() ==> {
            &&& self.current < self.candidates@.len()
            &&& self.uri@ == uri_text(self.workspace@, self.file@)
            &&& !uri_too_long(self.uri@)
            &&& uri_path(self.uri@) is Some
        }
    }

    /// Whether the file can be named to the server: its URI parses.
    pub open spec fn uri_is_known(&self) -> bool {
        !uri_too_long(self.uri()) && uri_path(self.uri()) is Some
    }

    /// Whether the server is being asked about a candidate.
    pub open spec fn asking(&self) -> bool {
        match self.stage() {
            SymbolInfoStage::AwaitingHover => true,
            SymbolInfoStage::AwaitingDeclaration => true,
            SymbolInfoStage::AwaitingDefinition => true,
            SymbolInfoStage::AwaitingImplementation => true,
            SymbolInfoStage::AwaitingTypeDefinition => true,
            SymbolInfoStage::AwaitingReferences => true,
            _ => false,
        }
    }

    /// Whether `post` is this inquiry with nothing changed but what the stages of a
    /// candidate change.
    pub open spec fn same_inquiry(&self, post: SymbolInfo) -> bool {
        &&& post.workspace() == self.workspace()
        &&& post.file() == self.file()
        &&& post.name() == self.name()
        &&& post.line() == self.line()
        &&& post.character() == self.character()
        &&& post.beyond() == self.beyond()
    }

    /// Whether `position` is the place of the current candidate.
    pub open spec fn at_current(&self, position: TextDocumentPosition) -> bool {
        position_is(
            position,
            self.uri(),
            self.candidates()[self.current()].line - 1,
            self.candidates()[self.current()].character - 1,
        )
    }

    /// Whether `post` and `action` are what comes of turning to candidate `k` with the
    /// texts `results` done.
    ///
    /// Where there is no candidate `k` the inquiry ends with the texts. Else the server
    /// is asked what it shows on hovering over the candidate, and the candidate's
    /// opening section is written, unless the file cannot be named to the server.
    pub open spec fn turns_to(
        &self,
        post: SymbolInfo,
        action: SymbolInfoAction,
        candidates: Seq<CandidateView>,
        k: int,
        results: Seq<Seq<char>>,
    ) -> bool {
        &&& self.same_inquiry(post)
        &&& if k >= candidates.len() {
            &&& post.stage() == SymbolInfoStage::Done
            &&& action matches SymbolInfoAction::Success(done)
            &&& texts(done@) == results
        } else if uri_too_long(self.uri()) || uri_path(self.uri()) is None {
            &&& post.stage() == SymbolInfoStage::Done
            &&& fails(
                action,
                flattened(
                    seq![
                        "create text document position params"@,
                        LocationError::InvalidUri.text(),
                    ],
                ),
            )
        } else {
            &&& post.stage() == SymbolInfoStage::AwaitingHover
            &&& post.candidates() == candidates
            &&& post.current() == k
            &&& post.results() == results
            &&& post.sections() == seq![candidates[k].header]
            &&& action matches SymbolInfoAction::RequestHover(position)
            &&& post.at_current(position)
        }
    }

    /// Whether `post` is this inquiry moved on to `stage`, with `sections` written for
    /// the current candidate.
    pub open spec fn moves_to(
        &self,
        post: SymbolInfo,
        stage: SymbolInfoStage,
        sections: Seq<Seq<char>>,
    ) -> bool {
        &&& self.same_inquiry(post)
        &&& post.stage() == stage
        &&& post.candidates() == self.candidates()
        &&& post.current() == self.current()
        &&& post.results() == self.results()
        &&& post.sections() == sections
    }

    /// Whether the inquiry has ended.
    pub fn is_done(&self) -> (res: bool)
        ensures
            res == (self.stage() == SymbolInfoStage::Done),
    {
        match self.stage {
            SymbolInfoStage::Done => true,
            _ => false,
        }
    }

    /// Takes a request in and says what is to be done first: read the file.
    pub fn start(workspace: String, request: SymbolInfoRequest) -> (res: (
        SymbolInfo,
        SymbolInfoAction,
    ))
        ensures
            res.0.workspace() == workspace@,
            res.0.file() == request.file@,
            res.0.name() == request.name@,
            res.0.line() == request.line,
            res.0.character() == request.character,
            res.0.beyond() == (request.workspace_and_dependencies == Some(true)),
            res.0.stage() == SymbolInfoStage::ReadingFile,
            res.1 matches SymbolInfoAction::ReadFile { file } && file@ == request.file@,
    {
        let action = SymbolInfoAction::ReadFile { file: request.file.clone() };
        let session = SymbolInfo {
            workspace,
            file: request.file,
            name: request.name,
            line: request.line,
            character: request.character,
            beyond: match request.workspace_and_dependencies {
                Some(true) => true,
                _ => false,
            },
            stage: SymbolInfoStage::ReadingFile,
            content: String::new(),
            candidates: Vec::new(),
            current: 0,
            uri: String::new(),
            sections: Vec::new(),
            results: Vec::new(),
        };
        (session, action)
    }

    fn position(&self) -> (res: TextDocumentPosition)
        requires
            self.asking(),
        ensures
            self.at_current(res),
    {
        proof {
            use_type_invariant(self);
        }
        let candidate = &self.candidates[self.current];
        TextDocumentPosition {
            uri: self.uri.clone(),
            line: candidate.line - 1,
            character: candidate.character - 1,
        }
    }

    fn fail(&mut self, failure: McpError) -> (action: SymbolInfoAction)
        ensures
            final(self).stage() == SymbolInfoStage::Done,
            old(self).same_inquiry(*final(self)),
            action == SymbolInfoAction::Failure(failure),
    {
        proof {
            use_type_invariant(&*self);
        }
        self.stage = SymbolInfoStage::Done;
        SymbolInfoAction::Failure(failure)
    }

    fn turn_to(&mut self, k: usize) -> (action: SymbolInfoAction)
        requires
            k <= old(self).candidates().len(),
        ensures
            old(self).turns_to(
                *final(self),
                action,
                old(self).candidates(),
                k as int,
                old(self).results(),
            ),
    {
        proof {
            use_type_invariant(&*self);
        }
        if k >= self.candidates.len() {
            self.stage = SymbolInfoStage::Done;
            let mut done: Vec<String> = Vec::new();
            let mut i: usize = 0;
            while i < self.results.len()
                invariant
                    i <= self.results.len(),
                    done.len() == i,
                    forall|j: int| 0 <= j < i ==> (#[trigger] done@[j])@ == self.results@[j]@,
                decreases self.results.len() - i,
            {
                done.push(self.results[i].clone());
                i += 1;
            }
            proof {
                assert(texts(done@) =~= texts(self.results@));
            }
            return SymbolInfoAction::Success(done);
        }
        match path_to_uri(self.workspace.as_str(), self.file.as_str()) {
            Err(e) => {
                let mut chain: Vec<String> = Vec::new();
                chain.push(e.message());
                proof {
                    assert(seq!["create text document position params"@] + texts(chain@) =~= seq![
                        "create text document position params"@,
                        LocationError::InvalidUri.text(),
                    ]);
                }
                let failure = internal_with_context("create text document position params", &chain);
                self.stage = SymbolInfoStage::Done;
                SymbolInfoAction::Failure(failure)
            },
            Ok(uri) => {
                self.uri = uri;
                self.current = k;
                self.stage = SymbolInfoStage::AwaitingHover;
                let mut sections: Vec<String> = Vec::new();
                sections.push(self.candidates[k].header.clone());
                self.sections = sections;
                proof {
                    assert(self.sections() =~= seq![old(self).candidates()[k as int].header]);
                }
                SymbolInfoAction::RequestHover(self.position())
            },
        }
    }

    /// Whether `post` and `action` are what comes of the attempt to read the file.
    ///
    /// A file that is missing ends the inquiry with a text for the caller. The tokens of
    /// a file that was read are asked for, unless the file cannot be named to the server.
    pub open spec fn handles_file(
        &self,
        post: SymbolInfo,
        content: FileContent,
        action: SymbolInfoAction,
    ) -> bool {
        &&& self.same_inquiry(post)
        &&& match content {
            FileContent::Found(text) => if uri_too_long(self.uri()) || uri_path(self.uri())
                is None {
                &&& post.stage() == SymbolInfoStage::Done
                &&& fails(
                    action,
                    flattened(
                        seq![
                            "convert path to text document identifier"@,
                            LocationError::InvalidUri.text(),
                        ],
                    ),
                )
            } else {
                &&& post.stage() == SymbolInfoStage::AwaitingTokens
                &&& post.content() == text@
                &&& action matches SymbolInfoAction::RequestSemanticTokens { uri }
                &&& uri@ == self.uri()
            },
            FileContent::Missing => {
                &&& post.stage() == SymbolInfoStage::Done
                &&& action matches SymbolInfoAction::ToolError(text)
                &&& text@ == "file not found: "@ + self.file()
            },
            FileContent::Unreadable(chain) => {
                &&& post.stage() == SymbolInfoStage::Done
                &&& fails(action, flattened(seq!["read file"@] + texts(chain@)))
            },
        }
    }

    fn on_file(&mut self, content: FileContent) -> (action: SymbolInfoAction)
        requires
            old(self).stage() == SymbolInfoStage::ReadingFile,
        ensures
            old(self).handles_file(*final(self), content, action),
    {
        proof {
            use_type_invariant(&*self);
        }
        match content {
            FileContent::Missing => {
                self.stage = SymbolInfoStage::Done;
                let mut text = String::from_str("file not found: ");
                text.append(self.file.as_str());
                SymbolInfoAction::ToolError(text)
            },
            FileContent::Unreadable(chain) => {
                let failure = internal_with_context("read file", &chain);
                self.fail(failure)
            },
            FileContent::Found(text) => {
                match path_to_text_document_identifier(
                    self.workspace.as_str(),
                    self.file.as_str(),
                ) {
                    Err(e) => {
                        let mut chain: Vec<String> = Vec::new();
                        chain.push(e.message());
                        proof {
                            assert(seq!["convert path to text document identifier"@] + texts(
                                chain@,
                            ) =~= seq![
                                "convert path to text document identifier"@,
                                LocationError::InvalidUri.text(),
                            ]);
                        }
                        let failure = internal_with_context(
                            "convert path to text document identifier",
                            &chain,
                        );
                        self.fail(failure)
                    },
                    Ok(document) => {
                        self.content = text;
                        self.stage = SymbolInfoStage::AwaitingTokens;
                        SymbolInfoAction::RequestSemanticTokens { uri: document.uri }
                    },
                }
            },
        }
    }

    /// Whether `post` and `action` are what comes of the server's answer to the request
    /// for the file's tokens.
    ///
    /// Without tokens, whole and fitting the file, the inquiry fails. Else the tokens that
    /// answer the query become the candidates, and the inquiry turns to the first.
    pub open spec fn handles_tokens(
        &self,
        post: SymbolInfo,
        legend: &TokenLegend,
        reply: Reply<TokensResult>,
        action: SymbolInfoAction,
    ) -> bool {
        &&& self.same_inquiry(post)
        &&& match reply {
            Reply::Failed(chain) => {
                &&& post.stage() == SymbolInfoStage::Done
                &&& fails(action, flattened(seq!["SemanticTokensFullRequest"@] + texts(chain@)))
            },
            Reply::Null => {
                &&& post.stage() == SymbolInfoStage::Done
                &&& fails(action, "language server did not provide any semantic tokens"@)
            },
            Reply::Value(TokensResult::Partial) => {
                &&& post.stage() == SymbolInfoStage::Done
                &&& fails(action, "partial semantic token results are not supported"@)
            },
            Reply::Value(TokensResult::Tokens(tokens)) => {
                let bytes = vstd::utf8::encode_utf8(self.content());
                match first_fault(legend.types(), bytes, tokens@) {
                    Some(e) => {
                        &&& post.stage() == SymbolInfoStage::Done
                        &&& fails(action, flattened(seq!["decode semantic tokens"@, e.text()]))
                    },
                    None => self.turns_to(
                        post,
                        action,
                        candidates_of(
                            decoded_stream(legend.types(), legend.modifiers(), bytes, tokens@),
                            self.name(),
                            self.line(),
                            self.character(),
                            self.file(),
                        ),
                        0,
                        Seq::empty(),
                    ),
                }
            },
        }
    }

    fn on_tokens(&mut self, legend: &TokenLegend, reply: Reply<TokensResult>) -> (action:
        SymbolInfoAction)
        requires
            old(self).stage() == SymbolInfoStage::AwaitingTokens,
        ensures
            old(self).handles_tokens(*final(self), legend, reply, action),
    {
        let tokens = match reply {
            Reply::Failed(chain) => {
                let failure = internal_with_context("SemanticTokensFullRequest", &chain);
                return self.fail(failure);
            },
            Reply::Null => {
                return self.fail(
                    internal_error("language server did not provide any semantic tokens"),
                );
            },
            Reply::Value(TokensResult::Partial) => {
                return self.fail(
                    internal_error("partial semantic token results are not supported"),
                );
            },
            Reply::Value(TokensResult::Tokens(tokens)) => tokens,
        };
        let ghost stream = tokens@;
        let ghost bytes = vstd::utf8::encode_utf8(self.content@);
        let built = build_candidates(
            legend,
            self.content.as_str(),
            tokens,
            self.name.as_str(),
            self.line,
            self.character,
            self.file.as_str(),
            self.workspace.as_str(),
        );
        match built {
            Err(e) => {
                let mut chain: Vec<String> = Vec::new();
                chain.push(e.message());
                proof {
                    assert(seq!["decode semantic tokens"@] + texts(chain@) =~= seq![
                        "decode semantic tokens"@,
                        e.text(),
                    ]);
                }
                let failure = internal_with_context("decode semantic tokens", &chain);
                self.fail(failure)
            },
            Ok(candidates) => {
                proof {
                    use_type_invariant(&*self);
                }
                self.candidates = candidates;
                self.results = Vec::new();
                proof {
                    assert(self.results() =~= Seq::empty());
                }
                self.turn_to(0)
            },
        }
    }

    /// Whether `post` and `action` are what comes of the server's answer to the request
    /// for what it shows on hovering.
    ///
    /// A candidate for which the server shows nothing is passed over. Else what the
    /// server shows is written, and the server is asked for the declaration.
    pub open spec fn handles_hover(
        &self,
        post: SymbolInfo,
        reply: Reply<HoverContents>,
        action: SymbolInfoAction,
    ) -> bool {
        match reply {
            Reply::Failed(chain) => {
                &&& self.same_inquiry(post)
                &&& post.stage() == SymbolInfoStage::Done
                &&& fails(action, flattened(seq!["HoverRequest"@] + texts(chain@)))
            },
            Reply::Null => self.turns_to(
                post,
                action,
                self.candidates(),
                self.current() + 1,
                self.results(),
            ),
            Reply::Value(contents) => {
                &&& self.moves_to(
                    post,
                    SymbolInfoStage::AwaitingDeclaration,
                    self.sections() + hover_sections(contents),
                )
                &&& post.asks(action)
            },
        }
    }

    /// Whether `action` asks the server what the inquiry waits for, about the current
    /// candidate. References are asked for without the declaration.
    pub open spec fn asks(&self, action: SymbolInfoAction) -> bool {
        match self.stage() {
            SymbolInfoStage::AwaitingDeclaration => action matches SymbolInfoAction::RequestDeclaration(
                position,
            ) && self.at_current(position),
            SymbolInfoStage::AwaitingDefinition => action matches SymbolInfoAction::RequestDefinition(
                position,
            ) && self.at_current(position),
            SymbolInfoStage::AwaitingImplementation => action matches SymbolInfoAction::RequestImplementation(
                position,
            ) && self.at_current(position),
            SymbolInfoStage::AwaitingTypeDefinition => action matches SymbolInfoAction::RequestTypeDefinition(
                position,
            ) && self.at_current(position),
            SymbolInfoStage::AwaitingReferences => action matches SymbolInfoAction::RequestReferences {
                position,
                include_declaration,
            } && self.at_current(position) && !include_declaration,
            _ => false,
        }
    }

    fn ask(&mut self, stage: SymbolInfoStage) -> (action: SymbolInfoAction)
        requires
            old(self).asking(),
            stage != SymbolInfoStage::AwaitingHover,
            stage != SymbolInfoStage::ReadingFile,
            stage != SymbolInfoStage::AwaitingTokens,
            stage != SymbolInfoStage::Done,
        ensures
            old(self).moves_to(*final(self), stage, old(self).sections()),
            final(self).asks(action),
    {
        proof {
            use_type_invariant(&*self);
        }
        self.stage = stage;
        let position = self.position();
        match stage {
            SymbolInfoStage::AwaitingDeclaration => SymbolInfoAction::RequestDeclaration(position),
            SymbolInfoStage::AwaitingDefinition => SymbolInfoAction::RequestDefinition(position),
            SymbolInfoStage::AwaitingImplementation => SymbolInfoAction::RequestImplementation(
                position,
            ),
            SymbolInfoStage::AwaitingTypeDefinition => SymbolInfoAction::RequestTypeDefinition(
                position,
            ),
            _ => SymbolInfoAction::RequestReferences { position, include_declaration: false },
        }
    }

    fn write(&mut self, section: String)
        ensures
            old(self).moves_to(
                *final(self),
                old(self).stage(),
                old(self).sections().push(section@),
            ),
    {
        proof {
            use_type_invariant(&*self);
        }
        let ghost before = texts(self.sections@);
        let mut sections: Vec<String> = Vec::new();
        core::mem::swap(&mut self.sections, &mut sections);
        sections.push(section);
        self.sections = sections;
        proof {
            assert(texts(self.sections@) =~= before.push(section@));
        }
    }

    fn on_hover(&mut self, reply: Reply<HoverContents>) -> (action: SymbolInfoAction)
        requires
            old(self).stage() == SymbolInfoStage::AwaitingHover,
        ensures
            old(self).handles_hover(*final(self), reply, action),
    {
        match reply {
            Reply::Failed(chain) => {
                let failure = internal_with_context("HoverRequest", &chain);
                self.fail(failure)
            },
            Reply::Null => {
                proof {
                    use_type_invariant(&*self);
                }
                assert(self.current < self.candidates.len());
                let next = self.current + 1;
                self.turn_to(next)
            },
            Reply::Value(contents) => {
                let written = format_hover(contents);
                let ghost before = self.sections();
                let mut i: usize = 0;
                while i < written.len()
                    invariant
                        i <= written.len(),
                                    old(self).moves_to(
                            *self,
                            SymbolInfoStage::AwaitingHover,
                            before + texts(written@).take(i as int),
                        ),
                    decreases written.len() - i,
                {
                    let ghost so_far = self.sections();
                    self.write(written[i].clone());
                    proof {
                        assert(so_far.push(written@[i as int]@) =~= before + texts(written@).take(
                            i + 1,
                        ));
                    }
                    i += 1;
                }
                proof {
                    assert(texts(written@).take(written.len() as int) =~= texts(written@));
                }
                self.ask(SymbolInfoStage::AwaitingDeclaration)
            },
        }
    }

    /// The title of the section that is written in answer to what the inquiry waits for.
    pub open spec fn title(stage: SymbolInfoStage) -> Seq<char> {
        match stage {
            SymbolInfoStage::AwaitingDeclaration => "Declarations:"@,
            SymbolInfoStage::AwaitingDefinition => "Definitions:"@,
            SymbolInfoStage::AwaitingImplementation => "Implementations:"@,
            SymbolInfoStage::AwaitingTypeDefinition => "Type Definitions:"@,
            _ => "References:"@,
        }
    }

    /// The word that names a failed request in the failure's message.
    pub open spec fn request_name(stage: SymbolInfoStage) -> Seq<char> {
        match stage {
            SymbolInfoStage::AwaitingDeclaration => "GotoDeclaration"@,
            SymbolInfoStage::AwaitingDefinition => "GotoDefinition"@,
            SymbolInfoStage::AwaitingImplementation => "GotoImplementation"@,
            SymbolInfoStage::AwaitingTypeDefinition => "GotoTypeDefinition"@,
            _ => "References"@,
        }
    }

    /// What the inquiry waits for once the answer to `stage` is in.
    pub open spec fn stage_after(stage: SymbolInfoStage) -> SymbolInfoStage {
        match stage {
            SymbolInfoStage::AwaitingDeclaration => SymbolInfoStage::AwaitingDefinition,
            SymbolInfoStage::AwaitingDefinition => SymbolInfoStage::AwaitingImplementation,
            SymbolInfoStage::AwaitingImplementation => SymbolInfoStage::AwaitingTypeDefinition,
            _ => SymbolInfoStage::AwaitingReferences,
        }
    }

    /// Whether the inquiry waits for places: of the declaration, the definition, the
    /// implementation or the definition of the type.
    pub open spec fn awaits_places(&self) -> bool {
        match self.stage() {
            SymbolInfoStage::AwaitingDeclaration => true,
            SymbolInfoStage::AwaitingDefinition => true,
            SymbolInfoStage::AwaitingImplementation => true,
            SymbolInfoStage::AwaitingTypeDefinition => true,
            _ => false,
        }
    }

    /// Whether `post` and `action` are what comes of the server's answer to a request
    /// for places.
    ///
    /// Where the server has places, a section with the request's title lists them; where
    /// it has nothing to say, nothing is written. Then the next question is asked.
    pub open spec fn handles_places(
        &self,
        post: SymbolInfo,
        reply: Reply<LocationVariants>,
        action: SymbolInfoAction,
    ) -> bool {
        match reply {
            Reply::Failed(chain) => {
                &&& self.same_inquiry(post)
                &&& post.stage() == SymbolInfoStage::Done
                &&& fails(
                    action,
                    flattened(seq![Self::request_name(self.stage())] + texts(chain@)),
                )
            },
            Reply::Null => {
                &&& self.moves_to(post, Self::stage_after(self.stage()), self.sections())
                &&& post.asks(action)
            },
            Reply::Value(places) => match formatted(places@, self.workspace(), self.beyond()) {
                Err(e) => {
                    &&& self.same_inquiry(post)
                    &&& post.stage() == SymbolInfoStage::Done
                    &&& fails(action, flattened(seq!["format location variants"@, e.text()]))
                },
                Ok(body) => {
                    &&& self.moves_to(
                        post,
                        Self::stage_after(self.stage()),
                        self.sections().push(titled(Self::title(self.stage()), body)),
                    )
                    &&& post.asks(action)
                },
            },
        }
    }

    fn on_places(&mut self, reply: Reply<LocationVariants>) -> (action: SymbolInfoAction)
        requires
            old(self).awaits_places(),
        ensures
            old(self).handles_places(*final(self), reply, action),
    {
        let (title, name, next) = match self.stage {
            SymbolInfoStage::AwaitingDeclaration => (
                "Declarations:",
                "GotoDeclaration",
                SymbolInfoStage::AwaitingDefinition,
            ),
            SymbolInfoStage::AwaitingDefinition => (
                "Definitions:",
                "GotoDefinition",
                SymbolInfoStage::AwaitingImplementation,
            ),
            SymbolInfoStage::AwaitingImplementation => (
                "Implementations:",
                "GotoImplementation",
                SymbolInfoStage::AwaitingTypeDefinition,
            ),
            _ => ("Type Definitions:", "GotoTypeDefinition", SymbolInfoStage::AwaitingReferences),
        };
        match reply {
            Reply::Failed(chain) => {
                let failure = internal_with_context(name, &chain);
                self.fail(failure)
            },
            Reply::Null => self.ask(next),
            Reply::Value(places) => {
                match places.format(self.workspace.as_str(), self.beyond) {
                    Err(e) => {
                        let mut chain: Vec<String> = Vec::new();
                        chain.push(e.message());
                        proof {
                            assert(seq!["format location variants"@] + texts(chain@) =~= seq![
                                "format location variants"@,
                                e.text(),
                            ]);
                        }
                        let failure = internal_with_context("format location variants", &chain);
                        self.fail(failure)
                    },
                    Ok(body) => {
                        self.write(format_titled(title, body.as_str()));
                        self.ask(next)
                    },
                }
            },
        }
    }

    /// Whether `post` and `action` are what comes of the server's answer to the request
    /// for references.
    ///
    /// Where the server has references, a section lists them. The sections of the
    /// candidate are then put together, with a break between each two, and the inquiry
    /// turns to the next candidate.
    pub open spec fn handles_references(
        &self,
        post: SymbolInfo,
        reply: Reply<Vec<Location>>,
        action: SymbolInfoAction,
    ) -> bool {
        match reply {
            Reply::Failed(chain) => {
                &&& self.same_inquiry(post)
                &&& post.stage() == SymbolInfoStage::Done
                &&& fails(action, flattened(seq!["References"@] + texts(chain@)))
            },
            Reply::Null => self.turns_to(
                post,
                action,
                self.candidates(),
                self.current() + 1,
                self.results().push(joined(self.sections(), section_break())),
            ),
            Reply::Value(locations) => self.turns_to(
                post,
                action,
                self.candidates(),
                self.current() + 1,
                self.results().push(
                    joined(
                        self.sections().push(
                            titled(
                                "References:"@,
                                references_body(
                                    locations@.map_values(|l: Location| l@),
                                    self.workspace(),
                                    self.beyond(),
                                ),
                            ),
                        ),
                        section_break(),
                    ),
                ),
            ),
        }
    }

    fn on_references(&mut self, reply: Reply<Vec<Location>>) -> (action: SymbolInfoAction)
        requires
            old(self).stage() == SymbolInfoStage::AwaitingReferences,
        ensures
            old(self).handles_references(*final(self), reply, action),
    {
        match reply {
            Reply::Failed(chain) => {
                let failure = internal_with_context("References", &chain);
                return self.fail(failure);
            },
            Reply::Null => {},
            Reply::Value(locations) => {
                let body = format_references(&locations, self.workspace.as_str(), self.beyond);
                self.write(format_titled("References:", body.as_str()));
            },
        }
        let text = join(&self.sections, "\n\n---\n\n");
        proof {
            use_type_invariant(&*self);
        }
        let ghost before = texts(self.results@);
        let mut results: Vec<String> = Vec::new();
        core::mem::swap(&mut self.results, &mut results);
        results.push(text);
        self.results = results;
        proof {
            assert(texts(self.results@) =~= before.push(text@));
        }
        assert(self.current < self.candidates.len());
        let next = self.current + 1;
        self.turn_to(next)
    }

    /// Takes in what happened and says what is to be done next.
    ///
    /// What the inquiry makes of the event it waits for is said by `handles_file`,
    /// `handles_tokens`, `handles_hover`, `handles_places` and `handles_references`. An
    /// event that the inquiry does not wait for fails it. While the server is asked about
    /// a candidate the file can be named to it, so that to turn to the next candidate
    /// never fails.
    pub fn on_event(&mut self, legend: &TokenLegend, event: SymbolInfoEvent) -> (action:
        SymbolInfoAction)
        ensures
            old(self).asking() ==> old(self).uri_is_known(),
            final(self).asking() ==> final(self).uri_is_known(),
            match event {
                SymbolInfoEvent::File(content) if old(self).stage()
                    == SymbolInfoStage::ReadingFile => old(self).handles_file(
                    *final(self),
                    content,
                    action,
                ),
                SymbolInfoEvent::SemanticTokens(reply) if old(self).stage()
                    == SymbolInfoStage::AwaitingTokens => old(self).handles_tokens(
                    *final(self),
                    legend,
                    reply,
                    action,
                ),
                SymbolInfoEvent::Hover(reply) if old(self).stage()
                    == SymbolInfoStage::AwaitingHover => old(self).handles_hover(
                    *final(self),
                    reply,
                    action,
                ),
                SymbolInfoEvent::Locations(reply) if old(self).awaits_places() => old(
                    self,
                ).handles_places(*final(self), reply, action),
                SymbolInfoEvent::References(reply) if old(self).stage()
                    == SymbolInfoStage::AwaitingReferences => old(self).handles_references(
                    *final(self),
                    reply,
                    action,
                ),
                _ => {
                    &&& old(self).same_inquiry(*final(self))
                    &&& final(self).stage() == SymbolInfoStage::Done
                    &&& fails(action, "unexpected event"@)
                },
            },
    {
        proof {
            use_type_invariant(&*self);
        }
        let action = match event {
            SymbolInfoEvent::File(content) => {
                match self.stage {
                    SymbolInfoStage::ReadingFile => self.on_file(content),
                    _ => self.fail(internal_error("unexpected event")),
                }
            },
            SymbolInfoEvent::SemanticTokens(reply) => {
                match self.stage {
                    SymbolInfoStage::AwaitingTokens => self.on_tokens(legend, reply),
                    _ => self.fail(internal_error("unexpected event")),
                }
            },
            SymbolInfoEvent::Hover(reply) => {
                match self.stage {
                    SymbolInfoStage::AwaitingHover => self.on_hover(reply),
                    _ => self.fail(internal_error("unexpected event")),
                }
            },
            SymbolInfoEvent::Locations(reply) => {
                match self.stage {
                    SymbolInfoStage::AwaitingDeclaration => self.on_places(reply),
                    SymbolInfoStage::AwaitingDefinition => self.on_places(reply),
                    SymbolInfoStage::AwaitingImplementation => self.on_places(reply),
                    SymbolInfoStage::AwaitingTypeDefinition => self.on_places(reply),
                    _ => self.fail(internal_error("unexpected event")),
                }
            },
            SymbolInfoEvent::References(reply) => {
                match self.stage {
                    SymbolInfoStage::AwaitingReferences => self.on_references(reply),
                    _ => self.fail(internal_error("unexpected event")),
                }
            },
        };
        proof {
            use_type_invariant(&*self);
        }
        action
    }
}

/// Finds the tokens of a file that answer a query and makes candidates of them.
///
/// Fails where the stream of tokens does not fit the file and the legend. Else the
/// candidates are the tokens with the text `name` nearest to the hinted place, each with
/// the section that opens its answer.
pub fn build_candidates(
    legend: &TokenLegend,
    content: &str,
    tokens: Vec<SemanticToken>,
    name: &str,
    line: Option<u32>,
    character: Option<u32>,
    file: &str,
    workspace: &str,
) -> (res: Result<Vec<Candidate>, DecodeError>)
    ensures
        first_fault(legend.types(), content.spec_bytes(), tokens@) == match res {
            Ok(_) => None,
            Err(e) => Some(e),
        },
        match res {
            Ok(candidates) => {
                &&& candidates@.map_values(|c: Candidate| c@) == candidates_of(
                    decoded_stream(
                        legend.types(),
                        legend.modifiers(),
                        content.spec_bytes(),
                        tokens@,
                    ),
                    name@,
                    line,
                    character,
                    file@,
                )
                &&& forall|k: int|
                    0 <= k < candidates@.len() ==> (#[trigger] candidates@[k])@.line >= 1
                        && candidates@[k]@.character >= 1
            },
            Err(_) => true,
        },
{
    let doc = match legend.decode(content, tokens) {
        Ok(doc) => doc,
        Err(e) => {
            return Err(e);
        },
    };
    let found = doc.query(name, line, character);
    let ghost views = found@.map_values(|t: &Token| t@);
    let mut candidates: Vec<Candidate> = Vec::new();
    let mut i: usize = 0;
    while i < found.len()
        invariant
            i <= found.len(),
            views == found@.map_values(|t: &Token| t@),
            candidates.len() == i,
            forall|k: int| 0 <= k < i ==> (#[trigger] candidates@[k])@ == candidate_of(views[k], file@),
            forall|k: int|
                0 <= k < i ==> (#[trigger] candidates@[k])@.line >= 1 && candidates@[k]@.character
                    >= 1,
        decreases found.len() - i,
    {
        let token = found[i];
        assert(token@ == views[i as int]);
        let place = token.location(String::from_str(file), String::from_str(workspace));
        let modifiers = token.token_modifers().iter();
        let mut names: Vec<String> = Vec::new();
        let mut j: usize = 0;
        while j < modifiers.len()
            invariant
                j <= modifiers.len(),
                names.len() == j,
                forall|k: int| 0 <= k < j ==> (#[trigger] names@[k])@ == modifiers@[k]@,
            decreases modifiers.len() - j,
        {
            names.push(modifiers[j].to_string());
            j += 1;
        }
        proof {
            assert(texts(names@) =~= modifiers@.map_values(
                |m: &crate::tokens::TokenModifier| m@,
            ));
        }
        let header = format_token_section(
            place.to_json().as_str(),
            token.token_type().as_str(),
            &names,
        );
        candidates.push(Candidate { header, line: token.line(), character: token.character() });
        i += 1;
    }
    proof {
        assert(candidates@.map_values(|c: Candidate| c@) =~= views.map_values(
            |t: TokenView| candidate_of(t, file@),
        ));
    }
    Ok(candidates)
}

} // verus!
