//! Finding symbols: which of a server's symbols answer a query, and how they are shown.

use crate::error::{
    flattened, format_error_chain, internal_error, internal_with_context, required, ErrorKind,
    McpError,
};
use crate::location::{
    located, path_to_uri, uri_path, uri_text, uri_too_long, Location, LocationError, LocationView,
    McpLocation,
};
use crate::search::SearchMode;
use crate::text::{opt_text, signed_decimal, texts};
use vstd::prelude::*;
use vstd::string::*;

verus! {

/// The name of a kind of symbol: how the protocol spells the kind with that number, in
/// one word, and `SymbolKind(<number>)` for a number that the protocol does not know.
pub open spec fn symbol_kind_label(code: i32) -> Seq<char> {
    if code == 1 {
        "File"@
    } else if code == 2 {
        "Module"@
    } else if code == 3 {
        "Namespace"@
    } else if code == 4 {
        "Package"@
    } else if code == 5 {
        "Class"@
    } else if code == 6 {
        "Method"@
    } else if code == 7 {
        "Property"@
    } else if code == 8 {
        "Field"@
    } else if code == 9 {
        "Constructor"@
    } else if code == 10 {
        "Enum"@
    } else if code == 11 {
        "Interface"@
    } else if code == 12 {
        "Function"@
    } else if code == 13 {
        "Variable"@
    } else if code == 14 {
        "Constant"@
    } else if code == 15 {
        "String"@
    } else if code == 16 {
        "Number"@
    } else if code == 17 {
        "Boolean"@
    } else if code == 18 {
        "Array"@
    } else if code == 19 {
        "Object"@
    } else if code == 20 {
        "Key"@
    } else if code == 21 {
        "Null"@
    } else if code == 22 {
        "EnumMember"@
    } else if code == 23 {
        "Struct"@
    } else if code == 24 {
        "Event"@
    } else if code == 25 {
        "Operator"@
    } else if code == 26 {
        "TypeParameter"@
    } else {
        "SymbolKind("@ + signed_decimal(code as int) + ")"@
    }
}

/// Makes the `lsp_types::SymbolKind` with the given number, by `serde_json::from_value`,
/// and formats it with its `Debug` implementation.
///
/// The contract claims what that implementation writes: for each of the kinds that the
/// crate names, the name with its words put together and capitalised, and for any other
/// number the type's name with the number in brackets.
#[verifier::external_body]
fn kind_label(code: i32) -> (res: String)
    ensures
        res@ == symbol_kind_label(code),
{
    match serde_json::from_value::<lsp_types::SymbolKind>(serde_json::Value::from(code)) {
        Ok(kind) => format!("{kind:?}"),
        Err(_) => String::new(),
    }
}

/// The number of the tag that marks a symbol as deprecated.
pub const SYMBOL_TAG_DEPRECATED: i32 = 1;

/// What a server says of a symbol.
#[derive(Debug, Clone)]
pub struct SymbolInformation {
    pub name: String,
    /// The number of the symbol's kind.
    pub kind: i32,
    /// The numbers of the symbol's tags.
    pub tags: Option<Vec<i32>>,
    pub location: Location,
}

/// What a `SymbolInformation` holds.
pub ghost struct SymbolView {
    pub name: Seq<char>,
    pub kind: i32,
    pub tags: Option<Seq<i32>>,
    pub location: LocationView,
}

impl View for SymbolInformation {
    type V = SymbolView;

    open spec fn view(&self) -> SymbolView {
        SymbolView {
            name: self.name@,
            kind: self.kind,
            tags: match self.tags {
                Some(tags) => Some(tags@),
                None => None,
            },
            location: self.location@,
        }
    }
}

/// A symbol as a tool's answer shows it.
#[derive(Debug, Clone, PartialEq, Eq)]
pub struct SymbolResult {
    pub name: String,
    pub kind: String,
    pub deprecated: bool,
    pub file: String,
    pub line: u32,
    pub character: u32,
}

/// What a `SymbolResult` holds.
pub ghost struct SymbolResultView {
    pub name: Seq<char>,
    pub kind: Seq<char>,
    pub deprecated: bool,
    pub file: Seq<char>,
    pub line: int,
    pub character: int,
}

impl View for SymbolResult {
    type V = SymbolResultView;

    open spec fn view(&self) -> SymbolResultView {
        SymbolResultView {
            name: self.name@,
            kind: self.kind@,
            deprecated: self.deprecated,
            file: self.file@,
            line: self.line as int,
            character: self.character as int,
        }
    }
}

/// The views of a list of results.
pub open spec fn result_views(rows: Seq<SymbolResult>) -> Seq<SymbolResultView> {
    rows.map_values(|r: SymbolResult| r@)
}

/// The views of a list of symbols.
pub open spec fn symbol_views(symbols: Seq<SymbolInformation>) -> Seq<SymbolView> {
    symbols.map_values(|s: SymbolInformation| s@)
}

/// Whether the tags mark a symbol as deprecated.
pub open spec fn marked_deprecated(tags: Option<Seq<i32>>) -> bool {
    match tags {
        Some(tags) => tags.contains(SYMBOL_TAG_DEPRECATED),
        None => false,
    }
}

/// Whether a symbol's name answers the query. Without a query every name does.
pub open spec fn name_passes(name: Seq<char>, query: Option<Seq<char>>, mode: SearchMode) -> bool {
    match query {
        Some(query) => mode.matches(query, name),
        None => true,
    }
}

/// How a symbol is shown, if at all: its place decides, see `located`.
pub open spec fn shown_symbol(
    symbol: SymbolView,
    workspace: Seq<char>,
    workspace_and_dependencies: bool,
) -> Result<Option<SymbolResultView>, LocationError> {
    match located(symbol.location, workspace, workspace_and_dependencies) {
        Err(e) => Err(e),
        Ok(None) => Ok(None),
        Ok(Some(place)) => Ok(
            Some(
                SymbolResultView {
                    name: symbol.name,
                    kind: symbol_kind_label(symbol.kind),
                    deprecated: marked_deprecated(symbol.tags),
                    file: place.file,
                    line: place.line,
                    character: place.character,
                },
            ),
        ),
    }
}

/// The symbols that answer a query, as they are shown, in the server's order.
///
/// A symbol is held against the query by its name. Of those that pass, the ones outside
/// the workspace are left out unless the search reaches beyond it. The first symbol that
/// passes and cannot be shown fails the whole.
pub open spec fn selected(
    symbols: Seq<SymbolView>,
    query: Option<Seq<char>>,
    mode: SearchMode,
    workspace: Seq<char>,
    workspace_and_dependencies: bool,
) -> Result<Seq<SymbolResultView>, LocationError>
    decreases symbols.len(),
{
    if symbols.len() == 0 {
        Ok(Seq::empty())
    } else {
        match selected(symbols.drop_last(), query, mode, workspace, workspace_and_dependencies) {
            Err(e) => Err(e),
            Ok(rows) => if !name_passes(symbols.last().name, query, mode) {
                Ok(rows)
            } else {
                match shown_symbol(symbols.last(), workspace, workspace_and_dependencies) {
                    Err(e) => Err(e),
                    Ok(None) => Ok(rows),
                    Ok(Some(row)) => Ok(rows.push(row)),
                }
            },
        }
    }
}

proof fn lemma_selected_error_stays(
    symbols: Seq<SymbolView>,
    n: int,
    query: Option<Seq<char>>,
    mode: SearchMode,
    workspace: Seq<char>,
    workspace_and_dependencies: bool,
)
    requires
        0 <= n <= symbols.len(),
        selected(symbols.take(n), query, mode, workspace, workspace_and_dependencies) is Err,
    ensures
        selected(symbols, query, mode, workspace, workspace_and_dependencies) == selected(
            symbols.take(n),
            query,
            mode,
            workspace,
            workspace_and_dependencies,
        ),
    decreases symbols.len() - n,
{
    if n < symbols.len() {
        assert(symbols.take(n + 1).drop_last() =~= symbols.take(n));
        lemma_selected_error_stays(
            symbols,
            n + 1,
            query,
            mode,
            workspace,
            workspace_and_dependencies,
        );
    } else {
        assert(symbols.take(n) =~= symbols);
    }
}

/// The message with which a symbol that cannot be shown fails a search.
pub open spec fn location_failure(e: LocationError) -> Seq<char> {
    flattened(seq!["create MCP location"@, e.text()])
}

fn holds_deprecated_tag(tags: &Vec<i32>) -> (res: bool)
    ensures
        res == tags@.contains(SYMBOL_TAG_DEPRECATED),
{
    let mut i: usize = 0;
    while i < tags.len()
        invariant
            i <= tags.len(),
            forall|k: int| 0 <= k < i ==> tags@[k] != SYMBOL_TAG_DEPRECATED,
        decreases tags.len() - i,
    {
        if tags[i] == SYMBOL_TAG_DEPRECATED {
            assert(tags@[i as int] == SYMBOL_TAG_DEPRECATED);
            return true;
        }
        i += 1;
    }
    false
}

fn has_deprecated_tag(tags: &Option<Vec<i32>>) -> (res: bool)
    ensures
        res == marked_deprecated(
            match *tags {
                Some(tags) => Some(tags@),
                None => None,
            },
        ),
{
    match tags {
        None => false,
        Some(tags) => holds_deprecated_tag(tags),
    }
}

/// The text of a query, if there is one.
pub open spec fn query_text(query: Option<&str>) -> Option<Seq<char>> {
    match query {
        Some(query) => Some(query@),
        None => None,
    }
}

/// Picks the symbols that answer a query and shows them: see `selected`.
pub fn filter_symbol_informations(
    symbol_informations: &Vec<SymbolInformation>,
    query: Option<&str>,
    mode: SearchMode,
    workspace: &str,
    workspace_and_dependencies: bool,
) -> (res: Result<Vec<SymbolResult>, McpError>)
    ensures
        match res {
            Ok(rows) => selected(
                symbol_views(symbol_informations@),
                query_text(query),
                mode,
                workspace@,
                workspace_and_dependencies,
            ) == Ok::<Seq<SymbolResultView>, LocationError>(result_views(rows@)),
            Err(failure) => {
                &&& selected(
                    symbol_views(symbol_informations@),
                    query_text(query),
                    mode,
                    workspace@,
                    workspace_and_dependencies,
                ) matches Err(e)
                &&& failure.kind == ErrorKind::InternalError
                &&& failure.message@ == location_failure(e)
            },
        },
{
    let ghost symbols = symbol_views(symbol_informations@);
    let ghost wanted = query_text(query);
    let mut rows: Vec<SymbolResult> = Vec::new();
    let mut i: usize = 0;
    proof {
        assert(result_views(rows@) =~= Seq::empty());
    }
    while i < symbol_informations.len()
        invariant
            i <= symbol_informations.len(),
            symbols == symbol_views(symbol_informations@),
            wanted == query_text(query),
            selected(symbols.take(i as int), wanted, mode, workspace@, workspace_and_dependencies)
                == Ok::<Seq<SymbolResultView>, LocationError>(result_views(rows@)),
        decreases symbol_informations.len() - i,
    {
        let si = &symbol_informations[i];
        proof {
            assert(symbols.take(i + 1).drop_last() =~= symbols.take(i as int));
            assert(symbols.take(i + 1).last() == si@);
        }
        let passes = match query {
            Some(query) => mode.check(query, si.name.as_str()),
            None => true,
        };
        if passes {
            let location = Location {
                uri: si.location.uri.clone(),
                line: si.location.line,
                character: si.location.character,
            };
            match McpLocation::try_new(location, workspace, workspace_and_dependencies) {
                Err(e) => {
                    proof {
                        lemma_selected_error_stays(
                            symbols,
                            i + 1,
                            wanted,
                            mode,
                            workspace@,
                            workspace_and_dependencies,
                        );
                    }
                    let mut chain: Vec<String> = Vec::new();
                    chain.push(String::from_str("create MCP location"));
                    chain.push(e.message());
                    proof {
                        assert(texts(chain@) =~= seq!["create MCP location"@, e.text()]);
                    }
                    return Err(
                        McpError {
                            kind: ErrorKind::InternalError,
                            message: format_error_chain(&chain),
                        },
                    );
                },
                Ok(None) => {},
                Ok(Some(place)) => {
                    let ghost before = result_views(rows@);
                    let row = SymbolResult {
                        name: si.name.clone(),
                        kind: kind_label(si.kind),
                        deprecated: has_deprecated_tag(&si.tags),
                        file: String::from_str(place.file()),
                        line: place.line(),
                        character: place.character(),
                    };
                    rows.push(row);
                    proof {
                        assert(result_views(rows@) =~= before.push(row@));
                    }
                },
            }
        }
        i += 1;
    }
    proof {
        assert(symbols.take(symbol_informations.len() as int) =~= symbols);
    }
    Ok(rows)
}

/// What a search comes to.
///
/// The search reaches beyond the workspace where the caller asked for that. Where the
/// caller did not say and nothing was found, the same symbols are searched again, now
/// beyond the workspace. Where the caller said no, nothing is searched again.
pub open spec fn found(
    symbols: Seq<SymbolView>,
    query: Option<Seq<char>>,
    mode: SearchMode,
    workspace: Seq<char>,
    workspace_and_dependencies: Option<bool>,
) -> Result<Seq<SymbolResultView>, LocationError> {
    match selected(symbols, query, mode, workspace, workspace_and_dependencies == Some(true)) {
        Err(e) => Err(e),
        Ok(rows) => if rows.len() == 0 && workspace_and_dependencies is None {
            selected(symbols, query, mode, workspace, true)
        } else {
            Ok(rows)
        },
    }
}

/// Where a search inside the workspace finds nothing, a caller who did not say how far
/// to search gets what the search beyond the workspace finds, and a caller who said to
/// stay inside gets nothing, whatever lies beyond.
pub proof fn lemma_auto_expand(
    symbols: Seq<SymbolView>,
    query: Option<Seq<char>>,
    mode: SearchMode,
    workspace: Seq<char>,
)
    requires
        selected(symbols, query, mode, workspace, false) == Ok::<
            Seq<SymbolResultView>,
            LocationError,
        >(Seq::empty()),
    ensures
        found(symbols, query, mode, workspace, None) == selected(
            symbols,
            query,
            mode,
            workspace,
            true,
        ),
        found(symbols, query, mode, workspace, Some(false)) == Ok::<
            Seq<SymbolResultView>,
            LocationError,
        >(Seq::empty()),
{
}

/// Searches the symbols of a server for a query, inside the workspace or beyond: see
/// `found`.
pub fn find_symbols(
    symbol_informations: &Vec<SymbolInformation>,
    query: Option<&str>,
    mode: SearchMode,
    workspace: &str,
    workspace_and_dependencies: Option<bool>,
) -> (res: Result<Vec<SymbolResult>, McpError>)
    ensures
        match res {
            Ok(rows) => found(
                symbol_views(symbol_informations@),
                query_text(query),
                mode,
                workspace@,
                workspace_and_dependencies,
            ) == Ok::<Seq<SymbolResultView>, LocationError>(result_views(rows@)),
            Err(failure) => {
                &&& found(
                    symbol_views(symbol_informations@),
                    query_text(query),
                    mode,
                    workspace@,
                    workspace_and_dependencies,
                ) matches Err(e)
                &&& failure.kind == ErrorKind::InternalError
                &&& failure.message@ == location_failure(e)
            },
        },
{
    let beyond = match workspace_and_dependencies {
        Some(beyond) => beyond,
        None => false,
    };
    let rows = match filter_symbol_informations(symbol_informations, query, mode, workspace, beyond) {
        Ok(rows) => rows,
        Err(failure) => {
            return Err(failure);
        },
    };
    if rows.len() == 0 && workspace_and_dependencies.is_none() {
        filter_symbol_informations(symbol_informations, query, mode, workspace, true)
    } else {
        Ok(rows)
    }
}

/// A text that is not empty, if there is one.
pub open spec fn nonempty(s: Option<Seq<char>>) -> Option<Seq<char>> {
    match s {
        Some(text) => if text.len() == 0 {
            None
        } else {
            Some(text)
        },
        None => None,
    }
}

/// Takes an empty text for none at all.
pub fn empty_string_to_none(s: Option<String>) -> (res: Option<String>)
    ensures
        opt_text(res) == nonempty(opt_text(s)),
{
    match s {
        Some(text) => if text.as_str().is_empty() {
            None
        } else {
            Some(text)
        },
        None => None,
    }
}

/// What a caller of `find_symbol` hands in.
#[derive(Debug, Clone)]
pub struct FindSymbolRequest {
    /// The symbol that is looked for; required where no file is given.
    pub query: Option<String>,
    /// The file to search; else the whole workspace is searched.
    pub file: Option<String>,
    /// Whether to search fuzzily.
    pub fuzzy: Option<bool>,
    /// Whether to search beyond the workspace.
    pub workspace_and_dependencies: Option<bool>,
}

/// How far a server is asked to search for symbols.
#[derive(Debug, Clone, Copy, PartialEq, Eq, Structural)]
pub enum SearchScope {
    Workspace,
    WorkspaceAndDependencies,
}

/// What became of the attempt to read a file.
#[derive(Debug)]
pub enum FileState {
    Exists,
    Missing,
    /// The file is there and cannot be read: the error and its causes, outermost first.
    Unreadable(Vec<String>),
}

/// How a server answers a request for symbols.
#[derive(Debug)]
pub enum SymbolResponse {
    /// The server has nothing to say.
    Null,
    /// A flat list of symbols.
    Flat(Vec<SymbolInformation>),
    /// A tree of symbols.
    Nested,
    /// The request failed: the error and its causes, outermost first.
    Failed(Vec<String>),
}

/// What happened while a search for symbols was under way.
#[derive(Debug)]
pub enum FindSymbolEvent {
    File(FileState),
    Symbols(SymbolResponse),
}

/// What is to be done next for a search for symbols. The last three end the search.
#[derive(Debug)]
pub enum FindSymbolAction {
    /// Try to read the file, and report what became of it.
    CheckFile { file: String },
    /// Ask the server for the symbols of the document, and report its answer.
    RequestDocumentSymbols { uri: String },
    /// Ask the server for the symbols of the workspace, and report its answer.
    RequestWorkspaceSymbols { query: String, scope: SearchScope },
    /// Answer the caller with the symbols found.
    Success(Vec<SymbolResult>),
    /// Answer the caller with a text that is marked as an error.
    ToolError(String),
    /// Fail the call.
    Failure(McpError),
}

/// How far a search for symbols has come.
#[derive(Debug, Clone, Copy, PartialEq, Eq, Structural)]
pub enum FindSymbolStage {
    CheckingFile,
    AwaitingDocumentSymbols,
    AwaitingWorkspaceSymbols,
    Done,
}

/// One search for symbols, from the caller's request to the answer.
///
/// The search says what is to be done next, the caller of this library does it and
/// reports what happened, until the search ends with an answer.
#[derive(Debug)]
pub struct FindSymbol {
    workspace: String,
    query: Option<String>,
    file: Option<String>,
    mode: SearchMode,
    scope: Option<bool>,
    stage: FindSymbolStage,
}

/// What is done wherever a search for symbols ends in failure.
pub open spec fn is_internal_failure(action: FindSymbolAction, message: Seq<char>) -> bool {
    action matches FindSymbolAction::Failure(failure) && failure.kind == ErrorKind::InternalError
        && failure.message@ == message
}

impl FindSymbol {
    #[verifier::type_invariant]
    spec fn file_is_known(&self) -> bool {
        self.stage == FindSymbolStage::CheckingFile ==> self.file is Some
    }

    /// The workspace that is searched.
    pub closed spec fn workspace(&self) -> Seq<char> {
        self.workspace@
    }

    /// The query, if there is one.
    pub closed spec fn query(&self) -> Option<Seq<char>> {
        opt_text(self.query)
    }

    /// The file that is searched, where it is not the whole workspace.
    pub closed spec fn file(&self) -> Option<Seq<char>> {
        opt_text(self.file)
    }

    /// How names are held against the query.
    pub closed spec fn mode(&self) -> SearchMode {
        self.mode
    }

    /// Whether the caller asked to search beyond the workspace, if the caller said.
    pub closed spec fn scope(&self) -> Option<bool> {
        self.scope
    }

    /// How far the search has come.
    pub closed spec fn stage(&self) -> FindSymbolStage {
        self.stage
    }

    /// Whether the search has ended.
    pub fn is_done(&self) -> (res: bool)
        ensures
            res == (self.stage() == FindSymbolStage::Done),
    {
        match self.stage {
            FindSymbolStage::Done => true,
            _ => false,
        }
    }

    /// Takes a request in and says what is to be done first.
    ///
    /// Empty texts count as absent. With a file, the file is tried first. Without one the
    /// workspace is searched, for which a query is required.
    pub fn start(workspace: String, request: FindSymbolRequest) -> (res: (FindSymbol, FindSymbolAction))
        ensures
            res.0.workspace() == workspace@,
            res.0.query() == nonempty(opt_text(request.query)),
            res.0.file() == nonempty(opt_text(request.file)),
            res.0.mode() == if request.fuzzy == Some(true) {
                SearchMode::Fuzzy
            } else {
                SearchMode::Exact
            },
            res.0.scope() == request.workspace_and_dependencies,
            match res.0.file() {
                Some(wanted) => {
                    &&& res.0.stage() == FindSymbolStage::CheckingFile
                    &&& res.1 matches FindSymbolAction::CheckFile { file }
                    &&& file@ == wanted
                },
                None => match res.0.query() {
                    None => {
                        &&& res.0.stage() == FindSymbolStage::Done
                        &&& res.1 matches FindSymbolAction::Failure(failure)
                        &&& failure.kind == ErrorKind::InvalidParams
                        &&& failure.message@ == "query is required"@
                    },
                    Some(wanted) => {
                        &&& res.0.stage() == FindSymbolStage::AwaitingWorkspaceSymbols
                        &&& res.1 matches FindSymbolAction::RequestWorkspaceSymbols {
                            query,
                            scope,
                        }
                        &&& query@ == wanted
                        &&& scope == if request.workspace_and_dependencies == Some(true) {
                            SearchScope::WorkspaceAndDependencies
                        } else {
                            SearchScope::Workspace
                        }
                    },
                },
            },
    {
        let query = empty_string_to_none(request.query);
        let file = empty_string_to_none(request.file);
        let mode = match request.fuzzy {
            Some(true) => SearchMode::Fuzzy,
            _ => SearchMode::Exact,
        };
        let scope = request.workspace_and_dependencies;
        let mut session = FindSymbol {
            workspace,
            query,
            file,
            mode,
            scope,
            stage: FindSymbolStage::Done,
        };
        let action = match &session.file {
            Some(file) => {
                session.stage = FindSymbolStage::CheckingFile;
                FindSymbolAction::CheckFile { file: file.clone() }
            },
            None => {
                let wanted = match &session.query {
                    Some(query) => Some(query.clone()),
                    None => None,
                };
                match required(wanted, String::from_str("query")) {
                    Err(failure) => {
                        proof {
                            reveal_strlit("query");
                            reveal_strlit(" is required");
                            reveal_strlit("query is required");
                            assert("query"@ + " is required"@ =~= "query is required"@);
                        }
                        FindSymbolAction::Failure(failure)
                    },
                    Ok(query) => {
                        session.stage = FindSymbolStage::AwaitingWorkspaceSymbols;
                        FindSymbolAction::RequestWorkspaceSymbols {
                            query,
                            scope: match scope {
                                Some(true) => SearchScope::WorkspaceAndDependencies,
                                _ => SearchScope::Workspace,
                            },
                        }
                    },
                }
            },
        };
        (session, action)
    }

    /// Takes in what happened and says what is to be done next.
    ///
    /// A file that is missing ends the search with a text for the caller; one that is
    /// there is looked up at the server. A server that has nothing to say ends the
    /// search with no symbols, a tree of symbols or a failed request fails it, and a
    /// list of symbols is searched: see `found`. An event that the search does not wait
    /// for fails it.
    pub fn on_event(&mut self, event: FindSymbolEvent) -> (action: FindSymbolAction)
        ensures
            final(self).workspace() == old(self).workspace(),
            final(self).query() == old(self).query(),
            final(self).file() == old(self).file(),
            final(self).mode() == old(self).mode(),
            final(self).scope() == old(self).scope(),
            match (old(self).stage(), event) {
                (FindSymbolStage::CheckingFile, FindSymbolEvent::File(FileState::Exists)) => {
                    let text = uri_text(old(self).workspace(), old(self).file()->0);
                    if uri_too_long(text) || uri_path(text) is None {
                        &&& final(self).stage() == FindSymbolStage::Done
                        &&& is_internal_failure(
                            action,
                            flattened(
                                seq!["convert path to URI"@, LocationError::InvalidUri.text()],
                            ),
                        )
                    } else {
                        &&& final(self).stage() == FindSymbolStage::AwaitingDocumentSymbols
                        &&& action matches FindSymbolAction::RequestDocumentSymbols { uri }
                        &&& uri@ == text
                    }
                },
                (FindSymbolStage::CheckingFile, FindSymbolEvent::File(FileState::Missing)) => {
                    &&& final(self).stage() == FindSymbolStage::Done
                    &&& action matches FindSymbolAction::ToolError(text)
                    &&& text@ == "file not found: "@ + old(self).file()->0
                },
                (
                    FindSymbolStage::CheckingFile,
                    FindSymbolEvent::File(FileState::Unreadable(chain)),
                ) => {
                    &&& final(self).stage() == FindSymbolStage::Done
                    &&& is_internal_failure(
                        action,
                        flattened(seq!["read file"@] + texts(chain@)),
                    )
                },
                (
                    FindSymbolStage::AwaitingDocumentSymbols,
                    FindSymbolEvent::Symbols(response),
                ) => {
                    &&& final(self).stage() == FindSymbolStage::Done
                    &&& old(self).answers(response, "DocumentSymbolRequest"@, action)
                },
                (
                    FindSymbolStage::AwaitingWorkspaceSymbols,
                    FindSymbolEvent::Symbols(response),
                ) => {
                    &&& final(self).stage() == FindSymbolStage::Done
                    &&& old(self).answers(response, "WorkspaceSymbolRequest"@, action)
                },
                _ => {
                    &&& final(self).stage() == FindSymbolStage::Done
                    &&& is_internal_failure(action, "unexpected event"@)
                },
            },
    {
        proof {
            use_type_invariant(&*self);
        }
        let stage = self.stage;
        self.stage = FindSymbolStage::Done;
        match event {
            FindSymbolEvent::File(state) => {
                match stage {
                    FindSymbolStage::CheckingFile => {},
                    _ => {
                        return FindSymbolAction::Failure(internal_error("unexpected event"));
                    },
                }
                let file = match &self.file {
                    Some(file) => file,
                    None => {
                        return FindSymbolAction::Failure(internal_error("unexpected event"));
                    },
                };
                match state {
                    FileState::Missing => {
                        let mut text = String::from_str("file not found: ");
                        text.append(file.as_str());
                        FindSymbolAction::ToolError(text)
                    },
                    FileState::Unreadable(chain) => FindSymbolAction::Failure(
                        internal_with_context("read file", &chain),
                    ),
                    FileState::Exists => {
                        match path_to_uri(self.workspace.as_str(), file.as_str()) {
                            Ok(uri) => {
                                self.stage = FindSymbolStage::AwaitingDocumentSymbols;
                                FindSymbolAction::RequestDocumentSymbols { uri }
                            },
                            Err(e) => {
                                let mut chain: Vec<String> = Vec::new();
                                chain.push(e.message());
                                proof {
                                    assert(seq!["convert path to URI"@] + texts(chain@) =~= seq![
                                        "convert path to URI"@,
                                        LocationError::InvalidUri.text(),
                                    ]);
                                }
                                FindSymbolAction::Failure(
                                    internal_with_context("convert path to URI", &chain),
                                )
                            },
                        }
                    },
                }
            },
            FindSymbolEvent::Symbols(response) => {
                let context = match stage {
                    FindSymbolStage::AwaitingDocumentSymbols => "DocumentSymbolRequest",
                    FindSymbolStage::AwaitingWorkspaceSymbols => "WorkspaceSymbolRequest",
                    _ => {
                        return FindSymbolAction::Failure(internal_error("unexpected event"));
                    },
                };
                match response {
                    SymbolResponse::Null => FindSymbolAction::Success(Vec::new()),
                    SymbolResponse::Nested => FindSymbolAction::Failure(
                        internal_error("nested symbols are not yet implemented"),
                    ),
                    SymbolResponse::Failed(chain) => FindSymbolAction::Failure(
                        internal_with_context(context, &chain),
                    ),
                    SymbolResponse::Flat(symbols) => {
                        let query = match &self.query {
                            Some(query) => Some(query.as_str()),
                            None => None,
                        };
                        match find_symbols(
                            &symbols,
                            query,
                            self.mode,
                            self.workspace.as_str(),
                            self.scope,
                        ) {
                            Ok(rows) => FindSymbolAction::Success(rows),
                            Err(failure) => FindSymbolAction::Failure(failure),
                        }
                    },
                }
            },
        }
    }

    /// How the answer of a server ends the search: with `action`.
    pub open spec fn answers(
        &self,
        response: SymbolResponse,
        context: Seq<char>,
        action: FindSymbolAction,
    ) -> bool {
        match response {
            SymbolResponse::Null => action matches FindSymbolAction::Success(rows) && rows@.len()
                == 0,
            SymbolResponse::Nested => is_internal_failure(
                action,
                "nested symbols are not yet implemented"@,
            ),
            SymbolResponse::Failed(chain) => is_internal_failure(
                action,
                flattened(seq![context] + texts(chain@)),
            ),
            SymbolResponse::Flat(symbols) => match found(
                symbol_views(symbols@),
                self.query(),
                self.mode(),
                self.workspace(),
                self.scope(),
            ) {
                Ok(rows) => action matches FindSymbolAction::Success(shown) && result_views(
                    shown@,
                ) == rows,
                Err(e) => is_internal_failure(action, location_failure(e)),
            },
        }
    }
}

} // verus!
