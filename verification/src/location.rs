//! Places in files: as a language server names them, and as a tool's answer shows them.

use crate::text::{
    decimal, join, joined, opens_with_slash, opt_text, starts_with_slash, u64_to_string,
};
use vstd::prelude::*;
use vstd::slice::*;
use vstd::string::*;

verus! {

/// The path component of a URI reference, or `None` where the text is no URI reference.
/// It stands for what `lsp_types::Uri` makes of the text.
pub uninterp spec fn uri_path(uri: Seq<char>) -> Option<Seq<char>>;

/// What is left of `path` once the leading `base` is taken off, or `None` where `path`
/// does not start with `base`. It stands for what `std::path::Path::strip_prefix` returns.
pub uninterp spec fn path_strip_prefix(path: Seq<char>, base: Seq<char>) -> Option<Seq<char>>;

/// Parses the text with `lsp_types::Uri::from_str` and, where that succeeds, copies what
/// `fluent_uri::Uri::path` returns for it.
///
/// The parser panics on more than `i32::MAX` bytes, so longer texts are kept out. The
/// contract only gives the outcome its name.
#[verifier::external_body]
fn parse_uri_path(uri: &str) -> (res: Option<String>)
    requires
        uri.spec_bytes().len() <= i32::MAX,
    ensures
        match res {
            Some(path) => uri_path(uri@) == Some(path@),
            None => uri_path(uri@) is None,
        },
{
    match uri.parse::<lsp_types::Uri>() {
        Ok(parsed) => Some(parsed.path().as_str().to_owned()),
        Err(_) => None,
    }
}

/// Calls `std::path::Path::strip_prefix` and writes the remaining path out as text.
/// The contract only gives the outcome its name.
#[verifier::external_body]
fn strip_path_prefix(path: &str, base: &str) -> (res: Option<String>)
    ensures
        match res {
            Some(rest) => path_strip_prefix(path@, base@) == Some(rest@),
            None => path_strip_prefix(path@, base@) is None,
        },
{
    match std::path::Path::new(path).strip_prefix(base) {
        Ok(rest) => Some(rest.display().to_string()),
        Err(_) => None,
    }
}

/// The character that writes a digit of base sixteen, in lower case.
pub open spec fn hex_digit(d: int) -> char {
    if d == 0 {
        '0'
    } else if d == 1 {
        '1'
    } else if d == 2 {
        '2'
    } else if d == 3 {
        '3'
    } else if d == 4 {
        '4'
    } else if d == 5 {
        '5'
    } else if d == 6 {
        '6'
    } else if d == 7 {
        '7'
    } else if d == 8 {
        '8'
    } else if d == 9 {
        '9'
    } else if d == 10 {
        'a'
    } else if d == 11 {
        'b'
    } else if d == 12 {
        'c'
    } else if d == 13 {
        'd'
    } else if d == 14 {
        'e'
    } else {
        'f'
    }
}

/// How one character stands inside a JSON string: the quote, the backslash and the
/// control characters are escaped, every other character stands for itself.
pub open spec fn json_escaped_char(c: char) -> Seq<char> {
    if c == '"' {
        seq!['\\', '"']
    } else if c == '\\' {
        seq!['\\', '\\']
    } else if c == '\u{8}' {
        seq!['\\', 'b']
    } else if c == '\t' {
        seq!['\\', 't']
    } else if c == '\n' {
        seq!['\\', 'n']
    } else if c == '\u{c}' {
        seq!['\\', 'f']
    } else if c == '\r' {
        seq!['\\', 'r']
    } else if (c as u32) < 0x20 {
        seq![
            '\\',
            'u',
            '0',
            '0',
            hex_digit((c as u32) as int / 16),
            hex_digit((c as u32) as int % 16),
        ]
    } else {
        seq![c]
    }
}

/// How the characters of a text stand inside a JSON string.
pub open spec fn json_escaped(text: Seq<char>) -> Seq<char>
    decreases text.len(),
{
    if text.len() == 0 {
        Seq::empty()
    } else {
        json_escaped(text.drop_last()) + json_escaped_char(text.last())
    }
}

/// A text written as a JSON string: its characters between quotes, escaped where JSON
/// does not take them as they are.
pub open spec fn json_string(text: Seq<char>) -> Seq<char> {
    seq!['"'] + json_escaped(text) + seq!['"']
}

/// Calls `serde_json::to_string` on the text. Writing a text cannot fail.
///
/// The contract claims what the crate's serializer writes for a text: a quote, the
/// characters of the text with the quote, the backslash and the control characters
/// escaped as its table of escapes says, and a quote.
#[verifier::external_body]
fn json_text(text: &str) -> (res: String)
    ensures
        res@ == json_string(text@),
{
    match serde_json::to_string(text) {
        Ok(json) => json,
        Err(_) => String::new(),
    }
}

/// Whether a text is a URI reference that is not too long to be parsed.
pub fn is_uri(text: &str) -> (res: bool)
    ensures
        res == (!uri_too_long(text@) && uri_path(text@) is Some),
{
    if text.as_bytes().len() > i32::MAX as usize {
        return false;
    }
    parse_uri_path(text).is_some()
}

/// Why a place cannot be shown.
#[derive(Debug, Clone, Copy, PartialEq, Eq, Structural)]
pub enum LocationError {
    /// The text is no URI reference, or it is longer than a URI may be.
    InvalidUri,
    /// Line or character is the largest number there is, so counting from one fails.
    PositionOverflow,
}

impl LocationError {
    /// The error in words.
    pub open spec fn text(self) -> Seq<char> {
        match self {
            LocationError::InvalidUri => "invalid URI"@,
            LocationError::PositionOverflow => "position out of range"@,
        }
    }

    /// The error in words.
    pub fn message(&self) -> (res: String)
        ensures
            res@ == self.text(),
    {
        match self {
            LocationError::InvalidUri => String::from_str("invalid URI"),
            LocationError::PositionOverflow => String::from_str("position out of range"),
        }
    }
}

/// A place in a file as a language server names it: the file's URI, and line and
/// character counted from zero.
#[derive(Debug, Clone)]
pub struct Location {
    pub uri: String,
    pub line: u32,
    pub character: u32,
}

/// What a `Location` holds.
pub ghost struct LocationView {
    pub uri: Seq<char>,
    pub line: u32,
    pub character: u32,
}

impl View for Location {
    type V = LocationView;

    open spec fn view(&self) -> LocationView {
        LocationView { uri: self.uri@, line: self.line, character: self.character }
    }
}

/// A link to a place: of all that a server says of the link, the target.
#[derive(Debug, Clone)]
pub struct LocationLink {
    pub target_uri: String,
    pub target_line: u32,
    pub target_character: u32,
}

impl View for LocationLink {
    type V = LocationView;

    open spec fn view(&self) -> LocationView {
        LocationView {
            uri: self.target_uri@,
            line: self.target_line,
            character: self.target_character,
        }
    }
}

/// The three shapes in which a server answers a request for places.
#[derive(Debug)]
pub enum LocationVariants {
    Scalar(Location),
    Array(Vec<Location>),
    Link(Vec<LocationLink>),
}

/// Whether a URI is too long to be parsed.
pub open spec fn uri_too_long(uri: Seq<char>) -> bool {
    vstd::utf8::encode_utf8(uri).len() > i32::MAX
}

/// The file name under which a path is shown, if it is shown at all.
///
/// A path that does not start at the root is shown as it is. One inside the workspace is
/// shown relative to the workspace. One outside is shown in full where the search reached
/// beyond the workspace, and left out where it did not.
pub open spec fn emitted_file(
    path: Seq<char>,
    stripped: Option<Seq<char>>,
    workspace_and_dependencies: bool,
) -> Option<Seq<char>> {
    if !opens_with_slash(path) {
        Some(path)
    } else {
        match stripped {
            Some(relative) => Some(relative),
            None => if workspace_and_dependencies {
                Some(path)
            } else {
                None
            },
        }
    }
}

/// A place inside the workspace is shown relative to the workspace. A place outside is
/// shown if and only if the search reached beyond the workspace, and then under its whole
/// path. Here `path` starts at the root, and `stripped` is what is left of it once the
/// workspace is taken off, where it lies inside.
pub proof fn lemma_location_relativity(
    path: Seq<char>,
    stripped: Option<Seq<char>>,
    workspace_and_dependencies: bool,
)
    requires
        opens_with_slash(path),
    ensures
        stripped matches Some(relative) ==> emitted_file(
            path,
            stripped,
            workspace_and_dependencies,
        ) == Some(relative),
        stripped is None ==> (emitted_file(path, stripped, workspace_and_dependencies) is Some
            <==> workspace_and_dependencies),
        stripped is None && workspace_and_dependencies ==> emitted_file(
            path,
            stripped,
            workspace_and_dependencies,
        ) == Some(path),
{
}

/// Picks the file name under which a path is shown: see `emitted_file`. `stripped` is
/// the path relative to the workspace, where it lies inside.
pub fn choose_file(path: String, stripped: Option<String>, workspace_and_dependencies: bool) -> (res:
    Option<String>)
    ensures
        opt_text(res) == emitted_file(path@, opt_text(stripped), workspace_and_dependencies),
{
    if !starts_with_slash(path.as_str()) {
        Some(path)
    } else {
        match stripped {
            Some(relative) => Some(relative),
            None => if workspace_and_dependencies {
                Some(path)
            } else {
                None
            },
        }
    }
}

/// What a shown place holds.
pub ghost struct McpLocationView {
    pub file: Seq<char>,
    pub line: int,
    pub character: int,
    pub workspace: Seq<char>,
}

/// How a server's place is shown, if at all, and what keeps it from being shown.
pub open spec fn located(
    loc: LocationView,
    workspace: Seq<char>,
    workspace_and_dependencies: bool,
) -> Result<Option<McpLocationView>, LocationError> {
    if uri_too_long(loc.uri) || uri_path(loc.uri) is None {
        Err(LocationError::InvalidUri)
    } else {
        let path = uri_path(loc.uri)->0;
        match emitted_file(path, path_strip_prefix(path, workspace), workspace_and_dependencies) {
            None => Ok(None),
            Some(file) => if loc.line == u32::MAX || loc.character == u32::MAX {
                Err(LocationError::PositionOverflow)
            } else {
                Ok(
                    Some(
                        McpLocationView {
                            file,
                            line: loc.line + 1,
                            character: loc.character + 1,
                            workspace,
                        },
                    ),
                )
            },
        }
    }
}

/// How a place is written: file, line and character with colons between.
pub open spec fn rendered(file: Seq<char>, line: int, character: int) -> Seq<char> {
    file + seq![':'] + decimal(line as nat) + seq![':'] + decimal(character as nat)
}

/// How a place is written as a JSON object: the members `file`, `line` and `character`,
/// in that order and without blanks.
pub open spec fn place_json(file: Seq<char>, line: int, character: int) -> Seq<char> {
    "{\"file\":"@ + json_string(file) + ",\"line\":"@ + decimal(line as nat)
        + ",\"character\":"@ + decimal(character as nat) + "}"@
}

/// A place as a tool's answer shows it: a file name, relative to the workspace where the
/// file lies inside, and line and character counted from one.
#[derive(Debug)]
pub struct McpLocation {
    file: String,
    line: u32,
    character: u32,
    workspace: String,
}

impl View for McpLocation {
    type V = McpLocationView;

    closed spec fn view(&self) -> McpLocationView {
        McpLocationView {
            file: self.file@,
            line: self.line as int,
            character: self.character as int,
            workspace: self.workspace@,
        }
    }
}

/// A position in a document as a request to a server names it: the document's URI, and
/// line and character counted from zero.
#[derive(Debug)]
pub struct TextDocumentPosition {
    pub uri: String,
    pub line: u32,
    pub character: u32,
}

/// A document as a request to a server names it.
#[derive(Debug)]
pub struct TextDocumentIdentifier {
    pub uri: String,
}

/// The URI text of a path: `file://` and the path, with the workspace and a slash put
/// before a path that does not start at the root.
pub open spec fn uri_text(workspace: Seq<char>, path: Seq<char>) -> Seq<char> {
    if opens_with_slash(path) {
        "file://"@ + path
    } else {
        "file://"@ + workspace + seq!['/'] + path
    }
}

/// Makes the URI of a file from its path.
///
/// Fails where the text that comes out is no URI reference, or is too long for one.
pub fn path_to_uri(workspace: &str, path: &str) -> (res: Result<String, LocationError>)
    ensures
        match res {
            Ok(uri) => uri@ == uri_text(workspace@, path@) && !uri_too_long(uri@) && uri_path(
                uri@,
            ) is Some,
            Err(e) => e == LocationError::InvalidUri && (uri_too_long(uri_text(workspace@, path@))
                || uri_path(uri_text(workspace@, path@)) is None),
        },
{
    let mut text = String::from_str("file://");
    if !starts_with_slash(path) {
        text.append(workspace);
        text.append("/");
        proof {
            reveal_strlit("/");
            assert("/"@ =~= seq!['/']);
        }
    }
    text.append(path);
    assert(text@ =~= uri_text(workspace@, path@));
    if text.as_str().as_bytes().len() > i32::MAX as usize {
        return Err(LocationError::InvalidUri);
    }
    match parse_uri_path(text.as_str()) {
        Some(_) => Ok(text),
        None => Err(LocationError::InvalidUri),
    }
}

/// Names a file of the workspace as a request to a server does.
pub fn path_to_text_document_identifier(workspace: &str, path: &str) -> (res: Result<
    TextDocumentIdentifier,
    LocationError,
>)
    ensures
        match res {
            Ok(id) => id.uri@ == uri_text(workspace@, path@) && !uri_too_long(id.uri@)
                && uri_path(id.uri@) is Some,
            Err(e) => e == LocationError::InvalidUri && (uri_too_long(uri_text(workspace@, path@))
                || uri_path(uri_text(workspace@, path@)) is None),
        },
{
    match path_to_uri(workspace, path) {
        Ok(uri) => Ok(TextDocumentIdentifier { uri }),
        Err(e) => Err(e),
    }
}

fn locate(
    uri: &str,
    line: u32,
    character: u32,
    workspace: &str,
    workspace_and_dependencies: bool,
) -> (res: Result<Option<McpLocation>, LocationError>)
    ensures
        match res {
            Ok(Some(shown)) => located(
                LocationView { uri: uri@, line, character },
                workspace@,
                workspace_and_dependencies,
            ) == Ok::<Option<McpLocationView>, LocationError>(Some(shown@)),
            Ok(None) => located(
                LocationView { uri: uri@, line, character },
                workspace@,
                workspace_and_dependencies,
            ) == Ok::<Option<McpLocationView>, LocationError>(None),
            Err(e) => located(
                LocationView { uri: uri@, line, character },
                workspace@,
                workspace_and_dependencies,
            ) == Err::<Option<McpLocationView>, LocationError>(e),
        },
{
    if uri.as_bytes().len() > i32::MAX as usize {
        return Err(LocationError::InvalidUri);
    }
    let path = match parse_uri_path(uri) {
        Some(path) => path,
        None => {
            return Err(LocationError::InvalidUri);
        },
    };
    let stripped = if starts_with_slash(path.as_str()) {
        strip_path_prefix(path.as_str(), workspace)
    } else {
        None
    };
    let file = match choose_file(path, stripped, workspace_and_dependencies) {
        Some(file) => file,
        None => {
            return Ok(None);
        },
    };
    if line == u32::MAX || character == u32::MAX {
        return Err(LocationError::PositionOverflow);
    }
    Ok(
        Some(
            McpLocation {
                file,
                line: line + 1,
                character: character + 1,
                workspace: String::from_str(workspace),
            },
        ),
    )
}

impl McpLocation {
    #[verifier::type_invariant]
    spec fn counted_from_one(&self) -> bool {
        self.line >= 1 && self.character >= 1
    }

    /// A place from its parts. Line and character count from one.
    pub fn new(file: String, line: u32, character: u32, workspace: String) -> (res: Self)
        requires
            line >= 1,
            character >= 1,
        ensures
            res@ == (McpLocationView {
                file: file@,
                line: line as int,
                character: character as int,
                workspace: workspace@,
            }),
    {
        McpLocation { file, line, character, workspace }
    }

    /// Shows a server's place under the workspace, or leaves it out: see `located`.
    pub fn try_new(loc: Location, workspace: &str, workspace_and_dependencies: bool) -> (res:
        Result<Option<Self>, LocationError>)
        ensures
            match res {
                Ok(Some(shown)) => located(loc@, workspace@, workspace_and_dependencies) == Ok::<
                    Option<McpLocationView>,
                    LocationError,
                >(Some(shown@)),
                Ok(None) => located(loc@, workspace@, workspace_and_dependencies) == Ok::<
                    Option<McpLocationView>,
                    LocationError,
                >(None),
                Err(e) => located(loc@, workspace@, workspace_and_dependencies) == Err::<
                    Option<McpLocationView>,
                    LocationError,
                >(e),
            },
    {
        locate(loc.uri.as_str(), loc.line, loc.character, workspace, workspace_and_dependencies)
    }

    /// Shows the target of a link under the workspace, or leaves it out: see `located`.
    pub fn try_new_from_location_link(
        loc: LocationLink,
        workspace: &str,
        workspace_and_dependencies: bool,
    ) -> (res: Result<Option<Self>, LocationError>)
        ensures
            match res {
                Ok(Some(shown)) => located(loc@, workspace@, workspace_and_dependencies) == Ok::<
                    Option<McpLocationView>,
                    LocationError,
                >(Some(shown@)),
                Ok(None) => located(loc@, workspace@, workspace_and_dependencies) == Ok::<
                    Option<McpLocationView>,
                    LocationError,
                >(None),
                Err(e) => located(loc@, workspace@, workspace_and_dependencies) == Err::<
                    Option<McpLocationView>,
                    LocationError,
                >(e),
            },
    {
        let target = Location {
            uri: loc.target_uri,
            line: loc.target_line,
            character: loc.target_character,
        };
        Self::try_new(target, workspace, workspace_and_dependencies)
    }

    /// The file's name.
    pub fn file(&self) -> (res: &str)
        ensures
            res@ == self@.file,
    {
        self.file.as_str()
    }

    /// The line, counted from one.
    pub fn line(&self) -> (res: u32)
        ensures
            res == self@.line,
            res >= 1,
    {
        proof {
            use_type_invariant(self);
        }
        self.line
    }

    /// The character, counted from one.
    pub fn character(&self) -> (res: u32)
        ensures
            res == self@.character,
            res >= 1,
    {
        proof {
            use_type_invariant(self);
        }
        self.character
    }

    /// The workspace under which the place is shown.
    pub fn workspace(&self) -> (res: &str)
        ensures
            res@ == self@.workspace,
    {
        self.workspace.as_str()
    }

    /// Writes the place as `file:line:character`.
    pub fn to_string(&self) -> (res: String)
        ensures
            res@ == rendered(self@.file, self@.line, self@.character),
    {
        let mut out = self.file.clone();
        let line = u64_to_string(self.line as u64);
        let character = u64_to_string(self.character as u64);
        proof {
            reveal_strlit(":");
            assert(":"@ =~= seq![':']);
        }
        out.append(":");
        out.append(line.as_str());
        out.append(":");
        out.append(character.as_str());
        assert(out@ =~= rendered(self@.file, self@.line, self@.character));
        out
    }

    /// Writes the place as a JSON object: see `place_json`.
    pub fn to_json(&self) -> (res: String)
        ensures
            res@ == place_json(self@.file, self@.line, self@.character),
    {
        let mut out = String::from_str("{\"file\":");
        out.append(json_text(self.file.as_str()).as_str());
        out.append(",\"line\":");
        out.append(u64_to_string(self.line as u64).as_str());
        out.append(",\"character\":");
        out.append(u64_to_string(self.character as u64).as_str());
        out.append("}");
        out
    }

    /// The place as a request to a server names it: the file's URI, and line and
    /// character counted from zero.
    pub fn position(&self) -> (res: Result<TextDocumentPosition, LocationError>)
        ensures
            match res {
                Ok(position) => {
                    &&& position.uri@ == uri_text(self@.workspace, self@.file)
                    &&& !uri_too_long(position.uri@)
                    &&& uri_path(position.uri@) is Some
                    &&& position.line == self@.line - 1
                    &&& position.character == self@.character - 1
                },
                Err(e) => e == LocationError::InvalidUri && (uri_too_long(
                    uri_text(self@.workspace, self@.file),
                ) || uri_path(uri_text(self@.workspace, self@.file)) is None),
            },
    {
        proof {
            use_type_invariant(self);
        }
        match path_to_uri(self.workspace.as_str(), self.file.as_str()) {
            Ok(uri) => Ok(
                TextDocumentPosition { uri, line: self.line - 1, character: self.character - 1 },
            ),
            Err(e) => Err(e),
        }
    }
}

/// What a `LocationVariants` holds.
pub ghost enum LocationVariantsView {
    Scalar(LocationView),
    Array(Seq<LocationView>),
    Link(Seq<LocationView>),
}

impl View for LocationVariants {
    type V = LocationVariantsView;

    open spec fn view(&self) -> LocationVariantsView {
        match self {
            LocationVariants::Scalar(location) => LocationVariantsView::Scalar(location@),
            LocationVariants::Array(locations) => LocationVariantsView::Array(
                locations@.map_values(|l: Location| l@),
            ),
            LocationVariants::Link(links) => LocationVariantsView::Link(
                links@.map_values(|l: LocationLink| l@),
            ),
        }
    }
}

/// One line of a list of places: a dash, a blank, and the place as a JSON object.
pub open spec fn bullet(shown: McpLocationView) -> Seq<char> {
    "- "@ + place_json(shown.file, shown.line, shown.character)
}

/// The lines of a list of places: one for each place that is shown, in their order. The
/// first place that cannot be shown fails the list.
pub open spec fn listed(
    locs: Seq<LocationView>,
    workspace: Seq<char>,
    workspace_and_dependencies: bool,
) -> Result<Seq<Seq<char>>, LocationError>
    decreases locs.len(),
{
    if locs.len() == 0 {
        Ok(Seq::empty())
    } else {
        match listed(locs.drop_last(), workspace, workspace_and_dependencies) {
            Err(e) => Err(e),
            Ok(lines) => match located(locs.last(), workspace, workspace_and_dependencies) {
                Err(e) => Err(e),
                Ok(None) => Ok(lines),
                Ok(Some(shown)) => Ok(lines.push(bullet(shown))),
            },
        }
    }
}

/// How a server's answer is written: one line for each place that is shown, and `None`
/// where no place is shown. A single place is a list of one.
pub open spec fn formatted(
    answer: LocationVariantsView,
    workspace: Seq<char>,
    workspace_and_dependencies: bool,
) -> Result<Seq<char>, LocationError> {
    match answer {
        LocationVariantsView::Scalar(loc) => formatted_list(
            seq![loc],
            workspace,
            workspace_and_dependencies,
        ),
        LocationVariantsView::Array(locs) => formatted_list(
            locs,
            workspace,
            workspace_and_dependencies,
        ),
        LocationVariantsView::Link(locs) => formatted_list(
            locs,
            workspace,
            workspace_and_dependencies,
        ),
    }
}

/// How a list of places is written: see `formatted`.
pub open spec fn formatted_list(
    locs: Seq<LocationView>,
    workspace: Seq<char>,
    workspace_and_dependencies: bool,
) -> Result<Seq<char>, LocationError> {
    match listed(locs, workspace, workspace_and_dependencies) {
        Err(e) => Err(e),
        Ok(lines) => Ok(
            if lines.len() == 0 {
                "None"@
            } else {
                joined(lines, "\n"@)
            },
        ),
    }
}

proof fn lemma_listed_error_stays(
    locs: Seq<LocationView>,
    n: int,
    workspace: Seq<char>,
    workspace_and_dependencies: bool,
)
    requires
        0 <= n <= locs.len(),
        listed(locs.take(n), workspace, workspace_and_dependencies) is Err,
    ensures
        listed(locs, workspace, workspace_and_dependencies) == listed(
            locs.take(n),
            workspace,
            workspace_and_dependencies,
        ),
    decreases locs.len() - n,
{
    if n < locs.len() {
        assert(locs.take(n + 1).drop_last() =~= locs.take(n));
        lemma_listed_error_stays(locs, n + 1, workspace, workspace_and_dependencies);
    } else {
        assert(locs.take(n) =~= locs);
    }
}

fn list_places(locations: &Vec<Location>, workspace: &str, workspace_and_dependencies: bool) -> (res:
    Result<Vec<String>, LocationError>)
    ensures
        match res {
            Ok(lines) => listed(
                locations@.map_values(|l: Location| l@),
                workspace@,
                workspace_and_dependencies,
            ) == Ok::<Seq<Seq<char>>, LocationError>(crate::text::texts(lines@)),
            Err(e) => listed(
                locations@.map_values(|l: Location| l@),
                workspace@,
                workspace_and_dependencies,
            ) == Err::<Seq<Seq<char>>, LocationError>(e),
        },
{
    let ghost locs = locations@.map_values(|l: Location| l@);
    let mut lines: Vec<String> = Vec::new();
    let mut i: usize = 0;
    proof {
        assert(crate::text::texts(lines@) =~= Seq::empty());
    }
    while i < locations.len()
        invariant
            i <= locations.len(),
            locs == locations@.map_values(|l: Location| l@),
            listed(locs.take(i as int), workspace@, workspace_and_dependencies) == Ok::<
                Seq<Seq<char>>,
                LocationError,
            >(crate::text::texts(lines@)),
        decreases locations.len() - i,
    {
        let loc = &locations[i];
        proof {
            assert(locs.take(i + 1).drop_last() =~= locs.take(i as int));
            assert(locs.take(i + 1).last() == loc@);
        }
        match locate(loc.uri.as_str(), loc.line, loc.character, workspace, workspace_and_dependencies) {
            Err(e) => {
                proof {
                    lemma_listed_error_stays(locs, i + 1, workspace@, workspace_and_dependencies);
                }
                return Err(e);
            },
            Ok(None) => {},
            Ok(Some(shown)) => {
                let ghost before = crate::text::texts(lines@);
                let mut line = String::from_str("- ");
                let place = shown.to_json();
                line.append(place.as_str());
                lines.push(line);
                proof {
                    assert(crate::text::texts(lines@) =~= before.push(bullet(shown@)));
                }
            },
        }
        i += 1;
    }
    proof {
        assert(locs.take(locations.len() as int) =~= locs);
    }
    Ok(lines)
}

impl LocationVariants {
    /// Writes the answer of a server out for a tool's answer: see `formatted`.
    pub fn format(self, workspace: &str, workspace_and_dependencies: bool) -> (res: Result<
        String,
        LocationError,
    >)
        ensures
            match res {
                Ok(text) => formatted(self@, workspace@, workspace_and_dependencies) == Ok::<
                    Seq<char>,
                    LocationError,
                >(text@),
                Err(e) => formatted(self@, workspace@, workspace_and_dependencies) == Err::<
                    Seq<char>,
                    LocationError,
                >(e),
            },
    {
        let locations = match self {
            LocationVariants::Scalar(location) => {
                let mut locations: Vec<Location> = Vec::new();
                locations.push(location);
                proof {
                    assert(locations@.map_values(|l: Location| l@) =~= seq![location@]);
                }
                locations
            },
            LocationVariants::Array(locations) => locations,
            LocationVariants::Link(links) => {
                let mut locations: Vec<Location> = Vec::new();
                let mut i: usize = 0;
                while i < links.len()
                    invariant
                        i <= links.len(),
                        locations.len() == i,
                        forall|k: int| 0 <= k < i ==> (#[trigger] locations@[k])@ == links@[k]@,
                    decreases links.len() - i,
                {
                    let link = &links[i];
                    locations.push(
                        Location {
                            uri: link.target_uri.clone(),
                            line: link.target_line,
                            character: link.target_character,
                        },
                    );
                    i += 1;
                }
                proof {
                    assert(locations@.map_values(|l: Location| l@) =~= links@.map_values(
                        |l: LocationLink| l@,
                    ));
                }
                locations
            },
        };
        match list_places(&locations, workspace, workspace_and_dependencies) {
            Err(e) => Err(e),
            Ok(lines) => if lines.len() == 0 {
                Ok(String::from_str("None"))
            } else {
                Ok(join(&lines, "\n"))
            },
        }
    }
}

} // verus!
