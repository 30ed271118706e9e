//! What the bridge has to know of a programming language and its language server.

use crate::text::{str_eq, texts};
use crate::tokens::{TokenModifers, TokenModifier};
use vstd::prelude::*;
use vstd::string::*;

verus! {

/// Code programming language.
#[derive(Debug, Clone, Copy, PartialEq, Eq, Structural)]
pub enum ProgrammingLanguage {
    Rust,
}

/// What a language brings along: the command that starts its language server, the
/// options that the server is started with, the work that the server's start-up consists
/// of, and what each modifier of a token counts for.
#[derive(Debug)]
pub struct Quirks {
    /// Binary name of the language server.
    pub server_command: String,
    /// Language server initialization options, as JSON text.
    pub init_options: Option<String>,
    /// Progress reports that are expected before the language server is ready.
    pub expected_init_progress_tokens: Vec<String>,
    /// Score for each semantic token modifier. A table names each modifier once; where a
    /// name stands twice, its first entry counts.
    pub modifier_scores: Vec<(String, i64)>,
}

/// The names and scores that a table of scores holds.
pub open spec fn score_table(scores: Seq<(String, i64)>) -> Seq<(Seq<char>, int)> {
    scores.map_values(|entry: (String, i64)| (entry.0@, entry.1 as int))
}

/// Whether a table of scores names each modifier once, as a map does.
pub open spec fn names_occur_once(table: Seq<(Seq<char>, int)>) -> bool {
    forall|i: int, j: int| 0 <= i < j < table.len() ==> table[i].0 != table[j].0
}

/// What a modifier counts for: the score of the first entry with its name, and nothing
/// where there is no entry.
pub open spec fn score_of(table: Seq<(Seq<char>, int)>, name: Seq<char>) -> int
    decreases table.len(),
{
    if table.len() == 0 {
        0
    } else if table[0].0 == name {
        table[0].1
    } else {
        score_of(table.drop_first(), name)
    }
}

/// What a list of modifiers counts for: the sum of what each counts for.
pub open spec fn total_score(table: Seq<(Seq<char>, int)>, names: Seq<Seq<char>>) -> int
    decreases names.len(),
{
    if names.len() == 0 {
        0
    } else {
        total_score(table, names.drop_last()) + score_of(table, names.last())
    }
}

/// The options that `rust-analyzer` is started with, as JSON text: the files are watched
/// by the server, hovering shows neither drop glue nor memory layout and up to a hundred
/// variants, fields and associated items, and symbols are searched in the workspace and
/// its dependencies.
pub open spec fn rust_analyzer_options() -> Seq<char> {
    "{\"files\":{\"watcher\":\"server\"},\"hover\":{\"dropGlue\":{\"enable\":false},\"memoryLayout\":{\"enable\":false},\"show\":{\"enumVariants\":100,\"fields\":100,\"traitAssocItems\":100}},\"workspace\":{\"symbol\":{\"search\":{\"scope\":\"workspace_and_dependencies\"}}}}"@
}

/// The work that the start-up of `rust-analyzer` consists of.
pub open spec fn rust_analyzer_init_parts() -> Seq<Seq<char>> {
    seq![
        "rustAnalyzer/Building CrateGraph"@,
        "rustAnalyzer/Roots Scanned"@,
        "rustAnalyzer/cachePriming"@,
        "rust-analyzer/flycheck/0"@,
    ]
}

/// What the modifiers of `rust-analyzer` count for.
pub open spec fn rust_analyzer_scores() -> Seq<(Seq<char>, int)> {
    seq![("declaration"@, 10int), ("injected"@, -100int), ("library"@, -1int), ("public"@, 10int)]
}

/// The table of `rust-analyzer` names each modifier once.
pub proof fn lemma_rust_analyzer_scores_name_once()
    ensures
        names_occur_once(rust_analyzer_scores()),
{
    reveal_strlit("declaration");
    reveal_strlit("injected");
    reveal_strlit("library");
    reveal_strlit("public");
    let table = rust_analyzer_scores();
    assert(table[0].0.len() == 11);
    assert(table[1].0.len() == 8);
    assert(table[2].0.len() == 7);
    assert(table[3].0.len() == 6);
}

/// The rust language and its server, `rust-analyzer`.
#[derive(Debug)]
pub struct Rust;

impl Rust {
    /// Binary name of the language server.
    pub fn language_server(&self) -> (res: String)
        ensures
            res@ == "rust-analyzer"@,
    {
        String::from_str("rust-analyzer")
    }

    /// Language server initialization options, as JSON text.
    pub fn initialization_options(&self) -> (res: Option<String>)
        ensures
            crate::text::opt_text(res) == Some(rust_analyzer_options()),
    {
        Some(
            String::from_str(
                "{\"files\":{\"watcher\":\"server\"},\"hover\":{\"dropGlue\":{\"enable\":false},\"memoryLayout\":{\"enable\":false},\"show\":{\"enumVariants\":100,\"fields\":100,\"traitAssocItems\":100}},\"workspace\":{\"symbol\":{\"search\":{\"scope\":\"workspace_and_dependencies\"}}}}",
            ),
        )
    }

    /// Set of progress reports that are expected before the language server is ready.
    pub fn init_progress_parts(&self) -> (res: Vec<String>)
        ensures
            texts(res@) == rust_analyzer_init_parts(),
    {
        let mut parts: Vec<String> = Vec::new();
        parts.push(String::from_str("rustAnalyzer/Building CrateGraph"));
        parts.push(String::from_str("rustAnalyzer/Roots Scanned"));
        parts.push(String::from_str("rustAnalyzer/cachePriming"));
        parts.push(String::from_str("rust-analyzer/flycheck/0"));
        proof {
            assert(texts(parts@) =~= seq![
                "rustAnalyzer/Building CrateGraph"@,
                "rustAnalyzer/Roots Scanned"@,
                "rustAnalyzer/cachePriming"@,
                "rust-analyzer/flycheck/0"@,
            ]);
        }
        parts
    }

    /// Sets score for each semantic token modifier.
    ///
    /// Defaults to zero for unspecified modifiers. Scores of multiple modifiers on a
    /// token will be added.
    pub fn semantic_token_modifier_scores(&self) -> (res: Vec<(String, i64)>)
        ensures
            score_table(res@) == rust_analyzer_scores(),
            names_occur_once(score_table(res@)),
    {
        let mut scores: Vec<(String, i64)> = Vec::new();
        scores.push((String::from_str("declaration"), 10));
        scores.push((String::from_str("injected"), -100));
        scores.push((String::from_str("library"), -1));
        scores.push((String::from_str("public"), 10));
        proof {
            assert(score_table(scores@) =~= seq![
                ("declaration"@, 10int),
                ("injected"@, -100int),
                ("library"@, -1int),
                ("public"@, 10int),
            ]);
            lemma_rust_analyzer_scores_name_once();
        }
        scores
    }
}

impl ProgrammingLanguage {
    /// Get quirks for respective language.
    pub fn quirks(&self) -> (res: Quirks)
        ensures
            *self == ProgrammingLanguage::Rust ==> {
                &&& res.server_command@ == "rust-analyzer"@
                &&& crate::text::opt_text(res.init_options) == Some(rust_analyzer_options())
                &&& texts(res.expected_init_progress_tokens@) == rust_analyzer_init_parts()
                &&& score_table(res.modifier_scores@) == rust_analyzer_scores()
                &&& names_occur_once(score_table(res.modifier_scores@))
            },
    {
        match self {
            ProgrammingLanguage::Rust => {
                let rust = Rust;
                Quirks {
                    server_command: rust.language_server(),
                    init_options: rust.initialization_options(),
                    expected_init_progress_tokens: rust.init_progress_parts(),
                    modifier_scores: rust.semantic_token_modifier_scores(),
                }
            },
        }
    }
}

impl Quirks {
    /// What a modifier counts for: see `score_of`.
    pub fn modifier_score(&self, name: &str) -> (res: i64)
        ensures
            res == score_of(score_table(self.modifier_scores@), name@),
    {
        let ghost table = score_table(self.modifier_scores@);
        let mut i: usize = 0;
        proof {
            assert(table.skip(0) =~= table);
        }
        while i < self.modifier_scores.len()
            invariant
                i <= self.modifier_scores.len(),
                table == score_table(self.modifier_scores@),
                score_of(table, name@) == score_of(table.skip(i as int), name@),
            decreases self.modifier_scores.len() - i,
        {
            proof {
                assert(table.skip(i as int).drop_first() =~= table.skip(i + 1));
                assert(table.skip(i as int)[0] == table[i as int]);
            }
            if str_eq(self.modifier_scores[i].0.as_str(), name) {
                return self.modifier_scores[i].1;
            }
            i += 1;
        }
        0
    }

    /// What the modifiers of a token count for: the sum of their scores.
    pub fn score(&self, modifiers: &TokenModifers) -> (res: i128)
        ensures
            res == total_score(score_table(self.modifier_scores@), modifiers.names()),
    {
        let enabled = modifiers.iter();
        let ghost table = score_table(self.modifier_scores@);
        let ghost names = enabled@.map_values(|m: &TokenModifier| m@);
        let mut total: i128 = 0;
        let mut i: usize = 0;
        while i < enabled.len()
            invariant
                i <= enabled.len(),
                table == score_table(self.modifier_scores@),
                names == enabled@.map_values(|m: &TokenModifier| m@),
                total == total_score(table, names.take(i as int)),
                -(i as int) * 0x8000_0000_0000_0000 <= total <= (i as int)
                    * 0x8000_0000_0000_0000,
            decreases enabled.len() - i,
        {
            let score = self.modifier_score(enabled[i].as_str());
            proof {
                assert(names.take(i + 1).drop_last() =~= names.take(i as int));
                assert(names.take(i + 1).last() == enabled@[i as int]@);
            }
            total = total + score as i128;
            i += 1;
        }
        proof {
            assert(names.take(enabled.len() as int) =~= names);
        }
        total
    }
}

} // verus!
