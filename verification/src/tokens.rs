//! Semantic tokens: the legend, the bit set of modifiers, and the decoded document.

use crate::location::{McpLocation, McpLocationView};
use crate::text::{decimal, str_eq, u64_to_string};
use itertools::Itertools;
use crate::lines::{
    find_newline, first_newline, has_line, lemma_line_end_bounds,
    lemma_line_offset_bounds, lemma_no_line_behind, lemma_piece_is_valid, line_end, line_offset,
    substring,
};
use vstd::arithmetic::div_mod::lemma_div_denominator;
use vstd::prelude::*;
use vstd::slice::*;
use vstd::string::*;
use vstd::utf8::*;

verus! {

/// One entry of the legend's list of token types.
#[derive(Debug)]
pub struct TokenType(String);

impl View for TokenType {
    type V = Seq<char>;

    closed spec fn view(&self) -> Seq<char> {
        self.0@
    }
}

impl TokenType {
    /// The type's name.
    pub fn as_str(&self) -> (res: &str)
        ensures
            res@ == self@,
    {
        self.0.as_str()
    }

    /// The type's name, as rendered in messages.
    pub fn to_string(&self) -> (res: String)
        ensures
            res@ == self@,
    {
        self.0.clone()
    }
}

/// One entry of the legend's list of token modifiers.
#[derive(Debug)]
pub struct TokenModifier(String);

impl View for TokenModifier {
    type V = Seq<char>;

    closed spec fn view(&self) -> Seq<char> {
        self.0@
    }
}

impl TokenModifier {
    /// The modifier's name.
    pub fn as_str(&self) -> (res: &str)
        ensures
            res@ == self@,
    {
        self.0.as_str()
    }

    /// The modifier's name, as rendered in messages.
    pub fn to_string(&self) -> (res: String)
        ensures
            res@ == self@,
    {
        self.0.clone()
    }
}

/// Number of binary digits of `x` without leading zeros.
pub open spec fn bit_width(x: u32) -> nat
    decreases x,
{
    if x == 0 {
        0
    } else {
        1 + bit_width(x / 2)
    }
}

/// Two to the power `n`.
pub open spec fn pow2(n: nat) -> int
    decreases n,
{
    if n == 0 {
        1
    } else {
        2 * pow2((n - 1) as nat)
    }
}

/// Whether bit `i` of `bitset` is set, counting from the least significant one.
pub open spec fn bit_at(bitset: u32, i: int) -> bool {
    0 <= i && (bitset as int / pow2(i as nat)) % 2 == 1
}

/// The names whose position, among the first `n`, is a set bit of `bitset`.
pub open spec fn enabled_upto(names: Seq<Seq<char>>, bitset: u32, n: int) -> Seq<Seq<char>>
    decreases n,
{
    if n <= 0 {
        Seq::empty()
    } else {
        let head = enabled_upto(names, bitset, n - 1);
        if bit_at(bitset, n - 1) {
            head.push(names[n - 1])
        } else {
            head
        }
    }
}

/// The names that `bitset` switches on: bit `i` stands for `names[i]`.
pub open spec fn enabled_names(names: Seq<Seq<char>>, bitset: u32) -> Seq<Seq<char>> {
    enabled_upto(names, bitset, names.len() as int)
}

/// Walks the bits of a word from the least significant one up to the last set one.
#[derive(Debug)]
pub struct BitIter {
    bitset_remaining: u32,
}

impl BitIter {
    /// The bits that have not been handed out yet, the next one in the lowest place.
    pub closed spec fn remaining(&self) -> u32 {
        self.bitset_remaining
    }

    pub fn new(bitset: u32) -> (res: Self)
        ensures
            res.remaining() == bitset,
    {
        Self { bitset_remaining: bitset }
    }

    /// The next bit, or `None` once no set bit is left.
    pub fn next(&mut self) -> (res: Option<bool>)
        ensures
            old(self).remaining() == 0 ==> res is None && final(self).remaining() == 0,
            old(self).remaining() != 0 ==> res == Some(old(self).remaining() % 2 == 1)
                && final(self).remaining() == old(self).remaining() / 2,
    {
        if self.bitset_remaining == 0 {
            return None;
        }
        let current = self.bitset_remaining;
        let found_bit = (current & 1) != 0;
        assert((current & 1 != 0) == (current % 2 == 1)) by (bit_vector);
        assert(current >> 1 == current / 2) by (bit_vector);
        self.bitset_remaining = current >> 1;
        Some(found_bit)
    }

    /// How many bits `next` will still hand out, as lower and upper bound.
    pub fn size_hint(&self) -> (res: (usize, Option<usize>))
        ensures
            res.0 == bit_width(self.remaining()),
            res.1 == Some(res.0),
    {
        let mut rest: u32 = self.bitset_remaining;
        let mut count: usize = 0;
        proof {
            lemma_bit_width_bound(rest);
        }
        while rest != 0
            invariant
                count + bit_width(rest) == bit_width(self.bitset_remaining),
                bit_width(self.bitset_remaining) <= 32,
            decreases rest,
        {
            assert(rest >> 1 == rest / 2) by (bit_vector);
            rest = rest >> 1;
            count += 1;
        }
        (count, Some(count))
    }
}

proof fn lemma_bit_width_below(x: u32, n: nat)
    requires
        x < pow2(n),
    ensures
        bit_width(x) <= n,
    decreases n,
{
    if x != 0 {
        lemma_bit_width_below(x / 2, (n - 1) as nat);
    }
}

/// A 32-bit word has at most 32 binary digits.
pub proof fn lemma_bit_width_bound(x: u32)
    ensures
        bit_width(x) <= 32,
{
    assert(pow2(32) == 0x1_0000_0000) by {
        reveal_with_fuel(pow2, 33);
    }
    lemma_bit_width_below(x, 32);
}

proof fn lemma_pow2_positive(n: nat)
    ensures
        pow2(n) >= 1,
    decreases n,
{
    if n > 0 {
        lemma_pow2_positive((n - 1) as nat);
    }
}

proof fn lemma_no_bits_above(bitset: u32, i: nat, j: nat)
    requires
        bitset as int / pow2(i) == 0,
        i <= j,
    ensures
        bitset as int / pow2(j) == 0,
    decreases j - i,
{
    if i < j {
        lemma_pow2_positive(i);
        lemma_div_denominator(bitset as int, pow2(i), 2);
        assert(pow2(i + 1) == pow2(i) * 2);
        lemma_no_bits_above(bitset, i + 1, j);
    }
}

proof fn lemma_enabled_stops(names: Seq<Seq<char>>, bitset: u32, i: int, n: int)
    requires
        0 <= i <= n,
        bitset as int / pow2(i as nat) == 0,
    ensures
        enabled_upto(names, bitset, n) == enabled_upto(names, bitset, i),
    decreases n - i,
{
    if i < n {
        lemma_no_bits_above(bitset, i as nat, (n - 1) as nat);
        lemma_enabled_stops(names, bitset, i, n - 1);
    }
}

/// The two word lists that a server announces: token types and token modifiers.
/// A token refers to them by position.
#[derive(Debug)]
pub struct TokenLegend {
    token_types: Vec<TokenType>,
    token_modifiers: Vec<TokenModifier>,
}

impl TokenLegend {
    /// The names of the token types, in the legend's order.
    pub closed spec fn types(&self) -> Seq<Seq<char>> {
        self.token_types@.map_values(|t: TokenType| t@)
    }

    /// The names of the token modifiers, in the legend's order.
    pub closed spec fn modifiers(&self) -> Seq<Seq<char>> {
        self.token_modifiers@.map_values(|m: TokenModifier| m@)
    }

    /// Freezes the two vocabularies.
    pub fn new(token_types: Vec<String>, token_modifiers: Vec<String>) -> (res: Self)
        ensures
            res.types() == token_types@.map_values(|s: String| s@),
            res.modifiers() == token_modifiers@.map_values(|s: String| s@),
    {
        let mut types: Vec<TokenType> = Vec::new();
        let mut i: usize = 0;
        while i < token_types.len()
            invariant
                i <= token_types.len(),
                types.len() == i,
                forall|k: int| 0 <= k < i ==> (#[trigger] types@[k])@ == token_types@[k]@,
            decreases token_types.len() - i,
        {
            types.push(TokenType(token_types[i].clone()));
            i += 1;
        }
        let mut modifiers: Vec<TokenModifier> = Vec::new();
        let mut j: usize = 0;
        while j < token_modifiers.len()
            invariant
                j <= token_modifiers.len(),
                modifiers.len() == j,
                forall|k: int| 0 <= k < j ==> (#[trigger] modifiers@[k])@ == token_modifiers@[k]@,
            decreases token_modifiers.len() - j,
        {
            modifiers.push(TokenModifier(token_modifiers[j].clone()));
            j += 1;
        }
        proof {
            assert(types@.map_values(|t: TokenType| t@) =~= token_types@.map_values(
                |s: String| s@,
            ));
            assert(modifiers@.map_values(|m: TokenModifier| m@) =~= token_modifiers@.map_values(
                |s: String| s@,
            ));
        }
        Self { token_types: types, token_modifiers: modifiers }
    }
}

/// The modifiers of one token: the legend's list and the token's bit set over it.
#[derive(Debug, Clone, Copy)]
pub struct TokenModifers<'a> {
    legend: &'a Vec<TokenModifier>,
    bitset: u32,
}

impl<'a> TokenModifers<'a> {
    /// The names of all modifiers of the legend.
    pub closed spec fn legend_names(&self) -> Seq<Seq<char>> {
        self.legend@.map_values(|m: TokenModifier| m@)
    }

    /// The token's bit set: bit `i` stands for the legend's modifier `i`.
    pub closed spec fn bitset(&self) -> u32 {
        self.bitset
    }

    /// The names of the enabled modifiers, in the legend's order.
    pub open spec fn names(&self) -> Seq<Seq<char>> {
        enabled_names(self.legend_names(), self.bitset())
    }

    /// The enabled modifiers, in the legend's order.
    pub fn iter(&self) -> (res: Vec<&'a TokenModifier>)
        ensures
            res@.map_values(|m: &TokenModifier| m@) == self.names(),
    {
        let ghost names = self.legend_names();
        let mut bits = BitIter::new(self.bitset);
        let mut out: Vec<&'a TokenModifier> = Vec::new();
        let mut i: usize = 0;
        while i < self.legend.len()
            invariant
                i <= self.legend.len(),
                names == self.legend_names(),
                bits.remaining() as int == self.bitset as int / pow2(i as nat),
                out@.map_values(|m: &TokenModifier| m@) == enabled_upto(
                    names,
                    self.bitset,
                    i as int,
                ),
            decreases self.legend.len() - i,
        {
            match bits.next() {
                None => {
                    proof {
                        lemma_enabled_stops(names, self.bitset, i as int, names.len() as int);
                    }
                    return out;
                },
                Some(bit) => {
                    let ghost before = out@.map_values(|m: &TokenModifier| m@);
                    if bit {
                        out.push(&self.legend[i]);
                        proof {
                            assert(out@.map_values(|m: &TokenModifier| m@) =~= before.push(
                                names[i as int],
                            ));
                        }
                    }
                    proof {
                        lemma_pow2_positive(i as nat);
                        lemma_div_denominator(self.bitset as int, pow2(i as nat), 2);
                        assert(pow2((i + 1) as nat) == pow2(i as nat) * 2);
                    }
                },
            }
            i += 1;
        }
        out
    }
}

/// One entry of the packed stream in which a server sends the tokens of a file. Line and
/// start are relative to the entry before.
#[derive(Debug, Clone, Copy, PartialEq, Eq, Structural)]
pub struct SemanticToken {
    /// Lines between this token and the one before.
    pub delta_line: u32,
    /// First byte of the token: counted from the start of the line where the token opens
    /// a new line, else from the first byte of the token before.
    pub delta_start: u32,
    /// Length of the token in bytes.
    pub length: u32,
    /// Position of the token's type in the legend.
    pub token_type: u32,
    /// Bit `i` switches on the legend's modifier `i`.
    pub token_modifiers_bitset: u32,
}

/// Why a packed stream does not fit the file and the legend.
#[derive(Debug, Clone, Copy, PartialEq, Eq, Structural)]
pub enum DecodeError {
    /// The legend has no type at this position.
    InvalidTokenType { token_type: u32 },
    /// The file has no such line (counted from zero), or the line's number cannot be held.
    LineOutOfBounds { line: u64 },
    /// The bytes from `start` to `end` (counted from the start of the line) are not a
    /// piece of the line's text.
    RangeOutOfBounds { start: u64, end: u64 },
}

impl DecodeError {
    /// The error in words.
    pub open spec fn text(self) -> Seq<char> {
        match self {
            DecodeError::InvalidTokenType { token_type } => "invalid token type: "@ + decimal(
                token_type as nat,
            ),
            DecodeError::LineOutOfBounds { line } => "token line out of bounds: "@ + decimal(
                line as nat,
            ),
            DecodeError::RangeOutOfBounds { start, end } => "range out of bounds: "@ + decimal(
                start as nat,
            ) + ".."@ + decimal(end as nat),
        }
    }

    /// The error in words.
    pub fn message(&self) -> (res: String)
        ensures
            res@ == self.text(),
    {
        match self {
            DecodeError::InvalidTokenType { token_type } => {
                let mut out = String::from_str("invalid token type: ");
                out.append(u64_to_string(*token_type as u64).as_str());
                out
            },
            DecodeError::LineOutOfBounds { line } => {
                let mut out = String::from_str("token line out of bounds: ");
                out.append(u64_to_string(*line).as_str());
                out
            },
            DecodeError::RangeOutOfBounds { start, end } => {
                let mut out = String::from_str("range out of bounds: ");
                out.append(u64_to_string(*start).as_str());
                out.append("..");
                out.append(u64_to_string(*end).as_str());
                out
            },
        }
    }
}

/// Line and start byte (both counted from zero) of the last of the first `n` tokens.
pub open spec fn cursor(tokens: Seq<SemanticToken>, n: int) -> (int, int)
    decreases n,
{
    if n <= 0 {
        (0, 0)
    } else {
        let before = cursor(tokens, n - 1);
        let t = tokens[n - 1];
        (
            before.0 + t.delta_line,
            if t.delta_line > 0 {
                t.delta_start as int
            } else {
                before.1 + t.delta_start
            },
        )
    }
}

/// What a decoded token is.
pub ghost struct TokenView {
    /// Line, counted from one.
    pub line: int,
    /// First byte in the line, counted from one.
    pub character: int,
    /// Position of the type in the legend.
    pub type_index: int,
    /// Name of the type.
    pub token_type: Seq<char>,
    /// The bit set of modifiers.
    pub bitset: u32,
    /// Names of the enabled modifiers.
    pub modifiers: Seq<Seq<char>>,
    /// The token's text.
    pub text: Seq<char>,
}

/// First byte of token `i` in the file.
pub open spec fn token_start(bytes: Seq<u8>, tokens: Seq<SemanticToken>, i: int) -> int {
    line_offset(bytes, cursor(tokens, i + 1).0 as nat) + cursor(tokens, i + 1).1
}

/// What is wrong with token `i`, if anything. A token is held against the legend first,
/// then against the file's lines, then against the text of its line.
pub open spec fn token_fault(
    types: Seq<Seq<char>>,
    bytes: Seq<u8>,
    tokens: Seq<SemanticToken>,
    i: int,
) -> Option<DecodeError> {
    let t = tokens[i];
    let (line, start) = cursor(tokens, i + 1);
    let lo = token_start(bytes, tokens, i);
    let hi = lo + t.length;
    if t.token_type >= types.len() {
        Some(DecodeError::InvalidTokenType { token_type: t.token_type })
    } else if !(line < u32::MAX && has_line(bytes, line as nat)) {
        Some(DecodeError::LineOutOfBounds { line: line as u64 })
    } else if !(start < u32::MAX && hi <= line_end(bytes, line as nat) && is_char_boundary(
        bytes,
        lo,
    ) && is_char_boundary(bytes, hi)) {
        Some(DecodeError::RangeOutOfBounds { start: start as u64, end: (start + t.length) as u64 })
    } else {
        None
    }
}

/// What is wrong with the first token, from `i` on, with which something is wrong.
pub open spec fn first_fault_from(
    types: Seq<Seq<char>>,
    bytes: Seq<u8>,
    tokens: Seq<SemanticToken>,
    i: int,
) -> Option<DecodeError>
    decreases tokens.len() - i,
{
    if i < 0 || i >= tokens.len() {
        None
    } else {
        match token_fault(types, bytes, tokens, i) {
            Some(e) => Some(e),
            None => first_fault_from(types, bytes, tokens, i + 1),
        }
    }
}

/// What is wrong with the first token of the stream with which something is wrong.
pub open spec fn first_fault(
    types: Seq<Seq<char>>,
    bytes: Seq<u8>,
    tokens: Seq<SemanticToken>,
) -> Option<DecodeError> {
    first_fault_from(types, bytes, tokens, 0)
}

proof fn lemma_first_fault(
    types: Seq<Seq<char>>,
    bytes: Seq<u8>,
    tokens: Seq<SemanticToken>,
    from: int,
    stop: int,
)
    requires
        0 <= from <= stop <= tokens.len(),
        forall|j: int| from <= j < stop ==> #[trigger] token_fault(types, bytes, tokens, j) is None,
    ensures
        first_fault_from(types, bytes, tokens, from) == first_fault_from(
            types,
            bytes,
            tokens,
            stop,
        ),
    decreases stop - from,
{
    if from < stop {
        assert(token_fault(types, bytes, tokens, from) is None);
        lemma_first_fault(types, bytes, tokens, from + 1, stop);
    }
}

/// The token that entry `i` of the stream stands for.
pub open spec fn decoded_token(
    types: Seq<Seq<char>>,
    modifiers: Seq<Seq<char>>,
    bytes: Seq<u8>,
    tokens: Seq<SemanticToken>,
    i: int,
) -> TokenView {
    let t = tokens[i];
    let (line, start) = cursor(tokens, i + 1);
    let lo = token_start(bytes, tokens, i);
    TokenView {
        line: line + 1,
        character: start + 1,
        type_index: t.token_type as int,
        token_type: types[t.token_type as int],
        bitset: t.token_modifiers_bitset,
        modifiers: enabled_names(modifiers, t.token_modifiers_bitset),
        text: decode_utf8(bytes.subrange(lo, lo + t.length)),
    }
}

/// A token of a file, with its place, its type, its modifiers and its text.
#[derive(Debug)]
pub struct Token<'a> {
    /// 1-based line.
    line: u32,
    /// 1-based character.
    character: u32,
    /// Position of the type in the legend.
    type_index: u32,
    /// Token type.
    token_type: &'a TokenType,
    /// Token modifiers.
    token_modifiers: TokenModifers<'a>,
    /// Text data of the token.
    data: &'a str,
}

impl<'a> View for Token<'a> {
    type V = TokenView;

    closed spec fn view(&self) -> TokenView {
        TokenView {
            line: self.line as int,
            character: self.character as int,
            type_index: self.type_index as int,
            token_type: self.token_type@,
            bitset: self.token_modifiers.bitset(),
            modifiers: self.token_modifiers.names(),
            text: self.data@,
        }
    }
}

impl<'a> Token<'a> {
    #[verifier::type_invariant]
    spec fn counted_from_one(&self) -> bool {
        self.line >= 1 && self.character >= 1
    }

    /// The token's place in `file`, to be shown under `workspace`.
    pub fn location(&self, file: String, workspace: String) -> (res: McpLocation)
        ensures
            res@ == (McpLocationView {
                file: file@,
                line: self@.line,
                character: self@.character,
                workspace: workspace@,
            }),
    {
        proof {
            use_type_invariant(self);
        }
        McpLocation::new(file, self.line, self.character, workspace)
    }

    /// 1-based line.
    pub fn line(&self) -> (res: u32)
        ensures
            res == self@.line,
            res >= 1,
    {
        proof {
            use_type_invariant(self);
        }
        self.line
    }

    /// 1-based position of the first byte in the line.
    pub fn character(&self) -> (res: u32)
        ensures
            res == self@.character,
            res >= 1,
    {
        proof {
            use_type_invariant(self);
        }
        self.character
    }

    /// The token's text.
    pub fn text(&self) -> (res: &'a str)
        ensures
            res@ == self@.text,
    {
        self.data
    }

    pub fn token_type(&self) -> (res: &'a TokenType)
        ensures
            res@ == self@.token_type,
    {
        self.token_type
    }

    pub fn token_modifers(&self) -> (res: TokenModifers<'a>)
        ensures
            res.names() == self@.modifiers,
            res.bitset() == self@.bitset,
    {
        self.token_modifiers
    }
}

/// Every token has a place that can be held, and none lies before the one in front of it.
pub open spec fn ascending(doc: Seq<TokenView>) -> bool {
    forall|i: int|
        0 <= i < doc.len() ==> {
            &&& 1 <= (#[trigger] doc[i]).line <= u32::MAX
            &&& 1 <= doc[i].character <= u32::MAX
            &&& 0 <= doc[i].type_index <= u32::MAX
            &&& encode_utf8(doc[i].text).len() <= u32::MAX
            &&& i > 0 ==> pair_le(
                (doc[i - 1].line, doc[i - 1].character),
                (doc[i].line, doc[i].character),
            )
        }
}

/// Entry `i` of the packed stream that stands for `doc`.
pub open spec fn packed_token(doc: Seq<TokenView>, i: int) -> SemanticToken {
    let t = doc[i];
    let before = if i == 0 {
        (1int, 1int)
    } else {
        (doc[i - 1].line, doc[i - 1].character)
    };
    SemanticToken {
        delta_line: (t.line - before.0) as u32,
        delta_start: if t.line > before.0 {
            (t.character - 1) as u32
        } else {
            (t.character - before.1) as u32
        },
        length: encode_utf8(t.text).len() as u32,
        token_type: t.type_index as u32,
        token_modifiers_bitset: t.bitset,
    }
}

/// The packed stream that stands for `doc`.
pub open spec fn packed_stream(doc: Seq<TokenView>) -> Seq<SemanticToken> {
    Seq::new(doc.len(), |i: int| packed_token(doc, i))
}

/// The tokens that a stream without fault stands for.
pub open spec fn decoded_stream(
    types: Seq<Seq<char>>,
    modifiers: Seq<Seq<char>>,
    bytes: Seq<u8>,
    tokens: Seq<SemanticToken>,
) -> Seq<TokenView> {
    Seq::new(tokens.len(), |i: int| decoded_token(types, modifiers, bytes, tokens, i))
}

/// The tokens of one file, in the order of the stream.
#[derive(Debug)]
pub struct Document<'legend> {
    tokens: Vec<Token<'legend>>,
}

impl<'legend> Document<'legend> {
    #[verifier::type_invariant]
    spec fn well_formed(&self) -> bool {
        ascending(self.tokens@.map_values(|t: Token<'legend>| t@))
    }
}

impl<'legend> View for Document<'legend> {
    type V = Seq<TokenView>;

    closed spec fn view(&self) -> Seq<TokenView> {
        self.tokens@.map_values(|t: Token<'legend>| t@)
    }
}

proof fn lemma_cursor_nonnegative(tokens: Seq<SemanticToken>, n: int)
    ensures
        cursor(tokens, n).0 >= 0,
        cursor(tokens, n).1 >= 0,
    decreases n,
{
    if n > 0 {
        lemma_cursor_nonnegative(tokens, n - 1);
    }
}

proof fn lemma_decoded_text_length(
    types: Seq<Seq<char>>,
    modifiers: Seq<Seq<char>>,
    bytes: Seq<u8>,
    tokens: Seq<SemanticToken>,
    i: int,
)
    requires
        valid_utf8(bytes),
        0 <= i < tokens.len(),
        token_fault(types, bytes, tokens, i) is None,
    ensures
        encode_utf8(decoded_token(types, modifiers, bytes, tokens, i).text).len()
            == tokens[i].length,
{
    let line = cursor(tokens, i + 1).0;
    let lo = token_start(bytes, tokens, i);
    let hi = lo + tokens[i].length;
    lemma_cursor_nonnegative(tokens, i + 1);
    lemma_line_offset_bounds(bytes, line as nat);
    lemma_line_end_bounds(bytes, line as nat);
    lemma_piece_is_valid(bytes, lo, hi);
    decode_utf8_encode_utf8(bytes.subrange(lo, hi));
}

/// The tokens of a stream without fault never step back: each lies on the line of the
/// one before it and not before it, or on a later line. Their places, their types and
/// the lengths of their texts can all be held in 32 bits.
pub proof fn lemma_decoded_tokens_ascend(
    types: Seq<Seq<char>>,
    modifiers: Seq<Seq<char>>,
    file: Seq<char>,
    tokens: Seq<SemanticToken>,
)
    requires
        forall|i: int|
            0 <= i < tokens.len() ==> #[trigger] token_fault(
                types,
                encode_utf8(file),
                tokens,
                i,
            ) is None,
    ensures
        ascending(decoded_stream(types, modifiers, encode_utf8(file), tokens)),
{
    let bytes = encode_utf8(file);
    let doc = decoded_stream(types, modifiers, bytes, tokens);
    encode_utf8_valid_utf8(file);
    assert forall|i: int| 0 <= i < doc.len() implies {
        &&& 1 <= (#[trigger] doc[i]).line <= u32::MAX
        &&& 1 <= doc[i].character <= u32::MAX
        &&& 0 <= doc[i].type_index <= u32::MAX
        &&& encode_utf8(doc[i].text).len() <= u32::MAX
        &&& i > 0 ==> pair_le(
            (doc[i - 1].line, doc[i - 1].character),
            (doc[i].line, doc[i].character),
        )
    } by {
        assert(token_fault(types, bytes, tokens, i) is None);
        lemma_cursor_nonnegative(tokens, i + 1);
        lemma_cursor_nonnegative(tokens, i);
        lemma_decoded_text_length(types, modifiers, bytes, tokens, i);
    }
}

/// Packing the tokens of a stream without fault gives the stream back.
pub proof fn lemma_packing_undoes_decoding(
    types: Seq<Seq<char>>,
    modifiers: Seq<Seq<char>>,
    file: Seq<char>,
    tokens: Seq<SemanticToken>,
)
    requires
        forall|i: int|
            0 <= i < tokens.len() ==> #[trigger] token_fault(
                types,
                encode_utf8(file),
                tokens,
                i,
            ) is None,
    ensures
        packed_stream(decoded_stream(types, modifiers, encode_utf8(file), tokens)) == tokens,
{
    let bytes = encode_utf8(file);
    let doc = decoded_stream(types, modifiers, bytes, tokens);
    encode_utf8_valid_utf8(file);
    assert forall|i: int| 0 <= i < tokens.len() implies packed_token(doc, i) == tokens[i] by {
        assert(token_fault(types, bytes, tokens, i) is None);
        lemma_cursor_nonnegative(tokens, i + 1);
        lemma_cursor_nonnegative(tokens, i);
        lemma_decoded_text_length(types, modifiers, bytes, tokens, i);
    }
    assert(packed_stream(doc) =~= tokens);
}

impl TokenLegend {
    /// Unpacks a stream of tokens against the text of their file.
    ///
    /// Succeeds where every entry names a type of the legend, a line of the file and a
    /// piece of that line's text; else the first entry that does not says what is wrong.
    pub fn decode<'a>(&'a self, file_content: &'a str, tokens: Vec<SemanticToken>) -> (res: Result<
        Document<'a>,
        DecodeError,
    >)
        ensures
            first_fault(self.types(), file_content.spec_bytes(), tokens@) == match res {
                Ok(_) => None,
                Err(e) => Some(e),
            },
            res matches Ok(doc) ==> doc@ == decoded_stream(
                self.types(),
                self.modifiers(),
                file_content.spec_bytes(),
                tokens@,
            ) && ascending(doc@),
    {
        let res = self.decode_stream(file_content, &tokens);
        proof {
            let types = self.types();
            let bytes = file_content.spec_bytes();
            match &res {
                Ok(doc) => {
                    lemma_first_fault(types, bytes, tokens@, 0, tokens@.len() as int);
                    assert(doc@ =~= decoded_stream(types, self.modifiers(), bytes, tokens@));
                },
                Err(e) => {
                    let i = choose|i: int|
                        {
                            &&& 0 <= i < tokens@.len()
                            &&& #[trigger] token_fault(types, bytes, tokens@, i) == Some(*e)
                            &&& forall|j: int|
                                0 <= j < i ==> #[trigger] token_fault(types, bytes, tokens@, j)
                                    is None
                        };
                    lemma_first_fault(types, bytes, tokens@, 0, i);
                },
            }
        }
        res
    }

    fn decode_stream<'a>(&'a self, file_content: &'a str, tokens: &Vec<SemanticToken>) -> (res:
        Result<Document<'a>, DecodeError>)
        ensures
            match res {
                Ok(doc) => {
                    &&& doc@.len() == tokens@.len()
                    &&& ascending(doc@)
                    &&& forall|i: int|
                        0 <= i < tokens@.len() ==> #[trigger] token_fault(
                            self.types(),
                            file_content.spec_bytes(),
                            tokens@,
                            i,
                        ) is None
                    &&& forall|i: int|
                        0 <= i < tokens@.len() ==> #[trigger] doc@[i] == decoded_token(
                            self.types(),
                            self.modifiers(),
                            file_content.spec_bytes(),
                            tokens@,
                            i,
                        )
                },
                Err(e) => exists|i: int|
                    {
                        &&& 0 <= i < tokens@.len()
                        &&& #[trigger] token_fault(
                            self.types(),
                            file_content.spec_bytes(),
                            tokens@,
                            i,
                        ) == Some(e)
                        &&& forall|j: int|
                            0 <= j < i ==> #[trigger] token_fault(
                                self.types(),
                                file_content.spec_bytes(),
                                tokens@,
                                j,
                            ) is None
                    },
            },
    {
        let bytes = file_content.as_bytes();
        let ghost types = self.types();
        let ghost modifiers = self.modifiers();
        proof {
            encode_utf8_valid_utf8(file_content@);
        }
        let mut line: u64 = 0;
        let mut start: u64 = 0;
        let mut off: usize = 0;
        let mut nl: usize = find_newline(bytes, 0);
        let mut doc_tokens: Vec<Token<'a>> = Vec::new();
        let mut idx: usize = 0;
        while idx < tokens.len()
            invariant
                idx <= tokens@.len(),
                bytes@ == file_content.spec_bytes(),
                valid_utf8(bytes@),
                types == self.types(),
                modifiers == self.modifiers(),
                (line as int, start as int) == cursor(tokens@, idx as int),
                line < u32::MAX,
                start < u32::MAX,
                off == line_offset(bytes@, line as nat),
                nl == first_newline(bytes@, off as int),
                off <= nl <= bytes@.len(),
                doc_tokens.len() == idx,
                forall|k: int|
                    0 <= k < idx ==> #[trigger] token_fault(types, bytes@, tokens@, k) is None,
                forall|k: int|
                    0 <= k < idx ==> (#[trigger] doc_tokens@[k])@ == decoded_token(
                        types,
                        modifiers,
                        bytes@,
                        tokens@,
                        k,
                    ),
            decreases tokens@.len() - idx,
        {
            let t = tokens[idx];
            let new_line: u64 = line + t.delta_line as u64;
            let new_start: u64 = if t.delta_line > 0 {
                t.delta_start as u64
            } else {
                start + t.delta_start as u64
            };
            let new_end: u64 = new_start + t.length as u64;
            assert((new_line as int, new_start as int) == cursor(tokens@, idx + 1));
            if t.token_type as usize >= self.token_types.len() {
                return Err(DecodeError::InvalidTokenType { token_type: t.token_type });
            }
            if new_line >= u32::MAX as u64 {
                return Err(DecodeError::LineOutOfBounds { line: new_line });
            }
            let mut steps: u32 = t.delta_line;
            while steps > 0
                invariant
                    bytes@ == file_content.spec_bytes(),
                    line + steps == new_line,
                    off == line_offset(bytes@, line as nat),
                    nl == first_newline(bytes@, off as int),
                    off <= nl <= bytes@.len(),
                    forall|k: int|
                        0 <= k < idx ==> #[trigger] token_fault(types, bytes@, tokens@, k) is None,
                    (new_line as int, new_start as int) == cursor(tokens@, idx + 1),
                    new_line < u32::MAX,
                    t == tokens@[idx as int],
                    idx < tokens@.len(),
                    t.token_type < types.len(),
                    types == self.types(),
                decreases steps,
            {
                if off >= bytes.len() {
                    proof {
                        lemma_no_line_behind(bytes@, line as nat, steps as nat);
                        assert(token_fault(types, bytes@, tokens@, idx as int) == Some(
                            DecodeError::LineOutOfBounds { line: new_line },
                        ));
                    }
                    return Err(DecodeError::LineOutOfBounds { line: new_line });
                }
                off = if nl < bytes.len() {
                    nl + 1
                } else {
                    bytes.len()
                };
                nl = find_newline(bytes, off);
                line = line + 1;
                steps = steps - 1;
            }
            if off >= bytes.len() {
                proof {
                    assert(token_fault(types, bytes@, tokens@, idx as int) == Some(
                        DecodeError::LineOutOfBounds { line: new_line },
                    ));
                }
                return Err(DecodeError::LineOutOfBounds { line: new_line });
            }
            let end_of_line: usize = if off < nl && nl < bytes.len() && bytes[nl - 1] == 13 {
                nl - 1
            } else {
                nl
            };
            assert(end_of_line == line_end(bytes@, line as nat));
            let room: usize = end_of_line - off;
            let ghost lo_spec = token_start(bytes@, tokens@, idx as int);
            assert(lo_spec == off + new_start);
            if new_start >= u32::MAX as u64 || new_end > room as u64 {
                proof {
                    assert(token_fault(types, bytes@, tokens@, idx as int) == Some(
                        DecodeError::RangeOutOfBounds { start: new_start, end: new_end },
                    ));
                }
                return Err(DecodeError::RangeOutOfBounds { start: new_start, end: new_end });
            }
            let lo: usize = off + new_start as usize;
            let hi: usize = off + new_end as usize;
            if !file_content.is_char_boundary(lo) || !file_content.is_char_boundary(hi) {
                proof {
                    assert(token_fault(types, bytes@, tokens@, idx as int) == Some(
                        DecodeError::RangeOutOfBounds { start: new_start, end: new_end },
                    ));
                }
                return Err(DecodeError::RangeOutOfBounds { start: new_start, end: new_end });
            }
            let data = substring(file_content, lo, hi);
            let token_type = &self.token_types[t.token_type as usize];
            let token = Token {
                line: (new_line + 1) as u32,
                character: (new_start + 1) as u32,
                type_index: t.token_type,
                token_type,
                token_modifiers: TokenModifers {
                    legend: &self.token_modifiers,
                    bitset: t.token_modifiers_bitset,
                },
                data,
            };
            proof {
                encode_utf8_decode_utf8(data@);
                assert(token_fault(types, bytes@, tokens@, idx as int) is None);
                assert(token@ == decoded_token(types, modifiers, bytes@, tokens@, idx as int));
            }
            doc_tokens.push(token);
            start = new_start;
            idx += 1;
        }
        proof {
            let views = doc_tokens@.map_values(|t: Token<'a>| t@);
            assert(views =~= decoded_stream(types, modifiers, bytes@, tokens@));
            lemma_decoded_tokens_ascend(types, modifiers, file_content@, tokens@);
        }
        let doc = Document { tokens: doc_tokens };
        proof {
            assert(doc@ =~= decoded_stream(types, modifiers, bytes@, tokens@));
        }
        Ok(doc)
    }
}

/// How far a place lies from a hint; nothing where there is no hint.
pub open spec fn distance(hint: Option<u32>, at: int) -> int {
    match hint {
        Some(h) => if h >= at {
            h - at
        } else {
            at - h
        },
        None => 0,
    }
}

/// By what a query ranks a token: the distance in lines first, then that in characters.
pub open spec fn query_key(t: TokenView, line: Option<u32>, character: Option<u32>) -> (int, int) {
    (distance(line, t.line), distance(character, t.character))
}

/// The order of pairs: by the first part, and by the second where the first parts agree.
pub open spec fn pair_le(a: (int, int), b: (int, int)) -> bool {
    a.0 < b.0 || (a.0 == b.0 && a.1 <= b.1)
}

/// Whether `t` carries the text `name` and no token of `doc` with that text ranks
/// before it.
pub open spec fn is_best(
    doc: Seq<TokenView>,
    name: Seq<char>,
    line: Option<u32>,
    character: Option<u32>,
    t: TokenView,
) -> bool {
    &&& t.text == name
    &&& forall|j: int|
        0 <= j < doc.len() && (#[trigger] doc[j]).text == name ==> pair_le(
            query_key(t, line, character),
            query_key(doc[j], line, character),
        )
}

/// Whether key `i` is a least one of `keys`.
pub open spec fn is_least(keys: Seq<(u32, u32)>, i: int) -> bool {
    forall|j: int|
        0 <= j < keys.len() ==> pair_le(
            (keys[i].0 as int, keys[i].1 as int),
            (#[trigger] keys[j].0 as int, keys[j].1 as int),
        )
}

/// Calls `itertools::Itertools::min_set_by_key` on the keys, each together with its
/// position, and hands back the positions of what it returned.
///
/// The contract claims what that function documents: it returns all items whose key is a
/// least one, in the order in which they were handed in.
#[verifier::external_body]
fn min_set_positions(keys: &Vec<(u32, u32)>) -> (res: Vec<usize>)
    ensures
        forall|a: int, b: int| 0 <= a < b < res@.len() ==> res@[a] < res@[b],
        forall|a: int| 0 <= a < res@.len() ==> res@[a] < keys@.len(),
        forall|i: int|
            0 <= i < keys@.len() ==> (res@.contains(i as usize) <==> is_least(keys@, i)),
{
    keys.iter().enumerate().min_set_by_key(|item| *item.1).into_iter().map(|item| item.0).collect()
}

/// Filtering a sequence keeps the items at the positions that meet the predicate, in
/// their order.
proof fn lemma_filter_by_positions<A>(s: Seq<A>, pred: spec_fn(A) -> bool, at: Seq<int>)
    requires
        forall|a: int, b: int| 0 <= a < b < at.len() ==> at[a] < at[b],
        forall|a: int| 0 <= a < at.len() ==> 0 <= #[trigger] at[a] < s.len(),
        forall|i: int| 0 <= i < s.len() ==> (pred(#[trigger] s[i]) <==> at.contains(i)),
    ensures
        s.filter(pred) == Seq::new(at.len(), |k: int| s[at[k]]),
    decreases s.len(),
{
    reveal(Seq::filter);
    let picked = Seq::new(at.len(), |k: int| s[at[k]]);
    if s.len() == 0 {
        assert(at.len() == 0) by {
            if at.len() > 0 {
                assert(0 <= at[0] < s.len());
            }
        }
        assert(s.filter(pred) =~= picked);
    } else {
        let last = s.len() - 1;
        let front = s.drop_last();
        if pred(s.last()) {
            assert(at.contains(last));
            let w = choose|w: int| 0 <= w < at.len() && at[w] == last;
            assert(w == at.len() - 1) by {
                if w < at.len() - 1 {
                    assert(at[w] < at[at.len() - 1]);
                    assert(0 <= at[at.len() - 1] < s.len());
                }
            }
            let rest = at.drop_last();
            assert forall|i: int| 0 <= i < front.len() implies (pred(#[trigger] front[i])
                <==> rest.contains(i)) by {
                assert(front[i] == s[i]);
                if at.contains(i) {
                    let v = choose|v: int| 0 <= v < at.len() && at[v] == i;
                    assert(rest[v] == i);
                }
                if rest.contains(i) {
                    let v = choose|v: int| 0 <= v < rest.len() && rest[v] == i;
                    assert(at[v] == i);
                }
            }
            assert forall|a: int| 0 <= a < rest.len() implies 0 <= #[trigger] rest[a]
                < front.len() by {
                assert(rest[a] == at[a]);
                assert(at[a] < at[at.len() - 1]);
            }
            lemma_filter_by_positions(front, pred, rest);
            assert(s.filter(pred) =~= picked);
        } else {
            assert forall|a: int| 0 <= a < at.len() implies 0 <= #[trigger] at[a]
                < front.len() by {
                if at[a] == last {
                    assert(at.contains(last));
                }
            }
            assert forall|i: int| 0 <= i < front.len() implies (pred(#[trigger] front[i])
                <==> at.contains(i)) by {
                assert(front[i] == s[i]);
            }
            lemma_filter_by_positions(front, pred, at);
            assert(s.filter(pred) =~= picked);
        }
    }
}

fn distance_to(hint: Option<u32>, at: u32) -> (res: u32)
    ensures
        res == distance(hint, at as int),
{
    match hint {
        Some(h) => if h >= at {
            h - at
        } else {
            at - h
        },
        None => 0,
    }
}

impl<'legend> Document<'legend> {
    /// Number of tokens.
    pub fn len(&self) -> (res: usize)
        ensures
            res == self@.len(),
    {
        self.tokens.len()
    }

    /// The packed stream that stands for this document.
    pub fn delta_stream(&self) -> (res: Vec<SemanticToken>)
        ensures
            res@ == packed_stream(self@),
    {
        proof {
            use_type_invariant(self);
        }
        let ghost doc = self@;
        let mut out: Vec<SemanticToken> = Vec::new();
        let mut line: u32 = 1;
        let mut character: u32 = 1;
        let mut i: usize = 0;
        while i < self.tokens.len()
            invariant
                i <= self.tokens.len(),
                doc == self@,
                ascending(doc),
                out.len() == i,
                (line as int, character as int) == if i == 0 {
                    (1int, 1int)
                } else {
                    (doc[i - 1].line, doc[i - 1].character)
                },
                forall|k: int| 0 <= k < i ==> #[trigger] out@[k] == packed_token(doc, k),
            decreases self.tokens.len() - i,
        {
            let token = &self.tokens[i];
            assert(token@ == doc[i as int]);
            let length = token.data.len();
            out.push(
                SemanticToken {
                    delta_line: token.line - line,
                    delta_start: if token.line > line {
                        token.character - 1
                    } else {
                        token.character - character
                    },
                    length: length as u32,
                    token_type: token.type_index,
                    token_modifiers_bitset: token.token_modifiers.bitset,
                },
            );
            line = token.line;
            character = token.character;
            i += 1;
        }
        proof {
            assert(out@ =~= packed_stream(doc));
        }
        out
    }

    /// All tokens with the text `name` that lie nearest to the hinted place: nearest in
    /// lines, and among those nearest in characters. A hint that is left out does not
    /// rank. The tokens come in the document's order.
    pub fn query(&self, name: &str, line: Option<u32>, character: Option<u32>) -> (res: Vec<
        &Token<'legend>,
    >)
        ensures
            res@.map_values(|t: &Token<'legend>| t@) == self@.filter(
                |t: TokenView| is_best(self@, name@, line, character, t),
            ),
    {
        let ghost doc = self@;
        let mut matching: Vec<usize> = Vec::new();
        let mut keys: Vec<(u32, u32)> = Vec::new();
        let mut i: usize = 0;
        while i < self.tokens.len()
            invariant
                i <= self.tokens.len(),
                doc == self@,
                matching.len() == keys.len(),
                forall|a: int, b: int| 0 <= a < b < matching@.len() ==> matching@[a] < matching@[b],
                forall|a: int| 0 <= a < matching@.len() ==> (#[trigger] matching@[a]) < i,
                forall|a: int|
                    0 <= a < matching@.len() ==> doc[(#[trigger] matching@[a]) as int].text
                        == name@,
                forall|j: int|
                    0 <= j < i && (#[trigger] doc[j]).text == name@ ==> matching@.contains(
                        j as usize,
                    ),
                forall|a: int|
                    0 <= a < keys@.len() ==> ((#[trigger] keys@[a]).0 as int, keys@[a].1 as int)
                        == query_key(doc[matching@[a] as int], line, character),
            decreases self.tokens.len() - i,
        {
            let token = &self.tokens[i];
            assert(token@ == doc[i as int]);
            if str_eq(token.data, name) {
                let ghost before = matching@;
                matching.push(i);
                keys.push((distance_to(line, token.line), distance_to(character, token.character)));
                proof {
                    assert forall|j: int| 0 <= j < i + 1 && (#[trigger] doc[j]).text
                        == name@ implies matching@.contains(j as usize) by {
                        if j < i {
                            let w = choose|w: int| 0 <= w < before.len() && before[w] == j as usize;
                            assert(matching@[w] == j as usize);
                        } else {
                            assert(matching@[matching@.len() - 1] == j as usize);
                        }
                    }
                }
            }
            i += 1;
        }
        let chosen = min_set_positions(&keys);
        let ghost at = Seq::new(chosen@.len(), |k: int| matching@[chosen@[k] as int] as int);
        let mut out: Vec<&Token<'legend>> = Vec::new();
        let mut k: usize = 0;
        while k < chosen.len()
            invariant
                k <= chosen.len(),
                doc == self@,
                at == Seq::new(chosen@.len(), |k: int| matching@[chosen@[k] as int] as int),
                forall|a: int| 0 <= a < chosen@.len() ==> (#[trigger] chosen@[a]) < matching@.len(),
                forall|a: int|
                    0 <= a < matching@.len() ==> (#[trigger] matching@[a]) < self.tokens.len(),
                out.len() == k,
                forall|a: int| 0 <= a < k ==> (#[trigger] out@[a])@ == doc[at[a]],
            decreases chosen.len() - k,
        {
            let position = matching[chosen[k]];
            out.push(&self.tokens[position]);
            k += 1;
        }
        proof {
            let pred = |t: TokenView| is_best(doc, name@, line, character, t);
            assert forall|a: int, b: int| 0 <= a < b < at.len() implies at[a] < at[b] by {
                assert(chosen@[a] < chosen@[b]);
            }
            assert forall|j: int| 0 <= j < doc.len() implies (pred(#[trigger] doc[j])
                <==> at.contains(j)) by {
                if at.contains(j) {
                    let a = choose|a: int| 0 <= a < at.len() && at[a] == j;
                    let c = chosen@[a] as int;
                    assert(chosen@.contains(c as usize));
                    assert(is_least(keys@, c));
                    assert forall|m: int| 0 <= m < doc.len() && (#[trigger] doc[m]).text
                        == name@ implies pair_le(
                        query_key(doc[j], line, character),
                        query_key(doc[m], line, character),
                    ) by {
                        let w = choose|w: int|
                            0 <= w < matching@.len() && matching@[w] == m as usize;
                        assert(pair_le(
                            (keys@[c].0 as int, keys@[c].1 as int),
                            (keys@[w].0 as int, keys@[w].1 as int),
                        ));
                    }
                }
                if pred(doc[j]) {
                    let w = choose|w: int| 0 <= w < matching@.len() && matching@[w] == j as usize;
                    assert forall|m: int| 0 <= m < keys@.len() implies pair_le(
                        (keys@[w].0 as int, keys@[w].1 as int),
                        (#[trigger] keys@[m].0 as int, keys@[m].1 as int),
                    ) by {
                        let other = matching@[m] as int;
                        assert(doc[other].text == name@);
                    }
                    assert(is_least(keys@, w));
                    assert(chosen@.contains(w as usize));
                    let a = choose|a: int| 0 <= a < chosen@.len() && chosen@[a] == w as usize;
                    assert(at[a] == j);
                }
            }
            lemma_filter_by_positions(doc, pred, at);
            assert(out@.map_values(|t: &Token<'legend>| t@) =~= Seq::new(
                at.len(),
                |k: int| doc[at[k]],
            ));
        }
        out
    }
}

} // verus!
