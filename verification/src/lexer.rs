use crate::error::{LexerError, MonkeyError, Position};
use crate::text::{chars_of, string_from_chars};
use crate::token::{Token, TokenV};
use vstd::prelude::*;

verus! {

// ---------------------------------------------------------------------------------------------
// Character classes
// ---------------------------------------------------------------------------------------------

/// The characters that have the Unicode `White_Space` property.
pub open spec fn is_whitespace_spec(c: char) -> bool {
    let n = c as u32;
    ||| 0x09 <= n <= 0x0d
    ||| n == 0x20
    ||| n == 0x85
    ||| n == 0xa0
    ||| n == 0x1680
    ||| 0x2000 <= n <= 0x200a
    ||| n == 0x2028
    ||| n == 0x2029
    ||| n == 0x202f
    ||| n == 0x205f
    ||| n == 0x3000
}

pub open spec fn is_digit_spec(c: char) -> bool {
    0x30 <= (c as u32) <= 0x39
}

pub open spec fn digit_value(c: char) -> int {
    (c as u32) - 0x30
}

/// Whether `char::is_alphanumeric` holds of a character (the Unicode `Alphabetic` or `Numeric`
/// properties).
pub uninterp spec fn is_alphanumeric_spec(c: char) -> bool;

pub open spec fn is_ident_char(c: char) -> bool {
    is_alphanumeric_spec(c) || c == '_'
}

pub open spec fn is_number_char(c: char) -> bool {
    is_digit_spec(c) || c == '_'
}

/// Same as `char::is_whitespace`.
pub fn is_whitespace(c: char) -> (r: bool)
    ensures
        r == is_whitespace_spec(c),
{
    let n = c as u32;
    (0x09 <= n && n <= 0x0d) || n == 0x20 || n == 0x85 || n == 0xa0 || n == 0x1680 || (0x2000
        <= n && n <= 0x200a) || n == 0x2028 || n == 0x2029 || n == 0x202f || n == 0x205f || n
        == 0x3000
}

fn is_ascii_digit(c: char) -> (r: bool)
    ensures
        r == is_digit_spec(c),
{
    let n = c as u32;
    0x30 <= n && n <= 0x39
}

/// Calls `char::is_alphanumeric`; its result is the named predicate `is_alphanumeric_spec`.
/// Among ASCII characters, as `char::is_alphanumeric` documents, exactly the letters and the
/// digits are alphanumeric.
#[verifier::external_body]
fn is_alphanumeric(c: char) -> (r: bool)
    ensures
        r == is_alphanumeric_spec(c),
        (c as u32) < 128 ==> (r <==> (('a' <= c && c <= 'z') || ('A' <= c && c <= 'Z') || ('0' <= c
            && c <= '9'))),
{
    c.is_alphanumeric()
}

// ---------------------------------------------------------------------------------------------
// The character stream
// ---------------------------------------------------------------------------------------------

/// The input with every carriage return that directly precedes a line feed removed.
pub open spec fn strip_cr(s: Seq<char>) -> Seq<char>
    decreases s.len(),
{
    if s.len() == 0 {
        s
    } else if s.len() >= 2 && s[0] == '\r' && s[1] == '\n' {
        strip_cr(s.skip(1))
    } else {
        seq![s[0]] + strip_cr(s.skip(1))
    }
}

/// The stream of characters that the lexer reads: the input split into lines (a line ends at
/// "\n" or "\r\n"), each line followed by a single "\n".
pub open spec fn normalized(s: Seq<char>) -> Seq<char> {
    let t = strip_cr(s);
    if t.len() > 0 && t.last() != '\n' {
        t.push('\n')
    } else {
        t
    }
}

pub open spec fn count_newlines(t: Seq<char>) -> nat
    decreases t.len(),
{
    if t.len() == 0 {
        0
    } else {
        count_newlines(t.drop_last()) + if t.last() == '\n' {
            1nat
        } else {
            0nat
        }
    }
}

/// The index in `t` at which the line holding `t[k]` starts.
pub open spec fn line_start(t: Seq<char>, k: int) -> int
    decreases k,
{
    if k <= 0 {
        0
    } else if t[k - 1] == '\n' {
        k
    } else {
        line_start(t, k - 1)
    }
}

/// The position (line, column), both counted from 1, of `t[k]`.
pub open spec fn position_in(t: Seq<char>, k: int) -> (int, int) {
    (1 + count_newlines(t.take(k)) as int, k - line_start(t, k) + 1)
}

/// The positions, line and column, of the characters of a stream.
pub open spec fn source_positions(s: Seq<char>) -> Seq<Position> {
    Seq::new(s.len(), |k: int| (position_in(s, k).0 as usize, position_in(s, k).1 as usize))
}

/// The lexer at the start of a source text.
pub open spec fn source_state(s: Seq<char>) -> LexState {
    LexState {
        index: 0,
        pos: if s.len() > 0 {
            source_positions(s)[0]
        } else {
            (0usize, 0usize)
        },
    }
}


// ---------------------------------------------------------------------------------------------
// Scanning, over the stream `chars` with the positions `poss` of its characters
// ---------------------------------------------------------------------------------------------

/// Where the lexer stands: the index of the current character (`chars.len()` once the input is
/// exhausted) and the position reported as the current one.
pub struct LexState {
    pub index: int,
    pub pos: Position,
}

/// Reads one character. Past the end, the reported position stays that of the last character.
pub open spec fn advance(poss: Seq<Position>, s: LexState) -> LexState {
    if s.index + 1 < poss.len() {
        LexState { index: s.index + 1, pos: poss[s.index + 1] }
    } else {
        LexState { index: poss.len() as int, pos: s.pos }
    }
}

/// The state after reading characters up to `end`, having read at least one.
pub open spec fn state_at(poss: Seq<Position>, end: int) -> LexState {
    if end < poss.len() {
        LexState { index: end, pos: poss[end] }
    } else {
        LexState { index: poss.len() as int, pos: poss[poss.len() - 1] }
    }
}

pub open spec fn skip_whitespace(chars: Seq<char>, poss: Seq<Position>, s: LexState) -> LexState
    decreases chars.len() - s.index,
{
    if chars.len() == poss.len() && 0 <= s.index < chars.len() && is_whitespace_spec(
        chars[s.index],
    ) {
        skip_whitespace(chars, poss, advance(poss, s))
    } else {
        s
    }
}

/// The index just past the first line feed at or after `i` (or the end of the stream).
pub open spec fn after_newline(chars: Seq<char>, i: int) -> int
    decreases chars.len() - i,
{
    if i < 0 || i >= chars.len() {
        chars.len() as int
    } else if chars[i] == '\n' {
        i + 1
    } else {
        after_newline(chars, i + 1)
    }
}

/// Skips the rest of the current line. With no next line, the reported position is unchanged.
pub open spec fn skip_line(chars: Seq<char>, poss: Seq<Position>, s: LexState) -> LexState {
    let j = after_newline(chars, s.index);
    if j < poss.len() {
        LexState { index: j, pos: poss[j] }
    } else {
        LexState { index: poss.len() as int, pos: s.pos }
    }
}

/// The end of the run of characters, from `i`, that satisfy `is_ident_char`.
pub open spec fn ident_end(chars: Seq<char>, i: int) -> int
    decreases chars.len() - i,
{
    if 0 <= i < chars.len() && is_ident_char(chars[i]) {
        ident_end(chars, i + 1)
    } else {
        i
    }
}

/// The end of the run of digits and underscores from `i`.
pub open spec fn number_end(chars: Seq<char>, i: int) -> int
    decreases chars.len() - i,
{
    if 0 <= i < chars.len() && is_number_char(chars[i]) {
        number_end(chars, i + 1)
    } else {
        i
    }
}

/// The value of the decimal digits in `run`, underscores ignored.
pub open spec fn number_value(run: Seq<char>) -> int
    decreases run.len(),
{
    if run.len() == 0 {
        0
    } else if is_digit_spec(run.last()) {
        10 * number_value(run.drop_last()) + digit_value(run.last())
    } else {
        number_value(run.drop_last())
    }
}

/// The keyword that a literal spells, if any.
pub open spec fn keyword(lit: Seq<char>) -> Option<TokenV> {
    if lit =~= seq!['f', 'n'] {
        Some(TokenV::Function)
    } else if lit =~= seq!['l', 'e', 't'] {
        Some(TokenV::Let)
    } else if lit =~= seq!['t', 'r', 'u', 'e'] {
        Some(TokenV::True)
    } else if lit =~= seq!['f', 'a', 'l', 's', 'e'] {
        Some(TokenV::False)
    } else if lit =~= seq!['i', 'f'] {
        Some(TokenV::If)
    } else if lit =~= seq!['e', 'l', 's', 'e'] {
        Some(TokenV::Else)
    } else if lit =~= seq!['r', 'e', 't', 'u', 'r', 'n'] {
        Some(TokenV::Return)
    } else if lit =~= seq!['n', 'i', 'l'] {
        Some(TokenV::Nil)
    } else {
        None
    }
}

/// The character that an escape sequence `\c` stands for.
pub open spec fn escape_char(c: char) -> Option<char> {
    if c == '\\' {
        Some('\\')
    } else if c == 'n' {
        Some('\n')
    } else if c == 't' {
        Some('\t')
    } else if c == 'r' {
        Some('\r')
    } else if c == '"' {
        Some('"')
    } else {
        None
    }
}

/// The outcome of one lexing step.
pub enum LexStep {
    /// A token, the state after it, and the position where it starts.
    Token(TokenV, LexState, Position),
    /// An error, with the position where it was found.
    Error(LexerError, Position),
}

/// The outcome of reading a string literal.
pub enum StringScan {
    /// The contents, and the state after the closing quote.
    Done(Seq<char>, LexState),
    /// An error, with the position where it was found.
    Failed(LexerError, Position),
}

/// Reads the rest of a string literal whose contents so far are `acc`; `s` stands on the last
/// character consumed.
pub open spec fn scan_string(chars: Seq<char>, poss: Seq<Position>, s: LexState, acc: Seq<char>) -> StringScan
    decreases chars.len() - s.index,
{
    let s1 = advance(poss, s);
    if !(chars.len() == poss.len() && 0 <= s.index < chars.len()) {
        StringScan::Failed(LexerError::UnexpectedEOF, s.pos)
    } else if s1.index >= chars.len() {
        StringScan::Failed(LexerError::UnexpectedEOF, s1.pos)
    } else if chars[s1.index] == '"' {
        StringScan::Done(acc, advance(poss, s1))
    } else if chars[s1.index] == '\\' {
        let s2 = advance(poss, s1);
        if s2.index >= chars.len() {
            StringScan::Failed(LexerError::UnexpectedEOF, s2.pos)
        } else {
            match escape_char(chars[s2.index]) {
                Some(e) => scan_string(chars, poss, s2, acc.push(e)),
                None => StringScan::Failed(
                    LexerError::UnknownEscapeSequence(chars[s2.index]),
                    s2.pos,
                ),
            }
        }
    } else {
        scan_string(chars, poss, s1, acc.push(chars[s1.index]))
    }
}

/// The single-character token that a character stands for.
pub open spec fn single_char_token(c: char) -> Option<TokenV> {
    if c == '=' {
        Some(TokenV::Assign)
    } else if c == '!' {
        Some(TokenV::Bang)
    } else if c == '+' {
        Some(TokenV::Plus)
    } else if c == '-' {
        Some(TokenV::Minus)
    } else if c == '*' {
        Some(TokenV::Asterisk)
    } else if c == '/' {
        Some(TokenV::Slash)
    } else if c == '^' {
        Some(TokenV::Exponent)
    } else if c == '%' {
        Some(TokenV::Modulo)
    } else if c == '<' {
        Some(TokenV::LessThan)
    } else if c == '>' {
        Some(TokenV::GreaterThan)
    } else if c == ',' {
        Some(TokenV::Comma)
    } else if c == ';' {
        Some(TokenV::Semicolon)
    } else if c == ':' {
        Some(TokenV::Colon)
    } else if c == '(' {
        Some(TokenV::OpenParen)
    } else if c == ')' {
        Some(TokenV::CloseParen)
    } else if c == '{' {
        Some(TokenV::OpenCurlyBrace)
    } else if c == '}' {
        Some(TokenV::CloseCurlyBrace)
    } else if c == '[' {
        Some(TokenV::OpenSquareBracket)
    } else if c == ']' {
        Some(TokenV::CloseSquareBracket)
    } else {
        None
    }
}

/// The two-character token that a character and the one after it stand for.
pub open spec fn double_char_token(c: char, next: char) -> Option<TokenV> {
    if c == '=' && next == '=' {
        Some(TokenV::Equals)
    } else if c == '!' && next == '=' {
        Some(TokenV::NotEquals)
    } else if c == '<' && next == '=' {
        Some(TokenV::LessEq)
    } else if c == '>' && next == '=' {
        Some(TokenV::GreaterEq)
    } else if c == '#' && next == '{' {
        Some(TokenV::OpenHash)
    } else {
        None
    }
}

/// One step of the lexer from state `s`: skips whitespace and comments, and reads a token.
pub open spec fn lex_step(chars: Seq<char>, poss: Seq<Position>, s: LexState) -> LexStep
    decreases chars.len() - s.index,
{
    let s1 = skip_whitespace(chars, poss, s);
    let i = s1.index;
    if !(chars.len() == poss.len() && 0 <= s.index <= chars.len() && s.index <= i) {
        LexStep::Error(LexerError::UnexpectedEOF, s.pos)
    } else if i >= chars.len() {
        LexStep::Token(TokenV::EOF, s1, s1.pos)
    } else {
        let c = chars[i];
        let has_next = i + 1 < chars.len();
        if c == '/' && has_next && chars[i + 1] == '/' {
            let s2 = skip_line(chars, poss, s1);
            if s2.index > s.index {
                lex_step(chars, poss, s2)
            } else {
                LexStep::Error(LexerError::UnexpectedEOF, s.pos)
            }
        } else if has_next && double_char_token(c, chars[i + 1]) is Some {
            LexStep::Token(
                double_char_token(c, chars[i + 1])->Some_0,
                advance(poss, advance(poss, s1)),
                s1.pos,
            )
        } else if single_char_token(c) is Some {
            LexStep::Token(single_char_token(c)->Some_0, advance(poss, s1), s1.pos)
        } else if c == '"' {
            match scan_string(chars, poss, s1, seq![]) {
                StringScan::Done(contents, s2) => LexStep::Token(TokenV::Str(contents), s2, s1.pos),
                StringScan::Failed(e, p) => LexStep::Error(e, p),
            }
        } else if is_digit_spec(c) {
            let end = number_end(chars, i);
            let value = number_value(chars.subrange(i, end));
            if value <= i64::MAX {
                LexStep::Token(TokenV::Int(value as i64), state_at(poss, end), s1.pos)
            } else {
                LexStep::Error(LexerError::IntegerTooLarge, state_at(poss, end).pos)
            }
        } else if is_ident_char(c) {
            let end = ident_end(chars, i);
            let lit = chars.subrange(i, end);
            LexStep::Token(
                match keyword(lit) {
                    Some(k) => k,
                    None => TokenV::Identifier(lit),
                },
                state_at(poss, end),
                s1.pos,
            )
        } else {
            LexStep::Error(LexerError::IllegalChar(c), s1.pos)
        }
    }
}

// ---------------------------------------------------------------------------------------------
// Lemmas
// ---------------------------------------------------------------------------------------------

proof fn lemma_strip_cr_step(s: Seq<char>, i: int)
    requires
        0 <= i < s.len(),
    ensures
        s.skip(i).skip(1) == s.skip(i + 1),
        s.skip(i)[0] == s[i],
        s.skip(i).len() >= 2 ==> s.skip(i)[1] == s[i + 1],
        s.skip(i).len() >= 2 <==> i + 1 < s.len(),
{
    assert(s.skip(i).skip(1) =~= s.skip(i + 1));
}

proof fn lemma_count_newlines_step(t: Seq<char>, k: int)
    requires
        0 <= k < t.len(),
    ensures
        count_newlines(t.take(k + 1)) == count_newlines(t.take(k)) + if t[k] == '\n' {
            1nat
        } else {
            0nat
        },
{
    assert(t.take(k + 1).drop_last() =~= t.take(k));
}

proof fn lemma_number_value_step(run: Seq<char>, c: char)
    ensures
        number_value(run.push(c)) == if is_digit_spec(c) {
            10 * number_value(run) + digit_value(c)
        } else {
            number_value(run)
        },
        number_value(run.push(c)) >= number_value(run),
{
    assert(run.push(c).drop_last() =~= run);
    lemma_number_value_nonneg(run);
}

proof fn lemma_number_value_nonneg(run: Seq<char>)
    ensures
        number_value(run) >= 0,
    decreases run.len(),
{
    if run.len() > 0 {
        lemma_number_value_nonneg(run.drop_last());
    }
}

/// Law: once the lexer has given the end of input, every further step gives it again, from the
/// same state and at the same position.
pub proof fn lemma_eof_is_final(chars: Seq<char>, poss: Seq<Position>, s: LexState)
    requires
        chars.len() == poss.len(),
        lex_step(chars, poss, s) matches LexStep::Token(t, _, _) && t == TokenV::EOF,
    ensures
        match lex_step(chars, poss, s) {
            LexStep::Token(_, s1, p) => lex_step(chars, poss, s1) == LexStep::Token(TokenV::EOF, s1, p),
            LexStep::Error(_, _) => true,
        },
    decreases chars.len() - s.index,
{
    let s1 = skip_whitespace(chars, poss, s);
    if 0 <= s.index <= chars.len() {
        lemma_skip_whitespace_progress(chars, poss, s);
        let i = s1.index;
        if i < chars.len() {
            let c = chars[i];
            let has_next = i + 1 < chars.len();
            if c == '/' && has_next && chars[i + 1] == '/' {
                let s2 = skip_line(chars, poss, s1);
                if s2.index > s.index {
                    lemma_eof_is_final(chars, poss, s2);
                }
            } else if is_ident_char(c) {
                let lit = chars.subrange(i, ident_end(chars, i));
                assert(keyword(lit) is None || keyword(lit)->Some_0 != TokenV::EOF);
            }
        }
    }
}

proof fn lemma_skip_whitespace_progress(chars: Seq<char>, poss: Seq<Position>, s: LexState)
    requires
        chars.len() == poss.len(),
        0 <= s.index <= chars.len(),
    ensures
        s.index <= skip_whitespace(chars, poss, s).index <= chars.len(),
    decreases chars.len() - s.index,
{
    if 0 <= s.index < chars.len() && is_whitespace_spec(chars[s.index]) {
        lemma_skip_whitespace_progress(chars, poss, advance(poss, s));
    }
}

proof fn lemma_scan_string_progress(
    chars: Seq<char>,
    poss: Seq<Position>,
    s: LexState,
    acc: Seq<char>,
)
    requires
        chars.len() == poss.len(),
        0 <= s.index < chars.len(),
    ensures
        scan_string(chars, poss, s, acc) matches StringScan::Done(_, s2) ==> s.index < s2.index
            <= chars.len(),
    decreases chars.len() - s.index,
{
    let s1 = advance(poss, s);
    if s1.index < chars.len() && chars[s1.index] != '"' {
        if chars[s1.index] == '\\' {
            let s2 = advance(poss, s1);
            if s2.index < chars.len() {
                if escape_char(chars[s2.index]) is Some {
                    lemma_scan_string_progress(
                        chars,
                        poss,
                        s2,
                        acc.push(escape_char(chars[s2.index])->Some_0),
                    );
                }
            }
        } else {
            lemma_scan_string_progress(chars, poss, s1, acc.push(chars[s1.index]));
        }
    }
}

/// Each token moves the lexer forward, but for the end of input, after which it stays put.
pub proof fn lemma_lex_step_progress(chars: Seq<char>, poss: Seq<Position>, s: LexState)
    requires
        chars.len() == poss.len(),
        0 <= s.index <= chars.len(),
    ensures
        lex_step(chars, poss, s) matches LexStep::Token(t, s2, _) ==> {
            &&& s.index <= s2.index <= chars.len()
            &&& t != TokenV::EOF ==> s.index < s2.index
            &&& t == TokenV::EOF ==> s2.index == chars.len()
        },
    decreases chars.len() - s.index,
{
    lemma_skip_whitespace_progress(chars, poss, s);
    let s1 = skip_whitespace(chars, poss, s);
    let i = s1.index;
    if i < chars.len() {
        let c = chars[i];
        let has_next = i + 1 < chars.len();
        if c == '/' && has_next && chars[i + 1] == '/' {
            lemma_after_newline_bounds(chars, i);
            let s2 = skip_line(chars, poss, s1);
            if s2.index > s.index {
                lemma_lex_step_progress(chars, poss, s2);
            }
        } else if has_next && double_char_token(c, chars[i + 1]) is Some {
        } else if single_char_token(c) is Some {
        } else if c == '"' {
            lemma_scan_string_progress(chars, poss, s1, seq![]);
        } else if is_digit_spec(c) {
            lemma_number_end_bounds(chars, i + 1);
        } else if is_ident_char(c) {
            lemma_ident_end_bounds(chars, i + 1);
        }
    }
}

proof fn lemma_after_newline_bounds(chars: Seq<char>, i: int)
    requires
        0 <= i < chars.len(),
    ensures
        i < after_newline(chars, i) <= chars.len(),
    decreases chars.len() - i,
{
    if chars[i] != '\n' {
        if i + 1 < chars.len() {
            lemma_after_newline_bounds(chars, i + 1);
        } else {
            assert(after_newline(chars, i + 1) == chars.len());
        }
    }
}

proof fn lemma_ident_end_bounds(chars: Seq<char>, i: int)
    requires
        0 <= i <= chars.len(),
    ensures
        i <= ident_end(chars, i) <= chars.len(),
    decreases chars.len() - i,
{
    if 0 <= i < chars.len() && is_ident_char(chars[i]) {
        lemma_ident_end_bounds(chars, i + 1);
    }
}

proof fn lemma_number_end_bounds(chars: Seq<char>, i: int)
    requires
        0 <= i <= chars.len(),
    ensures
        i <= number_end(chars, i) <= chars.len(),
    decreases chars.len() - i,
{
    if 0 <= i < chars.len() && is_number_char(chars[i]) {
        lemma_number_end_bounds(chars, i + 1);
    }
}

// ---------------------------------------------------------------------------------------------
// The lexer
// ---------------------------------------------------------------------------------------------

/// Turns source text into tokens, one at a time.
pub struct Lexer {
    chars: Vec<char>,
    positions: Vec<Position>,
    index: usize,
    current_position: Position,
    token_position: Position,
}

impl Lexer {
    /// The character stream being read.
    pub closed spec fn stream(&self) -> Seq<char> {
        self.chars@
    }

    /// The positions of the characters of the stream.
    pub closed spec fn stream_positions(&self) -> Seq<Position> {
        self.positions@
    }

    /// Where the lexer stands in its stream.
    pub closed spec fn state(&self) -> LexState {
        LexState { index: self.index as int, pos: self.current_position }
    }

    pub closed spec fn spec_token_position(&self) -> Position {
        self.token_position
    }

    pub closed spec fn wf(&self) -> bool {
        &&& self.chars@.len() == self.positions@.len()
        &&& self.index <= self.chars@.len()
        &&& self.chars@.len() < usize::MAX
    }

    /// A sound lexer stands within its stream.
    pub proof fn lemma_wf_bounds(&self)
        requires
            self.wf(),
        ensures
            0 <= self.state().index <= self.stream().len(),
    {
    }

    /// Creates a lexer that reads `input`.
    pub fn new(input: &str) -> (lex: Lexer)
        ensures
            lex.wf(),
            lex.stream() == normalized(input@),
            lex.stream_positions().len() == lex.stream().len(),
            forall|k: int|
                0 <= k < lex.stream().len() ==> {
                    let p = #[trigger] lex.stream_positions()[k];
                    (p.0 as int, p.1 as int) == position_in(lex.stream(), k)
                },
            lex.state().index == 0,
            lex.state().pos == if lex.stream().len() > 0 {
                lex.stream_positions()[0]
            } else {
                (0usize, 0usize)
            },
            lex.spec_token_position() == (0usize, 0usize),
    {
        let input_chars = chars_of(input);
        let n = input_chars.len();
        // First pass: drop the carriage returns that end lines.
        let mut stripped: Vec<char> = Vec::new();
        let mut i: usize = 0;
        assert(input@.skip(0) =~= input@);
        while i < n
            invariant
                n == input_chars@.len(),
                n <= isize::MAX,
                input_chars@ == input@,
                i <= n,
                stripped@.len() <= i,
                stripped@ + strip_cr(input@.skip(i as int)) == strip_cr(input@),
            decreases n - i,
        {
            proof {
                lemma_strip_cr_step(input@, i as int);
            }
            let c = input_chars[i];
            if c == '\r' && i + 1 < n && input_chars[i + 1] == '\n' {
            } else {
                stripped.push(c);
                assert(stripped@ + strip_cr(input@.skip(i + 1)) =~= strip_cr(input@));
            }
            i = i + 1;
        }
        assert(input@.skip(n as int) =~= Seq::<char>::empty());
        assert(stripped@ =~= strip_cr(input@));
        if stripped.len() > 0 && stripped[stripped.len() - 1] != '\n' {
            stripped.push('\n');
        }
        assert(stripped@ =~= normalized(input@));
        // Second pass: the position of every character.
        let ghost t = stripped@;
        let m = stripped.len();
        let mut positions: Vec<Position> = Vec::new();
        let mut line: usize = 1;
        let mut column: usize = 1;
        let mut k: usize = 0;
        while k < m
            invariant
                m == t.len(),
                m <= isize::MAX + 1,
                stripped@ == t,
                k <= m,
                positions@.len() == k,
                line as int == 1 + count_newlines(t.take(k as int)),
                column as int == k - line_start(t, k as int) + 1,
                line <= k + 1,
                column <= k + 1,
                forall|j: int|
                    0 <= j < k ==> {
                        let p = #[trigger] positions@[j];
                        (p.0 as int, p.1 as int) == position_in(t, j)
                    },
            decreases m - k,
        {
            proof {
                lemma_count_newlines_step(t, k as int);
                assert(count_newlines(t.take(k as int)) <= k) by {
                    lemma_count_newlines_bound(t.take(k as int));
                }
            }
            positions.push((line, column));
            if stripped[k] == '\n' {
                line = line + 1;
                column = 1;
            } else {
                column = column + 1;
            }
            k = k + 1;
        }
        let current_position = if m > 0 {
            positions[0]
        } else {
            (0, 0)
        };
        Lexer {
            chars: stripped,
            positions,
            index: 0,
            current_position,
            token_position: (0, 0),
        }
    }

    /// Creates a lexer that reads `input`.
    pub fn from_string(input: String) -> (lex: Lexer)
        ensures
            lex.wf(),
            lex.stream() == normalized(input@),
            lex.stream_positions() == source_positions(lex.stream()),
            lex.state() == source_state(lex.stream()),
            lex.spec_token_position() == (0usize, 0usize),
    {
        let lex = Lexer::new(input.as_str());
        assert(lex.stream_positions() =~= source_positions(lex.stream()));
        lex
    }

    /// The position of the current character.
    pub fn current_position(&self) -> (r: Position)
        ensures
            r == self.state().pos,
    {
        self.current_position
    }

    /// The position of the first character of the last token returned by `next_token`.
    pub fn token_position(&self) -> (r: Position)
        ensures
            r == self.spec_token_position(),
    {
        self.token_position
    }

    /// Moves to the next character of the stream.
    fn read_char(&mut self)
        requires
            old(self).wf(),
        ensures
            final(self).wf(),
            final(self).chars@ == old(self).chars@,
            final(self).positions@ == old(self).positions@,
            final(self).token_position == old(self).token_position,
            final(self).state() == advance(old(self).positions@, old(self).state()),
    {
        if self.index + 1 < self.chars.len() {
            self.index = self.index + 1;
            self.current_position = self.positions[self.index];
        } else {
            self.index = self.chars.len();
        }
    }

    /// Moves to the first character of the next line.
    fn read_line(&mut self)
        requires
            old(self).wf(),
            old(self).index < old(self).chars@.len(),
        ensures
            final(self).wf(),
            final(self).chars@ == old(self).chars@,
            final(self).positions@ == old(self).positions@,
            final(self).token_position == old(self).token_position,
            final(self).state() == skip_line(old(self).chars@, old(self).positions@, old(self).state()),
    {
        let ghost start = self.index as int;
        let mut j = self.index;
        while j < self.chars.len() && self.chars[j] != '\n'
            invariant
                self.wf(),
                start <= j <= self.chars@.len(),
                after_newline(self.chars@, start) == after_newline(self.chars@, j as int),
            decreases self.chars@.len() - j,
        {
            j = j + 1;
        }
        if j < self.chars.len() {
            j = j + 1;
        }
        if j < self.chars.len() {
            self.index = j;
            self.current_position = self.positions[j];
        } else {
            self.index = self.chars.len();
        }
    }

    fn current_char(&self) -> (r: Option<char>)
        requires
            self.wf(),
        ensures
            r == if self.index < self.chars@.len() {
                Some(self.chars@[self.index as int])
            } else {
                None::<char>
            },
    {
        if self.index < self.chars.len() {
            Some(self.chars[self.index])
        } else {
            None
        }
    }

    fn peek_char(&self) -> (r: Option<char>)
        requires
            self.wf(),
        ensures
            r == if self.index + 1 < self.chars@.len() {
                Some(self.chars@[self.index + 1])
            } else {
                None::<char>
            },
    {
        if self.index + 1 < self.chars.len() {
            Some(self.chars[self.index + 1])
        } else {
            None
        }
    }

    fn consume_whitespace(&mut self)
        requires
            old(self).wf(),
        ensures
            final(self).wf(),
            final(self).chars@ == old(self).chars@,
            final(self).positions@ == old(self).positions@,
            final(self).token_position == old(self).token_position,
            final(self).state() == skip_whitespace(
                old(self).chars@,
                old(self).positions@,
                old(self).state(),
            ),
    {
        while self.index < self.chars.len() && is_whitespace(self.chars[self.index])
            invariant
                self.wf(),
                self.chars@ == old(self).chars@,
                self.positions@ == old(self).positions@,
                self.token_position == old(self).token_position,
                skip_whitespace(self.chars@, self.positions@, self.state()) == skip_whitespace(
                    old(self).chars@,
                    old(self).positions@,
                    old(self).state(),
                ),
            decreases self.chars@.len() - self.index,
        {
            self.read_char();
        }
    }

    /// Reads the next token from the stream.
    pub fn next_token(&mut self) -> (r: Result<Token, MonkeyError>)
        requires
            old(self).wf(),
        ensures
            final(self).wf(),
            final(self).stream() == old(self).stream(),
            final(self).stream_positions() == old(self).stream_positions(),
            match lex_step(old(self).stream(), old(self).stream_positions(), old(self).state()) {
                LexStep::Token(t, s, p) => {
                    &&& r is Ok
                    &&& r->Ok_0@ == t
                    &&& final(self).state() == s
                    &&& final(self).spec_token_position() == p
                },
                LexStep::Error(e, p) => r == Err::<Token, MonkeyError>(MonkeyError::Lexer(p, e)),
            },
            r is Ok ==> old(self).state().index <= final(self).state().index,
            r is Ok && r->Ok_0 != Token::EOF ==> old(self).state().index < final(self).state().index,
            r is Ok && r->Ok_0 == Token::EOF ==> final(self).state().index == final(self).stream().len(),
        decreases old(self).stream().len() - old(self).state().index,
    {
        let ghost s0 = self.state();
        proof {
            lemma_lex_step_progress(self.chars@, self.positions@, s0);
        }
        self.consume_whitespace();
        proof {
            lemma_skip_whitespace_progress(self.chars@, self.positions@, s0);
        }
        self.token_position = self.current_position;
        let cur = self.current_char();
        let peek = self.peek_char();
        let c = match cur {
            Some(c) => c,
            None => {
                return Ok(Token::EOF);
            },
        };
        if c == '/' && peek == Some('/') {
            let ghost s1 = self.state();
            proof {
                lemma_after_newline_bounds(self.chars@, self.index as int);
            }
            self.read_line();
            return self.next_token();
        }
        let next = match peek {
            Some(p) => p,
            None => ' ',
        };
        let double = if peek.is_some() {
            if c == '=' && next == '=' {
                Some(Token::Equals)
            } else if c == '!' && next == '=' {
                Some(Token::NotEquals)
            } else if c == '<' && next == '=' {
                Some(Token::LessEq)
            } else if c == '>' && next == '=' {
                Some(Token::GreaterEq)
            } else if c == '#' && next == '{' {
                Some(Token::OpenHash)
            } else {
                None
            }
        } else {
            None
        };
        if let Some(tok) = double {
            self.read_char();
            self.read_char();
            return Ok(tok);
        }
        let single = if c == '=' {
            Some(Token::Assign)
        } else if c == '!' {
            Some(Token::Bang)
        } else if c == '+' {
            Some(Token::Plus)
        } else if c == '-' {
            Some(Token::Minus)
        } else if c == '*' {
            Some(Token::Asterisk)
        } else if c == '/' {
            Some(Token::Slash)
        } else if c == '^' {
            Some(Token::Exponent)
        } else if c == '%' {
            Some(Token::Modulo)
        } else if c == '<' {
            Some(Token::LessThan)
        } else if c == '>' {
            Some(Token::GreaterThan)
        } else if c == ',' {
            Some(Token::Comma)
        } else if c == ';' {
            Some(Token::Semicolon)
        } else if c == ':' {
            Some(Token::Colon)
        } else if c == '(' {
            Some(Token::OpenParen)
        } else if c == ')' {
            Some(Token::CloseParen)
        } else if c == '{' {
            Some(Token::OpenCurlyBrace)
        } else if c == '}' {
            Some(Token::CloseCurlyBrace)
        } else if c == '[' {
            Some(Token::OpenSquareBracket)
        } else if c == ']' {
            Some(Token::CloseSquareBracket)
        } else {
            None
        };
        if let Some(tok) = single {
            self.read_char();
            return Ok(tok);
        }
        if c == '"' {
            return self.read_string();
        }
        if is_ascii_digit(c) {
            return self.read_number();
        }
        if is_alphanumeric(c) || c == '_' {
            return Ok(self.read_identifier());
        }
        Err(MonkeyError::Lexer(self.current_position, LexerError::IllegalChar(c)))
    }

    /// Reads an identifier or a keyword; the current character is its first.
    fn read_identifier(&mut self) -> (r: Token)
        requires
            old(self).wf(),
            old(self).index < old(self).chars@.len(),
            is_ident_char(old(self).chars@[old(self).index as int]),
        ensures
            final(self).wf(),
            final(self).chars@ == old(self).chars@,
            final(self).positions@ == old(self).positions@,
            final(self).token_position == old(self).token_position,
            ({
                let i = old(self).index as int;
                let end = ident_end(old(self).chars@, i);
                let lit = old(self).chars@.subrange(i, end);
                &&& final(self).state() == state_at(old(self).positions@, end)
                &&& r@ == match keyword(lit) {
                    Some(k) => k,
                    None => TokenV::Identifier(lit),
                }
            }),
    {
        let ghost i = self.index as int;
        let ghost chars = self.chars@;
        let start = self.index;
        let mut end = self.index;
        while end < self.chars.len() && (is_alphanumeric(self.chars[end]) || self.chars[end]
            == '_')
            invariant
                self.wf(),
                self.chars@ == chars,
                start <= end <= chars.len(),
                ident_end(chars, i) == ident_end(chars, end as int),
                forall|j: int| start <= j < end ==> is_ident_char(#[trigger] chars[j]),
            decreases chars.len() - end,
        {
            end = end + 1;
        }
        let mut literal: Vec<char> = Vec::new();
        let mut k = start;
        while k < end
            invariant
                self.wf(),
                self.chars@ == chars,
                start <= k <= end <= chars.len(),
                literal@ == chars.subrange(start as int, k as int),
            decreases end - k,
        {
            literal.push(self.chars[k]);
            assert(literal@ =~= chars.subrange(start as int, k + 1));
            k = k + 1;
        }
        // `end > start`, because the first character is part of the identifier.
        if end < self.chars.len() {
            self.index = end;
            self.current_position = self.positions[end];
        } else {
            self.index = self.chars.len();
            self.current_position = self.positions[self.chars.len() - 1];
        }
        match Lexer::match_keyword(&literal) {
            Some(tok) => tok,
            None => Token::Identifier(string_from_chars(&literal)),
        }
    }

    /// Reads an integer literal; the current character is a digit.
    fn read_number(&mut self) -> (r: Result<Token, MonkeyError>)
        requires
            old(self).wf(),
            old(self).index < old(self).chars@.len(),
            is_digit_spec(old(self).chars@[old(self).index as int]),
        ensures
            final(self).wf(),
            final(self).chars@ == old(self).chars@,
            final(self).positions@ == old(self).positions@,
            final(self).token_position == old(self).token_position,
            ({
                let i = old(self).index as int;
                let end = number_end(old(self).chars@, i);
                let value = number_value(old(self).chars@.subrange(i, end));
                &&& final(self).state() == state_at(old(self).positions@, end)
                &&& if value <= i64::MAX {
                    r is Ok && r->Ok_0@ == TokenV::Int(value as i64)
                } else {
                    r == Err::<Token, MonkeyError>(
                        MonkeyError::Lexer(
                            state_at(old(self).positions@, end).pos,
                            LexerError::IntegerTooLarge,
                        ),
                    )
                }
            }),
    {
        let ghost chars = self.chars@;
        let start = self.index;
        let mut end = self.index;
        let mut value: i64 = 0;
        let mut overflow = false;
        while end < self.chars.len() && (is_ascii_digit(self.chars[end]) || self.chars[end] == '_')
            invariant
                self.wf(),
                self.chars@ == chars,
                start <= end <= chars.len(),
                number_end(chars, start as int) == number_end(chars, end as int),
                !overflow ==> value == number_value(chars.subrange(start as int, end as int)),
                overflow ==> number_value(chars.subrange(start as int, end as int)) > i64::MAX,
            decreases chars.len() - end,
        {
            let c = self.chars[end];
            proof {
                let run = chars.subrange(start as int, end as int);
                assert(chars.subrange(start as int, end + 1) =~= run.push(c));
                lemma_number_value_step(run, c);
                lemma_number_value_nonneg(run);
            }
            if is_ascii_digit(c) && !overflow {
                let d = (c as u32 - 0x30) as i64;
                if value <= (i64::MAX - d) / 10 {
                    value = value * 10 + d;
                } else {
                    overflow = true;
                }
            }
            end = end + 1;
        }
        if end < self.chars.len() {
            self.index = end;
            self.current_position = self.positions[end];
        } else {
            self.index = self.chars.len();
            self.current_position = self.positions[self.chars.len() - 1];
        }
        if overflow {
            Err(MonkeyError::Lexer(self.current_position, LexerError::IntegerTooLarge))
        } else {
            Ok(Token::Int(value))
        }
    }

    /// Reads a string literal; the current character is its opening quote.
    fn read_string(&mut self) -> (r: Result<Token, MonkeyError>)
        requires
            old(self).wf(),
            old(self).index < old(self).chars@.len(),
        ensures
            final(self).wf(),
            final(self).chars@ == old(self).chars@,
            final(self).positions@ == old(self).positions@,
            final(self).token_position == old(self).token_position,
            match scan_string(old(self).chars@, old(self).positions@, old(self).state(), seq![]) {
                StringScan::Done(contents, s) => {
                    &&& r is Ok
                    &&& r->Ok_0@ == TokenV::Str(contents)
                    &&& final(self).state() == s
                },
                StringScan::Failed(e, p) => r == Err::<Token, MonkeyError>(MonkeyError::Lexer(p, e)),
            },
    {
        let ghost chars = self.chars@;
        let ghost poss = self.positions@;
        let ghost s0 = self.state();
        let mut result: Vec<char> = Vec::new();
        loop
            invariant
                self.wf(),
                self.chars@ == chars,
                self.positions@ == poss,
                chars == old(self).chars@,
                poss == old(self).positions@,
                s0 == old(self).state(),
                self.token_position == old(self).token_position,
                self.index < chars.len(),
                scan_string(chars, poss, self.state(), result@) == scan_string(
                    chars,
                    poss,
                    s0,
                    seq![],
                ),
            decreases chars.len() - self.index,
        {
            let ghost s_prev = self.state();
            self.read_char();
            let ghost s1 = self.state();
            assert(s1 == advance(poss, s_prev));
            match self.current_char() {
                Some(c) => {
                    if c == '"' {
                        let s = string_from_chars(&result);
                        self.read_char();
                        assert(scan_string(chars, poss, s_prev, result@) == StringScan::Done(
                            result@,
                            self.state(),
                        ));
                        return Ok(Token::Str(s));
                    } else if c == '\\' {
                        self.read_char();
                        match self.current_char() {
                            Some(e) => {
                                let mapped = if e == '\\' {
                                    '\\'
                                } else if e == 'n' {
                                    '\n'
                                } else if e == 't' {
                                    '\t'
                                } else if e == 'r' {
                                    '\r'
                                } else if e == '"' {
                                    '"'
                                } else {
                                    assert(escape_char(e) is None);
                                    assert(scan_string(chars, poss, s_prev, result@)
                                        == StringScan::Failed(
                                        LexerError::UnknownEscapeSequence(e),
                                        self.state().pos,
                                    ));
                                    return Err(
                                        MonkeyError::Lexer(
                                            self.current_position,
                                            LexerError::UnknownEscapeSequence(e),
                                        ),
                                    );
                                };
                                result.push(mapped);
                            },
                            None => {
                                return Err(
                                    MonkeyError::Lexer(
                                        self.current_position,
                                        LexerError::UnexpectedEOF,
                                    ),
                                );
                            },
                        }
                    } else {
                        result.push(c);
                    }
                },
                None => {
                    return Err(MonkeyError::Lexer(self.current_position, LexerError::UnexpectedEOF));
                },
            }
        }
    }

    /// The keyword that a literal spells, if any.
    fn match_keyword(literal: &Vec<char>) -> (r: Option<Token>)
        ensures
            match keyword(literal@) {
                Some(k) => r is Some && r->Some_0@ == k,
                None => r is None,
            },
    {
        let v = literal;
        let n = v.len();
        if n == 2 && v[0] == 'f' && v[1] == 'n' {
            assert(v@ =~= seq!['f', 'n']);
            Some(Token::Function)
        } else if n == 3 && v[0] == 'l' && v[1] == 'e' && v[2] == 't' {
            assert(v@ =~= seq!['l', 'e', 't']);
            Some(Token::Let)
        } else if n == 4 && v[0] == 't' && v[1] == 'r' && v[2] == 'u' && v[3] == 'e' {
            assert(v@ =~= seq!['t', 'r', 'u', 'e']);
            Some(Token::True)
        } else if n == 5 && v[0] == 'f' && v[1] == 'a' && v[2] == 'l' && v[3] == 's' && v[4]
            == 'e' {
            assert(v@ =~= seq!['f', 'a', 'l', 's', 'e']);
            Some(Token::False)
        } else if n == 2 && v[0] == 'i' && v[1] == 'f' {
            assert(v@ =~= seq!['i', 'f']);
            Some(Token::If)
        } else if n == 4 && v[0] == 'e' && v[1] == 'l' && v[2] == 's' && v[3] == 'e' {
            assert(v@ =~= seq!['e', 'l', 's', 'e']);
            Some(Token::Else)
        } else if n == 6 && v[0] == 'r' && v[1] == 'e' && v[2] == 't' && v[3] == 'u' && v[4]
            == 'r' && v[5] == 'n' {
            assert(v@ =~= seq!['r', 'e', 't', 'u', 'r', 'n']);
            Some(Token::Return)
        } else if n == 3 && v[0] == 'n' && v[1] == 'i' && v[2] == 'l' {
            assert(v@ =~= seq!['n', 'i', 'l']);
            Some(Token::Nil)
        } else {
            None
        }
    }
}

proof fn lemma_count_newlines_bound(t: Seq<char>)
    ensures
        count_newlines(t) <= t.len(),
    decreases t.len(),
{
    if t.len() > 0 {
        lemma_count_newlines_bound(t.drop_last());
    }
}

/// Law: the lexer's operators and keywords are the tokens that error messages name: a character
/// that forms a token on its own, a pair of characters that forms one, and a keyword (other than
/// `true` and `false`, named as boolean literals) each lexes to the token whose name is its own
/// text in backquotes.
pub proof fn lemma_tokens_spell_their_names(c: char, d: char, lit: Seq<char>)
    ensures
        single_char_token(c) is Some ==> crate::token::token_type_name(single_char_token(c)->Some_0)
            =~= seq!['`', c, '`'],
        double_char_token(c, d) is Some ==> crate::token::token_type_name(
            double_char_token(c, d)->Some_0,
        ) =~= seq!['`', c, d, '`'],
        keyword(lit) is Some && !(keyword(lit) == Some(TokenV::True)) && !(keyword(lit) == Some(
            TokenV::False,
        )) ==> crate::token::token_type_name(keyword(lit)->Some_0) =~= seq!['`'] + lit + seq!['`'],
{
    reveal_strlit("`=`");
    reveal_strlit("`!`");
    reveal_strlit("`+`");
    reveal_strlit("`-`");
    reveal_strlit("`*`");
    reveal_strlit("`/`");
    reveal_strlit("`^`");
    reveal_strlit("`%`");
    reveal_strlit("`<`");
    reveal_strlit("`>`");
    reveal_strlit("`,`");
    reveal_strlit("`;`");
    reveal_strlit("`:`");
    reveal_strlit("`(`");
    reveal_strlit("`)`");
    reveal_strlit("`{`");
    reveal_strlit("`}`");
    reveal_strlit("`[`");
    reveal_strlit("`]`");
    reveal_strlit("`==`");
    reveal_strlit("`!=`");
    reveal_strlit("`<=`");
    reveal_strlit("`>=`");
    reveal_strlit("`#{`");
    reveal_strlit("`fn`");
    reveal_strlit("`let`");
    reveal_strlit("`if`");
    reveal_strlit("`else`");
    reveal_strlit("`return`");
    reveal_strlit("`nil`");
}

/// Law: the decimal digits that print a natural number are all digits, and the lexer reads them
/// back as that number.
pub proof fn lemma_decimal_reads_back(n: nat)
    ensures
        forall|k: int|
            0 <= k < crate::text::decimal(n).len() ==> is_digit_spec(
                #[trigger] crate::text::decimal(n)[k],
            ),
        number_value(crate::text::decimal(n)) == n,
    decreases n,
{
    let d = crate::text::decimal(n);
    if n < 10 {
        assert(d.drop_last() =~= seq![]);
        assert(number_value(seq![]) == 0);
    } else {
        lemma_decimal_reads_back(n / 10);
        let prev = crate::text::decimal(n / 10);
        assert(d.drop_last() =~= prev);
        assert(d.last() == crate::text::digit_char(n % 10));
        assert forall|k: int| 0 <= k < d.len() implies is_digit_spec(#[trigger] d[k]) by {
            if k < prev.len() {
                assert(d[k] == prev[k]);
            }
        }
        assert(10 * (n / 10) + n % 10 == n);
    }
}

} // verus!
