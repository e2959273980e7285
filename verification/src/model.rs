//! The mathematical model of the scan.
//!
//! [`scan_step`] says what one token attempt does to the cursor, the line
//! counter, the token output and the diagnostics; [`scan_rest`] folds the
//! steps over the remaining input and appends the end-of-input token.  The
//! executable [`crate::scanner::Scanner`] is proved to produce exactly this
//! model's output.

use vstd::prelude::*;

use crate::errors::SpecDiagnostic;
use crate::token::SpecToken;
use crate::token::SpecTokenType;
use crate::token::spec_keyword;

verus! {

/// Whether the character has the Unicode `Alphabetic` property.
pub uninterp spec fn alphabetic(c: char) -> bool;

/// Whether the character is Unicode alphanumeric: alphabetic or numeric.
pub uninterp spec fn alphanumeric(c: char) -> bool;

/// Relies on char::is_alphabetic: whether the character has the Unicode
/// Alphabetic property, a function of the character alone.
#[verifier::external_body]
pub(crate) fn char_is_alphabetic(c: char) -> (r: bool)
    ensures
        r == alphabetic(c),
{
    c.is_alphabetic()
}

/// Relies on char::is_alphanumeric: whether the character is Unicode
/// alphanumeric, a function of the character alone.
#[verifier::external_body]
pub(crate) fn char_is_alphanumeric(c: char) -> (r: bool)
    ensures
        r == alphanumeric(c),
{
    c.is_alphanumeric()
}

/// An ASCII decimal digit, the only digits a number literal may hold.
pub open spec fn spec_is_digit(c: char) -> bool {
    48 <= c as u32 && c as u32 <= 57
}

/// Decides [`spec_is_digit`].
pub fn is_digit(c: char) -> (r: bool)
    ensures
        r == spec_is_digit(c),
{
    let u: u32 = c as u32;
    48 <= u && u <= 57
}

/// A character that may continue an identifier: alphanumeric or underscore.
pub open spec fn identifier_char(c: char) -> bool {
    alphanumeric(c) || c == '_'
}

/// The first index at or after `j` holding a newline, or the input's length:
/// where a line comment ends.
pub open spec fn comment_end(s: Seq<char>, j: int) -> int
    decreases s.len() - j,
    when 0 <= j <= s.len()
{
    if j == s.len() {
        j
    } else if s[j] == '\n' {
        j
    } else {
        comment_end(s, j + 1)
    }
}

/// The first index at or after `j` holding a closing quote, or the input's
/// length: where a string literal's text ends.
pub open spec fn string_end(s: Seq<char>, j: int) -> int
    decreases s.len() - j,
    when 0 <= j <= s.len()
{
    if j == s.len() {
        j
    } else if s[j] == '"' {
        j
    } else {
        string_end(s, j + 1)
    }
}

/// The first index at or after `j` holding a non-digit, or the input's
/// length: where a digit run ends.
pub open spec fn digits_end(s: Seq<char>, j: int) -> int
    decreases s.len() - j,
    when 0 <= j <= s.len()
{
    if j == s.len() {
        j
    } else if !spec_is_digit(s[j]) {
        j
    } else {
        digits_end(s, j + 1)
    }
}

/// The first index at or after `j` holding a character that cannot continue
/// an identifier, or the input's length.
pub open spec fn identifier_end(s: Seq<char>, j: int) -> int
    decreases s.len() - j,
    when 0 <= j <= s.len()
{
    if j == s.len() {
        j
    } else if !identifier_char(s[j]) {
        j
    } else {
        identifier_end(s, j + 1)
    }
}

/// How many newline characters the sequence holds.
pub open spec fn line_breaks(s: Seq<char>) -> int
    decreases s.len(),
{
    if s.len() == 0 {
        0
    } else {
        line_breaks(s.drop_last()) + if s.last() == '\n' {
            1int
        } else {
            0int
        }
    }
}

pub proof fn lemma_comment_end_bounds(s: Seq<char>, j: int)
    requires
        0 <= j <= s.len(),
    ensures
        j <= comment_end(s, j) <= s.len(),
    decreases s.len() - j,
{
    if j < s.len() && s[j] != '\n' {
        lemma_comment_end_bounds(s, j + 1);
    }
}

pub proof fn lemma_string_end_bounds(s: Seq<char>, j: int)
    requires
        0 <= j <= s.len(),
    ensures
        j <= string_end(s, j) <= s.len(),
    decreases s.len() - j,
{
    if j < s.len() && s[j] != '"' {
        lemma_string_end_bounds(s, j + 1);
    }
}

pub proof fn lemma_digits_end_bounds(s: Seq<char>, j: int)
    requires
        0 <= j <= s.len(),
    ensures
        j <= digits_end(s, j) <= s.len(),
    decreases s.len() - j,
{
    if j < s.len() && spec_is_digit(s[j]) {
        lemma_digits_end_bounds(s, j + 1);
    }
}

pub proof fn lemma_identifier_end_bounds(s: Seq<char>, j: int)
    requires
        0 <= j <= s.len(),
    ensures
        j <= identifier_end(s, j) <= s.len(),
    decreases s.len() - j,
{
    if j < s.len() && identifier_char(s[j]) {
        lemma_identifier_end_bounds(s, j + 1);
    }
}

/// Extending a slice by one character raises its newline count by one
/// exactly when that character is a newline.
pub proof fn lemma_line_breaks_extend(s: Seq<char>, a: int, k: int)
    requires
        0 <= a <= k < s.len(),
    ensures
        line_breaks(s.subrange(a, k + 1)) == line_breaks(s.subrange(a, k)) + if s[k] == '\n' {
            1int
        } else {
            0int
        },
{
    assert(s.subrange(a, k + 1).drop_last() =~= s.subrange(a, k));
    assert(s.subrange(a, k + 1).last() == s[k]);
}

pub proof fn lemma_line_breaks_bounds(s: Seq<char>)
    ensures
        0 <= line_breaks(s) <= s.len(),
    decreases s.len(),
{
    if s.len() > 0 {
        lemma_line_breaks_bounds(s.drop_last());
    }
}

/// What one token attempt, started at `i`, leaves behind: the new cursor,
/// the new line count, at most one token, and at most one diagnostic.
pub struct SpecStep {
    pub next: int,
    pub line: int,
    pub token: Option<SpecToken>,
    pub diag: Option<SpecDiagnostic>,
}

/// A step that consumes `s[i..j]`, emits nothing, and keeps the line count.
pub open spec fn silent_step(j: int, line: int) -> SpecStep {
    SpecStep { next: j, line, token: None, diag: None }
}

/// A step that consumes `s[i..j]` and emits one token of kind `k` whose
/// lexeme is exactly that text.
pub open spec fn token_step(s: Seq<char>, i: int, j: int, line: int, k: SpecTokenType) -> SpecStep {
    SpecStep {
        next: j,
        line,
        token: Some(SpecToken { token_type: k, lexeme: s.subrange(i, j), line }),
        diag: None,
    }
}

/// The message reported for an input byte that starts no token.
pub open spec fn unexpected_character_message() -> Seq<char> {
    "Unexpected character."@
}

/// The message reported for a string literal that never closes.
pub open spec fn unterminated_string_message() -> Seq<char> {
    "Unterminated string."@
}

/// One token attempt at position `i` of `s`, with `line` lines seen so far.
///
/// Dispatches on `s[i]`: punctuation and operators emit immediately, with
/// the two-character operator winning when the next character is `=`; `//`
/// consumes the rest of the line; whitespace is skipped; a newline bumps the
/// line count; a quote, a digit, an alphabetic character or an underscore
/// enters the matching literal mode; anything else is reported as an
/// unexpected character and skipped.
pub open spec fn scan_step(s: Seq<char>, i: int, line: int) -> SpecStep
    recommends
        0 <= i < s.len(),
{
    let c = s[i];
    if c == '(' {
        token_step(s, i, i + 1, line, SpecTokenType::LEFT_PAREN)
    } else if c == ')' {
        token_step(s, i, i + 1, line, SpecTokenType::RIGHT_PAREN)
    } else if c == '{' {
        token_step(s, i, i + 1, line, SpecTokenType::LEFT_BRACE)
    } else if c == '}' {
        token_step(s, i, i + 1, line, SpecTokenType::RIGHT_BRACE)
    } else if c == ',' {
        token_step(s, i, i + 1, line, SpecTokenType::COMMA)
    } else if c == '.' {
        token_step(s, i, i + 1, line, SpecTokenType::DOT)
    } else if c == '-' {
        token_step(s, i, i + 1, line, SpecTokenType::MINUS)
    } else if c == '+' {
        token_step(s, i, i + 1, line, SpecTokenType::PLUS)
    } else if c == ';' {
        token_step(s, i, i + 1, line, SpecTokenType::SEMICOLON)
    } else if c == '*' {
        token_step(s, i, i + 1, line, SpecTokenType::STAR)
    } else if c == '!' {
        if i + 1 < s.len() && s[i + 1] == '=' {
            token_step(s, i, i + 2, line, SpecTokenType::BANG_EQUAL)
        } else {
            token_step(s, i, i + 1, line, SpecTokenType::BANG)
        }
    } else if c == '=' {
        if i + 1 < s.len() && s[i + 1] == '=' {
            token_step(s, i, i + 2, line, SpecTokenType::EQUAL_EQUAL)
        } else {
            token_step(s, i, i + 1, line, SpecTokenType::EQUAL)
        }
    } else if c == '<' {
        if i + 1 < s.len() && s[i + 1] == '=' {
            token_step(s, i, i + 2, line, SpecTokenType::LESS_EQUAL)
        } else {
            token_step(s, i, i + 1, line, SpecTokenType::LESS)
        }
    } else if c == '>' {
        if i + 1 < s.len() && s[i + 1] == '=' {
            token_step(s, i, i + 2, line, SpecTokenType::GREATER_EQUAL)
        } else {
            token_step(s, i, i + 1, line, SpecTokenType::GREATER)
        }
    } else if c == '/' {
        if i + 1 < s.len() && s[i + 1] == '/' {
            silent_step(comment_end(s, i + 2), line)
        } else {
            token_step(s, i, i + 1, line, SpecTokenType::SLASH)
        }
    } else if c == ' ' || c == '\r' || c == '\t' {
        silent_step(i + 1, line)
    } else if c == '\n' {
        SpecStep { next: i + 1, line: line + 1, token: None, diag: None }
    } else if c == '"' {
        scan_string_step(s, i, line)
    } else if spec_is_digit(c) {
        scan_number_step(s, i, line)
    } else if alphabetic(c) || c == '_' {
        scan_identifier_step(s, i, line)
    } else {
        SpecStep {
            next: i + 1,
            line,
            token: None,
            diag: Some(SpecDiagnostic {
                line,
                context: Seq::empty(),
                message: unexpected_character_message(),
            }),
        }
    }
}

/// The string-literal mode, entered on the opening quote at `i`.
///
/// The literal's text runs to the next quote; each newline inside it raises
/// the line count.  A closed literal emits one STRING token, whose payload
/// strips the quotes, whose lexeme keeps them, and whose line is that of
/// its first character, the opening quote.  An unclosed literal emits no
/// token and one unterminated-string diagnostic for the final line.
pub open spec fn scan_string_step(s: Seq<char>, i: int, line: int) -> SpecStep
    recommends
        0 <= i < s.len(),
{
    let close = string_end(s, i + 1);
    let new_line = line + line_breaks(s.subrange(i + 1, close));
    if close == s.len() {
        SpecStep {
            next: close,
            line: new_line,
            token: None,
            diag: Some(SpecDiagnostic {
                line: new_line,
                context: Seq::empty(),
                message: unterminated_string_message(),
            }),
        }
    } else {
        SpecStep {
            next: close + 1,
            line: new_line,
            token: Some(SpecToken {
                token_type: SpecTokenType::STRING { literal: s.subrange(i + 1, close) },
                lexeme: s.subrange(i, close + 1),
                line,
            }),
            diag: None,
        }
    }
}

/// The number-literal mode, entered on a digit at `i`: one or more digits,
/// then optionally a dot followed by at least one digit.  A trailing dot is
/// left for the next token attempt.  The payload is the matched text, which
/// alone determines the decoded value.
pub open spec fn scan_number_step(s: Seq<char>, i: int, line: int) -> SpecStep
    recommends
        0 <= i < s.len(),
{
    let whole = digits_end(s, i + 1);
    let stop = if whole + 1 < s.len() && s[whole] == '.' && spec_is_digit(s[whole + 1]) {
        digits_end(s, whole + 1)
    } else {
        whole
    };
    SpecStep {
        next: stop,
        line,
        token: Some(SpecToken {
            token_type: SpecTokenType::NUMBER { literal: s.subrange(i, stop) },
            lexeme: s.subrange(i, stop),
            line,
        }),
        diag: None,
    }
}

/// The identifier mode, entered on an alphabetic character or underscore at
/// `i`: consumes alphanumerics and underscores greedily, then resolves the
/// text through the keyword table.
pub open spec fn scan_identifier_step(s: Seq<char>, i: int, line: int) -> SpecStep
    recommends
        0 <= i < s.len(),
{
    let end = identifier_end(s, i + 1);
    token_step(s, i, end, line, spec_keyword(s.subrange(i, end)))
}

/// Every step consumes at least one character, stays inside the input, and
/// raises the line count by at most the number of characters it consumes.
pub proof fn lemma_scan_step_bounds(s: Seq<char>, i: int, line: int)
    requires
        0 <= i < s.len(),
    ensures
        i < scan_step(s, i, line).next <= s.len(),
        line <= scan_step(s, i, line).line <= line + (scan_step(s, i, line).next - i),
{
    let c = s[i];
    if c == '"' {
        let close = string_end(s, i + 1);
        lemma_string_end_bounds(s, i + 1);
        lemma_line_breaks_bounds(s.subrange(i + 1, close));
    } else if c == '(' || c == ')' || c == '{' || c == '}' || c == ',' || c == '.' || c == '-'
        || c == '+' || c == ';' || c == '*' || c == '!' || c == '=' || c == '<' || c == '>' {
    } else if c == '/' {
        if i + 1 < s.len() && s[i + 1] == '/' {
            lemma_comment_end_bounds(s, i + 2);
        }
    } else if spec_is_digit(c) {
        let whole = digits_end(s, i + 1);
        lemma_digits_end_bounds(s, i + 1);
        if whole + 1 < s.len() && s[whole] == '.' && spec_is_digit(s[whole + 1]) {
            lemma_digits_end_bounds(s, whole + 1);
        }
    } else if (alphabetic(c) || c == '_') && !(c == ' ' || c == '\r' || c == '\t' || c == '\n') {
        lemma_identifier_end_bounds(s, i + 1);
    }
}

/// What a whole scan leaves behind: the token sequence, terminated by the
/// end-of-input token, and the diagnostics in the order they were reported.
pub struct SpecScanResult {
    pub tokens: Seq<SpecToken>,
    pub diags: Seq<SpecDiagnostic>,
}

/// The sequence an optional emission contributes: one element or none.
pub open spec fn opt_seq<A>(o: Option<A>) -> Seq<A> {
    match o {
        Option::Some(a) => seq![a],
        Option::None => Seq::empty(),
    }
}

/// The end-of-input token: empty lexeme, final line number.
pub open spec fn eof_token(line: int) -> SpecToken {
    SpecToken { token_type: SpecTokenType::EOF, lexeme: Seq::empty(), line }
}

/// Everything the scan yields from position `i` on, with `line` lines seen:
/// the steps' emissions in order, then exactly one end-of-input token.
pub open spec fn scan_rest(s: Seq<char>, i: int, line: int) -> SpecScanResult
    decreases s.len() - i,
    when 0 <= i <= s.len()
    via scan_rest_decreases
{
    if i == s.len() {
        SpecScanResult { tokens: seq![eof_token(line)], diags: Seq::empty() }
    } else {
        let st = scan_step(s, i, line);
        let rest = scan_rest(s, st.next, st.line);
        SpecScanResult {
            tokens: opt_seq(st.token) + rest.tokens,
            diags: opt_seq(st.diag) + rest.diags,
        }
    }
}

#[via_fn]
proof fn scan_rest_decreases(s: Seq<char>, i: int, line: int) {
    if i < s.len() {
        lemma_scan_step_bounds(s, i, line);
    }
}

/// The whole scan of a source text: from its start, on line 1.
pub open spec fn scan_source(s: Seq<char>) -> SpecScanResult {
    scan_rest(s, 0, 1)
}

} // verus!
