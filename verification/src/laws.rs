//! General properties of the scan, stated and proved against the model.
//!
//! [`crate::scanner::Scanner::scan_tokens`] ensures that its output equals
//! [`scan_source`] applied to the source text, so everything proved here
//! holds of the executable scanner as well.

use vstd::prelude::*;

use crate::model::SpecScanResult;
use crate::model::eof_token;
use crate::model::line_breaks;
use crate::model::scan_rest;
use crate::model::scan_source;
use crate::model::scan_step;
use crate::model::string_end;
use crate::token::SpecToken;
use crate::token::SpecTokenType;

verus! {

/// A character that alone forms a punctuation token.
pub open spec fn is_punctuation(c: char) -> bool {
    c == '(' || c == ')' || c == '{' || c == '}' || c == ',' || c == '.' || c == '-' || c == '+'
        || c == ';' || c == '*' || c == '/'
}

/// The kind of the punctuation token a character alone forms.
pub open spec fn punctuation_kind(c: char) -> SpecTokenType
    recommends
        is_punctuation(c),
{
    if c == '(' {
        SpecTokenType::LEFT_PAREN
    } else if c == ')' {
        SpecTokenType::RIGHT_PAREN
    } else if c == '{' {
        SpecTokenType::LEFT_BRACE
    } else if c == '}' {
        SpecTokenType::RIGHT_BRACE
    } else if c == ',' {
        SpecTokenType::COMMA
    } else if c == '.' {
        SpecTokenType::DOT
    } else if c == '-' {
        SpecTokenType::MINUS
    } else if c == '+' {
        SpecTokenType::PLUS
    } else if c == ';' {
        SpecTokenType::SEMICOLON
    } else if c == '*' {
        SpecTokenType::STAR
    } else {
        SpecTokenType::SLASH
    }
}

/// A character that starts a one-or-two-character operator.
pub open spec fn is_operator_start(c: char) -> bool {
    c == '!' || c == '=' || c == '<' || c == '>'
}

/// The operator kind emitted when no `=` follows.
pub open spec fn single_operator_kind(c: char) -> SpecTokenType
    recommends
        is_operator_start(c),
{
    if c == '!' {
        SpecTokenType::BANG
    } else if c == '=' {
        SpecTokenType::EQUAL
    } else if c == '<' {
        SpecTokenType::LESS
    } else {
        SpecTokenType::GREATER
    }
}

/// The operator kind emitted when `=` follows.
pub open spec fn combined_operator_kind(c: char) -> SpecTokenType
    recommends
        is_operator_start(c),
{
    if c == '!' {
        SpecTokenType::BANG_EQUAL
    } else if c == '=' {
        SpecTokenType::EQUAL_EQUAL
    } else if c == '<' {
        SpecTokenType::LESS_EQUAL
    } else {
        SpecTokenType::GREATER_EQUAL
    }
}

/// For every single-character punctuation input, the scan yields exactly one
/// token of the matching kind, followed by the end-of-input token, and no
/// diagnostics.
pub proof fn lemma_single_punctuation(c: char)
    requires
        is_punctuation(c),
    ensures
        scan_source(seq![c]) == (SpecScanResult {
            tokens: seq![
                SpecToken { token_type: punctuation_kind(c), lexeme: seq![c], line: 1 },
                eof_token(1),
            ],
            diags: Seq::empty(),
        }),
{
    let s = seq![c];
    assert(s.subrange(0, 1) =~= seq![c]);
    let st = scan_step(s, 0, 1);
    assert(st.next == 1 && st.line == 1);
    assert(st.token == Some(
        SpecToken { token_type: punctuation_kind(c), lexeme: seq![c], line: 1 },
    ));
    assert(scan_rest(s, 1, 1).tokens =~= seq![eof_token(1)]);
    assert(scan_source(s).tokens =~= seq![
        SpecToken { token_type: punctuation_kind(c), lexeme: seq![c], line: 1 },
        eof_token(1),
    ]);
    assert(scan_source(s).diags =~= Seq::<crate::errors::SpecDiagnostic>::empty());
}

/// For every operator prefix followed by `=`, the scan yields the combined
/// two-character kind as one token, never two separate tokens: greedy
/// longest-match.
pub proof fn lemma_operator_combined(c: char)
    requires
        is_operator_start(c),
    ensures
        scan_source(seq![c, '=']) == (SpecScanResult {
            tokens: seq![
                SpecToken {
                    token_type: combined_operator_kind(c),
                    lexeme: seq![c, '='],
                    line: 1,
                },
                eof_token(1),
            ],
            diags: Seq::empty(),
        }),
{
    let s = seq![c, '='];
    assert(s.subrange(0, 2) =~= seq![c, '=']);
    let st = scan_step(s, 0, 1);
    assert(st.next == 2 && st.line == 1);
    assert(st.token == Some(
        SpecToken { token_type: combined_operator_kind(c), lexeme: seq![c, '='], line: 1 },
    ));
    assert(scan_rest(s, 2, 1).tokens =~= seq![eof_token(1)]);
    assert(scan_source(s).tokens =~= seq![
        SpecToken { token_type: combined_operator_kind(c), lexeme: seq![c, '='], line: 1 },
        eof_token(1),
    ]);
    assert(scan_source(s).diags =~= Seq::<crate::errors::SpecDiagnostic>::empty());
}

/// For every operator prefix followed by anything but `=`, the scan's first
/// token is the single-character kind, whatever the rest of the input adds.
pub proof fn lemma_operator_single(c: char, d: char)
    requires
        is_operator_start(c),
        d != '=',
    ensures
        scan_source(seq![c, d]).tokens.len() >= 1,
        scan_source(seq![c, d]).tokens[0] == (SpecToken {
            token_type: single_operator_kind(c),
            lexeme: seq![c],
            line: 1,
        }),
{
    let s = seq![c, d];
    assert(s.subrange(0, 1) =~= seq![c]);
    let st = scan_step(s, 0, 1);
}

/// A string literal raises the line count by exactly the number of newline
/// characters inside it, so everything scanned after the literal carries
/// the correct post-literal line number; a closed literal's own token
/// reports the line of its first character, the opening quote.
pub proof fn lemma_string_line_tracking(s: Seq<char>, i: int, line: int)
    requires
        0 <= i < s.len(),
        s[i] == '"',
    ensures
        scan_step(s, i, line).line == line + line_breaks(s.subrange(i + 1, string_end(s, i + 1))),
        string_end(s, i + 1) < s.len() ==> scan_step(s, i, line).token == Some(
            SpecToken {
                token_type: SpecTokenType::STRING {
                    literal: s.subrange(i + 1, string_end(s, i + 1)),
                },
                lexeme: s.subrange(i, string_end(s, i + 1) + 1),
                line,
            },
        ),
{
}

/// Scanning is a pure function of the input text: equal sources yield
/// identical token sequences and identical diagnostics, in the same order.
/// Two fresh scanners over the same text therefore return the same output.
pub proof fn lemma_scan_deterministic(s1: Seq<char>, s2: Seq<char>)
    requires
        s1 == s2,
    ensures
        scan_source(s1) == scan_source(s2),
{
}

} // verus!
