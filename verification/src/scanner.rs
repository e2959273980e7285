//! The scanner: one stateful pass over the source text.

use vstd::prelude::*;
use vstd::string::StrSliceExecFns;

use crate::errors::Diagnostic;
use crate::errors::SpecDiagnostic;
use crate::errors::error;
use crate::model::char_is_alphabetic;
use crate::model::char_is_alphanumeric;
use crate::model::comment_end;
use crate::model::digits_end;
use crate::model::eof_token;
use crate::model::identifier_char;
use crate::model::identifier_end;
use crate::model::is_digit;
use crate::model::lemma_line_breaks_extend;
use crate::model::lemma_scan_step_bounds;
use crate::model::line_breaks;
use crate::model::opt_seq;
use crate::model::scan_identifier_step;
use crate::model::scan_number_step;
use crate::model::scan_rest;
use crate::model::scan_step;
use crate::model::scan_string_step;
use crate::model::SpecStep;
use crate::model::spec_is_digit;
use crate::model::string_end;
use crate::token::SpecToken;
use crate::token::SpecTokenType;
use crate::token::spec_keyword;
use crate::token::Token;
use crate::token::TokenType;
use crate::token::keyword_or_identifier;

verus! {

/// Concatenating nothing changes nothing.
proof fn lemma_concat_empty<A>(s: Seq<A>)
    ensures
        s + Seq::<A>::empty() == s,
{
    assert(s + Seq::<A>::empty() =~= s);
}

/// Concatenating one element is a push.
proof fn lemma_concat_one<A>(s: Seq<A>, x: A)
    ensures
        s + seq![x] == s.push(x),
{
    assert(s + seq![x] =~= s.push(x));
}

/// Sequence concatenation associates.
proof fn lemma_concat_assoc<A>(a: Seq<A>, b: Seq<A>, c: Seq<A>)
    ensures
        (a + b) + c == a + (b + c),
{
    assert((a + b) + c =~= a + (b + c));
}

/// The view of a token sequence: each token's view, in order.
pub open spec fn tok_views(ts: Seq<Token>) -> Seq<SpecToken> {
    ts.map_values(|t: Token| t@)
}

/// The view of a diagnostic sequence: each record's view, in order.
pub open spec fn diag_views(ds: Seq<Diagnostic>) -> Seq<SpecDiagnostic> {
    ds.map_values(|d: Diagnostic| d@)
}

/// The given step value was carried out between the two scanner states: the
/// buffers and the lexeme start are untouched; cursor, line, tokens and
/// diagnostics move exactly as the step says.
pub open spec fn step_result(pre: Scanner, post: Scanner, st: SpecStep) -> bool {
    &&& post.chars_vec@ == pre.chars_vec@
    &&& post.source@ == pre.source@
    &&& post.start == pre.start
    &&& post.current as int == st.next
    &&& post.line as int == st.line
    &&& tok_views(post.tokens@) == tok_views(pre.tokens@) + opt_seq(st.token)
    &&& diag_views(post.errors@) == diag_views(pre.errors@) + opt_seq(st.diag)
}

/// One token attempt was carried out: relates a scanner state whose lexeme
/// start sits on the character to scan to the state after the attempt.
pub open spec fn step_performed(pre: Scanner, post: Scanner) -> bool {
    step_result(pre, post, scan_step(pre.chars_vec@, pre.start as int, pre.line as int))
}

/// The scanner.  It owns the source text (both as entered and decoded into
/// characters), a cursor pair, a line counter, the tokens emitted so far,
/// and the diagnostics reported so far.
pub struct Scanner {
    pub tokens: Vec<Token>,
    pub errors: Vec<Diagnostic>,
    pub chars_vec: Vec<char>,
    pub source: String,
    pub start: usize,
    pub current: usize,
    pub line: i32,
}

impl Scanner {
    /// The scanner's invariant: the decoded characters mirror the source
    /// text, the cursor pair stays ordered and inside the input, and the
    /// line counter has headroom for one increment per remaining character.
    pub open spec fn wf(self) -> bool {
        &&& self.chars_vec@ == self.source@
        &&& self.start <= self.current <= self.chars_vec@.len()
        &&& 1 <= self.line
        &&& self.line + (self.chars_vec@.len() - self.current) < i32::MAX
    }

    /// A fresh scanner over the given source text: cursor at the start,
    /// line 1, nothing emitted yet.
    pub fn new(source: &str) -> (s: Self)
        requires
            source@.len() + 1 < i32::MAX,
        ensures
            s.wf(),
            s.source@ == source@,
            s.tokens@.len() == 0,
            s.errors@.len() == 0,
            s.start == 0,
            s.current == 0,
            s.line == 1,
    {
        let n: usize = source.unicode_len();
        let mut chars_vec: Vec<char> = Vec::new();
        let mut i: usize = 0;
        while i < n
            invariant
                i <= n,
                n == source@.len(),
                chars_vec@ =~= source@.subrange(0, i as int),
            decreases n - i,
        {
            chars_vec.push(source.get_char(i));
            i = i + 1;
        }
        proof {
            assert(chars_vec@ =~= source@);
        }
        Self {
            tokens: Vec::new(),
            errors: Vec::new(),
            chars_vec,
            source: source.to_owned(),
            start: 0,
            current: 0,
            line: 1,
        }
    }

    /// Whether the cursor has consumed the whole input.
    fn is_at_end(&self) -> (r: bool)
        ensures
            r == (self.current >= self.chars_vec@.len()),
    {
        self.current >= self.chars_vec.len()
    }

    /// The character under the cursor, without consuming it; a NUL stands
    /// in at the end of input.
    fn peek(&self) -> (c: char)
        requires
            self.current <= self.chars_vec@.len(),
        ensures
            c == (if self.current < self.chars_vec@.len() {
                self.chars_vec@[self.current as int]
            } else {
                '\0'
            }),
    {
        if self.is_at_end() {
            '\0'
        } else {
            self.chars_vec[self.current]
        }
    }

    /// The character one beyond the cursor, without consuming anything; a
    /// NUL stands in past the end of input.
    fn peek_next(&self) -> (c: char)
        requires
            self.current <= self.chars_vec@.len(),
        ensures
            c == (if self.current + 1 < self.chars_vec@.len() {
                self.chars_vec@[self.current as int + 1]
            } else {
                '\0'
            }),
    {
        let n: usize = self.chars_vec.len();
        if self.current >= n || self.current + 1 >= n {
            '\0'
        } else {
            self.chars_vec[self.current + 1]
        }
    }

    /// Consumes and returns the character under the cursor.
    fn advance(&mut self) -> (c: char)
        requires
            old(self).current < old(self).chars_vec@.len(),
        ensures
            c == old(self).chars_vec@[old(self).current as int],
            final(self).current == old(self).current + 1,
            *final(self) == (Scanner { current: final(self).current, ..*old(self) }),
    {
        // Binding the length tells the verifier the cursor's step stays in range.
        let _bound: usize = self.chars_vec.len();
        let val = self.chars_vec[self.current];
        self.current = self.current + 1;
        val
    }

    /// Consumes the character under the cursor exactly when it equals the
    /// expected one; says whether it did.
    fn next_match(&mut self, expected: char) -> (r: bool)
        requires
            old(self).current <= old(self).chars_vec@.len(),
        ensures
            r == (old(self).current < old(self).chars_vec@.len()
                && old(self).chars_vec@[old(self).current as int] == expected),
            r ==> final(self).current == old(self).current + 1 && *final(self) == (Scanner {
                current: final(self).current,
                ..*old(self)
            }),
            !r ==> *final(self) == *old(self),
    {
        if self.is_at_end() {
            return false;
        }
        // Binding the length tells the verifier the cursor's step stays in range.
        let _bound: usize = self.chars_vec.len();
        if self.chars_vec[self.current] != expected {
            return false;
        }
        self.current = self.current + 1;
        true
    }

    /// Emits one token of the given kind whose lexeme is exactly the text
    /// between the lexeme start and the cursor, on the current line.
    fn add_token(&mut self, token_type: TokenType)
        requires
            old(self).chars_vec@ == old(self).source@,
            old(self).start <= old(self).current <= old(self).chars_vec@.len(),
        ensures
            *final(self) == (Scanner { tokens: final(self).tokens, ..*old(self) }),
            tok_views(final(self).tokens@) == tok_views(old(self).tokens@) + seq![
                SpecToken {
                    token_type: token_type@,
                    lexeme: old(self).chars_vec@.subrange(
                        old(self).start as int,
                        old(self).current as int,
                    ),
                    line: old(self).line as int,
                },
            ],
    {
        let lexeme: &str = self.source.as_str().substring_char(self.start, self.current);
        let ghost expected = SpecToken {
            token_type: token_type@,
            lexeme: self.chars_vec@.subrange(self.start as int, self.current as int),
            line: self.line as int,
        };
        let t = Token::new(token_type, lexeme, self.line);
        self.tokens.push(t);
        proof {
            assert(tok_views(self.tokens@) =~= tok_views(old(self).tokens@) + seq![expected]);
        }
    }

    /// The identifier/keyword mode, entered once the starting character has
    /// been consumed: takes alphanumerics and underscores greedily, then
    /// resolves the text through the keyword table.
    fn identifier(&mut self)
        requires
            old(self).wf(),
            old(self).start + 1 == old(self).current,
        ensures
            final(self).wf(),
            step_result(
                *old(self),
                *final(self),
                scan_identifier_step(
                    old(self).chars_vec@,
                    old(self).start as int,
                    old(self).line as int,
                ),
            ),
    {
        let ghost pre = *self;
        let ghost s = self.chars_vec@;
        let ghost i = self.start as int;
        loop
            invariant
                self.wf(),
                s == self.chars_vec@,
                0 <= i && i + 1 <= self.current <= s.len(),
                identifier_end(s, i + 1) == identifier_end(s, self.current as int),
                *self == (Scanner { current: self.current, ..pre }),
            ensures
                self.current as int == identifier_end(s, i + 1),
                *self == (Scanner { current: self.current, ..pre }),
            decreases s.len() - self.current,
        {
            if self.is_at_end() {
                break;
            }
            let p = self.peek();
            let alnum = char_is_alphanumeric(p);
            if !(alnum || p == '_') {
                break;
            }
            proof {
                assert((self.current as int) < s.len() && identifier_char(
                    s[self.current as int],
                ));
            }
            self.advance();
        }
        let text: String = self.source.as_str().substring_char(self.start, self.current).to_owned();
        let kind = keyword_or_identifier(&text);
        self.add_token(kind);
        proof {
            lemma_concat_one(
                tok_views(pre.tokens@),
                SpecToken {
                    token_type: spec_keyword(s.subrange(i, identifier_end(s, i + 1))),
                    lexeme: s.subrange(i, identifier_end(s, i + 1)),
                    line: pre.line as int,
                },
            );
            lemma_concat_empty(diag_views(pre.errors@));
        }
    }

    /// The number-literal mode, entered once the leading digit has been
    /// consumed: takes the remaining whole-part digits, then a dot only
    /// when at least one digit follows it, then the fraction digits.  The
    /// payload is the matched text, which alone determines the value.
    fn number(&mut self)
        requires
            old(self).wf(),
            old(self).start + 1 == old(self).current,
        ensures
            final(self).wf(),
            step_result(
                *old(self),
                *final(self),
                scan_number_step(
                    old(self).chars_vec@,
                    old(self).start as int,
                    old(self).line as int,
                ),
            ),
    {
        let ghost pre = *self;
        let ghost s = self.chars_vec@;
        let ghost i = self.start as int;
        loop
            invariant
                self.wf(),
                s == self.chars_vec@,
                0 <= i && i + 1 <= self.current <= s.len(),
                digits_end(s, i + 1) == digits_end(s, self.current as int),
                *self == (Scanner { current: self.current, ..pre }),
            ensures
                self.current as int == digits_end(s, i + 1),
                *self == (Scanner { current: self.current, ..pre }),
            decreases s.len() - self.current,
        {
            let p = self.peek();
            if !is_digit(p) {
                break;
            }
            proof {
                assert((self.current as int) < s.len() && spec_is_digit(s[self.current as int]));
            }
            self.advance();
        }
        let ghost whole = self.current as int;
        if self.peek() == '.' && is_digit(self.peek_next()) {
            proof {
                assert(whole + 1 < s.len() && s[whole] == '.' && spec_is_digit(s[whole + 1]));
            }
            self.advance();
            loop
                invariant
                    self.wf(),
                    s == self.chars_vec@,
                    0 <= whole && whole + 1 <= self.current <= s.len(),
                    digits_end(s, whole + 1) == digits_end(s, self.current as int),
                    *self == (Scanner { current: self.current, ..pre }),
                ensures
                    self.current as int == digits_end(s, whole + 1),
                    *self == (Scanner { current: self.current, ..pre }),
                decreases s.len() - self.current,
            {
                let p = self.peek();
                if !is_digit(p) {
                    break;
                }
                proof {
                    assert((self.current as int) < s.len() && spec_is_digit(
                        s[self.current as int],
                    ));
                }
                self.advance();
            }
        }
        let ghost stop = self.current as int;
        let text: String = self.source.as_str().substring_char(self.start, self.current).to_owned();
        self.add_token(TokenType::NUMBER { literal: text });
        proof {
            lemma_concat_one(
                tok_views(pre.tokens@),
                SpecToken {
                    token_type: SpecTokenType::NUMBER { literal: s.subrange(i, stop) },
                    lexeme: s.subrange(i, stop),
                    line: pre.line as int,
                },
            );
            lemma_concat_empty(diag_views(pre.errors@));
        }
    }

    /// The string-literal mode, entered once the opening quote has been
    /// consumed: takes characters up to the closing quote, counting the
    /// newlines inside the literal.  A closed literal becomes one STRING
    /// token whose payload strips the quotes and whose line is that of the
    /// opening quote; input that ends first is reported as an unterminated
    /// string, for the final line, and yields no token.
    fn string(&mut self)
        requires
            old(self).wf(),
            old(self).start + 1 == old(self).current,
        ensures
            final(self).wf(),
            step_result(
                *old(self),
                *final(self),
                scan_string_step(
                    old(self).chars_vec@,
                    old(self).start as int,
                    old(self).line as int,
                ),
            ),
    {
        let ghost pre = *self;
        let ghost s = self.chars_vec@;
        let ghost i = self.start as int;
        // The token reports the line of its first character, the opening
        // quote, so hold that line before the literal advances the counter.
        let opening_line: i32 = self.line;
        loop
            invariant
                self.wf(),
                s == self.chars_vec@,
                0 <= i && i + 1 <= self.current <= s.len(),
                string_end(s, i + 1) == string_end(s, self.current as int),
                self.line as int == pre.line + line_breaks(
                    s.subrange(i + 1, self.current as int),
                ),
                *self == (Scanner { current: self.current, line: self.line, ..pre }),
            ensures
                self.current as int == string_end(s, i + 1),
                (self.current as int) < s.len() ==> s[self.current as int] == '"',
                self.line as int == pre.line + line_breaks(s.subrange(i + 1, self.current as int)),
                *self == (Scanner { current: self.current, line: self.line, ..pre }),
            decreases s.len() - self.current,
        {
            if self.is_at_end() {
                break;
            }
            let p = self.peek();
            if p == '"' {
                break;
            }
            proof {
                assert((self.current as int) < s.len() && s[self.current as int] != '"');
            }
            if p == '\n' {
                self.line = self.line + 1;
            }
            let ghost mid = self.current as int;
            self.advance();
            proof {
                lemma_line_breaks_extend(s, i + 1, mid);
            }
        }
        if self.is_at_end() {
            let d = error(self.line, "Unterminated string.");
            self.errors.push(d);
            proof {
                lemma_concat_empty(tok_views(pre.tokens@));
                assert(diag_views(self.errors@) =~= diag_views(pre.errors@) + seq![d@]);
            }
            return;
        }
        proof {
            assert((self.current as int) < s.len() && s[self.current as int] == '"');
        }
        self.advance();
        let literal: &str = self.source.as_str().substring_char(self.start + 1, self.current - 1);
        let lexeme: &str = self.source.as_str().substring_char(self.start, self.current);
        let t = Token::new(TokenType::STRING { literal: literal.to_owned() }, lexeme, opening_line);
        self.tokens.push(t);
        proof {
            let close = string_end(s, i + 1);
            assert(tok_views(self.tokens@) =~= tok_views(pre.tokens@) + seq![
                SpecToken {
                    token_type: SpecTokenType::STRING { literal: s.subrange(i + 1, close) },
                    lexeme: s.subrange(i, close + 1),
                    line: pre.line as int,
                },
            ]);
            lemma_concat_empty(diag_views(pre.errors@));
        }
    }

    /// One token attempt: consumes at least one character and moves the
    /// scanner exactly as the model's [`scan_step`] says.
    fn scan_token(&mut self)
        requires
            old(self).wf(),
            old(self).start == old(self).current,
            old(self).current < old(self).chars_vec@.len(),
        ensures
            final(self).wf(),
            step_performed(*old(self), *final(self)),
    {
        let ghost pre = *self;
        let ghost s = self.chars_vec@;
        let ghost i = self.start as int;
        proof {
            lemma_scan_step_bounds(s, i, pre.line as int);
            lemma_concat_empty(tok_views(pre.tokens@));
            lemma_concat_empty(diag_views(pre.errors@));
        }
        let c = self.advance();
        if c == '(' {
            self.add_token(TokenType::LEFT_PAREN);
        } else if c == ')' {
            self.add_token(TokenType::RIGHT_PAREN);
        } else if c == '{' {
            self.add_token(TokenType::LEFT_BRACE);
        } else if c == '}' {
            self.add_token(TokenType::RIGHT_BRACE);
        } else if c == ',' {
            self.add_token(TokenType::COMMA);
        } else if c == '.' {
            self.add_token(TokenType::DOT);
        } else if c == '-' {
            self.add_token(TokenType::MINUS);
        } else if c == '+' {
            self.add_token(TokenType::PLUS);
        } else if c == ';' {
            self.add_token(TokenType::SEMICOLON);
        } else if c == '*' {
            self.add_token(TokenType::STAR);
        } else if c == '!' {
            if self.next_match('=') {
                self.add_token(TokenType::BANG_EQUAL);
            } else {
                self.add_token(TokenType::BANG);
            }
        } else if c == '=' {
            if self.next_match('=') {
                self.add_token(TokenType::EQUAL_EQUAL);
            } else {
                self.add_token(TokenType::EQUAL);
            }
        } else if c == '<' {
            if self.next_match('=') {
                self.add_token(TokenType::LESS_EQUAL);
            } else {
                self.add_token(TokenType::LESS);
            }
        } else if c == '>' {
            if self.next_match('=') {
                self.add_token(TokenType::GREATER_EQUAL);
            } else {
                self.add_token(TokenType::GREATER);
            }
        } else if c == '/' {
            if self.next_match('/') {
                // A comment runs to the end of the line and emits nothing.
                loop
                    invariant
                        self.wf(),
                        s == self.chars_vec@,
                        0 <= i && i + 2 <= self.current <= s.len(),
                        comment_end(s, i + 2) == comment_end(s, self.current as int),
                        *self == (Scanner { current: self.current, ..pre }),
                    ensures
                        self.current as int == comment_end(s, i + 2),
                        *self == (Scanner { current: self.current, ..pre }),
                    decreases s.len() - self.current,
                {
                    if self.is_at_end() {
                        break;
                    }
                    let p = self.peek();
                    if p == '\n' {
                        break;
                    }
                    proof {
                        assert((self.current as int) < s.len() && s[self.current as int] != '\n');
                    }
                    self.advance();
                }
            } else {
                self.add_token(TokenType::SLASH);
            }
        } else if c == ' ' || c == '\r' || c == '\t' {
            // Whitespace is consumed and emits nothing.
        } else if c == '\n' {
            self.line = self.line + 1;
        } else if c == '"' {
            self.string();
        } else if is_digit(c) {
            self.number();
        } else {
            let alpha = char_is_alphabetic(c);
            if alpha || c == '_' {
                self.identifier();
            } else {
                let d = error(self.line, "Unexpected character.");
                self.errors.push(d);
                proof {
                    assert(diag_views(self.errors@) =~= diag_views(pre.errors@) + seq![d@]);
                }
            }
        }
    }

    /// Consumes the entire remaining input in one pass and returns the
    /// materialized token sequence.
    ///
    /// The tokens appended, and the diagnostics recorded, are exactly what
    /// the model [`scan_rest`] yields for the remaining input: every
    /// emission in source order, then exactly one end-of-input token with
    /// an empty lexeme and the final line number.  Malformed input never
    /// aborts the pass.
    pub fn scan_tokens(&mut self) -> (tokens: &Vec<Token>)
        requires
            old(self).wf(),
        ensures
            final(self).wf(),
            final(self).chars_vec@ == old(self).chars_vec@,
            final(self).source@ == old(self).source@,
            tok_views(final(self).tokens@) == tok_views(old(self).tokens@) + scan_rest(
                old(self).chars_vec@,
                old(self).current as int,
                old(self).line as int,
            ).tokens,
            diag_views(final(self).errors@) == diag_views(old(self).errors@) + scan_rest(
                old(self).chars_vec@,
                old(self).current as int,
                old(self).line as int,
            ).diags,
            tokens@ == final(self).tokens@,
    {
        let ghost pre = *self;
        let ghost s = self.chars_vec@;
        let ghost out = scan_rest(s, pre.current as int, pre.line as int);
        loop
            invariant
                self.wf(),
                s == self.chars_vec@,
                self.source@ == pre.source@,
                self.tokens@.len() >= pre.tokens@.len(),
                out == scan_rest(s, pre.current as int, pre.line as int),
                tok_views(self.tokens@) + scan_rest(
                    s,
                    self.current as int,
                    self.line as int,
                ).tokens == tok_views(pre.tokens@) + out.tokens,
                diag_views(self.errors@) + scan_rest(
                    s,
                    self.current as int,
                    self.line as int,
                ).diags == diag_views(pre.errors@) + out.diags,
            ensures
                self.wf(),
                s == self.chars_vec@,
                self.source@ == pre.source@,
                self.current as int == s.len(),
                tok_views(self.tokens@) + scan_rest(
                    s,
                    self.current as int,
                    self.line as int,
                ).tokens == tok_views(pre.tokens@) + out.tokens,
                diag_views(self.errors@) + scan_rest(
                    s,
                    self.current as int,
                    self.line as int,
                ).diags == diag_views(pre.errors@) + out.diags,
            decreases s.len() - self.current,
        {
            if self.is_at_end() {
                break;
            }
            self.start = self.current;
            let ghost mid = *self;
            self.scan_token();
            proof {
                let st = scan_step(s, mid.current as int, mid.line as int);
                lemma_scan_step_bounds(s, mid.current as int, mid.line as int);
                lemma_concat_assoc(
                    tok_views(mid.tokens@),
                    opt_seq(st.token),
                    scan_rest(s, st.next, st.line).tokens,
                );
                lemma_concat_assoc(
                    diag_views(mid.errors@),
                    opt_seq(st.diag),
                    scan_rest(s, st.next, st.line).diags,
                );
            }
        }
        let ghost closing = *self;
        let t = Token::new(TokenType::EOF, "", self.line);
        self.tokens.push(t);
        proof {
            reveal_strlit("");
            assert(t@ == eof_token(closing.line as int)) by {
                assert(""@ =~= Seq::<char>::empty());
            }
            lemma_concat_one(tok_views(closing.tokens@), t@);
            assert(tok_views(self.tokens@) =~= tok_views(closing.tokens@).push(t@));
            lemma_concat_empty(diag_views(closing.errors@));
        }
        &self.tokens
    }
}

} // verus!
