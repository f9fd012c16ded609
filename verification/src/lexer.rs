//! The lexer: a pull-based tokenizer for a small arithmetic-expression
//! language.
//!
//! The lexer owns a borrowed view of the source text and a cursor made of a
//! character offset together with the human-facing row and column of that
//! offset. Each call of [`Lexer::read`] classifies the character under the
//! cursor, advances, and returns exactly one token. The whole behaviour is
//! captured by the specification function [`spec_read`], which `read`'s
//! contract ties to the executable code.

use crate::token::{Token, TokenType, TokenTypeView, TokenView};
use vstd::prelude::*;
use vstd::string::StrSliceExecFns;

verus! {

/// Horizontal whitespace: skipped, advancing the column.
pub open spec fn is_blank(c: char) -> bool {
    c == ' ' || c == '\t'
}

/// Line terminators: skipped, advancing the row and resetting the column.
/// Each terminator character counts on its own.
pub open spec fn is_line_terminator(c: char) -> bool {
    c == '\n' || c == '\r'
}

/// Decimal digits, which begin a numeric literal.
pub open spec fn is_digit(c: char) -> bool {
    '0' <= c && c <= '9'
}

/// The single-character operators.
pub open spec fn is_operator(c: char) -> bool {
    c == '+' || c == '-' || c == '*' || c == '/' || c == ';'
}

/// The characters a numeric literal may continue with: digits and the dot.
pub open spec fn is_number_char(c: char) -> bool {
    is_digit(c) || c == '.'
}

/// The token kind of a single-character operator.
pub open spec fn operator_kind(c: char) -> TokenTypeView
    recommends
        is_operator(c),
{
    if c == '+' {
        TokenTypeView::Plus
    } else if c == '-' {
        TokenTypeView::Minus
    } else if c == '*' {
        TokenTypeView::Star
    } else if c == '/' {
        TokenTypeView::Slash
    } else {
        TokenTypeView::SemiColon
    }
}

/// The length of the maximal run of digit-or-dot characters starting at
/// `pos` in `s`.
pub open spec fn run_len(s: Seq<char>, pos: int) -> nat
    decreases s.len() - pos,
{
    if pos < 0 || pos >= s.len() || !is_number_char(s[pos]) {
        0
    } else {
        1 + run_len(s, pos + 1)
    }
}

/// The mathematical image of a lexer: the source text as a sequence of
/// characters, together with the cursor.
pub struct LexerView {
    pub input: Seq<char>,
    pub position: nat,
    pub row: nat,
    pub col: nat,
}

impl LexerView {
    /// The cursor never leaves the text, and row and column never outrun the
    /// number of characters consumed.
    pub open spec fn wf(self) -> bool {
        self.position <= self.input.len() && self.col <= self.position && self.row
            <= self.position
    }
}

/// The token produced by a numeric-literal scan starting at `pos`, which must
/// hold a digit: the maximal digit-or-dot run, classified `Float` if it
/// contains a dot and `Int` otherwise, located at `(row, col)`.
pub open spec fn number_token(s: Seq<char>, pos: int, row: nat, col: nat) -> TokenView {
    let text = s.subrange(pos, pos + run_len(s, pos));
    TokenView {
        row,
        col,
        token_type: if text.contains('.') {
            TokenTypeView::Float(text)
        } else {
            TokenTypeView::Int(text)
        },
    }
}

/// What one pull returns and how it moves the cursor, evaluated against the
/// character at the current position:
/// - no character left: `EOF` at the cursor, state unchanged;
/// - blank: consume it, advancing the column, and scan on;
/// - line terminator: consume it, advancing the row and resetting the column
///   to zero, and scan on;
/// - operator: the operator's token at the cursor, consuming one character;
/// - digit: the numeric literal of the maximal digit-or-dot run, located at
///   the run's first character, consuming the run;
/// - anything else: `ILLEGAL` at the cursor, consuming one character.
pub open spec fn spec_read(l: LexerView) -> (TokenView, LexerView)
    decreases l.input.len() - l.position,
{
    if l.position >= l.input.len() {
        (TokenView { row: l.row, col: l.col, token_type: TokenTypeView::EOF }, l)
    } else {
        let c = l.input[l.position as int];
        if is_blank(c) {
            spec_read(LexerView { position: l.position + 1, col: l.col + 1, ..l })
        } else if is_line_terminator(c) {
            spec_read(LexerView { position: l.position + 1, row: l.row + 1, col: 0, ..l })
        } else if is_operator(c) {
            (
                TokenView { row: l.row, col: l.col, token_type: operator_kind(c) },
                LexerView { position: l.position + 1, col: l.col + 1, ..l },
            )
        } else if is_digit(c) {
            (
                number_token(l.input, l.position as int, l.row, l.col),
                LexerView {
                    position: l.position + run_len(l.input, l.position as int),
                    col: l.col + run_len(l.input, l.position as int),
                    ..l
                },
            )
        } else {
            (
                TokenView { row: l.row, col: l.col, token_type: TokenTypeView::ILLEGAL },
                LexerView { position: l.position + 1, col: l.col + 1, ..l },
            )
        }
    }
}

/// The lexer: a borrowed source text and the scan cursor.
pub struct Lexer<'a> {
    input: &'a String,
    position: usize,
    row: usize,
    col: usize,
}

impl<'a> View for Lexer<'a> {
    type V = LexerView;

    closed spec fn view(&self) -> LexerView {
        LexerView {
            input: self.input@,
            position: self.position as nat,
            row: self.row as nat,
            col: self.col as nat,
        }
    }
}

impl<'a> Lexer<'a> {
    /// Builds a lexer over a borrowed source text, with the cursor at the
    /// start.
    pub fn new(input: &'a String) -> (l: Lexer<'a>)
        ensures
            l@ == (LexerView { input: input@, position: 0, row: 0, col: 0 }),
            l@.wf(),
    {
        Lexer { input, position: 0, row: 0, col: 0 }
    }

    /// Pulls the next token and advances the cursor, exactly as [`spec_read`]
    /// describes: blanks and line terminators are skipped first, then one
    /// token is classified at the character under the cursor. At end of input
    /// the cursor stays put, so further calls return the same `EOF` token.
    pub fn read(&mut self) -> (t: Token)
        requires
            old(self)@.wf(),
        ensures
            final(self)@.wf(),
            (t@, final(self)@) == spec_read(old(self)@),
    {
        loop
            invariant
                self@.wf(),
                spec_read(self@) == spec_read(old(self)@),
            decreases self@.input.len() - self@.position,
        {
            let n: usize = self.input.as_str().unicode_len();
            if self.position >= n {
                return Token::new(self.row, self.col, TokenType::EOF);
            }
            let c: char = self.input.as_str().get_char(self.position);
            if c == ' ' || c == '\t' {
                self.position = self.position + 1;
                self.col = self.col + 1;
            } else if c == '\n' || c == '\r' {
                self.position = self.position + 1;
                self.row = self.row + 1;
                self.col = 0;
            } else if c == '+' {
                let t = Token::new(self.row, self.col, TokenType::Plus);
                self.position = self.position + 1;
                self.col = self.col + 1;
                return t;
            } else if c == '-' {
                let t = Token::new(self.row, self.col, TokenType::Minus);
                self.position = self.position + 1;
                self.col = self.col + 1;
                return t;
            } else if c == '*' {
                let t = Token::new(self.row, self.col, TokenType::Star);
                self.position = self.position + 1;
                self.col = self.col + 1;
                return t;
            } else if c == '/' {
                let t = Token::new(self.row, self.col, TokenType::Slash);
                self.position = self.position + 1;
                self.col = self.col + 1;
                return t;
            } else if c == ';' {
                let t = Token::new(self.row, self.col, TokenType::SemiColon);
                self.position = self.position + 1;
                self.col = self.col + 1;
                return t;
            } else if '0' <= c && c <= '9' {
                return self.read_number();
            } else {
                let t = Token::new(self.row, self.col, TokenType::ILLEGAL);
                self.position = self.position + 1;
                self.col = self.col + 1;
                return t;
            }
        }
    }

    /// Scans the maximal digit-or-dot run that starts at the cursor, which
    /// holds a digit, and returns it verbatim as one numeric-literal token:
    /// `Float` if the run contains a dot, `Int` otherwise.
    fn read_number(&mut self) -> (t: Token)
        requires
            old(self)@.wf(),
            old(self)@.position < old(self)@.input.len(),
            is_digit(old(self)@.input[old(self)@.position as int]),
        ensures
            final(self)@.wf(),
            (t@, final(self)@) == spec_read(old(self)@),
    {
        let row: usize = self.row;
        let col: usize = self.col;
        let start: usize = self.position;
        let n: usize = self.input.as_str().unicode_len();
        let mut end: usize = start;
        let mut is_float: bool = false;
        loop
            invariant
                n == self@.input.len(),
                start == self@.position,
                start <= end <= n,
                forall|i: int| start <= i < end ==> is_number_char(self@.input[i]),
                is_float == (exists|i: int| start <= i < end && self@.input[i] == '.'),
                run_len(self@.input, start as int) == (end - start) + run_len(
                    self@.input,
                    end as int,
                ),
            ensures
                end == n || !is_number_char(self@.input[end as int]),
            decreases n - end,
        {
            if end >= n {
                break;
            }
            let c: char = self.input.as_str().get_char(end);
            if c == '.' {
                end = end + 1;
                is_float = true;
            } else if '0' <= c && c <= '9' {
                end = end + 1;
            } else {
                break;
            }
        }
        proof {
            let s = self@.input;
            assert(run_len(s, end as int) == 0);
            let textv = s.subrange(start as int, end as int);
            if is_float {
                let i: int = choose|i: int| start <= i < end && s[i] == '.';
                assert(textv[i - start] == '.');
                assert(textv.contains('.'));
            } else if textv.contains('.') {
                let j: int = choose|j: int| 0 <= j < textv.len() && textv[j] == '.';
                assert(s[start + j] == '.');
                assert(false);
            }
        }
        let text: &str = self.input.as_str().substring_char(start, end);
        let num: String = text.to_owned();
        self.position = end;
        self.col = col + (end - start);
        Token::new(
            row,
            col,
            if is_float {
                TokenType::Float(num)
            } else {
                TokenType::Int(num)
            },
        )
    }
}

proof fn lemma_run_len_all_number(s: Seq<char>, pos: int)
    requires
        0 <= pos <= s.len(),
        forall|i: int| pos <= i < s.len() ==> is_number_char(s[i]),
    ensures
        run_len(s, pos) == s.len() - pos,
    decreases s.len() - pos,
{
    if pos < s.len() {
        lemma_run_len_all_number(s, pos + 1);
    }
}

/// An input made only of decimal digits lexes as a single `Int` token whose
/// payload is the whole input, and the read after it returns `EndOfInput`.
pub proof fn lemma_all_digits_single_int(s: Seq<char>)
    requires
        s.len() > 0,
        forall|i: int| 0 <= i < s.len() ==> is_digit(s[i]),
    ensures
        ({
            let (t1, l1) = spec_read(LexerView { input: s, position: 0, row: 0, col: 0 });
            let (t2, l2) = spec_read(l1);
            &&& t1 == (TokenView { row: 0, col: 0, token_type: TokenTypeView::Int(s) })
            &&& l1 == (LexerView { input: s, position: s.len(), row: 0, col: s.len() })
            &&& t2 == (TokenView { row: 0, col: s.len(), token_type: TokenTypeView::EOF })
            &&& l2 == l1
        }),
{
    lemma_run_len_all_number(s, 0);
    let text = s.subrange(0, s.len() as int);
    assert(text =~= s);
    if text.contains('.') {
        let j: int = choose|j: int| 0 <= j < s.len() && s[j] == '.';
        assert(is_digit(s[j]));
        assert(false);
    }
}

/// A run of digit-or-dot characters that starts with a digit and contains
/// exactly one dot, at index `d`, lexes as a single `Float` token whose
/// payload is the whole run including the dot, and the read after it returns
/// `EndOfInput`.
pub proof fn lemma_digits_one_dot_single_float(s: Seq<char>, d: int)
    requires
        s.len() > 0,
        is_digit(s[0]),
        forall|i: int| 0 <= i < s.len() ==> is_number_char(s[i]),
        0 <= d < s.len(),
        s[d] == '.',
        forall|i: int| 0 <= i < s.len() && i != d ==> s[i] != '.',
    ensures
        ({
            let (t1, l1) = spec_read(LexerView { input: s, position: 0, row: 0, col: 0 });
            let (t2, l2) = spec_read(l1);
            &&& t1 == (TokenView { row: 0, col: 0, token_type: TokenTypeView::Float(s) })
            &&& l1 == (LexerView { input: s, position: s.len(), row: 0, col: s.len() })
            &&& t2 == (TokenView { row: 0, col: s.len(), token_type: TokenTypeView::EOF })
            &&& l2 == l1
        }),
{
    lemma_run_len_all_number(s, 0);
    let text = s.subrange(0, s.len() as int);
    assert(text =~= s);
    assert(text.contains('.')) by {
        assert(text[d] == '.');
    }
}

proof fn lemma_blanks_reach_end(l: LexerView)
    requires
        l.position <= l.input.len(),
        forall|i: int| l.position <= i < l.input.len() ==> is_blank(l.input[i]),
    ensures
        spec_read(l) == (
            (
                TokenView {
                    row: l.row,
                    col: (l.col + (l.input.len() - l.position)) as nat,
                    token_type: TokenTypeView::EOF,
                },
                LexerView {
                    input: l.input,
                    position: l.input.len(),
                    row: l.row,
                    col: (l.col + (l.input.len() - l.position)) as nat,
                },
            )
        ),
    decreases l.input.len() - l.position,
{
    if l.position < l.input.len() {
        lemma_blanks_reach_end(LexerView { position: l.position + 1, col: l.col + 1, ..l });
    }
}

/// An input made only of blanks (spaces and tabs) yields a single
/// `EndOfInput` token: no other token is produced, the column is advanced by
/// the input's length, and the row is unchanged.
pub proof fn lemma_blanks_only_end_of_input(s: Seq<char>)
    requires
        forall|i: int| 0 <= i < s.len() ==> is_blank(s[i]),
    ensures
        spec_read(LexerView { input: s, position: 0, row: 0, col: 0 }) == (
            (
                TokenView { row: 0, col: s.len(), token_type: TokenTypeView::EOF },
                LexerView { input: s, position: s.len(), row: 0, col: s.len() },
            )
        ),
{
    lemma_blanks_reach_end(LexerView { input: s, position: 0, row: 0, col: 0 });
}

/// A line terminator emits no token: it increments the row by one, resets the
/// column to zero, and reading continues just past it, so the column of the
/// following token counts the characters after the terminator.
pub proof fn lemma_line_terminator_advances_row(l: LexerView)
    requires
        l.position < l.input.len(),
        is_line_terminator(l.input[l.position as int]),
    ensures
        spec_read(l) == spec_read(
            LexerView { input: l.input, position: l.position + 1, row: l.row + 1, col: 0 },
        ),
{
}

/// `EndOfInput` is idempotent: at end of input a read returns `EOF` at the
/// cursor and leaves the whole state unchanged, so every further read returns
/// a token with identical row, column and kind.
pub proof fn lemma_end_of_input_idempotent(l: LexerView)
    requires
        l.position >= l.input.len(),
    ensures
        spec_read(l).0 == (TokenView { row: l.row, col: l.col, token_type: TokenTypeView::EOF }),
        spec_read(l).1 == l,
        spec_read(spec_read(l).1) == spec_read(l),
{
}

} // verus!
