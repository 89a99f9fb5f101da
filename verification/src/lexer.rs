//! The lexer: converts raw source text into tokens, one at a time, on demand.
//!
//! Scanning is specified by [`spec_scan`], a pure function of the source text
//! and the cursor position; [`Lexer::next_token`] is proved to return exactly
//! the token (and advance to exactly the position) that `spec_scan` gives.
//! Lexing is therefore deterministic: see [`lemma_lexing_deterministic`].

use vstd::prelude::*;
use vstd::string::StrSliceExecFns;
use crate::token::{Token, TokenV};

verus! {

/// Whitespace skipped before each token: space, tab, CR, LF.
pub open spec fn is_ws_char(c: char) -> bool {
    c == ' ' || c == '\t' || c == '\n' || c == '\r'
}

/// Identifier characters: ASCII letters and underscore.
pub open spec fn is_letter_char(c: char) -> bool {
    (97 <= c as u32 && c as u32 <= 122) || (65 <= c as u32 && c as u32 <= 90) || c == '_'
}

/// ASCII decimal digits.
pub open spec fn is_digit_char(c: char) -> bool {
    48 <= c as u32 && c as u32 <= 57
}

/// The character under the cursor, or NUL once the cursor is past the end.
pub open spec fn cur_char(s: Seq<char>, p: int) -> char {
    if 0 <= p < s.len() {
        s[p]
    } else {
        '\0'
    }
}

/// First position at or after `p` holding a non-whitespace character.
pub open spec fn skip_ws_idx(s: Seq<char>, p: int) -> int
    decreases s.len() - p,
{
    if 0 <= p < s.len() && is_ws_char(s[p]) {
        skip_ws_idx(s, p + 1)
    } else {
        p
    }
}

/// End of the maximal identifier run starting at `p`.
pub open spec fn ident_end(s: Seq<char>, p: int) -> int
    decreases s.len() - p,
{
    if 0 <= p < s.len() && is_letter_char(s[p]) {
        ident_end(s, p + 1)
    } else {
        p
    }
}

/// End of the maximal digit run starting at `p`.
pub open spec fn num_end(s: Seq<char>, p: int) -> int
    decreases s.len() - p,
{
    if 0 <= p < s.len() && is_digit_char(s[p]) {
        num_end(s, p + 1)
    } else {
        p
    }
}

/// Position of the closing quote at or after `p`, or the end of the input
/// if the string literal is unterminated.
pub open spec fn str_end(s: Seq<char>, p: int) -> int
    decreases s.len() - p,
{
    if 0 <= p < s.len() && s[p] != '"' {
        str_end(s, p + 1)
    } else {
        p
    }
}

/// Decimal value of the digit run `s[p..e]`.
pub open spec fn digits_val(s: Seq<char>, p: int, e: int) -> int
    decreases e - p,
{
    if p < e {
        digits_val(s, p, e - 1) * 10 + (cur_char(s, e - 1) as u32 - 48)
    } else {
        0
    }
}

/// The keyword token for a known identifier spelling, if any.
pub open spec fn spec_keyword(name: Seq<char>) -> Option<TokenV> {
    if name == "fn"@ {
        Some(TokenV::Function)
    } else if name == "let"@ {
        Some(TokenV::Let)
    } else if name == "true"@ {
        Some(TokenV::Bool(true))
    } else if name == "false"@ {
        Some(TokenV::Bool(false))
    } else if name == "if"@ {
        Some(TokenV::If)
    } else if name == "else"@ {
        Some(TokenV::Else)
    } else if name == "return"@ {
        Some(TokenV::Return)
    } else if name == "import"@ {
        Some(TokenV::Import)
    } else {
        None
    }
}

/// One scanning step: the token found at (or after) position `p`, and the
/// cursor position immediately after it. At the end of the input the token
/// is `Eof` and the position does not move, so `Eof` repeats forever.
pub open spec fn spec_scan(s: Seq<char>, p: int) -> (TokenV, int) {
    let q = skip_ws_idx(s, p);
    if q >= s.len() {
        (TokenV::Eof, q)
    } else {
        let c = s[q];
        if c == '=' {
            if cur_char(s, q + 1) == '=' {
                (TokenV::Equal, q + 2)
            } else {
                (TokenV::Assign, q + 1)
            }
        } else if c == '!' {
            if cur_char(s, q + 1) == '=' {
                (TokenV::NotEq, q + 2)
            } else {
                (TokenV::Bang, q + 1)
            }
        } else if c == '<' {
            if cur_char(s, q + 1) == '=' {
                (TokenV::LtEq, q + 2)
            } else {
                (TokenV::Lt, q + 1)
            }
        } else if c == '>' {
            if cur_char(s, q + 1) == '=' {
                (TokenV::GtEq, q + 2)
            } else {
                (TokenV::Gt, q + 1)
            }
        } else if c == ';' {
            (TokenV::SemiColon, q + 1)
        } else if c == ':' {
            (TokenV::Colon, q + 1)
        } else if c == ',' {
            (TokenV::Comma, q + 1)
        } else if c == '(' {
            (TokenV::LParen, q + 1)
        } else if c == ')' {
            (TokenV::RParen, q + 1)
        } else if c == '{' {
            (TokenV::LBrace, q + 1)
        } else if c == '}' {
            (TokenV::RBrace, q + 1)
        } else if c == '[' {
            (TokenV::LBracket, q + 1)
        } else if c == ']' {
            (TokenV::RBracket, q + 1)
        } else if c == '+' {
            (TokenV::Plus, q + 1)
        } else if c == '-' {
            (TokenV::Minus, q + 1)
        } else if c == '*' {
            (TokenV::Asterisk, q + 1)
        } else if c == '/' {
            (TokenV::Slash, q + 1)
        } else if c == '%' {
            (TokenV::Percent, q + 1)
        } else if c == '"' {
            let e = str_end(s, q + 1);
            (TokenV::Str(s.subrange(q + 1, e)), if e < s.len() { e + 1 } else { e })
        } else if is_letter_char(c) {
            let e = ident_end(s, q);
            let name = s.subrange(q, e);
            (
                match spec_keyword(name) {
                    Some(t) => t,
                    None => TokenV::Ident(name),
                },
                e,
            )
        } else if is_digit_char(c) {
            let e = num_end(s, q);
            let v = digits_val(s, q, e);
            (
                if v <= i32::MAX {
                    TokenV::Int(v as i32)
                } else {
                    TokenV::Illegal
                },
                e,
            )
        } else {
            (TokenV::Illegal, q + 1)
        }
    }
}

/// Character-wise equality of two string slices.
pub(crate) fn str_eq(a: &str, b: &str) -> (r: bool)
    ensures
        r == (a@ == b@),
{
    let na = a.unicode_len();
    let nb = b.unicode_len();
    if na != nb {
        return false;
    }
    let mut i: usize = 0;
    while i < na
        invariant
            i <= na,
            na == a@.len(),
            na == b@.len(),
            forall|j: int| 0 <= j < i ==> a@[j] == b@[j],
        decreases na - i,
    {
        if a.get_char(i) != b.get_char(i) {
            return false;
        }
        i += 1;
    }
    proof {
        assert(a@ =~= b@);
    }
    true
}

/// Maps a known identifier spelling to its keyword token; all other
/// spellings get `None` and lex as plain identifiers.
pub fn lookup_indentifier(i: &str) -> (r: Option<Token>)
    ensures
        ({
            match spec_keyword(i@) {
                Some(tv) => r matches Some(t) && t@ == tv,
                None => r is None,
            }
        }),
{
    if str_eq(i, "fn") {
        Some(Token::Function)
    } else if str_eq(i, "let") {
        Some(Token::Let)
    } else if str_eq(i, "true") {
        Some(Token::Bool(true))
    } else if str_eq(i, "false") {
        Some(Token::Bool(false))
    } else if str_eq(i, "if") {
        Some(Token::If)
    } else if str_eq(i, "else") {
        Some(Token::Else)
    } else if str_eq(i, "return") {
        Some(Token::Return)
    } else if str_eq(i, "import") {
        Some(Token::Import)
    } else {
        None
    }
}

/// A cursor over the source text. The cursor counts characters, never
/// moves backwards, and freezes at the end of the input. `len` caches the
/// length of the input in characters.
pub struct Lexer {
    pub input: String,
    pub position: usize,
    pub len: usize,
}

impl Lexer {
    /// Well-formedness: the cached length is right and the cursor never
    /// passes the end of the input.
    pub open spec fn wf(&self) -> bool {
        self.len == self.input@.len() && self.position <= self.len
    }

    /// The source text, as a sequence of characters.
    pub open spec fn src(&self) -> Seq<char> {
        self.input@
    }

    /// The current cursor position, in characters.
    pub open spec fn pos(&self) -> int {
        self.position as int
    }

    pub fn new(input: String) -> (l: Lexer)
        ensures
            l.wf(),
            l.src() == input@,
            l.pos() == 0,
    {
        let len = input.as_str().unicode_len();
        Lexer { input, position: 0, len }
    }

    /// The character at position `i`, or NUL past the end.
    fn char_at(&self, i: usize) -> (c: char)
        requires
            self.wf(),
        ensures
            c == cur_char(self.src(), i as int),
    {
        let n = self.len;
        if i < n {
            self.input.as_str().get_char(i)
        } else {
            '\0'
        }
    }

    /// The character under the cursor.
    fn cur_ch(&self) -> (c: char)
        requires
            self.wf(),
        ensures
            c == cur_char(self.src(), self.pos()),
    {
        self.char_at(self.position)
    }

    /// One character of lookahead.
    fn peek_ch(&self) -> (c: char)
        requires
            self.wf(),
            self.pos() < self.src().len(),
        ensures
            c == cur_char(self.src(), self.pos() + 1),
    {
        let n = self.len;
        if self.position + 1 < n {
            self.input.as_str().get_char(self.position + 1)
        } else {
            '\0'
        }
    }

    /// Advances the cursor by one character.
    fn advance(&mut self)
        requires
            old(self).wf(),
            old(self).pos() < old(self).src().len(),
        ensures
            final(self).wf(),
            final(self).src() == old(self).src(),
            final(self).pos() == old(self).pos() + 1,
    {
        self.position = self.position + 1;
    }

    fn is_ws(c: char) -> (r: bool)
        ensures
            r == is_ws_char(c),
    {
        c == ' ' || c == '\t' || c == '\n' || c == '\r'
    }

    fn is_letter_ch(c: char) -> (r: bool)
        ensures
            r == is_letter_char(c),
    {
        let u = c as u32;
        (97 <= u && u <= 122) || (65 <= u && u <= 90) || c == '_'
    }

    fn is_digit_ch(c: char) -> (r: bool)
        ensures
            r == is_digit_char(c),
    {
        let u = c as u32;
        48 <= u && u <= 57
    }

    fn skip_whitespace(&mut self)
        requires
            old(self).wf(),
        ensures
            final(self).wf(),
            final(self).src() == old(self).src(),
            final(self).pos() == skip_ws_idx(old(self).src(), old(self).pos()),
    {
        while Self::is_ws(self.cur_ch())
            invariant
                self.wf(),
                self.src() == old(self).src(),
                skip_ws_idx(self.src(), self.pos()) == skip_ws_idx(old(self).src(), old(self).pos()),
            decreases self.src().len() - self.pos(),
        {
            self.advance();
        }
    }

    /// Returns the next token and advances the cursor past it; at the end of
    /// the input it returns `Eof` without moving, so `Eof` is idempotent.
    /// Never panics: unrecognized characters become `Illegal`, an integer
    /// literal too large for `i32` becomes `Illegal`, and an unterminated
    /// string literal runs to the end of the input.
    pub fn next_token(&mut self) -> (t: Token)
        requires
            old(self).wf(),
        ensures
            final(self).wf(),
            final(self).src() == old(self).src(),
            ({
                let (tv, np) = spec_scan(old(self).src(), old(self).pos());
                t@ == tv && final(self).pos() == np
            }),
    {
        self.skip_whitespace();
        let n = self.len;
        if self.position >= n {
            return Token::Eof;
        }
        let c = self.cur_ch();
        let t: Token = match c {
            '=' => {
                if self.peek_ch() == '=' {
                    self.advance();
                    Token::Equal
                } else {
                    Token::Assign
                }
            },
            '!' => {
                if self.peek_ch() == '=' {
                    self.advance();
                    Token::NotEq
                } else {
                    Token::Bang
                }
            },
            '<' => {
                if self.peek_ch() == '=' {
                    self.advance();
                    Token::LtEq
                } else {
                    Token::Lt
                }
            },
            '>' => {
                if self.peek_ch() == '=' {
                    self.advance();
                    Token::GtEq
                } else {
                    Token::Gt
                }
            },
            ';' => Token::SemiColon,
            ':' => Token::Colon,
            ',' => Token::Comma,
            '(' => Token::LParen,
            ')' => Token::RParen,
            '{' => Token::LBrace,
            '}' => Token::RBrace,
            '[' => Token::LBracket,
            ']' => Token::RBracket,
            '+' => Token::Plus,
            '-' => Token::Minus,
            '*' => Token::Asterisk,
            '/' => Token::Slash,
            '%' => Token::Percent,
            '"' => {
                return self.read_string();
            },
            _ => {
                if Self::is_letter_ch(c) {
                    return self.read_identifier();
                } else if Self::is_digit_ch(c) {
                    return self.read_number();
                } else {
                    Token::Illegal
                }
            },
        };
        self.advance();
        t
    }

    /// Reads a quote-delimited string literal; the cursor stands on the
    /// opening quote. No escape sequences are processed.
    fn read_string(&mut self) -> (t: Token)
        requires
            old(self).wf(),
            old(self).pos() < old(self).src().len(),
            cur_char(old(self).src(), old(self).pos()) == '"',
        ensures
            final(self).wf(),
            final(self).src() == old(self).src(),
            ({
                let s = old(self).src();
                let q = old(self).pos();
                let e = str_end(s, q + 1);
                t@ == TokenV::Str(s.subrange(q + 1, e)) && final(self).pos() == (
                if e < s.len() {
                    e + 1
                } else {
                    e
                })
            }),
    {
        self.advance();
        let start = self.position;
        let n = self.len;
        while self.position < n && self.cur_ch() != '"'
            invariant
                self.wf(),
                self.src() == old(self).src(),
                n == self.src().len(),
                start <= self.position,
                str_end(self.src(), self.pos()) == str_end(old(self).src(), start as int),
            decreases self.src().len() - self.pos(),
        {
            self.advance();
        }
        let content = self.input.as_str().substring_char(start, self.position).to_owned();
        if self.position < n {
            self.advance();
        }
        Token::Str(content)
    }

    /// Reads a maximal identifier run and resolves keywords.
    fn read_identifier(&mut self) -> (t: Token)
        requires
            old(self).wf(),
            old(self).pos() < old(self).src().len(),
            is_letter_char(cur_char(old(self).src(), old(self).pos())),
        ensures
            final(self).wf(),
            final(self).src() == old(self).src(),
            ({
                let s = old(self).src();
                let q = old(self).pos();
                let e = ident_end(s, q);
                let name = s.subrange(q, e);
                final(self).pos() == e && t@ == (match spec_keyword(name) {
                    Some(kw) => kw,
                    None => TokenV::Ident(name),
                })
            }),
    {
        let start = self.position;
        while Self::is_letter_ch(self.cur_ch())
            invariant
                self.wf(),
                self.src() == old(self).src(),
                start <= self.position,
                ident_end(self.src(), self.pos()) == ident_end(old(self).src(), start as int),
            decreases self.src().len() - self.pos(),
        {
            self.advance();
        }
        let name = self.input.as_str().substring_char(start, self.position).to_owned();
        match lookup_indentifier(name.as_str()) {
            Some(kw) => kw,
            None => Token::Ident(name),
        }
    }

    /// Reads a maximal digit run. A value beyond `i32::MAX` yields `Illegal`
    /// (the fixed-width integer type cannot represent it); the run is still
    /// consumed in full.
    fn read_number(&mut self) -> (t: Token)
        requires
            old(self).wf(),
            old(self).pos() < old(self).src().len(),
            is_digit_char(cur_char(old(self).src(), old(self).pos())),
        ensures
            final(self).wf(),
            final(self).src() == old(self).src(),
            ({
                let s = old(self).src();
                let q = old(self).pos();
                let e = num_end(s, q);
                let v = digits_val(s, q, e);
                final(self).pos() == e && t@ == (if v <= i32::MAX {
                    TokenV::Int(v as i32)
                } else {
                    TokenV::Illegal
                })
            }),
    {
        let start = self.position;
        let mut val: u64 = 0;
        while Self::is_digit_ch(self.cur_ch())
            invariant
                self.wf(),
                self.src() == old(self).src(),
                start <= self.position,
                num_end(self.src(), self.pos()) == num_end(old(self).src(), start as int),
                digits_val(self.src(), start as int, self.pos()) >= 0,
                ({
                    let dv = digits_val(self.src(), start as int, self.pos());
                    (dv <= 0x7FFF_FFFF && val == dv) || (dv > 0x7FFF_FFFF && val == 0x8000_0000)
                }),
            decreases self.src().len() - self.pos(),
        {
            let c = self.cur_ch();
            let d = (c as u32 - 48) as u64;
            if val <= 0x7FFF_FFFF {
                val = val * 10 + d;
                if val > 0x7FFF_FFFF {
                    val = 0x8000_0000;
                }
            }
            self.advance();
        }
        if val <= 0x7FFF_FFFF {
            Token::Int(val as i32)
        } else {
            Token::Illegal
        }
    }
}

/// Bounds for `skip_ws_idx`: skipping whitespace stays inside the input.
pub proof fn lemma_skip_ws_bounds(s: Seq<char>, p: int)
    requires
        0 <= p <= s.len(),
    ensures
        p <= skip_ws_idx(s, p) <= s.len(),
    decreases s.len() - p,
{
    if p < s.len() && is_ws_char(s[p]) {
        lemma_skip_ws_bounds(s, p + 1);
    }
}

/// Bounds for `ident_end`.
pub proof fn lemma_ident_end_bounds(s: Seq<char>, p: int)
    requires
        0 <= p <= s.len(),
    ensures
        p <= ident_end(s, p) <= s.len(),
    decreases s.len() - p,
{
    if p < s.len() && is_letter_char(s[p]) {
        lemma_ident_end_bounds(s, p + 1);
    }
}

/// Bounds for `num_end`.
pub proof fn lemma_num_end_bounds(s: Seq<char>, p: int)
    requires
        0 <= p <= s.len(),
    ensures
        p <= num_end(s, p) <= s.len(),
    decreases s.len() - p,
{
    if p < s.len() && is_digit_char(s[p]) {
        lemma_num_end_bounds(s, p + 1);
    }
}

/// Bounds for `str_end`.
pub proof fn lemma_str_end_bounds(s: Seq<char>, p: int)
    requires
        0 <= p <= s.len(),
    ensures
        p <= str_end(s, p) <= s.len(),
    decreases s.len() - p,
{
    if p < s.len() && s[p] != '"' {
        lemma_str_end_bounds(s, p + 1);
    }
}

/// Scanning makes progress: the cursor never moves backwards, stays inside
/// the input, and strictly advances whenever the token is not `Eof`.
pub proof fn lemma_scan_advances(s: Seq<char>, p: int)
    requires
        0 <= p <= s.len(),
    ensures
        ({
            let (t, q) = spec_scan(s, p);
            p <= q <= s.len() && (!(t is Eof) ==> q > p)
        }),
{
    lemma_skip_ws_bounds(s, p);
    let q0 = skip_ws_idx(s, p);
    if q0 < s.len() {
        lemma_ident_end_bounds(s, q0 + 1);
        lemma_num_end_bounds(s, q0 + 1);
        lemma_str_end_bounds(s, q0 + 1);
    }
}

/// The whole token sequence of the source from position `p` on, ending just
/// before the `Eof` sentinel.
pub open spec fn spec_tokens_from(s: Seq<char>, p: int) -> Seq<TokenV>
    decreases s.len() - p,
        when 0 <= p <= s.len()
        via spec_tokens_from_decreases
{
    let (t, q) = spec_scan(s, p);
    if t is Eof {
        Seq::empty()
    } else {
        seq![t] + spec_tokens_from(s, q)
    }
}

#[via_fn]
proof fn spec_tokens_from_decreases(s: Seq<char>, p: int) {
    lemma_scan_advances(s, p);
}

/// The token sequence of a whole source text, `Eof` excluded.
pub open spec fn spec_tokens(s: Seq<char>) -> Seq<TokenV> {
    spec_tokens_from(s, 0)
}

/// Lexing is deterministic: the token sequence is a pure function of the
/// source text, so lexing identical sources yields identical sequences.
pub proof fn lemma_lexing_deterministic(s1: Seq<char>, s2: Seq<char>)
    requires
        s1 == s2,
    ensures
        spec_tokens(s1) == spec_tokens(s2),
{
}

/// Runs the lexer to the end of its input, returning every token followed
/// by the `Eof` sentinel.
pub fn tokenize(l: &mut Lexer) -> (v: Vec<Token>)
    requires
        old(l).wf(),
    ensures
        final(l).wf(),
        final(l).src() == old(l).src(),
        v.deep_view() == spec_tokens_from(old(l).src(), old(l).pos()) + seq![TokenV::Eof],
{
    let ghost s0 = l.src();
    let ghost p0 = l.pos();
    let ghost whole = spec_tokens_from(s0, p0);
    let mut v: Vec<Token> = Vec::new();
    let mut t = l.next_token();
    proof {
        lemma_scan_advances(s0, p0);
    }
    while !(matches!(t, Token::Eof))
        invariant
            l.wf(),
            l.src() == s0,
            whole == spec_tokens_from(s0, p0),
            ({
                if t@ is Eof {
                    v.deep_view() == whole
                } else {
                    v.deep_view() + seq![t@] + spec_tokens_from(s0, l.pos()) == whole
                }
            }),
        decreases 2 * (l.src().len() - l.pos()) + (if t@ is Eof { 0int } else { 1int }),
    {
        let ghost vd = v.deep_view();
        let ghost tv = t@;
        let ghost p1 = l.pos();
        v.push(t);
        proof {
            assert(v.deep_view() =~= vd.push(tv));
        }
        t = l.next_token();
        proof {
            lemma_scan_advances(s0, p1);
            if t@ is Eof {
                assert(v.deep_view() =~= vd + seq![tv]);
            } else {
                assert(v.deep_view() + seq![t@] + spec_tokens_from(s0, l.pos()) =~= vd + seq![
                    tv,
                ] + (seq![t@] + spec_tokens_from(s0, l.pos())));
            }
        }
    }
    let ghost vd = v.deep_view();
    v.push(Token::Eof);
    proof {
        assert(v.deep_view() =~= vd.push(TokenV::Eof));
        assert(v.deep_view() =~= whole + seq![TokenV::Eof]);
    }
    v
}

} // verus!
