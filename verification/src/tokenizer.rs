//! The lexical scanner. It owns the full source text and a single cursor,
//! and produces tokens on demand.
//!
//! The contracts are stated against `spec_scan`, a mathematical model of
//! one scan step: `spec_scan(s, p)` says exactly which token starts at
//! cursor `p` of source `s` and where the cursor stands afterwards, or
//! which lexical error the scanner reports there.

use vstd::prelude::*;
use vstd::string::{StrSliceExecFns, StringExecFns};
use crate::diag::LexError;
use crate::tokens::{Token, TokenView};

verus! {

/// Relies on std's `String::push`: it appends exactly the given character
/// at the end of the string.
pub assume_specification[ String::push ](s: &mut String, ch: char)
    ensures
        final(s)@ == old(s)@.push(ch),
;

/// The character classes whose maximal runs the scanner consumes.
pub enum CharClass {
    Whitespace,
    Digit,
    IdentChar,
}

/// The whitespace characters (the Unicode White_Space set; the scanner
/// reads them as token separators).
pub open spec fn is_space_char(c: char) -> bool {
    c == '\t' || c == '\n' || c == '\u{b}' || c == '\u{c}' || c == '\r' || c == ' '
        || c == '\u{85}' || c == '\u{a0}' || c == '\u{1680}'
        || ('\u{2000}' as u32 <= c as u32 && c as u32 <= '\u{200a}' as u32) || c == '\u{2028}'
        || c == '\u{2029}' || c == '\u{202f}' || c == '\u{205f}' || c == '\u{3000}'
}

/// An ASCII digit.
pub open spec fn is_digit_char(c: char) -> bool {
    48 <= c as u32 && c as u32 <= 57
}

/// An ASCII letter.
pub open spec fn is_letter_char(c: char) -> bool {
    (65 <= c as u32 && c as u32 <= 90) || (97 <= c as u32 && c as u32 <= 122)
}

/// A character that may continue an identifier.
pub open spec fn is_ident_char(c: char) -> bool {
    is_letter_char(c) || is_digit_char(c) || c == '_'
}

/// Whether a character belongs to the given class.
pub open spec fn char_in_class(c: char, k: CharClass) -> bool {
    match k {
        CharClass::Whitespace => is_space_char(c),
        CharClass::Digit => is_digit_char(c),
        CharClass::IdentChar => is_ident_char(c),
    }
}

/// The end of the maximal run of class `k` that starts at `p`: the first
/// position at or after `p` whose character is not of the class, or the
/// end of the text.
pub open spec fn run_end(s: Seq<char>, p: int, k: CharClass) -> int
    decreases s.len() - p,
{
    if 0 <= p && p < s.len() && char_in_class(s[p], k) {
        run_end(s, p + 1, k)
    } else {
        p
    }
}

/// The maximal run is a run (every character before its end is of the
/// class) and it is maximal (the character at its end, if any, is not).
pub proof fn lemma_run_end(s: Seq<char>, p: int, k: CharClass)
    requires
        0 <= p <= s.len(),
    ensures
        p <= run_end(s, p, k) <= s.len(),
        forall|i: int| p <= i < run_end(s, p, k) ==> char_in_class(#[trigger] s[i], k),
        run_end(s, p, k) < s.len() ==> !char_in_class(s[run_end(s, p, k)], k),
    decreases s.len() - p,
{
    if p < s.len() && char_in_class(s[p], k) {
        lemma_run_end(s, p + 1, k);
    }
}

/// The character the scanner sees at position `p`: the character there,
/// or the sentinel `'\0'` at or past the end of the text.
pub open spec fn char_at(s: Seq<char>, p: int) -> char {
    if 0 <= p < s.len() {
        s[p]
    } else {
        '\0'
    }
}

/// The value of a digit character.
pub open spec fn digit_val(c: char) -> int {
    c as u32 - 48
}

/// The value of a run of digit characters read in base ten.
pub open spec fn digits_val(w: Seq<char>) -> int
    decreases w.len(),
{
    if w.len() == 0 {
        0
    } else {
        digits_val(w.drop_last()) * 10 + digit_val(w.last())
    }
}

/// The punctuation characters that form a token by themselves
/// (`.` forms the end-of-input token).
pub open spec fn is_symbol_char(c: char) -> bool {
    c == '+' || c == '-' || c == '*' || c == '/' || c == ';' || c == ',' || c == '(' || c == ')'
        || c == '{' || c == '}' || c == '.'
}

pub open spec fn symbol_token(c: char) -> TokenView {
    if c == '+' {
        TokenView::Plus
    } else if c == '-' {
        TokenView::Minus
    } else if c == '*' {
        TokenView::Times
    } else if c == '/' {
        TokenView::Divide
    } else if c == ';' {
        TokenView::Semicolon
    } else if c == ',' {
        TokenView::Comma
    } else if c == '(' {
        TokenView::OpenParen
    } else if c == ')' {
        TokenView::CloseParen
    } else if c == '{' {
        TokenView::OpenBrace
    } else if c == '}' {
        TokenView::CloseBrace
    } else {
        TokenView::EOF
    }
}

/// A character that may start a relational or assignment operator.
pub open spec fn is_operator_start(c: char) -> bool {
    c == '<' || c == '>' || c == '=' || c == '!'
}

/// The keyword table: a word that spells a reserved keyword is that
/// keyword's token; any other word is an identifier carrying the word.
pub open spec fn classify_word(w: Seq<char>) -> TokenView {
    if w == "if"@ {
        TokenView::If
    } else if w == "else"@ {
        TokenView::Else
    } else if w == "while"@ {
        TokenView::While
    } else if w == "function"@ {
        TokenView::Function
    } else if w == "call"@ {
        TokenView::FunctionCall
    } else if w == "return"@ {
        TokenView::Return
    } else if w == "var"@ {
        TokenView::Variable
    } else if w == "void"@ {
        TokenView::Void
    } else if w == "then"@ {
        TokenView::Then
    } else if w == "fi"@ {
        TokenView::Fi
    } else if w == "do"@ {
        TokenView::Do
    } else if w == "od"@ {
        TokenView::Od
    } else if w == "let"@ {
        TokenView::Let
    } else if w == "main"@ {
        TokenView::Main
    } else {
        TokenView::Identifier(w)
    }
}

/// The outcome of one scan step: the token and the cursor after it, or
/// the lexical error reported there together with the cursor the scanner
/// leaves behind (the scan is a pure function of source and cursor, on
/// the error path as well).
pub enum Scan {
    Next(TokenView, int),
    Fail(LexError, int),
}

/// One scan step on an operator character (`<`, `>`, `=`, `!`) at
/// position `q`: the character after it decides between the one- and
/// two-character spellings; a bare `=` or `!` is a lexical error.
pub open spec fn scan_operator(s: Seq<char>, q: int) -> Scan {
    let c = s[q];
    let nx = char_at(s, q + 1);
    if c == '<' {
        if nx == '-' {
            Scan::Next(TokenView::Assignment, q + 2)
        } else if nx == '=' {
            Scan::Next(TokenView::LessEqual, q + 2)
        } else {
            Scan::Next(TokenView::Less, q + 1)
        }
    } else if c == '>' {
        if nx == '=' {
            Scan::Next(TokenView::GreaterEqual, q + 2)
        } else {
            Scan::Next(TokenView::Greater, q + 1)
        }
    } else if c == '=' {
        if nx == '=' {
            Scan::Next(TokenView::Equal, q + 2)
        } else {
            Scan::Fail(
                LexError::MalformedOperator { op: '=', found: nx, pos: (q + 1) as usize },
                q + 1,
            )
        }
    } else {
        if nx == '=' {
            Scan::Next(TokenView::NotEqual, q + 2)
        } else {
            Scan::Fail(
                LexError::MalformedOperator { op: '!', found: nx, pos: (q + 1) as usize },
                q + 1,
            )
        }
    }
}

/// One scan step on a digit at position `q`: the maximal digit run is
/// the literal; a value beyond `isize::MAX` is an error, not wraparound.
pub open spec fn scan_number(s: Seq<char>, q: int) -> Scan {
    let e = run_end(s, q, CharClass::Digit);
    let v = digits_val(s.subrange(q, e));
    if v <= isize::MAX as int {
        Scan::Next(TokenView::Number(v), e)
    } else {
        Scan::Fail(LexError::NumberOverflow { pos: q as usize }, e)
    }
}

/// One scan step of the tokenizer at cursor `p` of source `s`: skip
/// whitespace, then classify the next character — punctuation, digit run,
/// operator, or word — and consume the matching lexeme. Any other
/// character (the sentinel `'\0'` at the end of the text included) is a
/// lexical error.
pub open spec fn spec_scan(s: Seq<char>, p: int) -> Scan {
    let q = run_end(s, p, CharClass::Whitespace);
    if q >= s.len() {
        Scan::Fail(LexError::UnexpectedChar { ch: '\0', pos: q as usize }, q)
    } else {
        let c = s[q];
        if is_symbol_char(c) {
            Scan::Next(symbol_token(c), q + 1)
        } else if is_digit_char(c) {
            scan_number(s, q)
        } else if is_operator_start(c) {
            scan_operator(s, q)
        } else if is_letter_char(c) {
            let e = run_end(s, q, CharClass::IdentChar);
            Scan::Next(classify_word(s.subrange(q, e)), e)
        } else {
            Scan::Fail(LexError::UnexpectedChar { ch: c, pos: q as usize }, q)
        }
    }
}

/// A successful scan step lands strictly beyond where it started and
/// never beyond the end of the text.
pub proof fn lemma_scan_next_bounds(s: Seq<char>, p: int)
    requires
        0 <= p <= s.len(),
    ensures
        spec_scan(s, p) matches Scan::Next(tv, np) ==> p < np <= s.len(),
{
    lemma_run_end(s, p, CharClass::Whitespace);
    let q = run_end(s, p, CharClass::Whitespace);
    if q < s.len() {
        if is_digit_char(s[q]) {
            lemma_run_end(s, q + 1, CharClass::Digit);
            assert(run_end(s, q, CharClass::Digit) == run_end(s, q + 1, CharClass::Digit));
        }
        if is_letter_char(s[q]) {
            lemma_run_end(s, q + 1, CharClass::IdentChar);
            assert(run_end(s, q, CharClass::IdentChar) == run_end(s, q + 1, CharClass::IdentChar));
        }
    }
}

/// What the k-th of a row of consecutive peeks sees. `peek_token` leaves
/// the source and the cursor unchanged, so every later peek in the row
/// starts from the same state and scans again.
pub open spec fn nth_peek_outcome(s: Seq<char>, p: int, k: nat) -> Scan
    decreases k,
{
    if k == 0 {
        spec_scan(s, p)
    } else {
        nth_peek_outcome(s, p, (k - 1) as nat)
    }
}

/// Peeking is idempotent: however many consecutive peeks are made with
/// no intervening `next_token`, each returns the same token (or the same
/// error), and the cursor is the same before and after every one of them.
pub proof fn lemma_peek_idempotent(s: Seq<char>, p: int, k: nat)
    ensures
        nth_peek_outcome(s, p, k) == spec_scan(s, p),
    decreases k,
{
    if k > 0 {
        lemma_peek_idempotent(s, p, (k - 1) as nat);
    }
}

/// For every legal operator spelling, one scan step at the spelling
/// returns exactly the specified token and stops right after the lexeme:
/// `<-` is assignment, `<=`, `>=`, `==`, `!=` are two-character
/// comparators, bare `<` and `>` are one-character comparators, and a
/// bare `=` or `!` is a lexical error.
pub proof fn lemma_operator_spellings(s: Seq<char>, p: int)
    requires
        0 <= p < s.len(),
        is_operator_start(s[p]),
    ensures
        s[p] == '<' && char_at(s, p + 1) == '-' ==> spec_scan(s, p) == Scan::Next(
            TokenView::Assignment,
            p + 2,
        ),
        s[p] == '<' && char_at(s, p + 1) == '=' ==> spec_scan(s, p) == Scan::Next(
            TokenView::LessEqual,
            p + 2,
        ),
        s[p] == '<' && char_at(s, p + 1) != '-' && char_at(s, p + 1) != '=' ==> spec_scan(s, p)
            == Scan::Next(TokenView::Less, p + 1),
        s[p] == '>' && char_at(s, p + 1) == '=' ==> spec_scan(s, p) == Scan::Next(
            TokenView::GreaterEqual,
            p + 2,
        ),
        s[p] == '>' && char_at(s, p + 1) != '=' ==> spec_scan(s, p) == Scan::Next(
            TokenView::Greater,
            p + 1,
        ),
        s[p] == '=' && char_at(s, p + 1) == '=' ==> spec_scan(s, p) == Scan::Next(
            TokenView::Equal,
            p + 2,
        ),
        s[p] == '=' && char_at(s, p + 1) != '=' ==> spec_scan(s, p) == Scan::Fail(
            LexError::MalformedOperator { op: '=', found: char_at(s, p + 1), pos: (p + 1) as usize },
            p + 1,
        ),
        s[p] == '!' && char_at(s, p + 1) == '=' ==> spec_scan(s, p) == Scan::Next(
            TokenView::NotEqual,
            p + 2,
        ),
        s[p] == '!' && char_at(s, p + 1) != '=' ==> spec_scan(s, p) == Scan::Fail(
            LexError::MalformedOperator { op: '!', found: char_at(s, p + 1), pos: (p + 1) as usize },
            p + 1,
        ),
{
    assert(!is_space_char(s[p]));
    assert(run_end(s, p, CharClass::Whitespace) == p);
}

/// A number is scanned whole: at a digit, one scan step consumes the
/// maximal run of digits and returns exactly its base-ten value, or the
/// overflow error when that value does not fit in `isize` — never a
/// wrapped-around token.
pub proof fn lemma_number_maximal_munch(s: Seq<char>, p: int)
    requires
        0 <= p < s.len(),
        is_digit_char(s[p]),
    ensures
        ({
            let e = run_end(s, p, CharClass::Digit);
            let v = digits_val(s.subrange(p, e));
            &&& p < e <= s.len()
            &&& (e < s.len() ==> !is_digit_char(s[e]))
            &&& (v <= isize::MAX as int ==> spec_scan(s, p) == Scan::Next(TokenView::Number(v), e))
            &&& (v > isize::MAX as int ==> spec_scan(s, p) == Scan::Fail(
                LexError::NumberOverflow { pos: p as usize },
                e,
            ))
        }),
{
    assert(!is_space_char(s[p]));
    assert(run_end(s, p, CharClass::Whitespace) == p);
    assert(!is_symbol_char(s[p]));
    lemma_run_end(s, p, CharClass::Digit);
    lemma_run_end(s, p + 1, CharClass::Digit);
    assert(run_end(s, p, CharClass::Digit) == run_end(s, p + 1, CharClass::Digit));
}

/// A word is scanned whole: at a letter, one scan step consumes the
/// maximal run of identifier characters — nothing of the word is left
/// behind, so a keyword is recognized only as the entire word and any
/// other word becomes an identifier carrying the full run.
pub proof fn lemma_word_maximal_munch(s: Seq<char>, p: int)
    requires
        0 <= p < s.len(),
        is_letter_char(s[p]),
    ensures
        ({
            let e = run_end(s, p, CharClass::IdentChar);
            &&& spec_scan(s, p) == Scan::Next(classify_word(s.subrange(p, e)), e)
            &&& p < e <= s.len()
            &&& forall|i: int| p <= i < e ==> is_ident_char(#[trigger] s[i])
            &&& e < s.len() ==> !is_ident_char(s[e])
        }),
{
    assert(!is_space_char(s[p]));
    assert(run_end(s, p, CharClass::Whitespace) == p);
    assert(!is_symbol_char(s[p]));
    assert(!is_digit_char(s[p]));
    assert(!is_operator_start(s[p]));
    lemma_run_end(s, p, CharClass::IdentChar);
    lemma_run_end(s, p + 1, CharClass::IdentChar);
    assert(run_end(s, p, CharClass::IdentChar) == run_end(s, p + 1, CharClass::IdentChar));
    assert(forall|i: int|
        p <= i < run_end(s, p, CharClass::IdentChar) ==> char_in_class(#[trigger] s[i],
        CharClass::IdentChar));
}

/// Decides `is_space_char`.
fn is_space(c: char) -> (b: bool)
    ensures
        b == is_space_char(c),
{
    let u = c as u32;
    u == 9 || u == 10 || u == 11 || u == 12 || u == 13 || u == 32 || u == 133 || u == 160
        || u == 0x1680 || (0x2000 <= u && u <= 0x200a) || u == 0x2028 || u == 0x2029
        || u == 0x202f || u == 0x205f || u == 0x3000
}

/// Decides `is_digit_char`.
fn is_digit(c: char) -> (b: bool)
    ensures
        b == is_digit_char(c),
{
    let u = c as u32;
    48 <= u && u <= 57
}

/// Decides `is_letter_char`.
fn is_letter(c: char) -> (b: bool)
    ensures
        b == is_letter_char(c),
{
    let u = c as u32;
    (65 <= u && u <= 90) || (97 <= u && u <= 122)
}

/// Decides `is_ident_char`.
fn is_ident(c: char) -> (b: bool)
    ensures
        b == is_ident_char(c),
{
    is_letter(c) || is_digit(c) || c == '_'
}

/// Compares a scanned word with a keyword spelling.
fn str_eq(a: &String, b: &str) -> (r: bool)
    ensures
        r == (a@ == b@),
{
    let bs = String::from_str(b);
    *a == bs
}

/// Reads the value of a run of digit characters, refusing a value that
/// does not fit in `isize`.
fn parse_number_string(s: &String) -> (r: Option<isize>)
    requires
        forall|i: int| 0 <= i < s@.len() ==> is_digit_char(#[trigger] s@[i]),
    ensures
        digits_val(s@) <= isize::MAX as int ==> (r matches Some(v) && v as int == digits_val(s@)),
        digits_val(s@) > isize::MAX as int ==> r is None,
{
    let n = s.as_str().unicode_len();
    let mut acc: isize = 0;
    let mut i: usize = 0;
    while i < n
        invariant
            n == s@.len(),
            forall|j: int| 0 <= j < s@.len() ==> is_digit_char(#[trigger] s@[j]),
            i <= n,
            0 <= acc,
            acc as int == digits_val(s@.take(i as int)),
        decreases n - i,
    {
        let c = s.as_str().get_char(i);
        let d: isize = ((c as u32) - 48) as isize;
        proof {
            assert(s@.take(i + 1).drop_last() =~= s@.take(i as int));
            assert(s@.take(i + 1).last() == s@[i as int]);
        }
        if acc > (isize::MAX - d) / 10 {
            proof {
                let m = isize::MAX as int;
                let di = d as int;
                vstd::arithmetic::div_mod::lemma_fundamental_div_mod(m - di, 10);
                assert(0 <= (m - di) % 10 < 10) by (nonlinear_arith);
                assert(acc as int * 10 + di > m);
                lemma_digits_val_prefix(s@, i + 1);
            }
            return None;
        }
        proof {
            let m = isize::MAX as int;
            let di = d as int;
            vstd::arithmetic::div_mod::lemma_fundamental_div_mod(m - di, 10);
            assert(0 <= (m - di) % 10 < 10) by (nonlinear_arith);
            assert(acc as int * 10 + di <= m);
        }
        acc = acc * 10 + d;
        i += 1;
    }
    proof {
        assert(s@.take(n as int) =~= s@);
    }
    Some(acc)
}

/// The value of a run of digits is never negative.
proof fn lemma_digits_val_nonneg(w: Seq<char>)
    requires
        forall|i: int| 0 <= i < w.len() ==> is_digit_char(#[trigger] w[i]),
    ensures
        digits_val(w) >= 0,
    decreases w.len(),
{
    if w.len() > 0 {
        lemma_digits_val_nonneg(w.drop_last());
    }
}

/// Extending a run of digits never shrinks its value.
proof fn lemma_digits_val_prefix(w: Seq<char>, j: int)
    requires
        forall|i: int| 0 <= i < w.len() ==> is_digit_char(#[trigger] w[i]),
        0 <= j <= w.len(),
    ensures
        digits_val(w.take(j)) <= digits_val(w),
    decreases w.len() - j,
{
    if j < w.len() {
        lemma_digits_val_nonneg(w.take(j));
        assert(w.take(j + 1).drop_last() =~= w.take(j));
        assert(digits_val(w.take(j)) <= digits_val(w.take(j + 1)));
        lemma_digits_val_prefix(w, j + 1);
    } else {
        assert(w.take(j) =~= w);
    }
}

/// The scanner: the full source text and the one scan cursor. The cursor
/// is the only mutable state; tokens are produced on demand and not
/// retained.
pub struct Tokenizer {
    input: Vec<char>,
    pos: usize,
}

impl Tokenizer {
    /// The scanned source text.
    pub closed spec fn src(self) -> Seq<char> {
        self.input@
    }

    /// The scan cursor.
    pub closed spec fn cursor(self) -> int {
        self.pos as int
    }

    /// The cursor never stands past the end of the source.
    pub open spec fn wf(self) -> bool {
        0 <= self.cursor() <= self.src().len()
    }

    /// Create a new tokenizer with the provided input string.
    pub fn new(input: String) -> (t: Tokenizer)
        ensures
            t.wf(),
            t.src() == input@,
            t.cursor() == 0,
    {
        let n = input.as_str().unicode_len();
        let mut chars: Vec<char> = Vec::new();
        let mut i: usize = 0;
        while i < n
            invariant
                n == input@.len(),
                i <= n,
                chars@ == input@.take(i as int),
            decreases n - i,
        {
            let c = input.as_str().get_char(i);
            chars.push(c);
            proof {
                assert(input@.take(i + 1) =~= input@.take(i as int).push(input@[i as int]));
            }
            i += 1;
        }
        proof {
            assert(input@.take(n as int) =~= input@);
        }
        Tokenizer { input: chars, pos: 0 }
    }

    /// Peek at the current character without advancing the tokenizer;
    /// at or past the end of the input this is the sentinel `'\0'`.
    pub fn peek_char(&self) -> (c: char)
        ensures
            c == char_at(self.src(), self.cursor()),
    {
        if self.pos >= self.input.len() {
            '\0'
        } else {
            self.input[self.pos]
        }
    }

    /// Advance the tokenizer and return the next character.
    fn next_char(&mut self) -> (c: char)
        requires
            old(self).cursor() < old(self).src().len(),
        ensures
            c == old(self).src()[old(self).cursor()],
            final(self).src() == old(self).src(),
            final(self).cursor() == old(self).cursor() + 1,
    {
        let c = self.peek_char();
        // reading the length shows the cursor increment cannot overflow
        let _len = self.input.len();
        self.pos = self.pos + 1;
        c
    }

    /// Consume characters while the provided function returns true; the
    /// function must decide the character class `k`. Returns the consumed
    /// run and leaves the cursor at its end.
    fn consume_while<F: Fn(char) -> bool>(&mut self, test: F, Ghost(k): Ghost<CharClass>) -> (r:
        String)
        requires
            old(self).wf(),
            forall|c: char| #[trigger] call_requires(test, (c,)),
            forall|c: char, b: bool| #[trigger] call_ensures(test, (c,), b) ==> b == char_in_class(
                c,
                k,
            ),
        ensures
            final(self).wf(),
            final(self).src() == old(self).src(),
            final(self).cursor() == run_end(old(self).src(), old(self).cursor(), k),
            r@ == old(self).src().subrange(old(self).cursor(), final(self).cursor()),
    {
        let ghost s = old(self).src();
        let ghost p0 = old(self).cursor();
        let mut result = String::new();
        while self.pos < self.input.len() && test(self.peek_char())
            invariant
                self.wf(),
                self.src() == s,
                0 <= p0 <= self.cursor(),
                run_end(s, p0, k) == run_end(s, self.cursor(), k),
                result@ == s.subrange(p0, self.cursor()),
                forall|c: char| #[trigger] call_requires(test, (c,)),
                forall|c: char, b: bool| #[trigger] call_ensures(test, (c,), b) ==> b
                    == char_in_class(c, k),
            decreases s.len() - self.cursor(),
        {
            proof {
                assert(char_in_class(s[self.cursor()], k));
                assert(run_end(s, self.cursor(), k) == run_end(s, self.cursor() + 1, k));
            }
            let ghost before = self.cursor();
            let c = self.next_char();
            result.push(c);
            proof {
                assert(s.subrange(p0, before).push(s[before]) =~= s.subrange(p0, before + 1));
            }
        }
        result
    }

    /// Consume all whitespace characters from the current position.
    fn consume_whitespace(&mut self)
        requires
            old(self).wf(),
        ensures
            final(self).wf(),
            final(self).src() == old(self).src(),
            final(self).cursor() == run_end(old(self).src(), old(self).cursor(), CharClass::Whitespace),
    {
        let test = |c: char| -> (b: bool)
            ensures
                b == is_space_char(c),
            { is_space(c) };
        let _ = self.consume_while(test, Ghost(CharClass::Whitespace));
    }

    /// Tokenize a maximal run of digits into a Number token; a value that
    /// does not fit in `isize` is a lexical error.
    fn tokenize_number(&mut self) -> (r: Result<Token, LexError>)
        requires
            old(self).wf(),
            old(self).cursor() < old(self).src().len(),
            is_digit_char(old(self).src()[old(self).cursor()]),
        ensures
            final(self).wf(),
            final(self).src() == old(self).src(),
            ({
                let sc = scan_number(old(self).src(), old(self).cursor());
                match sc {
                    Scan::Next(tv, np) => r matches Ok(t) && t@ == tv && final(self).cursor() == np,
                    Scan::Fail(e, fp) => r matches Err(e2) && e2 == e && final(self).cursor() == fp,
                }
            }),
    {
        let ghost s = old(self).src();
        let ghost q = old(self).cursor();
        let start = self.pos;
        let test = |c: char| -> (b: bool)
            ensures
                b == is_digit_char(c),
            { is_digit(c) };
        let digits = self.consume_while(test, Ghost(CharClass::Digit));
        proof {
            lemma_run_end(s, q, CharClass::Digit);
        }
        match parse_number_string(&digits) {
            Some(v) => Ok(Token::Number(v)),
            None => Err(LexError::NumberOverflow { pos: start }),
        }
    }

    /// Tokenize a maximal run of identifier characters into the matching
    /// keyword token, or into an identifier carrying the word.
    fn tokenize_identifier_or_keyword(&mut self) -> (t: Token)
        requires
            old(self).wf(),
            old(self).cursor() < old(self).src().len(),
            is_letter_char(old(self).src()[old(self).cursor()]),
        ensures
            final(self).wf(),
            final(self).src() == old(self).src(),
            final(self).cursor() == run_end(old(self).src(), old(self).cursor(), CharClass::IdentChar),
            t@ == classify_word(
                old(self).src().subrange(old(self).cursor(), final(self).cursor()),
            ),
    {
        let test = |c: char| -> (b: bool)
            ensures
                b == is_ident_char(c),
            { is_ident(c) };
        let word = self.consume_while(test, Ghost(CharClass::IdentChar));
        if str_eq(&word, "if") {
            Token::If
        } else if str_eq(&word, "else") {
            Token::Else
        } else if str_eq(&word, "while") {
            Token::While
        } else if str_eq(&word, "function") {
            Token::Function
        } else if str_eq(&word, "call") {
            Token::FunctionCall
        } else if str_eq(&word, "return") {
            Token::Return
        } else if str_eq(&word, "var") {
            Token::Variable
        } else if str_eq(&word, "void") {
            Token::Void
        } else if str_eq(&word, "then") {
            Token::Then
        } else if str_eq(&word, "fi") {
            Token::Fi
        } else if str_eq(&word, "do") {
            Token::Do
        } else if str_eq(&word, "od") {
            Token::Od
        } else if str_eq(&word, "let") {
            Token::Let
        } else if str_eq(&word, "main") {
            Token::Main
        } else {
            Token::Identifier(word)
        }
    }

    /// Tokenize a relational operator or the assignment operator.
    fn tokenize_operator(&mut self) -> (r: Result<Token, LexError>)
        requires
            old(self).wf(),
            old(self).cursor() < old(self).src().len(),
            is_operator_start(old(self).src()[old(self).cursor()]),
        ensures
            final(self).wf(),
            final(self).src() == old(self).src(),
            ({
                let sc = scan_operator(old(self).src(), old(self).cursor());
                match sc {
                    Scan::Next(tv, np) => r matches Ok(t) && t@ == tv && final(self).cursor() == np,
                    Scan::Fail(e, fp) => r matches Err(e2) && e2 == e && final(self).cursor() == fp,
                }
            }),
    {
        let op = self.next_char();
        if op == '<' {
            if self.peek_char() == '-' {
                let _ = self.next_char();
                Ok(Token::Assignment)
            } else if self.peek_char() == '=' {
                let _ = self.next_char();
                Ok(Token::LessEqual)
            } else {
                Ok(Token::Less)
            }
        } else if op == '>' {
            if self.peek_char() == '=' {
                let _ = self.next_char();
                Ok(Token::GreaterEqual)
            } else {
                Ok(Token::Greater)
            }
        } else if op == '=' {
            if self.peek_char() == '=' {
                let _ = self.next_char();
                Ok(Token::Equal)
            } else {
                Err(LexError::MalformedOperator { op: '=', found: self.peek_char(), pos: self.pos })
            }
        } else {
            if self.peek_char() == '=' {
                let _ = self.next_char();
                Ok(Token::NotEqual)
            } else {
                Err(LexError::MalformedOperator { op: '!', found: self.peek_char(), pos: self.pos })
            }
        }
    }

    /// Retrieve the next token from the input, advancing the tokenizer.
    /// The result is exactly what `spec_scan` says of the old state: the
    /// scanned token with the cursor left right after its lexeme, or the
    /// lexical error reported at the offending position.
    pub fn next_token(&mut self) -> (r: Result<Token, LexError>)
        requires
            old(self).wf(),
        ensures
            final(self).wf(),
            final(self).src() == old(self).src(),
            ({
                let sc = spec_scan(old(self).src(), old(self).cursor());
                match sc {
                    Scan::Next(tv, np) => r matches Ok(t) && t@ == tv && final(self).cursor() == np,
                    Scan::Fail(e, fp) => r matches Err(e2) && e2 == e && final(self).cursor() == fp,
                }
            }),
    {
        self.consume_whitespace();
        let c = self.peek_char();
        if self.pos >= self.input.len() {
            return Err(LexError::UnexpectedChar { ch: '\0', pos: self.pos });
        }
        if c == '+' {
            let _ = self.next_char();
            Ok(Token::Plus)
        } else if c == '-' {
            let _ = self.next_char();
            Ok(Token::Minus)
        } else if c == '*' {
            let _ = self.next_char();
            Ok(Token::Times)
        } else if c == '/' {
            let _ = self.next_char();
            Ok(Token::Divide)
        } else if c == ';' {
            let _ = self.next_char();
            Ok(Token::Semicolon)
        } else if c == ',' {
            let _ = self.next_char();
            Ok(Token::Comma)
        } else if c == '(' {
            let _ = self.next_char();
            Ok(Token::OpenParen)
        } else if c == ')' {
            let _ = self.next_char();
            Ok(Token::CloseParen)
        } else if c == '{' {
            let _ = self.next_char();
            Ok(Token::OpenBrace)
        } else if c == '}' {
            let _ = self.next_char();
            Ok(Token::CloseBrace)
        } else if c == '.' {
            let _ = self.next_char();
            Ok(Token::EOF)
        } else if is_digit(c) {
            self.tokenize_number()
        } else if c == '<' || c == '>' || c == '=' || c == '!' {
            self.tokenize_operator()
        } else if is_letter(c) {
            Ok(self.tokenize_identifier_or_keyword())
        } else {
            Err(LexError::UnexpectedChar { ch: c, pos: self.pos })
        }
    }

    /// Peeks the next token from the input, without advancing the
    /// tokenizer: the cursor (and so the whole observable state) is the
    /// same after the call, so repeated peeks with no intervening
    /// `next_token` all return this same result.
    pub fn peek_token(&mut self) -> (r: Result<Token, LexError>)
        requires
            old(self).wf(),
        ensures
            final(self).wf(),
            final(self).src() == old(self).src(),
            final(self).cursor() == old(self).cursor(),
            ({
                let sc = spec_scan(old(self).src(), old(self).cursor());
                match sc {
                    Scan::Next(tv, np) => r matches Ok(t) && t@ == tv,
                    Scan::Fail(e, fp) => r matches Err(e2) && e2 == e,
                }
            }),
    {
        let previous_pos = self.pos;
        let token = self.next_token();
        self.pos = previous_pos;
        token
    }
}

} // verus!
