use vstd::prelude::*;
use vstd::string::*;

use crate::parse::ParseError;

verus! {

/// Keywords and punctuation.
#[derive(Clone, Copy, Debug, PartialEq, Eq, Structural)]
pub enum Sym {
    Let,
    Mut,
    If,
    Else,
    While,
    Return,
    Fn,
    True,
    False,
    Break,
    Continue,
    Print,
    LParen,
    RParen,
    LBrace,
    RBrace,
    Colon,
    Semi,
    Comma,
    Arrow,
    Plus,
    Minus,
    Star,
    Slash,
    AndAnd,
    OrOr,
    EqEq,
    NotEq,
    Lt,
    Gt,
    Le,
    Ge,
    Assign,
}

/// A token of source text.
#[derive(Debug, PartialEq)]
pub enum Token {
    Ident(String),
    Num(i32),
    Sym(Sym),
}

/// What a token is, with an identifier's text as characters.
pub enum TokenView {
    Ident(Seq<char>),
    Num(i32),
    Sym(Sym),
}

impl View for Token {
    type V = TokenView;

    open spec fn view(&self) -> TokenView {
        match self {
            Token::Ident(s) => TokenView::Ident(s@),
            Token::Num(n) => TokenView::Num(*n),
            Token::Sym(k) => TokenView::Sym(*k),
        }
    }
}

/// The views of a sequence of tokens.
pub open spec fn views(toks: Seq<Token>) -> Seq<TokenView> {
    toks.map_values(|t: Token| t@)
}

/// Where the run of identifier characters starting at `i` ends.
pub open spec fn ident_run_end(s: Seq<char>, i: int) -> int
    decreases s.len() - i,
{
    if 0 <= i < s.len() && is_ident_char(s[i]) {
        ident_run_end(s, i + 1)
    } else {
        i
    }
}

/// Where the run of decimal digits starting at `i` ends.
pub open spec fn digit_run_end(s: Seq<char>, i: int) -> int
    decreases s.len() - i,
{
    if 0 <= i < s.len() && is_digit(s[i]) {
        digit_run_end(s, i + 1)
    } else {
        i
    }
}

/// The keyword that `w` spells, if it is one.
pub open spec fn keyword_of(w: Seq<char>) -> Option<Sym> {
    if w == "let"@ {
        Some(Sym::Let)
    } else if w == "mut"@ {
        Some(Sym::Mut)
    } else if w == "if"@ {
        Some(Sym::If)
    } else if w == "else"@ {
        Some(Sym::Else)
    } else if w == "while"@ {
        Some(Sym::While)
    } else if w == "return"@ {
        Some(Sym::Return)
    } else if w == "fn"@ {
        Some(Sym::Fn)
    } else if w == "true"@ {
        Some(Sym::True)
    } else if w == "false"@ {
        Some(Sym::False)
    } else if w == "break"@ {
        Some(Sym::Break)
    } else if w == "continue"@ {
        Some(Sym::Continue)
    } else if w == "print"@ {
        Some(Sym::Print)
    } else {
        None
    }
}

/// The symbol that starts with `c`, followed by `d` if there is a next
/// character, and how many characters it takes; a two-character symbol wins.
pub open spec fn symbol_of(c: char, d: Option<char>) -> Option<(Sym, usize)> {
    let two = match d {
        Some(d) => if c == '-' && d == '>' {
            Some(Sym::Arrow)
        } else if c == '&' && d == '&' {
            Some(Sym::AndAnd)
        } else if c == '|' && d == '|' {
            Some(Sym::OrOr)
        } else if c == '=' && d == '=' {
            Some(Sym::EqEq)
        } else if c == '!' && d == '=' {
            Some(Sym::NotEq)
        } else if c == '<' && d == '=' {
            Some(Sym::Le)
        } else if c == '>' && d == '=' {
            Some(Sym::Ge)
        } else {
            None
        },
        None => None,
    };
    match two {
        Some(t) => Some((t, 2usize)),
        None => {
            let one = if c == '(' {
                Some(Sym::LParen)
            } else if c == ')' {
                Some(Sym::RParen)
            } else if c == '{' {
                Some(Sym::LBrace)
            } else if c == '}' {
                Some(Sym::RBrace)
            } else if c == ':' {
                Some(Sym::Colon)
            } else if c == ';' {
                Some(Sym::Semi)
            } else if c == ',' {
                Some(Sym::Comma)
            } else if c == '+' {
                Some(Sym::Plus)
            } else if c == '-' {
                Some(Sym::Minus)
            } else if c == '*' {
                Some(Sym::Star)
            } else if c == '/' {
                Some(Sym::Slash)
            } else if c == '<' {
                Some(Sym::Lt)
            } else if c == '>' {
                Some(Sym::Gt)
            } else if c == '=' {
                Some(Sym::Assign)
            } else {
                None
            };
            match one {
                Some(t) => Some((t, 1usize)),
                None => None,
            }
        },
    }
}

/// `rest` with `pre` in front, when there is a `rest`.
pub open spec fn prepend(pre: Seq<TokenView>, rest: Option<Seq<TokenView>>) -> Option<Seq<TokenView>> {
    match rest {
        Some(r) => Some(pre + r),
        None => None,
    }
}

/// The tokens of `s` from position `i`: blanks separate tokens, a word is a
/// keyword or an identifier, a run of digits is a number that must fit in an
/// `i32`, and the longest symbol is taken. `None` when some character starts
/// no token or a number is too large.
pub open spec fn lex_from(s: Seq<char>, i: int) -> Option<Seq<TokenView>>
    decreases s.len() - i,
{
    if i < 0 || i >= s.len() {
        Some(Seq::empty())
    } else {
        let c = s[i];
        if is_space(c) {
            lex_from(s, i + 1)
        } else if is_ident_start(c) {
            let j = ident_run_end(s, i + 1);
            if i < j <= s.len() {
                let w = s.subrange(i, j);
                let t = match keyword_of(w) {
                    Some(k) => TokenView::Sym(k),
                    None => TokenView::Ident(w),
                };
                prepend(seq![t], lex_from(s, j))
            } else {
                None
            }
        } else if is_digit(c) {
            let j = digit_run_end(s, i + 1);
            if i < j <= s.len() {
                let v = digits_value(s.subrange(i, j));
                if v > i32::MAX {
                    None
                } else {
                    prepend(seq![TokenView::Num(v as i32)], lex_from(s, j))
                }
            } else {
                None
            }
        } else {
            let d = if i + 1 < s.len() {
                Some(s[i + 1])
            } else {
                None
            };
            match symbol_of(c, d) {
                Some((t, k)) => if k >= 1 {
                    prepend(seq![TokenView::Sym(t)], lex_from(s, i + k))
                } else {
                    None
                },
                None => None,
            }
        }
    }
}

/// The tokens of `s`.
pub open spec fn lex(s: Seq<char>) -> Option<Seq<TokenView>> {
    lex_from(s, 0)
}

pub proof fn lemma_run_ends(s: Seq<char>, i: int)
    requires
        0 <= i <= s.len(),
    ensures
        i <= ident_run_end(s, i) <= s.len(),
        i <= digit_run_end(s, i) <= s.len(),
        forall|k: int| i <= k < ident_run_end(s, i) ==> is_ident_char(#[trigger] s[k]),
        forall|k: int| i <= k < digit_run_end(s, i) ==> is_digit(#[trigger] s[k]),
    decreases s.len() - i,
{
    if i < s.len() {
        lemma_run_ends(s, i + 1);
    }
}

/// The value of a prefix of digits is at most the value of all of them.
pub proof fn lemma_digits_value_mono(d: Seq<char>, k: int)
    requires
        0 <= k <= d.len(),
        forall|i: int| 0 <= i < d.len() ==> is_digit(#[trigger] d[i]),
    ensures
        0 <= digits_value(d.take(k)) <= digits_value(d),
    decreases d.len() - k,
{
    if k < d.len() {
        lemma_digits_value_mono(d, k + 1);
        assert(d.take(k + 1).drop_last() =~= d.take(k));
    } else {
        assert(d.take(k) =~= d);
        lemma_digits_value_nonneg(d);
    }
}

pub proof fn lemma_digits_value_nonneg(d: Seq<char>)
    requires
        forall|i: int| 0 <= i < d.len() ==> is_digit(#[trigger] d[i]),
    ensures
        digits_value(d) >= 0,
    decreases d.len(),
{
    if d.len() > 0 {
        lemma_digits_value_nonneg(d.drop_last());
    }
}

pub open spec fn is_ident_start(c: char) -> bool {
    ('a' <= c && c <= 'z') || ('A' <= c && c <= 'Z') || c == '_'
}

pub open spec fn is_digit(c: char) -> bool {
    '0' <= c && c <= '9'
}

pub open spec fn is_ident_char(c: char) -> bool {
    is_ident_start(c) || is_digit(c)
}

pub open spec fn is_space(c: char) -> bool {
    c == ' ' || c == '\t' || c == '\n' || c == '\r'
}

/// An identifier token is a letter or `_` followed by letters, digits and `_`.
pub open spec fn token_wf(t: Token) -> bool {
    match t {
        Token::Ident(s) => s@.len() > 0 && is_ident_start(s@[0]) && forall|i: int|
            0 <= i < s@.len() ==> is_ident_char(#[trigger] s@[i]),
        _ => true,
    }
}

/// The decimal value of the digits `d`.
pub open spec fn digits_value(d: Seq<char>) -> int
    decreases d.len(),
{
    if d.len() == 0 {
        0
    } else {
        digits_value(d.drop_last()) * 10 + (d.last() as int - '0' as int)
    }
}

fn error(msg: &str) -> (r: ParseError)
    ensures
        r.message@ == msg@,
{
    ParseError { message: String::from_str(msg) }
}

/// Whether the characters `s[from..to]` spell `w`.
fn spells(s: &str, from: usize, to: usize, w: &str) -> (r: bool)
    requires
        from <= to <= s@.len(),
    ensures
        r == (s@.subrange(from as int, to as int) == w@),
{
    let n = w.unicode_len();
    if to - from != n {
        assert(s@.subrange(from as int, to as int).len() != w@.len());
        return false;
    }
    let mut i: usize = 0;
    while i < n
        invariant
            n == w@.len(),
            to - from == n,
            from <= to <= s@.len(),
            i <= n,
            forall|k: int| 0 <= k < i ==> s@[from + k] == w@[k],
        decreases n - i,
    {
        if s.get_char(from + i) != w.get_char(i) {
            assert(s@.subrange(from as int, to as int)[i as int] != w@[i as int]);
            return false;
        }
        i += 1;
    }
    assert(s@.subrange(from as int, to as int) =~= w@);
    true
}

/// The keyword spelled by `s[from..to]`, if it is one.
fn keyword(s: &str, from: usize, to: usize) -> (r: Option<Sym>)
    requires
        from <= to <= s@.len(),
    ensures
        r == keyword_of(s@.subrange(from as int, to as int)),
{
    if spells(s, from, to, "let") {
        Some(Sym::Let)
    } else if spells(s, from, to, "mut") {
        Some(Sym::Mut)
    } else if spells(s, from, to, "if") {
        Some(Sym::If)
    } else if spells(s, from, to, "else") {
        Some(Sym::Else)
    } else if spells(s, from, to, "while") {
        Some(Sym::While)
    } else if spells(s, from, to, "return") {
        Some(Sym::Return)
    } else if spells(s, from, to, "fn") {
        Some(Sym::Fn)
    } else if spells(s, from, to, "true") {
        Some(Sym::True)
    } else if spells(s, from, to, "false") {
        Some(Sym::False)
    } else if spells(s, from, to, "break") {
        Some(Sym::Break)
    } else if spells(s, from, to, "continue") {
        Some(Sym::Continue)
    } else if spells(s, from, to, "print") {
        Some(Sym::Print)
    } else {
        None
    }
}

fn is_ident_start_char(c: char) -> (r: bool)
    ensures
        r == is_ident_start(c),
{
    ('a' <= c && c <= 'z') || ('A' <= c && c <= 'Z') || c == '_'
}

fn is_digit_char(c: char) -> (r: bool)
    ensures
        r == is_digit(c),
{
    '0' <= c && c <= '9'
}

/// The one-character symbol `c`, or the two-character one it starts with
/// `d` following; with how many characters it takes.
fn symbol(c: char, d: Option<char>) -> (r: Option<(Sym, usize)>)
    ensures
        r == symbol_of(c, d),
        r matches Some((_, k)) ==> 1 <= k <= 2,
        r matches Some((_, k)) ==> k == 2 ==> d is Some,
{
    let two = match d {
        Some(d) => {
            if c == '-' && d == '>' {
                Some(Sym::Arrow)
            } else if c == '&' && d == '&' {
                Some(Sym::AndAnd)
            } else if c == '|' && d == '|' {
                Some(Sym::OrOr)
            } else if c == '=' && d == '=' {
                Some(Sym::EqEq)
            } else if c == '!' && d == '=' {
                Some(Sym::NotEq)
            } else if c == '<' && d == '=' {
                Some(Sym::Le)
            } else if c == '>' && d == '=' {
                Some(Sym::Ge)
            } else {
                None
            }
        },
        None => None,
    };
    match two {
        Some(t) => Some((t, 2)),
        None => {
            let one = if c == '(' {
                Some(Sym::LParen)
            } else if c == ')' {
                Some(Sym::RParen)
            } else if c == '{' {
                Some(Sym::LBrace)
            } else if c == '}' {
                Some(Sym::RBrace)
            } else if c == ':' {
                Some(Sym::Colon)
            } else if c == ';' {
                Some(Sym::Semi)
            } else if c == ',' {
                Some(Sym::Comma)
            } else if c == '+' {
                Some(Sym::Plus)
            } else if c == '-' {
                Some(Sym::Minus)
            } else if c == '*' {
                Some(Sym::Star)
            } else if c == '/' {
                Some(Sym::Slash)
            } else if c == '<' {
                Some(Sym::Lt)
            } else if c == '>' {
                Some(Sym::Gt)
            } else if c == '=' {
                Some(Sym::Assign)
            } else {
                None
            };
            match one {
                Some(t) => Some((t, 1)),
                None => None,
            }
        },
    }
}

/// Whether the character at `i` may continue an identifier (`word`), or is
/// a decimal digit.
fn char_at_is(s: &str, i: usize, word: bool) -> (r: bool)
    requires
        i < s@.len(),
    ensures
        r == if word { is_ident_char(s@[i as int]) } else { is_digit(s@[i as int]) },
{
    let d = s.get_char(i);
    if word {
        is_ident_start_char(d) || is_digit_char(d)
    } else {
        is_digit_char(d)
    }
}

/// The value of the digits `s[start..end]`, when it fits in an `i32`.
fn run_value(s: &str, start: usize, end: usize) -> (r: Option<i32>)
    requires
        start < end <= s@.len(),
        forall|m: int| start <= m < end ==> is_digit(#[trigger] s@[m]),
    ensures
        r matches Some(v) ==> v == digits_value(s@.subrange(start as int, end as int)),
        r is None ==> digits_value(s@.subrange(start as int, end as int)) > i32::MAX,
{
    let ghost run = s@.subrange(start as int, end as int);
    proof {
        assert forall|m: int| 0 <= m < run.len() implies is_digit(#[trigger] run[m]) by {
            assert(run[m] == s@[start + m]);
        }
    }
    let mut value: i32 = 0;
    let mut k: usize = start;
    assert(run.take(0) =~= Seq::<char>::empty());
    while k < end
        invariant
            start <= k <= end <= s@.len(),
            run == s@.subrange(start as int, end as int),
            forall|m: int| 0 <= m < run.len() ==> is_digit(#[trigger] run[m]),
            forall|m: int| start <= m < end ==> is_digit(#[trigger] s@[m]),
            value == digits_value(run.take(k - start)),
        decreases end - k,
    {
        let c = s.get_char(k);
        let d = (c as u32 - '0' as u32) as i32;
        assert(run.take(k - start + 1).drop_last() =~= run.take(k - start));
        assert(run.take(k - start + 1).last() == c);
        assert(digits_value(run.take(k - start + 1)) == value * 10 + d);
        proof {
            lemma_digits_value_mono(run, k - start + 1);
            lemma_digits_value_mono(run, (k - start) as int);
        }
        if value > (i32::MAX - d) / 10 {
            assert(value * 10 + d > i32::MAX) by (nonlinear_arith)
                requires
                    value > (i32::MAX - d) / 10,
                    0 <= d <= 9,
            ;
            return None;
        }
        assert(value * 10 + d <= i32::MAX) by (nonlinear_arith)
            requires
                value <= (i32::MAX - d) / 10,
                0 <= d <= 9,
        ;
        value = value * 10 + d;
        k += 1;
    }
    assert(run.take(k - start) =~= run);
    Some(value)
}

/// Splits source text into tokens. Blanks separate tokens; a number must
/// fit in an `i32`; any other character is an error.
pub fn tokenize(s: &str) -> (r: Result<Vec<Token>, ParseError>)
    ensures
        r matches Ok(toks) ==> lex(s@) == Some(views(toks@)),
        r is Err ==> lex(s@) is None,
        r matches Ok(toks) ==> forall|i: int| 0 <= i < toks@.len() ==> token_wf(#[trigger] toks@[i]),
{
    let n = s.unicode_len();
    let mut toks: Vec<Token> = Vec::new();
    let mut i: usize = 0;
    while i < n
        invariant
            n == s@.len(),
            i <= n,
            lex(s@) == prepend(views(toks@), lex_from(s@, i as int)),
            forall|k: int| 0 <= k < toks@.len() ==> token_wf(#[trigger] toks@[k]),
        decreases n - i,
    {
        let ghost before = toks@;
        let c = s.get_char(i);
        if c == ' ' || c == '\t' || c == '\n' || c == '\r' {
            i += 1;
        } else if is_ident_start_char(c) {
            let start = i;
            i += 1;
            proof {
                lemma_run_ends(s@, i as int);
            }
            while i < n && char_at_is(s, i, true)
                invariant
                    n == s@.len(),
                    start < i <= n,
                    ident_run_end(s@, start + 1) == ident_run_end(s@, i as int),
                    is_ident_start(s@[start as int]),
                    forall|k: int| start <= k < i ==> is_ident_char(#[trigger] s@[k]),
                decreases n - i,
            {
                i += 1;
            }
            assert(ident_run_end(s@, i as int) == i);
            match keyword(s, start, i) {
                Some(k) => toks.push(Token::Sym(k)),
                None => {
                    let text = s.substring_char(start, i).to_owned();
                    assert(text@[0] == s@[start as int]);
                    assert forall|k: int| 0 <= k < text@.len() implies is_ident_char(#[trigger] text@[k]) by {
                        assert(text@[k] == s@[start + k]);
                    }
                    toks.push(Token::Ident(text));
                },
            }
            assert(views(toks@) =~= views(before) + seq![toks@.last()@]);
        } else if is_digit_char(c) {
            let start = i;
            i += 1;
            proof {
                lemma_run_ends(s@, i as int);
            }
            while i < n && char_at_is(s, i, false)
                invariant
                    n == s@.len(),
                    start < i <= n,
                    digit_run_end(s@, start + 1) == digit_run_end(s@, i as int),
                    is_digit(s@[start as int]),
                    forall|k: int| start <= k < i ==> is_digit(#[trigger] s@[k]),
                decreases n - i,
            {
                i += 1;
            }
            assert(digit_run_end(s@, i as int) == i);
            let value = match run_value(s, start, i) {
                Some(v) => v,
                None => return Err(error("integer literal too large")),
            };
            toks.push(Token::Num(value));
            assert(views(toks@) =~= views(before) + seq![TokenView::Num(value)]);
        } else {
            let d = if i + 1 < n {
                Some(s.get_char(i + 1))
            } else {
                None
            };
            match symbol(c, d) {
                Some((t, k)) => {
                    toks.push(Token::Sym(t));
                    assert(views(toks@) =~= views(before) + seq![TokenView::Sym(t)]);
                    i += k;
                },
                None => {
                    return Err(error("unexpected character"));
                },
            }
        }
    }
    assert(views(toks@) + Seq::<TokenView>::empty() =~= views(toks@));
    Ok(toks)
}

} // verus!
