//! Splitting a line of source code into tokens for syntax coloring.
//!
//! A token is a quoted string (with backslash escapes), a `//` comment that
//! runs to the end of the line, a number (digits and dots), a word (a
//! keyword or an identifier), or a single other character (an operator, a
//! bracket or anything else). The tokens of a line, put back together, give
//! the line.

use vstd::prelude::*;
use crate::text::{chars_of, string_of};

verus! {

/// The kind of a token, which decides its color.
#[derive(Clone, Copy, Debug, PartialEq, Eq, Structural)]
pub enum TokenKind {
    Str,
    Comment,
    Number,
    Keyword,
    Identifier,
    Operator,
    Bracket,
    Other,
}

/// A piece of a line and its kind.
#[derive(Clone, Debug)]
pub struct Token {
    pub kind: TokenKind,
    pub text: String,
}

/// Relies on `char::is_alphabetic`: the Unicode `Alphabetic` property.
pub uninterp spec fn alphabetic(c: char) -> bool;

/// Relies on `char::is_alphanumeric`: `Alphabetic` or `Numeric`.
pub uninterp spec fn alphanumeric(c: char) -> bool;

/// Relies on `char::is_alphabetic` to tell letters.
#[verifier::external_body]
fn is_alphabetic(c: char) -> (r: bool)
    ensures
        r == alphabetic(c),
{
    c.is_alphabetic()
}

/// Relies on `char::is_alphanumeric` to tell letters and digits.
#[verifier::external_body]
fn is_alphanumeric(c: char) -> (r: bool)
    ensures
        r == alphanumeric(c),
{
    c.is_alphanumeric()
}

/// Is `c` one of `0` to `9`?
pub open spec fn is_digit(c: char) -> bool {
    '0' <= c && c <= '9'
}

/// The keywords of the common languages that are colored as such.
pub open spec fn keyword_list() -> Seq<Seq<char>> {
    seq![
        "function"@, "const"@, "let"@, "var"@, "return"@, "if"@, "else"@, "for"@, "while"@,
        "fn"@, "pub"@, "impl"@, "struct"@, "enum"@, "trait"@, "use"@, "mod"@, "def"@,
        "class"@, "import"@, "from"@, "async"@, "await"@, "int"@, "string"@, "bool"@,
        "void"@, "char"@, "float"@, "double"@,
    ]
}

/// Is `word` a keyword?
pub open spec fn is_keyword(word: Seq<char>) -> bool {
    exists|i: int| 0 <= i < keyword_list().len() && keyword_list()[i] == word
}

/// The kind of a one-character token.
pub open spec fn symbol_kind(c: char) -> TokenKind {
    if c == '+' || c == '-' || c == '*' || c == '/' || c == '=' || c == '<' || c == '>' || c
        == '!' || c == '&' || c == '|' || c == '^' || c == '%' {
        TokenKind::Operator
    } else if c == '(' || c == ')' || c == '[' || c == ']' || c == '{' || c == '}' {
        TokenKind::Bracket
    } else {
        TokenKind::Other
    }
}

/// The first position from `i` on that holds the quote `q`, a backslash
/// skipping the character after it; the end of `s` when there is none.
pub open spec fn quote_end(s: Seq<char>, q: char, i: int) -> int
    decreases s.len() - i,
{
    if i >= s.len() || s[i] == q {
        i
    } else if s[i] == '\\' && i + 1 < s.len() {
        quote_end(s, q, i + 2)
    } else {
        quote_end(s, q, i + 1)
    }
}

/// The end of the run of digits and dots that starts at `i`.
pub open spec fn number_end(s: Seq<char>, i: int) -> int
    decreases s.len() - i,
{
    if 0 <= i < s.len() && (is_digit(s[i]) || s[i] == '.') {
        number_end(s, i + 1)
    } else {
        i
    }
}

/// The end of the run of letters, digits and underscores that starts at `i`.
pub open spec fn word_end(s: Seq<char>, i: int) -> int
    decreases s.len() - i,
{
    if 0 <= i < s.len() && (alphanumeric(s[i]) || s[i] == '_') {
        word_end(s, i + 1)
    } else {
        i
    }
}

/// The kind and the end of the token that starts at `pos`.
pub open spec fn next_token(s: Seq<char>, pos: int) -> (TokenKind, int) {
    let c = s[pos];
    if c == '"' || c == '\'' {
        let e = quote_end(s, c, pos + 1);
        (TokenKind::Str, if e < s.len() {
            e + 1
        } else {
            e
        })
    } else if pos + 1 < s.len() && c == '/' && s[pos + 1] == '/' {
        (TokenKind::Comment, s.len() as int)
    } else if is_digit(c) {
        (TokenKind::Number, number_end(s, pos + 1))
    } else if alphabetic(c) || c == '_' {
        let e = word_end(s, pos + 1);
        (if is_keyword(s.subrange(pos, e)) {
            TokenKind::Keyword
        } else {
            TokenKind::Identifier
        }, e)
    } else {
        (symbol_kind(c), pos + 1)
    }
}

proof fn lemma_scanners_advance(s: Seq<char>, q: char, i: int)
    requires
        0 <= i <= s.len(),
    ensures
        i <= quote_end(s, q, i) <= s.len(),
        i <= number_end(s, i) <= s.len(),
        i <= word_end(s, i) <= s.len(),
    decreases s.len() - i,
{
    if i < s.len() {
        lemma_scanners_advance(s, q, i + 1);
        if s[i] == '\\' && i + 1 < s.len() {
            lemma_scanners_advance(s, q, i + 2);
        }
    }
}

/// Every token is at least one character long and ends inside the line.
pub proof fn lemma_next_token_bounds(s: Seq<char>, pos: int)
    requires
        0 <= pos < s.len(),
    ensures
        pos < next_token(s, pos).1 <= s.len(),
{
    lemma_scanners_advance(s, s[pos], pos + 1);
}

#[via_fn]
proof fn tokens_from_decreases(s: Seq<char>, pos: int) {
    if 0 <= pos < s.len() {
        lemma_next_token_bounds(s, pos);
    }
}

/// The tokens of `s` from position `pos` on.
pub open spec fn tokens_from(s: Seq<char>, pos: int) -> Seq<(TokenKind, Seq<char>)>
    decreases s.len() - pos,
    via tokens_from_decreases
{
    if pos < 0 || pos >= s.len() {
        Seq::empty()
    } else {
        let (kind, end) = next_token(s, pos);
        seq![(kind, s.subrange(pos, end))] + tokens_from(s, end)
    }
}

/// The kinds and texts of tokens.
pub open spec fn token_views(tokens: Seq<Token>) -> Seq<(TokenKind, Seq<char>)> {
    tokens.map_values(|t: Token| (t.kind, t.text@))
}

/// The keyword at index `i` of `keyword_list`.
fn keyword_at(i: usize) -> (r: &'static str)
    requires
        i < 30,
    ensures
        r@ == keyword_list()[i as int],
{
    match i {
        0 => "function",
        1 => "const",
        2 => "let",
        3 => "var",
        4 => "return",
        5 => "if",
        6 => "else",
        7 => "for",
        8 => "while",
        9 => "fn",
        10 => "pub",
        11 => "impl",
        12 => "struct",
        13 => "enum",
        14 => "trait",
        15 => "use",
        16 => "mod",
        17 => "def",
        18 => "class",
        19 => "import",
        20 => "from",
        21 => "async",
        22 => "await",
        23 => "int",
        24 => "string",
        25 => "bool",
        26 => "void",
        27 => "char",
        28 => "float",
        _ => "double",
    }
}

/// Does `chars[from..to]` equal `word`?
fn same_chars(chars: &Vec<char>, from: usize, to: usize, word: &Vec<char>) -> (r: bool)
    requires
        from <= to <= chars@.len(),
    ensures
        r == (chars@.subrange(from as int, to as int) == word@),
{
    if to - from != word.len() {
        return false;
    }
    let mut i: usize = 0;
    while i < word.len()
        invariant
            from <= to <= chars@.len(),
            to - from == word@.len(),
            i <= word@.len(),
            forall|j: int| 0 <= j < i ==> chars@[from + j] == word@[j],
        decreases word.len() - i,
    {
        if chars[from + i] != word[i] {
            assert(chars@.subrange(from as int, to as int)[i as int] != word@[i as int]);
            return false;
        }
        i = i + 1;
    }
    assert(chars@.subrange(from as int, to as int) =~= word@);
    true
}

/// Is `chars[from..to]` a keyword?
fn is_keyword_at(chars: &Vec<char>, from: usize, to: usize) -> (r: bool)
    requires
        from <= to <= chars@.len(),
    ensures
        r == is_keyword(chars@.subrange(from as int, to as int)),
{
    let mut i: usize = 0;
    while i < 30
        invariant
            from <= to <= chars@.len(),
            i <= 30,
            forall|j: int| 0 <= j < i ==> keyword_list()[j] != chars@.subrange(from as int, to as int),
        decreases 30 - i,
    {
        let word = chars_of(keyword_at(i));
        if same_chars(chars, from, to, &word) {
            return true;
        }
        i = i + 1;
    }
    assert(keyword_list().len() == 30);
    false
}

/// The kind and the end of the token that starts at `pos`.
fn token_at(chars: &Vec<char>, pos: usize) -> (r: (TokenKind, usize))
    requires
        pos < chars@.len(),
    ensures
        (r.0, r.1 as int) == next_token(chars@, pos as int),
{
    let ghost s = chars@;
    let n = chars.len();
    let c = chars[pos];
    if c == '"' || c == '\'' {
        let mut i = pos + 1;
        while i < n && chars[i] != c
            invariant
                pos < i <= n == s.len(),
                s == chars@,
                quote_end(s, c, i as int) == quote_end(s, c, pos + 1),
            decreases n - i,
        {
            if chars[i] == '\\' && i + 1 < n {
                i = i + 2;
            } else {
                i = i + 1;
            }
        }
        if i < n {
            return (TokenKind::Str, i + 1);
        }
        return (TokenKind::Str, i);
    }
    if pos + 1 < n && c == '/' && chars[pos + 1] == '/' {
        return (TokenKind::Comment, n);
    }
    if '0' <= c && c <= '9' {
        let mut i = pos + 1;
        while i < n && (('0' <= chars[i] && chars[i] <= '9') || chars[i] == '.')
            invariant
                pos < i <= n == s.len(),
                s == chars@,
                number_end(s, i as int) == number_end(s, pos + 1),
            decreases n - i,
        {
            i = i + 1;
        }
        return (TokenKind::Number, i);
    }
    if is_alphabetic(c) || c == '_' {
        let mut i = pos + 1;
        while i < n && (is_alphanumeric(chars[i]) || chars[i] == '_')
            invariant
                pos < i <= n == s.len(),
                s == chars@,
                word_end(s, i as int) == word_end(s, pos + 1),
            decreases n - i,
        {
            i = i + 1;
        }
        if is_keyword_at(chars, pos, i) {
            return (TokenKind::Keyword, i);
        }
        return (TokenKind::Identifier, i);
    }
    let kind = if c == '+' || c == '-' || c == '*' || c == '/' || c == '=' || c == '<' || c == '>'
        || c == '!' || c == '&' || c == '|' || c == '^' || c == '%' {
        TokenKind::Operator
    } else if c == '(' || c == ')' || c == '[' || c == ']' || c == '{' || c == '}' {
        TokenKind::Bracket
    } else {
        TokenKind::Other
    };
    (kind, pos + 1)
}

/// The tokens of `line`, in order.
pub fn tokenize(line: &str) -> (r: Vec<Token>)
    ensures
        token_views(r@) == tokens_from(line@, 0),
{
    let chars = chars_of(line);
    let n = chars.len();
    let mut out: Vec<Token> = Vec::new();
    let mut pos: usize = 0;
    assert(token_views(out@) =~= Seq::<(TokenKind, Seq<char>)>::empty());
    while pos < n
        invariant
            pos <= n == chars@.len(),
            chars@ == line@,
            token_views(out@) + tokens_from(chars@, pos as int) == tokens_from(chars@, 0),
        decreases n - pos,
    {
        proof {
            lemma_next_token_bounds(chars@, pos as int);
        }
        let (kind, end) = token_at(&chars, pos);
        let text = string_of(&chars, pos, end);
        let ghost before = out@;
        out.push(Token { kind, text });
        assert(token_views(out@) =~= token_views(before).push((kind, chars@.subrange(pos as int, end as int))));
        assert(token_views(out@) + tokens_from(chars@, end as int) =~= token_views(before) + tokens_from(chars@, pos as int));
        pos = end;
    }
    assert(token_views(out@) =~= tokens_from(chars@, 0));
    out
}

} // verus!
