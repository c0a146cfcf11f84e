//! The lexical scanner: source text to the flat token sequence.
//!
//! Scanning is by longest match and case-insensitive for keywords. A
//! comment runs from its two slashes to the end of the line; an identifier
//! starts with a letter or underscore and is case-folded, then checked
//! against the reserved-keyword table; a data field is the field marker
//! followed by a folded identifier run; a string literal runs between
//! quotes over printable characters; a numeric literal is a digit run with
//! an optional point and fraction run, of which four fractional digits
//! count and an over-long whole part saturates; a newline is a line
//! separator; the single punctuation characters stand for themselves, a
//! space is dropped, and any other character is a lexical error at its
//! position. Multi-character operators are left apart on purpose: the
//! parser reads them from adjacent single-character tokens.

use vstd::prelude::*;
use vstd::string::StringExecFns;
use crate::chars::to_chars;
use crate::number::YololNumber;
use crate::number::text::{is_digit, num_value, whole_val, frac_val, dec_val, pow10};
use crate::token::{Token, TokenV};

verus! {

/// Whether a character can start an identifier.
pub open spec fn is_ident_start_c(c: char) -> bool {
    ('a' <= c && c <= 'z') || ('A' <= c && c <= 'Z') || c == '_'
}

/// Whether a character can continue an identifier or data-field name.
pub open spec fn is_ident_c(c: char) -> bool {
    is_ident_start_c(c) || is_digit(c)
}

/// Whether a character may appear inside a string literal.
pub open spec fn is_printable(c: char) -> bool {
    ' ' <= c && c <= '~'
}

/// The character with an upper-case letter folded to lower case.
pub open spec fn lower_c(c: char) -> char {
    if c == 'A' {
        'a'
    } else if c == 'B' {
        'b'
    } else if c == 'C' {
        'c'
    } else if c == 'D' {
        'd'
    } else if c == 'E' {
        'e'
    } else if c == 'F' {
        'f'
    } else if c == 'G' {
        'g'
    } else if c == 'H' {
        'h'
    } else if c == 'I' {
        'i'
    } else if c == 'J' {
        'j'
    } else if c == 'K' {
        'k'
    } else if c == 'L' {
        'l'
    } else if c == 'M' {
        'm'
    } else if c == 'N' {
        'n'
    } else if c == 'O' {
        'o'
    } else if c == 'P' {
        'p'
    } else if c == 'Q' {
        'q'
    } else if c == 'R' {
        'r'
    } else if c == 'S' {
        's'
    } else if c == 'T' {
        't'
    } else if c == 'U' {
        'u'
    } else if c == 'V' {
        'v'
    } else if c == 'W' {
        'w'
    } else if c == 'X' {
        'x'
    } else if c == 'Y' {
        'y'
    } else if c == 'Z' {
        'z'
    } else {
        c
    }
}

/// A character sequence folded to lower case.
pub open spec fn lower_seq(s: Seq<char>) -> Seq<char> {
    s.map_values(|c: char| lower_c(c))
}

/// The reserved-keyword table, over folded identifier text.
pub open spec fn keyword_token(t: Seq<char>) -> Option<TokenV> {
    if t == seq!['g', 'o', 't', 'o'] {
        Some(TokenV::Goto)
    } else if t == seq!['i', 'f'] {
        Some(TokenV::If)
    } else if t == seq!['t', 'h', 'e', 'n'] {
        Some(TokenV::Then)
    } else if t == seq!['e', 'l', 's', 'e'] {
        Some(TokenV::Else)
    } else if t == seq!['e', 'n', 'd'] {
        Some(TokenV::End)
    } else if t == seq!['a', 'b', 's'] {
        Some(TokenV::Abs)
    } else if t == seq!['s', 'q', 'r', 't'] {
        Some(TokenV::Sqrt)
    } else if t == seq!['s', 'i', 'n'] {
        Some(TokenV::Sin)
    } else if t == seq!['c', 'o', 's'] {
        Some(TokenV::Cos)
    } else if t == seq!['t', 'a', 'n'] {
        Some(TokenV::Tan)
    } else if t == seq!['a', 'r', 'c', 's', 'i', 'n'] {
        Some(TokenV::Arcsin)
    } else if t == seq!['a', 'r', 'c', 'c', 'o', 's'] {
        Some(TokenV::Arccos)
    } else if t == seq!['a', 'r', 'c', 't', 'a', 'n'] {
        Some(TokenV::Arctan)
    } else if t == seq!['n', 'o', 't'] {
        Some(TokenV::Not)
    } else if t == seq!['a', 'n', 'd'] {
        Some(TokenV::And)
    } else if t == seq!['o', 'r'] {
        Some(TokenV::Or)
    } else {
        None
    }
}

/// The first position at or past `i` that leaves a run of the given kind:
/// the end of a comment,
pub open spec fn comment_end(s: Seq<char>, i: int) -> int {
    scan_while(s, i, |c: char| c != '\n')
}

/// of an identifier run,
pub open spec fn ident_end(s: Seq<char>, i: int) -> int {
    scan_while(s, i, |c: char| is_ident_c(c))
}

/// of a string literal's body,
pub open spec fn string_end(s: Seq<char>, i: int) -> int {
    scan_while(s, i, |c: char| is_printable(c) && c != '"')
}

/// or of a digit run.
pub open spec fn digits_end(s: Seq<char>, i: int) -> int {
    scan_while(s, i, |c: char| is_digit(c))
}

/// The first position at or past `i` where the predicate stops holding.
pub open spec fn scan_while(s: Seq<char>, i: int, p: spec_fn(char) -> bool) -> int
    decreases s.len() - i when 0 <= i <= s.len()
{
    if i < s.len() && p(s[i]) {
        scan_while(s, i + 1, p)
    } else {
        i
    }
}

/// A scan stays between its start and the end of the text.
pub proof fn lemma_scan_bounds(s: Seq<char>, i: int, p: spec_fn(char) -> bool)
    requires
        0 <= i <= s.len(),
    ensures
        i <= scan_while(s, i, p) <= s.len(),
    decreases s.len() - i,
{
    if i < s.len() && p(s[i]) {
        lemma_scan_bounds(s, i + 1, p);
    }
}

/// The token starting at position `i`, with the position following it:
/// `None` for a lexical error, and an absent token for a dropped space.
pub open spec fn next_token(s: Seq<char>, i: int) -> Option<(Option<TokenV>, int)> {
    let c = s[i];
    if c == '/' && i + 1 < s.len() && s[i + 1] == '/' {
        let j = comment_end(s, i);
        Some((Some(TokenV::Comment(s.subrange(i, j))), j))
    } else if is_ident_start_c(c) {
        let j = ident_end(s, i);
        let low = lower_seq(s.subrange(i, j));
        Some(
            (
                Some(
                    match keyword_token(low) {
                        Some(k) => k,
                        None => TokenV::Identifier(low),
                    },
                ),
                j,
            ),
        )
    } else if c == ':' && i + 1 < s.len() && is_ident_c(s[i + 1]) {
        let j = ident_end(s, i + 1);
        Some((Some(TokenV::DataField(seq![':'] + lower_seq(s.subrange(i + 1, j)))), j))
    } else if c == '"' && i + 1 < s.len() && is_printable(s[i + 1]) {
        let j = string_end(s, i + 1);
        if j < s.len() && s[j] == '"' {
            Some((Some(TokenV::StringToken(s.subrange(i + 1, j))), j + 1))
        } else {
            Some((Some(TokenV::StringToken(s.subrange(i + 1, j))), j))
        }
    } else if is_digit(c) {
        let j = digits_end(s, i);
        if j < s.len() && s[j] == '.' {
            let k = digits_end(s, j + 1);
            Some((Some(TokenV::YololNum(num_value(s.subrange(i, j), s.subrange(j + 1, k)))), k))
        } else {
            Some((Some(TokenV::YololNum(num_value(s.subrange(i, j), Seq::<char>::empty()))), j))
        }
    } else if c == '\r' && i + 1 < s.len() && s[i + 1] == '\n' {
        Some((Some(TokenV::Newline), i + 2))
    } else if c == '\n' {
        Some((Some(TokenV::Newline), i + 1))
    } else if c == '=' {
        Some((Some(TokenV::Equal), i + 1))
    } else if c == '+' {
        Some((Some(TokenV::Plus), i + 1))
    } else if c == '-' {
        Some((Some(TokenV::Minus), i + 1))
    } else if c == '*' {
        Some((Some(TokenV::Star), i + 1))
    } else if c == '/' {
        Some((Some(TokenV::Slash), i + 1))
    } else if c == '(' {
        Some((Some(TokenV::LParen), i + 1))
    } else if c == ')' {
        Some((Some(TokenV::RParen), i + 1))
    } else if c == '<' {
        Some((Some(TokenV::LAngleBrak), i + 1))
    } else if c == '>' {
        Some((Some(TokenV::RAngleBrak), i + 1))
    } else if c == '!' {
        Some((Some(TokenV::Exclam), i + 1))
    } else if c == '^' {
        Some((Some(TokenV::Caret), i + 1))
    } else if c == '%' {
        Some((Some(TokenV::Percent), i + 1))
    } else if c == ' ' {
        Some((None, i + 1))
    } else {
        None
    }
}

/// Every token starts strictly before the position it ends at.
pub proof fn lemma_next_token_advances(s: Seq<char>, i: int)
    requires
        0 <= i < s.len(),
    ensures
        next_token(s, i) matches Some((ot, j)) ==> i < j <= s.len(),
{
    let c = s[i];
    if c == '/' && i + 1 < s.len() && s[i + 1] == '/' {
        lemma_scan_bounds(s, i + 1, |c: char| c != '\n');
        assert(comment_end(s, i) == scan_while(s, i + 1, |c: char| c != '\n'));
    } else if is_ident_start_c(c) {
        lemma_scan_bounds(s, i + 1, |c: char| is_ident_c(c));
        assert(ident_end(s, i) == scan_while(s, i + 1, |c: char| is_ident_c(c)));
    } else if c == ':' && i + 1 < s.len() && is_ident_c(s[i + 1]) {
        lemma_scan_bounds(s, i + 2, |c: char| is_ident_c(c));
        assert(ident_end(s, i + 1) == scan_while(s, i + 2, |c: char| is_ident_c(c)));
    } else if c == '"' && i + 1 < s.len() && is_printable(s[i + 1]) {
        lemma_scan_bounds(s, i + 1, |c: char| is_printable(c) && c != '"');
    } else if is_digit(c) {
        lemma_scan_bounds(s, i + 1, |c: char| is_digit(c));
        assert(digits_end(s, i) == scan_while(s, i + 1, |c: char| is_digit(c)));
        let j = digits_end(s, i);
        if j < s.len() && s[j] == '.' {
            lemma_scan_bounds(s, j + 1, |c: char| is_digit(c));
        }
    }
}

/// The token sequence of the text from position `i` on, or `None` at the
/// first unrecognized character.
pub open spec fn lex_from(s: Seq<char>, i: int) -> Option<Seq<TokenV>>
    decreases s.len() - i when 0 <= i <= s.len() via lex_from_dec
{
    if i >= s.len() {
        Some(Seq::<TokenV>::empty())
    } else {
        match next_token(s, i) {
            None => None,
            Some((ot, j)) => match lex_from(s, j) {
                None => None,
                Some(rest) => Some(
                    match ot {
                        Some(t) => seq![t] + rest,
                        None => rest,
                    },
                ),
            },
        }
    }
}

#[via_fn]
proof fn lex_from_dec(s: Seq<char>, i: int) {
    if 0 <= i < s.len() {
        lemma_next_token_advances(s, i);
    }
}

/// A lexical error: the position of the first character that no scanning
/// rule accepts, and that character.
#[derive(Debug, Clone, Copy, PartialEq, Eq)]
pub struct LexError {
    pub position: usize,
    pub character: char,
}

impl LexError {
    /// A short description of the error.
    pub fn message(&self) -> (r: String)
        ensures
            r@.len() > 0,
    {
        proof {
            reveal_strlit("unrecognized character in source text");
        }
        String::from_str("unrecognized character in source text")
    }
}

/// The reserved keyword a folded identifier stands for, if any.
fn keyword_of(v: &Vec<char>) -> (r: Option<Token>)
    ensures
        r matches Some(t) ==> keyword_token(v@) == Some(t@),
        r is None ==> keyword_token(v@) is None,
{
    if v.len() == 4 && v[0] == 'g' && v[1] == 'o' && v[2] == 't' && v[3] == 'o' {
        proof {
            assert(v@ =~= seq!['g', 'o', 't', 'o']);
        }
        return Some(Token::Goto);
    }
    if v.len() == 2 && v[0] == 'i' && v[1] == 'f' {
        proof {
            assert(v@ =~= seq!['i', 'f']);
        }
        return Some(Token::If);
    }
    if v.len() == 4 && v[0] == 't' && v[1] == 'h' && v[2] == 'e' && v[3] == 'n' {
        proof {
            assert(v@ =~= seq!['t', 'h', 'e', 'n']);
        }
        return Some(Token::Then);
    }
    if v.len() == 4 && v[0] == 'e' && v[1] == 'l' && v[2] == 's' && v[3] == 'e' {
        proof {
            assert(v@ =~= seq!['e', 'l', 's', 'e']);
        }
        return Some(Token::Else);
    }
    if v.len() == 3 && v[0] == 'e' && v[1] == 'n' && v[2] == 'd' {
        proof {
            assert(v@ =~= seq!['e', 'n', 'd']);
        }
        return Some(Token::End);
    }
    if v.len() == 3 && v[0] == 'a' && v[1] == 'b' && v[2] == 's' {
        proof {
            assert(v@ =~= seq!['a', 'b', 's']);
        }
        return Some(Token::Abs);
    }
    if v.len() == 4 && v[0] == 's' && v[1] == 'q' && v[2] == 'r' && v[3] == 't' {
        proof {
            assert(v@ =~= seq!['s', 'q', 'r', 't']);
        }
        return Some(Token::Sqrt);
    }
    if v.len() == 3 && v[0] == 's' && v[1] == 'i' && v[2] == 'n' {
        proof {
            assert(v@ =~= seq!['s', 'i', 'n']);
        }
        return Some(Token::Sin);
    }
    if v.len() == 3 && v[0] == 'c' && v[1] == 'o' && v[2] == 's' {
        proof {
            assert(v@ =~= seq!['c', 'o', 's']);
        }
        return Some(Token::Cos);
    }
    if v.len() == 3 && v[0] == 't' && v[1] == 'a' && v[2] == 'n' {
        proof {
            assert(v@ =~= seq!['t', 'a', 'n']);
        }
        return Some(Token::Tan);
    }
    if v.len() == 6 && v[0] == 'a' && v[1] == 'r' && v[2] == 'c' && v[3] == 's' && v[4] == 'i' && v[5] == 'n' {
        proof {
            assert(v@ =~= seq!['a', 'r', 'c', 's', 'i', 'n']);
        }
        return Some(Token::Arcsin);
    }
    if v.len() == 6 && v[0] == 'a' && v[1] == 'r' && v[2] == 'c' && v[3] == 'c' && v[4] == 'o' && v[5] == 's' {
        proof {
            assert(v@ =~= seq!['a', 'r', 'c', 'c', 'o', 's']);
        }
        return Some(Token::Arccos);
    }
    if v.len() == 6 && v[0] == 'a' && v[1] == 'r' && v[2] == 'c' && v[3] == 't' && v[4] == 'a' && v[5] == 'n' {
        proof {
            assert(v@ =~= seq!['a', 'r', 'c', 't', 'a', 'n']);
        }
        return Some(Token::Arctan);
    }
    if v.len() == 3 && v[0] == 'n' && v[1] == 'o' && v[2] == 't' {
        proof {
            assert(v@ =~= seq!['n', 'o', 't']);
        }
        return Some(Token::Not);
    }
    if v.len() == 3 && v[0] == 'a' && v[1] == 'n' && v[2] == 'd' {
        proof {
            assert(v@ =~= seq!['a', 'n', 'd']);
        }
        return Some(Token::And);
    }
    if v.len() == 2 && v[0] == 'o' && v[1] == 'r' {
        proof {
            assert(v@ =~= seq!['o', 'r']);
        }
        return Some(Token::Or);
    }
    None
}

/// Folds one character to lower case.
fn lower_char(c: char) -> (r: char)
    ensures
        r == lower_c(c),
{
    if 'A' <= c && c <= 'Z' {
        if c == 'A' {
            'a'
        } else if c == 'B' {
            'b'
        } else if c == 'C' {
            'c'
        } else if c == 'D' {
            'd'
        } else if c == 'E' {
            'e'
        } else if c == 'F' {
            'f'
        } else if c == 'G' {
            'g'
        } else if c == 'H' {
            'h'
        } else if c == 'I' {
            'i'
        } else if c == 'J' {
            'j'
        } else if c == 'K' {
            'k'
        } else if c == 'L' {
            'l'
        } else if c == 'M' {
            'm'
        } else if c == 'N' {
            'n'
        } else if c == 'O' {
            'o'
        } else if c == 'P' {
            'p'
        } else if c == 'Q' {
            'q'
        } else if c == 'R' {
            'r'
        } else if c == 'S' {
            's'
        } else if c == 'T' {
            't'
        } else if c == 'U' {
            'u'
        } else if c == 'V' {
            'v'
        } else if c == 'W' {
            'w'
        } else if c == 'X' {
            'x'
        } else if c == 'Y' {
            'y'
        } else {
            'z'
        }
    } else {
        c
    }
}

/// The view of an optional token.
pub open spec fn opt_view(ot: Option<Token>) -> Option<TokenV> {
    match ot {
        Some(t) => Some(t@),
        None => None,
    }
}

/// The views of a token sequence.
#[verifier::opaque]
pub open spec fn token_views(ts: Seq<Token>) -> Seq<TokenV> {
    ts.map_values(|t: Token| t@)
}

/// Whether a character can start an identifier, executable form.
fn is_ident_start_char(c: char) -> (r: bool)
    ensures
        r == is_ident_start_c(c),
{
    ('a' <= c && c <= 'z') || ('A' <= c && c <= 'Z') || c == '_'
}

/// Whether a character can continue an identifier, executable form.
fn is_ident_char(c: char) -> (r: bool)
    ensures
        r == is_ident_c(c),
{
    is_ident_start_char(c) || ('0' <= c && c <= '9')
}

/// Whether a character may appear inside a string, executable form.
fn is_printable_char(c: char) -> (r: bool)
    ensures
        r == is_printable(c),
{
    ' ' <= c && c <= '~'
}

/// Scans to the end of a comment.
fn scan_comment(chars: &Vec<char>, start: usize) -> (j: usize)
    requires
        start <= chars@.len(),
    ensures
        j as int == comment_end(chars@, start as int),
        start <= j <= chars@.len(),
        forall|k: int| start <= k < j ==> chars@[k] != '\n',
{
    let n = chars.len();
    let mut cur = start;
    while cur < n && chars[cur] != '\n'
        invariant
            start <= cur <= n,
            n == chars@.len(),
            comment_end(chars@, start as int) == comment_end(chars@, cur as int),
            forall|k: int| start <= k < cur ==> chars@[k] != '\n',
        decreases n - cur,
    {
        cur = cur + 1;
    }
    cur
}

/// Scans to the end of an identifier run.
fn scan_ident(chars: &Vec<char>, start: usize) -> (j: usize)
    requires
        start <= chars@.len(),
    ensures
        j as int == ident_end(chars@, start as int),
        start <= j <= chars@.len(),
        forall|k: int| start <= k < j ==> is_ident_c(#[trigger] chars@[k]),
{
    let n = chars.len();
    let mut cur = start;
    while cur < n && is_ident_char(chars[cur])
        invariant
            start <= cur <= n,
            n == chars@.len(),
            ident_end(chars@, start as int) == ident_end(chars@, cur as int),
            forall|k: int| start <= k < cur ==> is_ident_c(#[trigger] chars@[k]),
        decreases n - cur,
    {
        cur = cur + 1;
    }
    cur
}

/// Scans to the end of a string literal's body.
fn scan_string(chars: &Vec<char>, start: usize) -> (j: usize)
    requires
        start <= chars@.len(),
    ensures
        j as int == string_end(chars@, start as int),
        start <= j <= chars@.len(),
{
    let n = chars.len();
    let mut cur = start;
    while cur < n && is_printable_char(chars[cur]) && chars[cur] != '"'
        invariant
            start <= cur <= n,
            n == chars@.len(),
            string_end(chars@, start as int) == string_end(chars@, cur as int),
        decreases n - cur,
    {
        cur = cur + 1;
    }
    cur
}

/// Scans to the end of a digit run.
fn scan_digits(chars: &Vec<char>, start: usize) -> (j: usize)
    requires
        start <= chars@.len(),
    ensures
        j as int == digits_end(chars@, start as int),
        start <= j <= chars@.len(),
        forall|k: int| start <= k < j ==> is_digit(#[trigger] chars@[k]),
{
    let n = chars.len();
    let mut cur = start;
    while cur < n && crate::number::text::is_digit_char(chars[cur])
        invariant
            start <= cur <= n,
            n == chars@.len(),
            digits_end(chars@, start as int) == digits_end(chars@, cur as int),
            forall|k: int| start <= k < cur ==> is_digit(#[trigger] chars@[k]),
        decreases n - cur,
    {
        cur = cur + 1;
    }
    cur
}

/// Copies a character range out as a string.
fn substring_of(chars: &Vec<char>, start: usize, end: usize) -> (s: String)
    requires
        start <= end <= chars@.len(),
    ensures
        s@ == chars@.subrange(start as int, end as int),
{
    let mut v: Vec<char> = Vec::new();
    let mut k = start;
    while k < end
        invariant
            start <= k <= end <= chars@.len(),
            v@ == chars@.subrange(start as int, k as int),
        decreases end - k,
    {
        v.push(chars[k]);
        proof {
            assert(v@ =~= chars@.subrange(start as int, k + 1));
        }
        k = k + 1;
    }
    crate::chars::from_chars(&v)
}

/// Copies a character range out folded to lower case.
fn lowered_of(chars: &Vec<char>, start: usize, end: usize) -> (v: Vec<char>)
    requires
        start <= end <= chars@.len(),
    ensures
        v@ == lower_seq(chars@.subrange(start as int, end as int)),
{
    let mut v: Vec<char> = Vec::new();
    let mut k = start;
    while k < end
        invariant
            start <= k <= end <= chars@.len(),
            v@ == lower_seq(chars@.subrange(start as int, k as int)),
        decreases end - k,
    {
        v.push(lower_char(chars[k]));
        proof {
            assert(v@ =~= lower_seq(chars@.subrange(start as int, k + 1)));
        }
        k = k + 1;
    }
    proof {
        assert(v@ =~= lower_seq(chars@.subrange(start as int, end as int)));
    }
    v
}

/// Accumulates a whole-part digit run, saturating at the top of the range.
fn whole_acc(chars: &Vec<char>, start: usize, end: usize) -> (acc: i64)
    requires
        start <= end <= chars@.len(),
        forall|k: int| start <= k < end ==> is_digit(#[trigger] chars@[k]),
    ensures
        acc as int == whole_val(chars@.subrange(start as int, end as int)),
{
    let ghost sub = chars@.subrange(start as int, end as int);
    let mut acc: i64 = 0;
    let mut k = start;
    while k < end
        invariant
            start <= k <= end <= chars@.len(),
            sub == chars@.subrange(start as int, end as int),
            forall|j: int| start <= j < end ==> is_digit(#[trigger] chars@[j]),
            acc as int == whole_val(sub.take(k - start)),
        decreases end - k,
    {
        proof {
            assert(sub[k - start] == chars@[k as int]);
            assert(is_digit(sub[k - start]));
            assert(forall|j: int| 0 <= j < sub.len() ==> is_digit(#[trigger] sub[j]));
            crate::number::text::lemma_dec_val_nonneg(sub.take(k - start));
            assert(sub.take(k - start + 1).drop_last() =~= sub.take(k - start));
            assert(sub.take(k - start + 1).last() == sub[k - start]);
        }
        let d = crate::number::text::digit_value(chars[k]);
        acc = crate::number::sat_add_i64(crate::number::sat_mul_i64(acc, 10), d);
        k = k + 1;
    }
    proof {
        assert(sub.take(end - start) =~= sub);
    }
    acc
}

/// Accumulates a fraction digit run, scaled into the fractional places.
fn frac_acc(chars: &Vec<char>, start: usize, end: usize) -> (acc: i64)
    requires
        start <= end <= chars@.len(),
        forall|k: int| start <= k < end ==> is_digit(#[trigger] chars@[k]),
    ensures
        acc as int == frac_val(chars@.subrange(start as int, end as int)),
{
    let ghost sub = chars@.subrange(start as int, end as int);
    let rl: usize = end - start;
    let keep: usize = if rl > 4 {
        4
    } else {
        rl
    };
    let mut acc: i64 = 0;
    let mut k: usize = 0;
    while k < keep
        invariant
            k <= keep <= 4,
            keep <= rl,
            rl == end - start,
            start <= end <= chars@.len(),
            sub == chars@.subrange(start as int, end as int),
            forall|j: int| start <= j < end ==> is_digit(#[trigger] chars@[j]),
            acc as int == dec_val(sub.take(k as int)),
            0 <= (acc as int),
            (acc as int) < pow10(k as int),
        decreases keep - k,
    {
        proof {
            assert(sub[k as int] == chars@[start + k]);
            assert(is_digit(sub[k as int]));
            assert(sub.take(k + 1).drop_last() =~= sub.take(k as int));
            assert(sub.take(k + 1).last() == sub[k as int]);
            reveal_with_fuel(pow10, 6);
        }
        let d = crate::number::text::digit_value(chars[start + k]);
        acc = acc * 10 + d;
        k = k + 1;
    }
    proof {
        reveal_with_fuel(pow10, 6);
        if rl >= 1 {
            assert(sub.take(keep as int) =~= (if rl >= 4 {
                sub.take(4)
            } else {
                sub
            }));
        }
    }
    if rl == 0 {
        0
    } else if rl == 1 {
        acc * 1000
    } else if rl == 2 {
        acc * 100
    } else if rl == 3 {
        acc * 10
    } else {
        acc
    }
}

/// Reads the token at position `i`, or reports the lexical error there.
fn next_token_exec(chars: &Vec<char>, i: usize) -> (r: Result<(Option<Token>, usize), LexError>)
    requires
        i < chars@.len(),
    ensures
        r matches Ok((ot, j)) ==> next_token(chars@, i as int) == Some((opt_view(ot), j as int))
            && i < j <= chars@.len(),
        r is Err ==> next_token(chars@, i as int) is None,
{
    proof {
        lemma_next_token_advances(chars@, i as int);
    }
    let n = chars.len();
    let c = chars[i];
    if c == '/' && i + 1 < n && chars[i + 1] == '/' {
        let j = scan_comment(chars, i);
        proof {
            assert(comment_end(chars@, i as int) == comment_end(chars@, i + 1));
        }
        let text = substring_of(chars, i, j);
        Ok((Some(Token::Comment(text)), j))
    } else if is_ident_start_char(c) {
        let j = scan_ident(chars, i);
        proof {
            assert(ident_end(chars@, i as int) == ident_end(chars@, i + 1));
        }
        let low = lowered_of(chars, i, j);
        match keyword_of(&low) {
            Some(t) => Ok((Some(t), j)),
            None => Ok((Some(Token::Identifier(crate::chars::from_chars(&low))), j)),
        }
    } else if c == ':' && i + 1 < n && is_ident_char(chars[i + 1]) {
        let j = scan_ident(chars, i + 1);
        proof {
            assert(ident_end(chars@, i + 1) == ident_end(chars@, i + 2));
        }
        let mut v: Vec<char> = Vec::new();
        v.push(':');
        let low = lowered_of(chars, i + 1, j);
        let mut k: usize = 0;
        while k < low.len()
            invariant
                k <= low@.len(),
                v@ == seq![':'] + low@.take(k as int),
            decreases low@.len() - k,
        {
            v.push(low[k]);
            proof {
                assert(v@ =~= seq![':'] + low@.take(k + 1));
            }
            k = k + 1;
        }
        proof {
            assert(v@ =~= seq![':'] + low@);
        }
        Ok((Some(Token::DataField(crate::chars::from_chars(&v))), j))
    } else if c == '"' && i + 1 < n && is_printable_char(chars[i + 1]) {
        let j = scan_string(chars, i + 1);
        proof {
            lemma_scan_bounds(chars@, i + 1, |ch: char| is_printable(ch) && ch != '"');
        }
        let text = substring_of(chars, i + 1, j);
        if j < n && chars[j] == '"' {
            Ok((Some(Token::StringToken(text)), j + 1))
        } else {
            Ok((Some(Token::StringToken(text)), j))
        }
    } else if crate::number::text::is_digit_char(c) {
        let j = scan_digits(chars, i);
        proof {
            assert(digits_end(chars@, i as int) == digits_end(chars@, i + 1));
        }
        let whole = whole_acc(chars, i, j);
        if j < n && chars[j] == '.' {
            let k2 = scan_digits(chars, j + 1);
            let frac = frac_acc(chars, j + 1, k2);
            Ok((Some(Token::YololNum(YololNumber::from_split(whole, frac))), k2))
        } else {
            proof {
                assert(frac_val(Seq::<char>::empty()) == 0);
            }
            Ok((Some(Token::YololNum(YololNumber::from_split(whole, 0))), j))
        }
    } else if c == '\r' && i + 1 < n && chars[i + 1] == '\n' {
        Ok((Some(Token::Newline), i + 2))
    } else if c == '\n' {
        Ok((Some(Token::Newline), i + 1))
    } else if c == '=' {
        Ok((Some(Token::Equal), i + 1))
    } else if c == '+' {
        Ok((Some(Token::Plus), i + 1))
    } else if c == '-' {
        Ok((Some(Token::Minus), i + 1))
    } else if c == '*' {
        Ok((Some(Token::Star), i + 1))
    } else if c == '/' {
        Ok((Some(Token::Slash), i + 1))
    } else if c == '(' {
        Ok((Some(Token::LParen), i + 1))
    } else if c == ')' {
        Ok((Some(Token::RParen), i + 1))
    } else if c == '<' {
        Ok((Some(Token::LAngleBrak), i + 1))
    } else if c == '>' {
        Ok((Some(Token::RAngleBrak), i + 1))
    } else if c == '!' {
        Ok((Some(Token::Exclam), i + 1))
    } else if c == '^' {
        Ok((Some(Token::Caret), i + 1))
    } else if c == '%' {
        Ok((Some(Token::Percent), i + 1))
    } else if c == ' ' {
        Ok((None, i + 1))
    } else {
        Err(LexError { position: i, character: c })
    }
}

/// Scans a source text into its token sequence, or reports the first
/// lexical error.
pub fn tokenize(input: String) -> (r: Result<Vec<Token>, LexError>)
    ensures
        r matches Ok(v) ==> lex_from(input@, 0) == Some(token_views(v@)),
        r is Err ==> lex_from(input@, 0) is None,
{
    reveal(token_views);
    let chars = to_chars(input.as_str());
    let n = chars.len();
    let mut out: Vec<Token> = Vec::new();
    let mut i: usize = 0;
    while i < n
        invariant
            i <= n,
            n == input@.len(),
            chars@ == input@,
            lex_from(input@, i as int) matches Some(rest) ==> lex_from(input@, 0) == Some(
                token_views(out@) + rest,
            ),
            lex_from(input@, i as int) is None ==> lex_from(input@, 0) is None,
        decreases n - i,
    {
        let step = next_token_exec(&chars, i);
        match step {
            Err(e) => {
                return Err(e);
            },
            Ok((ot, j)) => {
                proof {
                    reveal(token_views);
                    let s = input@;
                    if lex_from(s, j as int) is Some {
                        let rest2 = lex_from(s, j as int)->Some_0;
                        match &ot {
                            Some(t) => {
                                assert(lex_from(s, i as int) == Some(seq![t@] + rest2));
                                assert(token_views(out@.push(*t)) =~= token_views(out@) + seq![
                                    t@,
                                ]);
                                assert((token_views(out@) + seq![t@]) + rest2 =~= token_views(out@)
                                    + (seq![t@] + rest2));
                            },
                            None => {
                                assert(lex_from(s, i as int) == Some(rest2));
                            },
                        }
                    }
                }
                match ot {
                    Some(t) => {
                        out.push(t);
                    },
                    None => {},
                }
                i = j;
            },
        }
    }
    proof {
        assert(lex_from(input@, n as int) == Some(Seq::<TokenV>::empty()));
        assert(token_views(out@) + Seq::<TokenV>::empty() =~= token_views(out@));
    }
    Ok(out)
}

} // verus!
