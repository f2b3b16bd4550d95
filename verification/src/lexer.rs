//! The token scanner.
//!
//! Tokenization is specified by [`lex_spec`]: from each position, spaces
//! and tabs are skipped, a run of newline characters condenses into one
//! newline token, and otherwise the longest token of the grammar is
//! taken — doubled operator forms win over their single forms, numbers
//! take an optional fraction, identifiers run over word characters, and
//! string and character literals run to their closing quote with
//! backslash escapes. A position where no token fits makes the whole
//! scan fail past that point.
//!
//! The executable [`Lexer`] walks the same rules and hands tokens out
//! one at a time with one-token lookahead; [`Lexer::slice`] returns the
//! source text of the token most recently handed out.

use vstd::prelude::*;

verus! {

/// The token categories.
#[derive(Debug, Clone, Copy, PartialEq, Eq, Structural)]
pub enum Token {
    Newline,
    Comma,
    Equals,
    EqualsEquals,
    NotEquals,
    Dots,
    Dot,
    Colon,
    ColonColon,
    Semicolon,
    QuestionMark,
    Arrow,
    Bar,
    Plus,
    PlusPlus,
    Minus,
    Times,
    TimesTimes,
    Divide,
    DivideDivide,
    LShift,
    RShift,
    Percent,
    LParen,
    RParen,
    LCurl,
    RCurl,
    LSquare,
    RSquare,
    LAngle,
    RAngle,
    Number,
    Ident,
    String,
    Character,
}

/// An unrecognized token was encountered.
#[derive(Debug, Clone, Copy, PartialEq, Eq, Structural)]
pub struct UnrecognizedTokenError;

/// A character class whose maximal runs the scanner consumes.
#[derive(Debug, Clone, Copy, PartialEq, Eq, Structural)]
pub enum CharClass {
    Digit,
    Word,
    Newline,
}

/// Spaces and tabs are skipped between tokens.
pub open spec fn is_space(c: char) -> bool {
    c == ' ' || c == '\t'
}

/// Newline characters; a run of them is one newline token.
pub open spec fn is_newline(c: char) -> bool {
    c == '\n' || c == '\r' || c == '\u{000C}'
}

/// An ASCII digit.
pub open spec fn is_digit(c: char) -> bool {
    '0' <= c && c <= '9'
}

/// A word character: identifiers are runs of these starting with a
/// non-digit.
pub open spec fn is_word(c: char) -> bool {
    c == '_' || ('a' <= c && c <= 'z') || ('A' <= c && c <= 'Z') || is_digit(c)
}

/// Whether `c` belongs to the class.
pub open spec fn in_class(cl: CharClass, c: char) -> bool {
    match cl {
        CharClass::Digit => is_digit(c),
        CharClass::Word => is_word(c),
        CharClass::Newline => is_newline(c),
    }
}

/// The end of the maximal run of class characters starting at `i`.
pub open spec fn run_end(cl: CharClass, s: Seq<char>, i: int) -> int
    decreases s.len() - i,
{
    if 0 <= i < s.len() && in_class(cl, s[i]) {
        run_end(cl, s, i + 1)
    } else {
        i
    }
}

/// A run ends within the sequence, covers only class characters, and
/// stops at the first character outside the class.
pub proof fn lemma_run_end(cl: CharClass, s: Seq<char>, i: int)
    requires
        0 <= i <= s.len(),
    ensures
        i <= run_end(cl, s, i) <= s.len(),
        forall|k: int| i <= k < run_end(cl, s, i) ==> in_class(cl, s[k]),
        run_end(cl, s, i) < s.len() ==> !in_class(cl, s[run_end(cl, s, i)]),
    decreases s.len() - i,
{
    if i < s.len() && in_class(cl, s[i]) {
        lemma_run_end(cl, s, i + 1);
    }
}

/// The position just past the closing quote `q`, scanning from `i`
/// (just past the opening quote), or -1 when the literal never closes:
/// a backslash escapes the next character, and a bare newline ends the
/// literal illegally.
pub open spec fn quoted_end(s: Seq<char>, i: int, q: char) -> int
    decreases s.len() - i,
{
    if i < 0 || i >= s.len() {
        -1
    } else if s[i] == q {
        i + 1
    } else if s[i] == '\n' {
        -1
    } else if s[i] == '\\' {
        if i + 1 < s.len() {
            quoted_end(s, i + 2, q)
        } else {
            -1
        }
    } else {
        quoted_end(s, i + 1, q)
    }
}

/// A closed literal ends after its scan start and within the sequence.
pub proof fn lemma_quoted_end(s: Seq<char>, i: int, q: char)
    requires
        0 <= i <= s.len(),
    ensures
        quoted_end(s, i, q) == -1 || (i < quoted_end(s, i, q) <= s.len()),
    decreases s.len() - i,
{
    if i < s.len() && s[i] != q && s[i] != '\n' {
        if s[i] == '\\' {
            if i + 1 < s.len() {
                lemma_quoted_end(s, i + 2, q);
            }
        } else {
            lemma_quoted_end(s, i + 1, q);
        }
    }
}

/// The longest token starting at position `i`, with its end position,
/// for a position that holds neither space nor newline; `None` when no
/// token of the grammar fits.
pub open spec fn token_at(s: Seq<char>, i: int) -> Option<(Token, int)> {
    let c = s[i];
    let two = i + 1 < s.len();
    if c == ',' {
        Some((Token::Comma, i + 1))
    } else if c == '=' {
        if two && s[i + 1] == '=' {
            Some((Token::EqualsEquals, i + 2))
        } else {
            Some((Token::Equals, i + 1))
        }
    } else if c == '!' {
        if two && s[i + 1] == '=' {
            Some((Token::NotEquals, i + 2))
        } else {
            None
        }
    } else if c == '.' {
        if two && s[i + 1] == '.' {
            Some((Token::Dots, i + 2))
        } else {
            Some((Token::Dot, i + 1))
        }
    } else if c == ':' {
        if two && s[i + 1] == ':' {
            Some((Token::ColonColon, i + 2))
        } else {
            Some((Token::Colon, i + 1))
        }
    } else if c == ';' {
        Some((Token::Semicolon, i + 1))
    } else if c == '?' {
        Some((Token::QuestionMark, i + 1))
    } else if c == '-' {
        if two && s[i + 1] == '>' {
            Some((Token::Arrow, i + 2))
        } else {
            Some((Token::Minus, i + 1))
        }
    } else if c == '|' {
        Some((Token::Bar, i + 1))
    } else if c == '+' {
        if two && s[i + 1] == '+' {
            Some((Token::PlusPlus, i + 2))
        } else {
            Some((Token::Plus, i + 1))
        }
    } else if c == '*' {
        if two && s[i + 1] == '*' {
            Some((Token::TimesTimes, i + 2))
        } else {
            Some((Token::Times, i + 1))
        }
    } else if c == '/' {
        if two && s[i + 1] == '/' {
            Some((Token::DivideDivide, i + 2))
        } else {
            Some((Token::Divide, i + 1))
        }
    } else if c == '<' {
        if two && s[i + 1] == '<' {
            Some((Token::LShift, i + 2))
        } else {
            Some((Token::LAngle, i + 1))
        }
    } else if c == '>' {
        if two && s[i + 1] == '>' {
            Some((Token::RShift, i + 2))
        } else {
            Some((Token::RAngle, i + 1))
        }
    } else if c == '%' {
        Some((Token::Percent, i + 1))
    } else if c == '(' {
        Some((Token::LParen, i + 1))
    } else if c == ')' {
        Some((Token::RParen, i + 1))
    } else if c == '{' {
        Some((Token::LCurl, i + 1))
    } else if c == '}' {
        Some((Token::RCurl, i + 1))
    } else if c == '[' {
        Some((Token::LSquare, i + 1))
    } else if c == ']' {
        Some((Token::RSquare, i + 1))
    } else if is_digit(c) {
        let d = run_end(CharClass::Digit, s, i);
        if d + 1 < s.len() && s[d] == '.' && is_digit(s[d + 1]) {
            Some((Token::Number, run_end(CharClass::Digit, s, d + 1)))
        } else {
            Some((Token::Number, d))
        }
    } else if is_word(c) {
        Some((Token::Ident, run_end(CharClass::Word, s, i)))
    } else if c == '"' {
        let e = quoted_end(s, i + 1, '"');
        if e == -1 {
            None
        } else {
            Some((Token::String, e))
        }
    } else if c == '\'' {
        let e = quoted_end(s, i + 1, '\'');
        if e == -1 {
            None
        } else {
            Some((Token::Character, e))
        }
    } else {
        None
    }
}

/// A token found at `i` ends after `i` and within the sequence.
pub proof fn lemma_token_at(s: Seq<char>, i: int)
    requires
        0 <= i < s.len(),
    ensures
        match token_at(s, i) {
            Some(tj) => i < tj.1 <= s.len(),
            None => true,
        },
{
    let c = s[i];
    if is_digit(c) {
        lemma_run_end(CharClass::Digit, s, i);
        let d = run_end(CharClass::Digit, s, i);
        assert(run_end(CharClass::Digit, s, i) == run_end(CharClass::Digit, s, i + 1));
        if d + 1 < s.len() && s[d] == '.' && is_digit(s[d + 1]) {
            lemma_run_end(CharClass::Digit, s, d + 1);
            assert(run_end(CharClass::Digit, s, d + 1) == run_end(CharClass::Digit, s, d + 2));
        }
    } else if is_word(c) {
        lemma_run_end(CharClass::Word, s, i);
        assert(run_end(CharClass::Word, s, i) == run_end(CharClass::Word, s, i + 1));
    } else if c == '"' {
        lemma_quoted_end(s, i + 1, '"');
    } else if c == '\'' {
        lemma_quoted_end(s, i + 1, '\'');
    }
}

/// Scans the whole sequence from position `i`: the tokens with their
/// spans, and whether the scan reached the end without meeting an
/// unrecognizable position.
pub open spec fn lex_from(s: Seq<char>, i: int) -> (Seq<(Token, int, int)>, bool)
    decreases s.len() - i,
    via lex_from_dec
{
    if i < 0 || i >= s.len() {
        (Seq::empty(), true)
    } else if is_space(s[i]) {
        lex_from(s, i + 1)
    } else if is_newline(s[i]) {
        let j = run_end(CharClass::Newline, s, i);
        let r = lex_from(s, j);
        (seq![(Token::Newline, i, j)] + r.0, r.1)
    } else {
        match token_at(s, i) {
            Some(tj) => {
                let r = lex_from(s, tj.1);
                (seq![(tj.0, i, tj.1)] + r.0, r.1)
            },
            None => (Seq::empty(), false),
        }
    }
}

#[via_fn]
proof fn lex_from_dec(s: Seq<char>, i: int) {
    if 0 <= i < s.len() {
        if is_newline(s[i]) {
            lemma_run_end(CharClass::Newline, s, i);
            assert(run_end(CharClass::Newline, s, i) == run_end(CharClass::Newline, s, i + 1));
        } else if !is_space(s[i]) {
            lemma_token_at(s, i);
        }
    }
}

/// The token scan of a whole source text.
pub open spec fn lex_spec(s: Seq<char>) -> (Seq<(Token, int, int)>, bool) {
    lex_from(s, 0)
}

/// Every span produced from position `i` lies between `i` and the end
/// of the sequence, start before end.
pub proof fn lemma_lex_from_spans(s: Seq<char>, i: int)
    requires
        0 <= i,
    ensures
        forall|j: int|
            0 <= j < lex_from(s, i).0.len() ==> i <= (#[trigger] lex_from(s, i).0[j]).1 < lex_from(
                s,
                i,
            ).0[j].2 <= s.len(),
    decreases s.len() - i,
{
    if i < s.len() {
        if is_space(s[i]) {
            lemma_lex_from_spans(s, i + 1);
            assert forall|k: int| 0 <= k < lex_from(s, i).0.len() implies i <= (#[trigger] lex_from(
                s,
                i,
            ).0[k]).1 < lex_from(s, i).0[k].2 <= s.len() by {
                assert(lex_from(s, i).0[k] == lex_from(s, i + 1).0[k]);
            };
        } else if is_newline(s[i]) {
            lemma_run_end(CharClass::Newline, s, i);
            assert(run_end(CharClass::Newline, s, i) == run_end(CharClass::Newline, s, i + 1));
            let j = run_end(CharClass::Newline, s, i);
            lemma_lex_from_spans(s, j);
            assert forall|k: int| 0 <= k < lex_from(s, i).0.len() implies i <= (#[trigger] lex_from(
                s,
                i,
            ).0[k]).1 < lex_from(s, i).0[k].2 <= s.len() by {
                if k > 0 {
                    assert(lex_from(s, i).0[k] == lex_from(s, j).0[k - 1]);
                }
            };
        } else {
            match token_at(s, i) {
                Some(tj) => {
                    lemma_token_at(s, i);
                    lemma_lex_from_spans(s, tj.1);
                    assert forall|k: int| 0 <= k < lex_from(s, i).0.len() implies i <= (
                    #[trigger] lex_from(s, i).0[k]).1 < lex_from(s, i).0[k].2 <= s.len() by {
                        if k > 0 {
                            assert(lex_from(s, i).0[k] == lex_from(s, tj.1).0[k - 1]);
                        }
                    };
                },
                None => {},
            }
        }
    }
}

// ---------------------------------------------------------------------
// The executable scanner.
// ---------------------------------------------------------------------

/// The spans seen as mathematical triples.
pub open spec fn spans_view(v: Seq<(Token, usize, usize)>) -> Seq<(Token, int, int)>
    decreases v,
{
    if v.len() == 0 {
        Seq::empty()
    } else {
        seq![(v[0].0, v[0].1 as int, v[0].2 as int)] + spans_view(v.drop_first())
    }
}

/// The span view keeps the count.
pub proof fn lemma_spans_view_len(v: Seq<(Token, usize, usize)>)
    ensures
        spans_view(v).len() == v.len(),
    decreases v.len(),
{
    if v.len() > 0 {
        lemma_spans_view_len(v.drop_first());
    }
}

/// The span view indexes pointwise.
pub proof fn lemma_spans_view_index(v: Seq<(Token, usize, usize)>, i: int)
    requires
        0 <= i < v.len(),
    ensures
        spans_view(v).len() == v.len(),
        spans_view(v)[i] == (v[i].0, v[i].1 as int, v[i].2 as int),
    decreases i,
{
    lemma_spans_view_len(v);
    if i > 0 {
        lemma_spans_view_index(v.drop_first(), i - 1);
    }
}

/// Appending a span appends its view.
pub proof fn lemma_spans_view_push(v: Seq<(Token, usize, usize)>, x: (Token, usize, usize))
    ensures
        spans_view(v.push(x)) == spans_view(v).push((x.0, x.1 as int, x.2 as int)),
{
    let lhs = spans_view(v.push(x));
    let rhs = spans_view(v).push((x.0, x.1 as int, x.2 as int));
    lemma_spans_view_len(v.push(x));
    lemma_spans_view_len(v);
    assert forall|i: int| 0 <= i < lhs.len() implies lhs[i] == rhs[i] by {
        lemma_spans_view_index(v.push(x), i);
        if i < v.len() {
            lemma_spans_view_index(v, i);
        }
    };
    assert(lhs =~= rhs);
}

/// Whether `c` belongs to the class.
fn class_match(cl: CharClass, c: char) -> (r: bool)
    ensures
        r == in_class(cl, c),
{
    match cl {
        CharClass::Digit => '0' <= c && c <= '9',
        CharClass::Word => c == '_' || ('a' <= c && c <= 'z') || ('A' <= c && c <= 'Z') || ('0'
            <= c && c <= '9'),
        CharClass::Newline => c == '\n' || c == '\r' || c == '\u{000C}',
    }
}

/// The end of the maximal run of class characters starting at `i`.
#[verifier::loop_isolation(false)]
fn run_to_end(chars: &Vec<char>, cl: CharClass, i: usize) -> (r: usize)
    requires
        i <= chars@.len(),
    ensures
        r == run_end(cl, chars@, i as int),
        i <= r <= chars@.len(),
{
    proof {
        lemma_run_end(cl, chars@, i as int);
    }
    let mut k = i;
    while k < chars.len() && class_match(cl, chars[k])
        invariant
            i <= k <= chars@.len(),
            run_end(cl, chars@, i as int) == run_end(cl, chars@, k as int),
        decreases chars@.len() - k,
    {
        k = k + 1;
    }
    k
}

/// The position just past the closing quote, scanning from `i`.
#[verifier::loop_isolation(false)]
fn quoted_to_end(chars: &Vec<char>, i: usize, q: char) -> (r: Option<usize>)
    requires
        i <= chars@.len(),
    ensures
        match r {
            Some(e) => quoted_end(chars@, i as int, q) == e && i < e <= chars@.len(),
            None => quoted_end(chars@, i as int, q) == -1,
        },
{
    proof {
        lemma_quoted_end(chars@, i as int, q);
    }
    let mut k = i;
    loop
        invariant
            i <= k <= chars@.len(),
            quoted_end(chars@, i as int, q) == quoted_end(chars@, k as int, q),
        decreases chars@.len() - k,
    {
        if k >= chars.len() {
            return None;
        }
        let c = chars[k];
        if c == q {
            proof {
                lemma_quoted_end(chars@, i as int, q);
            }
            return Some(k + 1);
        }
        if c == '\n' {
            return None;
        }
        if c == '\\' {
            if k + 1 < chars.len() {
                k = k + 2;
            } else {
                return None;
            }
        } else {
            k = k + 1;
        }
    }
}

/// The longest token starting at `i`, with its end position.
#[verifier::rlimit(100)]
#[verifier::spinoff_prover]
fn token_at_exec(chars: &Vec<char>, i: usize) -> (r: Option<(Token, usize)>)
    requires
        i < chars@.len(),
    ensures
        match r {
            Some(tj) => token_at(chars@, i as int) == Some((tj.0, tj.1 as int)) && i < tj.1
                <= chars@.len(),
            None => token_at(chars@, i as int) is None,
        },
{
    proof {
        lemma_token_at(chars@, i as int);
    }
    let n = chars.len();
    let c = chars[i];
    let two = i + 1 < n;
    if c == ',' {
        Some((Token::Comma, i + 1))
    } else if c == '=' {
        if two && chars[i + 1] == '=' {
            Some((Token::EqualsEquals, i + 2))
        } else {
            Some((Token::Equals, i + 1))
        }
    } else if c == '!' {
        if two && chars[i + 1] == '=' {
            Some((Token::NotEquals, i + 2))
        } else {
            None
        }
    } else if c == '.' {
        if two && chars[i + 1] == '.' {
            Some((Token::Dots, i + 2))
        } else {
            Some((Token::Dot, i + 1))
        }
    } else if c == ':' {
        if two && chars[i + 1] == ':' {
            Some((Token::ColonColon, i + 2))
        } else {
            Some((Token::Colon, i + 1))
        }
    } else if c == ';' {
        Some((Token::Semicolon, i + 1))
    } else if c == '?' {
        Some((Token::QuestionMark, i + 1))
    } else if c == '-' {
        if two && chars[i + 1] == '>' {
            Some((Token::Arrow, i + 2))
        } else {
            Some((Token::Minus, i + 1))
        }
    } else if c == '|' {
        Some((Token::Bar, i + 1))
    } else if c == '+' {
        if two && chars[i + 1] == '+' {
            Some((Token::PlusPlus, i + 2))
        } else {
            Some((Token::Plus, i + 1))
        }
    } else if c == '*' {
        if two && chars[i + 1] == '*' {
            Some((Token::TimesTimes, i + 2))
        } else {
            Some((Token::Times, i + 1))
        }
    } else if c == '/' {
        if two && chars[i + 1] == '/' {
            Some((Token::DivideDivide, i + 2))
        } else {
            Some((Token::Divide, i + 1))
        }
    } else if c == '<' {
        if two && chars[i + 1] == '<' {
            Some((Token::LShift, i + 2))
        } else {
            Some((Token::LAngle, i + 1))
        }
    } else if c == '>' {
        if two && chars[i + 1] == '>' {
            Some((Token::RShift, i + 2))
        } else {
            Some((Token::RAngle, i + 1))
        }
    } else if c == '%' {
        Some((Token::Percent, i + 1))
    } else if c == '(' {
        Some((Token::LParen, i + 1))
    } else if c == ')' {
        Some((Token::RParen, i + 1))
    } else if c == '{' {
        Some((Token::LCurl, i + 1))
    } else if c == '}' {
        Some((Token::RCurl, i + 1))
    } else if c == '[' {
        Some((Token::LSquare, i + 1))
    } else if c == ']' {
        Some((Token::RSquare, i + 1))
    } else if class_match(CharClass::Digit, c) {
        let d = run_to_end(chars, CharClass::Digit, i);
        if d < n && d + 1 < n && chars[d] == '.' && class_match(CharClass::Digit, chars[d + 1]) {
            proof {
                lemma_run_end(CharClass::Digit, chars@, d + 1);
            }
            let e = run_to_end(chars, CharClass::Digit, d + 1);
            Some((Token::Number, e))
        } else {
            proof {
                lemma_run_end(CharClass::Digit, chars@, i as int);
                assert(run_end(CharClass::Digit, chars@, i as int) == run_end(
                    CharClass::Digit,
                    chars@,
                    i + 1,
                ));
            }
            Some((Token::Number, d))
        }
    } else if class_match(CharClass::Word, c) {
        let e = run_to_end(chars, CharClass::Word, i);
        proof {
            lemma_run_end(CharClass::Word, chars@, i as int);
            assert(run_end(CharClass::Word, chars@, i as int) == run_end(
                CharClass::Word,
                chars@,
                i + 1,
            ));
        }
        Some((Token::Ident, e))
    } else if c == '"' {
        match quoted_to_end(chars, i + 1, '"') {
            Some(e) => Some((Token::String, e)),
            None => None,
        }
    } else if c == '\'' {
        match quoted_to_end(chars, i + 1, '\'') {
            Some(e) => Some((Token::Character, e)),
            None => None,
        }
    } else {
        None
    }
}

/// Scans a whole character sequence: the token spans, and whether the
/// scan reached the end.
#[verifier::loop_isolation(false)]
fn tokenize(chars: &Vec<char>) -> (r: (Vec<(Token, usize, usize)>, bool))
    ensures
        spans_view(r.0@) == lex_spec(chars@).0,
        r.1 == lex_spec(chars@).1,
{
    let mut toks: Vec<(Token, usize, usize)> = Vec::new();
    let mut i: usize = 0;
    let mut ok: bool = true;
    proof {
        assert(spans_view(Seq::<(Token, usize, usize)>::empty()) =~= Seq::<
            (Token, int, int),
        >::empty());
    }
    loop
        invariant
            i <= chars@.len(),
            ok,
            lex_from(chars@, 0).0 == spans_view(toks@) + lex_from(chars@, i as int).0,
            lex_from(chars@, 0).1 == lex_from(chars@, i as int).1,
        decreases chars@.len() - i,
    {
        if i >= chars.len() {
            proof {
                assert(lex_from(chars@, i as int).0 =~= Seq::<(Token, int, int)>::empty());
                assert(lex_from(chars@, 0).0 =~= spans_view(toks@));
            }
            return (toks, true);
        }
        let c = chars[i];
        if c == ' ' || c == '\t' {
            i = i + 1;
        } else if class_match(CharClass::Newline, c) {
            let j = run_to_end(chars, CharClass::Newline, i);
            proof {
                lemma_run_end(CharClass::Newline, chars@, i as int);
                assert(run_end(CharClass::Newline, chars@, i as int) == run_end(
                    CharClass::Newline,
                    chars@,
                    i + 1,
                ));
                lemma_spans_view_push(toks@, (Token::Newline, i, j));
                assert(spans_view(toks@.push((Token::Newline, i, j))) + lex_from(
                    chars@,
                    j as int,
                ).0 =~= spans_view(toks@) + lex_from(chars@, i as int).0);
            }
            toks.push((Token::Newline, i, j));
            i = j;
        } else {
            match token_at_exec(chars, i) {
                Some((t, j)) => {
                    proof {
                        lemma_spans_view_push(toks@, (t, i, j));
                        assert(spans_view(toks@.push((t, i, j))) + lex_from(chars@, j as int).0
                            =~= spans_view(toks@) + lex_from(chars@, i as int).0);
                    }
                    toks.push((t, i, j));
                    i = j;
                },
                None => {
                    proof {
                        assert(lex_from(chars@, i as int).0 =~= Seq::<(Token, int, int)>::empty());
                        assert(lex_from(chars@, 0).0 =~= spans_view(toks@));
                    }
                    return (toks, false);
                },
            }
        }
    }
}

/// The characters of a source text, in order.
#[verifier::loop_isolation(false)]
fn chars_of(source: &str) -> (r: Vec<char>)
    ensures
        r@ == source@,
{
    let n = source.unicode_len();
    let mut chars: Vec<char> = Vec::new();
    for i in 0..n
        invariant
            n == source@.len(),
            chars@ == source@.subrange(0, i as int),
        decreases n - i,
    {
        let c = source.get_char(i);
        chars.push(c);
        proof {
            assert(chars@ =~= source@.subrange(0, i + 1));
        }
    }
    proof {
        assert(source@.subrange(0, n as int) =~= source@);
    }
    chars
}

/// A scanner over a source text, handing out tokens in order with
/// one-token lookahead.
pub struct Lexer<'source> {
    source: &'source str,
    toks: Vec<(Token, usize, usize)>,
    pos: usize,
    ok: bool,
    reported: bool,
    slice: &'source str,
}

impl<'source> Lexer<'source> {
    /// The source text under scan.
    pub closed spec fn spec_source(&self) -> Seq<char> {
        self.source@
    }

    /// How many tokens have been handed out.
    pub closed spec fn spec_pos(&self) -> int {
        self.pos as int
    }

    /// The text of the token most recently handed out.
    pub closed spec fn spec_slice(&self) -> Seq<char> {
        self.slice@
    }

    /// Whether the scan failure has already been handed out.
    pub closed spec fn spec_reported(&self) -> bool {
        self.reported
    }

    /// The scanner's invariant: it holds exactly the spans of the
    /// source's token scan, its cursor is within them, and its slice
    /// is the text of the token before the cursor (or of the first
    /// token, before any has been handed out).
    pub closed spec fn wf(&self) -> bool {
        let sp = lex_spec(self.source@);
        &&& spans_view(self.toks@) == sp.0
        &&& self.ok == sp.1
        &&& self.pos <= self.toks@.len()
        &&& (forall|j: int|
            0 <= j < sp.0.len() ==> 0 <= (#[trigger] sp.0[j]).1 < sp.0[j].2 <= self.source@.len())
        &&& self.slice@ == (if sp.0.len() == 0 {
            Seq::<char>::empty()
        } else if self.pos == 0 {
            self.source@.subrange(sp.0[0].1, sp.0[0].2)
        } else {
            self.source@.subrange(sp.0[self.pos - 1].1, sp.0[self.pos - 1].2)
        })
    }

    /// Constructs a scanner; fails when the very first token of the
    /// source is unrecognizable.
    pub fn new(source: &'source str) -> (r: Result<Self, UnrecognizedTokenError>)
        ensures
            match r {
                Ok(lx) => lx.wf() && lx.spec_source() == source@ && lx.spec_pos() == 0
                    && !lx.spec_reported() && (lex_spec(source@).1 || lex_spec(
                    source@,
                ).0.len() > 0),
                Err(_) => !lex_spec(source@).1 && lex_spec(source@).0.len() == 0,
            },
    {
        let chars = chars_of(source);
        let (toks, ok) = tokenize(&chars);
        proof {
            lemma_spans_view_len(toks@);
            lemma_lex_from_spans(source@, 0);
        }
        if !ok && toks.len() == 0 {
            return Err(UnrecognizedTokenError);
        }
        let slice: &'source str = if toks.len() > 0 {
            let span = toks[0];
            proof {
                lemma_spans_view_index(toks@, 0);
            }
            source.substring_char(span.1, span.2)
        } else {
            ""
        };
        proof {
            if toks@.len() == 0 {
                reveal_strlit("");
                assert(""@ =~= Seq::<char>::empty());
            }
        }
        Ok(Lexer { source, toks, pos: 0, ok, reported: false, slice })
    }

    /// The source text of the token most recently handed out.
    pub fn slice(&self) -> (r: &'source str)
        ensures
            r@ == self.spec_slice(),
    {
        self.slice
    }

    /// The next token, without consuming it; nothing at the end of the
    /// recognized stream.
    pub fn peek(&self) -> (r: Option<Token>)
        requires
            self.wf(),
        ensures
            r == (if self.spec_pos() < lex_spec(self.spec_source()).0.len() {
                Some(lex_spec(self.spec_source()).0[self.spec_pos()].0)
            } else {
                None
            }),
    {
        if self.pos < self.toks.len() {
            proof {
                lemma_spans_view_index(self.toks@, self.pos as int);
            }
            Some(self.toks[self.pos].0)
        } else {
            proof {
                lemma_spans_view_len(self.toks@);
            }
            None
        }
    }

    /// Hands out the next token and remembers its source text: a token
    /// while recognized ones remain, then — once — the failure value if
    /// the scan stopped early, then nothing.
    pub fn next(&mut self) -> (r: Option<Result<Token, UnrecognizedTokenError>>)
        requires
            old(self).wf(),
        ensures
            final(self).wf(),
            final(self).spec_source() == old(self).spec_source(),
            ({
                let sp = lex_spec(old(self).spec_source());
                if old(self).spec_pos() < sp.0.len() {
                    &&& r == Some(Ok::<Token, UnrecognizedTokenError>(sp.0[old(self).spec_pos()].0))
                    &&& final(self).spec_pos() == old(self).spec_pos() + 1
                    &&& final(self).spec_reported() == old(self).spec_reported()
                    &&& final(self).spec_slice() == old(self).spec_source().subrange(
                        sp.0[old(self).spec_pos()].1,
                        sp.0[old(self).spec_pos()].2,
                    )
                } else if !sp.1 && !old(self).spec_reported() {
                    &&& r == Some(Err::<Token, UnrecognizedTokenError>(UnrecognizedTokenError))
                    &&& final(self).spec_pos() == old(self).spec_pos()
                    &&& final(self).spec_reported()
                } else {
                    &&& r == None::<Result<Token, UnrecognizedTokenError>>
                    &&& final(self).spec_pos() == old(self).spec_pos()
                    &&& final(self).spec_reported() == old(self).spec_reported()
                }
            }),
    {
        proof {
            lemma_spans_view_len(self.toks@);
        }
        if self.pos < self.toks.len() {
            let span = self.toks[self.pos];
            proof {
                lemma_spans_view_index(self.toks@, self.pos as int);
            }
            self.slice = self.source.substring_char(span.1, span.2);
            self.pos = self.pos + 1;
            Some(Ok(span.0))
        } else if !self.ok && !self.reported {
            self.reported = true;
            Some(Err(UnrecognizedTokenError))
        } else {
            None
        }
    }
}

} // verus!
