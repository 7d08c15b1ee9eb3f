//! The tokens of the pattern language, and the tokenizer.
//!
//! A pattern source text is a sequence of brackets, braces, commas, colons,
//! integer literals, string literals (no escape sequences), identifiers, the
//! wildcard `_` and the keyword `as`, separated by optional whitespace.
//! [`spec_tokenize`] is the mathematical tokenization; [`tokenize`] decides
//! it, failing exactly where the source admits no tokenization: an unexpected
//! character, an unterminated string literal, or an integer literal outside
//! the signed 64-bit range.

use vstd::prelude::*;

verus! {

/// One token of the pattern language.
#[derive(Debug, PartialEq, Eq)]
pub enum Tok {
    /// `[`
    LBracket,
    /// `]`
    RBracket,
    /// `{`
    LBrace,
    /// `}`
    RBrace,
    /// `,`
    Comma,
    /// `:`
    Colon,
    /// The wildcard `_`.
    Underscore,
    /// The keyword `as`.
    As,
    /// An integer literal.
    Int(i64),
    /// A string literal, without its quotes.
    Str(String),
    /// An identifier.
    Ident(String),
}

/// The mathematical image of a [`Tok`].
pub enum STok {
    /// Image of `Tok::LBracket`.
    LBracket,
    /// Image of `Tok::RBracket`.
    RBracket,
    /// Image of `Tok::LBrace`.
    LBrace,
    /// Image of `Tok::RBrace`.
    RBrace,
    /// Image of `Tok::Comma`.
    Comma,
    /// Image of `Tok::Colon`.
    Colon,
    /// Image of `Tok::Underscore`.
    Underscore,
    /// Image of `Tok::As`.
    As,
    /// Image of `Tok::Int`.
    Int(int),
    /// Image of `Tok::Str`.
    Str(Seq<char>),
    /// Image of `Tok::Ident`.
    Ident(Seq<char>),
}

impl View for Tok {
    type V = STok;

    open spec fn view(&self) -> STok {
        match self {
            Tok::LBracket => STok::LBracket,
            Tok::RBracket => STok::RBracket,
            Tok::LBrace => STok::LBrace,
            Tok::RBrace => STok::RBrace,
            Tok::Comma => STok::Comma,
            Tok::Colon => STok::Colon,
            Tok::Underscore => STok::Underscore,
            Tok::As => STok::As,
            Tok::Int(n) => STok::Int(*n as int),
            Tok::Str(s) => STok::Str(s@),
            Tok::Ident(s) => STok::Ident(s@),
        }
    }
}

/// The mathematical image of a token list.
pub open spec fn toks_view(ts: Seq<Tok>) -> Seq<STok> {
    Seq::new(ts.len(), |i: int| ts[i]@)
}

/// Whitespace: space, tab, line feed, carriage return.
pub open spec fn is_space(c: char) -> bool {
    c == ' ' || c == '\t' || c == '\n' || c == '\r'
}

/// A decimal digit.
pub open spec fn is_digit(c: char) -> bool {
    '0' <= c && c <= '9'
}

/// A character that may start an identifier.
pub open spec fn is_ident_start(c: char) -> bool {
    ('a' <= c && c <= 'z') || ('A' <= c && c <= 'Z') || c == '_'
}

/// A character that may continue an identifier.
pub open spec fn is_ident_char(c: char) -> bool {
    is_ident_start(c) || is_digit(c)
}

/// The end of the identifier run that starts at `i`.
pub open spec fn sp_ident_end(cs: Seq<char>, i: int) -> int
    decreases cs.len() - i,
{
    if 0 <= i < cs.len() && is_ident_char(cs[i]) {
        sp_ident_end(cs, i + 1)
    } else {
        i
    }
}

/// The end of the digit run that starts at `i`.
pub open spec fn sp_digits_end(cs: Seq<char>, i: int) -> int
    decreases cs.len() - i,
{
    if 0 <= i < cs.len() && is_digit(cs[i]) {
        sp_digits_end(cs, i + 1)
    } else {
        i
    }
}

/// The index of the first `"` at or after `i`, or the length when none
/// follows.
pub open spec fn sp_str_end(cs: Seq<char>, i: int) -> int
    decreases cs.len() - i,
{
    if 0 <= i < cs.len() {
        if cs[i] == '"' {
            i
        } else {
            sp_str_end(cs, i + 1)
        }
    } else {
        cs.len() as int
    }
}

/// The numeric value of the digit run `cs[s..j)`.
pub open spec fn digits_val(cs: Seq<char>, s: int, j: int) -> int
    decreases j - s,
{
    if j <= s {
        0
    } else {
        digits_val(cs, s, j - 1) * 10 + (cs[j - 1] as u32 - 48)
    }
}

/// A digit run's value is never negative.
pub proof fn lemma_digits_val_nonneg(cs: Seq<char>, s: int, j: int)
    requires
        forall|k: int| s <= k < j ==> is_digit(#[trigger] cs[k]),
    ensures
        digits_val(cs, s, j) >= 0,
    decreases j - s,
{
    if j > s {
        lemma_digits_val_nonneg(cs, s, j - 1);
    }
}

/// The greatest magnitude a signed 64-bit integer literal may have: the
/// magnitude of the least 64-bit integer.
pub open spec fn int_limit() -> int {
    0x8000_0000_0000_0000
}

/// The next token at `i`, where `cs[i]` is not whitespace, and the position
/// after it; nothing when no token starts there.
pub open spec fn spec_next(cs: Seq<char>, i: int) -> Option<(STok, int)> {
    let c = cs[i];
    if c == '[' {
        Some((STok::LBracket, i + 1))
    } else if c == ']' {
        Some((STok::RBracket, i + 1))
    } else if c == '{' {
        Some((STok::LBrace, i + 1))
    } else if c == '}' {
        Some((STok::RBrace, i + 1))
    } else if c == ',' {
        Some((STok::Comma, i + 1))
    } else if c == ':' {
        Some((STok::Colon, i + 1))
    } else if c == '"' {
        let e = sp_str_end(cs, i + 1);
        if e < cs.len() {
            Some((STok::Str(cs.subrange(i + 1, e)), e + 1))
        } else {
            None
        }
    } else if is_digit(c) {
        let e = sp_digits_end(cs, i);
        let val = digits_val(cs, i, e);
        if val < int_limit() {
            Some((STok::Int(val), e))
        } else {
            None
        }
    } else if c == '-' {
        if i + 1 < cs.len() && is_digit(cs[i + 1]) {
            let e = sp_digits_end(cs, i + 1);
            let val = digits_val(cs, i + 1, e);
            if val <= int_limit() {
                Some((STok::Int(-val), e))
            } else {
                None
            }
        } else {
            None
        }
    } else if is_ident_start(c) {
        let e = sp_ident_end(cs, i);
        if e == i + 1 && c == '_' {
            Some((STok::Underscore, e))
        } else if cs.subrange(i, e) == "as"@ {
            Some((STok::As, e))
        } else {
            Some((STok::Ident(cs.subrange(i, e)), e))
        }
    } else {
        None
    }
}

/// The tokenization of `cs` from position `i` on; nothing when the text
/// admits none.
pub open spec fn spec_tokenize(cs: Seq<char>, i: int) -> Option<Seq<STok>>
    decreases cs.len() - i,
{
    if i < 0 || i >= cs.len() {
        Some(Seq::empty())
    } else if is_space(cs[i]) {
        spec_tokenize(cs, i + 1)
    } else {
        match spec_next(cs, i) {
            Some((t, j)) => if i < j <= cs.len() {
                match spec_tokenize(cs, j) {
                    Some(rest) => Some(seq![t] + rest),
                    None => None,
                }
            } else {
                None
            },
            None => None,
        }
    }
}

/// The kind of a token, for reporting which tokens a position admitted.
#[derive(Debug, Clone, Copy, PartialEq, Eq)]
pub enum TokKind {
    /// `[`
    LBracket,
    /// `]`
    RBracket,
    /// `{`
    LBrace,
    /// `}`
    RBrace,
    /// `,`
    Comma,
    /// `:`
    Colon,
    /// The wildcard `_`.
    Underscore,
    /// The keyword `as`.
    As,
    /// An integer literal.
    Int,
    /// A string literal.
    Str,
    /// An identifier.
    Ident,
    /// The name of a scalar type, after `as`.
    TypeName,
    /// The end of the source.
    End,
}

/// A malformed pattern expression.
#[derive(Debug, Clone, PartialEq, Eq)]
pub enum SyntaxError {
    /// No token starts at this character position.
    UnexpectedChar {
        /// The character position.
        pos: usize,
    },
    /// A string literal opened here is never closed.
    UnterminatedString {
        /// The character position of the opening quote.
        pos: usize,
    },
    /// An integer literal starting here is outside the signed 64-bit range.
    IntegerOverflow {
        /// The character position where the literal starts.
        pos: usize,
    },
    /// The token at this token position is not one of those the grammar
    /// admits here.
    UnexpectedToken {
        /// The token position.
        pos: usize,
        /// The token kinds the grammar admits at this position.
        expected: Vec<TokKind>,
    },
}

impl SyntaxError {
    /// The human-readable description of this failure.
    pub open spec fn spec_message(&self) -> Seq<char> {
        match self {
            SyntaxError::UnexpectedChar { .. } => "No token starts at this character"@,
            SyntaxError::UnterminatedString { .. } => "A string literal is never closed"@,
            SyntaxError::IntegerOverflow {
                ..
            } => "An integer literal is outside the signed 64-bit range"@,
            SyntaxError::UnexpectedToken {
                ..
            } => "The token here is not one the grammar admits"@,
        }
    }

    /// Renders the human-readable description of this failure.
    pub fn describe(&self) -> (r: String)
        ensures
            r@ == self.spec_message(),
    {
        match self {
            SyntaxError::UnexpectedChar { .. } => String::from_str(
                "No token starts at this character",
            ),
            SyntaxError::UnterminatedString { .. } => String::from_str(
                "A string literal is never closed",
            ),
            SyntaxError::IntegerOverflow { .. } => String::from_str(
                "An integer literal is outside the signed 64-bit range",
            ),
            SyntaxError::UnexpectedToken { .. } => String::from_str(
                "The token here is not one the grammar admits",
            ),
        }
    }
}

/// The mathematical image of a [`SyntaxError`].
pub enum SSyntaxError {
    /// Image of `SyntaxError::UnexpectedChar`.
    UnexpectedChar {
        /// The character position.
        pos: int,
    },
    /// Image of `SyntaxError::UnterminatedString`.
    UnterminatedString {
        /// The character position of the opening quote.
        pos: int,
    },
    /// Image of `SyntaxError::IntegerOverflow`.
    IntegerOverflow {
        /// The character position where the literal starts.
        pos: int,
    },
    /// Image of `SyntaxError::UnexpectedToken`.
    UnexpectedToken {
        /// The token position.
        pos: int,
        /// The token kinds the grammar admits at this position.
        expected: Seq<TokKind>,
    },
}

impl View for SyntaxError {
    type V = SSyntaxError;

    open spec fn view(&self) -> SSyntaxError {
        match self {
            SyntaxError::UnexpectedChar { pos } => SSyntaxError::UnexpectedChar {
                pos: *pos as int,
            },
            SyntaxError::UnterminatedString { pos } => SSyntaxError::UnterminatedString {
                pos: *pos as int,
            },
            SyntaxError::IntegerOverflow { pos } => SSyntaxError::IntegerOverflow {
                pos: *pos as int,
            },
            SyntaxError::UnexpectedToken { pos, expected } => SSyntaxError::UnexpectedToken {
                pos: *pos as int,
                expected: expected@,
            },
        }
    }
}

/// The first position at or after `i` where the text admits no tokenization,
/// and the kind of the offence there: an unclosed string literal, an integer
/// literal outside the signed 64-bit range, or a character no token starts
/// with. Meaningful only where the tokenization fails.
pub open spec fn spec_tok_error(cs: Seq<char>, i: int) -> SSyntaxError
    decreases cs.len() - i,
{
    if i < 0 || i >= cs.len() {
        SSyntaxError::UnexpectedChar { pos: i }
    } else if is_space(cs[i]) {
        spec_tok_error(cs, i + 1)
    } else {
        match spec_next(cs, i) {
            Some((t, j)) => if i < j <= cs.len() {
                spec_tok_error(cs, j)
            } else {
                SSyntaxError::UnexpectedChar { pos: i }
            },
            None => {
                let c = cs[i];
                if c == '"' {
                    SSyntaxError::UnterminatedString { pos: i }
                } else if is_digit(c) {
                    SSyntaxError::IntegerOverflow { pos: i }
                } else if c == '-' && i + 1 < cs.len() && is_digit(cs[i + 1]) {
                    SSyntaxError::IntegerOverflow { pos: i }
                } else {
                    SSyntaxError::UnexpectedChar { pos: i }
                }
            },
        }
    }
}

/// Whether `c` is whitespace.
fn ws(c: char) -> (r: bool)
    ensures
        r == is_space(c),
{
    c == ' ' || c == '\t' || c == '\n' || c == '\r'
}

/// Whether `c` is a decimal digit.
fn digit(c: char) -> (r: bool)
    ensures
        r == is_digit(c),
{
    c >= '0' && c <= '9'
}

/// Whether `c` may start an identifier.
fn ident_start(c: char) -> (r: bool)
    ensures
        r == is_ident_start(c),
{
    (c >= 'a' && c <= 'z') || (c >= 'A' && c <= 'Z') || c == '_'
}

/// Whether `c` may continue an identifier.
fn ident_char(c: char) -> (r: bool)
    ensures
        r == is_ident_char(c),
{
    ident_start(c) || digit(c)
}

/// Scans to the end of the identifier run starting at `from`.
fn scan_ident_end(src: &str, from: usize, n: usize) -> (r: usize)
    requires
        from <= n,
        n == src@.len(),
    ensures
        r as int == sp_ident_end(src@, from as int),
        from <= r <= n,
{
    let mut j = from;
    while j < n && ident_char(src.get_char(j))
        invariant
            from <= j <= n,
            n == src@.len(),
            sp_ident_end(src@, from as int) == sp_ident_end(src@, j as int),
        decreases n - j,
    {
        j = j + 1;
    }
    j
}

/// Scans to the end of the digit run starting at `from`.
fn scan_digits_end(src: &str, from: usize, n: usize) -> (r: usize)
    requires
        from <= n,
        n == src@.len(),
    ensures
        r as int == sp_digits_end(src@, from as int),
        from <= r <= n,
        forall|k: int| from <= k < r ==> is_digit(#[trigger] src@[k]),
    decreases n - from,
{
    let mut j = from;
    while j < n && digit(src.get_char(j))
        invariant
            from <= j <= n,
            n == src@.len(),
            sp_digits_end(src@, from as int) == sp_digits_end(src@, j as int),
            forall|k: int| from <= k < j ==> is_digit(#[trigger] src@[k]),
        decreases n - j,
    {
        j = j + 1;
    }
    j
}

/// Scans to the first `"` at or after `from`, or to the end of the source.
fn scan_str_end(src: &str, from: usize, n: usize) -> (r: usize)
    requires
        from <= n,
        n == src@.len(),
    ensures
        r as int == sp_str_end(src@, from as int),
        from <= r <= n,
{
    let mut j = from;
    while j < n && src.get_char(j) != '"'
        invariant
            from <= j <= n,
            n == src@.len(),
            sp_str_end(src@, from as int) == sp_str_end(src@, j as int),
        decreases n - j,
    {
        j = j + 1;
    }
    j
}

/// Computes the value of the digit run `src[s..e)`, clamped to one more than
/// [`int_limit`] so that overflow stays decidable.
fn digits_value(src: &str, s: usize, e: usize, n: usize) -> (r: u128)
    requires
        s <= e <= n,
        n == src@.len(),
        forall|k: int| s <= k < e ==> is_digit(#[trigger] src@[k]),
    ensures
        digits_val(src@, s as int, e as int) > int_limit() ==> r as int == int_limit() + 1,
        digits_val(src@, s as int, e as int) <= int_limit() ==> r as int == digits_val(
            src@,
            s as int,
            e as int,
        ),
{
    let mut acc: u128 = 0;
    let mut j = s;
    proof {
        lemma_digits_val_nonneg(src@, s as int, e as int);
    }
    while j < e
        invariant
            s <= j <= e <= n,
            n == src@.len(),
            forall|k: int| s <= k < e ==> is_digit(#[trigger] src@[k]),
            digits_val(src@, s as int, j as int) > int_limit() ==> acc as int == int_limit() + 1,
            digits_val(src@, s as int, j as int) <= int_limit() ==> acc as int == digits_val(
                src@,
                s as int,
                j as int,
            ),
        decreases e - j,
    {
        proof {
            lemma_digits_val_nonneg(src@, s as int, j as int);
        }
        let c = src.get_char(j);
        let d: u128 = (c as u32 as u128) - 48;
        if acc > 0x8000_0000_0000_0000u128 {
            acc = 0x8000_0000_0000_0001u128;
        } else {
            let wide: u128 = acc * 10 + d;
            if wide > 0x8000_0000_0000_0000u128 {
                acc = 0x8000_0000_0000_0001u128;
            } else {
                acc = wide;
            }
        }
        j = j + 1;
    }
    acc
}

/// A token list prepended to an optional tokenization.
pub open spec fn opt_prepend(ts: Seq<STok>, rest: Option<Seq<STok>>) -> Option<Seq<STok>> {
    match rest {
        Some(r) => Some(ts + r),
        None => None,
    }
}

/// Consuming the token at `i` extends a tokenized prefix by that token.
proof fn lemma_tok_step(full: Seq<char>, i: int, t: STok, j: int, pre: Seq<STok>)
    requires
        0 <= i < full.len(),
        !is_space(full[i]),
        spec_next(full, i) == Some((t, j)),
        i < j <= full.len(),
        opt_prepend(pre, spec_tokenize(full, i)) == spec_tokenize(full, 0),
    ensures
        opt_prepend(pre.push(t), spec_tokenize(full, j)) == spec_tokenize(full, 0),
{
    match spec_tokenize(full, j) {
        Some(rest) => {
            assert(spec_tokenize(full, i) == Some(seq![t] + rest));
            assert(pre.push(t) + rest =~= pre + (seq![t] + rest));
        },
        None => {},
    }
}

/// A digit run never ends before it starts.
proof fn lemma_digits_end_ge(cs: Seq<char>, i: int)
    ensures
        sp_digits_end(cs, i) >= i,
    decreases cs.len() - i,
{
    if 0 <= i < cs.len() && is_digit(cs[i]) {
        lemma_digits_end_ge(cs, i + 1);
    }
}

/// An identifier run never ends before it starts.
proof fn lemma_ident_end_ge(cs: Seq<char>, i: int)
    ensures
        sp_ident_end(cs, i) >= i,
    decreases cs.len() - i,
{
    if 0 <= i < cs.len() && is_ident_char(cs[i]) {
        lemma_ident_end_ge(cs, i + 1);
    }
}

/// Pushes a scanned token and carries the tokenized-prefix invariant from the
/// token's start to the position after it.
fn push_tok(
    out: &mut Vec<Tok>,
    t: Tok,
    Ghost(full): Ghost<Seq<char>>,
    Ghost(i): Ghost<int>,
    Ghost(j): Ghost<int>,
)
    requires
        0 <= i < full.len(),
        !is_space(full[i]),
        spec_next(full, i) == Some((t@, j)),
        i < j <= full.len(),
        opt_prepend(toks_view(old(out)@), spec_tokenize(full, i)) == spec_tokenize(full, 0),
    ensures
        opt_prepend(toks_view(final(out)@), spec_tokenize(full, j)) == spec_tokenize(full, 0),
        spec_tok_error(full, i) == spec_tok_error(full, j),
{
    let ghost pre = toks_view(out@);
    out.push(t);
    proof {
        assert(toks_view(out@) =~= pre.push(t@));
        lemma_tok_step(full, i, t@, j, pre);
    }
}

/// Splits a pattern source text into its tokens; fails exactly where the text
/// admits no tokenization, at the first offending position.
pub fn tokenize(src: &str) -> (r: Result<Vec<Tok>, SyntaxError>)
    ensures
        r matches Ok(ts) ==> spec_tokenize(src@, 0) == Some(toks_view(ts@)),
        r matches Err(_) ==> spec_tokenize(src@, 0) is None,
        (r matches Err(e) ==> e@ == spec_tok_error(src@, 0)),
{
    let ghost full = src@;
    let n = src.unicode_len();
    let mut out: Vec<Tok> = Vec::new();
    let mut i: usize = 0;
    proof {
        assert(toks_view(out@) =~= Seq::<STok>::empty());
        match spec_tokenize(full, 0) {
            Some(r0) => {
                assert(Seq::<STok>::empty() + r0 =~= r0);
            },
            None => {},
        }
    }
    while i < n
        invariant
            i <= n,
            n == full.len(),
            full == src@,
            opt_prepend(toks_view(out@), spec_tokenize(full, i as int)) == spec_tokenize(full, 0),
            spec_tok_error(full, 0) == spec_tok_error(full, i as int),
        decreases n - i,
    {
        let c = src.get_char(i);
        if ws(c) {
            i = i + 1;
        } else if c == '[' {
            push_tok(&mut out, Tok::LBracket, Ghost(full), Ghost(i as int), Ghost(i + 1 as int));
            i = i + 1;
        } else if c == ']' {
            push_tok(&mut out, Tok::RBracket, Ghost(full), Ghost(i as int), Ghost(i + 1 as int));
            i = i + 1;
        } else if c == '{' {
            push_tok(&mut out, Tok::LBrace, Ghost(full), Ghost(i as int), Ghost(i + 1 as int));
            i = i + 1;
        } else if c == '}' {
            push_tok(&mut out, Tok::RBrace, Ghost(full), Ghost(i as int), Ghost(i + 1 as int));
            i = i + 1;
        } else if c == ',' {
            push_tok(&mut out, Tok::Comma, Ghost(full), Ghost(i as int), Ghost(i + 1 as int));
            i = i + 1;
        } else if c == ':' {
            push_tok(&mut out, Tok::Colon, Ghost(full), Ghost(i as int), Ghost(i + 1 as int));
            i = i + 1;
        } else if c == '"' {
            let e = scan_str_end(src, i + 1, n);
            if e >= n {
                proof {
                    assert(spec_tokenize(full, i as int) is None);
                }
                return Err(SyntaxError::UnterminatedString { pos: i });
            }
            let lex = src.substring_char(i + 1, e).to_owned();
            proof {
                assert(lex@ == full.subrange(i + 1, e as int));
            }
            push_tok(&mut out, Tok::Str(lex), Ghost(full), Ghost(i as int), Ghost(e + 1 as int));
            i = e + 1;
        } else if digit(c) {
            let e = scan_digits_end(src, i, n);
            proof {
                lemma_digits_end_ge(full, i + 1);
            }
            let acc = digits_value(src, i, e, n);
            if acc <= 0x7FFF_FFFF_FFFF_FFFFu128 {
                let t = Tok::Int(acc as i64);
                push_tok(&mut out, t, Ghost(full), Ghost(i as int), Ghost(e as int));
                i = e;
            } else {
                proof {
                    assert(spec_tokenize(full, i as int) is None);
                }
                return Err(SyntaxError::IntegerOverflow { pos: i });
            }
        } else if c == '-' {
            if i + 1 < n && digit(src.get_char(i + 1)) {
                let e = scan_digits_end(src, i + 1, n);
                proof {
                    lemma_digits_end_ge(full, i + 2);
                }
                let acc = digits_value(src, i + 1, e, n);
                if acc <= 0x8000_0000_0000_0000u128 {
                    let t = if acc == 0x8000_0000_0000_0000u128 {
                        Tok::Int(i64::MIN)
                    } else {
                        Tok::Int(-(acc as i64))
                    };
                    push_tok(&mut out, t, Ghost(full), Ghost(i as int), Ghost(e as int));
                    i = e;
                } else {
                    proof {
                        assert(spec_tokenize(full, i as int) is None);
                    }
                    return Err(SyntaxError::IntegerOverflow { pos: i });
                }
            } else {
                proof {
                    assert(spec_tokenize(full, i as int) is None);
                }
                return Err(SyntaxError::UnexpectedChar { pos: i });
            }
        } else if ident_start(c) {
            let e = scan_ident_end(src, i, n);
            proof {
                lemma_ident_end_ge(full, i + 1);
            }
            let lex = src.substring_char(i, e).to_owned();
            proof {
                assert(lex@ == full.subrange(i as int, e as int));
            }
            if e == i + 1 && c == '_' {
                push_tok(&mut out, Tok::Underscore, Ghost(full), Ghost(i as int), Ghost(e as int));
            } else {
                let kw = String::from_str("as");
                if lex.eq(&kw) {
                    proof {
                        assert(full.subrange(i as int, e as int) == "as"@);
                    }
                    push_tok(&mut out, Tok::As, Ghost(full), Ghost(i as int), Ghost(e as int));
                } else {
                    push_tok(
                        &mut out,
                        Tok::Ident(lex),
                        Ghost(full),
                        Ghost(i as int),
                        Ghost(e as int),
                    );
                }
            }
            i = e;
        } else {
            proof {
                assert(spec_tokenize(full, i as int) is None);
            }
            return Err(SyntaxError::UnexpectedChar { pos: i });
        }
    }
    proof {
        assert(spec_tokenize(full, i as int) == Some(Seq::<STok>::empty()));
        assert(toks_view(out@) + Seq::<STok>::empty() =~= toks_view(out@));
    }
    Ok(out)
}

} // verus!
