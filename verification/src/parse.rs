//! The pattern grammar and its parser.
//!
//! A pattern is an integer literal, a string literal, the wildcard `_`, an
//! array of patterns in brackets, an object of `name: pattern` fields in
//! braces, or a binding: an identifier with an optional `as` type — a scalar
//! type name (`i64`, `isize`, `String`, `str`, `bool`) or such a name in
//! brackets for an array of that scalar. Trailing commas are allowed.
//!
//! [`sp_pattern`] and its companions define the grammar mathematically over
//! token sequences; [`parse`] decides it, failing with a [`SyntaxError`]
//! exactly on the texts the grammar does not generate.

use vstd::prelude::*;

use crate::pattern::{pat_fields_view, pattern_view, BindTy, Pattern, SPattern, Scalar};
use crate::tokens::{spec_tok_error, spec_tokenize, tokenize, toks_view, STok, SyntaxError, Tok, TokKind};

verus! {

/// The scalar type a type name denotes, if any.
pub open spec fn scalar_of_name(w: Seq<char>) -> Option<Scalar> {
    if w == "i64"@ || w == "isize"@ {
        Some(Scalar::Int)
    } else if w == "String"@ || w == "str"@ {
        Some(Scalar::Text)
    } else if w == "bool"@ {
        Some(Scalar::Bool)
    } else {
        None
    }
}

/// The binding type that starts at token `i`: a scalar type name, or such a
/// name in brackets; and the position after it.
pub open spec fn sp_bindty(ts: Seq<STok>, i: int) -> Option<(BindTy, int)> {
    if !(0 <= i < ts.len()) {
        None
    } else {
        match ts[i] {
            STok::Ident(w) => match scalar_of_name(w) {
                Some(sc) => Some((BindTy::Scalar(sc), i + 1)),
                None => None,
            },
            STok::LBracket => if i + 2 < ts.len() {
                match (ts[i + 1], ts[i + 2]) {
                    (STok::Ident(w), STok::RBracket) => match scalar_of_name(w) {
                        Some(sc) => Some((BindTy::List(sc), i + 3)),
                        None => None,
                    },
                    _ => None,
                }
            } else {
                None
            },
            _ => None,
        }
    }
}

/// The pattern that starts at token `i`, and the position after it; nothing
/// when the grammar generates none there.
pub open spec fn sp_pattern(ts: Seq<STok>, i: int) -> Option<(SPattern, int)>
    decreases ts.len() - i, 0int,
{
    if !(0 <= i < ts.len()) {
        None
    } else {
        match ts[i] {
            STok::Int(n) => Some((SPattern::Integer(n), i + 1)),
            STok::Str(s) => Some((SPattern::Text(s), i + 1)),
            STok::Underscore => Some((SPattern::Any, i + 1)),
            STok::Ident(name) => if i + 1 < ts.len() && ts[i + 1] == STok::As {
                match sp_bindty(ts, i + 2) {
                    Some((ty, j)) => Some((SPattern::Binding(name, Some(ty)), j)),
                    None => None,
                }
            } else {
                Some((SPattern::Binding(name, None), i + 1))
            },
            STok::LBracket => match sp_elems(ts, i + 1) {
                Some((ps, j)) => Some((SPattern::Arr(ps), j)),
                None => None,
            },
            STok::LBrace => match sp_fields(ts, i + 1) {
                Some((fs, j)) => Some((SPattern::Obj(fs), j)),
                None => None,
            },
            _ => None,
        }
    }
}

/// The element patterns of an array pattern, from token `i` up to and
/// including the closing bracket, and the position after it.
pub open spec fn sp_elems(ts: Seq<STok>, i: int) -> Option<(Seq<SPattern>, int)>
    decreases ts.len() - i, 1int,
{
    if !(0 <= i < ts.len()) {
        None
    } else if ts[i] == STok::RBracket {
        Some((Seq::empty(), i + 1))
    } else {
        match sp_pattern(ts, i) {
            Some((p, j)) => if i < j <= ts.len() {
                if j < ts.len() && ts[j] == STok::Comma {
                    match sp_elems(ts, j + 1) {
                        Some((ps, k)) => Some((seq![p] + ps, k)),
                        None => None,
                    }
                } else if j < ts.len() && ts[j] == STok::RBracket {
                    Some((seq![p], j + 1))
                } else {
                    None
                }
            } else {
                None
            },
            None => None,
        }
    }
}

/// The fields of an object pattern, from token `i` up to and including the
/// closing brace, and the position after it.
pub open spec fn sp_fields(ts: Seq<STok>, i: int) -> Option<(Seq<(Seq<char>, SPattern)>, int)>
    decreases ts.len() - i, 1int,
{
    if !(0 <= i < ts.len()) {
        None
    } else if ts[i] == STok::RBrace {
        Some((Seq::empty(), i + 1))
    } else {
        match ts[i] {
            STok::Ident(name) => if i + 1 < ts.len() && ts[i + 1] == STok::Colon {
                match sp_pattern(ts, i + 2) {
                    Some((p, j)) => if i + 2 < j <= ts.len() {
                        if j < ts.len() && ts[j] == STok::Comma {
                            match sp_fields(ts, j + 1) {
                                Some((fs, k)) => Some((seq![(name, p)] + fs, k)),
                                None => None,
                            }
                        } else if j < ts.len() && ts[j] == STok::RBrace {
                            Some((seq![(name, p)], j + 1))
                        } else {
                            None
                        }
                    } else {
                        None
                    },
                    None => None,
                }
            } else {
                None
            },
            _ => None,
        }
    }
}

/// The pattern a whole token list parses to: one pattern, with no token left
/// over.
pub open spec fn spec_parse(ts: Seq<STok>) -> Option<SPattern> {
    match sp_pattern(ts, 0) {
        Some((p, j)) => if j == ts.len() {
            Some(p)
        } else {
            None
        },
        None => None,
    }
}

/// The pattern a source text compiles to: its tokenization, parsed.
pub open spec fn spec_compile(cs: Seq<char>) -> Option<SPattern> {
    match spec_tokenize(cs, 0) {
        Some(ts) => spec_parse(ts),
        None => None,
    }
}

/// The mathematical image of a pattern list.
pub open spec fn pats_view(ps: Seq<Pattern>) -> Seq<SPattern> {
    Seq::new(ps.len(), |i: int| pattern_view(ps[i]))
}

/// The scalar type an identifier names, if any.
fn scalar_name(w: &String) -> (r: Option<Scalar>)
    ensures
        r == scalar_of_name(w@),
{
    if w.eq(&String::from_str("i64")) || w.eq(&String::from_str("isize")) {
        Some(Scalar::Int)
    } else if w.eq(&String::from_str("String")) || w.eq(&String::from_str("str")) {
        Some(Scalar::Text)
    } else if w.eq(&String::from_str("bool")) {
        Some(Scalar::Bool)
    } else {
        None
    }
}

/// The token kinds that may start a pattern.
fn pattern_starts() -> Vec<TokKind> {
    let mut v: Vec<TokKind> = Vec::new();
    v.push(TokKind::Int);
    v.push(TokKind::Str);
    v.push(TokKind::Underscore);
    v.push(TokKind::Ident);
    v.push(TokKind::LBracket);
    v.push(TokKind::LBrace);
    v
}

/// Parses the binding type after `as`, starting at token `i`.
fn p_bindty(ts: &Vec<Tok>, i: usize) -> (r: Result<(BindTy, usize), SyntaxError>)
    requires
        i <= ts@.len(),
    ensures
        (r matches Ok((ty, j)) ==> sp_bindty(toks_view(ts@), i as int) == Some((ty, j as int))
            && i < j <= ts@.len()),
        r matches Err(_) ==> sp_bindty(toks_view(ts@), i as int) is None,
        (r matches Err(e) ==> e is UnexpectedToken),
{
    let ghost tsv = toks_view(ts@);
    let n = ts.len();
    if i >= n {
        let mut expected: Vec<TokKind> = Vec::new();
        expected.push(TokKind::TypeName);
        return Err(SyntaxError::UnexpectedToken { pos: i, expected });
    }
    proof {
        assert(tsv[i as int] == ts@[i as int]@);
    }
    match &ts[i] {
        Tok::Ident(w) => match scalar_name(w) {
            Some(sc) => Ok((BindTy::Scalar(sc), i + 1)),
            None => {
                let mut expected: Vec<TokKind> = Vec::new();
                expected.push(TokKind::TypeName);
                Err(SyntaxError::UnexpectedToken { pos: i, expected })
            },
        },
        Tok::LBracket => {
            if n - i > 2 {
                proof {
                    assert(tsv[i + 1] == ts@[i + 1]@);
                    assert(tsv[i + 2] == ts@[i + 2]@);
                }
                match (&ts[i + 1], &ts[i + 2]) {
                    (Tok::Ident(w), Tok::RBracket) => match scalar_name(w) {
                        Some(sc) => Ok((BindTy::List(sc), i + 3)),
                        None => {
                            let mut expected: Vec<TokKind> = Vec::new();
                            expected.push(TokKind::TypeName);
                            Err(SyntaxError::UnexpectedToken { pos: i + 1, expected })
                        },
                    },
                    _ => {
                        let mut expected: Vec<TokKind> = Vec::new();
                        expected.push(TokKind::TypeName);
                        expected.push(TokKind::RBracket);
                        Err(SyntaxError::UnexpectedToken { pos: i + 1, expected })
                    },
                }
            } else {
                let mut expected: Vec<TokKind> = Vec::new();
                expected.push(TokKind::TypeName);
                expected.push(TokKind::RBracket);
                Err(SyntaxError::UnexpectedToken { pos: i, expected })
            }
        },
        _ => {
            let mut expected: Vec<TokKind> = Vec::new();
            expected.push(TokKind::TypeName);
            Err(SyntaxError::UnexpectedToken { pos: i, expected })
        },
    }
}

/// Parses the pattern that starts at token `i`.
fn p_pattern(ts: &Vec<Tok>, i: usize) -> (r: Result<(Pattern, usize), SyntaxError>)
    requires
        i <= ts@.len(),
    ensures
        (r matches Ok(pj) ==> sp_pattern(toks_view(ts@), i as int) == Some(
            (pattern_view(pj.0), pj.1 as int),
        ) && i < pj.1 <= ts@.len()),
        r matches Err(_) ==> sp_pattern(toks_view(ts@), i as int) is None,
        (r matches Err(e) ==> e is UnexpectedToken),
    decreases ts@.len() - i, 0int,
{
    let ghost tsv = toks_view(ts@);
    let n = ts.len();
    if i >= n {
        return Err(SyntaxError::UnexpectedToken { pos: i, expected: pattern_starts() });
    }
    proof {
        assert(tsv[i as int] == ts@[i as int]@);
    }
    match &ts[i] {
        Tok::Int(v) => Ok((Pattern::Integer(*v), i + 1)),
        Tok::Str(s) => Ok((Pattern::Text(s.clone()), i + 1)),
        Tok::Underscore => Ok((Pattern::Any, i + 1)),
        Tok::Ident(name) => {
            let has_as = if i + 1 < n {
                proof {
                    assert(tsv[i + 1] == ts@[i + 1]@);
                }
                match &ts[i + 1] {
                    Tok::As => true,
                    _ => false,
                }
            } else {
                false
            };
            if has_as {
                match p_bindty(ts, i + 2) {
                    Ok((ty, j)) => Ok((Pattern::Binding(name.clone(), Some(ty)), j)),
                    Err(e) => Err(e),
                }
            } else {
                Ok((Pattern::Binding(name.clone(), None), i + 1))
            }
        },
        Tok::LBracket => match p_elems(ts, i + 1) {
            Ok((ps, j)) => {
                let p = Pattern::Array(ps);
                proof {
                    assert(pattern_view(p) == SPattern::Arr(pats_view(p->Array_0@))) by {
                        assert(pattern_view(p)->Arr_0 =~= pats_view(p->Array_0@));
                    }
                }
                Ok((p, j))
            },
            Err(e) => Err(e),
        },
        Tok::LBrace => match p_fields(ts, i + 1) {
            Ok((fs, j)) => Ok((Pattern::Object(fs), j)),
            Err(e) => Err(e),
        },
        _ => Err(SyntaxError::UnexpectedToken { pos: i, expected: pattern_starts() }),
    }
}

/// Parses array elements from token `i` up to and including the closing
/// bracket.
fn p_elems(ts: &Vec<Tok>, i: usize) -> (r: Result<(Vec<Pattern>, usize), SyntaxError>)
    requires
        i <= ts@.len(),
    ensures
        (r matches Ok(pj) ==> sp_elems(toks_view(ts@), i as int) == Some(
            (pats_view(pj.0@), pj.1 as int),
        ) && i < pj.1 <= ts@.len()),
        r matches Err(_) ==> sp_elems(toks_view(ts@), i as int) is None,
        (r matches Err(e) ==> e is UnexpectedToken),
    decreases ts@.len() - i, 1int,
{
    let ghost tsv = toks_view(ts@);
    let n = ts.len();
    if i >= n {
        let mut expected = pattern_starts();
        expected.push(TokKind::RBracket);
        return Err(SyntaxError::UnexpectedToken { pos: i, expected });
    }
    proof {
        assert(tsv[i as int] == ts@[i as int]@);
    }
    let bracket = match &ts[i] {
        Tok::RBracket => true,
        _ => false,
    };
    if bracket {
        let out: Vec<Pattern> = Vec::new();
        proof {
            assert(pats_view(out@) =~= Seq::<SPattern>::empty());
        }
        return Ok((out, i + 1));
    }
    match p_pattern(ts, i) {
        Err(e) => Err(e),
        Ok((p, j)) => {
            if j < n {
                proof {
                    assert(tsv[j as int] == ts@[j as int]@);
                }
                match &ts[j] {
                    Tok::Comma => match p_elems(ts, j + 1) {
                        Err(e) => Err(e),
                        Ok((mut ps, k)) => {
                            let ghost prev = pats_view(ps@);
                            ps.insert(0, p);
                            proof {
                                assert(pats_view(ps@) =~= seq![pattern_view(p)] + prev);
                            }
                            Ok((ps, k))
                        },
                    },
                    Tok::RBracket => {
                        let mut ps: Vec<Pattern> = Vec::new();
                        ps.push(p);
                        proof {
                            assert(pats_view(ps@) =~= seq![pattern_view(p)]);
                        }
                        Ok((ps, j + 1))
                    },
                    _ => {
                        let mut expected: Vec<TokKind> = Vec::new();
                        expected.push(TokKind::Comma);
                        expected.push(TokKind::RBracket);
                        Err(SyntaxError::UnexpectedToken { pos: j, expected })
                    },
                }
            } else {
                let mut expected: Vec<TokKind> = Vec::new();
                expected.push(TokKind::Comma);
                expected.push(TokKind::RBracket);
                Err(SyntaxError::UnexpectedToken { pos: j, expected })
            }
        },
    }
}

/// Parses object fields from token `i` up to and including the closing brace.
fn p_fields(ts: &Vec<Tok>, i: usize) -> (r: Result<(Vec<(String, Pattern)>, usize), SyntaxError>)
    requires
        i <= ts@.len(),
    ensures
        (r matches Ok(pj) ==> sp_fields(toks_view(ts@), i as int) == Some(
            (pat_fields_view(pj.0@), pj.1 as int),
        ) && i < pj.1 <= ts@.len()),
        r matches Err(_) ==> sp_fields(toks_view(ts@), i as int) is None,
        (r matches Err(e) ==> e is UnexpectedToken),
    decreases ts@.len() - i, 1int,
{
    let ghost tsv = toks_view(ts@);
    let n = ts.len();
    if i >= n {
        let mut expected: Vec<TokKind> = Vec::new();
        expected.push(TokKind::Ident);
        expected.push(TokKind::RBrace);
        return Err(SyntaxError::UnexpectedToken { pos: i, expected });
    }
    proof {
        assert(tsv[i as int] == ts@[i as int]@);
    }
    let brace = match &ts[i] {
        Tok::RBrace => true,
        _ => false,
    };
    if brace {
        let out: Vec<(String, Pattern)> = Vec::new();
        proof {
            assert(pat_fields_view(out@) =~= Seq::<(Seq<char>, SPattern)>::empty());
        }
        return Ok((out, i + 1));
    }
    match &ts[i] {
        Tok::Ident(name) => {
            let colon = if i + 1 < n {
                proof {
                    assert(tsv[i + 1] == ts@[i + 1]@);
                }
                match &ts[i + 1] {
                    Tok::Colon => true,
                    _ => false,
                }
            } else {
                false
            };
            if !colon {
                let mut expected: Vec<TokKind> = Vec::new();
                expected.push(TokKind::Colon);
                return Err(SyntaxError::UnexpectedToken { pos: i + 1, expected });
            }
            match p_pattern(ts, i + 2) {
                Err(e) => Err(e),
                Ok((p, j)) => {
                    if j < n {
                        proof {
                            assert(tsv[j as int] == ts@[j as int]@);
                        }
                        match &ts[j] {
                            Tok::Comma => match p_fields(ts, j + 1) {
                                Err(e) => Err(e),
                                Ok((mut fs, k)) => {
                                    let ghost prev = pat_fields_view(fs@);
                                    fs.insert(0, (name.clone(), p));
                                    proof {
                                        assert(pat_fields_view(fs@) =~= seq![
                                            (name@, pattern_view(p)),
                                        ] + prev);
                                    }
                                    Ok((fs, k))
                                },
                            },
                            Tok::RBrace => {
                                let mut fs: Vec<(String, Pattern)> = Vec::new();
                                fs.push((name.clone(), p));
                                proof {
                                    assert(pat_fields_view(fs@) =~= seq![
                                        (name@, pattern_view(p)),
                                    ]);
                                }
                                Ok((fs, j + 1))
                            },
                            _ => {
                                let mut expected: Vec<TokKind> = Vec::new();
                                expected.push(TokKind::Comma);
                                expected.push(TokKind::RBrace);
                                Err(SyntaxError::UnexpectedToken { pos: j, expected })
                            },
                        }
                    } else {
                        let mut expected: Vec<TokKind> = Vec::new();
                        expected.push(TokKind::Comma);
                        expected.push(TokKind::RBrace);
                        Err(SyntaxError::UnexpectedToken { pos: j, expected })
                    }
                },
            }
        },
        _ => {
            let mut expected: Vec<TokKind> = Vec::new();
            expected.push(TokKind::Ident);
            expected.push(TokKind::RBrace);
            Err(SyntaxError::UnexpectedToken { pos: i, expected })
        },
    }
}

/// Parses a whole token list as one pattern, demanding that no token is left
/// over.
pub fn parse_tokens(ts: &Vec<Tok>) -> (r: Result<Pattern, SyntaxError>)
    ensures
        r matches Ok(p) ==> spec_parse(toks_view(ts@)) == Some(pattern_view(p)),
        r matches Err(_) ==> spec_parse(toks_view(ts@)) is None,
        (r matches Err(e) ==> e is UnexpectedToken),
{
    match p_pattern(ts, 0) {
        Err(e) => Err(e),
        Ok((p, j)) => {
            if j == ts.len() {
                Ok(p)
            } else {
                let mut expected: Vec<TokKind> = Vec::new();
                expected.push(TokKind::End);
                Err(SyntaxError::UnexpectedToken { pos: j, expected })
            }
        },
    }
}

/// Parses a pattern source text: tokenizes it and parses the tokens.
///
/// Succeeds exactly on the texts the grammar generates. On a text the
/// tokenizer refuses the error is exactly the first offending position and
/// its kind (see [`spec_tok_error`]); on a tokenizable text outside the
/// grammar it is an unexpected-token error, whose payload names the position
/// and the token kinds the grammar admits there.
pub fn parse(src: &str) -> (r: Result<Pattern, SyntaxError>)
    ensures
        r matches Ok(p) ==> spec_compile(src@) == Some(pattern_view(p)),
        r matches Err(_) ==> spec_compile(src@) is None,
        (match r {
            Err(e) => if spec_tokenize(src@, 0) is None {
                e@ == spec_tok_error(src@, 0)
            } else {
                e is UnexpectedToken
            },
            _ => true,
        }),
{
    match tokenize(src) {
        Err(e) => Err(e),
        Ok(ts) => parse_tokens(&ts),
    }
}

/// Parsing is a pure function of the source text: two parses of equal
/// sources yield structurally identical patterns, and therefore identical
/// binding lists.
pub proof fn lemma_parse_deterministic(a: Seq<char>, b: Seq<char>, p1: SPattern, p2: SPattern)
    requires
        a == b,
        spec_compile(a) == Some(p1),
        spec_compile(b) == Some(p2),
    ensures
        p1 == p2,
        crate::bindings::spec_bindings(p1, Seq::empty()) == crate::bindings::spec_bindings(
            p2,
            Seq::empty(),
        ),
{
}

} // verus!
