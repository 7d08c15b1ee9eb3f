//! The assertion entry point: parse, compile, match, extract.
//!
//! [`assert_body_matches`] runs the whole pipeline over one value and one
//! pattern source text: the text is parsed into a pattern, the pattern's
//! bindings are compiled and given types (an `as` annotation, or else a
//! caller-supplied hint), the value is matched structurally, and the bound
//! sub-values are extracted and converted. Each stage's failure is its own
//! [`Error`] variant, and the stages run in that order, so the first failing
//! stage decides the error.

use vstd::prelude::*;

use crate::bindings::{bindings_view, compile_bindings, path_snapshot, spec_bindings, Binding, SBinding};
use crate::extract::{binding_output, binding_ready, extract_bindings, extraction_fails_at, extraction_of, lemma_match_implies_paths_resolve, ConversionError, Extracted};
use crate::matcher::{check_matches, spec_first_error, spec_matches, MatchError};
use crate::parse::{parse, spec_compile};
use crate::pattern::{pattern_view, BindTy, Pattern, SPattern};
use crate::tokens::{spec_tok_error, spec_tokenize, SyntaxError};
use crate::value::{SValue, Value};

verus! {

/// A binding without an `as` annotation whose name no hint covers: no type
/// can be inferred for it.
#[derive(Debug, Clone, PartialEq, Eq)]
pub struct AmbiguousBindingError {
    /// The binding that lacks a type.
    pub name: String,
}

impl AmbiguousBindingError {
    /// The human-readable description of this failure.
    pub open spec fn spec_message(&self) -> Seq<char> {
        "Binding `"@ + self.name@ + "` has no requested type"@
    }

    /// Renders the human-readable description of this failure.
    pub fn describe(&self) -> (r: String)
        ensures
            r@ == self.spec_message(),
    {
        let mut s = String::from_str("Binding `");
        s.append(self.name.as_str());
        s.append("` has no requested type");
        s
    }
}

/// Any failure of one assertion: a malformed pattern, a binding without a
/// type, a structural mismatch, or a conversion failure.
#[derive(Debug, Clone, PartialEq, Eq)]
pub enum Error {
    /// The pattern source text deviates from the grammar.
    Syntax(SyntaxError),
    /// A binding has no `as` annotation and no hint.
    Ambiguous(AmbiguousBindingError),
    /// The value's shape disagrees with the pattern's.
    Mismatch(MatchError),
    /// A structurally matched sub-value does not admit its requested
    /// conversion.
    Conversion(ConversionError),
}

impl Error {
    /// The human-readable description of this failure.
    pub open spec fn spec_message(&self) -> Seq<char> {
        match self {
            Error::Syntax(e) => e.spec_message(),
            Error::Ambiguous(e) => e.spec_message(),
            Error::Mismatch(e) => e.spec_message(),
            Error::Conversion(e) => e.spec_message(),
        }
    }

    /// Renders the human-readable description of this failure.
    pub fn describe(&self) -> (r: String)
        ensures
            r@ == self.spec_message(),
    {
        match self {
            Error::Syntax(e) => e.describe(),
            Error::Ambiguous(e) => e.describe(),
            Error::Mismatch(e) => e.describe(),
            Error::Conversion(e) => e.describe(),
        }
    }
}

/// The mathematical image of a hint list.
pub open spec fn hints_view(hs: Seq<(String, BindTy)>) -> Seq<(Seq<char>, BindTy)> {
    Seq::new(hs.len(), |i: int| (hs[i].0@, hs[i].1))
}

/// The type the first hint for `name` requests, if any hint covers it.
pub open spec fn hint_of(hs: Seq<(Seq<char>, BindTy)>, name: Seq<char>) -> Option<BindTy>
    decreases hs.len(),
{
    if hs.len() == 0 {
        None
    } else if hs[0].0 == name {
        Some(hs[0].1)
    } else {
        hint_of(hs.drop_first(), name)
    }
}

/// A binding with its type settled: its own `as` annotation where the pattern
/// gave one, else the first hint for its name.
pub open spec fn resolve_ty(b: SBinding, hs: Seq<(Seq<char>, BindTy)>) -> SBinding {
    SBinding {
        name: b.name,
        path: b.path,
        ty: if b.ty is Some {
            b.ty
        } else {
            hint_of(hs, b.name)
        },
    }
}

/// The binding list with every type settled against the hints.
pub open spec fn resolved_bindings(bs: Seq<SBinding>, hs: Seq<(Seq<char>, BindTy)>) -> Seq<
    SBinding,
> {
    Seq::new(bs.len(), |i: int| resolve_ty(bs[i], hs))
}

/// Whether every binding of the list carries a type.
pub open spec fn all_typed(bs: Seq<SBinding>) -> bool {
    forall|i: int| 0 <= i < bs.len() ==> (#[trigger] bs[i]).ty is Some
}

/// The typed binding list a compiled pattern gives against the hints.
pub open spec fn typed_bindings(p: SPattern, hs: Seq<(Seq<char>, BindTy)>) -> Seq<SBinding> {
    resolved_bindings(spec_bindings(p, Seq::empty()), hs)
}

/// Whether every binding's sub-value of `v` admits its requested conversion.
pub open spec fn all_convert(v: SValue, bs: Seq<SBinding>) -> bool {
    forall|i: int| 0 <= i < bs.len() ==> binding_output(v, #[trigger] bs[i]) is Some
}

/// Looks the first hint for `name` up.
fn hint_lookup(hints: &Vec<(String, BindTy)>, name: &String) -> (r: Option<BindTy>)
    ensures
        r == hint_of(hints_view(hints@), name@),
{
    let ghost hv = hints_view(hints@);
    proof {
        assert(hv.skip(0) =~= hv);
    }
    let n = hints.len();
    for i in 0..n
        invariant
            n == hints@.len(),
            hv == hints_view(hints@),
            hv.len() == n,
            hint_of(hv, name@) == hint_of(hv.skip(i as int), name@),
    {
        let ghost rest = hv.skip(i as int);
        proof {
            assert(rest[0] == hv[i as int]);
            assert(rest.drop_first() =~= hv.skip(i + 1));
            assert(hv[i as int] == (hints@[i as int].0@, hints@[i as int].1));
        }
        if hints[i].0.eq(name) {
            return Some(hints[i].1);
        }
    }
    None
}

/// Settles each binding's type: its `as` annotation, or else the first hint
/// for its name. Fails at the first binding that has neither: its type is
/// ambiguous.
pub fn resolve_binding_types(bindings: &Vec<Binding>, hints: &Vec<(String, BindTy)>) -> (r: Result<
    Vec<Binding>,
    AmbiguousBindingError,
>)
    ensures
        (r matches Ok(rbs) ==> bindings_view(rbs@) == resolved_bindings(
            bindings_view(bindings@),
            hints_view(hints@),
        ) && all_typed(bindings_view(rbs@))),
        r is Err <==> !all_typed(
            resolved_bindings(bindings_view(bindings@), hints_view(hints@)),
        ),
        (r matches Err(e) ==> exists|i: int|
            0 <= i < bindings@.len() && resolve_ty(
                #[trigger] bindings_view(bindings@)[i],
                hints_view(hints@),
            ).ty is None && e.name@ == bindings_view(bindings@)[i].name && (forall|j: int|
                0 <= j < i ==> resolve_ty(
                    #[trigger] bindings_view(bindings@)[j],
                    hints_view(hints@),
                ).ty is Some)),
{
    let ghost bs = bindings_view(bindings@);
    let ghost hv = hints_view(hints@);
    let ghost goal = resolved_bindings(bs, hv);
    let mut out: Vec<Binding> = Vec::new();
    let n = bindings.len();
    for i in 0..n
        invariant
            n == bindings@.len(),
            bs == bindings_view(bindings@),
            hv == hints_view(hints@),
            goal == resolved_bindings(bs, hv),
            bs.len() == n && goal.len() == n,
            out@.len() == i,
            forall|j: int| 0 <= j < i ==> (#[trigger] goal[j]).ty is Some,
            forall|j: int| 0 <= j < i ==> #[trigger] out@[j]@ == goal[j],
    {
        proof {
            assert(bs[i as int] == bindings@[i as int]@);
        }
        let b = &bindings[i];
        let ty: Option<BindTy> = match &b.ty {
            Some(t) => Some(*t),
            None => hint_lookup(hints, &b.name),
        };
        match ty {
            Some(t) => {
                let nb = Binding { name: b.name.clone(), path: path_snapshot(&b.path), ty: Some(t) };
                let ghost pre_out = out@;
                proof {
                    assert(nb@ == goal[i as int]);
                }
                out.push(nb);
                proof {
                    assert forall|j: int| 0 <= j < i + 1 implies (#[trigger] goal[j]).ty
                        is Some by {
                        if j < i as int {
                            assert(out@[j] == pre_out[j]);
                        } else {
                            assert(nb@ == goal[j]);
                        }
                    }
                    assert forall|j: int| 0 <= j < i + 1 implies #[trigger] out@[j]@
                        == goal[j] by {
                        if j < i as int {
                            assert(out@[j] == pre_out[j]);
                            assert(pre_out[j]@ == goal[j]);
                        } else {
                            assert(out@[j] == nb);
                        }
                    }
                }
            },
            None => {
                let e = AmbiguousBindingError { name: b.name.clone() };
                proof {
                    assert(goal[i as int].ty is None);
                    assert(!all_typed(goal));
                    assert forall|j: int| 0 <= j < i implies resolve_ty(
                        #[trigger] bs[j],
                        hv,
                    ).ty is Some by {
                        assert(goal[j].ty is Some);
                    }
                }
                return Err(e);
            },
        }
    }
    proof {
        assert(bindings_view(out@) =~= goal);
        assert(all_typed(goal));
    }
    Ok(out)
}

/// Checks a value against a pattern source text and extracts the pattern's
/// bindings: the text is parsed, its bindings are compiled and typed (an `as`
/// annotation, or else the first hint for the name), the value is matched
/// structurally, and each bound sub-value is converted.
///
/// The stages run in that order; the first failing stage decides which error
/// comes back, and the call succeeds exactly when every stage passes.
pub fn assert_body_matches(value: &Value, pattern: &str, hints: &Vec<(String, BindTy)>) -> (r:
    Result<Vec<(String, Extracted)>, Error>)
    requires
        value@.wf(),
    ensures
        r matches Err(Error::Syntax(_)) <==> spec_compile(pattern@) is None,
        (match r {
            Err(Error::Syntax(e)) => if spec_tokenize(pattern@, 0) is None {
                e@ == spec_tok_error(pattern@, 0)
            } else {
                e is UnexpectedToken
            },
            _ => true,
        }),
        r matches Err(Error::Ambiguous(_)) <==> (spec_compile(pattern@) matches Some(p)
            && !all_typed(typed_bindings(p, hints_view(hints@)))),
        r matches Err(Error::Mismatch(_)) <==> (spec_compile(pattern@) matches Some(p)
            && all_typed(typed_bindings(p, hints_view(hints@))) && !spec_matches(value@, p)),
        (match r {
            Err(Error::Mismatch(e)) => (match spec_compile(pattern@) {
                Some(p) => e@ == spec_first_error(value@, p),
                None => false,
            }),
            _ => true,
        }),
        r matches Err(Error::Conversion(_)) <==> (spec_compile(pattern@) matches Some(p)
            && all_typed(typed_bindings(p, hints_view(hints@))) && spec_matches(value@, p)
            && !all_convert(value@, typed_bindings(p, hints_view(hints@)))),
        (r matches Err(Error::Conversion(e)) ==> (spec_compile(pattern@) matches Some(p)
            && extraction_fails_at(value@, typed_bindings(p, hints_view(hints@)), e))),
        (r matches Ok(out) ==> (spec_compile(pattern@) matches Some(p) && spec_matches(value@, p)
            && extraction_of(value@, typed_bindings(p, hints_view(hints@)), out@))),
        r is Ok <==> (spec_compile(pattern@) matches Some(p) && all_typed(
            typed_bindings(p, hints_view(hints@)),
        ) && spec_matches(value@, p) && all_convert(
            value@,
            typed_bindings(p, hints_view(hints@)),
        )),
{
    let ghost hv = hints_view(hints@);
    let pat = match parse(pattern) {
        Ok(p) => p,
        Err(e) => {
            return Err(Error::Syntax(e));
        },
    };
    let ghost sp = pattern_view(pat);
    let ghost bs0 = spec_bindings(sp, Seq::empty());
    let ghost tbs = typed_bindings(sp, hv);
    let bindings = compile_bindings(&pat);
    let rbs = match resolve_binding_types(&bindings, hints) {
        Ok(r) => r,
        Err(e) => {
            return Err(Error::Ambiguous(e));
        },
    };
    proof {
        assert(bindings_view(rbs@) == tbs);
        assert(all_typed(tbs));
    }
    match check_matches(value, &pat) {
        Ok(()) => {},
        Err(e) => {
            return Err(Error::Mismatch(e));
        },
    }
    proof {
        lemma_match_implies_paths_resolve(value@, sp, bs0);
        assert forall|i: int| 0 <= i < rbs@.len() implies binding_ready(
            value@,
            #[trigger] rbs@[i]@,
        ) by {
            assert(rbs@[i]@ == bindings_view(rbs@)[i]);
            assert(tbs[i].path == bs0[i].path);
        }
    }
    match extract_bindings(value, &rbs) {
        Ok(out) => {
            proof {
                assert(extraction_of(value@, tbs, out@));
                assert forall|i: int| 0 <= i < tbs.len() implies binding_output(
                    value@,
                    #[trigger] tbs[i],
                ) is Some by {
                    assert((#[trigger] out@[i]).0@ == tbs[i].name && Some(out@[i].1@)
                        == binding_output(value@, tbs[i]));
                }
            }
            Ok(out)
        },
        Err(e) => Err(Error::Conversion(e)),
    }
}

} // verus!
