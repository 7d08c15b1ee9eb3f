//! Resolution of extraction paths and conversion of the bound sub-values.
//!
//! After a match has been confirmed, each binding's extraction path is
//! replayed against the original value ([`resolve`]) and the sub-value it
//! reaches is converted to the binding's requested type ([`convert`]).
//! [`extract_bindings`] does both for a whole binding list, in the list's
//! order. [`lemma_match_implies_paths_resolve`] shows that after a confirmed
//! match every path of the pattern's bindings resolves: resolution failure
//! cannot happen.

use vstd::prelude::*;

use crate::bindings::{arr_bindings_upto, bindings_view, obj_bindings_upto, spec_bindings, Binding, PathStep, SBinding, SStep};
use crate::matcher::spec_matches;
use crate::pattern::{BindTy, SPattern, Scalar};
use crate::value::{has_key, key_lookup, lemma_key_lookup_unique, obj_fields_view, object_get, SValue, Value};

verus! {

broadcast use
    crate::value::lemma_wf_arr,
    crate::value::lemma_wf_obj,
;

/// One descent step: the sub-value a step reaches inside a value, if any.
pub open spec fn step_into(v: SValue, s: SStep) -> Option<SValue> {
    match s {
        SStep::Index(i) => match v {
            SValue::Arr(vs) => if 0 <= i < vs.len() {
                Some(vs[i])
            } else {
                None
            },
            _ => None,
        },
        SStep::Field(k) => match v {
            SValue::Obj(fs) => if has_key(fs, k) {
                Some(key_lookup(fs, k))
            } else {
                None
            },
            _ => None,
        },
    }
}

/// The sub-value an extraction path reaches, replayed from the front.
pub open spec fn spec_resolve(v: SValue, path: Seq<SStep>) -> Option<SValue>
    decreases path.len(),
{
    if path.len() == 0 {
        Some(v)
    } else {
        match step_into(v, path[0]) {
            Some(u) => spec_resolve(u, path.drop_first()),
            None => None,
        }
    }
}

/// Appending one step to a path descends one step further.
pub proof fn lemma_resolve_snoc(v: SValue, path: Seq<SStep>, s: SStep)
    ensures
        spec_resolve(v, path.push(s)) == (match spec_resolve(v, path) {
            Some(u) => step_into(u, s),
            None => None::<SValue>,
        }),
    decreases path.len(),
{
    if path.len() == 0 {
        assert(path.push(s)[0] == s);
        assert(path.push(s).drop_first() =~= Seq::<SStep>::empty());
        match step_into(v, s) {
            Some(u) => {
                assert(spec_resolve(v, path.push(s)) == spec_resolve(
                    u,
                    path.push(s).drop_first(),
                ));
            },
            None => {},
        }
    } else {
        assert(path.push(s)[0] == path[0]);
        assert(path.push(s).drop_first() =~= path.drop_first().push(s));
        match step_into(v, path[0]) {
            Some(u) => {
                lemma_resolve_snoc(u, path.drop_first(), s);
            },
            None => {},
        }
    }
}

/// Replays an extraction path against a value, returning the sub-value it
/// reaches.
pub fn resolve<'a>(value: &'a Value, path: &Vec<PathStep>) -> (r: Option<&'a Value>)
    requires
        value@.wf(),
    ensures
        match r {
            Some(sub) => spec_resolve(value@, crate::bindings::steps_view(path@)) == Some(sub@)
                && sub@.wf(),
            None => spec_resolve(value@, crate::bindings::steps_view(path@)) is None,
        },
{
    let ghost whole = crate::bindings::steps_view(path@);
    proof {
        assert(whole.skip(0) =~= whole);
    }
    let mut cur: &'a Value = value;
    let n = path.len();
    for i in 0..n
        invariant
            n == path@.len(),
            whole == crate::bindings::steps_view(path@),
            whole.len() == n,
            cur@.wf(),
            spec_resolve(value@, whole) == spec_resolve(cur@, whole.skip(i as int)),
    {
        let ghost rest = whole.skip(i as int);
        proof {
            assert(rest[0] == whole[i as int]);
            assert(rest.drop_first() =~= whole.skip(i + 1));
            assert(whole[i as int] == path@[i as int]@);
        }
        match (&path[i], cur) {
            (PathStep::Index(k), Value::Array(vs)) => {
                let ghost svs = cur@->Arr_0;
                if *k < vs.len() {
                    proof {
                        assert(svs[*k as int] == crate::value::value_view(vs@[*k as int]));
                        assert(step_into(cur@, rest[0]) == Some(svs[*k as int]));
                        assert(svs[*k as int].wf());
                    }
                    cur = &vs[*k];
                } else {
                    proof {
                        assert(step_into(cur@, rest[0]) is None);
                    }
                    return None;
                }
            },
            (PathStep::Field(f), Value::Object(fs)) => {
                let ghost gfs = obj_fields_view(fs@);
                match object_get(fs, f) {
                    Some(sub) => {
                        proof {
                            let k = f@;
                            assert(step_into(cur@, rest[0]) == Some(key_lookup(gfs, k)));
                            let j = choose|j: int| 0 <= j < gfs.len() && gfs[j].0 == k;
                            assert(gfs[j].1.wf());
                            lemma_key_lookup_unique(gfs, k, j);
                        }
                        cur = sub;
                    },
                    None => {
                        proof {
                            assert(step_into(cur@, rest[0]) is None);
                        }
                        return None;
                    },
                }
            },
            _ => {
                proof {
                    assert(step_into(cur@, rest[0]) is None);
                }
                return None;
            },
        }
    }
    proof {
        assert(whole.skip(n as int) =~= Seq::<SStep>::empty());
    }
    Some(cur)
}

/// A sub-value converted to the scalar or array-of-scalar type a binding
/// requested.
#[derive(Debug, Clone, PartialEq, Eq)]
pub enum Extracted {
    /// A signed 64-bit integer, from a number with an integral
    /// interpretation.
    Int(i64),
    /// An owned string, from a JSON string.
    Text(String),
    /// A boolean, from a JSON boolean.
    Bool(bool),
    /// The integral interpretations of an array of numbers.
    IntList(Vec<i64>),
    /// The strings of an array of JSON strings.
    TextList(Vec<String>),
    /// The booleans of an array of JSON booleans.
    BoolList(Vec<bool>),
}

/// The mathematical image of an [`Extracted`] value.
pub enum SExtracted {
    /// Image of `Extracted::Int`.
    Int(int),
    /// Image of `Extracted::Text`.
    Text(Seq<char>),
    /// Image of `Extracted::Bool`.
    Bool(bool),
    /// Image of `Extracted::IntList`.
    IntList(Seq<int>),
    /// Image of `Extracted::TextList`.
    TextList(Seq<Seq<char>>),
    /// Image of `Extracted::BoolList`.
    BoolList(Seq<bool>),
}

impl View for Extracted {
    type V = SExtracted;

    open spec fn view(&self) -> SExtracted {
        match self {
            Extracted::Int(n) => SExtracted::Int(*n as int),
            Extracted::Text(s) => SExtracted::Text(s@),
            Extracted::Bool(b) => SExtracted::Bool(*b),
            Extracted::IntList(ns) => SExtracted::IntList(
                Seq::new(ns@.len(), |i: int| ns@[i] as int),
            ),
            Extracted::TextList(ss) => SExtracted::TextList(
                Seq::new(ss@.len(), |i: int| ss@[i]@),
            ),
            Extracted::BoolList(bs) => SExtracted::BoolList(Seq::new(bs@.len(), |i: int| bs@[i])),
        }
    }
}

/// The conversion of a value to one scalar type, where the value admits it.
pub open spec fn spec_scalar(v: SValue, sc: Scalar) -> Option<SExtracted> {
    match (sc, v) {
        (Scalar::Int, SValue::Int(n)) => Some(SExtracted::Int(n)),
        (Scalar::Text, SValue::Text(s)) => Some(SExtracted::Text(s)),
        (Scalar::Bool, SValue::Bool(b)) => Some(SExtracted::Bool(b)),
        _ => None,
    }
}

/// The conversion of a value to a requested binding type, where the value
/// admits it: a scalar from the matching scalar value, an array of one scalar
/// type from an array all of whose elements admit that scalar conversion.
pub open spec fn spec_convert(v: SValue, ty: BindTy) -> Option<SExtracted> {
    match ty {
        BindTy::Scalar(sc) => spec_scalar(v, sc),
        BindTy::List(sc) => match v {
            SValue::Arr(vs) => if forall|i: int|
                #![trigger vs[i]]
                0 <= i < vs.len() ==> spec_scalar(vs[i], sc) is Some {
                Some(
                    match sc {
                        Scalar::Int => SExtracted::IntList(
                            Seq::new(vs.len(), |i: int| vs[i]->Int_0),
                        ),
                        Scalar::Text => SExtracted::TextList(
                            Seq::new(vs.len(), |i: int| vs[i]->Text_0),
                        ),
                        Scalar::Bool => SExtracted::BoolList(
                            Seq::new(vs.len(), |i: int| vs[i]->Bool_0),
                        ),
                    },
                )
            } else {
                None
            },
            _ => None,
        },
    }
}

/// Converts a value to a requested binding type, exactly where the
/// mathematical conversion is defined.
pub fn convert(value: &Value, ty: BindTy) -> (r: Option<Extracted>)
    ensures
        match r {
            Some(e) => spec_convert(value@, ty) == Some(e@),
            None => spec_convert(value@, ty) is None,
        },
{
    match ty {
        BindTy::Scalar(sc) => match (sc, value) {
            (Scalar::Int, Value::Number(crate::value::Number::Integral(n))) => Some(
                Extracted::Int(*n),
            ),
            (Scalar::Text, Value::Text(s)) => Some(Extracted::Text(s.clone())),
            (Scalar::Bool, Value::Bool(b)) => Some(Extracted::Bool(*b)),
            _ => None,
        },
        BindTy::List(sc) => match value {
            Value::Array(vs) => {
                let ghost svs = value@->Arr_0;
                let n = vs.len();
                match sc {
                    Scalar::Int => {
                        let mut out: Vec<i64> = Vec::new();
                        for i in 0..n
                            invariant
                                n == vs@.len(),
                                svs == value@->Arr_0,
                                value matches Value::Array(vsx) && vsx@ == vs@,
                                ty == BindTy::List(Scalar::Int),
                                svs.len() == n,
                                out@.len() == i,
                                forall|j: int| #![trigger svs[j]] 0 <= j < i ==> svs[j] is Int,
                                forall|j: int|
                                    #![trigger out@[j]]
                                    0 <= j < i ==> out@[j] as int == svs[j]->Int_0,
                        {
                            proof {
                                assert(svs[i as int] == crate::value::value_view(vs@[i as int]));
                            }
                            match &vs[i] {
                                Value::Number(crate::value::Number::Integral(m)) => out.push(*m),
                                _ => {
                                    proof {
                                        assert(spec_scalar(svs[i as int], Scalar::Int) is None);
                                        assert(!(forall|j: int|
                                            #![trigger svs[j]]
                                            0 <= j < svs.len() ==> spec_scalar(
                                                svs[j],
                                                Scalar::Int,
                                            ) is Some));
                                        assert(spec_convert(value@, ty) is None);
                                    }
                                    return None;
                                },
                            }
                        }
                        let r = Extracted::IntList(out);
                        proof {
                            assert(spec_convert(value@, ty) == Some(r@)) by {
                                assert(r@->IntList_0 =~= Seq::new(
                                    svs.len(),
                                    |i: int| svs[i]->Int_0,
                                ));
                            }
                        }
                        Some(r)
                    },
                    Scalar::Text => {
                        let mut out: Vec<String> = Vec::new();
                        for i in 0..n
                            invariant
                                n == vs@.len(),
                                svs == value@->Arr_0,
                                value matches Value::Array(vsx) && vsx@ == vs@,
                                ty == BindTy::List(Scalar::Text),
                                svs.len() == n,
                                out@.len() == i,
                                forall|j: int| #![trigger svs[j]] 0 <= j < i ==> svs[j] is Text,
                                forall|j: int|
                                    #![trigger out@[j]]
                                    0 <= j < i ==> out@[j]@ == svs[j]->Text_0,
                        {
                            proof {
                                assert(svs[i as int] == crate::value::value_view(vs@[i as int]));
                            }
                            match &vs[i] {
                                Value::Text(s) => out.push(s.clone()),
                                _ => {
                                    proof {
                                        assert(spec_scalar(svs[i as int], Scalar::Text) is None);
                                        assert(!(forall|j: int|
                                            #![trigger svs[j]]
                                            0 <= j < svs.len() ==> spec_scalar(
                                                svs[j],
                                                Scalar::Text,
                                            ) is Some));
                                        assert(spec_convert(value@, ty) is None);
                                    }
                                    return None;
                                },
                            }
                        }
                        let r = Extracted::TextList(out);
                        proof {
                            assert(spec_convert(value@, ty) == Some(r@)) by {
                                assert(r@->TextList_0 =~= Seq::new(
                                    svs.len(),
                                    |i: int| svs[i]->Text_0,
                                ));
                            }
                        }
                        Some(r)
                    },
                    Scalar::Bool => {
                        let mut out: Vec<bool> = Vec::new();
                        for i in 0..n
                            invariant
                                n == vs@.len(),
                                svs == value@->Arr_0,
                                value matches Value::Array(vsx) && vsx@ == vs@,
                                ty == BindTy::List(Scalar::Bool),
                                svs.len() == n,
                                out@.len() == i,
                                forall|j: int| #![trigger svs[j]] 0 <= j < i ==> svs[j] is Bool,
                                forall|j: int|
                                    #![trigger out@[j]]
                                    0 <= j < i ==> out@[j] == svs[j]->Bool_0,
                        {
                            proof {
                                assert(svs[i as int] == crate::value::value_view(vs@[i as int]));
                            }
                            match &vs[i] {
                                Value::Bool(b) => out.push(*b),
                                _ => {
                                    proof {
                                        assert(spec_scalar(svs[i as int], Scalar::Bool) is None);
                                        assert(!(forall|j: int|
                                            #![trigger svs[j]]
                                            0 <= j < svs.len() ==> spec_scalar(
                                                svs[j],
                                                Scalar::Bool,
                                            ) is Some));
                                        assert(spec_convert(value@, ty) is None);
                                    }
                                    return None;
                                },
                            }
                        }
                        let r = Extracted::BoolList(out);
                        proof {
                            assert(spec_convert(value@, ty) == Some(r@)) by {
                                assert(r@->BoolList_0 =~= Seq::new(
                                    svs.len(),
                                    |i: int| svs[i]->Bool_0,
                                ));
                            }
                        }
                        Some(r)
                    },
                }
            },
            _ => None,
        },
    }
}

/// A member of a concatenation is a member of one of its parts.
proof fn lemma_concat_member(a: Seq<SBinding>, b: Seq<SBinding>, x: SBinding)
    requires
        (a + b).contains(x),
    ensures
        a.contains(x) || b.contains(x),
{
    let i = choose|i: int| 0 <= i < (a + b).len() && (a + b)[i] == x;
    if i < a.len() {
        assert(a[i] == x);
    } else {
        assert(b[i - a.len()] == x);
    }
}

/// Bindings of the first `n` element patterns of a matched array all have
/// resolving paths.
proof fn lemma_arr_bindings_resolve(
    root: SValue,
    vs: Seq<SValue>,
    ps: Seq<SPattern>,
    at: Seq<SStep>,
    n: int,
)
    requires
        spec_resolve(root, at) == Some(SValue::Arr(vs)),
        vs.len() == ps.len(),
        forall|i: int| #![trigger ps[i]] 0 <= i < ps.len() ==> spec_matches(vs[i], ps[i]),
        0 <= n <= ps.len(),
    ensures
        forall|b: SBinding| #[trigger]
            arr_bindings_upto(ps, at, n).contains(b) ==> spec_resolve(root, b.path) is Some,
    decreases ps, 1int, n,
{
    if n > 0 {
        lemma_arr_bindings_resolve(root, vs, ps, at, n - 1);
        let at2 = at.push(SStep::Index(n - 1));
        lemma_resolve_snoc(root, at, SStep::Index(n - 1));
        assert(step_into(SValue::Arr(vs), SStep::Index(n - 1)) == Some(vs[n - 1]));
        lemma_bindings_resolve_at(root, vs[n - 1], ps[n - 1], at2);
        assert forall|b: SBinding| #[trigger]
            arr_bindings_upto(ps, at, n).contains(b) implies spec_resolve(root, b.path) is Some by {
            lemma_concat_member(arr_bindings_upto(ps, at, n - 1), spec_bindings(ps[n - 1], at2), b);
        }
    }
}

/// Bindings of the first `n` field patterns of a matched object all have
/// resolving paths.
proof fn lemma_obj_bindings_resolve(
    root: SValue,
    vfs: Seq<(Seq<char>, SValue)>,
    pfs: Seq<(Seq<char>, SPattern)>,
    at: Seq<SStep>,
    n: int,
)
    requires
        spec_resolve(root, at) == Some(SValue::Obj(vfs)),
        forall|i: int| #![trigger pfs[i]] 0 <= i < pfs.len() ==> has_key(vfs, pfs[i].0),
        forall|i: int| #![trigger pfs[i]] 0 <= i < pfs.len() ==> spec_matches(
            key_lookup(vfs, pfs[i].0),
            pfs[i].1,
        ),
        0 <= n <= pfs.len(),
    ensures
        forall|b: SBinding| #[trigger]
            obj_bindings_upto(pfs, at, n).contains(b) ==> spec_resolve(root, b.path) is Some,
    decreases pfs, 1int, n,
{
    if n > 0 {
        lemma_obj_bindings_resolve(root, vfs, pfs, at, n - 1);
        let k = pfs[n - 1].0;
        let at2 = at.push(SStep::Field(k));
        lemma_resolve_snoc(root, at, SStep::Field(k));
        assert(step_into(SValue::Obj(vfs), SStep::Field(k)) == Some(key_lookup(vfs, k)));
        lemma_bindings_resolve_at(root, key_lookup(vfs, k), pfs[n - 1].1, at2);
        assert forall|b: SBinding| #[trigger]
            obj_bindings_upto(pfs, at, n).contains(b) implies spec_resolve(root, b.path) is Some by {
            lemma_concat_member(obj_bindings_upto(pfs, at, n - 1), spec_bindings(pfs[n - 1].1, at2), b);
        }
    }
}

/// Bindings of a matched sub-pattern, reached by `at` inside the root value,
/// all have resolving paths.
proof fn lemma_bindings_resolve_at(root: SValue, v: SValue, p: SPattern, at: Seq<SStep>)
    requires
        spec_resolve(root, at) == Some(v),
        spec_matches(v, p),
    ensures
        forall|b: SBinding| #[trigger]
            spec_bindings(p, at).contains(b) ==> spec_resolve(root, b.path) is Some,
    decreases p, 0int, 0int,
{
    broadcast use crate::matcher::lemma_matches_arr, crate::matcher::lemma_matches_obj;

    match p {
        SPattern::Binding(name, ty) => {
            let bs = spec_bindings(p, at);
            assert(bs == seq![SBinding { name, path: at, ty }]);
            assert forall|b: SBinding| #[trigger]
                bs.contains(b) implies spec_resolve(root, b.path) is Some by {
                let i = choose|i: int| 0 <= i < bs.len() && bs[i] == b;
                assert(bs[0] == SBinding { name, path: at, ty });
                assert(i == 0);
                assert(b.path == at);
            }
            assert(forall|b: SBinding| #[trigger]
                spec_bindings(p, at).contains(b) ==> spec_resolve(root, b.path) is Some);
        },
        SPattern::Arr(ps) => {
            let vs = v->Arr_0;
            assert(v == SValue::Arr(vs));
            lemma_arr_bindings_resolve(root, vs, ps, at, ps.len() as int);
            assert(spec_bindings(p, at) == arr_bindings_upto(ps, at, ps.len() as int));
            assert forall|b: SBinding| #[trigger]
                spec_bindings(p, at).contains(b) implies spec_resolve(root, b.path) is Some by {
                assert(arr_bindings_upto(ps, at, ps.len() as int).contains(b));
            }
        },
        SPattern::Obj(pfs) => {
            let vfs = v->Obj_0;
            assert(v == SValue::Obj(vfs));
            lemma_obj_bindings_resolve(root, vfs, pfs, at, pfs.len() as int);
            assert(spec_bindings(p, at) == obj_bindings_upto(pfs, at, pfs.len() as int));
            assert forall|b: SBinding| #[trigger]
                spec_bindings(p, at).contains(b) implies spec_resolve(root, b.path) is Some by {
                assert(obj_bindings_upto(pfs, at, pfs.len() as int).contains(b));
            }
        },
        _ => {
            assert(spec_bindings(p, at) =~= Seq::<SBinding>::empty());
            assert(forall|b: SBinding| #[trigger]
                spec_bindings(p, at).contains(b) ==> spec_resolve(root, b.path) is Some);
        },
    }
}

/// The core correctness invariant of the matcher/extractor pair: every
/// binding's extraction path, replayed against a value that structurally
/// matches the pattern the binding was derived from, resolves to a sub-value
/// — never to nothing.
pub proof fn lemma_match_implies_paths_resolve(v: SValue, p: SPattern, bs: Seq<SBinding>)
    requires
        spec_matches(v, p),
        bs == spec_bindings(p, Seq::empty()),
    ensures
        forall|i: int| 0 <= i < bs.len() ==> spec_resolve(v, (#[trigger] bs[i]).path) is Some,
{
    lemma_bindings_resolve_at(v, v, p, Seq::empty());
    assert forall|i: int| 0 <= i < bs.len() implies spec_resolve(
        v,
        (#[trigger] bs[i]).path,
    ) is Some by {
        assert(spec_bindings(p, Seq::empty()).contains(bs[i]));
    }
}

/// A conversion failure: the sub-value bound to `name` structurally matched,
/// but does not admit the conversion the binding requested.
#[derive(Debug, Clone, PartialEq, Eq)]
pub struct ConversionError {
    /// The binding whose sub-value could not be converted.
    pub name: String,
}

impl ConversionError {
    /// The human-readable description of this failure.
    pub open spec fn spec_message(&self) -> Seq<char> {
        "Failed to convert binding `"@ + self.name@ + "` to its requested type"@
    }

    /// Renders the human-readable description of this failure.
    pub fn describe(&self) -> (r: String)
        ensures
            r@ == self.spec_message(),
    {
        let mut s = String::from_str("Failed to convert binding `");
        s.append(self.name.as_str());
        s.append("` to its requested type");
        s
    }
}

/// Whether a binding is ready for extraction against a value: its path
/// resolves and it carries a requested type.
pub open spec fn binding_ready(v: SValue, b: SBinding) -> bool {
    spec_resolve(v, b.path) is Some && b.ty is Some
}

/// The converted sub-value a ready binding extracts from a value, if the
/// conversion is admitted.
pub open spec fn binding_output(v: SValue, b: SBinding) -> Option<SExtracted> {
    spec_convert(spec_resolve(v, b.path)->Some_0, b.ty->Some_0)
}

/// What extraction produces: the ordered name-to-typed-value pairs, or the
/// first conversion failure.
pub type ExtractOutcome = Result<Vec<(String, Extracted)>, ConversionError>;

/// Whether `out` is the extraction of the ready bindings `bs` from `v`: the
/// same length, each pair carrying the binding's name and the conversion of
/// the sub-value its path reaches, in the bindings' order.
pub open spec fn extraction_of(v: SValue, bs: Seq<SBinding>, out: Seq<(String, Extracted)>) -> bool {
    &&& out.len() == bs.len()
    &&& forall|i: int|
        0 <= i < out.len() ==> (#[trigger] out[i]).0@ == bs[i].name && Some(out[i].1@)
            == binding_output(v, bs[i])
}

/// Whether `e` reports the first binding of `bs` whose sub-value in `v` does
/// not admit its requested conversion.
pub open spec fn extraction_fails_at(v: SValue, bs: Seq<SBinding>, e: ConversionError) -> bool {
    exists|i: int|
        0 <= i < bs.len() && binding_output(v, #[trigger] bs[i]) is None && e.name@ == bs[i].name
            && (forall|j: int| 0 <= j < i ==> binding_output(v, #[trigger] bs[j]) is Some)
}

/// Resolves and converts each binding of a compiled, typed binding list, in
/// the list's order, producing the ordered name-to-typed-value pairs.
///
/// Callers must have confirmed the structural match first, so that every path
/// resolves (see [`lemma_match_implies_paths_resolve`]); a binding must carry
/// its requested type. Fails at the first binding whose sub-value does not
/// admit the requested conversion.
#[verifier::rlimit(50)]
pub fn extract_bindings(value: &Value, bindings: &Vec<Binding>) -> (r: ExtractOutcome)
    requires
        value@.wf(),
        forall|i: int| 0 <= i < bindings@.len() ==> binding_ready(value@, #[trigger] bindings@[i]@),
    ensures
        r matches Ok(out) ==> extraction_of(value@, bindings_view(bindings@), out@),
        r matches Err(e) ==> extraction_fails_at(value@, bindings_view(bindings@), e),
{
    let ghost bs = bindings_view(bindings@);
    let mut out: Vec<(String, Extracted)> = Vec::new();
    let n = bindings.len();
    for i in 0..n
        invariant
            n == bindings@.len(),
            bs == bindings_view(bindings@),
            bs.len() == n,
            value@.wf(),
            forall|k: int| 0 <= k < n ==> binding_ready(value@, #[trigger] bindings@[k]@),
            out@.len() == i,
            forall|j: int|
                0 <= j < i ==> (#[trigger] out@[j]).0@ == bs[j].name && Some(out@[j].1@)
                    == binding_output(value@, bs[j]),
    {
        proof {
            assert(bs[i as int] == bindings@[i as int]@);
        }
        let b = &bindings[i];
        let sub = match resolve(value, &b.path) {
            Some(sub) => sub,
            None => vstd::pervasive::unreached(),
        };
        let ty = match &b.ty {
            Some(ty) => *ty,
            None => vstd::pervasive::unreached(),
        };
        match convert(sub, ty) {
            Some(e) => {
                out.push((b.name.clone(), e));
            },
            None => {
                let err = ConversionError { name: b.name.clone() };
                proof {
                    assert(binding_output(value@, bs[i as int]) is None);
                    assert forall|j: int| 0 <= j < i implies binding_output(
                        value@,
                        bs[j],
                    ) is Some by {
                        assert(Some(out@[j].1@) == binding_output(value@, bs[j]));
                    }
                    assert(extraction_fails_at(value@, bs, err));
                }
                return Err(err);
            },
        }
    }
    Ok(out)
}

} // verus!
