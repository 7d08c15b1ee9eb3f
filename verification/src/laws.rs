//! General laws of the matcher and the compiler.
//!
//! The binding compiler derives a matching pattern by degrading bindings to
//! wildcards ([`strip`]); [`lemma_strip_preserves_matches`] shows that this
//! changes no match: a binding never constrains structure, it only captures
//! it. [`lemma_shape_matches`] shows round-trip exhaustiveness: every pattern
//! built from a value's own shape — its literals kept or replaced by
//! wildcards — matches that value.

use vstd::prelude::*;

use crate::bindings::SBinding;
use crate::extract::{extraction_of, Extracted};
use crate::matcher::{lemma_matches_arr, lemma_matches_obj, spec_matches};
use crate::pattern::{pat_fields_view, pattern_view, Pattern, SPattern};
use crate::value::{has_key, key_lookup, SValue};

verus! {

/// The pattern with every binding degraded to a wildcard: the derived
/// matching pattern of the binding compiler.
pub open spec fn spec_strip(p: SPattern) -> SPattern
    decreases p,
{
    match p {
        SPattern::Any => SPattern::Any,
        SPattern::Integer(n) => SPattern::Integer(n),
        SPattern::Text(s) => SPattern::Text(s),
        SPattern::Arr(ps) => SPattern::Arr(
            Seq::new(
                ps.len(),
                |i: int|
                    if 0 <= i < ps.len() {
                        spec_strip(ps[i])
                    } else {
                        SPattern::Any
                    },
            ),
        ),
        SPattern::Obj(pfs) => SPattern::Obj(
            Seq::new(
                pfs.len(),
                |i: int|
                    if 0 <= i < pfs.len() {
                        (pfs[i].0, spec_strip(pfs[i].1))
                    } else {
                        (Seq::empty(), SPattern::Any)
                    },
            ),
        ),
        SPattern::Binding(_, _) => SPattern::Any,
    }
}

/// Stripping bindings changes no match: a binding never constrains
/// structure, it only captures it.
pub proof fn lemma_strip_preserves_matches(v: SValue, p: SPattern)
    ensures
        spec_matches(v, spec_strip(p)) == spec_matches(v, p),
    decreases p,
{
    match p {
        SPattern::Arr(ps) => {
            let sps = spec_strip(p)->Arr_0;
            assert(sps.len() == ps.len());
            match v {
                SValue::Arr(vs) => {
                    lemma_matches_arr(vs, ps);
                    lemma_matches_arr(vs, sps);
                    assert forall|i: int| 0 <= i < ps.len() implies spec_matches(
                        vs[i],
                        #[trigger] ps[i],
                    ) == spec_matches(vs[i], sps[i]) by {
                        lemma_strip_preserves_matches(vs[i], ps[i]);
                    }
                    assert forall|i: int| 0 <= i < sps.len() implies spec_matches(
                        vs[i],
                        #[trigger] sps[i],
                    ) == spec_matches(vs[i], ps[i]) by {
                        assert(spec_matches(vs[i], ps[i]) == spec_matches(vs[i], sps[i]));
                    }
                },
                _ => {},
            }
        },
        SPattern::Obj(pfs) => {
            let spfs = spec_strip(p)->Obj_0;
            assert(spfs.len() == pfs.len());
            assert(forall|i: int|
                0 <= i < pfs.len() ==> (#[trigger] spfs[i]).0 == pfs[i].0 && spfs[i].1
                    == spec_strip(pfs[i].1));
            match v {
                SValue::Obj(vfs) => {
                    lemma_matches_obj(vfs, pfs);
                    lemma_matches_obj(vfs, spfs);
                    assert forall|k: Seq<char>| has_key(spfs, k) == #[trigger] has_key(
                        pfs,
                        k,
                    ) by {
                        if has_key(spfs, k) {
                            let i = choose|i: int| 0 <= i < spfs.len() && spfs[i].0 == k;
                            assert(pfs[i].0 == k);
                        }
                        if has_key(pfs, k) {
                            let i = choose|i: int| 0 <= i < pfs.len() && pfs[i].0 == k;
                            assert(spfs[i].0 == k);
                        }
                    }
                    assert forall|i: int| 0 <= i < pfs.len() implies spec_matches(
                        key_lookup(vfs, (#[trigger] pfs[i]).0),
                        pfs[i].1,
                    ) == spec_matches(key_lookup(vfs, spfs[i].0), spfs[i].1) by {
                        lemma_strip_preserves_matches(key_lookup(vfs, pfs[i].0), pfs[i].1);
                    }
                    assert forall|i: int| 0 <= i < spfs.len() implies spec_matches(
                        key_lookup(vfs, (#[trigger] spfs[i]).0),
                        spfs[i].1,
                    ) == spec_matches(key_lookup(vfs, pfs[i].0), pfs[i].1) by {
                        assert(spfs[i].0 == pfs[i].0 && spfs[i].1 == spec_strip(pfs[i].1));
                    }
                },
                _ => {},
            }
        },
        _ => {},
    }
}

/// Derives the matching pattern of a pattern: every binding degraded to a
/// wildcard.
pub fn strip(p: &Pattern) -> (r: Pattern)
    ensures
        pattern_view(r) == spec_strip(pattern_view(*p)),
    decreases *p,
{
    match p {
        Pattern::Any => Pattern::Any,
        Pattern::Integer(n) => Pattern::Integer(*n),
        Pattern::Text(s) => Pattern::Text(s.clone()),
        Pattern::Binding(_, _) => Pattern::Any,
        Pattern::Array(ps) => {
            let ghost sps = pattern_view(*p)->Arr_0;
            let mut out: Vec<Pattern> = Vec::new();
            let n = ps.len();
            for i in 0..n
                invariant
                    n == ps@.len(),
                    sps == pattern_view(*p)->Arr_0,
                    p matches Pattern::Array(psx) && psx@ == ps@,
                    sps.len() == n,
                    out@.len() == i,
                    forall|j: int|
                        0 <= j < i ==> pattern_view(#[trigger] out@[j]) == spec_strip(sps[j]),
            {
                proof {
                    assert(sps[i as int] == pattern_view(ps@[i as int]));
                }
                let q = strip(&ps[i]);
                out.push(q);
            }
            let ghost gout = out@;
            let r = Pattern::Array(out);
            proof {
                assert(pattern_view(r) == spec_strip(pattern_view(*p))) by {
                    let lhs = pattern_view(r)->Arr_0;
                    let rhs = spec_strip(SPattern::Arr(sps))->Arr_0;
                    assert(r->Array_0@ == gout);
                    assert(lhs.len() == n && rhs.len() == n);
                    assert(forall|j: int|
                        0 <= j < n ==> #[trigger] rhs[j] == spec_strip(sps[j]));
                    assert forall|j: int| 0 <= j < n implies lhs[j] == rhs[j] by {
                        assert(pattern_view(#[trigger] gout[j]) == spec_strip(sps[j]));
                    }
                    assert(lhs =~= rhs);
                }
            }
            r
        },
        Pattern::Object(pfs) => {
            let ghost spfs = pat_fields_view(pfs@);
            proof {
                assert(pattern_view(*p) == SPattern::Obj(spfs));
            }
            let mut out: Vec<(String, Pattern)> = Vec::new();
            let n = pfs.len();
            for i in 0..n
                invariant
                    n == pfs@.len(),
                    spfs == pat_fields_view(pfs@),
                    pattern_view(*p) == SPattern::Obj(spfs),
                    p matches Pattern::Object(pfsx) && pfsx@ == pfs@,
                    spfs.len() == n,
                    out@.len() == i,
                    forall|j: int|
                        0 <= j < i ==> (#[trigger] out@[j]).0@ == spfs[j].0 && pattern_view(
                            out@[j].1,
                        ) == spec_strip(spfs[j].1),
            {
                proof {
                    assert(spfs[i as int].0 == pfs@[i as int].0@);
                    assert(spfs[i as int].1 == pattern_view(pfs@[i as int].1));
                }
                let q = strip(&pfs[i].1);
                out.push((pfs[i].0.clone(), q));
            }
            let ghost gout = out@;
            let r = Pattern::Object(out);
            proof {
                assert(pattern_view(r) == spec_strip(pattern_view(*p))) by {
                    let lhs = pat_fields_view(gout);
                    let rhs = spec_strip(SPattern::Obj(spfs))->Obj_0;
                    assert(pattern_view(r) == SPattern::Obj(lhs));
                    assert(lhs.len() == n && rhs.len() == n);
                    assert(forall|j: int|
                        0 <= j < n ==> (#[trigger] rhs[j]).0 == spfs[j].0 && rhs[j].1
                            == spec_strip(spfs[j].1));
                    assert forall|j: int| 0 <= j < n implies lhs[j] == rhs[j] by {
                        assert((#[trigger] gout[j]).0@ == spfs[j].0);
                        assert(pattern_view(gout[j].1) == spec_strip(spfs[j].1));
                    }
                    assert(lhs =~= rhs);
                }
            }
            r
        },
    }
}

/// Whether `p` is built from the shape of `v`: at each position it holds the
/// value's own literal or a wildcard; array patterns mirror the value's
/// length, object patterns the value's field names.
pub open spec fn built_from_shape(p: SPattern, v: SValue) -> bool
    decreases p, 0int, 0int,
{
    match p {
        SPattern::Any => true,
        SPattern::Integer(n) => v == SValue::Int(n),
        SPattern::Text(s) => v == SValue::Text(s),
        SPattern::Arr(ps) => match v {
            SValue::Arr(vs) => vs.len() == ps.len() && built_arr_upto(vs, ps, ps.len() as int),
            _ => false,
        },
        SPattern::Obj(pfs) => match v {
            SValue::Obj(vfs) => (forall|i: int|
                #![trigger vfs[i]]
                0 <= i < vfs.len() ==> has_key(pfs, vfs[i].0)) && (forall|i: int|
                #![trigger pfs[i]]
                0 <= i < pfs.len() ==> has_key(vfs, pfs[i].0)) && built_obj_upto(
                vfs,
                pfs,
                pfs.len() as int,
            ),
            _ => false,
        },
        SPattern::Binding(_, _) => false,
    }
}

/// Whether the first `n` element patterns are built from the matching
/// elements' shapes.
pub open spec fn built_arr_upto(vs: Seq<SValue>, ps: Seq<SPattern>, n: int) -> bool
    decreases ps, 1int, n,
{
    if n <= 0 || ps.len() < n {
        true
    } else {
        built_arr_upto(vs, ps, n - 1) && built_from_shape(ps[n - 1], vs[n - 1])
    }
}

/// Whether the first `n` field patterns are built from the shapes of the
/// values at their keys.
pub open spec fn built_obj_upto(
    vfs: Seq<(Seq<char>, SValue)>,
    pfs: Seq<(Seq<char>, SPattern)>,
    n: int,
) -> bool
    decreases pfs, 1int, n,
{
    if n <= 0 || pfs.len() < n {
        true
    } else {
        built_obj_upto(vfs, pfs, n - 1) && built_from_shape(
            pfs[n - 1].1,
            key_lookup(vfs, pfs[n - 1].0),
        )
    }
}

/// `built_arr_upto` says exactly that the first `n` positions are built from
/// the elements' shapes.
proof fn lemma_built_arr_upto(vs: Seq<SValue>, ps: Seq<SPattern>, n: int)
    requires
        0 <= n <= ps.len(),
    ensures
        built_arr_upto(vs, ps, n) <==> (forall|i: int| #![trigger ps[i]] 0 <= i < n
            ==> built_from_shape(ps[i], vs[i])),
    decreases n,
{
    if n > 0 {
        lemma_built_arr_upto(vs, ps, n - 1);
    }
}

/// `built_obj_upto` says exactly that the first `n` field patterns are built
/// from their values' shapes.
proof fn lemma_built_obj_upto(
    vfs: Seq<(Seq<char>, SValue)>,
    pfs: Seq<(Seq<char>, SPattern)>,
    n: int,
)
    requires
        0 <= n <= pfs.len(),
    ensures
        built_obj_upto(vfs, pfs, n) <==> (forall|i: int| #![trigger pfs[i]] 0 <= i < n
            ==> built_from_shape(pfs[i].1, key_lookup(vfs, pfs[i].0))),
    decreases n,
{
    if n > 0 {
        lemma_built_obj_upto(vfs, pfs, n - 1);
    }
}

/// Round-trip exhaustiveness: every pattern built from a value's own shape,
/// with any of its literals replaced by wildcards, matches that value.
pub proof fn lemma_shape_matches(v: SValue, p: SPattern)
    requires
        built_from_shape(p, v),
    ensures
        spec_matches(v, p),
    decreases p, 2int, 0int,
{
    match p {
        SPattern::Arr(ps) => {
            let vs = v->Arr_0;
            assert(v == SValue::Arr(vs));
            lemma_built_arr_upto(vs, ps, ps.len() as int);
            lemma_matches_arr(vs, ps);
            assert forall|i: int| 0 <= i < ps.len() implies spec_matches(
                vs[i],
                #[trigger] ps[i],
            ) by {
                lemma_shape_matches(vs[i], ps[i]);
            }
        },
        SPattern::Obj(pfs) => {
            let vfs = v->Obj_0;
            assert(v == SValue::Obj(vfs));
            lemma_built_obj_upto(vfs, pfs, pfs.len() as int);
            lemma_matches_obj(vfs, pfs);
            assert forall|i: int| 0 <= i < pfs.len() implies spec_matches(
                key_lookup(vfs, (#[trigger] pfs[i]).0),
                pfs[i].1,
            ) by {
                lemma_shape_matches(key_lookup(vfs, pfs[i].0), pfs[i].1);
            }
        },
        _ => {},
    }
}

/// Binding order is deterministic: extraction lists the bindings in the
/// pattern's pre-order, so two extractions over one binding list — from any
/// two values, however their objects store their fields — bind the same
/// names in the same order.
pub proof fn lemma_binding_order_deterministic(
    v1: SValue,
    v2: SValue,
    bs: Seq<SBinding>,
    out1: Seq<(String, Extracted)>,
    out2: Seq<(String, Extracted)>,
)
    requires
        extraction_of(v1, bs, out1),
        extraction_of(v2, bs, out2),
    ensures
        out1.len() == out2.len(),
        forall|i: int| 0 <= i < out1.len() ==> (#[trigger] out1[i]).0@ == out2[i].0@,
{
}

} // verus!
