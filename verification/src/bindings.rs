//! Compilation of a pattern into its list of binding extraction paths.
//!
//! A [`Binding`] names a position inside a pattern: the name bound there, the
//! extraction path from the value root to that position, and the type the
//! pattern requested for it, if any. [`compile_bindings`] lists the bindings
//! of a pattern in pre-order — left to right, depth first, object fields in
//! declaration order — which fixes the order bindings are later extracted in.

use vstd::prelude::*;

use crate::pattern::{pat_fields_view, pattern_view, BindTy, Pattern, SPattern};

verus! {

/// One descent step of an extraction path.
#[derive(Debug, PartialEq, Eq)]
pub enum PathStep {
    /// Descend into the array element at an index.
    Index(usize),
    /// Descend into the object field of a name.
    Field(String),
}

/// The mathematical image of a [`PathStep`].
pub enum SStep {
    /// Image of `PathStep::Index`.
    Index(int),
    /// Image of `PathStep::Field`.
    Field(Seq<char>),
}

impl View for PathStep {
    type V = SStep;

    open spec fn view(&self) -> SStep {
        match self {
            PathStep::Index(i) => SStep::Index(*i as int),
            PathStep::Field(f) => SStep::Field(f@),
        }
    }
}

/// The mathematical image of an extraction path.
pub open spec fn steps_view(ps: Seq<PathStep>) -> Seq<SStep> {
    Seq::new(ps.len(), |i: int| ps[i]@)
}

/// A named, typed extraction point declared inside a pattern.
#[derive(Debug, PartialEq, Eq)]
pub struct Binding {
    /// The name the sub-value is bound to.
    pub name: String,
    /// The descent steps from the value root to the bound sub-value.
    pub path: Vec<PathStep>,
    /// The type the pattern requested with `as`, if it gave one.
    pub ty: Option<BindTy>,
}

/// The mathematical image of a [`Binding`].
pub struct SBinding {
    /// Image of the name.
    pub name: Seq<char>,
    /// Image of the extraction path.
    pub path: Seq<SStep>,
    /// The requested type, if the pattern gave one.
    pub ty: Option<BindTy>,
}

impl View for Binding {
    type V = SBinding;

    open spec fn view(&self) -> SBinding {
        SBinding { name: self.name@, path: steps_view(self.path@), ty: self.ty }
    }
}

/// The mathematical image of a binding list.
pub open spec fn bindings_view(bs: Seq<Binding>) -> Seq<SBinding> {
    Seq::new(bs.len(), |i: int| bs[i]@)
}

/// The bindings of a pattern whose position is reached by the path `at`, in
/// pre-order.
pub open spec fn spec_bindings(p: SPattern, at: Seq<SStep>) -> Seq<SBinding>
    decreases p, 0int, 0int,
{
    match p {
        SPattern::Binding(name, ty) => seq![SBinding { name, path: at, ty }],
        SPattern::Arr(ps) => arr_bindings_upto(ps, at, ps.len() as int),
        SPattern::Obj(pfs) => obj_bindings_upto(pfs, at, pfs.len() as int),
        _ => Seq::empty(),
    }
}

/// The bindings of the first `n` element patterns of an array pattern at
/// `at`, concatenated in order.
pub open spec fn arr_bindings_upto(ps: Seq<SPattern>, at: Seq<SStep>, n: int) -> Seq<SBinding>
    decreases ps, 1int, n,
{
    if n <= 0 || ps.len() < n {
        Seq::empty()
    } else {
        arr_bindings_upto(ps, at, n - 1) + spec_bindings(ps[n - 1], at.push(SStep::Index(n - 1)))
    }
}

/// The bindings of the first `n` field patterns of an object pattern at `at`,
/// concatenated in declaration order.
pub open spec fn obj_bindings_upto(
    pfs: Seq<(Seq<char>, SPattern)>,
    at: Seq<SStep>,
    n: int,
) -> Seq<SBinding>
    decreases pfs, 1int, n,
{
    if n <= 0 || pfs.len() < n {
        Seq::empty()
    } else {
        obj_bindings_upto(pfs, at, n - 1) + spec_bindings(
            pfs[n - 1].1,
            at.push(SStep::Field(pfs[n - 1].0)),
        )
    }
}

/// Copies an extraction path.
pub(crate) fn path_snapshot(at: &Vec<PathStep>) -> (r: Vec<PathStep>)
    ensures
        steps_view(r@) == steps_view(at@),
{
    let mut r: Vec<PathStep> = Vec::new();
    let n = at.len();
    for i in 0..n
        invariant
            n == at@.len(),
            r@.len() == i,
            forall|j: int| #![trigger r@[j]] 0 <= j < i ==> r@[j]@ == at@[j]@,
    {
        match &at[i] {
            PathStep::Index(k) => r.push(PathStep::Index(*k)),
            PathStep::Field(f) => r.push(PathStep::Field(f.clone())),
        }
    }
    assert(steps_view(r@) =~= steps_view(at@));
    r
}

/// Appends the bindings of `p`, reached by the path `at`, to `out`, in
/// pre-order.
fn collect_bindings(p: &Pattern, at: &Vec<PathStep>, out: &mut Vec<Binding>)
    ensures
        bindings_view(final(out)@) == bindings_view(old(out)@) + spec_bindings(
            pattern_view(*p),
            steps_view(at@),
        ),
    decreases *p,
{
    let ghost sat = steps_view(at@);
    match p {
        Pattern::Any => {
            assert(bindings_view(out@) =~= bindings_view(out@) + Seq::<SBinding>::empty());
        },
        Pattern::Integer(_) => {
            assert(bindings_view(out@) =~= bindings_view(out@) + Seq::<SBinding>::empty());
        },
        Pattern::Text(_) => {
            assert(bindings_view(out@) =~= bindings_view(out@) + Seq::<SBinding>::empty());
        },
        Pattern::Binding(name, ty) => {
            let path = path_snapshot(at);
            out.push(Binding { name: name.clone(), path, ty: *ty });
            assert(bindings_view(out@) =~= bindings_view(old(out)@) + seq![
                SBinding { name: name@, path: sat, ty: *ty },
            ]);
        },
        Pattern::Array(ps) => {
            let ghost sps = pattern_view(*p)->Arr_0;
            let n = ps.len();
            for i in 0..n
                invariant
                    n == ps@.len(),
                    sps == pattern_view(*p)->Arr_0,
                    p matches Pattern::Array(psx) && psx@ == ps@,
                    sps.len() == n,
                    sat == steps_view(at@),
                    bindings_view(out@) == bindings_view(old(out)@) + arr_bindings_upto(
                        sps,
                        sat,
                        i as int,
                    ),
            {
                let mut child_at = path_snapshot(at);
                child_at.push(PathStep::Index(i));
                proof {
                    assert(steps_view(child_at@) =~= sat.push(SStep::Index(i as int)));
                    assert(sps[i as int] == pattern_view(ps@[i as int]));
                }
                let ghost prev = bindings_view(out@);
                collect_bindings(&ps[i], &child_at, out);
                proof {
                    assert(bindings_view(out@) =~= bindings_view(old(out)@) + arr_bindings_upto(
                        sps,
                        sat,
                        i + 1,
                    ));
                }
            }
        },
        Pattern::Object(pfs) => {
            let ghost spfs = pat_fields_view(pfs@);
            proof {
                assert(pattern_view(*p) == SPattern::Obj(spfs));
            }
            let n = pfs.len();
            for i in 0..n
                invariant
                    n == pfs@.len(),
                    spfs == pat_fields_view(pfs@),
                    pattern_view(*p) == SPattern::Obj(spfs),
                    p matches Pattern::Object(pfsx) && pfsx@ == pfs@,
                    spfs.len() == n,
                    sat == steps_view(at@),
                    bindings_view(out@) == bindings_view(old(out)@) + obj_bindings_upto(
                        spfs,
                        sat,
                        i as int,
                    ),
            {
                let mut child_at = path_snapshot(at);
                child_at.push(PathStep::Field(pfs[i].0.clone()));
                proof {
                    assert(spfs[i as int].0 == pfs@[i as int].0@);
                    assert(steps_view(child_at@) =~= sat.push(
                        SStep::Field(spfs[i as int].0),
                    ));
                    assert(spfs[i as int].1 == pattern_view(pfs@[i as int].1));
                }
                let ghost prev = bindings_view(out@);
                collect_bindings(&pfs[i].1, &child_at, out);
                proof {
                    assert(bindings_view(out@) =~= bindings_view(old(out)@) + obj_bindings_upto(
                        spfs,
                        sat,
                        i + 1,
                    ));
                }
            }
        },
    }
}

/// Lists the bindings of a pattern in pre-order: left to right, depth first,
/// object fields in declaration order. A wildcard produces no binding.
pub fn compile_bindings(p: &Pattern) -> (r: Vec<Binding>)
    ensures
        bindings_view(r@) == spec_bindings(p@, Seq::empty()),
{
    let mut out: Vec<Binding> = Vec::new();
    let at: Vec<PathStep> = Vec::new();
    proof {
        assert(steps_view(at@) =~= Seq::<SStep>::empty());
        assert(bindings_view(out@) =~= Seq::<SBinding>::empty());
    }
    collect_bindings(p, &at, &mut out);
    proof {
        assert(bindings_view(out@) =~= spec_bindings(p@, Seq::empty()));
    }
    out
}

} // verus!
