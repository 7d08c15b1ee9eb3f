//! Structural matching of a value against a pattern.
//!
//! [`spec_matches`] is the mathematical definition of a structural match;
//! [`check_matches`] decides it, returning a descriptive
//! [`MatchError`] at the first structural violation, in traversal order:
//! array positions ascending, object fields in pattern declaration order
//! (after the value's own fields have been checked for pattern coverage).

use vstd::prelude::*;

use crate::pattern::{pat_fields_view, Pattern, SPattern};
use crate::value::{has_key, key_lookup, lemma_key_lookup_unique, obj_fields_view, object_get, Number, SValue, Value};

verus! {

broadcast use
    crate::value::lemma_wf_arr,
    crate::value::lemma_wf_obj,
;

/// The first structural violation found when a value disagrees with a
/// pattern.
#[derive(Debug, Clone, PartialEq, Eq)]
pub enum MatchError {
    /// The value's variant is not the one the pattern expects.
    TypeMismatch,
    /// The pattern is an integer literal but the number has no integral
    /// interpretation.
    NotAnInteger,
    /// The pattern is an integer literal and the number's integral
    /// interpretation differs from it.
    IntegerMismatch {
        /// The pattern's literal.
        expected: i64,
        /// The number's integral interpretation.
        found: i64,
    },
    /// The pattern is a string literal and the string differs from it.
    StringMismatch {
        /// The pattern's literal.
        expected: String,
        /// The value's string.
        found: String,
    },
    /// The pattern is an array of a different length than the value.
    LengthMismatch {
        /// The pattern's length.
        expected: usize,
        /// The value's length.
        found: usize,
    },
    /// The object holds a field that the pattern does not name.
    FieldNotInPattern {
        /// The field's name.
        field: String,
    },
    /// The pattern names a field that the object does not hold.
    FieldNotInValue {
        /// The field's name.
        field: String,
    },
}

/// The mathematical image of a [`MatchError`].
pub enum SMatchError {
    /// Image of `MatchError::TypeMismatch`.
    TypeMismatch,
    /// Image of `MatchError::NotAnInteger`.
    NotAnInteger,
    /// Image of `MatchError::IntegerMismatch`.
    IntegerMismatch {
        /// The pattern's literal.
        expected: int,
        /// The number's integral interpretation.
        found: int,
    },
    /// Image of `MatchError::StringMismatch`.
    StringMismatch {
        /// The pattern's literal.
        expected: Seq<char>,
        /// The value's string.
        found: Seq<char>,
    },
    /// Image of `MatchError::LengthMismatch`.
    LengthMismatch {
        /// The pattern's length.
        expected: int,
        /// The value's length.
        found: int,
    },
    /// Image of `MatchError::FieldNotInPattern`.
    FieldNotInPattern {
        /// The field's name.
        field: Seq<char>,
    },
    /// Image of `MatchError::FieldNotInValue`.
    FieldNotInValue {
        /// The field's name.
        field: Seq<char>,
    },
}

impl View for MatchError {
    type V = SMatchError;

    open spec fn view(&self) -> SMatchError {
        match self {
            MatchError::TypeMismatch => SMatchError::TypeMismatch,
            MatchError::NotAnInteger => SMatchError::NotAnInteger,
            MatchError::IntegerMismatch { expected, found } => SMatchError::IntegerMismatch {
                expected: *expected as int,
                found: *found as int,
            },
            MatchError::StringMismatch { expected, found } => SMatchError::StringMismatch {
                expected: expected@,
                found: found@,
            },
            MatchError::LengthMismatch { expected, found } => SMatchError::LengthMismatch {
                expected: *expected as int,
                found: *found as int,
            },
            MatchError::FieldNotInPattern { field } => SMatchError::FieldNotInPattern {
                field: field@,
            },
            MatchError::FieldNotInValue { field } => SMatchError::FieldNotInValue { field: field@ },
        }
    }
}

impl MatchError {
    /// The human-readable description of this failure.
    pub open spec fn spec_message(&self) -> Seq<char> {
        match self {
            MatchError::TypeMismatch => "Values don't have the same type"@,
            MatchError::NotAnInteger => "Failed to convert Number to i64"@,
            MatchError::IntegerMismatch { .. } => "Numbers don't have the same value"@,
            MatchError::StringMismatch { .. } => "Strings don't have the same value"@,
            MatchError::LengthMismatch { .. } => "Arrays don't have the same length"@,
            MatchError::FieldNotInPattern { field } => "Field `"@ + field@
                + "` is included in the object but not matched in the pattern"@,
            MatchError::FieldNotInValue { field } => "Field `"@ + field@
                + "` is matched in the pattern but not found in the JSON"@,
        }
    }

    /// Renders the human-readable description of this failure. The texts for
    /// literal and length mismatches carry no numbers; the expected and found
    /// values stand in the error's own fields, for an I/O layer to render.
    pub fn describe(&self) -> (r: String)
        ensures
            r@ == self.spec_message(),
    {
        match self {
            MatchError::TypeMismatch => String::from_str("Values don't have the same type"),
            MatchError::NotAnInteger => String::from_str("Failed to convert Number to i64"),
            MatchError::IntegerMismatch { .. } => String::from_str(
                "Numbers don't have the same value",
            ),
            MatchError::StringMismatch { .. } => String::from_str(
                "Strings don't have the same value",
            ),
            MatchError::LengthMismatch { .. } => String::from_str(
                "Arrays don't have the same length",
            ),
            MatchError::FieldNotInPattern { field } => {
                let mut s = String::from_str("Field `");
                s.append(field.as_str());
                s.append("` is included in the object but not matched in the pattern");
                s
            },
            MatchError::FieldNotInValue { field } => {
                let mut s = String::from_str("Field `");
                s.append(field.as_str());
                s.append("` is matched in the pattern but not found in the JSON");
                s
            },
        }
    }
}

/// Whether a value structurally matches a pattern.
///
/// `Any` and bindings accept everything; literals demand equality; an array
/// pattern demands an array of exactly the same length whose elements match
/// positionally; an object pattern demands an object whose field-name set is
/// exactly the pattern's, each field matching recursively.
pub open spec fn spec_matches(v: SValue, p: SPattern) -> bool
    decreases p, 0int, 0int,
{
    match p {
        SPattern::Any => true,
        SPattern::Binding(_, _) => true,
        SPattern::Integer(n) => v == SValue::Int(n),
        SPattern::Text(s) => v == SValue::Text(s),
        SPattern::Arr(ps) => match v {
            SValue::Arr(vs) => vs.len() == ps.len() && arr_matches_upto(
                vs,
                ps,
                ps.len() as int,
            ),
            _ => false,
        },
        SPattern::Obj(pfs) => match v {
            SValue::Obj(vfs) => (forall|i: int|
                #![trigger vfs[i]]
                0 <= i < vfs.len() ==> has_key(pfs, vfs[i].0)) && (forall|i: int|
                #![trigger pfs[i]]
                0 <= i < pfs.len() ==> has_key(vfs, pfs[i].0)) && obj_matches_upto(
                vfs,
                pfs,
                pfs.len() as int,
            ),
            _ => false,
        },
    }
}

/// Whether the first `n` array positions match, pairwise.
pub open spec fn arr_matches_upto(vs: Seq<SValue>, ps: Seq<SPattern>, n: int) -> bool
    decreases ps, 1int, n,
{
    if n <= 0 || ps.len() < n {
        true
    } else {
        arr_matches_upto(vs, ps, n - 1) && spec_matches(vs[n - 1], ps[n - 1])
    }
}

/// Whether the values at the first `n` pattern fields' keys match those
/// fields' patterns.
pub open spec fn obj_matches_upto(
    vfs: Seq<(Seq<char>, SValue)>,
    pfs: Seq<(Seq<char>, SPattern)>,
    n: int,
) -> bool
    decreases pfs, 1int, n,
{
    if n <= 0 || pfs.len() < n {
        true
    } else {
        obj_matches_upto(vfs, pfs, n - 1) && spec_matches(
            key_lookup(vfs, pfs[n - 1].0),
            pfs[n - 1].1,
        )
    }
}

/// `arr_matches_upto` says exactly that the first `n` positions match.
pub proof fn lemma_arr_matches_upto(vs: Seq<SValue>, ps: Seq<SPattern>, n: int)
    requires
        0 <= n <= ps.len(),
    ensures
        arr_matches_upto(vs, ps, n) <==> (forall|i: int| #![trigger ps[i]] 0 <= i < n
            ==> spec_matches(vs[i], ps[i])),
    decreases n,
{
    if n > 0 {
        lemma_arr_matches_upto(vs, ps, n - 1);
    }
}

/// `obj_matches_upto` says exactly that the first `n` pattern fields match.
pub proof fn lemma_obj_matches_upto(
    vfs: Seq<(Seq<char>, SValue)>,
    pfs: Seq<(Seq<char>, SPattern)>,
    n: int,
)
    requires
        0 <= n <= pfs.len(),
    ensures
        obj_matches_upto(vfs, pfs, n) <==> (forall|i: int| #![trigger pfs[i]] 0 <= i < n
            ==> spec_matches(key_lookup(vfs, pfs[i].0), pfs[i].1)),
    decreases n,
{
    if n > 0 {
        lemma_obj_matches_upto(vfs, pfs, n - 1);
    }
}

/// An array value matches an array pattern exactly when the lengths agree and
/// every position matches.
pub broadcast proof fn lemma_matches_arr(vs: Seq<SValue>, ps: Seq<SPattern>)
    ensures
        #[trigger] spec_matches(SValue::Arr(vs), SPattern::Arr(ps)) <==> (vs.len() == ps.len()
            && forall|i: int| #![trigger ps[i]] 0 <= i < ps.len() ==> spec_matches(vs[i], ps[i])),
{
    lemma_arr_matches_upto(vs, ps, ps.len() as int);
}

/// An object value matches an object pattern exactly when the field-name sets
/// coincide and the value at each pattern field's key matches that field's
/// pattern.
pub broadcast proof fn lemma_matches_obj(
    vfs: Seq<(Seq<char>, SValue)>,
    pfs: Seq<(Seq<char>, SPattern)>,
)
    ensures
        #[trigger] spec_matches(SValue::Obj(vfs), SPattern::Obj(pfs)) <==> ((forall|i: int|
            #![trigger vfs[i]]
            0 <= i < vfs.len() ==> has_key(pfs, vfs[i].0)) && (forall|i: int|
            #![trigger pfs[i]]
            0 <= i < pfs.len() ==> has_key(vfs, pfs[i].0)) && (forall|i: int|
            #![trigger pfs[i]]
            0 <= i < pfs.len() ==> spec_matches(key_lookup(vfs, pfs[i].0), pfs[i].1))),
{
    lemma_obj_matches_upto(vfs, pfs, pfs.len() as int);
}

/// The first array position at or after `i` whose element does not match its
/// pattern; the length when all match.
pub open spec fn first_arr_mismatch(vs: Seq<SValue>, ps: Seq<SPattern>, i: int) -> int
    decreases ps.len() - i,
{
    if i < 0 || i >= ps.len() {
        ps.len() as int
    } else if !spec_matches(vs[i], ps[i]) {
        i
    } else {
        first_arr_mismatch(vs, ps, i + 1)
    }
}

/// The first value field at or after `i` whose name the pattern does not
/// cover; the length when all are covered.
pub open spec fn first_uncovered_field(
    vfs: Seq<(Seq<char>, SValue)>,
    pfs: Seq<(Seq<char>, SPattern)>,
    i: int,
) -> int
    decreases vfs.len() - i,
{
    if i < 0 || i >= vfs.len() {
        vfs.len() as int
    } else if !has_key(pfs, vfs[i].0) {
        i
    } else {
        first_uncovered_field(vfs, pfs, i + 1)
    }
}

/// The first pattern field at or after `i`, in declaration order, that the
/// value does not hold or whose value does not match; the length when all
/// hold and match.
pub open spec fn first_field_violation(
    vfs: Seq<(Seq<char>, SValue)>,
    pfs: Seq<(Seq<char>, SPattern)>,
    i: int,
) -> int
    decreases pfs.len() - i,
{
    if i < 0 || i >= pfs.len() {
        pfs.len() as int
    } else if !has_key(vfs, pfs[i].0) || !spec_matches(key_lookup(vfs, pfs[i].0), pfs[i].1) {
        i
    } else {
        first_field_violation(vfs, pfs, i + 1)
    }
}

/// The first structural violation of a failed match, in traversal order:
/// literal and variant disagreements at the root, an array length mismatch,
/// the first mismatching array position, the first value field the pattern
/// does not cover, then the first missing or mismatching pattern field in
/// declaration order, recursively. Meaningful only where the match fails.
pub open spec fn spec_first_error(v: SValue, p: SPattern) -> SMatchError
    decreases p, 0int, 0int,
{
    match p {
        SPattern::Any => SMatchError::TypeMismatch,
        SPattern::Binding(_, _) => SMatchError::TypeMismatch,
        SPattern::Integer(n) => match v {
            SValue::Int(m) => SMatchError::IntegerMismatch { expected: n, found: m },
            SValue::NonIntegralNum => SMatchError::NotAnInteger,
            _ => SMatchError::TypeMismatch,
        },
        SPattern::Text(s) => match v {
            SValue::Text(t) => SMatchError::StringMismatch { expected: s, found: t },
            _ => SMatchError::TypeMismatch,
        },
        SPattern::Arr(ps) => match v {
            SValue::Arr(vs) => if vs.len() != ps.len() {
                SMatchError::LengthMismatch { expected: ps.len() as int, found: vs.len() as int }
            } else {
                let i = first_arr_mismatch(vs, ps, 0);
                if 0 <= i < ps.len() {
                    spec_first_error(vs[i], ps[i])
                } else {
                    SMatchError::TypeMismatch
                }
            },
            _ => SMatchError::TypeMismatch,
        },
        SPattern::Obj(pfs) => match v {
            SValue::Obj(vfs) => {
                let u = first_uncovered_field(vfs, pfs, 0);
                if 0 <= u < vfs.len() {
                    SMatchError::FieldNotInPattern { field: vfs[u].0 }
                } else {
                    let i = first_field_violation(vfs, pfs, 0);
                    if 0 <= i < pfs.len() {
                        if !has_key(vfs, pfs[i].0) {
                            SMatchError::FieldNotInValue { field: pfs[i].0 }
                        } else {
                            spec_first_error(key_lookup(vfs, pfs[i].0), pfs[i].1)
                        }
                    } else {
                        SMatchError::TypeMismatch
                    }
                }
            },
            _ => SMatchError::TypeMismatch,
        },
    }
}

/// The first-mismatch scan lands exactly on a position whose predecessors all
/// match and which itself does not.
proof fn lemma_first_arr_mismatch_scan(vs: Seq<SValue>, ps: Seq<SPattern>, k: int, i: int)
    requires
        0 <= k <= i <= ps.len(),
        forall|j: int| k <= j < i ==> spec_matches(vs[j], #[trigger] ps[j]),
        i < ps.len() ==> !spec_matches(vs[i], ps[i]),
    ensures
        first_arr_mismatch(vs, ps, k) == if i < ps.len() {
            i
        } else {
            ps.len() as int
        },
    decreases i - k,
{
    if k < i {
        lemma_first_arr_mismatch_scan(vs, ps, k + 1, i);
    }
}

/// The uncovered-field scan lands exactly on a field whose predecessors are
/// all covered and which itself is not.
proof fn lemma_first_uncovered_scan(
    vfs: Seq<(Seq<char>, SValue)>,
    pfs: Seq<(Seq<char>, SPattern)>,
    k: int,
    i: int,
)
    requires
        0 <= k <= i <= vfs.len(),
        forall|j: int| k <= j < i ==> has_key(pfs, (#[trigger] vfs[j]).0),
        i < vfs.len() ==> !has_key(pfs, vfs[i].0),
    ensures
        first_uncovered_field(vfs, pfs, k) == if i < vfs.len() {
            i
        } else {
            vfs.len() as int
        },
    decreases i - k,
{
    if k < i {
        lemma_first_uncovered_scan(vfs, pfs, k + 1, i);
    }
}

/// The field-violation scan lands exactly on a pattern field whose
/// predecessors are all present and matching and which itself is not.
proof fn lemma_first_field_violation_scan(
    vfs: Seq<(Seq<char>, SValue)>,
    pfs: Seq<(Seq<char>, SPattern)>,
    k: int,
    i: int,
)
    requires
        0 <= k <= i <= pfs.len(),
        forall|j: int| k <= j < i ==> has_key(vfs, (#[trigger] pfs[j]).0) && spec_matches(
            key_lookup(vfs, pfs[j].0),
            pfs[j].1,
        ),
        i < pfs.len() ==> !has_key(vfs, pfs[i].0) || !spec_matches(
            key_lookup(vfs, pfs[i].0),
            pfs[i].1,
        ),
    ensures
        first_field_violation(vfs, pfs, k) == if i < pfs.len() {
            i
        } else {
            pfs.len() as int
        },
    decreases i - k,
{
    if k < i {
        lemma_first_field_violation_scan(vfs, pfs, k + 1, i);
    }
}

/// Whether an object pattern's field list names `key`.
fn pat_fields_has_key(fs: &Vec<(String, Pattern)>, key: &String) -> (r: bool)
    ensures
        r == has_key(pat_fields_view(fs@), key@),
{
    let ghost gfs = pat_fields_view(fs@);
    let n = fs.len();
    for i in 0..n
        invariant
            n == fs.len(),
            gfs == pat_fields_view(fs@),
            gfs.len() == n,
            forall|j: int| 0 <= j < i ==> #[trigger] gfs[j].0 != key@,
    {
        assert(gfs[i as int].0 == fs@[i as int].0@);
        if fs[i].0.eq(key) {
            return true;
        }
    }
    false
}

/// Decides whether `value` structurally matches `pattern`, reporting the
/// first violation found in traversal order: array positions ascending,
/// a value field the pattern does not cover before the pattern's own fields,
/// those in declaration order.
///
/// Succeeds exactly on the matching pairs, for every well-formed value, and
/// on a failure returns exactly the first violation (see
/// [`spec_first_error`]), kind and payload included.
pub fn check_matches(value: &Value, pattern: &Pattern) -> (r: Result<(), MatchError>)
    requires
        value@.wf(),
    ensures
        r is Ok <==> spec_matches(value@, pattern@),
        (r matches Err(e) ==> e@ == spec_first_error(value@, pattern@)),
    decreases *pattern,
{
    broadcast use lemma_matches_arr, lemma_matches_obj;

    match (value, pattern) {
        (_, Pattern::Any) => Ok(()),
        (_, Pattern::Binding(_, _)) => Ok(()),
        (Value::Number(Number::Integral(n)), Pattern::Integer(p)) => {
            if *n == *p {
                Ok(())
            } else {
                Err(MatchError::IntegerMismatch { expected: *p, found: *n })
            }
        },
        (Value::Number(Number::NonIntegral), Pattern::Integer(_)) => Err(
            MatchError::NotAnInteger,
        ),
        (Value::Text(s), Pattern::Text(t)) => {
            if s.eq(t) {
                Ok(())
            } else {
                Err(MatchError::StringMismatch { expected: t.clone(), found: s.clone() })
            }
        },
        (Value::Array(vs), Pattern::Array(ps)) => {
            let ghost svs = value@->Arr_0;
            let ghost sps = pattern@->Arr_0;
            assert(value@ is Arr);
            assert(pattern@ is Arr);
            assert(svs.len() == vs@.len());
            assert(*pattern == Pattern::Array(*ps));
            assert(pattern@ == SPattern::Arr(sps));
            assert(sps.len() == ps@.len());
            if vs.len() != ps.len() {
                return Err(MatchError::LengthMismatch { expected: ps.len(), found: vs.len() });
            }
            let n = vs.len();
            for i in 0..n
                invariant
                    n == vs@.len() && n == ps@.len(),
                    svs == value@->Arr_0 && sps == pattern@->Arr_0,
                    value@ is Arr && pattern@ is Arr,
                    svs.len() == n && sps.len() == n,
                    value@.wf(),
                    value matches Value::Array(vsx) && vsx@ == vs@,
                    pattern matches Pattern::Array(psx) && psx@ == ps@,
                    forall|j: int| 0 <= j < i ==> spec_matches(svs[j], #[trigger] sps[j]),
            {
                proof {
                    assert(svs[i as int] == crate::value::value_view(vs@[i as int]));
                    assert(sps[i as int] == crate::pattern::pattern_view(ps@[i as int]));
                    assert(svs[i as int].wf());
                }
                match check_matches(&vs[i], &ps[i]) {
                    Ok(()) => {},
                    Err(e) => {
                        proof {
                            lemma_matches_arr(svs, sps);
                            assert(!spec_matches(svs[i as int], sps[i as int]));
                            lemma_first_arr_mismatch_scan(svs, sps, 0, i as int);
                            assert(spec_first_error(value@, pattern@) == spec_first_error(
                                svs[i as int],
                                sps[i as int],
                            ));
                        }
                        return Err(e);
                    },
                }
            }
            Ok(())
        },
        (Value::Object(vfs), Pattern::Object(pfs)) => {
            let ghost gvfs = obj_fields_view(vfs@);
            let ghost gpfs = pat_fields_view(pfs@);
            let nv = vfs.len();
            for i in 0..nv
                invariant
                    nv == vfs@.len(),
                    gvfs == obj_fields_view(vfs@) && gpfs == pat_fields_view(pfs@),
                    gvfs.len() == nv,
                    value matches Value::Object(vfsx) && vfsx@ == vfs@,
                    pattern matches Pattern::Object(pfsx) && pfsx@ == pfs@,
                    forall|j: int| 0 <= j < i ==> has_key(gpfs, (#[trigger] gvfs[j]).0),
            {
                if !pat_fields_has_key(pfs, &vfs[i].0) {
                    proof {
                        assert(gvfs[i as int].0 == vfs@[i as int].0@);
                        lemma_first_uncovered_scan(gvfs, gpfs, 0, i as int);
                        assert(spec_first_error(value@, pattern@) == SMatchError::FieldNotInPattern {
                            field: gvfs[i as int].0,
                        });
                    }
                    return Err(MatchError::FieldNotInPattern { field: vfs[i].0.clone() });
                }
            }
            let np = pfs.len();
            for i in 0..np
                invariant
                    np == pfs@.len(),
                    gvfs == obj_fields_view(vfs@) && gpfs == pat_fields_view(pfs@),
                    gpfs.len() == np,
                    value@.wf(),
                    value matches Value::Object(vfsx) && vfsx@ == vfs@,
                    pattern matches Pattern::Object(pfsx) && pfsx@ == pfs@,
                    forall|j: int| 0 <= j < nv ==> has_key(gpfs, (#[trigger] gvfs[j]).0),
                    nv == vfs@.len() && gvfs.len() == nv,
                    forall|j: int|
                        0 <= j < i ==> has_key(gvfs, (#[trigger] gpfs[j]).0) && spec_matches(
                            key_lookup(gvfs, gpfs[j].0),
                            gpfs[j].1,
                        ),
            {
                assert(gpfs[i as int].0 == pfs@[i as int].0@);
                match object_get(vfs, &pfs[i].0) {
                    None => {
                        proof {
                            lemma_first_uncovered_scan(gvfs, gpfs, 0, nv as int);
                            lemma_first_field_violation_scan(gvfs, gpfs, 0, i as int);
                            assert(spec_first_error(value@, pattern@)
                                == SMatchError::FieldNotInValue { field: gpfs[i as int].0 });
                        }
                        return Err(MatchError::FieldNotInValue { field: pfs[i].0.clone() });
                    },
                    Some(sub) => {
                        proof {
                            let k = pfs@[i as int].0@;
                            assert(has_key(gvfs, k));
                            let j = choose|j: int| 0 <= j < gvfs.len() && gvfs[j].0 == k;
                            assert(0 <= j < gvfs.len() && gvfs[j].0 == k);
                            assert(value@ == SValue::Obj(gvfs));
                            assert(gvfs[j].1.wf());
                            lemma_key_lookup_unique(gvfs, k, j);
                            assert(sub@ == key_lookup(gvfs, k));
                            assert(sub@.wf());
                        }
                        match check_matches(sub, &pfs[i].1) {
                            Ok(()) => {},
                            Err(e) => {
                                proof {
                                    lemma_matches_obj(gvfs, gpfs);
                                    assert(gpfs[i as int].1 == crate::pattern::pattern_view(
                                        pfs@[i as int].1,
                                    ));
                                    assert(!spec_matches(
                                        key_lookup(gvfs, gpfs[i as int].0),
                                        gpfs[i as int].1,
                                    ));
                                    lemma_first_uncovered_scan(gvfs, gpfs, 0, nv as int);
                                    lemma_first_field_violation_scan(gvfs, gpfs, 0, i as int);
                                    assert(spec_first_error(value@, pattern@) == spec_first_error(
                                        key_lookup(gvfs, gpfs[i as int].0),
                                        gpfs[i as int].1,
                                    ));
                                }
                                return Err(e);
                            },
                        }
                    },
                }
            }
            Ok(())
        },
        _ => Err(MatchError::TypeMismatch),
    }
}

/// Checks that `value` matches `pattern`; callers must have established the
/// match, as the assertion macro of a test harness would before reusing the
/// bindings.
pub fn assert_matches(value: &Value, pattern: &Pattern)
    requires
        value@.wf(),
        spec_matches(value@, pattern@),
{
    match check_matches(value, pattern) {
        Ok(()) => (),
        Err(_) => vstd::pervasive::unreached(),
    }
}

} // verus!
