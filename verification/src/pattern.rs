//! The declarative pattern a value is checked against.
//!
//! A [`Pattern`] mirrors a subset of value shapes. Literal patterns pin a
//! number or a string down exactly, `Any` accepts every value, arrays are
//! matched positionally and exactly, objects exhaustively in both directions,
//! and a [`Pattern::Binding`] accepts every value while recording that the
//! value at its position is to be extracted under a name, converted to a
//! requested type.
//!
//! Specifications speak about [`SPattern`], the mathematical image of a
//! pattern.

use vstd::prelude::*;

use crate::value::{has_key, keys_unique};

verus! {

/// A scalar type a binding can request.
#[derive(Debug, Clone, Copy, PartialEq, Eq)]
pub enum Scalar {
    /// A signed 64-bit integer, from a number with an integral interpretation.
    Int,
    /// An owned string, from a JSON string.
    Text,
    /// A boolean, from a JSON boolean.
    Bool,
}

/// The type requested for a binding: a scalar, or a homogeneous array of one
/// scalar type.
#[derive(Debug, Clone, Copy, PartialEq, Eq)]
pub enum BindTy {
    /// A single scalar.
    Scalar(Scalar),
    /// An array whose elements all convert to one scalar type.
    List(Scalar),
}

/// A structural pattern over [`crate::value::Value`] trees.
#[derive(Debug, PartialEq, Eq)]
pub enum Pattern {
    /// Matches any value and binds nothing. Written `_`.
    Any,
    /// Matches a number whose integral interpretation equals the literal.
    Integer(i64),
    /// Matches a string equal to the literal.
    Text(String),
    /// Matches an array of exactly the same length, element by element.
    Array(Vec<Pattern>),
    /// Matches an object whose field names are exactly the pattern's field
    /// names, field by field.
    Object(Vec<(String, Pattern)>),
    /// Matches any value; records that the value at this position is bound to
    /// the name, to be converted to the requested type (`None` when the
    /// pattern gave no `as` annotation).
    Binding(String, Option<BindTy>),
}

/// The mathematical image of a [`Pattern`].
pub enum SPattern {
    /// Image of `Pattern::Any`.
    Any,
    /// Image of `Pattern::Integer`.
    Integer(int),
    /// Image of `Pattern::Text`.
    Text(Seq<char>),
    /// Image of `Pattern::Array`.
    Arr(Seq<SPattern>),
    /// Image of `Pattern::Object`.
    Obj(Seq<(Seq<char>, SPattern)>),
    /// Image of `Pattern::Binding`.
    Binding(Seq<char>, Option<BindTy>),
}

impl View for Pattern {
    type V = SPattern;

    open spec fn view(&self) -> SPattern {
        pattern_view(*self)
    }
}

/// The mathematical image of a [`Pattern`].
pub open spec fn pattern_view(p: Pattern) -> SPattern
    decreases p,
{
    match p {
        Pattern::Any => SPattern::Any,
        Pattern::Integer(n) => SPattern::Integer(n as int),
        Pattern::Text(s) => SPattern::Text(s@),
        Pattern::Array(ps) => SPattern::Arr(
            Seq::new(
                ps@.len(),
                |i: int|
                    if 0 <= i < ps@.len() {
                        pattern_view(ps@[i])
                    } else {
                        SPattern::Any
                    },
            ),
        ),
        Pattern::Object(fs) => SPattern::Obj(pat_fields_view(fs@)),
        Pattern::Binding(name, ty) => SPattern::Binding(name@, ty),
    }
}

/// The mathematical image of an object pattern's field list.
pub open spec fn pat_fields_view(fs: Seq<(String, Pattern)>) -> Seq<(Seq<char>, SPattern)>
    decreases fs,
{
    Seq::new(
        fs.len(),
        |i: int|
            if 0 <= i < fs.len() {
                (fs[i].0@, pattern_view(fs[i].1))
            } else {
                (Seq::empty(), SPattern::Any)
            },
    )
}

/// The field list with `(k, q)` inserted: the pattern of an existing field
/// named `k` is replaced, a fresh field is appended.
pub open spec fn insert_field(
    fs: Seq<(Seq<char>, SPattern)>,
    k: Seq<char>,
    q: SPattern,
) -> Seq<(Seq<char>, SPattern)> {
    if has_key(fs, k) {
        fs.update(choose|i: int| 0 <= i < fs.len() && fs[i].0 == k, (k, q))
    } else {
        fs.push((k, q))
    }
}

/// The field list obtained by inserting the given fields in order: keys are
/// unique, each key's pattern is its last occurrence's, keys stand in
/// first-occurrence order.
pub open spec fn object_fields_of(fs: Seq<(Seq<char>, SPattern)>) -> Seq<(Seq<char>, SPattern)>
    decreases fs.len(),
{
    if fs.len() == 0 {
        Seq::empty()
    } else {
        insert_field(object_fields_of(fs.drop_last()), fs.last().0, fs.last().1)
    }
}

/// Inserting a field keeps keys unique and the inserted key present.
pub proof fn lemma_insert_field_unique(fs: Seq<(Seq<char>, SPattern)>, k: Seq<char>, q: SPattern)
    requires
        keys_unique(fs),
    ensures
        keys_unique(insert_field(fs, k, q)),
{
    if has_key(fs, k) {
        let i = choose|i: int| 0 <= i < fs.len() && fs[i].0 == k;
        let r = fs.update(i, (k, q));
        assert forall|a: int, b: int| 0 <= a < b < r.len() implies r[a].0 != r[b].0 by {
            assert(fs[a].0 != fs[b].0);
        }
    } else {
        let r = fs.push((k, q));
        assert forall|a: int, b: int| 0 <= a < b < r.len() implies r[a].0 != r[b].0 by {
            if b < fs.len() {
                assert(fs[a].0 != fs[b].0);
            } else {
                assert(r[b] == (k, q));
                assert(!(fs[a].0 == k));
            }
        }
    }
}

/// Whether an object pattern's field list names `key`.
fn fields_find(fs: &Vec<(String, Pattern)>, key: &String) -> (r: Option<usize>)
    ensures
        (r matches Some(i) ==> i < fs@.len() && pat_fields_view(fs@)[i as int].0 == key@),
        r is None ==> !has_key(pat_fields_view(fs@), key@),
{
    let ghost gfs = pat_fields_view(fs@);
    let n = fs.len();
    for i in 0..n
        invariant
            n == fs@.len(),
            gfs == pat_fields_view(fs@),
            gfs.len() == n,
            forall|j: int| 0 <= j < i ==> (#[trigger] gfs[j]).0 != key@,
    {
        proof {
            assert(gfs[i as int].0 == fs@[i as int].0@);
        }
        if fs[i].0.eq(key) {
            return Some(i);
        }
    }
    None
}

impl Pattern {
    /// Builds an object pattern from a list of fields, as collecting them
    /// into a map would: a later field with an equal name replaces the
    /// earlier one's pattern; names stand in first-occurrence order.
    pub fn object_from_array(fields: Vec<(String, Pattern)>) -> (r: Pattern)
        ensures
            (r matches Pattern::Object(ofs) && pat_fields_view(ofs@) == object_fields_of(
                pat_fields_view(fields@),
            ) && keys_unique(pat_fields_view(ofs@))),
    {
        let ghost gin = pat_fields_view(fields@);
        let mut rest = fields;
        let mut out: Vec<(String, Pattern)> = Vec::new();
        let ghost mut k: int = 0;
        proof {
            assert(gin.take(0) =~= Seq::<(Seq<char>, SPattern)>::empty());
            assert(pat_fields_view(out@) =~= Seq::<(Seq<char>, SPattern)>::empty());
        }
        while rest.len() > 0
            invariant
                0 <= k <= gin.len(),
                gin.len() - k == rest@.len(),
                forall|j: int| 0 <= j < rest@.len() ==> #[trigger] pat_fields_view(rest@)[j]
                    == gin[k + j],
                pat_fields_view(out@) == object_fields_of(gin.take(k)),
                keys_unique(pat_fields_view(out@)),
            decreases rest@.len(),
        {
            let ghost pre_vec = rest@;
            let ghost pre_rest = pat_fields_view(rest@);
            let ghost acc = pat_fields_view(out@);
            let (name, q) = rest.remove(0);
            proof {
                assert(pre_rest[0] == gin[k]);
                assert(pre_rest[0] == (name@, pattern_view(q)));
                assert forall|j: int| 0 <= j < rest@.len() implies #[trigger] pat_fields_view(
                    rest@,
                )[j] == gin[k + 1 + j] by {
                    assert(rest@[j] == pre_vec[j + 1]);
                    assert(pat_fields_view(rest@)[j] == pre_rest[j + 1]);
                }
            }
            match fields_find(&out, &name) {
                Some(i) => {
                    let ghost gi = i as int;
                    out.remove(i);
                    out.insert(i, (name, q));
                    proof {
                        let j0 = choose|j: int| 0 <= j < acc.len() && acc[j].0 == name@;
                        if j0 != gi {
                            assert(acc[j0].0 != acc[gi].0);
                        }
                        assert(pat_fields_view(out@) =~= acc.update(j0, (name@, pattern_view(q))));
                        assert(has_key(acc, name@));
                        assert(pat_fields_view(out@) == insert_field(acc, name@, pattern_view(q)));
                        lemma_insert_field_unique(acc, name@, pattern_view(q));
                    }
                },
                None => {
                    out.push((name, q));
                    proof {
                        assert(pat_fields_view(out@) =~= acc.push((name@, pattern_view(q))));
                        assert(pat_fields_view(out@) == insert_field(acc, name@, pattern_view(q)));
                        lemma_insert_field_unique(acc, name@, pattern_view(q));
                    }
                },
            }
            proof {
                assert(gin.take(k + 1).drop_last() =~= gin.take(k));
                assert(gin.take(k + 1).last() == gin[k]);
                assert(object_fields_of(gin.take(k + 1)) == insert_field(
                    object_fields_of(gin.take(k)),
                    gin[k].0,
                    gin[k].1,
                ));
            }
            proof {
                k = k + 1;
            }
        }
        proof {
            assert(gin.take(k) =~= gin);
        }
        Pattern::Object(out)
    }
}

} // verus!
