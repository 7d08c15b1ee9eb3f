//! The JSON-shaped value tree that response bodies are checked against.
//!
//! A [`Value`] is a dynamically typed tree of nulls, booleans, numbers,
//! strings, arrays and objects, as produced by deserializing a JSON document.
//! The matcher only ever reads a number's integral interpretation, so a
//! [`Number`] records either that interpretation or the fact that there is
//! none.
//!
//! Specifications speak about [`SValue`], the mathematical image of a value:
//! text becomes `Seq<char>`, vectors become `Seq`, and integers become `int`.

use vstd::prelude::*;

verus! {

/// A JSON number, reduced to what the matcher and the extractor read from it:
/// its integral interpretation, if it has one.
#[derive(Debug, Clone, PartialEq, Eq)]
pub enum Number {
    /// A number with an exact integral interpretation, such as `42` or `42.0`.
    Integral(i64),
    /// A number without an integral interpretation, such as `42.5`.
    NonIntegral,
}

/// A JSON-shaped value: the tree an HTTP response body deserializes to.
///
/// Object fields are kept in insertion order; their keys must be unique for
/// the value to be well formed (see [`SValue::wf`]).
#[derive(Debug, PartialEq, Eq)]
pub enum Value {
    /// JSON `null`.
    Null,
    /// A JSON boolean.
    Bool(bool),
    /// A JSON number.
    Number(Number),
    /// A JSON string.
    Text(String),
    /// A JSON array: an ordered sequence of values.
    Array(Vec<Value>),
    /// A JSON object: a mapping from field names to values.
    Object(Vec<(String, Value)>),
}

/// The mathematical image of a [`Value`].
pub enum SValue {
    /// Image of `Value::Null`.
    Null,
    /// Image of `Value::Bool`.
    Bool(bool),
    /// Image of a number with integral interpretation `n`.
    Int(int),
    /// Image of a number without an integral interpretation.
    NonIntegralNum,
    /// Image of `Value::Text`.
    Text(Seq<char>),
    /// Image of `Value::Array`.
    Arr(Seq<SValue>),
    /// Image of `Value::Object`.
    Obj(Seq<(Seq<char>, SValue)>),
}

impl View for Value {
    type V = SValue;

    open spec fn view(&self) -> SValue {
        value_view(*self)
    }
}

/// The mathematical image of a [`Value`].
pub open spec fn value_view(v: Value) -> SValue
    decreases v,
{
    match v {
        Value::Null => SValue::Null,
        Value::Bool(b) => SValue::Bool(b),
        Value::Number(Number::Integral(n)) => SValue::Int(n as int),
        Value::Number(Number::NonIntegral) => SValue::NonIntegralNum,
        Value::Text(s) => SValue::Text(s@),
        Value::Array(vs) => SValue::Arr(
            Seq::new(
                vs@.len(),
                |i: int|
                    if 0 <= i < vs@.len() {
                        value_view(vs@[i])
                    } else {
                        SValue::Null
                    },
            ),
        ),
        Value::Object(fs) => SValue::Obj(obj_fields_view(fs@)),
    }
}

/// The mathematical image of an object's field list.
pub open spec fn obj_fields_view(fs: Seq<(String, Value)>) -> Seq<(Seq<char>, SValue)>
    decreases fs,
{
    Seq::new(
        fs.len(),
        |i: int|
            if 0 <= i < fs.len() {
                (fs[i].0@, value_view(fs[i].1))
            } else {
                (Seq::empty(), SValue::Null)
            },
    )
}

/// Whether the keys of an object's field list are pairwise distinct.
pub open spec fn keys_unique<T>(fs: Seq<(Seq<char>, T)>) -> bool {
    forall|i: int, j: int| 0 <= i < j < fs.len() ==> fs[i].0 != fs[j].0
}

/// Whether a field list holds a field named `k`.
pub open spec fn has_key<T>(fs: Seq<(Seq<char>, T)>, k: Seq<char>) -> bool {
    exists|i: int| 0 <= i < fs.len() && fs[i].0 == k
}

/// The entry of the field named `k`. Meaningful when `has_key(fs, k)` holds
/// and the keys are unique.
pub open spec fn key_lookup<T>(fs: Seq<(Seq<char>, T)>, k: Seq<char>) -> T {
    fs[choose|i: int| 0 <= i < fs.len() && fs[i].0 == k].1
}

impl SValue {
    /// Well-formedness: every object in the tree has pairwise distinct keys.
    pub open spec fn wf(self) -> bool
        decreases self, 0int, 0int,
    {
        match self {
            SValue::Arr(vs) => wf_elems_upto(vs, vs.len() as int),
            SValue::Obj(fs) => keys_unique(fs) && wf_fields_upto(fs, fs.len() as int),
            _ => true,
        }
    }
}

/// Whether the first `n` elements of an array are well formed.
pub open spec fn wf_elems_upto(vs: Seq<SValue>, n: int) -> bool
    decreases vs, 1int, n,
{
    if n <= 0 || vs.len() < n {
        true
    } else {
        wf_elems_upto(vs, n - 1) && vs[n - 1].wf()
    }
}

/// Whether the values of the first `n` fields of an object are well formed.
pub open spec fn wf_fields_upto(fs: Seq<(Seq<char>, SValue)>, n: int) -> bool
    decreases fs, 1int, n,
{
    if n <= 0 || fs.len() < n {
        true
    } else {
        wf_fields_upto(fs, n - 1) && fs[n - 1].1.wf()
    }
}

/// `wf_elems_upto` says exactly that each of the first `n` elements is well
/// formed.
pub proof fn lemma_wf_elems_upto(vs: Seq<SValue>, n: int)
    requires
        0 <= n <= vs.len(),
    ensures
        wf_elems_upto(vs, n) <==> (forall|i: int| #![trigger vs[i]] 0 <= i < n ==> vs[i].wf()),
    decreases n,
{
    if n > 0 {
        lemma_wf_elems_upto(vs, n - 1);
    }
}

/// `wf_fields_upto` says exactly that each of the first `n` fields holds a
/// well-formed value.
pub proof fn lemma_wf_fields_upto(fs: Seq<(Seq<char>, SValue)>, n: int)
    requires
        0 <= n <= fs.len(),
    ensures
        wf_fields_upto(fs, n) <==> (forall|i: int| #![trigger fs[i]] 0 <= i < n
            ==> fs[i].1.wf()),
    decreases n,
{
    if n > 0 {
        lemma_wf_fields_upto(fs, n - 1);
    }
}

/// An array is well formed exactly when all its elements are.
pub broadcast proof fn lemma_wf_arr(vs: Seq<SValue>)
    ensures
        #[trigger] SValue::Arr(vs).wf() <==> (forall|i: int| #![trigger vs[i]] 0 <= i < vs.len()
            ==> vs[i].wf()),
{
    lemma_wf_elems_upto(vs, vs.len() as int);
}

/// An object is well formed exactly when its keys are unique and all its
/// field values are well formed.
pub broadcast proof fn lemma_wf_obj(fs: Seq<(Seq<char>, SValue)>)
    ensures
        #[trigger] SValue::Obj(fs).wf() <==> (keys_unique(fs) && forall|i: int|
            #![trigger fs[i]]
            0 <= i < fs.len() ==> fs[i].1.wf()),
{
    lemma_wf_fields_upto(fs, fs.len() as int);
}

/// Any index of a uniquely-keyed field list whose key is `k` points at the
/// entry `key_lookup` names.
pub proof fn lemma_key_lookup_unique<T>(fs: Seq<(Seq<char>, T)>, k: Seq<char>, i: int)
    requires
        keys_unique(fs),
        0 <= i < fs.len(),
        fs[i].0 == k,
    ensures
        has_key(fs, k),
        key_lookup(fs, k) == fs[i].1,
{
    assert(has_key(fs, k));
    let j = choose|j: int| 0 <= j < fs.len() && fs[j].0 == k;
    if i != j {
        assert(fs[i].0 != fs[j].0);
    }
}

/// Looks a field name up in an object's field list, returning a reference to
/// the associated value.
pub fn object_get<'a>(fs: &'a Vec<(String, Value)>, key: &String) -> (r: Option<&'a Value>)
    requires
        keys_unique(obj_fields_view(fs@)),
    ensures
        match r {
            Some(v) => has_key(obj_fields_view(fs@), key@) && v@ == key_lookup(
                obj_fields_view(fs@),
                key@,
            ),
            None => !has_key(obj_fields_view(fs@), key@),
        },
{
    let ghost gfs = obj_fields_view(fs@);
    let n = fs.len();
    for i in 0..n
        invariant
            n == fs.len(),
            gfs == obj_fields_view(fs@),
            gfs.len() == n,
            forall|j: int| 0 <= j < i ==> #[trigger] gfs[j].0 != key@,
            keys_unique(gfs),
    {
        assert(gfs[i as int].0 == fs@[i as int].0@);
        if fs[i].0.eq(key) {
            proof {
                lemma_key_lookup_unique(gfs, key@, i as int);
            }
            return Some(&fs[i].1);
        }
    }
    assert(!has_key(gfs, key@));
    None
}


impl Value {
    /// Decides well-formedness: whether every object in this tree has
    /// pairwise distinct keys. The matcher and the extractor require a
    /// well-formed value; an I/O layer can test this before handing a value
    /// in.
    pub fn is_wf(&self) -> (r: bool)
        ensures
            r == self@.wf(),
        decreases *self,
    {
        broadcast use lemma_wf_arr, lemma_wf_obj;

        match self {
            Value::Array(vs) => {
                let ghost svs = self@->Arr_0;
                let n = vs.len();
                for i in 0..n
                    invariant
                        n == vs@.len(),
                        svs == self@->Arr_0,
                        self matches Value::Array(vsx) && vsx@ == vs@,
                        svs.len() == n,
                        forall|j: int| 0 <= j < i ==> (#[trigger] svs[j]).wf(),
                {
                    proof {
                        assert(svs[i as int] == value_view(vs@[i as int]));
                    }
                    if !vs[i].is_wf() {
                        proof {
                            lemma_wf_arr(svs);
                            assert(!svs[i as int].wf());
                            assert(self@ == SValue::Arr(svs));
                        }
                        return false;
                    }
                }
                true
            },
            Value::Object(fs) => {
                let ghost gfs = obj_fields_view(fs@);
                let n = fs.len();
                for i in 0..n
                    invariant
                        n == fs@.len(),
                        gfs == obj_fields_view(fs@),
                        self matches Value::Object(fsx) && fsx@ == fs@,
                        gfs.len() == n,
                        forall|a: int, b: int|
                            0 <= a < b < n && a < i ==> (#[trigger] gfs[a]).0 != (
                            #[trigger] gfs[b]).0,
                {
                    let mut j = i + 1;
                    while j < n
                        invariant
                            i < j <= n,
                            n == fs@.len(),
                            gfs == obj_fields_view(fs@),
                            self matches Value::Object(fsx) && fsx@ == fs@,
                            gfs.len() == n,
                            forall|b: int| i < b < j ==> gfs[i as int].0 != (#[trigger] gfs[b]).0,
                        decreases n - j,
                    {
                        proof {
                            assert(gfs[i as int].0 == fs@[i as int].0@);
                            assert(gfs[j as int].0 == fs@[j as int].0@);
                        }
                        if fs[i].0.eq(&fs[j].0) {
                            proof {
                                assert(gfs[i as int].0 == gfs[j as int].0);
                                assert(!keys_unique(gfs));
                                lemma_wf_obj(gfs);
                                assert(self@ == SValue::Obj(gfs));
                            }
                            return false;
                        }
                        j = j + 1;
                    }
                }
                proof {
                    assert(keys_unique(gfs));
                }
                let m = fs.len();
                for i in 0..m
                    invariant
                        m == fs@.len(),
                        gfs == obj_fields_view(fs@),
                        self matches Value::Object(fsx) && fsx@ == fs@,
                        gfs.len() == m,
                        keys_unique(gfs),
                        forall|j: int| 0 <= j < i ==> (#[trigger] gfs[j]).1.wf(),
                {
                    proof {
                        assert(gfs[i as int].1 == value_view(fs@[i as int].1));
                    }
                    if !fs[i].1.is_wf() {
                        proof {
                            lemma_wf_obj(gfs);
                            assert(!gfs[i as int].1.wf());
                            assert(self@ == SValue::Obj(gfs));
                        }
                        return false;
                    }
                }
                true
            },
            _ => true,
        }
    }

    /// The elements of an array value; callers must know the value is an
    /// array, as the assertion helpers do after a match.
    pub fn to_array(&self) -> (r: &Vec<Value>)
        requires
            self@ is Arr,
        ensures
            self@ == Value::Array(*r)@,
    {
        match self {
            Value::Array(vs) => vs,
            _ => vstd::pervasive::unreached(),
        }
    }

    /// The fields of an object value; callers must know the value is an
    /// object, as the assertion helpers do after a match.
    pub fn to_object(&self) -> (r: &Vec<(String, Value)>)
        requires
            self@ is Obj,
        ensures
            self@ == Value::Object(*r)@,
    {
        match self {
            Value::Object(fs) => fs,
            _ => vstd::pervasive::unreached(),
        }
    }
}

} // verus!
