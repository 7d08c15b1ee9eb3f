//! Composition of a request path from its segments.
//!
//! [`IntoUrl`] turns what a caller supplies — a path string, or a list of
//! path segments — into the absolute path of the request: a string, each
//! segment is preceded by `/`.

use vstd::prelude::*;

verus! {

/// The absolute path a list of segment texts composes to: each segment
/// preceded by a slash.
pub open spec fn segments_url(ss: Seq<Seq<char>>) -> Seq<char>
    decreases ss.len(),
{
    if ss.len() == 0 {
        Seq::empty()
    } else {
        segments_url(ss.drop_last()) + seq!['/'] + ss.last()
    }
}

/// What can serve as the URL path of a request.
pub trait IntoUrl {
    /// The absolute path this value composes to.
    spec fn spec_url(&self) -> Seq<char>;

    /// Composes the absolute path.
    fn into_url(self) -> (r: String)
        ensures
            r@ == self.spec_url(),
    ;
}

impl IntoUrl for &str {
    /// The path itself when it already starts with a slash, else the path
    /// with a slash prepended.
    open spec fn spec_url(&self) -> Seq<char> {
        if self@.len() > 0 && self@[0] == '/' {
            self@
        } else {
            seq!['/'] + self@
        }
    }

    fn into_url(self) -> (r: String) {
        let n = self.unicode_len();
        if n > 0 && self.get_char(0) == '/' {
            self.to_owned()
        } else {
            let mut s = String::from_str("/");
            proof {
                reveal_strlit("/");
                assert("/"@ =~= seq!['/']);
            }
            s.append(self);
            s
        }
    }
}

impl IntoUrl for Vec<String> {
    /// Each segment preceded by a slash, in order.
    open spec fn spec_url(&self) -> Seq<char> {
        segments_url(Seq::new(self@.len(), |i: int| self@[i]@))
    }

    fn into_url(self) -> (r: String) {
        let ghost segs = Seq::new(self@.len(), |i: int| self@[i]@);
        let mut buff = String::new();
        let n = self.len();
        proof {
            assert(segs.take(0) =~= Seq::<Seq<char>>::empty());
        }
        for i in 0..n
            invariant
                n == self@.len(),
                segs == Seq::new(self@.len(), |j: int| self@[j]@),
                segs.len() == n,
                buff@ == segments_url(segs.take(i as int)),
        {
            proof {
                reveal_strlit("/");
                assert("/"@ =~= seq!['/']);
            }
            buff.append("/");
            buff.append(self[i].as_str());
            proof {
                assert(segs.take(i + 1).drop_last() =~= segs.take(i as int));
                assert(segs.take(i + 1).last() == segs[i as int]);
                assert(segs[i as int] == self@[i as int]@);
            }
        }
        proof {
            assert(segs.take(n as int) =~= segs);
        }
        buff
    }
}

} // verus!
