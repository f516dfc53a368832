//! Authentication of a connection from the payload of its Auth frame.
use vstd::prelude::*;

use crate::buff::Buff;
use crate::er::Er;

verus! {

/// The byte that separates the topic name from the token in an Auth payload.
pub const AUTH_SEPARATOR: u8 = 59;

/// The bytes of the token accepted in this version, `ANON`.
pub open spec fn anon_token() -> Seq<u8> {
    seq![65u8, 78u8, 79u8, 78u8]
}

/// Whether `i` is the position of the first separator in `p`.
pub open spec fn is_first_separator(p: Seq<u8>, i: int) -> bool {
    &&& 0 <= i < p.len()
    &&& p[i] == AUTH_SEPARATOR
    &&& forall|j: int| 0 <= j < i ==> p[j] != AUTH_SEPARATOR
}

/// Whether a token is accepted: empty and `ANON` tokens are.
pub open spec fn token_accepted(t: Seq<u8>) -> bool {
    t == Seq::<u8>::empty() || t == anon_token()
}

/// Whether an Auth payload is accepted: it splits on its first separator
/// into a topic name and a token, and the token is accepted.
pub open spec fn auth_accepted(p: Seq<u8>) -> bool {
    exists|i: int| is_first_separator(p, i) && token_accepted(p.subrange(i + 1, p.len() as int))
}

/// An authenticated principal.  The protocol carries a token; policy
/// evaluation beyond accepting anonymous tokens is outside the core.
pub struct Auth {}

impl Auth {
    /// Reads an Auth payload from a fully received frame: the payload is
    /// split on its first separator into a topic name and a token, and an
    /// empty or `ANON` token is accepted.  While the frame is incomplete
    /// no decision is made; a payload without a separator or with any other
    /// token fails with `BadAuth`.
    pub fn new(buff: &Buff) -> (r: Result<Option<Self>, Er>)
        requires
            buff.wf(),
        ensures
            !buff.is_end_spec() ==> (r matches Ok(o) && o is None),
            buff.is_end_spec() && auth_accepted(buff.visible_seq()) ==> (r matches Ok(o) && o
                is Some),
            buff.is_end_spec() && !auth_accepted(buff.visible_seq()) ==> (r matches Err(e) && e
                == Er::BadAuth),
    {
        if buff.is_end_of_record() {
            let payload = buff.data();
            let n = payload.len();
            let ghost p = buff.visible_seq();

            let mut i: usize = 0;
            let mut found = false;
            while i < n && !found
                invariant
                    payload@ == p,
                    n == p.len(),
                    i <= n,
                    !found ==> forall|j: int| 0 <= j < i ==> p[j] != AUTH_SEPARATOR,
                    found ==> i < n && is_first_separator(p, i as int),
                decreases n - i, (if found { 0int } else { 1int }),
            {
                if *vstd::slice::slice_index_get(payload, i) == AUTH_SEPARATOR {
                    found = true;
                } else {
                    i = i + 1;
                }
            }

            if !found {
                proof {
                    assert(forall|k: int| is_first_separator(p, k) ==> p[k] == AUTH_SEPARATOR);
                }
                return Err(Er::BadAuth);
            }

            let token_len = n - (i + 1);
            let ok = if token_len == 0 {
                true
            } else if token_len == 4 {
                let t0 = *vstd::slice::slice_index_get(payload, i + 1);
                let t1 = *vstd::slice::slice_index_get(payload, i + 2);
                let t2 = *vstd::slice::slice_index_get(payload, i + 3);
                let t3 = *vstd::slice::slice_index_get(payload, i + 4);
                t0 == 65 && t1 == 78 && t2 == 79 && t3 == 78
            } else {
                false
            };

            proof {
                let t = p.subrange(i + 1, p.len() as int);
                if token_len == 0 {
                    assert(t =~= Seq::<u8>::empty());
                }
                if token_len == 4 && ok {
                    assert(t =~= anon_token());
                }
                assert(forall|k: int| is_first_separator(p, k) ==> k == i);
                if !ok {
                    assert(t.len() == 0 ==> t =~= Seq::<u8>::empty());
                    assert(t.len() == 4 && t == anon_token() ==> {
                        &&& t[0] == 65
                        &&& t[1] == 78
                        &&& t[2] == 79
                        &&& t[3] == 78
                    });
                }
            }

            if ok {
                Ok(Some(Auth {}))
            } else {
                Err(Er::BadAuth)
            }
        } else {
            Ok(None)
        }
    }
}

} // verus!
