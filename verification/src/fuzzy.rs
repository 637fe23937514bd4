//! Subsequence matching used to filter entries by a search query, and the
//! validity check applied to an entry before it is stored.

use vstd::prelude::*;

use crate::models::PasswordEntry;
use crate::text::{bytes_of_str, chars_of};

verus! {

/// `query` matches `target` when the characters of `query` occur in
/// `target` in order (not necessarily contiguously).
pub open spec fn is_subsequence_of(query: Seq<char>, target: Seq<char>) -> bool
    decreases target.len() + query.len(),
{
    if query.len() == 0 {
        true
    } else if target.len() == 0 {
        false
    } else if query[0] == target[0] {
        is_subsequence_of(query.drop_first(), target.drop_first())
    } else {
        is_subsequence_of(query, target.drop_first())
    }
}

/// Reports whether every character of `query` occurs in `target`, in order.
/// An empty query matches everything.
pub fn fuzzy_match(query: &str, target: &str) -> (r: bool)
    ensures
        r == is_subsequence_of(query@, target@),
{
    let q: Vec<char> = chars_of(query);
    let t: Vec<char> = chars_of(target);
    let mut qi: usize = 0;
    let mut ti: usize = 0;
    proof {
        assert(query@.skip(0) =~= query@);
        assert(target@.skip(0) =~= target@);
    }
    while ti < t.len() && qi < q.len()
        invariant
            qi <= q.len(),
            ti <= t.len(),
            q@ == query@,
            t@ == target@,
            is_subsequence_of(query@, target@) == is_subsequence_of(
                query@.skip(qi as int),
                target@.skip(ti as int),
            ),
        decreases t.len() - ti,
    {
        proof {
            assert(query@.skip(qi as int).drop_first() =~= query@.skip(qi + 1));
            assert(target@.skip(ti as int).drop_first() =~= target@.skip(ti + 1));
        }
        if t[ti] == q[qi] {
            qi = qi + 1;
        }
        ti = ti + 1;
    }
    proof {
        if qi == q.len() {
            assert(query@.skip(qi as int) =~= Seq::<char>::empty());
        } else {
            assert(target@.skip(ti as int) =~= Seq::<char>::empty());
            assert(query@.skip(qi as int).len() > 0);
        }
    }
    qi == q.len()
}

/// An entry may be stored when its password is 8 to 21 bytes long and
/// neither its name nor its id is empty.
pub fn verify_password(entry: &PasswordEntry) -> (r: bool)
    ensures
        r == (8 <= vstd::utf8::encode_utf8(entry@.password).len() <= 21 && entry@.name.len() > 0
            && entry@.id.len() > 0),
{
    let pbytes = bytes_of_str(entry.password.as_str());
    let plen = pbytes.len();
    if plen > 21 || plen < 8 {
        return false;
    }
    if entry.name.as_str().is_empty() || entry.id.as_str().is_empty() {
        return false;
    }
    true
}

} // verus!
