//! Records keyed by a text, one record per key: a later record replaces an earlier
//! one with the same key, as in a map filled record by record.
use vstd::prelude::*;
use crate::text::str_eq;

verus! {

/// A record with a text key.
pub trait Keyed: Sized {
    spec fn key(&self) -> Seq<char>;

    fn key_text(&self) -> (r: &str)
        ensures
            r@ == self.key(),
    ;
}

/// No two records share a key.
pub open spec fn keys_unique<T: Keyed>(s: Seq<T>) -> bool {
    forall|i: int, j: int| 0 <= i < j < s.len() ==> (#[trigger] s[i]).key() != (#[trigger] s[j]).key()
}

/// No record after position `j` has the key of the record at `j`.
pub open spec fn last_with_key<T: Keyed>(s: Seq<T>, j: int) -> bool {
    forall|k: int| j < k < s.len() ==> (#[trigger] s[k]).key() != s[j].key()
}

/// Some record of `s` has key `key`.
pub open spec fn has_key<T: Keyed>(s: Seq<T>, key: Seq<char>) -> bool {
    exists|i: int| 0 <= i < s.len() && (#[trigger] s[i]).key() == key
}

/// Some record of `s` at position `from` or later is `x`, and no later one has its key.
pub open spec fn kept_from<T: Keyed>(s: Seq<T>, from: int, x: T) -> bool {
    exists|j: int| from <= j < s.len() && s[j] == x && #[trigger] last_with_key(s, j)
}

fn position_of_key<T: Keyed>(v: &Vec<T>, key: &str) -> (r: Option<usize>)
    ensures
        r is None ==> !has_key(v@, key@),
        r matches Some(i) ==> i < v@.len() && v@[i as int].key() == key@,
{
    let mut i: usize = 0;
    while i < v.len()
        invariant
            i <= v.len(),
            forall|k: int| 0 <= k < i ==> (#[trigger] v@[k]).key() != key@,
        decreases v.len() - i,
    {
        if str_eq(v[i].key_text(), key) {
            return Some(i);
        }
        i += 1;
    }
    None
}

/// One record per key: for each key, the last record with it. Every record kept is
/// the last of its key in `items`, every key of `items` is kept, and no key is kept
/// twice.
pub fn keep_last_per_key<T: Keyed>(items: Vec<T>) -> (r: Vec<T>)
    ensures
        keys_unique(r@),
        forall|i: int| 0 <= i < r@.len() ==> kept_from(items@, 0, #[trigger] r@[i]),
        forall|j: int| 0 <= j < items@.len() ==> has_key(r@, (#[trigger] items@[j]).key()),
{
    let ghost orig = items@;
    let mut rest = items;
    let mut out: Vec<T> = Vec::new();
    while rest.len() > 0
        invariant
            rest@ == orig.take(rest@.len() as int),
            rest@.len() <= orig.len(),
            keys_unique(out@),
            forall|i: int| 0 <= i < out@.len() ==> kept_from(orig, rest@.len() as int, #[trigger] out@[i]),
            forall|j: int| rest@.len() <= j < orig.len() ==> has_key(out@, (#[trigger] orig[j]).key()),
        decreases rest@.len(),
    {
        let ghost n = (rest@.len() - 1) as int;
        let x = rest.pop().unwrap();
        assert(x == orig[n]);
        assert(rest@ =~= orig.take(n));
        let ghost before = out@;
        match position_of_key(&out, x.key_text()) {
            Some(_) => {
                assert forall|i: int| 0 <= i < out@.len() implies kept_from(orig, n, #[trigger] out@[i]) by {
                    let j = choose|j: int| n + 1 <= j < orig.len() && orig[j] == out@[i] && #[trigger] last_with_key(orig, j);
                    assert(n <= j < orig.len() && orig[j] == out@[i] && last_with_key(orig, j));
                }
            },
            None => {
                assert(last_with_key(orig, n)) by {
                    assert forall|k: int| n < k < orig.len() implies (#[trigger] orig[k]).key() != orig[n].key() by {
                        assert(has_key(before, orig[k].key()));
                    }
                }
                out.push(x);
                assert forall|i: int, j: int| 0 <= i < j < out@.len() implies (#[trigger] out@[i]).key() != (
                #[trigger] out@[j]).key() by {
                    if j == out@.len() - 1 {
                        assert(out@[i] == before[i]);
                    } else {
                        assert(out@[i] == before[i] && out@[j] == before[j]);
                    }
                }
                assert forall|i: int| 0 <= i < out@.len() implies kept_from(orig, n, #[trigger] out@[i]) by {
                    if i == out@.len() - 1 {
                        assert(orig[n] == out@[i] && last_with_key(orig, n));
                    } else {
                        assert(out@[i] == before[i]);
                        let j = choose|j: int| n + 1 <= j < orig.len() && orig[j] == before[i] && #[trigger] last_with_key(orig, j);
                        assert(n <= j < orig.len() && orig[j] == out@[i] && last_with_key(orig, j));
                    }
                }
                assert forall|j: int| n <= j < orig.len() implies has_key(out@, (#[trigger] orig[j]).key()) by {
                    if j == n {
                        assert(out@[out@.len() - 1].key() == orig[j].key());
                    } else {
                        assert(has_key(before, orig[j].key()));
                        let i = choose|i: int| 0 <= i < before.len() && (#[trigger] before[i]).key() == orig[j].key();
                        assert(out@[i] == before[i]);
                    }
                }
            },
        }
    }
    out
}

} // verus!
