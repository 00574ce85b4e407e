//! Newest-first ordering of dated records (profiles, backups).
use vstd::prelude::*;

verus! {

broadcast use vstd::seq_lib::group_to_multiset_ensures;

/// A record with a creation time.
pub trait Dated: Sized {
    spec fn created(&self) -> u64;

    fn created_at_value(&self) -> (r: u64)
        ensures
            r == self.created(),
    ;
}

/// The records created at time `c`.
pub open spec fn created_is<T: Dated>(c: u64) -> spec_fn(T) -> bool {
    |x: T| x.created() == c
}

/// The records of `s` created at time `c`, in their order in `s`.
pub open spec fn dated_at<T: Dated>(s: Seq<T>, c: u64) -> Seq<T> {
    s.filter(created_is::<T>(c))
}

/// `s` and `t` hold the records of each creation time in the same order: a sort
/// that keeps records of equal time in their input order.
pub open spec fn same_order_per_time<T: Dated>(s: Seq<T>, t: Seq<T>) -> bool {
    forall|c: u64| #[trigger] dated_at(s, c) == dated_at(t, c)
}

proof fn lemma_none_dated<T: Dated>(s: Seq<T>, c: u64)
    requires
        forall|j: int| 0 <= j < s.len() ==> (#[trigger] s[j]).created() != c,
    ensures
        dated_at(s, c) == Seq::<T>::empty(),
    decreases s.len(),
{
    reveal(Seq::filter);
    if s.len() > 0 {
        lemma_none_dated(s.drop_last(), c);
        assert(s.drop_last().filter(created_is::<T>(c)) == Seq::<T>::empty());
        assert(s[s.len() - 1].created() != c);
    }
}

/// Moving `x` from the end of `src` into `r` at position `k`, before which no
/// record has the time of `x`, keeps the records of each time in order.
proof fn lemma_move_keeps_order<T: Dated>(src: Seq<T>, x: T, r: Seq<T>, k: int)
    requires
        0 <= k <= r.len(),
        forall|j: int| 0 <= j < k ==> (#[trigger] r[j]).created() != x.created(),
    ensures
        forall|c: u64|
            dated_at(src.push(x), c) + dated_at(r, c) == #[trigger] dated_at(src, c) + dated_at(r.insert(k, x), c),
{
    assert forall|c: u64|
        dated_at(src.push(x), c) + dated_at(r, c) == #[trigger] dated_at(src, c) + dated_at(r.insert(k, x), c) by {
        let p = created_is::<T>(c);
        src.lemma_filter_push(x, p);
        let a = r.take(k);
        let b = r.skip(k);
        assert(r =~= a + b);
        assert(r.insert(k, x) =~= a + (seq![x] + b));
        Seq::filter_distributes_over_add(a, b, p);
        Seq::filter_distributes_over_add(a, seq![x] + b, p);
        b.lemma_filter_prepend(x, p);
        if x.created() == c {
            assert forall|j: int| 0 <= j < a.len() implies (#[trigger] a[j]).created() != c by {
                assert(a[j] == r[j]);
            }
            lemma_none_dated(a, c);
            assert(dated_at(src.push(x), c) + dated_at(r, c) =~= dated_at(src, c) + dated_at(r.insert(k, x), c));
        } else {
            assert(dated_at(src.push(x), c) + dated_at(r, c) =~= dated_at(src, c) + dated_at(r.insert(k, x), c));
        }
    }
}

/// Newer records come first.
pub open spec fn newest_first<T: Dated>(s: Seq<T>) -> bool {
    forall|i: int, j: int| 0 <= i < j < s.len() ==> (#[trigger] s[i]).created() >= (#[trigger] s[j]).created()
}

proof fn lemma_insert_multiset<T>(s: Seq<T>, k: int, x: T)
    requires
        0 <= k <= s.len(),
    ensures
        s.insert(k, x).to_multiset() == s.to_multiset().insert(x),
{
    let t = s.insert(k, x);
    assert(t.remove(k) =~= s);
    assert(t.to_multiset().remove(t[k]) == s.to_multiset());
    assert(t.to_multiset().count(x) > 0);
    assert(t.to_multiset() =~= s.to_multiset().insert(x));
}

/// The records of `v`, reordered newest first.
pub fn sort_newest_first<T: Dated>(v: Vec<T>) -> (r: Vec<T>)
    ensures
        r@.to_multiset() == v@.to_multiset(),
        newest_first(r@),
        same_order_per_time(r@, v@),
{
    let ghost orig = v@;
    let mut src = v;
    let mut r: Vec<T> = Vec::new();
    proof {
        assert forall|c: u64| #[trigger] dated_at(orig, c) == dated_at(src@, c) + dated_at(r@, c) by {
            lemma_none_dated(r@, c);
            assert(dated_at(src@, c) + dated_at(r@, c) =~= dated_at(src@, c));
        }
    }
    while src.len() > 0
        invariant
            r@.to_multiset().add(src@.to_multiset()) == orig.to_multiset(),
            newest_first(r@),
            forall|c: u64| #[trigger] dated_at(orig, c) == dated_at(src@, c) + dated_at(r@, c),
        decreases src.len(),
    {
        let ghost before = src@;
        let x = src.pop().unwrap();
        assert(before =~= src@.push(x));
        let key = x.created_at_value();
        let mut k: usize = 0;
        while k < r.len() && r[k].created_at_value() > key
            invariant
                k <= r.len(),
                forall|j: int| 0 <= j < k ==> (#[trigger] r@[j]).created() > key,
            decreases r.len() - k,
        {
            k += 1;
        }
        let ghost old_r = r@;
        proof {
            lemma_insert_multiset(old_r, k as int, x);
            lemma_move_keeps_order(src@, x, old_r, k as int);
        }
        r.insert(k, x);
        assert(r@ =~= old_r.insert(k as int, x));
        assert forall|i: int, j: int| 0 <= i < j < r@.len() implies (#[trigger] r@[i]).created() >= (
        #[trigger] r@[j]).created() by {
            if j < k {
                assert(r@[i] == old_r[i] && r@[j] == old_r[j]);
            } else if j == k {
                assert(r@[i] == old_r[i]);
            } else if i == k {
                assert(r@[j] == old_r[j - 1]);
                if (j - 1) as int >= k as int && k < old_r.len() {
                    assert(old_r[k as int].created() <= key);
                    assert(old_r[k as int].created() >= old_r[j - 1].created() || k as int == j - 1);
                }
            } else if i < k {
                assert(r@[i] == old_r[i] && r@[j] == old_r[j - 1]);
            } else {
                assert(r@[i] == old_r[i - 1] && r@[j] == old_r[j - 1]);
            }
        }
        assert(r@.to_multiset().add(src@.to_multiset()) =~= orig.to_multiset());
    }
    proof {
        assert forall|c: u64| #[trigger] dated_at(r@, c) == dated_at(orig, c) by {
            lemma_none_dated(src@, c);
            assert(dated_at(src@, c) + dated_at(r@, c) =~= dated_at(r@, c));
        }
    }
    r
}

/// Older records come first.
pub open spec fn oldest_first<T: Dated>(s: Seq<T>) -> bool {
    forall|i: int, j: int| 0 <= i < j < s.len() ==> (#[trigger] s[i]).created() <= (#[trigger] s[j]).created()
}

/// The records of `v`, reordered oldest first.
pub fn sort_oldest_first<T: Dated>(v: Vec<T>) -> (r: Vec<T>)
    ensures
        r@.to_multiset() == v@.to_multiset(),
        oldest_first(r@),
        same_order_per_time(r@, v@),
{
    let ghost orig = v@;
    let mut src = v;
    let mut r: Vec<T> = Vec::new();
    proof {
        assert forall|c: u64| #[trigger] dated_at(orig, c) == dated_at(src@, c) + dated_at(r@, c) by {
            lemma_none_dated(r@, c);
            assert(dated_at(src@, c) + dated_at(r@, c) =~= dated_at(src@, c));
        }
    }
    while src.len() > 0
        invariant
            r@.to_multiset().add(src@.to_multiset()) == orig.to_multiset(),
            oldest_first(r@),
            forall|c: u64| #[trigger] dated_at(orig, c) == dated_at(src@, c) + dated_at(r@, c),
        decreases src.len(),
    {
        let ghost before = src@;
        let x = src.pop().unwrap();
        assert(before =~= src@.push(x));
        let key = x.created_at_value();
        let mut k: usize = 0;
        while k < r.len() && r[k].created_at_value() < key
            invariant
                k <= r.len(),
                forall|j: int| 0 <= j < k ==> (#[trigger] r@[j]).created() < key,
            decreases r.len() - k,
        {
            k += 1;
        }
        let ghost old_r = r@;
        proof {
            lemma_insert_multiset(old_r, k as int, x);
            lemma_move_keeps_order(src@, x, old_r, k as int);
        }
        r.insert(k, x);
        assert(r@ =~= old_r.insert(k as int, x));
        assert forall|i: int, j: int| 0 <= i < j < r@.len() implies (#[trigger] r@[i]).created() <= (
        #[trigger] r@[j]).created() by {
            if j < k {
                assert(r@[i] == old_r[i] && r@[j] == old_r[j]);
            } else if j == k {
                assert(r@[i] == old_r[i]);
            } else if i == k {
                assert(r@[j] == old_r[j - 1]);
                if (j - 1) as int >= k as int && k < old_r.len() {
                    assert(old_r[k as int].created() >= key);
                    assert(old_r[k as int].created() <= old_r[j - 1].created() || k as int == j - 1);
                }
            } else if i < k {
                assert(r@[i] == old_r[i] && r@[j] == old_r[j - 1]);
            } else {
                assert(r@[i] == old_r[i - 1] && r@[j] == old_r[j - 1]);
            }
        }
        assert(r@.to_multiset().add(src@.to_multiset()) =~= orig.to_multiset());
    }
    proof {
        assert forall|c: u64| #[trigger] dated_at(r@, c) == dated_at(orig, c) by {
            lemma_none_dated(src@, c);
            assert(dated_at(src@, c) + dated_at(r@, c) =~= dated_at(r@, c));
        }
    }
    r
}

} // verus!
