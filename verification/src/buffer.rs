//! Bounded event buffers that drop their oldest entry when full.

use std::collections::VecDeque;

use vstd::prelude::*;

verus! {

broadcast use vstd::std_specs::vecdeque::group_vec_dequeue_axioms;

/// The buffer and drop count after `e` arrives at a buffer that holds at most `cap` entries: when
/// the buffer is full its oldest entry is dropped and counted.
pub open spec fn bounded_push<T>(buf: Seq<T>, dropped: nat, cap: nat, e: T) -> (Seq<T>, nat) {
    if buf.len() >= cap && buf.len() > 0 {
        (buf.drop_first().push(e), dropped + 1)
    } else {
        (buf.push(e), dropped)
    }
}

/// The buffer and drop count after the events `es` arrive, in order.
pub open spec fn bounded_push_all<T>(buf: Seq<T>, dropped: nat, cap: nat, es: Seq<T>) -> (
    Seq<T>,
    nat,
)
    decreases es.len(),
{
    if es.len() == 0 {
        (buf, dropped)
    } else {
        let st = bounded_push_all(buf, dropped, cap, es.drop_last());
        bounded_push(st.0, st.1, cap, es.last())
    }
}

/// How many of `n` arrivals a buffer of capacity `cap` cannot keep.
pub open spec fn overflow(n: nat, cap: nat) -> nat {
    if n > cap {
        (n - cap) as nat
    } else {
        0
    }
}

/// A buffer of capacity `cap > 0` that starts with at most `cap` entries keeps the newest `cap`
/// of its entries and arrivals, and counts every other one as dropped.
pub proof fn lemma_bounded_push_all<T>(buf: Seq<T>, dropped: nat, cap: nat, es: Seq<T>)
    requires
        cap > 0,
        buf.len() <= cap,
    ensures
        bounded_push_all(buf, dropped, cap, es) == (
            (buf + es).skip(overflow(buf.len() + es.len(), cap) as int),
            dropped + overflow(buf.len() + es.len(), cap),
        ),
    decreases es.len(),
{
    if es.len() == 0 {
        assert(buf + es =~= buf);
        assert((buf + es).skip(0) =~= buf);
    } else {
        lemma_bounded_push_all(buf, dropped, cap, es.drop_last());
        let all = buf + es;
        let prev = buf + es.drop_last();
        assert(prev =~= all.drop_last());
        let k = overflow((buf.len() + es.len() - 1) as nat, cap);
        let st = bounded_push_all(buf, dropped, cap, es.drop_last());
        assert(st.0 =~= prev.skip(k as int));
        if st.0.len() >= cap && st.0.len() > 0 {
            assert(st.0.drop_first().push(es.last()) =~= all.skip(k + 1int));
        } else {
            assert(st.0.push(es.last()) =~= all.skip(k as int));
        }
    }
}

/// Bounded pushing commutes with mapping every entry through `f`.
pub proof fn lemma_bounded_push_map<T, U>(
    buf: Seq<T>,
    dropped: nat,
    cap: nat,
    e: T,
    f: spec_fn(T) -> U,
)
    ensures
        bounded_push(buf, dropped, cap, e).0.map_values(f) == bounded_push(
            buf.map_values(f),
            dropped,
            cap,
            f(e),
        ).0,
        bounded_push(buf, dropped, cap, e).1 == bounded_push(buf.map_values(f), dropped, cap, f(e)).1,
{
    if buf.len() >= cap && buf.len() > 0 {
        assert(buf.drop_first().push(e).map_values(f) =~= buf.map_values(f).drop_first().push(f(e)));
    } else {
        assert(buf.push(e).map_values(f) =~= buf.map_values(f).push(f(e)));
    }
}

/// Adds `e` to `buf`, dropping and counting the oldest entry when `buf` holds `cap` or more.
pub fn push_bounded<T>(buf: &mut VecDeque<T>, dropped: &mut usize, cap: usize, e: T)
    requires
        cap > 0,
        old(buf)@.len() >= cap ==> *old(dropped) < usize::MAX,
    ensures
        (final(buf)@, *final(dropped) as nat) == bounded_push(
            old(buf)@,
            *old(dropped) as nat,
            cap as nat,
            e,
        ),
{
    if buf.len() >= cap {
        buf.pop_front();
        *dropped = *dropped + 1;
    }
    buf.push_back(e);
    proof {
        if old(buf)@.len() >= cap {
            assert(old(buf)@.subrange(1, old(buf)@.len() as int) =~= old(buf)@.drop_first());
        }
    }
}

/// Removes every entry from `buf` and returns them, oldest first.
pub fn drain_all<T>(buf: &mut VecDeque<T>) -> (v: Vec<T>)
    ensures
        v@ == old(buf)@,
        final(buf)@ == Seq::<T>::empty(),
{
    let mut v: Vec<T> = Vec::new();
    let ghost all = buf@;
    while buf.len() > 0
        invariant
            v@ + buf@ == all,
        decreases buf@.len(),
    {
        let ghost before = buf@;
        match buf.pop_front() {
            Some(e) => {
                v.push(e);
                assert(v@ + buf@ =~= all);
            },
            None => {},
        }
    }
    assert(v@ =~= all);
    v
}

} // verus!
