//! `Vec` and `VecDeque` operations stated over deep views.
use vstd::prelude::*;
use std::collections::VecDeque;

verus! {

pub fn vec_push<T: DeepView>(v: &mut Vec<T>, x: T)
    ensures
        final(v).deep_view() == old(v).deep_view().push(x.deep_view()),
        final(v).len() == old(v).len() + 1,
{
    let ghost before = v.deep_view();
    let ghost xv = x.deep_view();
    v.push(x);
    assert(v.deep_view() =~= before.push(xv));
}

pub fn vec_remove<T: DeepView>(v: &mut Vec<T>, i: usize) -> (r: T)
    requires
        i < old(v).len(),
    ensures
        r.deep_view() == old(v).deep_view()[i as int],
        final(v).deep_view() == old(v).deep_view().remove(i as int),
        final(v).len() == old(v).len() - 1,
{
    let ghost before = v.deep_view();
    let r = v.remove(i);
    assert(v.deep_view() =~= before.remove(i as int));
    r
}

pub fn vec_insert<T: DeepView>(v: &mut Vec<T>, i: usize, x: T)
    requires
        i <= old(v).len(),
    ensures
        final(v).deep_view() == old(v).deep_view().insert(i as int, x.deep_view()),
        final(v).len() == old(v).len() + 1,
{
    let ghost before = v.deep_view();
    let ghost xv = x.deep_view();
    v.insert(i, x);
    assert(v.deep_view() =~= before.insert(i as int, xv));
}

pub fn vec_pop<T: DeepView>(v: &mut Vec<T>) -> (r: Option<T>)
    ensures
        old(v).len() == 0 ==> r.is_none() && final(v).deep_view() == old(v).deep_view(),
        old(v).len() > 0 ==> r.is_some() && r->0.deep_view() == old(v).deep_view().last()
            && final(v).deep_view() == old(v).deep_view().drop_last()
            && final(v).len() == old(v).len() - 1,
{
    let ghost before = v.deep_view();
    let r = v.pop();
    assert(v.deep_view() =~= if before.len() > 0 { before.drop_last() } else { before });
    r
}

/// Puts `x` at position `i`, handing back what stood there.
pub fn vec_replace<T: DeepView>(v: &mut Vec<T>, i: usize, x: T) -> (r: T)
    requires
        i < old(v).len(),
    ensures
        r.deep_view() == old(v).deep_view()[i as int],
        final(v).deep_view() == old(v).deep_view().update(i as int, x.deep_view()),
        final(v).len() == old(v).len(),
{
    let ghost before = v.deep_view();
    let ghost xv = x.deep_view();
    let r = vec_remove(v, i);
    vec_insert(v, i, x);
    assert(v.deep_view() =~= before.update(i as int, xv));
    r
}

// ── VecDeque ───────────────────────────────────────────────────────

/// The number of items held.
pub fn deque_len<T: DeepView>(v: &VecDeque<T>) -> (n: usize)
    ensures
        n == v.deep_view().len(),
        n == v@.len(),
{
    broadcast use vstd::std_specs::vecdeque::group_vec_dequeue_axioms;
    v.len()
}

pub fn deque_push_back<T: DeepView>(v: &mut VecDeque<T>, x: T)
    ensures
        final(v).deep_view() == old(v).deep_view().push(x.deep_view()),
{
    let ghost before = v.deep_view();
    let ghost xv = x.deep_view();
    v.push_back(x);
    assert(v.deep_view() =~= before.push(xv));
}

pub fn deque_push_front<T: DeepView>(v: &mut VecDeque<T>, x: T)
    ensures
        final(v).deep_view() == seq![x.deep_view()] + old(v).deep_view(),
{
    let ghost before = v.deep_view();
    let ghost xv = x.deep_view();
    v.push_front(x);
    assert(v.deep_view() =~= seq![xv] + before);
}

pub fn deque_pop_front<T: DeepView>(v: &mut VecDeque<T>) -> (r: Option<T>)
    ensures
        old(v).deep_view().len() == 0 ==> r is None && final(v).deep_view() == old(v).deep_view(),
        old(v).deep_view().len() > 0 ==> (r matches Some(x) && x.deep_view() == old(v).deep_view()[0]
            && final(v).deep_view() == old(v).deep_view().drop_first()),
{
    let ghost before = v.deep_view();
    let r = v.pop_front();
    assert(v.deep_view() =~= if before.len() > 0 { before.drop_first() } else { before });
    r
}

/// An empty deque.
pub fn deque_new<T: DeepView>() -> (v: VecDeque<T>)
    ensures
        v.deep_view() == Seq::<T::V>::empty(),
{
    let v: VecDeque<T> = VecDeque::new();
    assert(v.deep_view() =~= Seq::<T::V>::empty());
    v
}

} // verus!
