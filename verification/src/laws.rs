//! The stack's LIFO discipline, stated once over the abstract model and
//! proved for every sequence of operations.

use vstd::prelude::*;

use crate::stack::rest;
use crate::stack::top;

verus! {

/// One operation on a stack, as `push` and `pop` describe themselves over
/// the `Seq<i32>` view.
pub enum StackOp {
    Push(i32),
    Pop,
}

/// The view after one operation on a stack viewed as `s`, exactly as the
/// contracts of `List::push` and `List::pop` state it.
pub open spec fn apply_op(s: Seq<i32>, op: StackOp) -> Seq<i32> {
    match op {
        StackOp::Push(v) => s.push(v),
        StackOp::Pop => rest(s),
    }
}

/// The view after running `ops`, in order, on a stack viewed as `s0`.
pub open spec fn run_from(s0: Seq<i32>, ops: Seq<StackOp>) -> Seq<i32>
    decreases ops.len(),
{
    if ops.len() == 0 {
        s0
    } else {
        apply_op(run_from(s0, ops.drop_last()), ops.last())
    }
}

/// The view after running `ops` on a freshly created stack.
pub open spec fn run(ops: Seq<StackOp>) -> Seq<i32> {
    run_from(Seq::empty(), ops)
}

/// The view after pushing every value of `vs`, in order, onto a stack viewed
/// as `s0`, as `List::push`'s contract describes each step.
pub open spec fn push_all(s0: Seq<i32>, vs: Seq<i32>) -> Seq<i32>
    decreases vs.len(),
{
    if vs.len() == 0 {
        s0
    } else {
        push_all(s0, vs.drop_last()).push(vs.last())
    }
}

/// The values returned by popping a stack viewed as `s` until it is empty,
/// in the order the pops return them, as `List::pop`'s contract describes
/// each step.
pub open spec fn drain(s: Seq<i32>) -> Seq<i32>
    decreases s.len(),
{
    if s.len() == 0 {
        Seq::empty()
    } else {
        seq![s.last()] + drain(s.drop_last())
    }
}

/// Pushing a sequence of values leaves the stack holding exactly those
/// values on top of what was there before.
pub proof fn lemma_push_all(s0: Seq<i32>, vs: Seq<i32>)
    ensures
        push_all(s0, vs) == s0 + vs,
    decreases vs.len(),
{
    if vs.len() == 0 {
        assert(push_all(s0, vs) =~= s0 + vs);
    } else {
        lemma_push_all(s0, vs.drop_last());
        assert(push_all(s0, vs) =~= s0 + vs);
    }
}

/// For any values `v1, ..., vn` pushed in that order onto a fresh stack, `n`
/// pops return them in reverse order: `vn, ..., v1`.
pub proof fn lemma_pushes_then_pops_reverse(vs: Seq<i32>)
    ensures
        drain(push_all(Seq::empty(), vs)) == vs.reverse(),
    decreases vs.len(),
{
    lemma_push_all(Seq::empty(), vs);
    assert(push_all(Seq::empty(), vs) =~= vs);
    lemma_drain_reverses(vs);
}

/// Popping a stack until it is empty returns its values top first, that is,
/// in the reverse of the order they stand in the view.
pub proof fn lemma_drain_reverses(s: Seq<i32>)
    ensures
        drain(s) == s.reverse(),
    decreases s.len(),
{
    if s.len() == 0 {
        assert(drain(s) =~= s.reverse());
    } else {
        lemma_drain_reverses(s.drop_last());
        assert(drain(s) =~= s.reverse());
    }
}

/// The most recently pushed value in `ops` that `ops` itself has not popped
/// again, read off the operations alone: scanning backwards, each pop asks
/// to skip one more push, and the first push not asked to be skipped is the
/// answer. `skip` is the number of pushes the scan still has to pass over.
pub open spec fn latest_unpopped(ops: Seq<StackOp>, skip: nat) -> Option<i32>
    decreases ops.len(),
{
    if ops.len() == 0 {
        None
    } else {
        match ops.last() {
            StackOp::Pop => latest_unpopped(ops.drop_last(), skip + 1),
            StackOp::Push(v) => if skip == 0 {
                Some(v)
            } else {
                latest_unpopped(ops.drop_last(), (skip - 1) as nat)
            },
        }
    }
}

/// After any prefix of operations, the value standing `skip` places below
/// the top of the stack is the push that a backward scan of the prefix
/// reaches after passing over `skip` unpopped pushes.
pub proof fn lemma_latest_unpopped(s0: Seq<i32>, ops: Seq<StackOp>, skip: nat, v: i32)
    requires
        latest_unpopped(ops, skip) == Some(v),
    ensures
        run_from(s0, ops).len() > skip,
        run_from(s0, ops)[run_from(s0, ops).len() - 1 - skip] == v,
    decreases ops.len(),
{
    let prev = run_from(s0, ops.drop_last());
    match ops.last() {
        StackOp::Pop => {
            lemma_latest_unpopped(s0, ops.drop_last(), skip + 1, v);
            assert(run_from(s0, ops) == rest(prev));
        },
        StackOp::Push(w) => {
            if skip > 0 {
                lemma_latest_unpopped(s0, ops.drop_last(), (skip - 1) as nat, v);
            }
            assert(run_from(s0, ops) == prev.push(w));
        },
    }
}

/// LIFO order holds at every step of an interleaved sequence of pushes and
/// pops: after any prefix of operations on a fresh stack, the next pop
/// returns the most recently pushed value that has not yet been popped.
pub proof fn lemma_interleaved_lifo(ops: Seq<StackOp>, v: i32)
    requires
        latest_unpopped(ops, 0) == Some(v),
    ensures
        top(run(ops)) == Some(v),
{
    lemma_latest_unpopped(Seq::empty(), ops, 0, v);
}

/// The view after `n` pops from a stack viewed as `s`, as `List::pop`'s
/// contract describes each step.
pub open spec fn drained(s: Seq<i32>, n: nat) -> Seq<i32>
    decreases n,
{
    if n == 0 {
        s
    } else {
        rest(drained(s, (n - 1) as nat))
    }
}

/// Each pop strips the view down to a shorter prefix of what it was.
proof fn lemma_drained_take(s: Seq<i32>, n: nat)
    requires
        n <= s.len(),
    ensures
        drained(s, n) == s.take(s.len() - n),
    decreases n,
{
    if n == 0 {
        assert(drained(s, n) =~= s.take(s.len() - n));
    } else {
        lemma_drained_take(s, (n - 1) as nat);
        assert(drained(s, n) =~= s.take(s.len() - n));
    }
}

/// After popping all its elements, a stack's view is the view `List::new`
/// returns, so every later operation behaves exactly as on a fresh stack;
/// in particular one more pop returns no value and changes nothing.
pub proof fn lemma_drained_is_fresh(s: Seq<i32>)
    ensures
        drained(s, s.len()) == Seq::<i32>::empty(),
        top(drained(s, s.len())) == None::<i32>,
        rest(drained(s, s.len())) == Seq::<i32>::empty(),
{
    lemma_drained_take(s, s.len());
    assert(drained(s, s.len()) =~= Seq::<i32>::empty());
}

} // verus!
