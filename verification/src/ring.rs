//! The bounded FIFO store of recent lines awaiting possible emission as
//! before-context. The store itself is a `queues::CircularBuffer`, seen by
//! the verifier only through the named spec functions below: the lines it
//! holds (oldest first), the capacity it was made with, and whether it was
//! made without default values (`CircularBuffer::with_default` refills
//! emptied slots; buffers made here never do).

use vstd::prelude::*;
use queues::IsQueue;
use crate::matcher::views_of;

verus! {

#[verifier::external_type_specification]
#[verifier::external_body]
#[verifier::reject_recursive_types(T)]
pub struct ExCircularBuffer<T: Clone>(queues::CircularBuffer<T>);

/// The lines the buffer holds, oldest first.
pub uninterp spec fn cb_lines(b: queues::CircularBuffer<String>) -> Seq<Seq<char>>;

/// The capacity the buffer was made with.
pub uninterp spec fn cb_capacity(b: queues::CircularBuffer<String>) -> nat;

/// Whether the buffer was made without default values.
pub uninterp spec fn cb_plain(b: queues::CircularBuffer<String>) -> bool;

/// Relies on `queues::CircularBuffer::new`: the buffer starts empty, with
/// the given capacity and no default values.
#[verifier::external_body]
pub(crate) fn cb_new(capacity: usize) -> (b: queues::CircularBuffer<String>)
    ensures
        cb_lines(b) == Seq::<Seq<char>>::empty(),
        cb_capacity(b) == capacity as nat,
        cb_plain(b),
{
    queues::CircularBuffer::new(capacity)
}

/// Relies on `queues::CircularBuffer::add` (its `IsQueue` impl): the line is
/// appended and, when the buffer already holds as many lines as its
/// capacity, the oldest line is dropped to make room; with capacity 0 the
/// appended line is itself the one dropped.
#[verifier::external_body]
pub(crate) fn cb_add(b: &mut queues::CircularBuffer<String>, line: String)
    ensures
        cb_capacity(*final(b)) == cb_capacity(*old(b)),
        cb_plain(*final(b)) == cb_plain(*old(b)),
        cb_lines(*final(b)) == (if cb_lines(*old(b)).len() < cb_capacity(*old(b)) {
            cb_lines(*old(b)).push(line@)
        } else {
            cb_lines(*old(b)).push(line@).drop_first()
        }),
{
    let _ = b.add(line);
}

/// Relies on `queues::CircularBuffer::remove` (its `IsQueue` impl): on a
/// buffer made without default values it yields the oldest line and drops
/// it from the contents, or yields nothing when the buffer is empty.
#[verifier::external_body]
pub(crate) fn cb_remove(b: &mut queues::CircularBuffer<String>) -> (r: Option<String>)
    requires
        cb_plain(*old(b)),
    ensures
        cb_capacity(*final(b)) == cb_capacity(*old(b)),
        cb_plain(*final(b)),
        cb_lines(*old(b)).len() == 0 ==> r is None && cb_lines(*final(b)) == cb_lines(*old(b)),
        cb_lines(*old(b)).len() > 0 ==> (r matches Some(line) && line@ == cb_lines(*old(b))[0]
            && cb_lines(*final(b)) == cb_lines(*old(b)).drop_first()),
{
    match b.remove() {
        Ok(line) => Some(line),
        Err(_) => None,
    }
}

/// Relies on `queues::CircularBuffer::size` (its `IsQueue` impl): the
/// number of lines presently held.
#[verifier::external_body]
pub(crate) fn cb_size(b: &queues::CircularBuffer<String>) -> (n: usize)
    ensures
        n as nat == cb_lines(*b).len(),
{
    b.size()
}

/// Empty the buffer, yielding its lines oldest first.
pub(crate) fn cb_drain(b: &mut queues::CircularBuffer<String>) -> (out: Vec<String>)
    requires
        cb_plain(*old(b)),
    ensures
        cb_plain(*final(b)),
        cb_capacity(*final(b)) == cb_capacity(*old(b)),
        cb_lines(*final(b)) == Seq::<Seq<char>>::empty(),
        views_of(out@) == cb_lines(*old(b)),
{
    let mut out: Vec<String> = Vec::new();
    while cb_size(b) > 0
        invariant
            cb_plain(*b),
            cb_capacity(*b) == cb_capacity(*old(b)),
            views_of(out@) + cb_lines(*b) =~= cb_lines(*old(b)),
        decreases cb_lines(*b).len(),
    {
        let ghost prev = views_of(out@);
        let ghost held = cb_lines(*b);
        if let Some(line) = cb_remove(b) {
            out.push(line);
            assert(views_of(out@) =~= prev.push(line@));
            assert(views_of(out@) + cb_lines(*b) =~= prev + held);
        }
    }
    assert(views_of(out@) =~= views_of(out@) + cb_lines(*b));
    out
}

} // verus!
