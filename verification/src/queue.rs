//! The FIFO holding pen of records not currently visible in the grid.
//!
//! The queue itself is the `queues` crate's growable `Queue`; its contents
//! are named by an uninterpreted sequence, and each method the grid calls is
//! wrapped with a contract matching what the crate's source does: `add`
//! pushes at the back, `remove` pops the front, `size` is the length.

use vstd::prelude::*;
use queues::IsQueue;

verus! {

#[verifier::external_type_specification]
#[verifier::external_body]
#[verifier::reject_recursive_types(T)]
pub struct ExQueue<T: Clone>(queues::Queue<T>);

/// The records held by a queue, oldest first.
pub uninterp spec fn queue_contents(q: queues::Queue<usize>) -> Seq<usize>;

/// Relies on queues::Queue::new: a fresh queue holds nothing.
#[verifier::external_body]
fn queue_new() -> (q: queues::Queue<usize>)
    ensures
        queue_contents(q) == Seq::<usize>::empty(),
{
    queues::Queue::new()
}

/// Relies on queues::Queue::add: pushes the value at the back and always
/// succeeds on this unbounded queue.
#[verifier::external_body]
fn queue_add(q: &mut queues::Queue<usize>, val: usize)
    ensures
        queue_contents(*final(q)) == queue_contents(*old(q)).push(val),
{
    let _ = q.add(val);
}

/// Relies on queues::Queue::remove: pops and returns the oldest record, or
/// fails on an empty queue.
#[verifier::external_body]
fn queue_remove(q: &mut queues::Queue<usize>) -> (r: Option<usize>)
    ensures
        queue_contents(*old(q)).len() == 0 ==> r is None && queue_contents(*final(q))
            == queue_contents(*old(q)),
        queue_contents(*old(q)).len() > 0 ==> r == Some(queue_contents(*old(q))[0])
            && queue_contents(*final(q)) == queue_contents(*old(q)).drop_first(),
{
    q.remove().ok()
}

/// Relies on queues::Queue::size: the number of records held.
#[verifier::external_body]
fn queue_size(q: &queues::Queue<usize>) -> (n: usize)
    ensures
        n == queue_contents(*q).len(),
{
    q.size()
}

/// The FIFO of albums waiting off screen, stored as catalog indices.
/// Records leave oldest-first to refill grid slots and re-enter at the back
/// when they scroll off or a gesture returns them.
pub struct AlbumQueue {
    inner: queues::Queue<usize>,
}

impl View for AlbumQueue {
    type V = Seq<usize>;

    closed spec fn view(&self) -> Seq<usize> {
        queue_contents(self.inner)
    }
}

impl AlbumQueue {
    /// An empty queue.
    pub fn new() -> (q: AlbumQueue)
        ensures
            q@ == Seq::<usize>::empty(),
    {
        AlbumQueue { inner: queue_new() }
    }

    /// Appends a record at the back.
    pub fn enqueue(&mut self, record: usize)
        ensures
            final(self)@ == old(self)@.push(record),
    {
        queue_add(&mut self.inner, record);
    }

    /// Removes and returns the oldest record, or `None` when empty.
    pub fn dequeue(&mut self) -> (r: Option<usize>)
        ensures
            old(self)@.len() == 0 ==> r is None && final(self)@ == old(self)@,
            old(self)@.len() > 0 ==> r == Some(old(self)@[0]) && final(self)@ == old(
                self,
            )@.drop_first(),
    {
        queue_remove(&mut self.inner)
    }

    /// The number of records waiting.
    pub fn len(&self) -> (n: usize)
        ensures
            n == self@.len(),
    {
        queue_size(&self.inner)
    }
}

} // verus!
