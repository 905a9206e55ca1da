//! The fixed-capacity containers that hold the window and the carried bytes.
//!
//! Both come from `heapless` and store their items inline. Nothing in this file
//! is proved: each function states what the `heapless` method it calls does to
//! the container's items.

use vstd::prelude::*;

verus! {

/// `heapless::Deque`, a ring buffer of at most `N` items stored inline.
#[verifier::external_type_specification]
#[verifier::external_body]
#[verifier::reject_recursive_types(T)]
pub struct ExDeque<T, const N: usize>(heapless::Deque<T, N>);

/// `heapless::Vec`, a vector of at most `N` items stored inline.
#[verifier::external_type_specification]
#[verifier::external_body]
#[verifier::reject_recursive_types(T)]
pub struct ExVec<T, const N: usize>(heapless::Vec<T, N>);

/// The items of a sample queue, front first.
pub uninterp spec fn queue_items(queue: heapless::Deque<i32, 10>) -> Seq<i32>;

/// The items of a byte buffer, in order.
pub uninterp spec fn buffer_items(buffer: heapless::Vec<u8, 4>) -> Seq<u8>;

/// Calls `heapless::Deque::new`, which makes an empty queue.
#[verifier::external_body]
pub(crate) fn queue_new() -> (queue: heapless::Deque<i32, 10>)
    ensures
        queue_items(queue) == Seq::<i32>::empty(),
{
    heapless::Deque::new()
}

/// Calls `heapless::Deque::len`, the number of items in the queue.
#[verifier::external_body]
pub(crate) fn queue_len(queue: &heapless::Deque<i32, 10>) -> (len: usize)
    ensures
        len == queue_items(*queue).len(),
{
    queue.len()
}

/// Calls `heapless::Deque::pop_front`, which removes the front item and
/// returns it, or returns `None` and changes nothing if the queue is empty.
#[verifier::external_body]
pub(crate) fn queue_pop_front(queue: &mut heapless::Deque<i32, 10>) -> (front: Option<i32>)
    ensures
        match front {
            Some(item) => {
                &&& queue_items(*old(queue)).len() > 0
                &&& item == queue_items(*old(queue))[0]
                &&& queue_items(*final(queue)) == queue_items(*old(queue)).drop_first()
            },
            None => {
                &&& queue_items(*old(queue)).len() == 0
                &&& queue_items(*final(queue)) == queue_items(*old(queue))
            },
        },
{
    queue.pop_front()
}

/// Calls `heapless::Deque::push_back`, which appends the item at the back, or
/// hands it back and changes nothing if the queue already holds ten items.
#[verifier::external_body]
pub(crate) fn queue_push_back(
    queue: &mut heapless::Deque<i32, 10>,
    item: i32,
) -> (pushed: Result<(), i32>)
    ensures
        match pushed {
            Ok(_) => {
                &&& queue_items(*old(queue)).len() < 10
                &&& queue_items(*final(queue)) == queue_items(*old(queue)).push(item)
            },
            Err(refused) => {
                &&& queue_items(*old(queue)).len() >= 10
                &&& refused == item
                &&& queue_items(*final(queue)) == queue_items(*old(queue))
            },
        },
{
    queue.push_back(item)
}

/// Calls `heapless::Deque::iter`, which visits the items front to back, and
/// collects what it yields.
#[verifier::external_body]
pub(crate) fn queue_to_vec(queue: &heapless::Deque<i32, 10>) -> (items: Vec<i32>)
    ensures
        items@ == queue_items(*queue),
{
    queue.iter().copied().collect()
}

/// Calls `heapless::Vec::new`, which makes an empty buffer.
#[verifier::external_body]
pub(crate) fn buffer_new() -> (buffer: heapless::Vec<u8, 4>)
    ensures
        buffer_items(buffer) == Seq::<u8>::empty(),
{
    heapless::Vec::new()
}

/// Calls `heapless::Vec::as_slice`, which borrows the items as a slice.
#[verifier::external_body]
pub(crate) fn buffer_as_slice(buffer: &heapless::Vec<u8, 4>) -> (items: &[u8])
    ensures
        items@ == buffer_items(*buffer),
{
    buffer.as_slice()
}

/// Calls `heapless::Vec::extend_from_slice`, which appends all of `more` if
/// the result holds at most four items, and otherwise changes nothing and
/// reports an error.
#[verifier::external_body]
pub(crate) fn buffer_extend_from_slice(
    buffer: &mut heapless::Vec<u8, 4>,
    more: &[u8],
) -> (extended: Result<(), ()>)
    ensures
        match extended {
            Ok(_) => {
                &&& buffer_items(*old(buffer)).len() + more@.len() <= 4
                &&& buffer_items(*final(buffer)) == buffer_items(*old(buffer)) + more@
            },
            Err(_) => {
                &&& buffer_items(*old(buffer)).len() + more@.len() > 4
                &&& buffer_items(*final(buffer)) == buffer_items(*old(buffer))
            },
        },
{
    buffer.extend_from_slice(more)
}

/// Calls `heapless::Vec::clear`, which removes every item.
#[verifier::external_body]
pub(crate) fn buffer_clear(buffer: &mut heapless::Vec<u8, 4>)
    ensures
        buffer_items(*final(buffer)) == Seq::<u8>::empty(),
{
    buffer.clear()
}

} // verus!
