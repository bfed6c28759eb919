use vstd::prelude::*;
use std::collections::VecDeque;
use crate::request::Request;

verus! {

/// The mathematical model of one request: its identifier and its payload
/// text.
pub open spec fn request_model(r: Request) -> (int, Seq<char>) {
    (r.num as int, r.payload@)
}

/// The model of a queue of requests, oldest first.
pub open spec fn queue_model(s: Seq<Request>) -> Seq<(int, Seq<char>)> {
    s.map_values(|r: Request| request_model(r))
}

/// The model of a freshly built request with identifier `idx`.
pub open spec fn fresh_request(idx: int) -> (int, Seq<char>) {
    (idx, Seq::<char>::empty())
}

/// The queue the fill phase produces for a buffer size of `b`: fresh
/// requests with identifiers 0, 1, ..., b - 1 in insertion order.
pub open spec fn filled_queue(b: nat) -> Seq<(int, Seq<char>)> {
    Seq::new(b, |j: int| fresh_request(j))
}

/// The repetition count that a possibly negative argument stands for:
/// negative counts mean zero repetitions.
pub open spec fn count_of(n: i32) -> nat {
    if n >= 0 {
        n as nat
    } else {
        0
    }
}

/// One churn step with construction index `idx`: the oldest entry leaves if
/// the queue is non-empty, and a fresh request is appended at the tail.
pub open spec fn churn_step(q: Seq<(int, Seq<char>)>, idx: int) -> Seq<(int, Seq<char>)> {
    if q.len() == 0 {
        q.push(fresh_request(idx))
    } else {
        q.drop_first().push(fresh_request(idx))
    }
}

/// The queue after `count` churn steps with construction indices 0, ...,
/// count - 1.
pub open spec fn churned(q: Seq<(int, Seq<char>)>, count: nat) -> Seq<(int, Seq<char>)>
    decreases count,
{
    if count == 0 {
        q
    } else {
        churn_step(churned(q, (count - 1) as nat), count - 1)
    }
}

/// Fill phase: builds the queue of fresh requests with identifiers
/// 0..buffer_size in insertion order.  A negative buffer size means an
/// empty queue.
pub fn fill(buffer_size: i32) -> (q: VecDeque<Request>)
    ensures
        queue_model(q@) == filled_queue(count_of(buffer_size)),
        q@.len() == count_of(buffer_size),
        forall|j: int| 0 <= j < q@.len() ==> q@[j].num == j && q@[j].payload@.len() == 0,
{
    let mut q: VecDeque<Request> = VecDeque::new();
    let mut i: i32 = 0;
    proof {
        assert(queue_model(q@) =~= filled_queue(0));
    }
    while i < buffer_size
        invariant
            0 <= i,
            i <= count_of(buffer_size),
            q@.len() == i,
            queue_model(q@) == filled_queue(i as nat),
        decreases buffer_size - i,
    {
        let ghost before = q@;
        let r = Request::new(i);
        let ghost pushed = r;
        q.push_back(r);
        proof {
            assert forall|j: int| 0 <= j < i + 1 implies queue_model(q@)[j] == fresh_request(
                j,
            ) by {
                if j < i {
                    assert(before.push(pushed)[j] == before[j]);
                    assert(queue_model(before)[j] == filled_queue(i as nat)[j]);
                } else {
                    assert(before.push(pushed)[j] == pushed);
                }
            }
            assert(queue_model(q@) =~= filled_queue((i + 1) as nat));
        }
        i = i + 1;
    }
    proof {
        assert(q@.len() == count_of(buffer_size));
        assert forall|j: int| 0 <= j < q@.len() implies q@[j].num == j && q@[j].payload@.len()
            == 0 by {
            assert(queue_model(q@)[j] == filled_queue(count_of(buffer_size))[j]);
        }
    }
    q
}

/// Churn phase: `num_iterations` repetitions (none for a negative count) of
/// one churn step, with construction indices restarting at 0.  Note the
/// dequeue-on-empty edge: a step on an empty queue removes nothing, so a
/// queue that starts empty settles at length one after the first step.
pub fn churn(q: &mut VecDeque<Request>, num_iterations: i32)
    ensures
        queue_model(final(q)@) == churned(queue_model(old(q)@), count_of(num_iterations)),
{
    let mut i: i32 = 0;
    while i < num_iterations
        invariant
            0 <= i,
            i <= count_of(num_iterations),
            queue_model(q@) == churned(queue_model(old(q)@), i as nat),
        decreases num_iterations - i,
    {
        let ghost before = queue_model(q@);
        let _dropped = q.pop_front();
        q.push_back(Request::new(i));
        proof {
            assert(queue_model(q@) =~= churn_step(before, i as int));
            assert(churned(queue_model(old(q)@), (i + 1) as nat) == churn_step(
                churned(queue_model(old(q)@), i as nat),
                i as int,
            ));
        }
        i = i + 1;
    }
}

/// The whole benchmark: fill phase, then churn phase.
pub fn run(num_iterations: i32, buffer_size: i32) -> (q: VecDeque<Request>)
    ensures
        queue_model(q@) == churned(
            filled_queue(count_of(buffer_size)),
            count_of(num_iterations),
        ),
{
    let mut q = fill(buffer_size);
    churn(&mut q, num_iterations);
    q
}

/// Law: across the churn phase the queue length is invariant when the queue
/// starts non-empty — every step removes exactly one entry and appends
/// exactly one.
pub proof fn lemma_churn_length_invariant(q: Seq<(int, Seq<char>)>, count: nat)
    requires
        q.len() > 0,
    ensures
        churned(q, count).len() == q.len(),
    decreases count,
{
    if count > 0 {
        lemma_churn_length_invariant(q, (count - 1) as nat);
    }
}

/// The churn phase's result in closed form for a non-empty starting queue:
/// the oldest min(count, len) entries have left, and fresh requests with
/// the last min(count, len) construction indices stand at the tail.
pub open spec fn churned_form(q: Seq<(int, Seq<char>)>, count: nat) -> Seq<(int, Seq<char>)> {
    if count <= q.len() {
        q.skip(count as int) + Seq::new(count, |j: int| fresh_request(j))
    } else {
        Seq::new(q.len(), |j: int| fresh_request(count - q.len() + j))
    }
}

/// Law: on a non-empty starting queue the churn phase's result is
/// `churned_form`: each step discards the oldest entry, so after `count`
/// steps the surviving prefix of the original queue is followed by the
/// `min(count, len)` most recently built requests, in construction order.
pub proof fn lemma_churned_closed_form(q: Seq<(int, Seq<char>)>, count: nat)
    requires
        q.len() > 0,
    ensures
        churned(q, count) == churned_form(q, count),
    decreases count,
{
    if count == 0 {
        assert(churned(q, 0) =~= churned_form(q, 0));
    } else {
        let prev = (count - 1) as nat;
        lemma_churned_closed_form(q, prev);
        lemma_churn_length_invariant(q, prev);
        assert(churned(q, count) =~= churned_form(q, count));
    }
}

/// Law: churning a queue that starts empty removes nothing on the first
/// step, so the length settles at one: it is 0 while no step has run and 1
/// after any number of steps.
pub proof fn lemma_churn_from_empty(count: nat)
    ensures
        churned(Seq::<(int, Seq<char>)>::empty(), count).len() == (if count == 0 {
            0int
        } else {
            1int
        }),
    decreases count,
{
    if count > 0 {
        lemma_churn_from_empty((count - 1) as nat);
    }
}

} // verus!
