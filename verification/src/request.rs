use vstd::prelude::*;

verus! {

/// Characters of capacity reserved in each request's payload buffer.  The
/// buffer is never filled: the reservation only simulates the cost of a
/// large allocation.
pub const PAYLOAD_CAPACITY: usize = 1000000;

/// A synthetic unit of work: an integer identifier together with a large,
/// pre-reserved, initially empty text buffer.
pub struct Request {
    pub num: i32,
    pub payload: String,
}

/// Relies on `String::with_capacity`: returns a new empty `String` with at
/// least `capacity` bytes of buffer reserved.
#[verifier::external_body]
fn string_with_capacity(capacity: usize) -> (r: String)
    ensures
        r@ == Seq::<char>::empty(),
{
    String::with_capacity(capacity)
}

impl Request {
    /// Builds a request whose identifier is the given construction index and
    /// whose payload is empty, with its buffer pre-reserved.
    pub fn new(n: i32) -> (r: Request)
        ensures
            r.num == n,
            r.payload@ == Seq::<char>::empty(),
    {
        Request { num: n, payload: string_with_capacity(PAYLOAD_CAPACITY) }
    }
}

} // verus!
