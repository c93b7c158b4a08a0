use vstd::prelude::*;

verus! {

/// Number of occurrences of `d` in `s`.
pub open spec fn count_byte(s: Seq<u8>, d: u8) -> nat
    decreases s.len(),
{
    if s.len() == 0 {
        0
    } else {
        count_byte(s.drop_last(), d) + if s.last() == d { 1nat } else { 0nat }
    }
}

/// Counts the occurrences of the delimiter `d` in `chunk`.
pub fn count_delimiters(chunk: &[u8], d: u8) -> (r: u64)
    ensures
        r == count_byte(chunk@, d),
{
    let mut n: u64 = 0;
    let mut i: usize = 0;
    while i < chunk.len()
        invariant
            i <= chunk@.len(),
            n == count_byte(chunk@.take(i as int), d),
            n <= i,
        decreases chunk@.len() - i,
    {
        assert(chunk@.take(i as int + 1).drop_last() == chunk@.take(i as int));
        if chunk[i] == d {
            n = n + 1;
        }
        i = i + 1;
    }
    assert(chunk@.take(i as int) == chunk@);
    n
}

} // verus!
