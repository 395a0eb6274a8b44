//! The data that writers copy from: random bytes with no zero among them, and
//! random 64-bit words.

use vstd::prelude::*;

verus! {

/// Relies on `rand::random`: a value drawn from the thread-local generator.
/// Nothing is promised of the value.
pub assume_specification<T>[ rand::random::<T> ]() -> T
    where
        rand::distributions::Standard: rand::distributions::Distribution<T>,
;

/// The byte that stands for `b` in a source: zero becomes one, anything else is kept.
pub open spec fn nonzero(b: u8) -> u8 {
    if b == 0 {
        1
    } else {
        b
    }
}

/// Replaces every zero byte of `raw` by one, keeping the others, so that a zero
/// in the storage can only mean an unwritten slot.
pub fn nonzero_bytes(raw: Vec<u8>) -> (r: Vec<u8>)
    ensures
        r@.len() == raw@.len(),
        forall|i: int| 0 <= i < raw@.len() ==> r@[i] == nonzero(raw@[i]),
{
    let mut r = raw;
    let mut i: usize = 0;
    while i < r.len()
        invariant
            i <= r@.len(),
            r@.len() == raw@.len(),
            forall|j: int| 0 <= j < i ==> r@[j] == nonzero(raw@[j]),
            forall|j: int| i <= j < r@.len() ==> r@[j] == raw@[j],
        decreases r@.len() - i,
    {
        if r[i] == 0 {
            r.set(i, 1);
        }
        i = i + 1;
    }
    r
}

/// One hundred random bytes, none of them zero.
pub fn new_data() -> (r: Vec<u8>)
    ensures
        r@.len() == 100,
        forall|i: int| 0 <= i < r@.len() ==> r@[i] != 0,
{
    let mut raw: Vec<u8> = Vec::new();
    let mut i: usize = 0;
    while i < 100
        invariant
            i <= 100,
            raw@.len() == i,
        decreases 100 - i,
    {
        let b: u8 = rand::random();
        raw.push(b);
        i = i + 1;
    }
    nonzero_bytes(raw)
}

/// `n` random 64-bit words.
pub fn random_words(n: usize) -> (r: Vec<u64>)
    ensures
        r@.len() == n,
{
    let mut r: Vec<u64> = Vec::new();
    let mut i: usize = 0;
    while i < n
        invariant
            i <= n,
            r@.len() == i,
        decreases n - i,
    {
        let w: u64 = rand::random();
        r.push(w);
        i = i + 1;
    }
    r
}

} // verus!
