//! A 256-slot ring of 64-bit words, overwritten generation after generation by a
//! single writer, and read through an optimistic version-checked snapshot.

use crate::publish::PublishedUsize;
use std::sync::atomic::Ordering;
use vstd::prelude::*;

verus! {

/// The number of slots of the ring.
pub const CAPACITY: usize = 256;

/// How many times a snapshot is attempted before it is given up.
pub const SNAPSHOT_ATTEMPTS: usize = 3;

/// The state of a ring as readers should see it: the words of the current
/// generation, oldest first, and the generation's number.
pub type RingState = (Seq<u64>, nat);

/// A ring with nothing appended yet.
pub open spec fn empty_ring() -> RingState {
    (Seq::empty(), 0)
}

/// Appending `item`: a full generation is closed first, so that `item` opens the
/// next one; otherwise `item` joins the current one.
pub open spec fn ring_step(st: RingState, item: u64) -> RingState {
    if st.0.len() >= CAPACITY {
        (seq![item], st.1 + 1)
    } else {
        (st.0.push(item), st.1)
    }
}

/// Appending every word of `items`, in order.
pub open spec fn ring_fill(st: RingState, items: Seq<u64>) -> RingState
    decreases items.len(),
{
    if items.len() == 0 {
        st
    } else {
        ring_step(ring_fill(st, items.drop_last()), items.last())
    }
}

/// `n` words taken from `src` in turn, word `i` being `src[i % src.len()]`.
pub open spec fn cycled_words(src: Seq<u64>, n: nat) -> Seq<u64> {
    Seq::new(n, |i: int| src[i % (src.len() as int)])
}

/// Sum of the words of `s`, wrapping at 2^64.
pub open spec fn wrapped_sum(s: Seq<u64>) -> u64
    decreases s.len(),
{
    if s.len() == 0 {
        0
    } else {
        ((wrapped_sum(s.drop_last()) + s.last()) % 0x1_0000_0000_0000_0000) as u64
    }
}

/// Why a snapshot could not be taken.
#[derive(Clone, Copy, Debug, PartialEq, Eq, Structural)]
pub enum SnapshotError {
    /// Every attempt saw the version change while it copied.
    Unavailable,
}

/// The ring: its slots, the current generation's length and number as plain
/// fields, and sequentially consistent atomic copies of length and number.
pub struct Base {
    data: Vec<u64>,
    len: usize,
    alen: PublishedUsize,
    aver: PublishedUsize,
    ver: usize,
}

/// A snapshot: a copy of one generation's words, and that generation's number.
pub struct Read {
    data: Vec<u64>,
    version: usize,
}

impl View for Base {
    type V = RingState;

    closed spec fn view(&self) -> RingState {
        (self.data@.subrange(0, self.len as int), self.ver as nat)
    }
}

impl View for Read {
    type V = RingState;

    closed spec fn view(&self) -> RingState {
        (self.data@, self.version as nat)
    }
}

/// Whether one more word can be appended: either the generation is not full, or
/// its number can still grow.
pub open spec fn can_append(st: RingState) -> bool {
    st.0.len() < CAPACITY || st.1 < usize::MAX
}

/// A copy of the first `len` words of `src`.
fn copy_prefix(src: &Vec<u64>, len: usize) -> (r: Vec<u64>)
    requires
        len <= src@.len(),
    ensures
        r@ == src@.subrange(0, len as int),
{
    let mut r: Vec<u64> = Vec::new();
    let mut i: usize = 0;
    while i < len
        invariant
            i <= len,
            len <= src@.len(),
            r@ == src@.subrange(0, i as int),
        decreases len - i,
    {
        r.push(src[i]);
        i = i + 1;
        assert(r@ =~= src@.subrange(0, i as int));
    }
    r
}

impl Base {
    /// All the slots, the current generation's and what is left of older ones.
    pub closed spec fn slots(&self) -> Seq<u64> {
        self.data@
    }

    /// The length published through the atomic copy.
    pub closed spec fn published_len(&self) -> nat {
        self.alen@ as nat
    }

    /// The version published through the atomic copy.
    pub closed spec fn published_version(&self) -> nat {
        self.aver@ as nat
    }

    /// There are exactly `CAPACITY` slots and the length stays within them; the
    /// published version is the version, and the published length never runs
    /// ahead of the length.
    pub closed spec fn wf(&self) -> bool {
        &&& self.data@.len() == CAPACITY
        &&& self.len <= CAPACITY
        &&& self.aver@ == self.ver
        &&& self.alen@ <= self.len
    }

    /// An empty ring: generation zero, all slots zero.
    pub fn new() -> (r: Base)
        ensures
            r.wf(),
            r@ == empty_ring(),
            r.slots() == Seq::new(CAPACITY as nat, |i: int| 0u64),
            r.published_len() == 0,
            r.published_version() == 0,
    {
        let mut data: Vec<u64> = Vec::new();
        let mut i: usize = 0;
        while i < CAPACITY
            invariant
                i <= CAPACITY,
                data@ == Seq::new(i as nat, |j: int| 0u64),
            decreases CAPACITY - i,
        {
            data.push(0u64);
            i = i + 1;
            assert(data@ =~= Seq::new(i as nat, |j: int| 0u64));
        }
        let r = Base { data, len: 0, alen: PublishedUsize::new(0), aver: PublishedUsize::new(0), ver: 0 };
        assert(r@.0 =~= Seq::<u64>::empty());
        r
    }

    /// Appends `item` to the plain fields. A wrap is always published: the
    /// atomic length drops to zero before the atomic version moves on. When
    /// `publish` holds, the new length is stored to its atomic copy as well.
    fn append(&mut self, item: u64, publish: bool)
        requires
            old(self).wf(),
            can_append(old(self)@),
        ensures
            final(self).wf(),
            final(self)@ == ring_step(old(self)@, item),
            final(self).slots() == old(self).slots().update(final(self)@.0.len() - 1, item),
            final(self).published_len() == (if publish {
                final(self)@.0.len()
            } else if old(self)@.0.len() == CAPACITY {
                0
            } else {
                old(self).published_len()
            }),
    {
        if self.len == CAPACITY {
            self.ver = self.ver + 1;
            self.len = 0;
            self.alen.store(0);
            self.aver.store(self.ver);
        }
        let pos = self.len;
        self.data.set(pos, item);
        self.len = pos + 1;
        if publish {
            self.alen.store(self.len);
        }
        proof {
            if old(self).len == CAPACITY {
                assert(self@.0 =~= seq![item]);
            } else {
                assert(self@.0 =~= old(self)@.0.push(item));
            }
        }
    }

    /// Appends `item`, publishing the new length, and the new version on a wrap,
    /// through the sequentially consistent atomic copies.
    pub fn atomic_push(&mut self, item: u64)
        requires
            old(self).wf(),
            can_append(old(self)@),
        ensures
            final(self).wf(),
            final(self)@ == ring_step(old(self)@, item),
            final(self).slots() == old(self).slots().update(final(self)@.0.len() - 1, item),
            final(self).published_len() == final(self)@.0.len(),
            final(self).published_version() == final(self)@.1,
    {
        self.append(item, true)
    }

    /// Appends `item` to the plain fields, with no synchronisation but on a
    /// wrap, which is published so that a snapshot never mixes generations.
    pub fn push(&mut self, item: u64)
        requires
            old(self).wf(),
            can_append(old(self)@),
        ensures
            final(self).wf(),
            final(self)@ == ring_step(old(self)@, item),
            final(self).slots() == old(self).slots().update(final(self)@.0.len() - 1, item),
            final(self).published_len() == (if old(self)@.0.len() == CAPACITY {
                0
            } else {
                old(self).published_len()
            }),
            final(self).published_version() == final(self)@.1,
    {
        self.append(item, false)
    }

    /// Takes a snapshot through the atomic copies of length and version: reads the
    /// version, copies as many slots as the published length says, and keeps the
    /// copy if the version is unchanged, trying at most three times. While the
    /// ring is borrowed nothing is stored, so the first attempt keeps the first
    /// published words of the current generation, tagged with its version.
    pub fn read_server(&self) -> (r: Result<Read, SnapshotError>)
        requires
            self.wf(),
        ensures
            r is Ok,
            r matches Ok(s) ==> s@ == (self@.0.subrange(0, self.published_len() as int), self@.1),
    {
        let mut attempt: usize = 0;
        while attempt < SNAPSHOT_ATTEMPTS
            invariant
                self.wf(),
                attempt == 0,
            decreases SNAPSHOT_ATTEMPTS - attempt,
        {
            let v = self.aver.load(Ordering::SeqCst);
            let len = self.alen.load(Ordering::SeqCst);
            let data = copy_prefix(&self.data, len);
            match self.snapshot_attempt(v, data, self.aver.load(Ordering::SeqCst)) {
                Some(s) => return Ok(s),
                None => {},
            }
            attempt = attempt + 1;
        }
        Err(SnapshotError::Unavailable)
    }

    /// Judges one attempt: the words copied under version `v` are kept, tagged
    /// with `v`, exactly when the version read after the copy is still `v`.
    pub fn snapshot_attempt(&self, v: usize, data: Vec<u64>, v_after: usize) -> (r: Option<Read>)
        ensures
            r is Some <==> v == v_after,
            r matches Some(s) ==> s@ == (data@, v as nat),
    {
        if v == v_after {
            Some(Read { data, version: v })
        } else {
            None
        }
    }

    /// Takes a snapshot through the plain fields: reads the version, copies the
    /// current generation, and keeps the copy if the version is unchanged, trying
    /// at most three times. Nothing changes the ring while it is borrowed, so the
    /// first attempt succeeds with exactly the ring's state.
    pub fn read(&self) -> (r: Result<Read, SnapshotError>)
        requires
            self.wf(),
        ensures
            r is Ok,
            r matches Ok(s) ==> s@ == self@,
    {
        let mut attempt: usize = 0;
        while attempt < SNAPSHOT_ATTEMPTS
            invariant
                self.wf(),
                attempt == 0,
            decreases SNAPSHOT_ATTEMPTS - attempt,
        {
            let v = self.ver;
            let data = copy_prefix(&self.data, self.len);
            if v == self.ver {
                return Ok(Read { data, version: v });
            }
            attempt = attempt + 1;
        }
        Err(SnapshotError::Unavailable)
    }
}

impl Read {
    /// The number of words in the snapshot.
    pub fn len(&self) -> (r: usize)
        ensures
            r == self@.0.len(),
    {
        self.data.len()
    }

    /// The generation the snapshot was taken from.
    pub fn version(&self) -> (r: usize)
        ensures
            r == self@.1,
    {
        self.version
    }

    /// The words of the snapshot, oldest first.
    pub fn as_slice(&self) -> (r: &[u64])
        ensures
            r@ == self@.0,
    {
        self.data.as_slice()
    }

    /// The sum of the snapshot's words, wrapping at 2^64.
    pub fn checksum(&self) -> (r: u64)
        ensures
            r == wrapped_sum(self@.0),
    {
        let mut sum: u64 = 0;
        let mut i: usize = 0;
        while i < self.data.len()
            invariant
                i <= self.data@.len(),
                sum == wrapped_sum(self.data@.take(i as int)),
            decreases self.data@.len() - i,
        {
            assert(self.data@.take(i + 1).drop_last() =~= self.data@.take(i as int));
            sum = sum.wrapping_add(self.data[i]);
            i = i + 1;
        }
        assert(self.data@.take(i as int) =~= self.data@);
        sum
    }
}

/// Appending `n > 0` words to an empty ring leaves generation `(n - 1) / 256`
/// holding the last `(n - 1) % 256 + 1` of them: with `n = 256 * k + r` and
/// `0 < r <= 256`, generation `k` holding `r` words. A generation is closed only
/// by the append that follows it once it is full.
pub proof fn law_wrap_count(items: Seq<u64>)
    requires
        items.len() > 0,
    ensures
        ring_fill(empty_ring(), items).1 == (items.len() - 1) / 256,
        ring_fill(empty_ring(), items).0 == items.subrange(
            items.len() - ((items.len() - 1) % 256 + 1),
            items.len() as int,
        ),
    decreases items.len(),
{
    let n = items.len() as int;
    let prev = items.drop_last();
    if n == 1 {
        assert(ring_fill(empty_ring(), prev) == empty_ring());
        assert(items.subrange(0, 1) =~= seq![items.last()]);
    } else {
        law_wrap_count(prev);
        let m = n - 1;
        let st = ring_fill(empty_ring(), prev);
        assert(st.0.len() == (m - 1) % 256 + 1);
        if (m - 1) % 256 == 255 {
            assert(m % 256 == 0 && m / 256 == (m - 1) / 256 + 1);
            assert(items.subrange(n - 1, n) =~= seq![items.last()]);
        } else {
            assert(m % 256 == (m - 1) % 256 + 1 && m / 256 == (m - 1) / 256);
            assert(items.subrange(n - (m % 256 + 1), n) =~= prev.subrange(
                m - ((m - 1) % 256 + 1),
                m,
            ).push(items.last()));
        }
    }
}

/// Appends `count` words cycled from `to_write`, with no synchronisation.
pub fn write_loop(data: &mut Base, to_write: &[u64], count: usize)
    requires
        old(data).wf(),
        to_write@.len() > 0,
        old(data)@.1 + count <= usize::MAX,
    ensures
        final(data).wf(),
        final(data)@ == ring_fill(old(data)@, cycled_words(to_write@, count as nat)),
        final(data).published_version() == final(data)@.1,
        final(data).published_len() <= final(data)@.0.len(),
{
    let l = to_write.len();
    let mut i: usize = 0;
    while i < count
        invariant
            data.wf(),
            l == to_write@.len(),
            l > 0,
            i <= count,
            old(data)@.1 + count <= usize::MAX,
            data@.1 <= old(data)@.1 + i,
            data@ == ring_fill(old(data)@, cycled_words(to_write@, i as nat)),
        decreases count - i,
    {
        assert(cycled_words(to_write@, (i + 1) as nat).drop_last() =~= cycled_words(
            to_write@,
            i as nat,
        ));
        data.push(to_write[i % l]);
        i = i + 1;
    }
}

/// Appends `count` words cycled from `to_write`, publishing through the atomic
/// copies on every `push_sync_freq`-th append and appending plainly otherwise.
pub fn atomic_write_loop(data: &mut Base, to_write: &[u64], count: usize, push_sync_freq: usize)
    requires
        old(data).wf(),
        to_write@.len() > 0,
        push_sync_freq > 0,
        old(data)@.1 + count <= usize::MAX,
    ensures
        final(data).wf(),
        final(data)@ == ring_fill(old(data)@, cycled_words(to_write@, count as nat)),
        final(data).published_version() == final(data)@.1,
        final(data).published_len() <= final(data)@.0.len(),
        count > 0 && (count - 1) % (push_sync_freq as int) == 0 ==> final(data).published_len()
            == final(data)@.0.len(),
{
    let l = to_write.len();
    let mut i: usize = 0;
    while i < count
        invariant
            data.wf(),
            l == to_write@.len(),
            l > 0,
            push_sync_freq > 0,
            i > 0 && (i - 1) % (push_sync_freq as int) == 0 ==> data.published_len() == data@.0.len(),
            i <= count,
            old(data)@.1 + count <= usize::MAX,
            data@.1 <= old(data)@.1 + i,
            data@ == ring_fill(old(data)@, cycled_words(to_write@, i as nat)),
        decreases count - i,
    {
        assert(cycled_words(to_write@, (i + 1) as nat).drop_last() =~= cycled_words(
            to_write@,
            i as nat,
        ));
        if i % push_sync_freq == 0 {
            data.atomic_push(to_write[i % l]);
        } else {
            data.push(to_write[i % l]);
        }
        i = i + 1;
    }
}

} // verus!
