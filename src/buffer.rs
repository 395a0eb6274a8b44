//! The append buffer: a fixed-length byte storage filled once, front to back,
//! by a single writer that publishes its cursor to readers.

use crate::publish::{LockedUsize, PublishedFlags, PublishedUsize};
use std::sync::atomic::{fence, Ordering};
use vstd::prelude::*;

verus! {

/// Sum of the bytes of `s`, as a mathematical integer.
pub open spec fn byte_sum(s: Seq<u8>) -> nat
    decreases s.len(),
{
    if s.len() == 0 {
        0
    } else {
        byte_sum(s.drop_last()) + s.last() as nat
    }
}

/// A buffer of length `l` filled from `src`, slot `i` taking `src[i % src.len()]`.
pub open spec fn cycled(src: Seq<u8>, l: nat) -> Seq<u8> {
    Seq::new(l, |i: int| src[i % (src.len() as int)])
}

/// The checksum a completed write pass of length `l` from `src` must produce.
pub open spec fn expected_checksum(src: Seq<u8>, l: nat) -> nat {
    byte_sum(cycled(src, l))
}

/// What a write pass started from `before` leaves in `after`: the slots below the
/// old cursor are kept, every later slot `i` holds `src[i % src.len()]`, and the
/// cursor stands at the end.
pub open spec fn pass_written(before: Data, after: Data, src: Seq<u8>) -> bool {
    &&& after.wf()
    &&& after.storage().len() == before.storage().len()
    &&& after.cursor() == after.storage().len()
    &&& forall|i: int| 0 <= i < before.cursor() ==> after.storage()[i] == before.storage()[i]
    &&& forall|i: int|
        before.cursor() <= i < after.storage().len() ==> after.storage()[i] == src[i
            % (src.len() as int)]
}

/// How often a reader polls the published cursor before it gives up.
pub const MAX_POLLS: u64 = 16_777_216;

/// What a reader reports instead of completing.
#[derive(Clone, Copy, Debug, PartialEq, Eq, Structural)]
pub enum ReadError {
    /// The cursor said this slot was written, but the reader saw it still zero:
    /// the reader ran ahead of the writer.
    WriterBehind(usize),
    /// The observed cursor lies past the end of the storage.
    CursorOutOfRange(usize),
    /// The cursor never reached the end within the poll budget.
    Stalled,
}

/// What a reader that observes cursor value `c` on `d` decides: an error, or
/// whether it is done (`true`) or must poll again (`false`).
pub open spec fn observation(d: Data, c: nat) -> Result<bool, ReadError> {
    if c > d.storage().len() {
        Err(ReadError::CursorOutOfRange(c as usize))
    } else if c > 0 && d.storage()[c - 1] == 0 {
        Err(ReadError::WriterBehind((c - 1) as usize))
    } else {
        Ok(c == d.storage().len())
    }
}

/// A reader's outcome is sound: every slot it reports as lagging was indeed
/// zero, and every out-of-range cursor it reports was indeed past the end.
pub open spec fn sound_outcome(d: Data, r: Result<(), ReadError>) -> bool {
    match r {
        Err(ReadError::WriterBehind(i)) => i < d.storage().len() && d.storage()[i as int] == 0,
        Err(ReadError::CursorOutOfRange(c)) => c > d.storage().len(),
        _ => true,
    }
}

/// What a polling reader returns when every poll sees cursor value `c`: the
/// observation's error, success once `c` is the length, and otherwise a stall
/// when the poll budget runs out.
pub open spec fn reader_result(d: Data, c: nat) -> Result<(), ReadError> {
    match observation(d, c) {
        Err(e) => Err(e),
        Ok(true) => Ok(()),
        Ok(false) => Err(ReadError::Stalled),
    }
}

/// Slot `i`'s flag is raised, but the slot still holds zero.
pub open spec fn lagging(d: Data, i: int) -> bool {
    d.flags()[i] && d.storage()[i] == 0
}

/// How the writer publishes its cursor after each byte.
enum Publication {
    Plain,
    Locked,
    SeqCst,
    Optional(usize),
    Fenced,
    Flags,
}

/// A byte storage of fixed length, its writer's cursor, and the copies of that
/// cursor each discipline publishes: an atomic counter, a mutex-guarded counter,
/// and one atomic flag per slot.
pub struct Data {
    data: Vec<u8>,
    idx: usize,
    atomic_idx: PublishedUsize,
    mutex_idx: LockedUsize,
    atomic_bool: PublishedFlags,
}

/// What a write pass in `mode` from `before` has done to the published copies
/// by the time its cursor reaches `after`'s: the copies it does not use are
/// kept; the mutex counter follows the cursor; each atomic increment adds one;
/// each written slot has its flag raised. The occasional stores of the optional
/// discipline are left open here.
spec fn published_progress(mode: Publication, before: Data, after: Data) -> bool {
    let kept_published = after.published_cursor() == before.published_cursor();
    let kept_locked = after.locked_cursor() == before.locked_cursor();
    let kept_flags = after.flags() == before.flags();
    match mode {
        Publication::Plain => kept_published && kept_locked && kept_flags,
        Publication::Locked => kept_published && kept_flags && after.locked_cursor() == (if before.cursor()
            < after.cursor() {
            after.cursor()
        } else {
            before.locked_cursor() as nat
        }),
        Publication::SeqCst | Publication::Fenced => kept_locked && kept_flags
            && after.published_cursor() == before.published_cursor() + after.cursor()
            - before.cursor(),
        Publication::Optional(_) => kept_locked && kept_flags,
        Publication::Flags => kept_published && kept_locked && after.flags() == Seq::new(
            before.flags().len(),
            |i: int|
                if before.cursor() <= i < after.cursor() {
                    true
                } else {
                    before.flags()[i]
                },
        ),
    }
}

impl Data {
    /// The bytes of the storage.
    pub closed spec fn storage(&self) -> Seq<u8> {
        self.data@
    }

    /// The writer's cursor: the number of slots written so far.
    pub closed spec fn cursor(&self) -> nat {
        self.idx as nat
    }

    /// The cursor stays within the storage, and there is one flag per slot.
    /// The cursor published through the atomic.
    pub closed spec fn published_cursor(&self) -> nat {
        self.atomic_idx@ as nat
    }

    /// The cursor published behind the mutex.
    pub closed spec fn locked_cursor(&self) -> nat {
        self.mutex_idx@ as nat
    }

    /// The per-slot flags.
    pub closed spec fn flags(&self) -> Seq<bool> {
        self.atomic_bool@
    }

    /// The cursor stays within the storage and no published copy runs ahead of
    /// it: both published cursors are at most the cursor, and no flag at or past
    /// it is raised. There is one flag per slot.
    pub closed spec fn wf(&self) -> bool {
        &&& self.idx <= self.data@.len()
        &&& self.atomic_bool.wf()
        &&& self.atomic_bool@.len() == self.data@.len()
        &&& self.atomic_idx@ <= self.idx
        &&& self.mutex_idx@ <= self.idx
        &&& forall|i: int| self.idx <= i < self.data@.len() ==> !self.atomic_bool@[i]
    }

    /// A zero-filled buffer of length `l` with its cursor at the start.
    pub fn new(l: usize) -> (r: Data)
        ensures
            r.wf(),
            r.storage() == Seq::new(l as nat, |i: int| 0u8),
            r.cursor() == 0,
            r.published_cursor() == 0,
            r.locked_cursor() == 0,
            r.flags() == Seq::new(l as nat, |i: int| false),
    {
        let mut data: Vec<u8> = Vec::new();
        let mut i: usize = 0;
        while i < l
            invariant
                i <= l,
                data@.len() == i,
                forall|j: int| 0 <= j < i ==> data@[j] == 0u8,
            decreases l - i,
        {
            data.push(0u8);
            i = i + 1;
        }
        let r = Data {
            data,
            idx: 0,
            atomic_idx: PublishedUsize::new(0),
            mutex_idx: LockedUsize::new(0),
            atomic_bool: PublishedFlags::new(l),
        };
        assert(r.storage() =~= Seq::new(l as nat, |i: int| 0u8));
        r
    }

    /// Writes every slot from the cursor to the end, publishing each advance as
    /// `mode` says.
    fn write_pass(&mut self, src: &[u8], mode: Publication)
        requires
            old(self).wf(),
            src@.len() > 0,
            mode matches Publication::Optional(f) ==> f > 0,
        ensures
            pass_written(*old(self), *final(self), src@),
            published_progress(mode, *old(self), *final(self)),
            mode matches Publication::Optional(_) ==> final(self).published_cursor()
                == final(self).storage().len(),
    {
        let n = src.len();
        let l = self.data.len();
        proof {
            if mode is Flags {
                assert(self.flags() =~= Seq::new(
                    old(self).flags().len(),
                    |j: int|
                        if old(self).cursor() <= j < self.cursor() {
                            true
                        } else {
                            old(self).flags()[j]
                        },
                ));
            }
        }
        while self.idx < l
            invariant
                self.wf(),
                n == src@.len(),
                n > 0,
                l == self.data@.len(),
                l == old(self).data@.len(),
                old(self).idx <= self.idx,
                mode matches Publication::Optional(f) ==> f > 0,
                published_progress(mode, *old(self), *self),
                forall|i: int| 0 <= i < old(self).idx ==> self.data@[i] == old(self).data@[i],
                forall|i: int| old(self).idx <= i < self.idx ==> self.data@[i] == src@[i % (n as int)],
            decreases l - self.idx,
        {
            let i = self.idx;
            self.data.set(i, src[i % n]);
            match mode {
                Publication::Plain => {},
                Publication::Locked => {
                    self.mutex_idx.store(i + 1);
                },
                Publication::SeqCst => {
                    self.atomic_idx.fetch_add(1, Ordering::SeqCst);
                },
                Publication::Optional(sync_freq) => {
                    fence(Ordering::Release);
                    if i % sync_freq == 0 {
                        self.atomic_idx.store(i + 1);
                    }
                },
                Publication::Fenced => {
                    fence(Ordering::Release);
                    self.atomic_idx.fetch_add(1, Ordering::Relaxed);
                },
                Publication::Flags => {
                    self.atomic_bool.raise(i);
                },
            }
            self.idx = i + 1;
            proof {
                if mode is Flags {
                    assert(self.flags() =~= Seq::new(
                    old(self).flags().len(),
                    |j: int|
                        if old(self).cursor() <= j < self.cursor() {
                            true
                        } else {
                            old(self).flags()[j]
                        },
                    ));
                }
            }
        }
        if let Publication::Optional(_) = mode {
            self.atomic_idx.store(self.idx);
        }
    }

    /// Fills the buffer with no synchronisation at all: the cursor is a plain field.
    pub fn push(&mut self, data: &[u8])
        requires
            old(self).wf(),
            data@.len() > 0,
        ensures
            pass_written(*old(self), *final(self), data@),
            final(self).published_cursor() == old(self).published_cursor(),
            final(self).locked_cursor() == old(self).locked_cursor(),
            final(self).flags() == old(self).flags(),
    {
        self.write_pass(data, Publication::Plain)
    }

    /// Fills the buffer, advancing a mutex-guarded copy of the cursor after each byte.
    pub fn mutex_push(&mut self, data: &[u8])
        requires
            old(self).wf(),
            data@.len() > 0,
        ensures
            pass_written(*old(self), *final(self), data@),
            final(self).published_cursor() == old(self).published_cursor(),
            final(self).flags() == old(self).flags(),
            final(self).locked_cursor() == (if old(self).cursor() < old(self).storage().len() {
                old(self).storage().len()
            } else {
                old(self).locked_cursor()
            }),
    {
        self.write_pass(data, Publication::Locked)
    }

    /// Fills the buffer, advancing an atomic cursor with a sequentially consistent
    /// increment after each byte.
    pub fn atomic_seqcst_push(&mut self, data: &[u8])
        requires
            old(self).wf(),
            data@.len() > 0,
        ensures
            pass_written(*old(self), *final(self), data@),
            final(self).locked_cursor() == old(self).locked_cursor(),
            final(self).flags() == old(self).flags(),
            final(self).published_cursor() == old(self).published_cursor() + old(
                self,
            ).storage().len() - old(self).cursor(),
    {
        self.write_pass(data, Publication::SeqCst)
    }

    /// Fills the buffer behind a release fence per byte, storing the cursor to the
    /// atomic copy on every `sync_freq`-th slot and once more at the end.
    pub fn optional_atomic_push(&mut self, data: &[u8], sync_freq: usize)
        requires
            old(self).wf(),
            data@.len() > 0,
            sync_freq > 0,
        ensures
            pass_written(*old(self), *final(self), data@),
            final(self).locked_cursor() == old(self).locked_cursor(),
            final(self).flags() == old(self).flags(),
            final(self).published_cursor() == old(self).storage().len(),
    {
        self.write_pass(data, Publication::Optional(sync_freq))
    }

    /// Fills the buffer, each byte followed by a release fence and a relaxed
    /// increment of the atomic cursor.
    pub fn atomic_fenced_push(&mut self, data: &[u8])
        requires
            old(self).wf(),
            data@.len() > 0,
        ensures
            pass_written(*old(self), *final(self), data@),
            final(self).locked_cursor() == old(self).locked_cursor(),
            final(self).flags() == old(self).flags(),
            final(self).published_cursor() == old(self).published_cursor() + old(
                self,
            ).storage().len() - old(self).cursor(),
    {
        self.write_pass(data, Publication::Fenced)
    }

    /// Fills the buffer, raising slot `i`'s flag with a sequentially consistent
    /// store after byte `i` is written.
    pub fn atomic_bool_push(&mut self, data: &[u8])
        requires
            old(self).wf(),
            data@.len() > 0,
        ensures
            pass_written(*old(self), *final(self), data@),
            final(self).published_cursor() == old(self).published_cursor(),
            final(self).locked_cursor() == old(self).locked_cursor(),
            final(self).flags() == Seq::new(
                old(self).storage().len(),
                |i: int|
                    if old(self).cursor() <= i {
                        true
                    } else {
                        old(self).flags()[i]
                    },
            ),
    {
        self.write_pass(data, Publication::Flags)
    }

    /// Judges one observation of the published cursor: `c` past the end is an
    /// error, a zero byte just below `c` means the writer is behind, and
    /// otherwise the reader is done exactly when `c` is the length.
    pub fn check_cursor(&self, c: usize) -> (r: Result<bool, ReadError>)
        requires
            self.wf(),
        ensures
            r == observation(*self, c as nat),
    {
        if c > self.data.len() {
            Err(ReadError::CursorOutOfRange(c))
        } else if c > 0 && self.data[c - 1] == 0 {
            Err(ReadError::WriterBehind(c - 1))
        } else {
            Ok(c == self.data.len())
        }
    }

    /// Judges slot `i` seen with its flag `raised`: a raised flag over a zero
    /// byte means the writer is behind.
    pub fn check_flag(&self, i: usize, raised: bool) -> (r: Result<(), ReadError>)
        requires
            self.wf(),
            i < self.storage().len(),
        ensures
            r == (if raised && self.storage()[i as int] == 0 {
                Err(ReadError::WriterBehind(i))
            } else {
                Ok(())
            }),
    {
        if raised && self.data[i] == 0 {
            Err(ReadError::WriterBehind(i))
        } else {
            Ok(())
        }
    }

    /// Whether the storage is short enough for its checksum to fit in a `usize`.
    pub fn len_fits_checksum(&self) -> (r: bool)
        ensures
            r == (self.storage().len() * 255 <= usize::MAX),
    {
        self.data.len() <= usize::MAX / 255
    }

    /// The checksum of the storage: the sum of all its bytes.
    pub fn sum(&self) -> (r: usize)
        requires
            self.storage().len() * 255 <= usize::MAX,
        ensures
            r == byte_sum(self.storage()),
    {
        let mut d: usize = 0;
        let mut i: usize = 0;
        while i < self.data.len()
            invariant
                i <= self.data@.len(),
                self.data@.len() * 255 <= usize::MAX,
                d == byte_sum(self.data@.take(i as int)),
                d <= i * 255,
            decreases self.data@.len() - i,
        {
            assert(self.data@.take(i + 1).drop_last() =~= self.data@.take(i as int));
            d = d + self.data[i] as usize;
            i = i + 1;
        }
        assert(self.data@.take(i as int) =~= self.data@);
        d
    }
}

/// A write pass over a fresh buffer leaves the same content, and so the same
/// checksum, whichever discipline published the cursor: slot `i` holds
/// `src[i % src.len()]`, and the bytes sum to `expected_checksum(src, l)`.
pub proof fn law_pass_content(before: Data, after: Data, src: Seq<u8>)
    requires
        before.wf(),
        before.cursor() == 0,
        src.len() > 0,
        pass_written(before, after, src),
    ensures
        after.storage() == cycled(src, before.storage().len()),
        byte_sum(after.storage()) == expected_checksum(src, before.storage().len()),
{
    assert(after.storage() =~= cycled(src, before.storage().len()));
}

/// Polls the writer's plain cursor until it reaches the end; a zero byte just
/// below the cursor is reported, not trusted.
pub fn run_unsynchronized_reader(data: &Data) -> (r: Result<(), ReadError>)
    requires
        data.wf(),
    ensures
        sound_outcome(*data, r),
        r == reader_result(*data, data.cursor()),
{
    let mut polls: u64 = 0;
    while polls < MAX_POLLS
        invariant
            data.wf(),
            polls > 0 ==> observation(*data, data.cursor()) == Ok::<bool, ReadError>(false),
        decreases MAX_POLLS - polls,
    {
        match data.check_cursor(data.idx) {
            Err(e) => return Err(e),
            Ok(true) => return Ok(()),
            Ok(false) => {},
        }
        polls = polls + 1;
    }
    Err(ReadError::Stalled)
}

/// Polls the sequentially consistent atomic cursor until it reaches the end,
/// checking the byte just below each value seen.
pub fn run_seqcst_reader(data: &Data) -> (r: Result<(), ReadError>)
    requires
        data.wf(),
    ensures
        sound_outcome(*data, r),
        r == reader_result(*data, data.published_cursor()),
{
    let mut polls: u64 = 0;
    while polls < MAX_POLLS
        invariant
            data.wf(),
            polls > 0 ==> observation(*data, data.published_cursor()) == Ok::<bool, ReadError>(false),
        decreases MAX_POLLS - polls,
    {
        let c = data.atomic_idx.load(Ordering::SeqCst);
        match data.check_cursor(c) {
            Err(e) => return Err(e),
            Ok(true) => return Ok(()),
            Ok(false) => {},
        }
        polls = polls + 1;
    }
    Err(ReadError::Stalled)
}

/// Polls the atomic cursor with a relaxed load followed by an acquire fence,
/// checking the byte just below each value seen.
pub fn run_fenced_reader(data: &Data) -> (r: Result<(), ReadError>)
    requires
        data.wf(),
    ensures
        sound_outcome(*data, r),
        r == reader_result(*data, data.published_cursor()),
{
    let mut polls: u64 = 0;
    while polls < MAX_POLLS
        invariant
            data.wf(),
            polls > 0 ==> observation(*data, data.published_cursor()) == Ok::<bool, ReadError>(false),
        decreases MAX_POLLS - polls,
    {
        let c = data.atomic_idx.load(Ordering::Relaxed);
        fence(Ordering::Acquire);
        match data.check_cursor(c) {
            Err(e) => return Err(e),
            Ok(true) => return Ok(()),
            Ok(false) => {},
        }
        polls = polls + 1;
    }
    Err(ReadError::Stalled)
}

/// Polls the mutex-guarded cursor, taking the lock for each read, until it
/// reaches the end, checking the byte just below each value seen.
pub fn run_mutex_reader(data: &Data) -> (r: Result<(), ReadError>)
    requires
        data.wf(),
    ensures
        sound_outcome(*data, r),
        r == reader_result(*data, data.locked_cursor()),
{
    let mut polls: u64 = 0;
    while polls < MAX_POLLS
        invariant
            data.wf(),
            polls > 0 ==> observation(*data, data.locked_cursor()) == Ok::<bool, ReadError>(false),
        decreases MAX_POLLS - polls,
    {
        let c = data.mutex_idx.load();
        match data.check_cursor(c) {
            Err(e) => return Err(e),
            Ok(true) => return Ok(()),
            Ok(false) => {},
        }
        polls = polls + 1;
    }
    Err(ReadError::Stalled)
}

/// Scans every slot once: a slot whose flag is raised must hold a non-zero
/// byte. Slots whose flag is still down are skipped. The first raised slot
/// found still zero is reported.
pub fn run_bool_reader(data: &Data) -> (r: Result<(), ReadError>)
    requires
        data.wf(),
    ensures
        sound_outcome(*data, r),
        r is Ok <==> forall|i: int| 0 <= i < data.storage().len() ==> !lagging(*data, i),
        r is Ok || r is Err && r->Err_0 is WriterBehind,
        r matches Err(ReadError::WriterBehind(i)) ==> lagging(*data, i as int) && forall|j: int|
            0 <= j < i ==> !lagging(*data, j),
{
    let l = data.data.len();
    let mut idx: usize = 0;
    while idx < l
        invariant
            data.wf(),
            l == data.data@.len(),
            idx <= l,
            forall|j: int| 0 <= j < idx ==> !lagging(*data, j),
        decreases l - idx,
    {
        let raised = data.atomic_bool.load(idx, Ordering::SeqCst);
        match data.check_flag(idx, raised) {
            Err(e) => {
                assert(lagging(*data, idx as int));
                return Err(e);
            },
            Ok(()) => {},
        }
        idx = idx + 1;
    }
    Ok(())
}

} // verus!
