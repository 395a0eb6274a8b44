//! Published copies of a writer's state: an atomic integer, an atomic flag and a
//! mutex-guarded integer, each paired with a ghost model of its value.
//!
//! Every store goes through a `&mut self` method, which also sets the model.
//! So while a shared reference exists no store can happen, and a load through it
//! sees exactly the value last stored.

use std::sync::atomic::{AtomicBool, AtomicUsize, Ordering};
use std::sync::Mutex;
use vstd::prelude::*;

verus! {

#[verifier::external_type_specification]
#[verifier::external_body]
#[verifier::reject_recursive_types(T)]
pub struct ExMutex<T: ?Sized>(Mutex<T>);

/// Relies on `std::sync::Mutex::new`: builds an unlocked mutex around `t`.
pub assume_specification<T>[ Mutex::<T>::new ](t: T) -> Mutex<T>;

/// Relies on `std::sync::atomic::fence`: an ordering barrier with no effect on
/// values. It panics on `Relaxed`, which is therefore excluded.
pub assume_specification[ std::sync::atomic::fence ](order: Ordering)
    requires
        !(order matches Ordering::Relaxed),
;

/// Whether `order` is one a load accepts (a load panics on `Release` and `AcqRel`).
pub open spec fn load_order(order: Ordering) -> bool {
    !(order matches Ordering::Release) && !(order matches Ordering::AcqRel)
}

/// An integer published to readers through an atomic.
pub struct PublishedUsize {
    cell: AtomicUsize,
    value: Ghost<usize>,
}

impl View for PublishedUsize {
    type V = usize;

    closed spec fn view(&self) -> usize {
        self.value@
    }
}

impl PublishedUsize {
    pub fn new(v: usize) -> (r: PublishedUsize)
        ensures
            r@ == v,
    {
        PublishedUsize { cell: AtomicUsize::new(v), value: Ghost(v) }
    }

    /// Stores `v` with sequentially consistent ordering.
    pub fn store(&mut self, v: usize)
        ensures
            final(self)@ == v,
    {
        self.cell.store(v, Ordering::SeqCst);
        self.value = Ghost(v);
    }

    /// Adds `d` atomically with the given ordering.
    pub fn fetch_add(&mut self, d: usize, order: Ordering)
        requires
            old(self)@ + d <= usize::MAX,
        ensures
            final(self)@ == old(self)@ + d,
    {
        self.cell.fetch_add(d, order);
        self.value = Ghost((self.value@ + d) as usize);
    }

    /// Relies on `AtomicUsize::load`: returns the atomic's value, which is the
    /// one last stored, since stores need `&mut self`.
    #[verifier::external_body]
    pub fn load(&self, order: Ordering) -> (r: usize)
        requires
            load_order(order),
        ensures
            r == self@,
    {
        self.cell.load(order)
    }
}

/// One flag per slot, each published to readers through an atomic.
pub struct PublishedFlags {
    cells: Vec<AtomicBool>,
    value: Ghost<Seq<bool>>,
}

impl View for PublishedFlags {
    type V = Seq<bool>;

    closed spec fn view(&self) -> Seq<bool> {
        self.value@
    }
}

impl PublishedFlags {
    /// The cells and the model have one entry per slot.
    pub closed spec fn wf(&self) -> bool {
        self.cells@.len() == self.value@.len()
    }

    /// `n` flags, all down.
    pub fn new(n: usize) -> (r: PublishedFlags)
        ensures
            r.wf(),
            r@ == Seq::new(n as nat, |i: int| false),
    {
        let mut cells: Vec<AtomicBool> = Vec::new();
        let mut i: usize = 0;
        while i < n
            invariant
                i <= n,
                cells@.len() == i,
            decreases n - i,
        {
            cells.push(AtomicBool::new(false));
            i = i + 1;
        }
        PublishedFlags { cells, value: Ghost(Seq::new(n as nat, |i: int| false)) }
    }

    /// The number of flags.
    pub fn len(&self) -> (r: usize)
        requires
            self.wf(),
        ensures
            r == self@.len(),
    {
        self.cells.len()
    }

    /// Raises flag `i` with a sequentially consistent store.
    pub fn raise(&mut self, i: usize)
        requires
            old(self).wf(),
            i < old(self)@.len(),
        ensures
            final(self).wf(),
            final(self)@ == old(self)@.update(i as int, true),
    {
        self.cells[i].store(true, Ordering::SeqCst);
        self.value = Ghost(self.value@.update(i as int, true));
    }

    /// Relies on `AtomicBool::load`: returns flag `i`, which is the value last
    /// stored to it, since stores need `&mut self`.
    #[verifier::external_body]
    pub fn load(&self, i: usize, order: Ordering) -> (r: bool)
        requires
            self.wf(),
            i < self@.len(),
            load_order(order),
        ensures
            r == self@[i as int],
    {
        self.cells[i].load(order)
    }
}

/// Relies on `std::sync::Mutex::lock`: stores `v` in the guarded integer while
/// holding the lock. A poisoned lock still hands out its guard.
#[verifier::external_body]
fn lock_store(m: &Mutex<usize>, v: usize) {
    let mut guard = match m.lock() {
        Ok(g) => g,
        Err(e) => e.into_inner(),
    };
    *guard = v;
}

/// An integer published to readers behind a mutex.
pub struct LockedUsize {
    m: Mutex<usize>,
    value: Ghost<usize>,
}

impl View for LockedUsize {
    type V = usize;

    closed spec fn view(&self) -> usize {
        self.value@
    }
}

impl LockedUsize {
    pub fn new(v: usize) -> (r: LockedUsize)
        ensures
            r@ == v,
    {
        LockedUsize { m: Mutex::new(v), value: Ghost(v) }
    }

    /// Stores `v`, taking the lock for the store only.
    pub fn store(&mut self, v: usize)
        ensures
            final(self)@ == v,
    {
        lock_store(&self.m, v);
        self.value = Ghost(v);
    }

    /// Relies on `std::sync::Mutex::lock`: reads the guarded integer while
    /// holding the lock; it is the one last stored, since stores need
    /// `&mut self`. A poisoned lock still hands out its guard.
    #[verifier::external_body]
    pub fn load(&self) -> (r: usize)
        ensures
            r == self@,
    {
        let guard = match self.m.lock() {
            Ok(g) => g,
            Err(e) => e.into_inner(),
        };
        *guard
    }
}

} // verus!
