//! Scoped thread-local storage.
//!
//! A `ScopedKey` is a slot that holds either nothing or a borrowed reference
//! to a value. The slot never owns the value: `set` makes a reference visible
//! to the code it runs, for the dynamic extent of that one call, and once the
//! call is over (it returns or it unwinds) whatever the slot held before is
//! what code after it observes again.
//!
//! The slot is handed down the call stack: the body of `set` receives the key
//! in its bound state, reads it with `with`, and may bind it again for a
//! nested scope. A binding is seen only through the key that `set` hands to
//! its body, so bindings made on separate threads, each through keys of its
//! own, never meet.
use vstd::prelude::*;

verus! {

/// A slot that may hold a reference to a value of type `T` for the
/// duration of a scope.
pub struct ScopedKey<'a, T: ?Sized> {
    slot: Option<&'a T>,
}

impl<'a, T: ?Sized> View for ScopedKey<'a, T> {
    type V = Option<&'a T>;

    /// The reference currently bound, or `None` when the slot is empty.
    closed spec fn view(&self) -> Option<&'a T> {
        self.slot
    }
}

/// What `set(t, f)` returns: a result that `f` may produce when it runs on
/// a key whose slot holds `t`.
pub open spec fn set_result<'b, T: ?Sized, F: FnOnce(&ScopedKey<'b, T>) -> R, R>(
    t: &'b T,
    f: F,
    r: R,
) -> bool {
    exists|k: &ScopedKey<'b, T>| k@ == Some(t) && #[trigger] f.ensures((k,), r)
}

/// What `with(f)` returns on a key whose slot holds `bound`: a result that
/// `f` may produce on the bound reference itself.
pub open spec fn with_result<'a, T: ?Sized, F: FnOnce(&T) -> R, R>(
    bound: Option<&'a T>,
    f: F,
    r: R,
) -> bool {
    &&& bound is Some
    &&& f.ensures((bound.unwrap(),), r)
}

impl<'a, T: ?Sized> ScopedKey<'a, T> {
    /// A key whose slot is empty.
    pub fn new() -> (r: Self)
        ensures
            r@ is None,
    {
        ScopedKey { slot: None }
    }

    /// Runs `f` with a key whose slot holds `t`, and returns what `f`
    /// returns.
    ///
    /// `f` sees `t` through the key it is given, also in whatever it calls,
    /// unless it binds that key again for a nested scope. This key itself is
    /// never written: whether `f` returns or unwinds, the binding that was in
    /// force before the call is the one in force after it.
    pub fn set<'b, F, R>(&self, t: &'b T, f: F) -> (r: R)
        where
            F: FnOnce(&ScopedKey<'b, T>) -> R,
        requires
            forall|k: &ScopedKey<'b, T>| k@ == Some(t) ==> #[trigger] f.requires((k,)),
        ensures
            set_result(t, f, r),
    {
        let inner: ScopedKey<'b, T> = ScopedKey { slot: Some(t) };
        let r = f(&inner);
        assert(f.ensures((&inner,), r));
        r
    }

    /// Calls `f` with the reference that the slot currently holds and
    /// returns what `f` returns.
    ///
    /// Reading an empty slot is a programming error: the slot must be bound.
    /// `is_set` tells whether it is.
    pub fn with<F, R>(&self, f: F) -> (r: R)
        where
            F: FnOnce(&T) -> R,
        requires
            self@ is Some,
            f.requires((self@.unwrap(),)),
        ensures
            with_result(self@, f, r),
    {
        f(self.slot.expect("cannot access a scoped thread local variable without calling `set` first"))
    }

    /// Whether the slot currently holds a reference.
    pub fn is_set(&self) -> (r: bool)
        ensures
            r == self@ is Some,
    {
        self.slot.is_some()
    }
}

/// Scoped visibility: a body that returns the value it reads from the key
/// it is given makes `set(v, body)` return `*v`.
pub proof fn lemma_set_shows_bound_value<'b, T: Copy, F: FnOnce(&ScopedKey<'b, T>) -> T>(
    v: &'b T,
    body: F,
    r: T,
)
    requires
        forall|k: &ScopedKey<'b, T>, x: T|
            k@ is Some && #[trigger] body.ensures((k,), x) ==> x == *k@.unwrap(),
        set_result(v, body, r),
    ensures
        r == *v,
{
    let k = choose|k: &ScopedKey<'b, T>| k@ == Some(v) && #[trigger] body.ensures((k,), r);
    assert(body.ensures((k,), r));
}

/// Repeated reads of one key, with no binding in between, are handed the
/// identical reference: whatever two readers returned, they both returned
/// it on that one bound reference.
pub proof fn lemma_repeated_reads_agree<'a, T: ?Sized, F1, R1, F2, R2>(
    k: &ScopedKey<'a, T>,
    f1: F1,
    r1: R1,
    f2: F2,
    r2: R2,
)
    where
        F1: FnOnce(&T) -> R1,
        F2: FnOnce(&T) -> R2,
    requires
        with_result(k@, f1, r1),
        with_result(k@, f2, r2),
    ensures
        exists|x: &'a T| k@ == Some(x) && f1.ensures((x,), r1) && f2.ensures((x,), r2),
{
    let x = k@.unwrap();
    assert(k@ == Some(x) && f1.ensures((x,), r1) && f2.ensures((x,), r2));
}

} // verus!
