//! A lock whose access is scoped by a guard value: holding the guard is
//! what grants access to the protected data.
use vstd::prelude::*;

verus! {

/// A value that reports a call.
pub struct Foo;

impl Foo {
    /// The report of a call.
    pub fn foo(&self) -> (r: &'static str)
        ensures
            r@ == "Foo::foo() called"@,
    {
        "Foo::foo() called"
    }
}

/// Data reachable only through a guard.
pub struct Mutex<T> {
    data: T,
}

/// Grants access to a mutex's data while it lives.
pub struct MutexGuard<'a, T> {
    data: &'a T,
}

impl<T> Mutex<T> {
    /// The protected data.
    pub closed spec fn value(&self) -> T {
        self.data
    }

    pub fn new(data: T) -> (r: Self)
        ensures
            r.value() == data,
    {
        Mutex { data }
    }

    /// Acquires the lock; it is released when the guard is dropped.
    pub fn lock(&self) -> (r: MutexGuard<'_, T>)
        ensures
            *r.target() == self.value(),
    {
        MutexGuard { data: &self.data }
    }
}

impl<'a, T> MutexGuard<'a, T> {
    /// The data the guard grants access to.
    pub closed spec fn target(&self) -> &'a T {
        self.data
    }

    pub fn get(&self) -> (r: &T)
        ensures
            *r == *self.target(),
    {
        self.data
    }
}

/// Locks the mutex, calls `foo` on its data through the guard and returns the
/// report; the lock is released on return.
pub fn baz(x: &Mutex<Foo>) -> (r: &'static str)
    ensures
        r@ == "Foo::foo() called"@,
{
    let xx = x.lock();
    xx.get().foo()
}

} // verus!
