//! Exclusive access to a value that several parties take turns to use.

use vstd::prelude::*;

verus! {

/// `Mutex` is an intermediary that ensures that only one party can be working
/// with a particular object at a time.
pub trait Mutex: Sized {
    /// The type of the object that is guarded.
    type Target;

    /// The object that is guarded.
    spec fn held(&self) -> Self::Target;

    /// Takes `v` into custody.
    fn wrap(v: Self::Target) -> (m: Self)
        ensures
            m.held() == v,
    ;

    /// Grants access to the guarded object for as long as the returned
    /// borrow lives. Whatever is done through the borrow is done to the
    /// guarded object.
    fn borrow(&mut self) -> (v: &mut Self::Target)
        ensures
            *v == old(self).held(),
            final(self).held() == *final(v),
    ;
}

/// `NoOpMutex` guards an object by nothing but the borrow rules: the object
/// can be reached only through an exclusive borrow of the mutex.
pub struct NoOpMutex<T> {
    v: T,
}

impl<T> Mutex for NoOpMutex<T> {
    type Target = T;

    closed spec fn held(&self) -> T {
        self.v
    }

    fn wrap(v: T) -> (m: Self) {
        Self { v: v }
    }

    fn borrow(&mut self) -> (v: &mut T) {
        &mut self.v
    }
}

} // verus!
