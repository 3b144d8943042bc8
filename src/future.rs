//! A one-shot shared completion handle: a slot that is resolved at most once
//! with a reference-counted value, plus the completers of the waiters that
//! arrived before it was resolved.
use manual_future::{ManualFuture, ManualFutureCompleter};
use std::sync::Arc;
use vstd::prelude::*;

verus! {

/// manual_future's `ManualFuture`, the receiving end a waiter awaits; opaque here.
#[verifier::external_type_specification]
#[verifier::external_body]
#[verifier::reject_recursive_types(T)]
pub struct ExManualFuture<T>(ManualFuture<T>);

/// manual_future's `ManualFutureCompleter`, the sending end that resolves one
/// `ManualFuture`; opaque here.
#[verifier::external_type_specification]
#[verifier::external_body]
#[verifier::reject_recursive_types(T)]
pub struct ExManualFutureCompleter<T>(ManualFutureCompleter<T>);

/// Relies on manual_future's `ManualFuture::new`: a fresh pending future
/// together with the completer that resolves it.
pub assume_specification<T>[ ManualFuture::<T>::new ]() -> (ManualFuture<T>, ManualFutureCompleter<T>);

/// Relies on manual_future's `ManualFuture::new_completed`: a future that is
/// ready with the given value.
pub assume_specification<T>[ ManualFuture::<T>::new_completed ](value: T) -> ManualFuture<T>;

/// Relies on `Arc::clone`: a new pointer to the same allocation, so the same value.
#[verifier::external_body]
pub(crate) fn share<T>(a: &Arc<T>) -> (r: Arc<T>)
    ensures
        r == *a,
{
    Arc::clone(a)
}

/// `after` is `before` completed with `value`: it keeps an earlier value,
/// takes `value` otherwise, and has no waiter left to notify.
pub open spec fn completed_with<T>(
    before: SharedManualFuture<T>,
    value: T,
    after: SharedManualFuture<T>,
) -> bool {
    &&& after.pending() == 0
    &&& before.resolved() is Some ==> after.resolved() == before.resolved()
    &&& before.resolved() is None ==> after.resolved() == Some(value)
}

/// A handle is resolved at most once: after two completions it holds the
/// value of the first one that found it unresolved, whatever the second
/// one offered, so every waiter observes the same value.
pub proof fn resolution_is_final<T>(
    h0: SharedManualFuture<T>,
    a: T,
    h1: SharedManualFuture<T>,
    b: T,
    h2: SharedManualFuture<T>,
)
    requires
        completed_with(h0, a, h1),
        completed_with(h1, b, h2),
    ensures
        h2.resolved() == h1.resolved(),
        h1.resolved() is Some,
        h0.resolved() is None ==> h2.resolved() == Some(a),
        h0.resolved() is Some ==> h2.resolved() == h0.resolved(),
{
}

/// A handle on a value that is produced later, shared by every waiter.
#[verifier::reject_recursive_types(T)]
pub struct SharedManualFuture<T> {
    value: Option<Arc<T>>,
    completers: Vec<ManualFutureCompleter<Arc<T>>>,
}

impl<T> SharedManualFuture<T> {
    /// The resolved value, if any.
    pub closed spec fn resolved(&self) -> Option<T> {
        match self.value {
            Some(v) => Some(*v),
            None => None,
        }
    }

    /// Number of waiters registered while the handle was unresolved.
    pub closed spec fn pending(&self) -> nat {
        self.completers@.len()
    }

    /// A resolved handle has nobody left to notify.
    pub closed spec fn wf(&self) -> bool {
        self.value is Some ==> self.completers@.len() == 0
    }

    /// An unresolved handle.
    pub fn new() -> (r: Self)
        ensures
            r.wf(),
            r.resolved() is None,
            r.pending() == 0,
    {
        SharedManualFuture { value: None, completers: Vec::new() }
    }

    /// A handle that is resolved from the start.
    pub fn new_completed(value: T) -> (r: Self)
        ensures
            r.wf(),
            r.resolved() == Some(value),
            r.pending() == 0,
    {
        SharedManualFuture { value: Some(Arc::new(value)), completers: Vec::new() }
    }

    /// Whether the handle has been resolved.
    pub fn is_completed(&self) -> (r: bool)
        ensures
            r == (self.resolved() is Some),
    {
        self.value.is_some()
    }

    /// The resolved value without waiting, if there is one.
    pub fn get_now(&self) -> (r: Option<Arc<T>>)
        ensures
            match r {
                Some(v) => self.resolved() == Some(*v),
                None => self.resolved() is None,
            },
    {
        match &self.value {
            Some(v) => Some(share(v)),
            None => None,
        }
    }

    /// A future for the value. When the handle is resolved the future is
    /// ready at once; otherwise a completer for it is kept until
    /// [`Self::complete`] hands it out.
    pub fn get(&mut self) -> (r: ManualFuture<Arc<T>>)
        requires
            old(self).wf(),
        ensures
            final(self).wf(),
            final(self).resolved() == old(self).resolved(),
            final(self).pending() == (if old(self).resolved() is Some {
                old(self).pending()
            } else {
                old(self).pending() + 1
            }),
    {
        match &self.value {
            Some(v) => ManualFuture::new_completed(share(v)),
            None => {
                let (future, completer) = ManualFuture::new();
                self.completers.push(completer);
                future
            },
        }
    }

    /// Resolves the handle with `value` unless it is already resolved, and
    /// returns the completers of the waiters to notify with that value. A
    /// second completion changes nothing and returns no completer.
    pub fn complete(&mut self, value: Arc<T>) -> (r: Vec<ManualFutureCompleter<Arc<T>>>)
        requires
            old(self).wf(),
        ensures
            final(self).wf(),
            completed_with(*old(self), *value, *final(self)),
            old(self).resolved() is Some ==> r@.len() == 0,
            old(self).resolved() is None ==> r@.len() == old(self).pending(),
    {
        if self.value.is_some() {
            return Vec::new();
        }
        self.value = Some(value);
        let mut completers: Vec<ManualFutureCompleter<Arc<T>>> = Vec::new();
        std::mem::swap(&mut completers, &mut self.completers);
        completers
    }
}

} // verus!
