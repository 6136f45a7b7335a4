use vstd::prelude::*;
use std::sync::Arc;
use std::sync::Mutex;
use std::sync::MutexGuard;
use crate::measurements::{contents, AppendError, Measurements, StoreView};
use crate::sample::Sample;

verus! {

/// `std::sync::Mutex`. What it guards can be reached through a guard only.
#[verifier::external_type_specification]
#[verifier::external_body]
#[verifier::reject_recursive_types(T)]
pub struct ExMutex<T: ?Sized>(Mutex<T>);

/// `std::sync::MutexGuard`, the proof that the lock is held.
#[verifier::external_type_specification]
#[verifier::external_body]
#[verifier::reject_recursive_types(T)]
pub struct ExMutexGuard<'a, T: ?Sized + 'a>(MutexGuard<'a, T>);

/// `Mutex::new` puts a value behind a new lock.
pub assume_specification<T>[ Mutex::<T>::new ](value: T) -> (lock: Mutex<T>);

/// `Arc::clone` gives one more handle to the same value.
#[verifier::external_body]
pub(crate) fn another_handle<T>(handle: &Arc<T>) -> (other: Arc<T>)
    ensures
        other == *handle,
{
    Arc::clone(handle)
}

/// `Mutex::lock` waits for the lock. It fails where a thread has panicked
/// while it held the lock; the result is then `None`. A thread that asks for
/// a lock it holds may wait for ever or panic: every caller here lets its
/// guard go before it returns, so none asks twice.
#[verifier::external_body]
fn lock<'a, T>(shared: &'a Mutex<T>) -> (guard: Option<MutexGuard<'a, T>>) {
    shared.lock().ok()
}

/// `MutexGuard::deref` lends what the lock guards. What another thread has
/// left there is not known.
#[verifier::external_body]
fn guarded<'a, 'b, T>(guard: &'a MutexGuard<'b, T>) -> (value: &'a T) {
    &**guard
}

/// `MutexGuard::deref_mut` lends what the lock guards for writing. What
/// another thread has left there is not known.
#[verifier::external_body]
fn guarded_mut<'a, 'b, T>(guard: &'a mut MutexGuard<'b, T>) -> (value: &'a mut T) {
    &mut **guard
}

/// `snapshot` is what some well-formed store holds.
pub open spec fn consistent<T>(snapshot: Seq<Seq<Sample<T>>>) -> bool {
    exists|store: StoreView<T>| store.wf() && store.channels == snapshot
}

/// `outcome` is what an append of `vs` returns on some well-formed store at
/// some time.
pub open spec fn some_append<T>(vs: Seq<T>, outcome: Result<(), AppendError>) -> bool {
    exists|before: StoreView<T>, after: StoreView<T>, elapsed: nat|
        before.wf() && after.wf() && #[trigger] before.append_step(elapsed, vs, after, outcome)
}

/// Appends to a shared store under its lock, as
/// [`Measurements::append_value`] does.
///
/// The result is `None` where the lock is poisoned. The store that the lock
/// guards is whatever the last holder left, so the outcome is stated for
/// some well-formed store.
pub fn append_shared<T: Copy>(shared: &Mutex<Measurements<T>>, vs: Vec<T>) -> (outcome: Option<
    Result<(), AppendError>,
>)
    ensures
        outcome matches Some(appended) ==> some_append(vs@, appended),
{
    append_under(lock(shared), vs)
}

/// Copies what the lock lends: a snapshot where it gave a guard, else nothing.
pub fn snapshot_under<T: Copy>(guard: Option<MutexGuard<'_, Measurements<T>>>) -> (snapshot:
    Option<Vec<Vec<Sample<T>>>>)
    ensures
        snapshot is Some <==> guard is Some,
        snapshot matches Some(channels) ==> consistent(contents(channels)),
{
    match guard {
        None => None,
        Some(guard) => {
            let store = guarded(&guard);
            let channels = store.values();
            Some(channels)
        },
    }
}

/// Copies what a shared store holds, under its lock.
///
/// The result is `None` where the lock is poisoned. Whatever the other
/// thread has appended in the meantime, the copy is that of a well-formed
/// store: no channel is caught with a sample that the others lack.
pub fn snapshot_shared<T: Copy>(shared: &Mutex<Measurements<T>>) -> (snapshot: Option<
    Vec<Vec<Sample<T>>>,
>)
    ensures
        snapshot matches Some(channels) ==> consistent(contents(channels)),
{
    snapshot_under(lock(shared))
}

/// Appends to what the lock lends, as [`Measurements::append_value`] does:
/// there is an outcome where the lock gave a guard, else nothing.
pub fn append_under<T: Copy>(
    guard: Option<MutexGuard<'_, Measurements<T>>>,
    vs: Vec<T>,
) -> (outcome: Option<Result<(), AppendError>>)
    ensures
        outcome is Some <==> guard is Some,
        outcome matches Some(appended) ==> some_append(vs@, appended),
{
    match guard {
        None => None,
        Some(mut guard) => {
            let store = guarded_mut(&mut guard);
            proof {
                use_type_invariant(&*store);
            }
            let ghost before = store@;
            let appended = store.append_value(vs);
            proof {
                let after = store@;
                let elapsed = choose|elapsed: nat|
                    before.append_step(elapsed, vs@, after, appended);
                assert(before.append_step(elapsed, vs@, after, appended));
            }
            Some(appended)
        },
    }
}

} // verus!
