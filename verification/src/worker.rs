use vstd::prelude::*;

use fp_rust::handler::Handler;

use crate::error::ScriptError;
use crate::message::LuaMessage;

verus! {

#[verifier::external_type_specification]
#[verifier::external_body]
pub struct ExHandlerThread(fp_rust::handler::HandlerThread);

#[verifier::external_type_specification]
#[verifier::external_body]
#[verifier::reject_recursive_types(T)]
pub struct ExMutex<T: ?Sized>(std::sync::Mutex<T>);

#[verifier::external_type_specification]
#[verifier::external_body]
#[verifier::reject_recursive_types(T)]
pub struct ExMutexGuard<'a, T: ?Sized + 'a>(std::sync::MutexGuard<'a, T>);

/// Relies on std's `Mutex::new`: a lock initially holding `t`.
#[verifier::external_body]
pub(crate) fn new_mutex<T>(t: T) -> std::sync::Mutex<T> {
    std::sync::Mutex::new(t)
}

/// Relies on std's `Mutex::lock`: blocks until the lock is free, then holds
/// it for the guard's lifetime. A poisoned lock — a panic on another thread
/// while it held the lock — is a broken invariant of the concurrency
/// protocol, treated as fatal.
#[verifier::external_body]
pub(crate) fn lock_held<'a, T>(m: &'a std::sync::Mutex<T>) -> std::sync::MutexGuard<'a, T> {
    m.lock().unwrap()
}

/// Relies on `MutexGuard`'s `Deref`: the value the lock protects.
#[verifier::external_body]
pub(crate) fn guarded<'a, 'b, T>(g: &'b std::sync::MutexGuard<'a, T>) -> &'b T {
    &**g
}

/// Relies on `Arc::clone`: another handle to the same shared value.
#[verifier::external_body]
pub(crate) fn share<T>(a: &std::sync::Arc<T>) -> (r: std::sync::Arc<T>)
    ensures
        r == *a,
{
    a.clone()
}

/// Relies on fp_rust's `HandlerThread::new_with_mutex`: a fresh serial
/// worker, not yet consuming its queue.
#[verifier::external_body]
pub(crate) fn new_handler() -> std::sync::Arc<std::sync::Mutex<fp_rust::handler::HandlerThread>> {
    fp_rust::handler::HandlerThread::new_with_mutex()
}

/// Relies on fp_rust's `Handler::start`, reached under the handle's lock:
/// the worker begins running posted tasks, strictly in submission order,
/// one at a time, on its own thread.
#[verifier::external_body]
pub(crate) fn handler_start(h: &std::sync::Arc<std::sync::Mutex<fp_rust::handler::HandlerThread>>) {
    h.lock().unwrap().start()
}

/// Relies on fp_rust's `Handler::stop`, reached under the handle's lock:
/// the worker stops consuming its queue; a task already running is not
/// interrupted.
#[verifier::external_body]
pub(crate) fn handler_stop(h: &std::sync::Arc<std::sync::Mutex<fp_rust::handler::HandlerThread>>) {
    h.lock().unwrap().stop()
}

/// Relies on fp_rust's `Handler::post` and `RawFunc::new`, reached under
/// the handle's lock: enqueues `job` to run on the worker thread after
/// every task posted before it; this call does not wait for it.
#[verifier::external_body]
pub(crate) fn post_job<F: Fn() + Send + Sync + 'static>(
    h: &std::sync::Arc<std::sync::Mutex<fp_rust::handler::HandlerThread>>,
    job: F,
)
    requires
        job.requires(()),
{
    h.lock().unwrap().post(fp_rust::common::RawFunc::new(move || job()));
}

/// Relies on fp_rust's `Handler::post`, `RawFunc::new` and
/// `CountDownLatch`, and on std's `Mutex` for the result cell: enqueues a
/// task that runs `job` on the worker thread, stores its result, and only
/// then releases the one-shot completion signal; blocks the caller until
/// that signal, then hands the stored result out. The cell is written
/// exactly once, strictly before the countdown, so the take after `wait`
/// cannot find it empty; an empty cell would be a broken invariant and
/// aborts.
#[verifier::external_body]
pub(crate) fn post_and_wait<F: Fn() -> Result<LuaMessage, ScriptError> + Send + Sync + 'static>(
    h: &std::sync::Arc<std::sync::Mutex<fp_rust::handler::HandlerThread>>,
    job: F,
) -> (r: Result<LuaMessage, ScriptError>)
    requires
        job.requires(()),
    ensures
        job.ensures((), r),
{
    let cell = std::sync::Arc::new(std::sync::Mutex::new(None));
    let cell2 = cell.clone();
    let latch = fp_rust::sync::CountDownLatch::new(1);
    let latch2 = latch.clone();
    {
        let mut handle = h.lock().unwrap();
        handle.post(fp_rust::common::RawFunc::new(move || {
            let result = job();
            *cell2.lock().unwrap() = Some(result);
            latch2.countdown();
        }));
    }
    latch.wait();
    let taken = cell.lock().unwrap().take();
    taken.expect("completion signalled with no result stored")
}

} // verus!
