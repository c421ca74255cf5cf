//! Progress reporter shared between threads: the core writes the long
//! action in progress (capture, saving, compression…), the interface reads
//! it at each frame to show it in its status bar.
//!
//! Several threads share the state, so what a read returns depends on the
//! other threads: nothing is stated of it.

use vstd::prelude::*;

use std::sync::{Arc, Mutex};

verus! {

#[verifier::external_type_specification]
#[verifier::external_body]
#[verifier::reject_recursive_types(T)]
pub struct ExMutex<T: ?Sized>(Mutex<T>);

/// A new mutex holding `value` (std's `Mutex::new`).
#[verifier::external_body]
fn mutex_new(value: Option<String>) -> Mutex<Option<String>> {
    Mutex::new(value)
}

/// Replaces the value held by the mutex (std's `Mutex::lock`); nothing
/// happens when the mutex is poisoned.
#[verifier::external_body]
fn mutex_store(m: &Mutex<Option<String>>, value: Option<String>) {
    if let Ok(mut g) = m.lock() {
        *g = value;
    }
}

/// A copy of the value held by the mutex (std's `Mutex::lock`); `None`
/// when the mutex is poisoned.
#[verifier::external_body]
fn mutex_load(m: &Mutex<Option<String>>) -> Option<String> {
    match m.lock() {
        Ok(g) => g.clone(),
        Err(_) => None,
    }
}

/// Progress handle. Cloning shares the same underlying state, so that a
/// worker thread and the interface see the same value.
#[derive(Clone)]
pub struct Progress(Arc<Mutex<Option<String>>>);

impl Progress {
    /// A handle at rest (no action in progress).
    pub fn new() -> Self {
        Progress(Arc::new(mutex_new(None)))
    }

    /// Reports the long action in progress.
    pub fn set(&self, msg: &str) {
        mutex_store(&self.0, Some(String::from_str(msg)));
    }

    /// Back to rest (no action in progress).
    pub fn clear(&self) {
        mutex_store(&self.0, None);
    }

    /// The action in progress, if any.
    pub fn get(&self) -> Option<String> {
        mutex_load(&self.0)
    }
}

} // verus!
