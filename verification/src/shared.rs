//! Remote-control state shared between the context that decodes frames and
//! the contexts that read it, held in `portable_atomic` atomics so that no
//! lock is needed.

use core::marker::PhantomData;
use portable_atomic::Ordering;
use portable_atomic::{AtomicU16, AtomicU64};
use vstd::prelude::*;
use crate::error::UnPackError;
use crate::remote::{update_result, RemoteControl};
use crate::validator::{DjiValidator, Validator};

verus! {

#[verifier::external_type_specification]
#[verifier::external_body]
pub struct ExAtomicU64(AtomicU64);

#[verifier::external_type_specification]
#[verifier::external_body]
pub struct ExAtomicU16(AtomicU16);

/// Calls `portable_atomic::AtomicU64::new`. Nothing is stated of the atomic:
/// what a later load gives depends on the stores of every context.
#[verifier::external_body]
fn atomic_u64_new(v: u64) -> AtomicU64 {
    AtomicU64::new(v)
}

/// Calls `portable_atomic::AtomicU64::load` with relaxed ordering, which does
/// not panic. Nothing is stated of the value: any context may have stored it.
#[verifier::external_body]
fn atomic_u64_load(a: &AtomicU64) -> u64 {
    a.load(Ordering::Relaxed)
}

/// Calls `portable_atomic::AtomicU64::store` with relaxed ordering, which does
/// not panic.
#[verifier::external_body]
fn atomic_u64_store(a: &AtomicU64, v: u64) {
    a.store(v, Ordering::Relaxed)
}

/// Calls `portable_atomic::AtomicU16::new`. Nothing is stated of the atomic:
/// what a later load gives depends on the stores of every context.
#[verifier::external_body]
fn atomic_u16_new(v: u16) -> AtomicU16 {
    AtomicU16::new(v)
}

/// Calls `portable_atomic::AtomicU16::load` with relaxed ordering, which does
/// not panic. Nothing is stated of the value: any context may have stored it.
#[verifier::external_body]
fn atomic_u16_load(a: &AtomicU16) -> u16 {
    a.load(Ordering::Relaxed)
}

/// Calls `portable_atomic::AtomicU16::store` with relaxed ordering, which does
/// not panic.
#[verifier::external_body]
fn atomic_u16_store(a: &AtomicU16, v: u16) {
    a.store(v, Ordering::Relaxed)
}

/// Remote-control state in atomics: one context decodes frames with
/// [`update`](Self::update) while others read [`snapshot`](Self::snapshot)s.
#[derive(Debug)]
pub struct SharedRemoteControl<V: Validator = DjiValidator> {
    datagroup1: AtomicU64,
    datagroup2: AtomicU64,
    keyboard_v: AtomicU16,
    _marker: PhantomData<V>,
}

impl<V: Validator> SharedRemoteControl<V> {
    /// Creates a zero-initialized shared state.
    pub fn new() -> Self {
        SharedRemoteControl {
            datagroup1: atomic_u64_new(0),
            datagroup2: atomic_u64_new(0),
            keyboard_v: atomic_u16_new(0),
            _marker: PhantomData,
        }
    }

    /// Decodes one control frame at the start of `data` and, when it is
    /// accepted, publishes its data groups and keyboard bitmask; returns the
    /// number of bytes the frame takes (21).
    pub fn update(&self, data: &[u8]) -> (r: Result<usize, UnPackError>)
        ensures
            update_result::<V>(data@, r),
    {
        let mut rc = RemoteControl::<V>::new();
        let n = match rc.update(data) {
            Ok(n) => n,
            Err(e) => {
                return Err(e);
            },
        };
        let (group1, group2, keyboard) = rc.groups();
        atomic_u64_store(&self.datagroup1, group1);
        atomic_u64_store(&self.datagroup2, group2);
        atomic_u16_store(&self.keyboard_v, keyboard);
        Ok(n)
    }

    /// The state last published, to read its channels, buttons and keys from.
    pub fn snapshot(&self) -> RemoteControl<V> {
        RemoteControl::from_groups(
            atomic_u64_load(&self.datagroup1),
            atomic_u64_load(&self.datagroup2),
            atomic_u16_load(&self.keyboard_v),
        )
    }
}

impl<V: Validator> Clone for SharedRemoteControl<V> {
    fn clone(&self) -> Self {
        SharedRemoteControl {
            datagroup1: atomic_u64_new(atomic_u64_load(&self.datagroup1)),
            datagroup2: atomic_u64_new(atomic_u64_load(&self.datagroup2)),
            keyboard_v: atomic_u16_new(atomic_u16_load(&self.keyboard_v)),
            _marker: PhantomData,
        }
    }
}

impl<V: Validator> Default for SharedRemoteControl<V> {
    fn default() -> Self {
        Self::new()
    }
}

} // verus!
