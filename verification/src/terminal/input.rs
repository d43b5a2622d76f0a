//! The key held on the keyboard, shared with the thread that watches the
//! keyboard.

pub mod keys;

use std::sync::atomic::{AtomicBool, AtomicU32};
use std::sync::Arc;
use vstd::prelude::*;

verus! {

/// What the keyboard reports to the watching thread.
#[derive(Clone, Copy, Debug, PartialEq, Eq)]
pub enum KeyboardEvent {
    /// A key went down.
    KeyDown(keys::KEY),
    /// A key went up.
    KeyUp,
    /// Any other keyboard message.
    Other,
}

/// The key held after `event`, when `current` was held before: the key
/// that went down, none after a key went up, and `current` otherwise.
pub open spec fn spec_key_after(current: keys::KEY, event: KeyboardEvent) -> keys::KEY {
    match event {
        KeyboardEvent::KeyDown(code) => code,
        KeyboardEvent::KeyUp => keys::KEY_UP,
        KeyboardEvent::Other => current,
    }
}

/// The key held after `event`, when `current` was held before.
pub fn key_after_event(current: keys::KEY, event: KeyboardEvent) -> (key: keys::KEY)
    ensures
        key == spec_key_after(current, event),
        forall|code: keys::KEY| event == KeyboardEvent::KeyDown(code) ==> key == code,
        event == KeyboardEvent::KeyUp ==> key == keys::KEY_UP,
        event == KeyboardEvent::Other ==> key == current,
{
    match event {
        KeyboardEvent::KeyDown(code) => code,
        KeyboardEvent::KeyUp => keys::KEY_UP,
        KeyboardEvent::Other => current,
    }
}

/// What the keyboard thread stores in the shared key cell after it polled
/// the message queue: the held key when no message was removed, and
/// nothing when one was.
pub fn key_to_store(message_removed: bool, held: keys::KEY) -> (stored: Option<keys::KEY>)
    ensures
        stored == (if message_removed {
            None
        } else {
            Some(held)
        }),
{
    if !message_removed {
        Some(held)
    } else {
        None
    }
}

/// The key held on the keyboard and the switch that keeps the keyboard
/// thread running, both shared with that thread.
pub struct Hook {
    key: Arc<AtomicU32>,
    thread_switch: Arc<AtomicBool>,
}

/// `std::sync::Arc::clone`: its documentation says that it makes another
/// pointer to the same allocation, so the result points to the value that
/// `shared` points to. Nothing is said of the reference counts.
#[verifier::external_body]
fn clone_shared<T>(shared: &Arc<T>) -> (copy: Arc<T>)
    ensures
        copy == *shared,
{
    Arc::clone(shared)
}

impl Hook {
    /// The cell that holds the key held last.
    pub closed spec fn key_cell(&self) -> Arc<AtomicU32> {
        self.key
    }

    /// The cell of the switch that keeps the keyboard thread running.
    pub closed spec fn switch_cell(&self) -> Arc<AtomicBool> {
        self.thread_switch
    }

    /// A hook with no key held and the switch on. The keyboard thread is
    /// started by the caller, with `key_handle` and `switch_handle`.
    pub fn new() -> Hook {
        Hook {
            key: Arc::new(AtomicU32::new(keys::KEY_UP)),
            thread_switch: Arc::new(AtomicBool::new(true)),
        }
    }

    /// Turns the switch off, so that the keyboard thread stops.
    pub fn end(&mut self)
        ensures
            *final(self) == *old(self),
    {
        self.thread_switch.store(false, std::sync::atomic::Ordering::Relaxed);
    }

    /// The key held last, as stored by the keyboard thread.
    pub fn get_key(&self) -> keys::KEY {
        self.key.load(std::sync::atomic::Ordering::Relaxed)
    }

    /// The shared cell of the held key, for the keyboard thread.
    pub fn key_handle(&self) -> (handle: Arc<AtomicU32>)
        ensures
            handle == self.key_cell(),
    {
        clone_shared(&self.key)
    }

    /// The shared switch, for the keyboard thread.
    pub fn switch_handle(&self) -> (handle: Arc<AtomicBool>)
        ensures
            handle == self.switch_cell(),
    {
        clone_shared(&self.thread_switch)
    }
}

/// Work left for when the game ends; there is none.
pub fn clean_up() {
}

} // verus!
