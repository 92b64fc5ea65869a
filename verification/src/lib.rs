//! A compositing engine for character-cell terminals: cells, borders and pads,
//! a tree of windows with leaf objects, the session that registers them, and
//! the terminal surface they are drawn on.
//!
//! The library holds no process-wide state and performs no input or output.
//! The identifier counters are a value that the embedding program owns, and
//! the terminal queues the bytes it wants written instead of writing them.
use vstd::prelude::*;

pub mod border;
pub mod cell;
pub mod color;
pub mod draw;
pub mod error;
pub mod object;
pub mod pad;
pub mod session;
pub mod term;
pub mod text;
pub mod window;

verus! {

use crate::error::OmmaErr;
use crate::text::{window_counter_wrapped, object_counter_wrapped};

/// The identifier counters of one process: the next window id and the next
/// object id to hand out. A counter only ever grows, and stops at `u32::MAX`.
#[derive(Debug)]
pub struct IdCounters {
    pub window_id: u32,
    pub object_id: u32,
}

impl IdCounters {
    /// Counters of a process in which nothing has been created yet.
    pub fn new() -> (ids: IdCounters)
        ensures
            ids.window_id == 0,
            ids.object_id == 0,
    {
        IdCounters { window_id: 0, object_id: 0 }
    }

    /// Whether no window id was handed out yet, and so no session made.
    pub open spec fn fresh(self) -> bool {
        self.window_id == 0
    }

    /// Whether these counters can come after `before`: a counter only grows.
    pub open spec fn follows(self, before: IdCounters) -> bool {
        before.window_id <= self.window_id && before.object_id <= self.object_id
    }
}

/// Hands out the next window id. Fails, leaving the counters as they are,
/// once the counter has reached `u32::MAX`: an id is never handed out twice.
pub fn next_window_id(ids: &mut IdCounters) -> (res: Result<u32, OmmaErr>)
    ensures
        match res {
            Ok(id) => id == old(ids).window_id && id < u32::MAX
                && final(ids).window_id == id + 1
                && final(ids).object_id == old(ids).object_id,
            Err(e) => old(ids).window_id == u32::MAX && *final(ids) == *old(ids)
                && e@ == window_counter_wrapped(),
        },
        final(ids).follows(*old(ids)),
        !final(ids).fresh(),
{
    let id = ids.window_id;
    match id.checked_add(1) {
        Some(next) => {
            ids.window_id = next;
            Ok(id)
        },
        None => Err(OmmaErr::new("ommatidium window_id tracker wrapped u32::MAX. Failed State.")),
    }
}

/// The window id that the next call of [`next_window_id`] hands out.
pub fn current_window_id(ids: &IdCounters) -> (id: u32)
    ensures
        id == ids.window_id,
{
    ids.window_id
}

/// Hands out the next object id. Fails, leaving the counters as they are,
/// once the counter has reached `u32::MAX`.
pub fn next_object_id(ids: &mut IdCounters) -> (res: Result<u32, OmmaErr>)
    ensures
        match res {
            Ok(id) => id == old(ids).object_id && id < u32::MAX
                && final(ids).object_id == id + 1
                && final(ids).window_id == old(ids).window_id,
            Err(e) => old(ids).object_id == u32::MAX && *final(ids) == *old(ids)
                && e@ == object_counter_wrapped(),
        },
        final(ids).follows(*old(ids)),
{
    let id = ids.object_id;
    match id.checked_add(1) {
        Some(next) => {
            ids.object_id = next;
            Ok(id)
        },
        None => Err(OmmaErr::new("ommatidium object_id tracker wrapped u32::MAX. Failed State.")),
    }
}

/// The object id that the next call of [`next_object_id`] hands out.
pub fn current_object_id(ids: &IdCounters) -> (id: u32)
    ensures
        id == ids.object_id,
{
    ids.object_id
}

} // verus!
