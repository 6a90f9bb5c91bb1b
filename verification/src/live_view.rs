//! Selection state machine for the interactive fleet table.
//!
//! The view keeps one piece of UI state: the selected row index, clamped to
//! the current fleet size on every redraw and moved by keyboard navigation
//! with wrap-around. The terminal layer outside the library decodes raw key
//! events into [`KeyInput`] and performs the actual drawing; every decision
//! about the selection is made here.

use vstd::prelude::*;

verus! {

/// A decoded keyboard input relevant to the view.
#[derive(Clone, Copy, Debug, PartialEq, Eq, Structural)]
pub enum KeyInput {
    /// Terminate the view loop.
    Quit,
    /// Select the next row, wrapping to the first.
    Down,
    /// Select the previous row, wrapping to the last.
    Up,
    /// Any other key: ignored.
    Other,
}

/// One of the two events the view races each iteration: a newer snapshot
/// arrived, a key arrived within the input-poll timeout, or the timeout
/// elapsed with neither.
#[derive(Clone, Copy, Debug, PartialEq, Eq, Structural)]
pub enum ViewEvent {
    SnapshotChanged,
    KeyPressed(KeyInput),
    TimedOut,
}

/// Which descriptive columns the table shows beside id, name and the busy
/// indicator. One view serves both the minimal and the extended layout.
#[derive(Clone, Copy, Debug, PartialEq, Eq, Structural)]
pub struct ColumnSet {
    pub show_os: bool,
    pub show_status: bool,
    pub show_labels: bool,
}

impl ColumnSet {
    /// The minimal layout: id, name, busy only.
    pub fn minimal() -> (c: ColumnSet)
        ensures
            !c.show_os && !c.show_status && !c.show_labels,
    {
        ColumnSet { show_os: false, show_status: false, show_labels: false }
    }

    /// The extended layout: every descriptive column.
    pub fn extended() -> (c: ColumnSet)
        ensures
            c.show_os && c.show_status && c.show_labels,
    {
        ColumnSet { show_os: true, show_status: true, show_labels: true }
    }

    /// How many columns the table has under this configuration.
    pub fn column_count(&self) -> (n: usize)
        ensures
            n == 3 + (if self.show_os { 1int } else { 0 }) + (if self.show_status { 1int } else { 0 })
                + (if self.show_labels { 1int } else { 0 }),
    {
        let mut n: usize = 3;
        if self.show_os {
            n = n + 1;
        }
        if self.show_status {
            n = n + 1;
        }
        if self.show_labels {
            n = n + 1;
        }
        n
    }
}

/// Pin the selection back into the current fleet: unchanged while in range,
/// moved to the last row when the fleet shrank below it, and pinned to row 0
/// when the fleet is empty.
pub fn clamp_selection(selected: usize, len: usize) -> (r: usize)
    ensures
        len == 0 ==> r == 0,
        len != 0 && selected < len ==> r == selected,
        len != 0 && selected >= len ==> r == len - 1,
{
    if len == 0 {
        0
    } else if selected < len {
        selected
    } else {
        len - 1
    }
}

/// Select the next row, wrapping from the last back to the first; a no-op
/// (index 0) on an empty fleet.
pub fn next_index(i: usize, len: usize) -> (r: usize)
    requires
        len == 0 || i < len,
    ensures
        len == 0 ==> r == 0,
        len != 0 ==> r == (i + 1) % (len as int),
{
    if len == 0 {
        0
    } else if i >= len - 1 {
        proof {
            vstd::arithmetic::div_mod::lemma_mod_self_0(len as int);
        }
        0
    } else {
        proof {
            vstd::arithmetic::div_mod::lemma_small_mod((i + 1) as nat, len as nat);
        }
        i + 1
    }
}

/// Select the previous row, wrapping from the first back to the last; a
/// no-op (index 0) on an empty fleet.
pub fn prev_index(i: usize, len: usize) -> (r: usize)
    requires
        len == 0 || i < len,
    ensures
        len == 0 ==> r == 0,
        len != 0 ==> r == (i + (len as int) - 1) % (len as int),
{
    if len == 0 {
        0
    } else if i == 0 {
        proof {
            vstd::arithmetic::div_mod::lemma_small_mod((len - 1) as nat, len as nat);
        }
        len - 1
    } else {
        proof {
            vstd::arithmetic::div_mod::lemma_mod_multiples_vanish(1, i as int - 1, len as int);
            vstd::arithmetic::div_mod::lemma_small_mod((i - 1) as nat, len as nat);
        }
        i - 1
    }
}

/// Dispatch one keyboard input against the current selection. Returns the
/// new selection and whether the view loop must terminate.
pub fn handle_key(selected: usize, key: KeyInput, len: usize) -> (r: (usize, bool))
    requires
        len == 0 || selected < len,
    ensures
        key == KeyInput::Quit ==> r.0 == selected && r.1,
        key == KeyInput::Other ==> r.0 == selected && !r.1,
        key == KeyInput::Down && len == 0 ==> r.0 == 0 && !r.1,
        key == KeyInput::Down && len != 0 ==> r.0 == (selected + 1) % (len as int) && !r.1,
        key == KeyInput::Up && len == 0 ==> r.0 == 0 && !r.1,
        key == KeyInput::Up && len != 0 ==> r.0 == (selected + (len as int) - 1) % (len as int)
            && !r.1,
{
    match key {
        KeyInput::Quit => (selected, true),
        KeyInput::Down => (next_index(selected, len), false),
        KeyInput::Up => (prev_index(selected, len), false),
        KeyInput::Other => (selected, false),
    }
}

/// One iteration of the view loop: race the "snapshot changed" notification
/// against the bounded keyboard poll, then dispatch. A snapshot arrival or a
/// poll timeout only re-clamps the selection for the redraw; a key moves it.
pub fn step(selected: usize, event: ViewEvent, len: usize) -> (r: (usize, bool))
    requires
        len == 0 || selected < len,
    ensures
        event == ViewEvent::SnapshotChanged || event == ViewEvent::TimedOut ==> r.0 == selected
            && !r.1,
        forall|k: KeyInput| event == ViewEvent::KeyPressed(k) ==> r == handle_key_spec(
            selected,
            k,
            len,
        ),
{
    match event {
        ViewEvent::SnapshotChanged => (selected, false),
        ViewEvent::TimedOut => (selected, false),
        ViewEvent::KeyPressed(k) => {
            let r = handle_key(selected, k, len);
            proof {
                assert(r == handle_key_spec(selected, k, len));
            }
            r
        },
    }
}

/// What [`handle_key`] returns, as a spec-level function of its inputs.
pub open spec fn handle_key_spec(selected: usize, key: KeyInput, len: usize) -> (usize, bool) {
    match key {
        KeyInput::Quit => (selected, true),
        KeyInput::Down => (
            if len == 0 {
                0usize
            } else {
                (((selected + 1) % (len as int)) as usize)
            },
            false,
        ),
        KeyInput::Up => (
            if len == 0 {
                0usize
            } else {
                (((selected + (len as int) - 1) % (len as int)) as usize)
            },
            false,
        ),
        KeyInput::Other => (selected, false),
    }
}

} // verus!
