//! Constructing a shared value once.
//!
//! Any number of callers may ask for the value. The first is told to construct
//! it, those that arrive while it is being constructed are told to wait for
//! that same construction, and those that arrive later are handed the value
//! that was stored. The cell decides; the embedding program constructs, waits
//! and wakes.

use vstd::prelude::*;

verus! {

/// A cell that is filled at most once.
pub enum InitCell<T> {
    /// Nobody has asked yet.
    Empty,
    /// A caller was told to construct the value and has not delivered it yet.
    Constructing,
    /// The value, for good.
    Ready(T),
}

/// What a caller that asks for the value has to do.
#[derive(Clone, Copy, Debug, PartialEq, Eq, Structural)]
pub enum AccessStep {
    /// Construct the value and deliver it.
    Construct,
    /// Wait until the caller that constructs the value has delivered it.
    Wait,
    /// Take the value that is there.
    Reuse,
}

/// What happens to a cell.
pub enum InitEvent<T> {
    /// A caller asks for the value.
    Access,
    /// A constructed value is delivered.
    Constructed(T),
}

impl<T> InitCell<T> {
    /// What a caller that asks in this state is told.
    pub open spec fn step_for(self) -> AccessStep {
        match self {
            InitCell::Empty => AccessStep::Construct,
            InitCell::Constructing => AccessStep::Wait,
            InitCell::Ready(_) => AccessStep::Reuse,
        }
    }

    /// The cell after a caller asked.
    pub open spec fn after_access(self) -> InitCell<T> {
        match self {
            InitCell::Empty => InitCell::Constructing,
            _ => self,
        }
    }

    /// Whether a delivered value is stored: only a construction that is under
    /// way can be completed.
    pub open spec fn accepts(self) -> bool {
        self is Constructing
    }

    /// The cell after `value` was delivered.
    pub open spec fn after_constructed(self, value: T) -> InitCell<T> {
        if self.accepts() {
            InitCell::Ready(value)
        } else {
            self
        }
    }

    /// The cell after `event`.
    pub open spec fn after(self, event: InitEvent<T>) -> InitCell<T> {
        match event {
            InitEvent::Access => self.after_access(),
            InitEvent::Constructed(value) => self.after_constructed(value),
        }
    }

    /// The cell after each of `events` in turn.
    pub open spec fn after_all(self, events: Seq<InitEvent<T>>) -> InitCell<T>
        decreases events.len(),
    {
        if events.len() == 0 {
            self
        } else {
            self.after_all(events.drop_last()).after(events.last())
        }
    }

    /// How many of the callers among `events` are told to construct the value.
    pub open spec fn constructions(self, events: Seq<InitEvent<T>>) -> nat
        decreases events.len(),
    {
        if events.len() == 0 {
            0
        } else {
            let earlier = events.drop_last();
            let this_one: nat = if events.last() is Access && self.after_all(earlier).step_for()
                == AccessStep::Construct {
                1
            } else {
                0
            };
            self.constructions(earlier) + this_one
        }
    }

    /// The empty cell.
    pub fn new() -> (cell: Self)
        ensures
            cell == InitCell::<T>::Empty,
    {
        InitCell::Empty
    }

    /// A caller asks for the value and is told what to do.
    pub fn access(&mut self) -> (step: AccessStep)
        ensures
            step == old(self).step_for(),
            *final(self) == old(self).after_access(),
    {
        match self {
            InitCell::Empty => {
                *self = InitCell::Constructing;
                AccessStep::Construct
            },
            InitCell::Constructing => AccessStep::Wait,
            InitCell::Ready(_) => AccessStep::Reuse,
        }
    }

    /// The caller that was told to construct the value delivers it. A value
    /// that nobody was told to construct, or that comes after the cell was
    /// filled, is not stored.
    pub fn constructed(&mut self, value: T) -> (stored: bool)
        ensures
            stored == old(self).accepts(),
            *final(self) == old(self).after_constructed(value),
    {
        match self {
            InitCell::Constructing => {
                *self = InitCell::Ready(value);
                true
            },
            _ => false,
        }
    }

    /// The value, once it is there.
    pub fn get(&self) -> (value: Option<&T>)
        ensures
            match *self {
                InitCell::Ready(stored) => value == Some(&stored),
                _ => value is None,
            },
    {
        match self {
            InitCell::Ready(value) => Some(value),
            _ => None,
        }
    }
}

/// A filled cell stays as it is: whoever asks later is handed the same value.
pub proof fn lemma_ready_is_final<T>(cell: InitCell<T>, events: Seq<InitEvent<T>>)
    requires
        cell is Ready,
    ensures
        cell.after_all(events) == cell,
        cell.constructions(events) == 0,
    decreases events.len(),
{
    if events.len() > 0 {
        lemma_ready_is_final(cell, events.drop_last());
    }
}

/// One run of events and then another is all of them in turn.
pub proof fn lemma_after_all_concat<T>(
    cell: InitCell<T>,
    first: Seq<InitEvent<T>>,
    rest: Seq<InitEvent<T>>,
)
    ensures
        cell.after_all(first + rest) == cell.after_all(first).after_all(rest),
    decreases rest.len(),
{
    if rest.len() == 0 {
        assert(first + rest =~= first);
    } else {
        lemma_after_all_concat(cell, first, rest.drop_last());
        assert((first + rest).drop_last() =~= first + rest.drop_last());
        assert((first + rest).last() == rest.last());
    }
}

/// Every caller is handed the same value: once a run of events has filled the
/// cell, nothing that follows changes what it holds, and whoever asks is told
/// to take it.
pub proof fn lemma_value_is_shared<T>(
    cell: InitCell<T>,
    before: Seq<InitEvent<T>>,
    after: Seq<InitEvent<T>>,
)
    requires
        cell.after_all(before) is Ready,
    ensures
        cell.after_all(before + after) == cell.after_all(before),
        cell.after_all(before + after).step_for() == AccessStep::Reuse,
{
    lemma_after_all_concat(cell, before, after);
    lemma_ready_is_final(cell.after_all(before), after);
}

/// Single initialization: over any run of callers and deliveries on a cell
/// that starts empty, exactly one caller is told to construct the value, and
/// none where nobody asks.
pub proof fn lemma_constructed_once<T>(events: Seq<InitEvent<T>>)
    ensures
        InitCell::<T>::Empty.constructions(events) == (if exists|i: int|
            0 <= i < events.len() && events[i] is Access {
            1nat
        } else {
            0nat
        }),
        InitCell::<T>::Empty.after_all(events) is Empty <==> !exists|i: int|
            0 <= i < events.len() && events[i] is Access,
    decreases events.len(),
{
    if events.len() > 0 {
        let earlier = events.drop_last();
        lemma_constructed_once(earlier);
        if exists|i: int| 0 <= i < earlier.len() && earlier[i] is Access {
            let i: int = choose|i: int| 0 <= i < earlier.len() && earlier[i] is Access;
            assert(events[i] is Access);
        }
        if exists|i: int| 0 <= i < events.len() && events[i] is Access {
            let i: int = choose|i: int| 0 <= i < events.len() && events[i] is Access;
            if i < earlier.len() {
                assert(earlier[i] is Access);
            } else {
                assert(events.last() is Access);
            }
        }
        if events.last() is Access {
            assert(events[events.len() - 1] is Access);
        }
    }
}

} // verus!
