//! The retype table: for every physical frame, its type (unavailable,
//! untyped, user or kernel) and the number of references to it, packed in a
//! 16-bit entry.
use vstd::prelude::*;

use crate::addr::FRAME_SIZE;
use crate::kernel::frames::RawFrame;
use crate::kernel::memory_map::{
    first_fit, lemma_first_fit, map_wf, BumpAllocator, Entry, EntryType,
};

verus! {

/// The type of a physical frame.
#[derive(Debug, PartialEq, Eq, Copy, Clone, Structural)]
pub enum State {
    Unavailable,
    Untyped,
    User,
    Kernel,
}

/// Error for a state code above 3.
#[derive(Debug)]
pub struct Invalid;

/// Bits of an entry that hold the reference count.
pub const COUNTER_BITS: u16 = 14;

/// The largest reference count an entry may record.
pub const MAX_REF_COUNT: u16 = 16383;

/// The code of a state, stored in the two top bits of an entry.
pub open spec fn state_code(s: State) -> u16 {
    match s {
        State::Unavailable => 0,
        State::Untyped => 1,
        State::User => 2,
        State::Kernel => 3,
    }
}

/// The state that a code in 0..4 stands for.
pub open spec fn state_of_code(c: u16) -> State {
    if c == 0 {
        State::Unavailable
    } else if c == 1 {
        State::Untyped
    } else if c == 2 {
        State::User
    } else {
        State::Kernel
    }
}

/// The entry that records `state` with `counter` references; a counter equal
/// to the maximum is stored as 0.
pub open spec fn entry_value(state: State, counter: u16) -> u16 {
    (state_code(state) * 16384 + counter % MAX_REF_COUNT) as u16
}

/// The state that an entry records.
pub open spec fn entry_state(v: u16) -> State {
    state_of_code(v / 16384)
}

/// The reference count that an entry records.
pub open spec fn entry_count(v: u16) -> u16 {
    v % 16384
}

/// Unavailable and untyped frames have no references.
pub open spec fn entry_wf(v: u16) -> bool {
    (entry_state(v) == State::Unavailable || entry_state(v) == State::Untyped) ==> entry_count(v)
        == 0
}

impl State {
    /// The state with code `value`, failing above 3.
    pub fn try_from_u8(value: u8) -> (r: Result<Self, Invalid>)
        ensures
            match r {
                Ok(s) => value <= 3 && state_code(s) == value,
                Err(_) => value > 3,
            },
    {
        match value {
            0 => Ok(State::Unavailable),
            1 => Ok(State::Untyped),
            2 => Ok(State::User),
            3 => Ok(State::Kernel),
            _ => Err(Invalid),
        }
    }

    /// The code of this state.
    pub fn code(self) -> (r: u16)
        ensures
            r == state_code(self),
    {
        match self {
            State::Unavailable => 0,
            State::Untyped => 1,
            State::User => 2,
            State::Kernel => 3,
        }
    }
}

/// Reading an entry written with a counter below the maximum gives back the
/// state and the counter.
pub proof fn lemma_entry_round_trip(state: State, counter: u16)
    requires
        counter < MAX_REF_COUNT,
    ensures
        entry_state(entry_value(state, counter)) == state,
        entry_count(entry_value(state, counter)) == counter,
        entry_wf(entry_value(state, counter)) <==> ((state == State::Unavailable || state
            == State::Untyped) ==> counter == 0),
{
}

proof fn lemma_entry_bits(v: u16, c: u16)
    ensures
        v & 16383u16 == v % 16384,
        v >> 14u16 == v / 16384,
        c <= 3 ==> c << 14u16 == c * 16384,
{
    assert(v & 16383u16 == v % 16384) by (bit_vector);
    assert(v >> 14u16 == v / 16384) by (bit_vector);
    assert(c <= 3 ==> c << 14u16 == c * 16384) by (bit_vector);
}

/// Error for an increment past the maximum count.
#[derive(Debug, Copy, Clone)]
pub struct MaxRefs;

/// Error for a decrement of a zero count.
#[derive(Debug, Copy, Clone)]
pub struct NoRefs;

/// One 16-bit retype entry.
#[derive(Debug, Copy, Clone)]
pub struct RetypeEntry(u16);

impl View for RetypeEntry {
    type V = u16;

    closed spec fn view(&self) -> u16 {
        self.0
    }
}

impl RetypeEntry {
    /// The packed value of `state` and `counter`.
    pub fn value_for(state: State, counter: u16) -> (r: u16)
        requires
            counter <= MAX_REF_COUNT,
        ensures
            r == entry_value(state, counter),
    {
        let code = state.code();
        proof {
            lemma_entry_bits(0, code);
        }
        (code << COUNTER_BITS) + counter % MAX_REF_COUNT
    }

    /// The state and counter that a packed value holds.
    pub fn value_into(value: u16) -> (r: (State, u16))
        ensures
            r == (entry_state(value), entry_count(value)),
    {
        proof {
            lemma_entry_bits(value, 0);
        }
        let counter = value & 16383u16;
        let state = match State::try_from_u8((value >> COUNTER_BITS) as u8) {
            Ok(state) => state,
            Err(_) => {
                assert(false);
                State::Kernel
            },
        };
        (state, counter)
    }

    /// An unavailable entry.
    pub fn unavailable() -> (r: Self)
        ensures
            r@ == entry_value(State::Unavailable, 0),
    {
        Self(Self::value_for(State::Unavailable, 0))
    }

    /// An untyped entry.
    pub fn untyped() -> (r: Self)
        ensures
            r@ == entry_value(State::Untyped, 0),
    {
        Self(Self::value_for(State::Untyped, 0))
    }

    /// A kernel entry with `ref_count` references.
    pub fn kernel(ref_count: u16) -> (r: Self)
        requires
            ref_count <= MAX_REF_COUNT,
        ensures
            r@ == entry_value(State::Kernel, ref_count),
    {
        Self(Self::value_for(State::Kernel, ref_count))
    }

    /// Adds a reference and returns the previous count, failing at the
    /// maximum count.
    pub fn increment(&mut self) -> (r: Result<u16, MaxRefs>)
        ensures
            match r {
                Ok(prev) => entry_count(old(self)@) < MAX_REF_COUNT && prev == entry_count(
                    old(self)@,
                ) && final(self)@ == old(self)@ + 1,
                Err(_) => entry_count(old(self)@) == MAX_REF_COUNT && final(self)@ == old(self)@,
            },
    {
        let (_, counter) = Self::value_into(self.0);
        if counter == MAX_REF_COUNT {
            Err(MaxRefs)
        } else {
            let value = self.0;
            self.0 = value + 1;
            Ok(Self::value_into(value).1)
        }
    }

    /// Drops a reference and returns the previous count, failing at zero.
    pub fn decrement(&mut self) -> (r: Result<u16, NoRefs>)
        ensures
            match r {
                Ok(prev) => entry_count(old(self)@) > 0 && prev == entry_count(old(self)@)
                    && final(self)@ == old(self)@ - 1,
                Err(_) => entry_count(old(self)@) == 0 && final(self)@ == old(self)@,
            },
    {
        let (_, counter) = Self::value_into(self.0);
        if counter == 0 {
            Err(NoRefs)
        } else {
            let value = self.0;
            self.0 = value - 1;
            Ok(Self::value_into(value).1)
        }
    }

    /// The state and the reference count.
    pub fn get(&self) -> (r: (State, u16))
        ensures
            r == (entry_state(self@), entry_count(self@)),
    {
        Self::value_into(self.0)
    }

    /// Adds a reference when the entry is in state `wants` and below the
    /// maximum count; otherwise reports the state and count.
    pub fn get_as_and_increment(&mut self, wants: State) -> (r: Result<(), (State, u16)>)
        ensures
            match r {
                Ok(()) => entry_state(old(self)@) == wants && entry_count(old(self)@)
                    < MAX_REF_COUNT && final(self)@ == entry_value(
                    wants,
                    (entry_count(old(self)@) + 1) as u16,
                ),
                Err(e) => !(entry_state(old(self)@) == wants && entry_count(old(self)@)
                    < MAX_REF_COUNT) && e == (entry_state(old(self)@), entry_count(old(self)@))
                    && final(self)@ == old(self)@,
            },
    {
        let value = self.0;
        let (state, count) = Self::value_into(value);
        if wants == state && count < MAX_REF_COUNT {
            self.0 = Self::value_for(state, count + 1);
            Ok(())
        } else {
            Err(Self::value_into(value))
        }
    }

    /// Moves the entry from `from_state` with `from_counter` references to
    /// `to_state` with `to_counter`, failing (and reporting the state and
    /// count) when it does not hold exactly the former.
    pub fn retype(&mut self, from_state: State, to_state: State, from_counter: u16, to_counter: u16) -> (r:
        Result<(), (State, u16)>)
        requires
            from_counter <= MAX_REF_COUNT,
            to_counter <= MAX_REF_COUNT,
        ensures
            match r {
                Ok(()) => old(self)@ == entry_value(from_state, from_counter) && final(self)@
                    == entry_value(to_state, to_counter),
                Err(e) => old(self)@ != entry_value(from_state, from_counter) && e == (
                    entry_state(old(self)@),
                    entry_count(old(self)@),
                ) && final(self)@ == old(self)@,
            },
    {
        let from = Self::value_for(from_state, from_counter);
        let to = Self::value_for(to_state, to_counter);
        if self.0 == from {
            self.0 = to;
            Ok(())
        } else {
            Err(Self::value_into(self.0))
        }
    }

    /// Overwrites the entry with `state` and `value` references.
    pub fn set(&mut self, state: State, value: u16)
        requires
            value <= MAX_REF_COUNT,
        ensures
            final(self)@ == entry_value(state, value),
    {
        self.0 = Self::value_for(state, value);
    }
}

/// Error for a frame beyond the end of the table.
#[derive(Debug)]
pub struct OutOfBounds;

/// Why a frame could not be retyped.
#[derive(Debug)]
pub enum RetypeError {
    InvalidFromState(State),
    RefsExist(u16),
    OutOfBounds,
}

/// Why a frame could not be used as a typed frame.
#[derive(Debug)]
pub enum AsTypeError {
    NotExpectedState(State),
    MaxRefs,
    OutOfBounds,
}

/// The retype entries of all frames, by frame index.
#[derive(Debug)]
pub struct RetypeTable {
    retype_map: Vec<RetypeEntry>,
}

impl View for RetypeTable {
    type V = Seq<u16>;

    closed spec fn view(&self) -> Seq<u16> {
        self.retype_map@.map_values(|e: RetypeEntry| e@)
    }
}

impl RetypeTable {
    /// Every entry keeps unavailable and untyped frames without references.
    pub open spec fn wf(&self) -> bool {
        forall|i: int| 0 <= i < self@.len() ==> entry_wf(#[trigger] self@[i])
    }

    /// A table of `number_frames` unavailable entries.
    pub fn unavailable(number_frames: usize) -> (r: Self)
        ensures
            r.wf(),
            r@ == Seq::new(number_frames as nat, |i: int| entry_value(State::Unavailable, 0)),
    {
        let mut retype_map: Vec<RetypeEntry> = Vec::new();
        let mut i: usize = 0;
        while i < number_frames
            invariant
                i <= number_frames,
                retype_map@.len() == i,
                forall|j: int|
                    0 <= j < i ==> #[trigger] retype_map@[j]@ == entry_value(State::Unavailable, 0),
            decreases number_frames - i,
        {
            retype_map.push(RetypeEntry::unavailable());
            i = i + 1;
        }
        let r = Self { retype_map };
        assert(r@ =~= Seq::new(number_frames as nat, |i: int| entry_value(State::Unavailable, 0)));
        r
    }

    /// The number of frames the table covers.
    pub fn len(&self) -> (r: usize)
        ensures
            r == self@.len(),
    {
        self.retype_map.len()
    }

    /// The state and count of frame `index`.
    pub fn get(&self, index: usize) -> (r: (State, u16))
        requires
            index < self@.len(),
        ensures
            r == (entry_state(self@[index as int]), entry_count(self@[index as int])),
    {
        self.entry(index).get()
    }

    /// The entry of frame `index`.
    pub fn entry(&self, index: usize) -> (e: RetypeEntry)
        requires
            index < self@.len(),
        ensures
            e@ == self@[index as int],
    {
        self.retype_map[index]
    }

    /// Overwrites the entry of frame `index`.
    pub fn set(&mut self, index: usize, entry: RetypeEntry)
        requires
            index < old(self)@.len(),
        ensures
            final(self)@ == old(self)@.update(index as int, entry@),
    {
        self.retype_map.set(index, entry);
        assert(self@ =~= old(self)@.update(index as int, entry@));
    }
}

/// A frame typed as user memory, holding one reference.
#[derive(Debug)]
pub struct UserFrame(RawFrame);

/// A frame typed as kernel memory, holding one reference.
#[derive(Debug)]
pub struct KernelFrame(RawFrame);

/// The index of the retype entry of the frame at `addr`.
pub open spec fn frame_index(addr: u64) -> int {
    addr as int / 4096
}

impl RawFrame {
    /// The bytes of physical memory that the table covers.
    pub fn memory_size(table: &RetypeTable) -> (r: usize)
        requires
            table@.len() * 4096 <= usize::MAX,
        ensures
            r == table@.len() * 4096,
    {
        let nframes = table.len();
        nframes * 4096
    }

    /// The index of this frame's entry, failing beyond the table.
    fn retype_entry(&self, table: &RetypeTable) -> (r: Result<usize, OutOfBounds>)
        ensures
            match r {
                Ok(i) => i == frame_index(self@) && i < table@.len(),
                Err(_) => frame_index(self@) >= table@.len(),
            },
    {
        let index = self.addr().as_u64() / 4096;
        if index < table.len() as u64 {
            Ok(index as usize)
        } else {
            Err(OutOfBounds)
        }
    }

    fn try_as(self, table: &mut RetypeTable, wants: State) -> (r: Result<(), AsTypeError>)
        requires
            old(table).wf(),
            wants == State::User || wants == State::Kernel,
        ensures
            final(table).wf(),
            as_type_outcome(old(table)@, final(table)@, self@, wants, r),
    {
        let index = match self.retype_entry(table) {
            Ok(i) => i,
            Err(_) => return Err(AsTypeError::OutOfBounds),
        };
        let mut entry = table.entry(index);
        match entry.get_as_and_increment(wants) {
            Ok(()) => {
                table.set(index, entry);
                Ok(())
            },
            Err((state, _value)) => {
                if state != wants {
                    Err(AsTypeError::NotExpectedState(state))
                } else {
                    Err(AsTypeError::MaxRefs)
                }
            },
        }
    }

    /// Takes a reference to this frame as user memory.
    pub fn try_as_user(self, table: &mut RetypeTable) -> (r: Result<UserFrame, AsTypeError>)
        requires
            old(table).wf(),
        ensures
            final(table).wf(),
            as_type_outcome(
                old(table)@,
                final(table)@,
                self@,
                State::User,
                match r {
                    Ok(_) => Ok(()),
                    Err(e) => Err(e),
                },
            ),
            match r {
                Ok(f) => f@ == self@,
                Err(_) => true,
            },
    {
        match self.try_as(table, State::User) {
            Ok(()) => Ok(UserFrame(self)),
            Err(e) => Err(e),
        }
    }

    /// Takes a reference to this frame as kernel memory.
    pub fn try_as_kernel(self, table: &mut RetypeTable) -> (r: Result<KernelFrame, AsTypeError>)
        requires
            old(table).wf(),
        ensures
            final(table).wf(),
            as_type_outcome(
                old(table)@,
                final(table)@,
                self@,
                State::Kernel,
                match r {
                    Ok(_) => Ok(()),
                    Err(e) => Err(e),
                },
            ),
            match r {
                Ok(f) => f@ == self@,
                Err(_) => true,
            },
    {
        match self.try_as(table, State::Kernel) {
            Ok(()) => Ok(KernelFrame(self)),
            Err(e) => Err(e),
        }
    }

    /// This frame, when it is untyped.
    pub fn try_as_untyped(self, table: &RetypeTable) -> (r: Result<RawFrame, AsTypeError>)
        ensures
            match r {
                Ok(f) => f == self && frame_index(self@) < table@.len() && entry_state(
                    table@[frame_index(self@)],
                ) == State::Untyped,
                Err(AsTypeError::OutOfBounds) => frame_index(self@) >= table@.len(),
                Err(AsTypeError::NotExpectedState(s)) => frame_index(self@) < table@.len() && s
                    == entry_state(table@[frame_index(self@)]) && s != State::Untyped,
                Err(AsTypeError::MaxRefs) => false,
            },
    {
        let index = match self.retype_entry(table) {
            Ok(i) => i,
            Err(_) => return Err(AsTypeError::OutOfBounds),
        };
        let (state, _count) = table.get(index);
        if state != State::Untyped {
            return Err(AsTypeError::NotExpectedState(state));
        }
        Ok(self)
    }

    fn try_into(self, table: &mut RetypeTable, to: State) -> (r: Result<(), RetypeError>)
        requires
            old(table).wf(),
            to == State::User || to == State::Kernel,
        ensures
            final(table).wf(),
            into_type_outcome(old(table)@, final(table)@, self@, to, r),
    {
        let index = match self.retype_entry(table) {
            Ok(i) => i,
            Err(_) => return Err(RetypeError::OutOfBounds),
        };
        let mut entry = table.entry(index);
        match entry.retype(State::Untyped, to, 0, 1) {
            Ok(()) => {
                table.set(index, entry);
                Ok(())
            },
            Err((state, _count)) => Err(RetypeError::InvalidFromState(state)),
        }
    }

    /// Retypes this untyped, unreferenced frame into user memory holding one
    /// reference.
    pub fn try_into_user(self, table: &mut RetypeTable) -> (r: Result<UserFrame, RetypeError>)
        requires
            old(table).wf(),
        ensures
            final(table).wf(),
            into_type_outcome(
                old(table)@,
                final(table)@,
                self@,
                State::User,
                match r {
                    Ok(_) => Ok(()),
                    Err(e) => Err(e),
                },
            ),
            match r {
                Ok(f) => f@ == self@,
                Err(_) => true,
            },
    {
        match self.try_into(table, State::User) {
            Ok(()) => Ok(UserFrame(self)),
            Err(e) => Err(e),
        }
    }

    /// Retypes this untyped, unreferenced frame into kernel memory holding
    /// one reference.
    pub fn try_into_kernel(self, table: &mut RetypeTable) -> (r: Result<KernelFrame, RetypeError>)
        requires
            old(table).wf(),
        ensures
            final(table).wf(),
            into_type_outcome(
                old(table)@,
                final(table)@,
                self@,
                State::Kernel,
                match r {
                    Ok(_) => Ok(()),
                    Err(e) => Err(e),
                },
            ),
            match r {
                Ok(f) => f@ == self@,
                Err(_) => true,
            },
    {
        match self.try_into(table, State::Kernel) {
            Ok(()) => Ok(KernelFrame(self)),
            Err(e) => Err(e),
        }
    }

    fn try_into_untyped_from(self, table: &mut RetypeTable, from: State) -> (r: Result<
        RawFrame,
        RetypeError,
    >)
        requires
            old(table).wf(),
            from == State::User || from == State::Kernel,
        ensures
            final(table).wf(),
            untyped_from_outcome(
                old(table)@,
                final(table)@,
                self@,
                from,
                match r {
                    Ok(_) => Ok(()),
                    Err(e) => Err(e),
                },
            ),
            match r {
                Ok(f) => f == self,
                Err(_) => true,
            },
    {
        let index = match self.retype_entry(table) {
            Ok(i) => i,
            Err(_) => return Err(RetypeError::OutOfBounds),
        };
        let mut entry = table.entry(index);
        proof {
            assert(entry_wf(table@[index as int]));
        }
        match entry.retype(from, State::Untyped, 0, 0) {
            Ok(()) => {
                table.set(index, entry);
                Ok(self)
            },
            Err((State::Unavailable, _refs)) => Err(RetypeError::InvalidFromState(State::Unavailable)),
            Err((s, refs)) => {
                if s == from {
                    Err(RetypeError::RefsExist(refs))
                } else {
                    Err(RetypeError::InvalidFromState(s))
                }
            },
        }
    }

    /// Retypes this unreferenced user or kernel frame back into untyped
    /// memory; user memory is tried first.
    pub fn try_into_untyped(self, table: &mut RetypeTable) -> (r: Result<RawFrame, RetypeError>)
        requires
            old(table).wf(),
        ensures
            final(table).wf(),
            match r {
                Ok(f) => f == self && frame_index(self@) < old(table)@.len() && (
                old(table)@[frame_index(self@)] == entry_value(State::User, 0) || old(table)@[frame_index(self@)]
                    == entry_value(State::Kernel, 0)) && final(table)@ == old(table)@.update(
                    frame_index(self@),
                    entry_value(State::Untyped, 0),
                ),
                Err(e) => final(table)@ == old(table)@ && untyped_from_outcome(
                    old(table)@,
                    final(table)@,
                    self@,
                    State::Kernel,
                    Err(e),
                ),
            },
    {
        if self.try_into_untyped_from(table, State::User).is_ok() {
            return Ok(self);
        }
        self.try_into_untyped_from(table, State::Kernel)?;
        Ok(self)
    }
}

/// The outcome of taking a reference of type `wants` to the frame at `addr`.
pub open spec fn as_type_outcome(
    before: Seq<u16>,
    after: Seq<u16>,
    addr: u64,
    wants: State,
    r: Result<(), AsTypeError>,
) -> bool {
    let i = frame_index(addr);
    match r {
        Ok(()) => i < before.len() && entry_state(before[i]) == wants && entry_count(before[i])
            < MAX_REF_COUNT && after == before.update(
            i,
            entry_value(wants, (entry_count(before[i]) + 1) as u16),
        ),
        Err(AsTypeError::OutOfBounds) => i >= before.len() && after == before,
        Err(AsTypeError::NotExpectedState(s)) => i < before.len() && s == entry_state(before[i])
            && s != wants && after == before,
        Err(AsTypeError::MaxRefs) => i < before.len() && entry_state(before[i]) == wants
            && entry_count(before[i]) == MAX_REF_COUNT && after == before,
    }
}

/// The outcome of retyping the untyped frame at `addr` into `to`.
pub open spec fn into_type_outcome(
    before: Seq<u16>,
    after: Seq<u16>,
    addr: u64,
    to: State,
    r: Result<(), RetypeError>,
) -> bool {
    let i = frame_index(addr);
    match r {
        Ok(()) => i < before.len() && before[i] == entry_value(State::Untyped, 0) && after
            == before.update(i, entry_value(to, 1)),
        Err(RetypeError::OutOfBounds) => i >= before.len() && after == before,
        Err(RetypeError::InvalidFromState(s)) => i < before.len() && before[i] != entry_value(
            State::Untyped,
            0,
        ) && s == entry_state(before[i]) && after == before,
        Err(RetypeError::RefsExist(_)) => false,
    }
}

/// The outcome of retyping the unreferenced frame of type `from` at `addr`
/// into untyped memory.
pub open spec fn untyped_from_outcome(
    before: Seq<u16>,
    after: Seq<u16>,
    addr: u64,
    from: State,
    r: Result<(), RetypeError>,
) -> bool {
    let i = frame_index(addr);
    match r {
        Ok(()) => i < before.len() && before[i] == entry_value(from, 0) && after == before.update(
            i,
            entry_value(State::Untyped, 0),
        ),
        Err(RetypeError::OutOfBounds) => i >= before.len() && after == before,
        Err(RetypeError::RefsExist(n)) => i < before.len() && entry_state(before[i]) == from && n
            == entry_count(before[i]) && n != 0 && after == before,
        Err(RetypeError::InvalidFromState(s)) => i < before.len() && s == entry_state(before[i])
            && s != from && after == before,
    }
}

/// A well-formed untyped entry holds no reference.
pub proof fn lemma_untyped_entry(v: u16)
    requires
        entry_wf(v),
        entry_state(v) == State::Untyped,
    ensures
        v == entry_value(State::Untyped, 0),
{
    assert(v / 16384 == 1);
}

/// Retyping an untyped frame into user or kernel memory, releasing the one
/// reference that this gives and retyping the frame back into untyped
/// memory leaves the retype table as it was: the retype gives the frame one
/// reference, and once it is released the frame is of its type with no
/// reference, which is what going back to untyped memory asks.
pub proof fn lemma_retype_release_round_trip(before: Seq<u16>, typed: Seq<u16>, addr: u64, to: State)
    requires
        to == State::User || to == State::Kernel,
        into_type_outcome(before, typed, addr, to, Ok(())),
    ensures
        ({
            let i = frame_index(addr);
            let released = typed.update(i, (typed[i] - 1) as u16);
            &&& entry_count(typed[i]) == 1
            &&& untyped_from_outcome(released, before, addr, to, Ok(()))
        }),
{
    let i = frame_index(addr);
    let released = typed.update(i, (typed[i] - 1) as u16);
    assert(released.update(i, entry_value(State::Untyped, 0)) =~= before);
}

impl UserFrame {
    /// The frame.
    pub closed spec fn view(&self) -> u64 {
        self.0@
    }

    /// The frame.
    pub fn frame(&self) -> (r: RawFrame)
        ensures
            r@ == self@,
    {
        self.0
    }

    /// Gives up the typed handle, keeping its reference counted.
    pub fn into_raw(self) -> (r: RawFrame)
        ensures
            r@ == self@,
    {
        self.0
    }

    /// Takes another reference to the frame, failing at the maximum count.
    pub fn try_clone(&self, table: &mut RetypeTable) -> (r: Option<Self>)
        requires
            old(table).wf(),
            frame_index(self@) < old(table)@.len(),
            entry_state(old(table)@[frame_index(self@)]) == State::User,
        ensures
            final(table).wf(),
            match r {
                Some(f) => f@ == self@ && entry_count(old(table)@[frame_index(self@)])
                    < MAX_REF_COUNT && final(table)@ == old(table)@.update(
                    frame_index(self@),
                    (old(table)@[frame_index(self@)] + 1) as u16,
                ),
                None => entry_count(old(table)@[frame_index(self@)]) == MAX_REF_COUNT
                    && final(table)@ == old(table)@,
            },
    {
        let len = table.len();
        let idx = self.0.addr().as_u64() / 4096;
        assert(idx < len);
        let index = idx as usize;
        let mut entry = table.entry(index);
        match entry.increment() {
            Ok(_) => {
                table.set(index, entry);
                proof {
                    lemma_increment_keeps_state(old(table)@[index as int]);
                }
                Some(Self(self.frame()))
            },
            Err(_) => None,
        }
    }

    /// Releases this reference and returns the count it had.
    pub fn drop(self, table: &mut RetypeTable) -> (r: u16)
        requires
            old(table).wf(),
            frame_index(self@) < old(table)@.len(),
            entry_count(old(table)@[frame_index(self@)]) > 0,
        ensures
            final(table).wf(),
            r == entry_count(old(table)@[frame_index(self@)]),
            final(table)@ == old(table)@.update(
                frame_index(self@),
                (old(table)@[frame_index(self@)] - 1) as u16,
            ),
    {
        release(self.0, table)
    }
}

impl KernelFrame {
    /// The frame.
    pub closed spec fn view(&self) -> u64 {
        self.0@
    }

    /// The frame.
    pub fn frame(&self) -> (r: RawFrame)
        ensures
            r@ == self@,
    {
        self.0
    }

    /// Gives up the typed handle, keeping its reference counted.
    pub fn into_raw(self) -> (r: RawFrame)
        ensures
            r@ == self@,
    {
        self.0
    }

    /// Takes back the handle of a kernel frame given up by `into_raw`: the
    /// same frame, with its reference count left as it is (neither this
    /// nor `into_raw` touches the retype table).
    pub fn from_raw(frame: RawFrame) -> (r: Self)
        ensures
            r@ == frame@,
    {
        Self(frame)
    }

    /// Takes another reference to the frame, failing at the maximum count.
    pub fn try_clone(&self, table: &mut RetypeTable) -> (r: Option<Self>)
        requires
            old(table).wf(),
            frame_index(self@) < old(table)@.len(),
            entry_state(old(table)@[frame_index(self@)]) == State::Kernel,
        ensures
            final(table).wf(),
            match r {
                Some(f) => f@ == self@ && entry_count(old(table)@[frame_index(self@)])
                    < MAX_REF_COUNT && final(table)@ == old(table)@.update(
                    frame_index(self@),
                    (old(table)@[frame_index(self@)] + 1) as u16,
                ),
                None => entry_count(old(table)@[frame_index(self@)]) == MAX_REF_COUNT
                    && final(table)@ == old(table)@,
            },
    {
        let len = table.len();
        let idx = self.0.addr().as_u64() / 4096;
        assert(idx < len);
        let index = idx as usize;
        let mut entry = table.entry(index);
        match entry.increment() {
            Ok(_) => {
                table.set(index, entry);
                proof {
                    lemma_increment_keeps_state(old(table)@[index as int]);
                }
                Some(Self(self.frame()))
            },
            Err(_) => None,
        }
    }

    /// Releases this reference and returns the count it had.
    pub fn drop(self, table: &mut RetypeTable) -> (r: u16)
        requires
            old(table).wf(),
            frame_index(self@) < old(table)@.len(),
            entry_count(old(table)@[frame_index(self@)]) > 0,
        ensures
            final(table).wf(),
            r == entry_count(old(table)@[frame_index(self@)]),
            final(table)@ == old(table)@.update(
                frame_index(self@),
                (old(table)@[frame_index(self@)] - 1) as u16,
            ),
    {
        release(self.0, table)
    }
}

proof fn lemma_increment_keeps_state(v: u16)
    requires
        entry_count(v) < MAX_REF_COUNT,
    ensures
        entry_state((v + 1) as u16) == entry_state(v),
        entry_count((v + 1) as u16) == entry_count(v) + 1,
{
}

proof fn lemma_decrement_keeps_state(v: u16)
    requires
        entry_count(v) > 0,
    ensures
        entry_state((v - 1) as u16) == entry_state(v),
        entry_count((v - 1) as u16) == entry_count(v) - 1,
{
}

fn release(frame: RawFrame, table: &mut RetypeTable) -> (r: u16)
    requires
        old(table).wf(),
        frame_index(frame@) < old(table)@.len(),
        entry_count(old(table)@[frame_index(frame@)]) > 0,
    ensures
        final(table).wf(),
        r == entry_count(old(table)@[frame_index(frame@)]),
        final(table)@ == old(table)@.update(
            frame_index(frame@),
            (old(table)@[frame_index(frame@)] - 1) as u16,
        ),
{
    let len = table.len();
    let idx = frame.addr().as_u64() / 4096;
    assert(idx < len);
    let index = idx as usize;
    let mut entry = table.entry(index);
    let r = match entry.decrement() {
        Ok(c) => c,
        Err(_) => {
            assert(false);
            0
        },
    };
    table.set(index, entry);
    proof {
        lemma_decrement_keeps_state(old(table)@[index as int]);
    }
    r
}

/// The entry that frames of a memory-map entry type start with: usable
/// memory is untyped, bootloader and kernel memory is kernel memory with one
/// reference, and the rest is unavailable.
pub open spec fn initial_entry(t: EntryType) -> u16 {
    match t {
        EntryType::Usable => entry_value(State::Untyped, 0),
        EntryType::BootloaderReclaimable => entry_value(State::Kernel, 1),
        EntryType::KernelAndModules => entry_value(State::Kernel, 1),
        _ => entry_value(State::Unavailable, 0),
    }
}

/// The entry of frame `f` once the first `k` entries of `map` are applied in
/// order: a later entry that covers `f` overrides an earlier one, and a frame
/// that no entry covers is unavailable.
pub open spec fn classify(map: Seq<Entry>, k: nat, f: int) -> u16
    decreases k,
{
    if k == 0 || k > map.len() {
        entry_value(State::Unavailable, 0)
    } else {
        let e = map[k - 1];
        if e.base / 4096 <= f < e.base / 4096 + e.length / 4096 {
            initial_entry(e.entry_type)
        } else {
            classify(map, (k - 1) as nat, f)
        }
    }
}

/// A frame takes its entry from the last entry of the memory map that
/// covers it: usable memory is untyped and unreferenced, memory that the
/// bootloader or the kernel still uses is kernel memory with one reference,
/// and any other memory is unavailable. A frame is untyped only when that
/// entry is usable memory, and a frame that no entry covers is unavailable.
pub proof fn lemma_classify_last_cover(map: Seq<Entry>, k: nat, f: int, i: int)
    requires
        k <= map.len(),
        0 <= i < k,
        map[i].base / 4096 <= f < map[i].base / 4096 + map[i].length / 4096,
        forall|j: int|
            i < j < k ==> !(map[j].base / 4096 <= f < #[trigger] map[j].base / 4096 + map[j].length
                / 4096),
    ensures
        ({
            let v = classify(map, k, f);
            &&& map[i].entry_type == EntryType::Usable ==> entry_state(v) == State::Untyped
                && entry_count(v) == 0
            &&& (map[i].entry_type == EntryType::BootloaderReclaimable || map[i].entry_type
                == EntryType::KernelAndModules) ==> entry_state(v) == State::Kernel && entry_count(v)
                == 1
            &&& !(map[i].entry_type == EntryType::Usable || map[i].entry_type
                == EntryType::BootloaderReclaimable || map[i].entry_type
                == EntryType::KernelAndModules) ==> entry_state(v) == State::Unavailable
                && entry_count(v) == 0
            &&& entry_state(v) == State::Untyped <==> map[i].entry_type == EntryType::Usable
        }),
    decreases k,
{
    lemma_entry_round_trip(State::Untyped, 0);
    lemma_entry_round_trip(State::Kernel, 1);
    lemma_entry_round_trip(State::Unavailable, 0);
    if i < k - 1 {
        lemma_classify_last_cover(map, (k - 1) as nat, f, i);
    }
}

/// A frame that no entry of the memory map covers is unavailable.
pub proof fn lemma_classify_uncovered(map: Seq<Entry>, k: nat, f: int)
    requires
        k <= map.len(),
        forall|j: int|
            0 <= j < k ==> !(map[j].base / 4096 <= f < #[trigger] map[j].base / 4096 + map[j].length
                / 4096),
    ensures
        entry_state(classify(map, k, f)) == State::Unavailable,
        entry_count(classify(map, k, f)) == 0,
    decreases k,
{
    lemma_entry_round_trip(State::Unavailable, 0);
    if k > 0 {
        lemma_classify_uncovered(map, (k - 1) as nat, f);
    }
}

/// Every entry of `map` ends at or below `top`.
pub open spec fn ends_within(map: Seq<Entry>, top: u64) -> bool {
    forall|i: int| 0 <= i < map.len() ==> #[trigger] map[i].base + map[i].length <= top
}

/// The frames that hold a table of `number_frames` two-byte entries.
pub open spec fn table_frames(number_frames: int) -> int {
    (2 * number_frames - 1) / 4096 + 1
}

/// The map left after the table's own frames are taken from `map`.
pub open spec fn map_after_table(map: Seq<Entry>, number_frames: int) -> Seq<Entry> {
    let need = (table_frames(number_frames) * 4096) as u64;
    let j = first_fit(map, 0, need);
    map.update(j, Entry { base: (map[j].base + need) as u64, length: (map[j].length - need) as u64, ..map[j] })
}

fn initial_entry_for(t: EntryType) -> (r: RetypeEntry)
    ensures
        r@ == initial_entry(t),
        entry_wf(r@),
{
    proof {
        lemma_entry_round_trip(State::Untyped, 0);
        lemma_entry_round_trip(State::Kernel, 1);
        lemma_entry_round_trip(State::Unavailable, 0);
    }
    match t {
        EntryType::Usable => RetypeEntry::untyped(),
        EntryType::BootloaderReclaimable | EntryType::KernelAndModules => RetypeEntry::kernel(1),
        _ => RetypeEntry::unavailable(),
    }
}

proof fn lemma_aligned_end(base: u64, length: u64)
    requires
        base % 4096 == 0,
        length % 4096 == 0,
    ensures
        (base + length) % 4096 == 0,
        base / 4096 + length / 4096 == (base + length) / 4096,
{
    vstd::arithmetic::div_mod::lemma_fundamental_div_mod(base as int, 4096);
    vstd::arithmetic::div_mod::lemma_fundamental_div_mod(length as int, 4096);
    vstd::arithmetic::div_mod::lemma_fundamental_div_mod_converse(
        base + length,
        4096,
        base / 4096 + length / 4096,
        0,
    );
}

impl RetypeTable {
    /// The table for the physical memory that `memory_map` describes: one
    /// entry per frame below the end of the last entry, each classified by
    /// the entry that covers it once the table's own frames are taken from
    /// the first usable entry large enough. `None` when the map is empty or
    /// no usable entry holds the table.
    pub fn new(memory_map: Vec<Entry>) -> (r: Option<Self>)
        requires
            map_wf(memory_map@),
            memory_map@.len() > 0 ==> ends_within(
                memory_map@,
                (memory_map@.last().base + memory_map@.last().length) as u64,
            ),
            memory_map@.len() > 0 ==> memory_map@.last().base + memory_map@.last().length > 0,
            memory_map@.len() > 0 ==> 2 * ((memory_map@.last().base + memory_map@.last().length)
                / 4096) <= usize::MAX,
        ensures
            memory_map@.len() == 0 ==> r is None,
            memory_map@.len() > 0 ==> ({
                let top = memory_map@.last().base + memory_map@.last().length;
                let n = top / 4096;
                let need = (table_frames(n) * 4096) as u64;
                let fits = first_fit(memory_map@, 0, need) < memory_map@.len();
                let map2 = map_after_table(memory_map@, n);
                match r {
                    Some(t) => fits && t.wf() && t@ == Seq::new(
                        n as nat,
                        |f: int| classify(map2, map2.len(), f),
                    ),
                    None => !fits,
                }
            }),
    {
        let ghost map0 = memory_map@;
        let len = memory_map.len();
        if len == 0 {
            return None;
        }
        let last = memory_map[len - 1];
        assert(crate::kernel::memory_map::entry_wf(memory_map@[len - 1]));
        let physical_top = last.base + last.length;
        proof {
            lemma_aligned_end(last.base, last.length);
        }
        let number_frames = (physical_top / FRAME_SIZE) as usize;
        let mut allocator = BumpAllocator::new(memory_map);
        let retype_map_frames = {
            let retype_map_size = 2 * number_frames;
            (retype_map_size - 1) / 4096 + 1
        };
        assert(retype_map_frames <= number_frames) by {
            vstd::arithmetic::div_mod::lemma_div_is_ordered(
                (2 * number_frames - 1) as int,
                (4096 * number_frames - 1) as int,
                4096,
            );
            vstd::arithmetic::div_mod::lemma_div_multiples_vanish_fancy(
                (number_frames - 1) as int,
                4095,
                4096,
            );
        }
        let ghost map1 = allocator.spec_map();
        let ghost need = (table_frames(number_frames as int) * 4096) as u64;
        assert(retype_map_frames == table_frames(number_frames as int));
        let allocated = allocator.alloc_frames(retype_map_frames);
        if allocated.is_none() {
            return None;
        }
        assert(first_fit(map1, 0, need) < map1.len());
        proof {
            lemma_first_fit(map1, 0, need);
        }
        let memory_map = allocator.into_memory_map();
        let ghost map2 = memory_map@;
        assert(map1 == map0);
        assert(map2 == map_after_table(map1, number_frames as int));
        assert(map2.len() == map0.len());
        assert(ends_within(map2, physical_top)) by {
            assert forall|i: int| 0 <= i < map2.len() implies #[trigger] map2[i].base
                + map2[i].length <= physical_top by {
                assert(map0[i].base + map0[i].length <= physical_top);
            }
        }
        let mut table = RetypeTable::unavailable(number_frames);
        let mut k: usize = 0;
        while k < memory_map.len()
            invariant
                memory_map@ == map2,
                map_wf(map2),
                ends_within(map2, physical_top),
                number_frames == physical_top / 4096,
                physical_top % 4096 == 0,
                k <= map2.len(),
                table.wf(),
                table@ == Seq::new(number_frames as nat, |f: int| classify(map2, k as nat, f)),
            decreases map2.len() - k,
        {
            let entry = memory_map[k];
            assert(crate::kernel::memory_map::entry_wf(map2[k as int]));
            proof {
                lemma_aligned_end(entry.base, entry.length);
                vstd::arithmetic::div_mod::lemma_div_is_ordered(
                    (entry.base + entry.length) as int,
                    physical_top as int,
                    4096,
                );
            }
            let start_idx = (entry.base / FRAME_SIZE) as usize;
            let count = (entry.length / FRAME_SIZE) as usize;
            let value = initial_entry_for(entry.entry_type);
            let mut i = start_idx;
            while i < start_idx + count
                invariant
                    start_idx <= i <= start_idx + count <= number_frames,
                    start_idx == entry.base / 4096,
                    count == entry.length / 4096,
                    entry == map2[k as int],
                    k < map2.len(),
                    value@ == initial_entry(entry.entry_type),
                    entry_wf(value@),
                    table.wf(),
                    table@.len() == number_frames,
                    forall|f: int|
                        0 <= f < number_frames ==> #[trigger] table@[f] == if start_idx <= f < i {
                            initial_entry(entry.entry_type)
                        } else {
                            classify(map2, k as nat, f)
                        },
                decreases start_idx + count - i,
            {
                table.set(i, value);
                i = i + 1;
            }
            k = k + 1;
            assert(table@ =~= Seq::new(number_frames as nat, |f: int| classify(map2, k as nat, f)));
        }
        Some(table)
    }
}

} // verus!
