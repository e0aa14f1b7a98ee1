//! The bookkeeping of one transfer: which units hold a slot, how many
//! attempts each has made, and the one flag by which a unit that gave up stops
//! all others from trying again.
//!
//! The job decides; it performs nothing. A worker asks for a slot, asks before
//! every attempt whether it may start one, and reports how the attempt went.
//! A unit that may not start an attempt has failed, and its failure lowers the
//! flag for the whole job. Attempts that are under way are never interrupted:
//! the flag only keeps new ones from starting.

use vstd::prelude::*;
use crate::error::Error;

verus! {

/// The number of attempts that one unit may make.
pub const MAX_ATTEMPTS: u8 = 3;

/// The number of chunks of an upload that may be under way at once.
pub const UPLOAD_SLOTS: usize = 8;

/// The number of blocks of a download that may be under way at once.
pub const DOWNLOAD_SLOTS: usize = 16;

/// The direction of a transfer.
#[derive(Debug, Clone, Copy, PartialEq, Eq, Structural)]
pub enum TransferKind {
    Upload,
    Download,
}

/// Where one unit of a transfer stands.
#[derive(Debug, Clone, Copy, PartialEq, Eq, Structural)]
pub enum UnitState {
    /// Holds no slot yet.
    Waiting,
    /// Holds a slot; `attempts` attempts were made and none is under way.
    Idle { attempts: u8 },
    /// Holds a slot; the attempt numbered `attempts` is under way.
    Busy { attempts: u8 },
    /// An attempt succeeded.
    Succeeded,
    /// The unit gave up.
    Failed,
}

impl UnitState {
    /// Whether the unit occupies one of the job's slots.
    pub open spec fn holds_slot(self) -> bool {
        self is Idle || self is Busy
    }

    /// Whether the unit has come to its end.
    pub open spec fn is_over(self) -> bool {
        self is Succeeded || self is Failed
    }

    /// The attempt counts that can occur.
    pub open spec fn valid(self) -> bool {
        match self {
            UnitState::Idle { attempts } => attempts <= MAX_ATTEMPTS,
            UnitState::Busy { attempts } => 1 <= attempts <= MAX_ATTEMPTS,
            _ => true,
        }
    }
}

/// The number of slots that a kind of transfer has.
pub open spec fn slots_of(kind: TransferKind) -> nat {
    match kind {
        TransferKind::Upload => UPLOAD_SLOTS as nat,
        TransferKind::Download => DOWNLOAD_SLOTS as nat,
    }
}

/// The number of units that hold a slot.
pub open spec fn slots_held(units: Seq<UnitState>) -> nat
    decreases units.len(),
{
    if units.len() == 0 {
        0
    } else {
        slots_held(units.drop_last()) + if units.last().holds_slot() {
            1nat
        } else {
            0nat
        }
    }
}

/// No unit has failed.
pub open spec fn none_failed(units: Seq<UnitState>) -> bool {
    forall|i: int| 0 <= i < units.len() ==> !(#[trigger] units[i] is Failed)
}

/// Every unit has come to its end.
pub open spec fn all_over(units: Seq<UnitState>) -> bool {
    forall|i: int| 0 <= i < units.len() ==> (#[trigger] units[i]).is_over()
}

/// Whether a unit in `state` may start an attempt while the flag is `flag`.
pub open spec fn begins(state: UnitState, flag: bool) -> bool {
    state matches UnitState::Idle { attempts } && flag && attempts < MAX_ATTEMPTS
}

/// The state of a unit after it asked to start an attempt: under way if it
/// may, failed if it holds a slot and may not, unchanged otherwise.
pub open spec fn after_begin(state: UnitState, flag: bool) -> UnitState {
    match state {
        UnitState::Idle { attempts } => if flag && attempts < MAX_ATTEMPTS {
            UnitState::Busy { attempts: (attempts + 1) as u8 }
        } else {
            UnitState::Failed
        },
        other => other,
    }
}

/// The state of a unit after it reported how its attempt went.
pub open spec fn after_end(state: UnitState, success: bool) -> UnitState {
    match state {
        UnitState::Busy { attempts } => if success {
            UnitState::Succeeded
        } else {
            UnitState::Idle { attempts }
        },
        other => other,
    }
}

/// Changing one unit changes the count of held slots by that unit alone.
pub proof fn lemma_slots_held_update(units: Seq<UnitState>, i: int, state: UnitState)
    requires
        0 <= i < units.len(),
    ensures
        slots_held(units.update(i, state)) + (if units[i].holds_slot() {
            1nat
        } else {
            0nat
        }) == slots_held(units) + (if state.holds_slot() {
            1nat
        } else {
            0nat
        }),
    decreases units.len(),
{
    let changed = units.update(i, state);
    if i == units.len() - 1 {
        assert(changed.drop_last() =~= units.drop_last());
    } else {
        assert(changed.drop_last() =~= units.drop_last().update(i, state));
        lemma_slots_held_update(units.drop_last(), i, state);
    }
}

/// Changing a unit that has not failed leaves the others as they were: no
/// unit has failed afterwards exactly if none had and the new state is no
/// failure, and the attempt counts stay in range if the new one is.
pub proof fn lemma_units_update(units: Seq<UnitState>, i: int, state: UnitState)
    requires
        0 <= i < units.len(),
        !(units[i] is Failed),
    ensures
        none_failed(units.update(i, state)) == (none_failed(units) && !(state is Failed)),
        (forall|k: int| 0 <= k < units.len() ==> (#[trigger] units[k]).valid()) && state.valid()
            ==> forall|k: int|
            0 <= k < units.len() ==> (#[trigger] units.update(i, state)[k]).valid(),
{
    let changed = units.update(i, state);
    if none_failed(units) && !(state is Failed) {
        assert forall|k: int| 0 <= k < changed.len() implies !(#[trigger] changed[k] is Failed) by {
            if k != i {
                assert(changed[k] == units[k]);
            }
        }
    }
    if none_failed(changed) {
        assert(changed[i] == state);
        assert forall|k: int| 0 <= k < units.len() implies !(#[trigger] units[k] is Failed) by {
            if k != i {
                assert(changed[k] == units[k]);
            }
        }
    }
    if (forall|k: int| 0 <= k < units.len() ==> (#[trigger] units[k]).valid()) && state.valid() {
        assert forall|k: int| 0 <= k < units.len() implies (#[trigger] changed[k]).valid() by {
            if k != i {
                assert(changed[k] == units[k]);
            }
        }
    }
}

/// One transfer job.
#[derive(Debug)]
pub struct TransferJob {
    kind: TransferKind,
    units: Vec<UnitState>,
    running: usize,
    flag: bool,
}

impl TransferJob {
    /// The direction of the transfer.
    pub closed spec fn kind(&self) -> TransferKind {
        self.kind
    }

    /// The units, by index.
    pub closed spec fn units(&self) -> Seq<UnitState> {
        self.units@
    }

    /// The number of slots that the job counts as held.
    pub closed spec fn running(&self) -> nat {
        self.running as nat
    }

    /// The flag: up until a unit gives up.
    pub closed spec fn flag(&self) -> bool {
        self.flag
    }

    /// The job's invariant: it counts the held slots rightly, never more than
    /// the kind allows; the attempt counts are in range; and the flag is up
    /// exactly while no unit has failed. It holds of every job.
    pub open spec fn wf(&self) -> bool {
        &&& self.running() == slots_held(self.units())
        &&& self.running() <= slots_of(self.kind())
        &&& forall|i: int| 0 <= i < self.units().len() ==> (#[trigger] self.units()[i]).valid()
        &&& self.flag() == none_failed(self.units())
    }

    #[verifier::type_invariant]
    spec fn inv(&self) -> bool {
        self.wf()
    }

    /// A job without units.
    pub fn new(kind: TransferKind) -> (job: TransferJob)
        ensures
            job.wf(),
            job.kind() == kind,
            job.units().len() == 0,
            job.flag(),
    {
        TransferJob { kind, units: Vec::new(), running: 0, flag: true }
    }

    /// The number of slots of the job.
    pub fn limit(&self) -> (slots: usize)
        ensures
            slots == slots_of(self.kind()),
    {
        match self.kind {
            TransferKind::Upload => UPLOAD_SLOTS,
            TransferKind::Download => DOWNLOAD_SLOTS,
        }
    }

    /// The number of units.
    pub fn len(&self) -> (n: usize)
        ensures
            n == self.units().len(),
    {
        self.units.len()
    }

    /// The state of one unit.
    pub fn state(&self, unit: usize) -> (state: Option<UnitState>)
        ensures
            self.wf(),
            state == if unit < self.units().len() {
                Some(self.units()[unit as int])
            } else {
                None
            },
    {
        proof {
            use_type_invariant(self);
        }
        if unit < self.units.len() {
            Some(self.units[unit])
        } else {
            None
        }
    }

    /// Whether the flag is still up: whether no unit has failed.
    pub fn in_good_standing(&self) -> (up: bool)
        ensures
            self.wf(),
            up == self.flag(),
    {
        proof {
            use_type_invariant(self);
        }
        self.flag
    }

    /// Adds a unit, which waits for a slot, and returns its index.
    pub fn add_unit(&mut self) -> (unit: usize)
        ensures
            old(self).wf(),
            final(self).wf(),
            final(self).kind() == old(self).kind(),
            unit == old(self).units().len(),
            final(self).units() == old(self).units().push(UnitState::Waiting),
    {
        proof {
            use_type_invariant(&*self);
        }
        let mut job = TransferJob::new(self.kind);
        std::mem::swap(self, &mut job);
        let TransferJob { kind, mut units, running, flag } = job;
        let unit = units.len();
        append_waiting(&mut units);
        *self = TransferJob { kind, units, running, flag };
        unit
    }

    /// Gives a waiting unit a slot if one is free, and tells whether it did.
    /// Nothing changes for a unit that does not wait, or while all slots are
    /// held.
    pub fn enter(&mut self, unit: usize) -> (entered: bool)
        ensures
            old(self).wf(),
            final(self).wf(),
            final(self).kind() == old(self).kind(),
            entered == (unit < old(self).units().len() && old(self).units()[unit as int] is Waiting
                && slots_held(old(self).units()) < slots_of(old(self).kind())),
            final(self).units() == if entered {
                old(self).units().update(unit as int, UnitState::Idle { attempts: 0 })
            } else {
                old(self).units()
            },
    {
        proof {
            use_type_invariant(&*self);
        }
        if unit >= self.units.len() {
            return false;
        }
        let free = self.running < self.limit();
        match self.units[unit] {
            UnitState::Waiting => {
                if !free {
                    return false;
                }
                change(
                    &mut self.units,
                    &mut self.running,
                    &mut self.flag,
                    unit,
                    UnitState::Idle { attempts: 0 },
                );
                true
            },
            _ => false,
        }
    }

    /// Asks whether a unit may start an attempt, and starts it if it may.
    ///
    /// A unit that holds a slot and has no attempt under way may start one
    /// while the flag is up and it has attempts left. If it may not, it has
    /// failed: it gives its slot back and the flag goes down. Nothing changes
    /// for a unit in any other state.
    pub fn begin_attempt(&mut self, unit: usize) -> (started: bool)
        ensures
            old(self).wf(),
            final(self).wf(),
            final(self).kind() == old(self).kind(),
            started == (unit < old(self).units().len() && begins(
                old(self).units()[unit as int],
                old(self).flag(),
            )),
            final(self).units() == if unit < old(self).units().len() {
                old(self).units().update(
                    unit as int,
                    after_begin(old(self).units()[unit as int], old(self).flag()),
                )
            } else {
                old(self).units()
            },
    {
        proof {
            use_type_invariant(&*self);
        }
        if unit >= self.units.len() {
            return false;
        }
        match self.units[unit] {
            UnitState::Idle { attempts } => {
                if self.flag && attempts < MAX_ATTEMPTS {
                    change(
                        &mut self.units,
                        &mut self.running,
                        &mut self.flag,
                        unit,
                        UnitState::Busy { attempts: attempts + 1 },
                    );
                    true
                } else {
                    change(
                        &mut self.units,
                        &mut self.running,
                        &mut self.flag,
                        unit,
                        UnitState::Failed,
                    );
                    false
                }
            },
            _ => {
                assert(self.units@ =~= self.units@.update(unit as int, self.units@[unit as int]));
                false
            },
        }
    }

    /// Takes the report of how the attempt of a unit went.
    ///
    /// On success the unit is done and gives its slot back, whether or not the
    /// flag has gone down meanwhile. On failure it keeps its slot and may ask
    /// for another attempt. Nothing changes for a unit without an attempt
    /// under way.
    pub fn end_attempt(&mut self, unit: usize, success: bool)
        ensures
            old(self).wf(),
            final(self).wf(),
            final(self).kind() == old(self).kind(),
            final(self).flag() == old(self).flag(),
            final(self).units() == if unit < old(self).units().len() {
                old(self).units().update(
                    unit as int,
                    after_end(old(self).units()[unit as int], success),
                )
            } else {
                old(self).units()
            },
    {
        proof {
            use_type_invariant(&*self);
        }
        if unit >= self.units.len() {
            return ;
        }
        match self.units[unit] {
            UnitState::Busy { attempts } => {
                let state = if success {
                    UnitState::Succeeded
                } else {
                    UnitState::Idle { attempts }
                };
                change(&mut self.units, &mut self.running, &mut self.flag, unit, state);
            },
            _ => {
                assert(self.units@ =~= self.units@.update(unit as int, self.units@[unit as int]));
            },
        }
    }

    /// Whether every unit has come to its end.
    pub fn is_finished(&self) -> (finished: bool)
        ensures
            finished == all_over(self.units()),
    {
        let mut i: usize = 0;
        while i < self.units.len()
            invariant
                i <= self.units@.len(),
                forall|k: int| 0 <= k < i ==> (#[trigger] self.units@[k]).is_over(),
            decreases self.units@.len() - i,
        {
            match self.units[i] {
                UnitState::Succeeded | UnitState::Failed => {},
                _ => {
                    assert(!self.units@[i as int].is_over());
                    return false;
                },
            }
            i += 1;
        }
        true
    }

    /// The result of the transfer once the workers have come to their end:
    /// success while the flag is up, else the one failure of the job's kind.
    pub fn result(&self) -> (result: Result<(), Error>)
        ensures
            self.wf(),
            result == if self.flag() {
                Ok::<(), Error>(())
            } else {
                match self.kind() {
                    TransferKind::Upload => Err::<(), Error>(Error::UploadFailed),
                    TransferKind::Download => Err::<(), Error>(Error::DownloadFailed),
                }
            },
    {
        proof {
            use_type_invariant(self);
        }
        if self.flag {
            Ok(())
        } else {
            match self.kind {
                TransferKind::Upload => Err(Error::UploadFailed),
                TransferKind::Download => Err(Error::DownloadFailed),
            }
        }
    }
}

/// Appends a waiting unit, which holds no slot and has not failed.
fn append_waiting(units: &mut Vec<UnitState>)
    requires
        forall|k: int| 0 <= k < old(units)@.len() ==> (#[trigger] old(units)@[k]).valid(),
    ensures
        final(units)@ == old(units)@.push(UnitState::Waiting),
        slots_held(final(units)@) == slots_held(old(units)@),
        none_failed(final(units)@) == none_failed(old(units)@),
        forall|k: int| 0 <= k < final(units)@.len() ==> (#[trigger] final(units)@[k]).valid(),
{
    units.push(UnitState::Waiting);
    proof {
        assert(units@.drop_last() =~= old(units)@);
        assert forall|i: int| 0 <= i < units@.len() implies (#[trigger] units@[i]).valid() && (
        none_failed(old(units)@) ==> !(units@[i] is Failed)) by {
            if i < old(units)@.len() {
                assert(units@[i] == old(units)@[i]);
            }
        }
        if none_failed(units@) {
            assert forall|i: int| 0 <= i < old(units)@.len() implies !(#[trigger] old(units)@[i]
                is Failed) by {
                assert(units@[i] == old(units)@[i]);
            }
        }
    }
}

/// Puts one unit that has not failed into a new state, and sets the count of
/// held slots and the flag right.
fn change(
    units: &mut Vec<UnitState>,
    running: &mut usize,
    flag: &mut bool,
    unit: usize,
    state: UnitState,
)
    requires
        unit < old(units)@.len(),
        !(old(units)@[unit as int] is Failed),
        state.valid(),
        forall|k: int| 0 <= k < old(units)@.len() ==> (#[trigger] old(units)@[k]).valid(),
        *old(running) == slots_held(old(units)@),
        *old(flag) == none_failed(old(units)@),
        state.holds_slot() && !old(units)@[unit as int].holds_slot() ==> *old(running)
            < usize::MAX,
    ensures
        final(units)@ == old(units)@.update(unit as int, state),
        *final(running) == slots_held(final(units)@),
        *final(flag) == none_failed(final(units)@),
        *final(flag) == (*old(flag) && !(state is Failed)),
        *final(running) + (if old(units)@[unit as int].holds_slot() {
            1nat
        } else {
            0nat
        }) == *old(running) + (if state.holds_slot() {
            1nat
        } else {
            0nat
        }),
        forall|k: int| 0 <= k < final(units)@.len() ==> (#[trigger] final(units)@[k]).valid(),
    no_unwind
{
    proof {
        lemma_slots_held_update(units@, unit as int, state);
        lemma_units_update(units@, unit as int, state);
    }
    let held = match units[unit] {
        UnitState::Idle { .. } | UnitState::Busy { .. } => true,
        _ => false,
    };
    let holds = match state {
        UnitState::Idle { .. } | UnitState::Busy { .. } => true,
        _ => false,
    };
    units[unit] = state;
    if held && !holds {
        *running = *running - 1;
    }
    if holds && !held {
        *running = *running + 1;
    }
    match state {
        UnitState::Failed => {
            *flag = false;
        },
        _ => {},
    }
}

/// Once a unit has failed, no unit of the job may start an attempt.
pub proof fn lemma_failure_stops_new_attempts(job: TransferJob, failed: int, unit: int)
    requires
        job.wf(),
        0 <= failed < job.units().len(),
        job.units()[failed] is Failed,
        0 <= unit < job.units().len(),
    ensures
        !begins(job.units()[unit], job.flag()),
{
}

/// A job that has come to its end has its flag up exactly if it has brought
/// every unit through.
pub proof fn lemma_good_standing_means_all_succeeded(job: TransferJob)
    requires
        job.wf(),
        all_over(job.units()),
    ensures
        job.flag() <==> forall|unit: int|
            0 <= unit < job.units().len() ==> #[trigger] job.units()[unit] is Succeeded,
{
    if job.flag() {
        assert forall|unit: int| 0 <= unit < job.units().len() implies #[trigger] job.units()[unit]
            is Succeeded by {
            assert(job.units()[unit].is_over());
            assert(!(job.units()[unit] is Failed));
        }
    }
}

/// A unit that has come to its end stays as it is, whatever is asked or
/// reported of it: a failure is never taken back.
pub proof fn lemma_over_is_final(state: UnitState, flag: bool, success: bool)
    requires
        state.is_over(),
    ensures
        after_begin(state, flag) == state,
        after_end(state, success) == state,
{
}

/// An attempt that is under way comes to its end by its own report alone: it
/// succeeds on a good report even after the flag has gone down.
pub proof fn lemma_started_attempt_completes(state: UnitState, flag: bool)
    requires
        state is Busy,
    ensures
        after_end(state, true) is Succeeded,
        after_begin(state, flag) == state,
{
}

/// While the flag is up, a unit fails only by asking for an attempt after it
/// has made all three.
pub proof fn lemma_failure_takes_all_attempts(state: UnitState)
    requires
        state.valid(),
        !(state is Failed),
        after_begin(state, true) is Failed,
    ensures
        state == (UnitState::Idle { attempts: MAX_ATTEMPTS }),
{
}

} // verus!
