//! The run plan: the coordinator's phases and the bounded-concurrency
//! ledger. Table tasks take a permit before working and give it back when
//! done, success or failure alike; the constraint phase opens only after
//! every table task has finished.

use vstd::prelude::*;
use crate::error::MigrationError;
use crate::migrate::check_packet_size;

verus! {

/// The phases of one migration run, in order; `Failed` is terminal and is
/// reached only from preflight.
#[derive(Debug, Clone, Copy, PartialEq, Eq, Structural)]
pub enum RunPhase {
    Init,
    Preflight,
    Reset,
    Migrate,
    Constrain,
    Done,
    Failed,
}

/// The coordinator's state: which phase the run is in, and how many of the
/// `total` table tasks have started and finished under the concurrency
/// bound `limit`.
#[derive(Debug, Clone, Copy)]
pub struct MigrationRun {
    phase: RunPhase,
    limit: usize,
    total: usize,
    started: usize,
    finished: usize,
}

impl MigrationRun {
    pub closed spec fn spec_phase(&self) -> RunPhase {
        self.phase
    }

    pub closed spec fn spec_limit(&self) -> nat {
        self.limit as nat
    }

    pub closed spec fn spec_total(&self) -> nat {
        self.total as nat
    }

    pub closed spec fn spec_started(&self) -> nat {
        self.started as nat
    }

    pub closed spec fn spec_finished(&self) -> nat {
        self.finished as nat
    }

    /// How many table tasks hold a permit right now.
    pub open spec fn active(&self) -> int {
        self.spec_started() - self.spec_finished()
    }

    /// Every reachable state keeps the task counters ordered, the permit
    /// count inside the bound, and enters the constraint phase (or the end
    /// of the run) only with every task finished.
    pub open spec fn inv(&self) -> bool {
        &&& self.spec_limit() >= 1
        &&& self.spec_finished() <= self.spec_started() <= self.spec_total()
        &&& self.active() <= self.spec_limit()
        &&& (self.spec_phase() == RunPhase::Constrain || self.spec_phase() == RunPhase::Done
            ==> self.spec_finished() == self.spec_total())
        &&& (self.spec_phase() == RunPhase::Init || self.spec_phase() == RunPhase::Preflight
            || self.spec_phase() == RunPhase::Reset || self.spec_phase() == RunPhase::Failed
            ==> self.spec_started() == 0 && self.spec_finished() == 0)
    }

    /// A run over `total` tables with at most `limit` migrating at once.
    pub fn new(limit: usize, total: usize) -> (r: MigrationRun)
        requires
            limit >= 1,
        ensures
            r.inv(),
            r.spec_phase() == RunPhase::Init,
            r.spec_limit() == limit,
            r.spec_total() == total,
            r.spec_started() == 0,
            r.spec_finished() == 0,
    {
        MigrationRun { phase: RunPhase::Init, limit, total, started: 0, finished: 0 }
    }

    /// Preflight: compares the configured packet budget against what the
    /// destination allows. Failure is fatal and ends the run before any
    /// table is touched; success moves on to resetting the destination.
    pub fn preflight(&mut self, configured: usize, allowed: usize) -> (r: Result<
        (),
        MigrationError,
    >)
        requires
            old(self).inv(),
            old(self).spec_phase() == RunPhase::Init,
        ensures
            final(self).inv(),
            r is Ok <==> configured <= allowed,
            r is Ok ==> final(self).spec_phase() == RunPhase::Reset,
            r is Err ==> final(self).spec_phase() == RunPhase::Failed,
            r matches Err(e) ==> e matches MigrationError::PacketSizeExceeded { .. },
            final(self).spec_limit() == old(self).spec_limit(),
            final(self).spec_total() == old(self).spec_total(),
    {
        self.phase = RunPhase::Preflight;
        let outcome = check_packet_size(configured, allowed);
        match outcome {
            Ok(()) => {
                self.phase = RunPhase::Reset;
                Ok(())
            },
            Err(e) => {
                self.phase = RunPhase::Failed;
                Err(e)
            },
        }
    }

    /// The destination is reset; the parallel migrate phase begins.
    pub fn begin_migration(&mut self)
        requires
            old(self).inv(),
            old(self).spec_phase() == RunPhase::Reset,
        ensures
            final(self).inv(),
            final(self).spec_phase() == RunPhase::Migrate,
            final(self).spec_limit() == old(self).spec_limit(),
            final(self).spec_total() == old(self).spec_total(),
            final(self).spec_started() == 0,
            final(self).spec_finished() == 0,
    {
        self.phase = RunPhase::Migrate;
    }

    /// Hands a permit to the next table task when one is free and tables
    /// remain; never lets more than `limit` tasks hold permits at once.
    pub fn try_start_table(&mut self) -> (granted: bool)
        requires
            old(self).inv(),
            old(self).spec_phase() == RunPhase::Migrate,
        ensures
            final(self).inv(),
            final(self).spec_phase() == RunPhase::Migrate,
            final(self).spec_limit() == old(self).spec_limit(),
            final(self).spec_total() == old(self).spec_total(),
            final(self).spec_finished() == old(self).spec_finished(),
            granted <==> old(self).active() < old(self).spec_limit() && old(self).spec_started()
                < old(self).spec_total(),
            granted ==> final(self).spec_started() == old(self).spec_started() + 1,
            !granted ==> final(self).spec_started() == old(self).spec_started(),
            final(self).active() <= final(self).spec_limit(),
    {
        if self.started - self.finished < self.limit && self.started < self.total {
            self.started = self.started + 1;
            true
        } else {
            false
        }
    }

    /// A table task finished, with success or failure, and gives its permit
    /// back.
    pub fn finish_table(&mut self)
        requires
            old(self).inv(),
            old(self).spec_phase() == RunPhase::Migrate,
            old(self).active() > 0,
        ensures
            final(self).inv(),
            final(self).spec_phase() == RunPhase::Migrate,
            final(self).spec_limit() == old(self).spec_limit(),
            final(self).spec_total() == old(self).spec_total(),
            final(self).spec_started() == old(self).spec_started(),
            final(self).spec_finished() == old(self).spec_finished() + 1,
    {
        self.finished = self.finished + 1;
    }

    /// Opens the constraint phase, but only once every table task has
    /// finished: constraint work must never overlap table creation, since a
    /// referenced table might not exist yet.
    pub fn begin_constraints(&mut self) -> (opened: bool)
        requires
            old(self).inv(),
            old(self).spec_phase() == RunPhase::Migrate,
        ensures
            final(self).inv(),
            final(self).spec_limit() == old(self).spec_limit(),
            final(self).spec_total() == old(self).spec_total(),
            final(self).spec_started() == old(self).spec_started(),
            final(self).spec_finished() == old(self).spec_finished(),
            opened <==> old(self).spec_finished() == old(self).spec_total(),
            opened ==> final(self).spec_phase() == RunPhase::Constrain,
            !opened ==> final(self).spec_phase() == RunPhase::Migrate,
    {
        if self.finished == self.total {
            self.phase = RunPhase::Constrain;
            true
        } else {
            false
        }
    }

    /// Ends the run, from the constraint phase or, when constraints are not
    /// asked for, straight from a fully finished migrate phase.
    pub fn complete(&mut self)
        requires
            old(self).inv(),
            old(self).spec_phase() == RunPhase::Constrain || (old(self).spec_phase()
                == RunPhase::Migrate && old(self).spec_finished() == old(self).spec_total()),
        ensures
            final(self).inv(),
            final(self).spec_phase() == RunPhase::Done,
    {
        self.phase = RunPhase::Done;
    }
}

/// At no instant do more table tasks hold a permit than the configured
/// concurrency bound allows.
pub proof fn lemma_concurrency_bounded(r: MigrationRun)
    requires
        r.inv(),
    ensures
        r.active() <= r.spec_limit(),
{
}

/// Constraint work happens only after the migrate barrier: any run state
/// that has reached the constraint phase (or the end) has every table task
/// finished, so every table this run creates exists before any foreign key
/// is applied.
pub proof fn lemma_constraints_after_barrier(r: MigrationRun)
    requires
        r.inv(),
        r.spec_phase() == RunPhase::Constrain || r.spec_phase() == RunPhase::Done,
    ensures
        r.spec_finished() == r.spec_total(),
{
}

} // verus!
