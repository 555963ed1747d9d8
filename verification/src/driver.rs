//! The round lifecycle: one accumulator at a time, finalized into a record
//! on each round boundary and at end of stream. The whole run is specified
//! by a spec-level state machine, and the laws about round counting,
//! truncated logs and the world id are proved over it.
use vstd::prelude::*;
use crate::models::KillCount;
use crate::models::QuakeAction;
use crate::models::WORLD_ID;
use crate::parser::QuakeLogLine;
use crate::parser::spec_classify;
use crate::parser::spec_kill;
use crate::parser::spec_rename;
use crate::round::QuakeRound;
use crate::round::RoundModel;
use crate::round::fresh_round;
use crate::round::kill_step;
use crate::round::rename_step;
use crate::round::start_step;
use crate::stats::RecordModel;
use crate::stats::RoundStats;
use crate::stats::finalize_model;

verus! {

/// Spec-level state of a whole run: the records already finalized and the
/// round currently collecting events.
#[verifier::ext_equal]
pub ghost struct ProcModel {
    pub finished: Seq<RecordModel>,
    pub current: RoundModel,
}

/// The initial state: no record yet, a first, not yet started round.
pub open spec fn init_model() -> ProcModel {
    ProcModel { finished: Seq::empty(), current: fresh_round(1) }
}

/// Finalize the current round into a record and begin the next round,
/// numbered one past the records then emitted.
pub open spec fn finalize_to(p: ProcModel) -> ProcModel {
    ProcModel {
        finished: p.finished.push(finalize_model(p.current)),
        current: fresh_round(p.finished.len() as int + 2),
    }
}

/// The transition one raw line causes: round boundaries finalize and roll
/// over; rename and kill events mutate the current round, whether or not it
/// was explicitly started; everything else is a no-op.
pub open spec fn step_model(p: ProcModel, line: Seq<char>) -> ProcModel {
    match spec_classify(line) {
        None => p,
        Some(cl) => match cl.1 {
            QuakeAction::InitGame => {
                let q = if p.current.started {
                    finalize_to(p)
                } else {
                    p
                };
                ProcModel { finished: q.finished, current: start_step(q.current) }
            },
            QuakeAction::ShutdownGame => if p.current.started {
                finalize_to(p)
            } else {
                p
            },
            QuakeAction::ClientUserInfoChanged => match spec_rename(cl.2) {
                Some(ev) => ProcModel {
                    finished: p.finished,
                    current: rename_step(p.current, ev.0, ev.1),
                },
                None => p,
            },
            QuakeAction::Kill => match spec_kill(cl.2) {
                Some(ev) => ProcModel {
                    finished: p.finished,
                    current: kill_step(p.current, ev.0, ev.1, ev.2),
                },
                None => p,
            },
            _ => p,
        },
    }
}

/// End of stream: a round that ever started is finalized even without a
/// shutdown marker; one that never started is discarded.
pub open spec fn finish_model(p: ProcModel) -> Seq<RecordModel> {
    if p.current.started {
        p.finished.push(finalize_model(p.current))
    } else {
        p.finished
    }
}

/// The state after the lines from index `i` on.
pub open spec fn run_from(p: ProcModel, lines: Seq<Seq<char>>, i: int) -> ProcModel
    decreases lines.len() - i + 1,
{
    if i < 0 || i >= lines.len() {
        p
    } else {
        run_from(step_model(p, lines[i]), lines, i + 1)
    }
}

/// The records a whole log denotes.
pub open spec fn spec_process_log(lines: Seq<Seq<char>>) -> Seq<RecordModel> {
    finish_model(run_from(init_model(), lines, 0))
}

/// Whether a line is a round-init marker.
pub open spec fn is_init_line(line: Seq<char>) -> bool {
    match spec_classify(line) {
        Some(cl) => cl.1 == QuakeAction::InitGame,
        None => false,
    }
}

/// How many round-init markers the lines from index `i` on hold.
pub open spec fn count_inits(lines: Seq<Seq<char>>, i: int) -> int
    decreases lines.len() - i + 1,
{
    if i < 0 || i >= lines.len() {
        0
    } else {
        (if is_init_line(lines[i]) {
            1int
        } else {
            0int
        }) + count_inits(lines, i + 1)
    }
}

/// One when the current round has started, zero otherwise.
pub open spec fn active(p: ProcModel) -> int {
    if p.current.started {
        1
    } else {
        0
    }
}

/// The world id belongs to no roster of this round.
pub open spec fn world_free(m: RoundModel) -> bool {
    !m.roster.contains(WORLD_ID) && !m.players.dom().contains(WORLD_ID)
}

/// The record was finalized from a round whose roster excluded the world id.
pub open spec fn record_world_free(r: RecordModel) -> bool {
    exists|m: RoundModel| #[trigger] world_free(m) && r == finalize_model(m)
}

/// The invariant every reachable run state satisfies: records are numbered
/// consecutively from one, the current round is numbered next, and no
/// roster ever held the world id.
pub open spec fn proc_inv(p: ProcModel) -> bool {
    &&& p.current.number == p.finished.len() + 1
    &&& forall|k: int|
        0 <= k < p.finished.len() ==> (#[trigger] p.finished[k]).number == k + 1
    &&& world_free(p.current)
    &&& forall|k: int| 0 <= k < p.finished.len() ==> record_world_free(#[trigger] p.finished[k])
}

proof fn lemma_step_preserves(p: ProcModel, line: Seq<char>)
    requires
        proc_inv(p),
    ensures
        proc_inv(step_model(p, line)),
        step_model(p, line).finished.len() + active(step_model(p, line)) == p.finished.len()
            + active(p) + (if is_init_line(line) {
            1int
        } else {
            0int
        }),
{
    let q = step_model(p, line);
    if p.current.started {
        assert(record_world_free(finalize_model(p.current))) by {
            assert(world_free(p.current) && finalize_model(p.current) == finalize_model(
                p.current,
            ));
        }
    }
    match spec_classify(line) {
        None => {},
        Some(cl) => match cl.1 {
            QuakeAction::InitGame => {},
            QuakeAction::ShutdownGame => {},
            QuakeAction::ClientUserInfoChanged => {
                match spec_rename(cl.2) {
                    Some(ev) => {
                        assert(world_free(q.current)) by {
                            if ev.0 != WORLD_ID && !p.current.players.dom().contains(ev.0) {
                                assert(q.current.roster == p.current.roster.push(ev.0));
                            }
                        }
                    },
                    None => {},
                }
            },
            QuakeAction::Kill => {},
            _ => {},
        },
    }
}

proof fn lemma_run_from(p: ProcModel, lines: Seq<Seq<char>>, i: int)
    requires
        proc_inv(p),
        0 <= i <= lines.len(),
    ensures
        proc_inv(run_from(p, lines, i)),
        run_from(p, lines, i).finished.len() + active(run_from(p, lines, i)) == p.finished.len()
            + active(p) + count_inits(lines, i),
    decreases lines.len() - i,
{
    if i < lines.len() {
        lemma_step_preserves(p, lines[i]);
        lemma_run_from(step_model(p, lines[i]), lines, i + 1);
    }
}

/// Round counting: a whole log yields exactly one record per round-init
/// marker it holds, and the records are numbered consecutively from one in
/// the order the rounds were started.
pub proof fn lemma_round_counting(lines: Seq<Seq<char>>)
    ensures
        spec_process_log(lines).len() == count_inits(lines, 0),
        forall|k: int|
            0 <= k < spec_process_log(lines).len() ==> (#[trigger] spec_process_log(lines)[
                k
            ]).number == k + 1,
{
    lemma_run_from(init_model(), lines, 0);
}

/// Missing-shutdown tolerance: a run still active at end of stream yields
/// one more record, the finalization of the round it was collecting.
pub proof fn lemma_finish_keeps_active_round(p: ProcModel)
    requires
        p.current.started,
    ensures
        finish_model(p).len() == p.finished.len() + 1,
        finish_model(p).last() == finalize_model(p.current),
{
}

/// Roster exclusion of world: every record of a processed log was finalized
/// from a round whose roster never held the reserved world id, so the
/// record's player names and scores all belong to ids other than it.
pub proof fn lemma_world_excluded(lines: Seq<Seq<char>>, k: int)
    requires
        0 <= k < spec_process_log(lines).len(),
    ensures
        record_world_free(spec_process_log(lines)[k]),
{
    lemma_run_from(init_model(), lines, 0);
    let p = run_from(init_model(), lines, 0);
    if p.current.started && k == p.finished.len() {
        assert(record_world_free(finalize_model(p.current))) by {
            assert(world_free(p.current) && finalize_model(p.current) == finalize_model(
                p.current,
            ));
        }
    }
}

/// The driver: owns the records emitted so far and the round now
/// collecting events.
pub struct LogProcessor {
    records: Vec<RoundStats>,
    current: QuakeRound,
}

impl LogProcessor {
    /// The spec-level run state this value denotes.
    pub closed spec fn model(self) -> ProcModel {
        ProcModel {
            finished: self.records@.map(|i: int, s: RoundStats| s.model()),
            current: self.current.model(),
        }
    }

    pub closed spec fn wf(self) -> bool {
        &&& self.current.wf()
        &&& self.current.model().number == self.records@.len() + 1
        &&& forall|k: int|
            0 <= k < self.records@.len() ==> (#[trigger] self.records@[k]).model().number == k + 1
    }

    pub fn new() -> (r: LogProcessor)
        ensures
            r.wf(),
            r.model() == init_model(),
    {
        let r = LogProcessor { records: Vec::new(), current: QuakeRound::new(1) };
        proof {
            assert(r.model().finished =~= init_model().finished);
            assert(r.model() =~= init_model());
        }
        r
    }

    /// How many records have been finalized so far.
    pub fn records_len(&self) -> (r: usize)
        ensures
            r == self.model().finished.len(),
    {
        self.records.len()
    }

    /// The running total of the round now collecting events.
    pub fn current_total_kills(&self) -> (r: KillCount)
        ensures
            r as int == self.model().current.total,
    {
        self.current.get_total_kills()
    }

    /// Feed one raw line to the run.
    pub fn process_line(&mut self, line: &str)
        requires
            old(self).wf(),
            old(self).model().current.total < KillCount::MAX as int,
            old(self).model().finished.len() + 2 <= u32::MAX,
        ensures
            final(self).wf(),
            final(self).model() == step_model(old(self).model(), line@),
    {
        let classified = QuakeLogLine::from_str(line);
        match classified {
            None => {
                proof {
                    assert(self.model() =~= step_model(old(self).model(), line@));
                }
            },
            Some(quake_line) => {
                let act: QuakeAction = quake_line.action;
                if act == QuakeAction::ShutdownGame || act == QuakeAction::InitGame {
                    if self.current.is_started() {
                        let finished_round = RoundStats::from_round(&self.current);
                        self.records.push(finished_round);
                        let next_number: u32 = (self.records.len() as u32) + 1;
                        self.current = QuakeRound::new(next_number);
                        proof {
                            assert(self.model().finished =~= finalize_to(
                                old(self).model(),
                            ).finished);
                        }
                    }
                    if act == QuakeAction::InitGame {
                        self.current.start_round();
                    }
                    proof {
                        assert(self.model() =~= step_model(old(self).model(), line@));
                    }
                } else if act == QuakeAction::ClientUserInfoChanged {
                    let _applied: bool = self.current.process_client_user_info_changed(
                        &quake_line,
                    );
                    proof {
                        assert(self.model().finished =~= old(self).model().finished);
                        assert(self.model() =~= step_model(old(self).model(), line@));
                    }
                } else if act == QuakeAction::Kill {
                    let _applied: bool = self.current.process_kill(&quake_line);
                    proof {
                        assert(self.model().finished =~= old(self).model().finished);
                        assert(self.model() =~= step_model(old(self).model(), line@));
                    }
                } else {
                    proof {
                        assert(self.model() =~= step_model(old(self).model(), line@));
                    }
                }
            },
        }
    }

    /// End of stream: the records of the whole run, a still active round
    /// finalized even without a trailing shutdown marker.
    pub fn finish(self) -> (r: Vec<RoundStats>)
        requires
            self.wf(),
        ensures
            r@.map(|i: int, s: RoundStats| s.model()) == finish_model(self.model()),
    {
        let started: bool = self.current.is_started();
        let mut records = self.records;
        if started {
            let finished_round = RoundStats::from_round(&self.current);
            records.push(finished_round);
            proof {
                assert(records@.map(|i: int, s: RoundStats| s.model()) =~= finish_model(
                    self.model(),
                ));
            }
        } else {
            proof {
                assert(records@.map(|i: int, s: RoundStats| s.model()) =~= finish_model(
                    self.model(),
                ));
            }
        }
        records
    }
}

} // verus!

