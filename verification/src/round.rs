//! The per-round accumulator: a roster of players and running tallies,
//! mutated by rename and kill events. Its behaviour is specified against
//! `RoundModel`, a spec-level snapshot, with one spec transition per event.
use vstd::prelude::*;
use std::collections::HashMap;
use crate::models::KillCount;
use crate::models::MeansOfDeath;
use crate::models::Player;
use crate::models::PlayerId;
use crate::models::WORLD_ID;
use crate::parser::QuakeLogLine;
use crate::parser::spec_kill;
use crate::parser::spec_rename;

verus! {

broadcast use vstd::std_specs::hash::group_hash_axioms, vstd::seq_lib::lemma_seq_contains_after_push;

/// Spec-level snapshot of one round: everything its contracts speak of.
#[verifier::ext_equal]
pub ghost struct RoundModel {
    pub number: int,
    pub total: int,
    /// Each known player's display name and kill score, by id.
    pub players: Map<PlayerId, (Seq<char>, int)>,
    /// The known player ids, in order of first sighting.
    pub roster: Seq<PlayerId>,
    /// The cause-of-death histogram.
    pub means: Map<MeansOfDeath, int>,
    pub started: bool,
}

/// A round that has seen no event yet.
pub open spec fn fresh_round(number: int) -> RoundModel {
    RoundModel {
        number,
        total: 0,
        players: Map::empty(),
        roster: Seq::empty(),
        means: Map::empty(),
        started: false,
    }
}

/// Marking the round active; idempotent.
pub open spec fn start_step(m: RoundModel) -> RoundModel {
    RoundModel {
        number: m.number,
        total: m.total,
        players: m.players,
        roster: m.roster,
        means: m.means,
        started: true,
    }
}

/// A rename event: a first sighting adds the player with zero kills; a
/// later one only replaces the name. The world id is never added.
pub open spec fn rename_step(m: RoundModel, id: PlayerId, name: Seq<char>) -> RoundModel {
    if id == WORLD_ID {
        m
    } else {
        let kills = if m.players.dom().contains(id) {
            m.players[id].1
        } else {
            0
        };
        let roster = if m.players.dom().contains(id) {
            m.roster
        } else {
            m.roster.push(id)
        };
        RoundModel {
            number: m.number,
            total: m.total,
            players: m.players.insert(id, (name, kills)),
            roster,
            means: m.means,
            started: m.started,
        }
    }
}

/// Whose score a kill event adjusts: the victim for a world kill or a
/// self kill, otherwise the killer.
pub open spec fn kill_target(killer: PlayerId, killed: PlayerId) -> PlayerId {
    if killer == WORLD_ID || killer == killed {
        killed
    } else {
        killer
    }
}

/// A world kill or self kill costs the victim a point; any other kill
/// credits the killer one.
pub open spec fn kill_delta(killer: PlayerId, killed: PlayerId) -> int {
    if killer == WORLD_ID || killer == killed {
        -1
    } else {
        1
    }
}

/// A kill event: the total and the cause's histogram bucket always grow by
/// one; the targeted player's score is adjusted only if the id is known.
pub open spec fn kill_step(
    m: RoundModel,
    killer: PlayerId,
    killed: PlayerId,
    cause: MeansOfDeath,
) -> RoundModel {
    let t = kill_target(killer, killed);
    let players = if m.players.dom().contains(t) {
        m.players.insert(t, (m.players[t].0, m.players[t].1 + kill_delta(killer, killed)))
    } else {
        m.players
    };
    let prev = if m.means.dom().contains(cause) {
        m.means[cause]
    } else {
        0
    };
    RoundModel {
        number: m.number,
        total: m.total + 1,
        players,
        roster: m.roster,
        means: m.means.insert(cause, prev + 1),
        started: m.started,
    }
}

/// The mapping an association list of histogram entries denotes.
pub open spec fn pairs_to_map(s: Seq<(MeansOfDeath, u32)>) -> Map<MeansOfDeath, int>
    decreases s.len(),
{
    if s.len() == 0 {
        Map::empty()
    } else {
        pairs_to_map(s.drop_last()).insert(s.last().0, s.last().1 as int)
    }
}

/// The sum of the histogram's counts.
pub open spec fn pairs_sum(s: Seq<(MeansOfDeath, u32)>) -> int
    decreases s.len(),
{
    if s.len() == 0 {
        0
    } else {
        pairs_sum(s.drop_last()) + s.last().1
    }
}

pub open spec fn distinct_keys(s: Seq<(MeansOfDeath, u32)>) -> bool {
    forall|i: int, j: int| 0 <= i < j < s.len() ==> (#[trigger] s[i]).0 != (#[trigger] s[j]).0
}

pub proof fn lemma_pairs_sum_nonneg(s: Seq<(MeansOfDeath, u32)>)
    ensures
        pairs_sum(s) >= 0,
    decreases s.len(),
{
    if s.len() > 0 {
        lemma_pairs_sum_nonneg(s.drop_last());
    }
}

/// Each count is at most the sum of all counts.
pub proof fn lemma_pairs_sum_bound(s: Seq<(MeansOfDeath, u32)>, i: int)
    requires
        0 <= i < s.len(),
    ensures
        s[i].1 <= pairs_sum(s),
    decreases s.len(),
{
    lemma_pairs_sum_nonneg(s.drop_last());
    if i < s.len() - 1 {
        lemma_pairs_sum_bound(s.drop_last(), i);
        assert(s.drop_last()[i] == s[i]);
    }
}

/// A key present at some entry is in the denoted map, at that entry's count.
pub proof fn lemma_pairs_to_map_at(s: Seq<(MeansOfDeath, u32)>, i: int)
    requires
        0 <= i < s.len(),
        distinct_keys(s),
    ensures
        pairs_to_map(s).dom().contains(s[i].0),
        pairs_to_map(s)[s[i].0] == s[i].1 as int,
    decreases s.len(),
{
    if i < s.len() - 1 {
        assert(distinct_keys(s.drop_last())) by {
            assert(forall|x: int| 0 <= x < s.len() - 1 ==> s.drop_last()[x] == s[x]);
        }
        lemma_pairs_to_map_at(s.drop_last(), i);
        assert(s.drop_last()[i] == s[i]);
        assert(s[i].0 != s.last().0);
    }
}

/// A key at no entry is not in the denoted map.
pub proof fn lemma_pairs_to_map_absent(s: Seq<(MeansOfDeath, u32)>, k: MeansOfDeath)
    requires
        forall|i: int| 0 <= i < s.len() ==> (#[trigger] s[i]).0 != k,
    ensures
        !pairs_to_map(s).dom().contains(k),
    decreases s.len(),
{
    if s.len() > 0 {
        assert(forall|i: int| 0 <= i < s.len() - 1 ==> (#[trigger] s.drop_last()[i]).0 != k) by {
            assert(forall|x: int| 0 <= x < s.len() - 1 ==> s.drop_last()[x] == s[x]);
        }
        lemma_pairs_to_map_absent(s.drop_last(), k);
        assert(s.last() == s[s.len() - 1]);
    }
}

/// Replacing the count at one entry denotes a single map insertion.
pub proof fn lemma_pairs_to_map_update(s: Seq<(MeansOfDeath, u32)>, i: int, v: u32)
    requires
        0 <= i < s.len(),
        distinct_keys(s),
    ensures
        pairs_to_map(s.update(i, (s[i].0, v))) == pairs_to_map(s).insert(s[i].0, v as int),
        pairs_sum(s.update(i, (s[i].0, v))) == pairs_sum(s) - s[i].1 + v,
    decreases s.len(),
{
    let k = s[i].0;
    let s2 = s.update(i, (k, v));
    if i == s.len() - 1 {
        assert(s2.drop_last() =~= s.drop_last());
        assert(s2.last() == (k, v));
        assert(pairs_to_map(s2) =~= pairs_to_map(s).insert(k, v as int));
    } else {
        assert(distinct_keys(s.drop_last())) by {
            assert(forall|x: int| 0 <= x < s.len() - 1 ==> s.drop_last()[x] == s[x]);
        }
        lemma_pairs_to_map_update(s.drop_last(), i, v);
        assert(s2.drop_last() =~= s.drop_last().update(i, (k, v)));
        assert(s2.last() == s.last());
        assert(s.drop_last()[i] == s[i]);
        assert(k != s.last().0);
        assert(pairs_to_map(s2) =~= pairs_to_map(s).insert(k, v as int));
    }
}

/// Find the entry of `cause` and raise its count by one, or append a first
/// count of one; the denoted map gains one at `cause`, the sum gains one.
fn bump_pair(v: &mut Vec<(MeansOfDeath, u32)>, cause: MeansOfDeath)
    requires
        distinct_keys(old(v)@),
        pairs_sum(old(v)@) < u32::MAX,
    ensures
        distinct_keys(final(v)@),
        pairs_to_map(final(v)@) == pairs_to_map(old(v)@).insert(
            cause,
            (if pairs_to_map(old(v)@).dom().contains(cause) {
                pairs_to_map(old(v)@)[cause]
            } else {
                0
            }) + 1,
        ),
        pairs_sum(final(v)@) == pairs_sum(old(v)@) + 1,
{
    let n: usize = v.len();
    let mut i: usize = 0;
    while i < n
        invariant
            i <= n,
            n == v@.len(),
            v@ == old(v)@,
            distinct_keys(old(v)@),
            pairs_sum(old(v)@) < u32::MAX,
            forall|k: int| 0 <= k < i ==> (#[trigger] v@[k]).0 != cause,
        decreases n - i,
    {
        if v[i].0 == cause {
            let cnt: u32 = v[i].1;
            proof {
                lemma_pairs_sum_bound(v@, i as int);
                lemma_pairs_to_map_at(v@, i as int);
                lemma_pairs_to_map_update(v@, i as int, (cnt + 1) as u32);
            }
            v.set(i, (cause, cnt + 1));
            return ;
        }
        i = i + 1;
    }
    proof {
        lemma_pairs_to_map_absent(v@, cause);
    }
    v.push((cause, 1));
    proof {
        assert(v@.drop_last() =~= old(v)@);
        assert(forall|x: int, y: int|
            0 <= x < y < v@.len() && y < v@.len() - 1 ==> (#[trigger] v@[x]).0 != (
            #[trigger] v@[y]).0);
        assert(forall|x: int| 0 <= x < v@.len() - 1 ==> (#[trigger] v@[x]).0 != cause);
        assert(distinct_keys(v@));
    }
}

/// One round's mutable state: roster and running tallies.
#[derive(Debug)]
pub struct QuakeRound {
    round_number: u32,
    total_kills: KillCount,
    players: HashMap<PlayerId, Player>,
    roster: Vec<PlayerId>,
    kills_by_means: Vec<(MeansOfDeath, u32)>,
    started: bool,
}

impl QuakeRound {
    /// The spec-level snapshot this accumulator denotes.
    pub closed spec fn model(self) -> RoundModel {
        RoundModel {
            number: self.round_number as int,
            total: self.total_kills as int,
            players: Map::new(
                |id: PlayerId| self.players@.dom().contains(id),
                |id: PlayerId| (self.players@[id].name@, self.players@[id].kills as int),
            ),
            roster: self.roster@,
            means: pairs_to_map(self.kills_by_means@),
            started: self.started,
        }
    }

    /// Internal consistency: the roster lists each known id exactly once and
    /// never the world id; every score is bounded by the total; the
    /// histogram has one entry per seen cause and its counts sum to the
    /// total.
    pub closed spec fn wf(self) -> bool {
        &&& forall|i: int, j: int|
            0 <= i < j < self.roster@.len() ==> self.roster@[i] != self.roster@[j]
        &&& forall|id: PlayerId|
            self.players@.dom().contains(id) <==> self.roster@.contains(id)
        &&& !self.players@.dom().contains(WORLD_ID)
        &&& 0 <= self.total_kills
        &&& forall|id: PlayerId|
            self.players@.dom().contains(id) ==> -(self.total_kills as int) <= (
            #[trigger] self.players@[id]).kills as int <= self.total_kills as int
        &&& distinct_keys(self.kills_by_means@)
        &&& pairs_sum(self.kills_by_means@) == self.total_kills as int
    }

    pub fn new(round_number: u32) -> (r: QuakeRound)
        ensures
            r.wf(),
            r.model() == fresh_round(round_number as int),
    {
        let r = QuakeRound {
            round_number,
            total_kills: 0,
            players: HashMap::new(),
            roster: Vec::new(),
            kills_by_means: Vec::new(),
            started: false,
        };
        proof {
            assert(r.model().players =~= fresh_round(round_number as int).players);
            assert(r.model() =~= fresh_round(round_number as int));
        }
        r
    }

    pub fn start_round(&mut self)
        ensures
            final(self).model() == start_step(old(self).model()),
            final(self).wf() == old(self).wf(),
    {
        self.started = true;
        proof {
            assert(self.model() =~= start_step(old(self).model()));
        }
    }

    pub fn is_started(&self) -> (r: bool)
        ensures
            r == self.model().started,
    {
        self.started
    }

    /// Apply a rename payload; reports whether the payload was well formed.
    pub fn process_client_user_info_changed(&mut self, line: &QuakeLogLine) -> (r: bool)
        requires
            old(self).wf(),
        ensures
            final(self).wf(),
            match spec_rename(line.info@) {
                Some(ev) => r && final(self).model() == rename_step(
                    old(self).model(),
                    ev.0,
                    ev.1,
                ),
                None => !r && *final(self) == *old(self),
            },
    {
        match line.parse_user_change_info() {
            None => false,
            Some((id, name)) => {
                self.update_or_insert_player(id, name);
                true
            },
        }
    }

    fn update_or_insert_player(&mut self, id: PlayerId, name: String)
        requires
            old(self).wf(),
        ensures
            final(self).wf(),
            final(self).model() == rename_step(old(self).model(), id, name@),
    {
        if id == WORLD_ID {
            return ;
        }
        if self.players.contains_key(&id) {
            let kills: KillCount = match self.players.get(&id) {
                Some(p) => p.kills,
                None => 0,
            };
            self.players.insert(id, Player { name, kills });
            proof {
                assert(self.model().players =~= rename_step(
                    old(self).model(),
                    id,
                    name@,
                ).players);
                assert(self.model() =~= rename_step(old(self).model(), id, name@));
                assert(forall|pid: PlayerId|
                    self.players@.dom().contains(pid) <==> self.roster@.contains(pid));
            }
        } else {
            self.players.insert(id, Player { name, kills: 0 });
            self.roster.push(id);
            proof {
                assert(self.model().players =~= rename_step(
                    old(self).model(),
                    id,
                    name@,
                ).players);
                assert(self.model() =~= rename_step(old(self).model(), id, name@));
                assert(self.roster@.drop_last() == old(self).roster@);
                assert forall|pid: PlayerId|
                    self.players@.dom().contains(pid) <==> self.roster@.contains(pid) by {
                    assert(old(self).roster@.push(id).contains(pid) <==> old(
                        self,
                    ).roster@.contains(pid) || pid == id);
                }
                assert forall|i: int, j: int|
                    0 <= i < j < self.roster@.len() implies self.roster@[i] != self.roster@[j] by {
                    if j == self.roster@.len() - 1 {
                        assert(self.roster@[i] == old(self).roster@[i]);
                        if self.roster@[i] == id {
                            assert(old(self).roster@.contains(id));
                        }
                    }
                }
            }
        }
    }

    /// Apply a kill payload; reports whether the payload was well formed.
    pub fn process_kill(&mut self, line: &QuakeLogLine) -> (r: bool)
        requires
            old(self).wf(),
            old(self).model().total < KillCount::MAX as int,
        ensures
            final(self).wf(),
            match spec_kill(line.info@) {
                Some(ev) => r && final(self).model() == kill_step(
                    old(self).model(),
                    ev.0,
                    ev.1,
                    ev.2,
                ),
                None => !r && *final(self) == *old(self),
            },
    {
        match line.parse_kill_info() {
            None => false,
            Some((killer_id, killed_id, cause)) => {
                self.apply_kill(killer_id, killed_id, cause);
                true
            },
        }
    }

    fn apply_kill(&mut self, killer_id: PlayerId, killed_id: PlayerId, cause: MeansOfDeath)
        requires
            old(self).wf(),
            old(self).model().total < KillCount::MAX as int,
        ensures
            final(self).wf(),
            final(self).model() == kill_step(old(self).model(), killer_id, killed_id, cause),
    {
        let penalty: bool = killer_id == WORLD_ID || killer_id == killed_id;
        let target: PlayerId = if penalty {
            killed_id
        } else {
            killer_id
        };
        let found: Option<(String, KillCount)> = match self.players.get(&target) {
            Some(p) => Some((p.name.clone(), p.kills)),
            None => None,
        };
        match found {
            None => {},
            Some((nm, k)) => {
                let nk: KillCount = if penalty {
                    k - 1
                } else {
                    k + 1
                };
                self.players.insert(target, Player { name: nm, kills: nk });
            },
        }
        self.total_kills = self.total_kills + 1;
        bump_pair(&mut self.kills_by_means, cause);
        proof {
            assert(self.model().players =~= kill_step(
                old(self).model(),
                killer_id,
                killed_id,
                cause,
            ).players);
            assert(self.model() =~= kill_step(old(self).model(), killer_id, killed_id, cause));
            assert(forall|pid: PlayerId|
                self.players@.dom().contains(pid) <==> old(self).players@.dom().contains(pid));
        }
    }

    pub fn get_total_kills(&self) -> (r: KillCount)
        ensures
            r as int == self.model().total,
    {
        self.total_kills
    }

    /// The current player names, in order of first sighting.
    pub fn get_players_names(&self) -> (r: Vec<String>)
        requires
            self.wf(),
        ensures
            r@.len() == self.model().roster.len(),
            forall|i: int|
                0 <= i < r@.len() ==> (#[trigger] r@[i])@ == self.model().players[
                    self.model().roster[i]
                ].0,
    {
        let n: usize = self.roster.len();
        let mut out: Vec<String> = Vec::new();
        let mut i: usize = 0;
        while i < n
            invariant
                i <= n,
                self.wf(),
                n == self.roster@.len(),
                out@.len() == i,
                forall|k: int|
                    0 <= k < i ==> (#[trigger] out@[k])@ == self.model().players[
                        self.model().roster[k]
                    ].0,
            decreases n - i,
        {
            let id: PlayerId = self.roster[i];
            proof {
                assert(self.roster@.contains(id));
            }
            match self.players.get(&id) {
                Some(p) => {
                    out.push(p.name.clone());
                },
                None => {
                    proof {
                        assert(false);
                    }
                },
            }
            i = i + 1;
        }
        out
    }

    /// Each current player's name and kill score, in order of first sighting.
    pub fn get_kills(&self) -> (r: Vec<(String, KillCount)>)
        requires
            self.wf(),
        ensures
            r@.len() == self.model().roster.len(),
            forall|i: int|
                0 <= i < r@.len() ==> ((#[trigger] r@[i]).0@, r@[i].1 as int) == self.model().players[
                    self.model().roster[i]
                ],
    {
        let n: usize = self.roster.len();
        let mut out: Vec<(String, KillCount)> = Vec::new();
        let mut i: usize = 0;
        while i < n
            invariant
                i <= n,
                self.wf(),
                n == self.roster@.len(),
                out@.len() == i,
                forall|k: int|
                    0 <= k < i ==> ((#[trigger] out@[k]).0@, out@[k].1 as int) == self.model().players[
                        self.model().roster[k]
                    ],
            decreases n - i,
        {
            let id: PlayerId = self.roster[i];
            proof {
                assert(self.roster@.contains(id));
            }
            match self.players.get(&id) {
                Some(p) => {
                    out.push((p.name.clone(), p.kills));
                },
                None => {
                    proof {
                        assert(false);
                    }
                },
            }
            i = i + 1;
        }
        out
    }

    /// The cause-of-death histogram: one entry per seen cause, counts
    /// summing to the total kill count.
    pub fn get_kills_by_means(&self) -> (r: Vec<(MeansOfDeath, u32)>)
        requires
            self.wf(),
        ensures
            distinct_keys(r@),
            pairs_to_map(r@) == self.model().means,
            pairs_sum(r@) == self.model().total,
    {
        let n: usize = self.kills_by_means.len();
        let mut out: Vec<(MeansOfDeath, u32)> = Vec::new();
        let mut i: usize = 0;
        while i < n
            invariant
                i <= n,
                n == self.kills_by_means@.len(),
                out@ == self.kills_by_means@.subrange(0, i as int),
            decreases n - i,
        {
            out.push(self.kills_by_means[i]);
            proof {
                assert(out@ =~= self.kills_by_means@.subrange(0, i + 1));
            }
            i = i + 1;
        }
        proof {
            assert(out@ =~= self.kills_by_means@);
        }
        out
    }

    pub fn get_round_number(&self) -> (r: u32)
        ensures
            r as int == self.model().number,
    {
        self.round_number
    }
}

} // verus!
