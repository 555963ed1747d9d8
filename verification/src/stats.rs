//! The immutable per-round aggregate record, the snapshot a finished round
//! leaves behind, specified against `RecordModel`.
use vstd::prelude::*;
use crate::models::KillCount;
use crate::models::MeansOfDeath;
use crate::models::PlayerId;
use crate::round::QuakeRound;
use crate::round::RoundModel;
use crate::round::distinct_keys;
use crate::round::pairs_sum;
use crate::round::pairs_to_map;

verus! {

/// Spec-level content of one aggregate record.
#[verifier::ext_equal]
pub ghost struct RecordModel {
    pub number: int,
    pub total: int,
    /// The player names, in the roster order of the finished round.
    pub names: Seq<Seq<char>>,
    /// Each player's name and final kill score, in the same order.
    pub kills: Seq<(Seq<char>, int)>,
    /// The cause-of-death histogram.
    pub means: Map<MeansOfDeath, int>,
}

/// The record a finished round denotes: its numbers, its roster's names and
/// scores in roster order, and its histogram.
pub open spec fn finalize_model(m: RoundModel) -> RecordModel {
    RecordModel {
        number: m.number,
        total: m.total,
        names: m.roster.map(|i: int, id: PlayerId| m.players[id].0),
        kills: m.roster.map(|i: int, id: PlayerId| m.players[id]),
        means: m.means,
    }
}

/// One finished round's statistics, ready for serialization.
#[derive(Debug)]
pub struct RoundStats {
    pub round_number: u32,
    pub total_kills: KillCount,
    pub players: Vec<String>,
    pub kills: Vec<(String, KillCount)>,
    pub kills_by_means: Vec<(MeansOfDeath, u32)>,
}

impl RoundStats {
    /// The spec-level record this value denotes.
    pub open spec fn model(self) -> RecordModel {
        RecordModel {
            number: self.round_number as int,
            total: self.total_kills as int,
            names: self.players@.map(|i: int, s: String| s@),
            kills: self.kills@.map(|i: int, p: (String, KillCount)| (p.0@, p.1 as int)),
            means: pairs_to_map(self.kills_by_means@),
        }
    }

    /// Finalize a round into its immutable record.
    pub fn from_round(round: &QuakeRound) -> (r: RoundStats)
        requires
            round.wf(),
        ensures
            r.model() == finalize_model(round.model()),
            distinct_keys(r.kills_by_means@),
            pairs_sum(r.kills_by_means@) == round.model().total,
    {
        let players = round.get_players_names();
        let kills = round.get_kills();
        let kills_by_means = round.get_kills_by_means();
        let total_kills = round.get_total_kills();
        let round_number: u32 = round.get_round_number();
        let r = RoundStats { round_number, total_kills, players, kills, kills_by_means };
        proof {
            assert(r.model().names =~= finalize_model(round.model()).names);
            assert(r.model().kills =~= finalize_model(round.model()).kills);
            assert(r.model() =~= finalize_model(round.model()));
        }
        r
    }
}

} // verus!
