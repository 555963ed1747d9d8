//! Line classification and payload extraction. A raw line either becomes a
//! `QuakeLogLine` — timestamp, action, unparsed payload — or is dropped; the
//! payload of a rename or kill line is then parsed by its own extractor.
//! Every step is specified by a spec-level model of the same split.
use vstd::prelude::*;
use crate::models::MeansOfDeath;
use crate::models::PlayerId;
use crate::models::QuakeAction;
use crate::models::spec_action_of;
use crate::models::spec_mod_of;
use crate::text::contains_pat;
use crate::text::find_first;
use crate::text::find_last;
use crate::text::first_match;
use crate::text::is_match_at;
use crate::text::last_match;
use crate::text::next_ws;
use crate::text::next_ws_from;
use crate::text::parse_u32;
use crate::text::parse_u32_spec;
use crate::text::skip_ws;
use crate::text::skip_ws_from;
use crate::text::str_eq;

verus! {

/// The decorative divider of the source format: a run of sixty dashes.
/// A line containing it carries no event.
pub open spec fn ignore_marker() -> Seq<char> {
    "------------------------------------------------------------"@
}

/// The two characters separating the time-and-action segment from the payload.
pub open spec fn split_marker() -> Seq<char> {
    ": "@
}

/// The marker in a rename payload between the player id and the name.
pub open spec fn rename_marker() -> Seq<char> {
    " n\\"@
}

/// The marker in a rename payload ending the player name.
pub open spec fn name_end_marker() -> Seq<char> {
    "\\t\\"@
}

/// The delimiter in a kill description before the cause-of-death tag.
pub open spec fn cause_marker() -> Seq<char> {
    " by "@
}

/// The first and second white-space-separated tokens of `s`, provided `s`
/// holds exactly two tokens.
pub open spec fn spec_two_tokens(s: Seq<char>) -> Option<(Seq<char>, Seq<char>)> {
    let a = skip_ws(s, 0);
    let b = next_ws(s, a);
    let c = skip_ws(s, b);
    let d = next_ws(s, c);
    if a == s.len() || c == s.len() || skip_ws(s, d) != s.len() {
        None
    } else {
        Some((s.subrange(a, b), s.subrange(c, d)))
    }
}

/// A time-and-action segment: exactly a timestamp token and a recognised
/// action token, separated by white space.
pub open spec fn spec_time_and_action(s: Seq<char>) -> Option<(Seq<char>, QuakeAction)> {
    match spec_two_tokens(s) {
        None => None,
        Some((time, action_tok)) => match spec_action_of(action_tok) {
            None => None,
            Some(action) => Some((time, action)),
        },
    }
}

/// The classification of one raw line: the divider is rejected; the line is
/// split at the first colon-space marker (a missing marker leaves an empty
/// payload); the head must be a valid time-and-action segment.
pub open spec fn spec_classify(line: Seq<char>) -> Option<(Seq<char>, QuakeAction, Seq<char>)> {
    if contains_pat(line, ignore_marker()) {
        None
    } else {
        let head = match first_match(line, split_marker()) {
            Some(i) => line.subrange(0, i),
            None => line,
        };
        let payload = match first_match(line, split_marker()) {
            Some(i) => line.subrange(i + split_marker().len(), line.len() as int),
            None => Seq::<char>::empty(),
        };
        match spec_time_and_action(head) {
            None => None,
            Some((time, action)) => Some((time, action, payload)),
        }
    }
}

/// Split a time-and-action segment into the timestamp text and the action.
fn parse_time_and_action(time_and_action: &str) -> (r: Option<(String, QuakeAction)>)
    ensures
        match r {
            Some(ta) => spec_time_and_action(time_and_action@) == Some((ta.0@, ta.1)),
            None => spec_time_and_action(time_and_action@) is None,
        },
{
    let hn: usize = time_and_action.unicode_len();
    let a: usize = skip_ws_from(time_and_action, 0);
    if a == hn {
        return None;
    }
    let b: usize = next_ws_from(time_and_action, a);
    let c: usize = skip_ws_from(time_and_action, b);
    if c == hn {
        return None;
    }
    let d: usize = next_ws_from(time_and_action, c);
    if skip_ws_from(time_and_action, d) != hn {
        return None;
    }
    match QuakeAction::from_str(time_and_action.substring_char(c, d)) {
        None => None,
        Some(act) => {
            let time: String = time_and_action.substring_char(a, b).to_owned();
            Some((time, act))
        },
    }
}

/// The rename payload `<id> n\<name>\t\...`: the part before the first
/// ` n\` marker must parse as a player id, and the name is everything
/// between that marker and the first `\t\` marker.
pub open spec fn spec_rename(info: Seq<char>) -> Option<(PlayerId, Seq<char>)> {
    match first_match(info, rename_marker()) {
        None => None,
        Some(i) => {
            let id_part = info.subrange(0, i);
            let rest = info.subrange(i + rename_marker().len(), info.len() as int);
            match parse_u32_spec(id_part) {
                None => None,
                Some(id) => match first_match(rest, name_end_marker()) {
                    None => None,
                    Some(j) => Some((id, rest.subrange(0, j))),
                },
            }
        },
    }
}

/// The kill payload `<killer> <killed> <cause_id>: ... by <cause>`: the id
/// segment before the first colon-space must start with two tokens parsing
/// as player ids, and the cause tag is everything after the last ` by ` in
/// the description. The numeric cause id is ignored by design: the textual
/// tag is the authoritative one.
pub open spec fn spec_kill(info: Seq<char>) -> Option<(PlayerId, PlayerId, MeansOfDeath)> {
    match first_match(info, split_marker()) {
        None => None,
        Some(i) => {
            let ids = info.subrange(0, i);
            let desc = info.subrange(i + split_marker().len(), info.len() as int);
            let a = skip_ws(ids, 0);
            let b = next_ws(ids, a);
            let c = skip_ws(ids, b);
            let d = next_ws(ids, c);
            if a == ids.len() || c == ids.len() {
                None
            } else {
                match (parse_u32_spec(ids.subrange(a, b)), parse_u32_spec(ids.subrange(c, d))) {
                    (Some(killer), Some(killed)) => match last_match(desc, cause_marker()) {
                        None => None,
                        Some(j) => Some(
                            (
                                killer,
                                killed,
                                spec_mod_of(
                                    desc.subrange(j + cause_marker().len(), desc.len() as int),
                                ),
                            ),
                        ),
                    },
                    _ => None,
                }
            }
        },
    }
}

/// Idempotent classification: classification is a pure function of the
/// line's characters, so any two results obtained for the same line — each
/// related to the line as `QuakeLogLine::from_str` promises — are equal.
pub proof fn lemma_classify_idempotent(
    line: Seq<char>,
    r1: Option<(Seq<char>, QuakeAction, Seq<char>)>,
    r2: Option<(Seq<char>, QuakeAction, Seq<char>)>,
)
    requires
        (match r1 {
            Some(l) => spec_classify(line) == Some(l),
            None => spec_classify(line) is None,
        }),
        (match r2 {
            Some(l) => spec_classify(line) == Some(l),
            None => spec_classify(line) is None,
        }),
    ensures
        r1 == r2,
{
}

/// Divider rejection: a line in which the sixty-dash divider run occurs
/// anywhere classifies to absence, whatever else the line holds.
pub proof fn lemma_divider_rejected(line: Seq<char>)
    requires
        exists|i: int| is_match_at(line, ignore_marker(), i),
    ensures
        spec_classify(line) is None,
{
    crate::text::lemma_contains_pat_exists(line, ignore_marker());
}

/// One classified line: the timestamp kept as opaque text, the recognised
/// action, and the unparsed remainder of the line.
#[derive(Debug)]
pub struct QuakeLogLine {
    pub time: String,
    pub action: QuakeAction,
    pub info: String,
}

impl PartialEq for QuakeLogLine {
    fn eq(&self, other: &QuakeLogLine) -> (r: bool) {
        str_eq(self.time.as_str(), other.time.as_str()) && self.action == other.action && str_eq(
            self.info.as_str(),
            other.info.as_str(),
        )
    }
}

impl vstd::std_specs::cmp::PartialEqSpecImpl for QuakeLogLine {
    open spec fn obeys_eq_spec() -> bool {
        true
    }

    open spec fn eq_spec(&self, other: &QuakeLogLine) -> bool {
        self.time@ == other.time@ && self.action == other.action && self.info@ == other.info@
    }
}

impl QuakeLogLine {
    /// Classify one raw line, or reject it.
    pub fn from_str(line: &str) -> (r: Option<QuakeLogLine>)
        ensures
            match r {
                Some(l) => spec_classify(line@) == Some((l.time@, l.action, l.info@)),
                None => spec_classify(line@) is None,
            },
    {
        proof {
            reveal_strlit("------------------------------------------------------------");
            reveal_strlit(": ");
        }
        if find_first(line, "------------------------------------------------------------")
            .is_some() {
            return None;
        }
        let n: usize = line.unicode_len();
        let split = find_first(line, ": ");
        let head: &str = match split {
            Some(i) => line.substring_char(0, i),
            None => line,
        };
        match parse_time_and_action(head) {
            None => None,
            Some((time, act)) => {
                let info: String = match split {
                    Some(i) => line.substring_char(i + 2, n).to_owned(),
                    None => String::new(),
                };
                proof {
                    if split is None {
                        assert(info@ =~= Seq::<char>::empty());
                    }
                }
                Some(QuakeLogLine { time, action: act, info })
            },
        }
    }

    pub fn get_action(&self) -> (r: &QuakeAction)
        ensures
            *r == self.action,
    {
        &self.action
    }

    /// Extract the player id and display name of a rename payload.
    pub fn parse_user_change_info(&self) -> (r: Option<(PlayerId, String)>)
        ensures
            match r {
                Some((id, name)) => spec_rename(self.info@) == Some((id, name@)),
                None => spec_rename(self.info@) is None,
            },
    {
        proof {
            reveal_strlit(" n\\");
            reveal_strlit("\\t\\");
        }
        let info: &str = self.info.as_str();
        let n: usize = info.unicode_len();
        match find_first(info, " n\\") {
            None => None,
            Some(i) => {
                let id_part: &str = info.substring_char(0, i);
                match parse_u32(id_part) {
                    None => None,
                    Some(id) => {
                        let rest: &str = info.substring_char(i + 3, n);
                        match find_first(rest, "\\t\\") {
                            None => None,
                            Some(j) => Some((id, rest.substring_char(0, j).to_owned())),
                        }
                    },
                }
            },
        }
    }

    /// Extract the killer id, victim id and cause tag of a kill payload.
    pub fn parse_kill_info(&self) -> (r: Option<(PlayerId, PlayerId, MeansOfDeath)>)
        ensures
            match r {
                Some((killer, killed, cause)) => spec_kill(self.info@) == Some(
                    (killer, killed, cause),
                ),
                None => spec_kill(self.info@) is None,
            },
    {
        proof {
            reveal_strlit(": ");
            reveal_strlit(" by ");
        }
        let info: &str = self.info.as_str();
        let n: usize = info.unicode_len();
        match find_first(info, ": ") {
            None => None,
            Some(i) => {
                let ids: &str = info.substring_char(0, i);
                let m: usize = ids.unicode_len();
                let a: usize = skip_ws_from(ids, 0);
                if a == m {
                    return None;
                }
                let b: usize = next_ws_from(ids, a);
                let killer = match parse_u32(ids.substring_char(a, b)) {
                    None => {
                        return None;
                    },
                    Some(k) => k,
                };
                let c: usize = skip_ws_from(ids, b);
                if c == m {
                    return None;
                }
                let d: usize = next_ws_from(ids, c);
                let killed = match parse_u32(ids.substring_char(c, d)) {
                    None => {
                        return None;
                    },
                    Some(k) => k,
                };
                let desc: &str = info.substring_char(i + 2, n);
                let dn: usize = desc.unicode_len();
                match find_last(desc, " by ") {
                    None => None,
                    Some(j) => {
                        let cause = MeansOfDeath::from_str(desc.substring_char(j + 4, dn));
                        Some((killer, killed, cause))
                    },
                }
            },
        }
    }
}

} // verus!
