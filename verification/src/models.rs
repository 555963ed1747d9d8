//! Domain vocabulary of the log format: players, the closed set of action
//! tokens, and the closed set of cause-of-death tags with its fallback.
use vstd::prelude::*;
use crate::text::str_eq;

verus! {

pub type KillCount = i32;

pub type PlayerId = u32;

/// The reserved id of the environment itself; it is never part of a roster.
pub const WORLD_ID: PlayerId = 1022;

/// One participant of a round: a display name and a running kill score,
/// which may go negative through world-kill and self-kill penalties.
#[derive(Debug)]
pub struct Player {
    pub name: String,
    pub kills: KillCount,
}

impl Player {
    pub fn new(name: &str) -> (p: Player)
        ensures
            p.name@ == name@,
            p.kills == 0,
    {
        Player { name: name.to_owned(), kills: 0 }
    }

    pub fn update_name(&mut self, name: &str)
        ensures
            final(self).name@ == name@,
            final(self).kills == old(self).kills,
    {
        self.name = name.to_owned();
    }

    pub fn get_name(&self) -> (r: &str)
        ensures
            r@ == self.name@,
    {
        self.name.as_str()
    }

    pub fn get_kills(&self) -> (r: KillCount)
        ensures
            r == self.kills,
    {
        self.kills
    }

    pub fn increment_kills(&mut self)
        requires
            old(self).kills < KillCount::MAX,
        ensures
            final(self).kills == old(self).kills + 1,
            final(self).name@ == old(self).name@,
    {
        self.kills = self.kills + 1;
    }

    pub fn decrement_kills(&mut self)
        requires
            old(self).kills > KillCount::MIN,
        ensures
            final(self).kills == old(self).kills - 1,
            final(self).name@ == old(self).name@,
    {
        self.kills = self.kills - 1;
    }
}

/// The closed set of action tokens a log line may carry.
#[derive(Clone, Copy, PartialEq, Eq, Structural, Debug)]
pub enum QuakeAction {
    InitGame,
    Exit,
    ClientConnect,
    ClientDisconnect,
    ClientUserInfoChanged,
    ClientBegin,
    ShutdownGame,
    Item,
    Kill,
    Score,
    Say,
}

/// The action named by a token, if any. The shutdown marker is accepted with
/// and without its trailing colon, which the source format is inconsistent
/// about.
pub open spec fn spec_action_of(s: Seq<char>) -> Option<QuakeAction> {
    if s == "InitGame"@ {
        Some(QuakeAction::InitGame)
    } else if s == "Exit"@ {
        Some(QuakeAction::Exit)
    } else if s == "ClientConnect"@ {
        Some(QuakeAction::ClientConnect)
    } else if s == "ClientDisconnect"@ {
        Some(QuakeAction::ClientDisconnect)
    } else if s == "ClientUserinfoChanged"@ {
        Some(QuakeAction::ClientUserInfoChanged)
    } else if s == "ClientBegin"@ {
        Some(QuakeAction::ClientBegin)
    } else if s == "ShutdownGame:"@ || s == "ShutdownGame"@ {
        Some(QuakeAction::ShutdownGame)
    } else if s == "Item"@ {
        Some(QuakeAction::Item)
    } else if s == "Kill"@ {
        Some(QuakeAction::Kill)
    } else if s == "score"@ {
        Some(QuakeAction::Score)
    } else if s == "say"@ {
        Some(QuakeAction::Say)
    } else {
        None
    }
}

impl QuakeAction {
    pub fn from_str(action: &str) -> (r: Option<QuakeAction>)
        ensures
            r == spec_action_of(action@),
    {
        if str_eq(action, "InitGame") {
            Some(QuakeAction::InitGame)
        } else if str_eq(action, "Exit") {
            Some(QuakeAction::Exit)
        } else if str_eq(action, "ClientConnect") {
            Some(QuakeAction::ClientConnect)
        } else if str_eq(action, "ClientDisconnect") {
            Some(QuakeAction::ClientDisconnect)
        } else if str_eq(action, "ClientUserinfoChanged") {
            Some(QuakeAction::ClientUserInfoChanged)
        } else if str_eq(action, "ClientBegin") {
            Some(QuakeAction::ClientBegin)
        } else if str_eq(action, "ShutdownGame:") || str_eq(action, "ShutdownGame") {
            Some(QuakeAction::ShutdownGame)
        } else if str_eq(action, "Item") {
            Some(QuakeAction::Item)
        } else if str_eq(action, "Kill") {
            Some(QuakeAction::Kill)
        } else if str_eq(action, "score") {
            Some(QuakeAction::Score)
        } else if str_eq(action, "say") {
            Some(QuakeAction::Say)
        } else {
            None
        }
    }
}

/// The closed set of cause-of-death tags; text outside the vocabulary falls
/// back to `ModUnknown`.
#[derive(Clone, Copy, PartialEq, Eq, Structural, Hash, Debug)]
pub enum MeansOfDeath {
    ModUnknown,
    ModShotgun,
    ModGauntlet,
    ModMachinegun,
    ModGrenade,
    ModGrenadeSplash,
    ModRocket,
    ModRocketSplash,
    ModPlasma,
    ModPlasmaSplash,
    ModRailgun,
    ModLightning,
    ModBfg,
    ModBfgSplash,
    ModWater,
    ModSlime,
    ModLava,
    ModCrush,
    ModTelefrag,
    ModFalling,
    ModSuicide,
    ModTargetLaser,
    ModTriggerHurt,
    ModNail,
    ModChaingun,
    ModProximityMine,
    ModKamikaze,
    ModJuiced,
    ModGrapple,
}

/// The cause named by a tag; unrecognised text maps to the unknown variant,
/// never to a rejection.
pub open spec fn spec_mod_of(s: Seq<char>) -> MeansOfDeath {
    if s == "MOD_SHOTGUN"@ {
        MeansOfDeath::ModShotgun
    } else if s == "MOD_GAUNTLET"@ {
        MeansOfDeath::ModGauntlet
    } else if s == "MOD_MACHINEGUN"@ {
        MeansOfDeath::ModMachinegun
    } else if s == "MOD_GRENADE"@ {
        MeansOfDeath::ModGrenade
    } else if s == "MOD_GRENADE_SPLASH"@ {
        MeansOfDeath::ModGrenadeSplash
    } else if s == "MOD_ROCKET"@ {
        MeansOfDeath::ModRocket
    } else if s == "MOD_ROCKET_SPLASH"@ {
        MeansOfDeath::ModRocketSplash
    } else if s == "MOD_PLASMA"@ {
        MeansOfDeath::ModPlasma
    } else if s == "MOD_PLASMA_SPLASH"@ {
        MeansOfDeath::ModPlasmaSplash
    } else if s == "MOD_RAILGUN"@ {
        MeansOfDeath::ModRailgun
    } else if s == "MOD_LIGHTNING"@ {
        MeansOfDeath::ModLightning
    } else if s == "MOD_BFG"@ {
        MeansOfDeath::ModBfg
    } else if s == "MOD_BFG_SPLASH"@ {
        MeansOfDeath::ModBfgSplash
    } else if s == "MOD_WATER"@ {
        MeansOfDeath::ModWater
    } else if s == "MOD_SLIME"@ {
        MeansOfDeath::ModSlime
    } else if s == "MOD_LAVA"@ {
        MeansOfDeath::ModLava
    } else if s == "MOD_CRUSH"@ {
        MeansOfDeath::ModCrush
    } else if s == "MOD_TELEFRAG"@ {
        MeansOfDeath::ModTelefrag
    } else if s == "MOD_FALLING"@ {
        MeansOfDeath::ModFalling
    } else if s == "MOD_SUICIDE"@ {
        MeansOfDeath::ModSuicide
    } else if s == "MOD_TARGET_LASER"@ {
        MeansOfDeath::ModTargetLaser
    } else if s == "MOD_TRIGGER_HURT"@ {
        MeansOfDeath::ModTriggerHurt
    } else if s == "MOD_NAIL"@ {
        MeansOfDeath::ModNail
    } else if s == "MOD_CHAINGUN"@ {
        MeansOfDeath::ModChaingun
    } else if s == "MOD_PROXIMITY_MINE"@ {
        MeansOfDeath::ModProximityMine
    } else if s == "MOD_KAMIKAZE"@ {
        MeansOfDeath::ModKamikaze
    } else if s == "MOD_JUICED"@ {
        MeansOfDeath::ModJuiced
    } else if s == "MOD_GRAPPLE"@ {
        MeansOfDeath::ModGrapple
    } else {
        MeansOfDeath::ModUnknown
    }
}

impl MeansOfDeath {
    pub fn from_str(mean_of_death: &str) -> (r: MeansOfDeath)
        ensures
            r == spec_mod_of(mean_of_death@),
    {
        if str_eq(mean_of_death, "MOD_SHOTGUN") {
            MeansOfDeath::ModShotgun
        } else if str_eq(mean_of_death, "MOD_GAUNTLET") {
            MeansOfDeath::ModGauntlet
        } else if str_eq(mean_of_death, "MOD_MACHINEGUN") {
            MeansOfDeath::ModMachinegun
        } else if str_eq(mean_of_death, "MOD_GRENADE") {
            MeansOfDeath::ModGrenade
        } else if str_eq(mean_of_death, "MOD_GRENADE_SPLASH") {
            MeansOfDeath::ModGrenadeSplash
        } else if str_eq(mean_of_death, "MOD_ROCKET") {
            MeansOfDeath::ModRocket
        } else if str_eq(mean_of_death, "MOD_ROCKET_SPLASH") {
            MeansOfDeath::ModRocketSplash
        } else if str_eq(mean_of_death, "MOD_PLASMA") {
            MeansOfDeath::ModPlasma
        } else if str_eq(mean_of_death, "MOD_PLASMA_SPLASH") {
            MeansOfDeath::ModPlasmaSplash
        } else if str_eq(mean_of_death, "MOD_RAILGUN") {
            MeansOfDeath::ModRailgun
        } else if str_eq(mean_of_death, "MOD_LIGHTNING") {
            MeansOfDeath::ModLightning
        } else if str_eq(mean_of_death, "MOD_BFG") {
            MeansOfDeath::ModBfg
        } else if str_eq(mean_of_death, "MOD_BFG_SPLASH") {
            MeansOfDeath::ModBfgSplash
        } else if str_eq(mean_of_death, "MOD_WATER") {
            MeansOfDeath::ModWater
        } else if str_eq(mean_of_death, "MOD_SLIME") {
            MeansOfDeath::ModSlime
        } else if str_eq(mean_of_death, "MOD_LAVA") {
            MeansOfDeath::ModLava
        } else if str_eq(mean_of_death, "MOD_CRUSH") {
            MeansOfDeath::ModCrush
        } else if str_eq(mean_of_death, "MOD_TELEFRAG") {
            MeansOfDeath::ModTelefrag
        } else if str_eq(mean_of_death, "MOD_FALLING") {
            MeansOfDeath::ModFalling
        } else if str_eq(mean_of_death, "MOD_SUICIDE") {
            MeansOfDeath::ModSuicide
        } else if str_eq(mean_of_death, "MOD_TARGET_LASER") {
            MeansOfDeath::ModTargetLaser
        } else if str_eq(mean_of_death, "MOD_TRIGGER_HURT") {
            MeansOfDeath::ModTriggerHurt
        } else if str_eq(mean_of_death, "MOD_NAIL") {
            MeansOfDeath::ModNail
        } else if str_eq(mean_of_death, "MOD_CHAINGUN") {
            MeansOfDeath::ModChaingun
        } else if str_eq(mean_of_death, "MOD_PROXIMITY_MINE") {
            MeansOfDeath::ModProximityMine
        } else if str_eq(mean_of_death, "MOD_KAMIKAZE") {
            MeansOfDeath::ModKamikaze
        } else if str_eq(mean_of_death, "MOD_JUICED") {
            MeansOfDeath::ModJuiced
        } else if str_eq(mean_of_death, "MOD_GRAPPLE") {
            MeansOfDeath::ModGrapple
        } else {
            MeansOfDeath::ModUnknown
        }
    }
}

} // verus!
