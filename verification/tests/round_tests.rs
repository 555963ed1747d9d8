use quake_report::driver::LogProcessor;
use quake_report::models::MeansOfDeath;
use quake_report::models::Player;
use quake_report::parser::QuakeLogLine;
use quake_report::round::QuakeRound;

fn line(text: &str) -> QuakeLogLine {
    QuakeLogLine::from_str(text).unwrap()
}

fn kills_of(round: &QuakeRound, name: &str) -> i32 {
    round
        .get_kills()
        .into_iter()
        .find(|(n, _)| n.as_str() == name)
        .map(|(_, k)| k)
        .expect("player not found")
}

fn means_count(hist: &[(MeansOfDeath, u32)], cause: MeansOfDeath) -> u32 {
    hist.iter().find(|(m, _)| *m == cause).map(|(_, c)| *c).unwrap_or(0)
}

#[test]
fn player_new_and_score_methods() {
    let mut p = Player::new("Zeh");
    assert_eq!(p.get_name(), "Zeh");
    assert_eq!(p.get_kills(), 0);
    p.increment_kills();
    p.increment_kills();
    p.decrement_kills();
    assert_eq!(p.get_kills(), 1);
    p.update_name("Mal");
    assert_eq!(p.get_name(), "Mal");
    assert_eq!(p.get_kills(), 1);
}

#[test]
fn world_kill_penalises_victim() {
    let mut round = QuakeRound::new(1);
    round.start_round();
    round.process_client_user_info_changed(&line(
        "20:38 ClientUserinfoChanged: 2 n\\Isgalamido\\t\\0\\model\\sarge",
    ));
    assert_eq!(kills_of(&round, "Isgalamido"), 0);
    round.process_kill(&line(
        "22:06 Kill: 1022 2 22: <world> killed Isgalamido by MOD_FALLING",
    ));
    assert_eq!(kills_of(&round, "Isgalamido"), -1);
    assert_eq!(round.get_total_kills(), 1);
    assert_eq!(
        means_count(&round.get_kills_by_means(), MeansOfDeath::ModFalling),
        1
    );
}

#[test]
fn self_kill_penalises_victim() {
    let mut round = QuakeRound::new(1);
    round.start_round();
    round.process_client_user_info_changed(&line(
        "20:38 ClientUserinfoChanged: 2 n\\Isgalamido\\t\\0\\model\\sarge",
    ));
    round.process_kill(&line(
        "22:06 Kill: 2 2 7: Isgalamido killed Isgalamido by MOD_ROCKET_SPLASH",
    ));
    assert_eq!(kills_of(&round, "Isgalamido"), -1);
    assert_eq!(round.get_total_kills(), 1);
}

#[test]
fn normal_kill_credits_killer() {
    let mut round = QuakeRound::new(1);
    round.start_round();
    round.process_client_user_info_changed(&line(
        "20:38 ClientUserinfoChanged: 2 n\\Isgalamido\\t\\0\\model\\sarge",
    ));
    round.process_client_user_info_changed(&line(
        "20:38 ClientUserinfoChanged: 3 n\\Zeh\\t\\0\\model\\sarge",
    ));
    round.process_kill(&line(
        "2:29 Kill: 2 3 10: Isgalamido killed Zeh by MOD_RAILGUN",
    ));
    assert_eq!(kills_of(&round, "Isgalamido"), 1);
    assert_eq!(kills_of(&round, "Zeh"), 0);
    assert_eq!(round.get_total_kills(), 1);
    assert_eq!(
        means_count(&round.get_kills_by_means(), MeansOfDeath::ModRailgun),
        1
    );
}

#[test]
fn kill_for_unknown_player_counts_total_only() {
    let mut round = QuakeRound::new(1);
    round.start_round();
    round.process_kill(&line(
        "2:29 Kill: 7 8 10: Ghost killed Shadow by MOD_SHOTGUN",
    ));
    assert_eq!(round.get_total_kills(), 1);
    assert!(round.get_players_names().is_empty());
    assert_eq!(
        means_count(&round.get_kills_by_means(), MeansOfDeath::ModShotgun),
        1
    );
}

#[test]
fn rename_updates_name_and_keeps_kills() {
    let mut round = QuakeRound::new(1);
    round.start_round();
    round.process_client_user_info_changed(&line(
        "20:38 ClientUserinfoChanged: 2 n\\Isgalamido\\t\\0\\model\\sarge",
    ));
    round.process_client_user_info_changed(&line(
        "20:38 ClientUserinfoChanged: 3 n\\Zeh\\t\\0\\model\\sarge",
    ));
    round.process_kill(&line(
        "2:29 Kill: 2 3 10: Isgalamido killed Zeh by MOD_RAILGUN",
    ));
    round.process_client_user_info_changed(&line(
        "20:40 ClientUserinfoChanged: 2 n\\Dono de mim\\t\\0\\model\\sarge",
    ));
    assert_eq!(kills_of(&round, "Dono de mim"), 1);
    assert_eq!(round.get_players_names(), vec!["Dono de mim", "Zeh"]);
}

#[test]
fn start_round_is_idempotent() {
    let mut round = QuakeRound::new(4);
    assert!(!round.is_started());
    round.start_round();
    assert!(round.is_started());
    round.start_round();
    assert!(round.is_started());
    assert_eq!(round.get_round_number(), 4);
    assert_eq!(round.get_total_kills(), 0);
}

#[test]
fn histogram_counts_sum_to_total() {
    let mut round = QuakeRound::new(1);
    round.start_round();
    round.process_kill(&line("2:29 Kill: 3 4 10: A killed B by MOD_RAILGUN"));
    round.process_kill(&line("2:30 Kill: 3 4 10: A killed B by MOD_RAILGUN"));
    round.process_kill(&line("2:31 Kill: 1022 4 22: <world> killed B by MOD_TRIGGER_HURT"));
    let hist = round.get_kills_by_means();
    let sum: u32 = hist.iter().map(|(_, c)| *c).sum();
    assert_eq!(sum, 3);
    assert_eq!(round.get_total_kills(), 3);
    assert_eq!(means_count(&hist, MeansOfDeath::ModRailgun), 2);
    assert_eq!(means_count(&hist, MeansOfDeath::ModTriggerHurt), 1);
}

#[test]
fn rounds_counted_and_numbered_in_order() {
    let mut proc = LogProcessor::new();
    let log = [
        "  0:00 InitGame: \\capturelimit\\8\\g_maxGameClients\\0",
        "20:38 ClientUserinfoChanged: 2 n\\Isgalamido\\t\\0\\model\\sarge",
        "2:29 Kill: 1022 2 22: <world> killed Isgalamido by MOD_TRIGGER_HURT",
        "20:37 ShutdownGame:",
        "  0:00 InitGame: \\capturelimit\\8\\g_maxGameClients\\0",
        "20:38 ClientUserinfoChanged: 3 n\\Zeh\\t\\0\\model\\sarge",
        "20:37 ShutdownGame:",
    ];
    for l in log {
        proc.process_line(l);
    }
    let stats = proc.finish();
    assert_eq!(stats.len(), 2);
    assert_eq!(stats[0].round_number, 1);
    assert_eq!(stats[1].round_number, 2);
    assert_eq!(stats[0].total_kills, 1);
    assert_eq!(stats[1].total_kills, 0);
}

#[test]
fn truncated_log_still_emits_last_round() {
    let mut proc = LogProcessor::new();
    let log = [
        "  0:00 InitGame: \\capturelimit\\8",
        "20:38 ClientUserinfoChanged: 2 n\\Isgalamido\\t\\0\\model\\sarge",
        "2:29 Kill: 2 2 7: Isgalamido killed Isgalamido by MOD_ROCKET_SPLASH",
    ];
    for l in log {
        proc.process_line(l);
    }
    let stats = proc.finish();
    assert_eq!(stats.len(), 1);
    assert_eq!(stats[0].round_number, 1);
    assert_eq!(stats[0].total_kills, 1);
    assert_eq!(stats[0].players, vec!["Isgalamido"]);
}

#[test]
fn world_never_in_players_list() {
    let mut proc = LogProcessor::new();
    let log = [
        "  0:00 InitGame: \\capturelimit\\8",
        "20:38 ClientUserinfoChanged: 2 n\\Isgalamido\\t\\0\\model\\sarge",
        "2:29 Kill: 1022 2 22: <world> killed Isgalamido by MOD_TRIGGER_HURT",
        "2:30 Kill: 2 1022 22: strange record by MOD_TRIGGER_HURT",
        "20:37 ShutdownGame:",
    ];
    for l in log {
        proc.process_line(l);
    }
    let stats = proc.finish();
    assert_eq!(stats.len(), 1);
    assert_eq!(stats[0].players, vec!["Isgalamido"]);
    assert!(stats[0].kills.iter().all(|(name, _)| name == "Isgalamido"));
}

#[test]
fn stray_shutdown_and_empty_log_emit_nothing() {
    let proc = LogProcessor::new();
    assert!(proc.finish().is_empty());
    let mut proc2 = LogProcessor::new();
    proc2.process_line("20:37 ShutdownGame:");
    proc2.process_line("20:37 ShutdownGame:");
    assert!(proc2.finish().is_empty());
}

#[test]
fn events_before_first_init_attach_to_round_one() {
    let mut proc = LogProcessor::new();
    let log = [
        "20:38 ClientUserinfoChanged: 2 n\\Isgalamido\\t\\0\\model\\sarge",
        "2:29 Kill: 2 2 7: Isgalamido killed Isgalamido by MOD_ROCKET_SPLASH",
        "  0:00 InitGame: \\capturelimit\\8",
        "20:37 ShutdownGame:",
    ];
    for l in log {
        proc.process_line(l);
    }
    let stats = proc.finish();
    assert_eq!(stats.len(), 1);
    assert_eq!(stats[0].round_number, 1);
    assert_eq!(stats[0].total_kills, 1);
    assert_eq!(
        stats[0].kills,
        vec![(String::from("Isgalamido"), -1)]
    );
}
