use quake_report::models::MeansOfDeath;
use quake_report::models::QuakeAction;
use quake_report::parser::QuakeLogLine;

const USER_INFO_CHANGE_OK: &str = r#"3:49 ClientUserinfoChanged: 5 n\Assasinu Credi\t\0\model\sarge\hmodel\sarge\g_redteam\\g_blueteam\\c1\4\c2\5\hc\100\w\0\l\0\tt\0\tl\0"#;
const KILL_INFO_OK: &str = "2:29 Kill: 3 4 10: Isgalamido killed Zeh by MOD_RAILGUN";
const IGNORE_MARKER: &str = "------------------------------------------------------------";

#[test]
fn quake_line_with_ignore_marker() {
    let line = IGNORE_MARKER;
    assert_eq!(QuakeLogLine::from_str(line), None);
}

#[test]
fn quake_line_with_kill_log() {
    let line = KILL_INFO_OK;
    let quake_line = QuakeLogLine::from_str(line).unwrap();
    assert_eq!(quake_line.time, "2:29");
    assert_eq!(quake_line.action, QuakeAction::Kill);
    assert_eq!(
        quake_line.info,
        "3 4 10: Isgalamido killed Zeh by MOD_RAILGUN"
    );
}

#[test]
fn quake_line_with_user_info_change() {
    let line = USER_INFO_CHANGE_OK;
    let quake_line = QuakeLogLine::from_str(line).unwrap();
    assert_eq!(quake_line.time, "3:49");
    assert_eq!(quake_line.action, QuakeAction::ClientUserInfoChanged);
    assert_eq!(
        quake_line.info,
        r#"5 n\Assasinu Credi\t\0\model\sarge\hmodel\sarge\g_redteam\\g_blueteam\\c1\4\c2\5\hc\100\w\0\l\0\tt\0\tl\0"#
    );
}

#[test]
fn quake_parse_invalid_line() {
    let line = "2:29 Kill 3 4 10: Isgalamido killed Zeh by MOD_RAILGUN";
    assert_eq!(QuakeLogLine::from_str(line), None);
}

#[test]
fn quake_parse_shutdown_game() {
    let line = " 1:47 ShutdownGame:";
    let quake_line = QuakeLogLine::from_str(line).unwrap();
    assert_eq!(quake_line.time, "1:47");
    assert_eq!(quake_line.action, QuakeAction::ShutdownGame);
    assert_eq!(quake_line.info, "");
}

#[test]
fn quake_line_parse_user_change_info_ok() {
    let line = USER_INFO_CHANGE_OK;
    let quake_line = QuakeLogLine::from_str(line).unwrap();
    let (user_id, user_name) = quake_line.parse_user_change_info().unwrap();
    assert_eq!(user_id, 5);
    assert_eq!(user_name, "Assasinu Credi");
}

#[test]
fn quake_line_parse_user_change_info_invalid_id() {
    let line = "3:49 ClientUserinfoChanged: id n\\Assasinu Credi\\t\\0\\model\\sarge";
    let quake_line = QuakeLogLine::from_str(line).unwrap();
    assert_eq!(quake_line.parse_user_change_info(), None);
}

#[test]
fn quake_line_parse_user_change_info_invalid_name() {
    let line = "3:49 ClientUserinfoChanged: 2 n\\Assasinu Credi\\0\\model\\sarge";
    let quake_line = QuakeLogLine::from_str(line).unwrap();
    assert_eq!(quake_line.parse_user_change_info(), None);
}

#[test]
fn quake_line_parse_kill_info_ok() {
    let line = KILL_INFO_OK;
    let quake_line = QuakeLogLine::from_str(line).unwrap();
    let (killer_id, killed_id, means_of_death) = quake_line.parse_kill_info().unwrap();
    assert_eq!(killer_id, 3);
    assert_eq!(killed_id, 4);
    assert_eq!(means_of_death, MeansOfDeath::ModRailgun);
}

#[test]
fn quake_line_parse_kill_info_invalid_killer_id() {
    let line = "2:29 Kill: id 4 10: Isgalamido killed Zeh by MOD_RAILGUN";
    let quake_line = QuakeLogLine::from_str(line).unwrap();
    assert_eq!(quake_line.parse_kill_info(), None);
}

#[test]
fn quake_line_parse_kill_info_invalid_killed_id() {
    let line = "2:29 Kill: 3 id 10: Isgalamido killed Zeh by MOD_RAILGUN";
    let quake_line = QuakeLogLine::from_str(line).unwrap();
    assert_eq!(quake_line.parse_kill_info(), None);
}

#[test]
fn quake_line_parse_kill_info_invalid_means_of_death() {
    let line = "2:29 Kill: 3 4 10: Isgalamido killed Zeh by Morte";
    let quake_line = QuakeLogLine::from_str(line).unwrap();
    let (killer_id, killed_id, means_of_death) = quake_line.parse_kill_info().unwrap();
    assert_eq!(killer_id, 3);
    assert_eq!(killed_id, 4);
    assert_eq!(means_of_death, MeansOfDeath::ModUnknown);
}

#[test]
fn get_action_returns_classified_action() {
    let quake_line = QuakeLogLine::from_str(KILL_INFO_OK).unwrap();
    assert_eq!(*quake_line.get_action(), QuakeAction::Kill);
}

#[test]
fn classify_is_idempotent_on_equal_lines() {
    let first = QuakeLogLine::from_str(KILL_INFO_OK);
    let second = QuakeLogLine::from_str(KILL_INFO_OK);
    assert_eq!(first, second);
    assert_eq!(QuakeLogLine::from_str(IGNORE_MARKER), QuakeLogLine::from_str(IGNORE_MARKER));
}

#[test]
fn divider_rejected_regardless_of_content() {
    let line = format!("12:00 InitGame: {} extra", IGNORE_MARKER);
    assert_eq!(QuakeLogLine::from_str(&line), None);
    let bare = format!("{}{}", IGNORE_MARKER, "-------");
    assert_eq!(QuakeLogLine::from_str(&bare), None);
}

#[test]
fn shutdown_token_accepted_with_and_without_colon() {
    assert_eq!(
        QuakeAction::from_str("ShutdownGame"),
        Some(QuakeAction::ShutdownGame)
    );
    assert_eq!(
        QuakeAction::from_str("ShutdownGame:"),
        Some(QuakeAction::ShutdownGame)
    );
    assert_eq!(QuakeAction::from_str("shutdowngame"), None);
    assert_eq!(QuakeAction::from_str("InitGame"), Some(QuakeAction::InitGame));
}

#[test]
fn means_of_death_vocabulary_and_fallback() {
    assert_eq!(MeansOfDeath::from_str("MOD_RAILGUN"), MeansOfDeath::ModRailgun);
    assert_eq!(MeansOfDeath::from_str("MOD_FALLING"), MeansOfDeath::ModFalling);
    assert_eq!(
        MeansOfDeath::from_str("MOD_TRIGGER_HURT"),
        MeansOfDeath::ModTriggerHurt
    );
    assert_eq!(MeansOfDeath::from_str("MOD_UNKNOWN"), MeansOfDeath::ModUnknown);
    assert_eq!(MeansOfDeath::from_str("Morte"), MeansOfDeath::ModUnknown);
    assert_eq!(MeansOfDeath::from_str(""), MeansOfDeath::ModUnknown);
}

#[test]
fn rename_id_with_plus_sign_and_overflow() {
    let plus = QuakeLogLine::from_str("3:49 ClientUserinfoChanged: +5 n\\Dono\\t\\0\\model\\sarge")
        .unwrap();
    assert_eq!(plus.parse_user_change_info(), Some((5, String::from("Dono"))));
    let big = QuakeLogLine::from_str(
        "3:49 ClientUserinfoChanged: 99999999999 n\\Dono\\t\\0\\model\\sarge",
    )
    .unwrap();
    assert_eq!(big.parse_user_change_info(), None);
}

#[test]
fn kill_cause_taken_after_last_by_marker() {
    let line = "2:29 Kill: 3 4 10: Killed by luck by MOD_LAVA";
    let quake_line = QuakeLogLine::from_str(line).unwrap();
    let (killer_id, killed_id, means_of_death) = quake_line.parse_kill_info().unwrap();
    assert_eq!(killer_id, 3);
    assert_eq!(killed_id, 4);
    assert_eq!(means_of_death, MeansOfDeath::ModLava);
}

#[test]
fn kill_without_by_marker_rejected() {
    let line = "2:29 Kill: 3 4 10: Isgalamido killed Zeh";
    let quake_line = QuakeLogLine::from_str(line).unwrap();
    assert_eq!(quake_line.parse_kill_info(), None);
}
