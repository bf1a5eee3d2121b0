use padflow::games::{builtin_games, scan_due, GameDetector, GameProfile, GameTuning};

fn detector() -> GameDetector<GameTuning> {
    let default = GameTuning {
        adaptive_polling: false,
        target_poll_hz: 250,
        batch_reports: false,
        battery_saver: false,
        ai_curve_optimization: false,
    };
    GameDetector::new(default, builtin_games())
}

fn custom(exe: &str, threshold: u8) -> GameProfile<GameTuning> {
    GameProfile {
        game_id: "custom".to_string(),
        executable_name: exe.to_string(),
        game_title: "Custom".to_string(),
        recommended_profile: GameTuning {
            adaptive_polling: true,
            target_poll_hz: 750,
            batch_reports: true,
            battery_saver: true,
            ai_curve_optimization: false,
        },
        ai_curve_optimization: false,
        battery_saver_recommended: true,
        battery_threshold: threshold,
        icon_path: None,
        last_played: None,
        play_time_seconds: 0,
    }
}

#[test]
fn builtin_database_lists_seven_games() {
    let games = builtin_games();
    assert_eq!(games.len(), 7);
    assert_eq!(games[1].executable_name, "cod_warzone.exe");
    assert_eq!(games[1].battery_threshold, 25);
    assert_eq!(games[2].recommended_profile.target_poll_hz, 500);
    assert!(games[6].battery_saver_recommended);
    assert_eq!(games[6].executable_name, "*.exe");
}

#[test]
fn profiles_are_found_by_lower_cased_name() {
    let d = detector();
    assert_eq!(d.get_profile_for_game("EldenRing.EXE").map(|t| t.target_poll_hz), Some(500));
    assert_eq!(d.get_profile_for_game("notepad.exe"), None);
    assert_eq!(d.get_default_profile().target_poll_hz, 250);
    assert_eq!(d.get_all_profiles().len(), 7);
}

#[test]
fn battery_saver_recommendations() {
    let d = detector();
    // Known game that does not ask for battery saver.
    assert!(!d.should_recommend_battery_saver("fortnite.exe", 5));
    // Unknown game: at or below 30 %.
    assert!(d.should_recommend_battery_saver("notepad.exe", 30));
    assert!(!d.should_recommend_battery_saver("notepad.exe", 31));
    let mut d = d;
    d.add_game_profile(custom("mygame.exe", 40));
    assert!(d.should_recommend_battery_saver("MyGame.exe", 40));
    assert!(!d.should_recommend_battery_saver("MyGame.exe", 41));
    d.remove_game_profile("MYGAME.EXE");
    assert!(d.get_profile_for_game("mygame.exe").is_none());
}

#[test]
fn added_profile_is_found_whatever_the_case() {
    let mut d = detector();
    d.add_game_profile(custom("MyGame.EXE", 40));
    assert_eq!(d.get_profile_for_game("MyGame.EXE").map(|t| t.target_poll_hz), Some(750));
    assert_eq!(d.get_profile_for_game("mygame.exe").map(|t| t.target_poll_hz), Some(750));
    let filed = d.get_all_profiles().into_iter().find(|g| g.game_id == "custom").unwrap();
    assert_eq!(filed.executable_name, "MyGame.EXE");
    // Adding it again under another case replaces the entry.
    d.add_game_profile(custom("MYGAME.exe", 10));
    assert_eq!(d.get_all_profiles().len(), 8);
    assert!(!d.should_recommend_battery_saver("mygame.exe", 11));
}

#[test]
fn running_games_are_detected_once_per_process() {
    let mut d = detector();
    assert!(d.record_running_process(42, "Apex_Legends.exe", 1000));
    assert!(d.record_running_process(42, "apex_legends.exe", 1001));
    assert!(!d.record_running_process(43, "explorer.exe", 1001));
    assert!(d.record_running_process(44, "fortnite.exe", 1002));
    let detected = d.get_detected_games();
    assert_eq!(detected.len(), 2);
    assert_eq!(detected[0].process_id, 42);
    assert_eq!(detected[0].detected_at, 1001);
    assert_eq!(detected[0].game_id, "apex_legends");
    assert_eq!(detected[0].executable_name, "apex_legends.exe");
    assert!(detected[0].profile_applied);
    let apex = d.get_all_profiles().into_iter().find(|g| g.game_id == "apex_legends").unwrap();
    assert_eq!(apex.play_time_seconds, 2);
    assert_eq!(apex.last_played, Some(1001));
    d.retain_running(&[44, 7]);
    assert_eq!(d.get_detected_games().len(), 1);
    assert_eq!(d.get_detected_games()[0].process_id, 44);
    d.clear_detected_games();
    assert!(d.get_detected_games().is_empty());
}

#[test]
fn auto_switch_and_scan_interval() {
    let mut d = detector();
    assert!(d.is_auto_switch_enabled());
    d.set_auto_switch_enabled(false);
    assert!(!d.is_auto_switch_enabled());
    assert!(!scan_due(999));
    assert!(scan_due(1000));
}
