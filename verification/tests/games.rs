use thclaws_core::error::Error;
use thclaws_core::games::{curated_games, find_curated_game, plan_play, render_games_list};

#[test]
fn curated_list_has_all_five_games() {
    let names: Vec<_> = curated_games().iter().map(|g| g.display_name).collect();
    assert_eq!(
        names,
        ["ThaiChecker", "Othello", "Chess", "IsometricMatch3", "VeggieMerge"]
    );
}

#[test]
fn render_lists_every_game_and_includes_readonly_notice() {
    let s = render_games_list();
    for g in curated_games() {
        assert!(s.contains(g.display_name), "missing {}", g.display_name);
        assert!(s.contains(g.description), "missing desc for {}", g.display_name);
    }
    assert!(s.contains("read-only"));
}

#[test]
fn render_pads_names_to_the_widest() {
    let s = render_games_list();
    let mut lines = s.lines();
    assert_eq!(lines.next(), Some("Playable reference games:"));
    assert_eq!(
        lines.next(),
        Some("  /game ThaiChecker      หมากฮอสไทย — เริ่ม 2 แถว เดินทแยง กินกระโดด")
    );
    assert_eq!(
        lines.next(),
        Some("  /game Othello          เกมพลิกหมาก 8×8 — กลยุทธ์ครองมุมและขอบ")
    );
    assert!(s.contains("  /game IsometricMatch3  จับคู่สามชิ้นในมุมมอง isometric\n"));
    assert!(s.ends_with(
        "\n\nGames are served read-only from the gamedev-mcp reference library — they cannot be modified during play."
    ));
}

#[test]
fn game_lookup_ignores_ascii_case() {
    assert_eq!(find_curated_game("othello"), Some(1));
    assert_eq!(find_curated_game("CHESS"), Some(2));
    assert_eq!(find_curated_game("veggiemerge"), Some(4));
    assert_eq!(find_curated_game("Chess "), None);
    assert_eq!(find_curated_game(""), None);
}

fn message(e: Error) -> String {
    e.message()
}

#[test]
fn play_rejects_unknown_game() {
    let err = match plan_play(&Vec::new(), "NoSuchGame") {
        Err(e) => message(e),
        Ok(_) => panic!("unknown game accepted"),
    };
    assert!(err.contains("unknown game"));
    assert_eq!(
        err,
        "unknown game 'NoSuchGame'. Available: ThaiChecker, Othello, Chess, IsometricMatch3, VeggieMerge"
    );
}

#[test]
fn play_reports_missing_mcp_when_registry_lacks_tool() {
    let names = vec!["Read".to_string(), "other__Tool".to_string()];
    let err = match plan_play(&names, "Othello") {
        Err(e) => message(e),
        Ok(_) => panic!("missing tool accepted"),
    };
    assert!(err.contains("gamedev MCP not connected"));
}

#[test]
fn play_picks_first_suffix_match_and_display_name() {
    let names = vec![
        "Read".to_string(),
        "gamedev_mcp__GamedevPlayReference".to_string(),
        "alias__GamedevPlayReference".to_string(),
    ];
    let t = plan_play(&names, "thaichecker").ok().unwrap();
    assert_eq!(t.qualified_tool_name, "gamedev_mcp__GamedevPlayReference");
    assert_eq!(t.display_name, "ThaiChecker");
    let t = plan_play(&names, "CHESS").ok().unwrap();
    assert_eq!(t.display_name, "Chess");
    let t = plan_play(&names, "IsometricMatch3").ok().unwrap();
    assert_eq!(t.display_name, "IsometricMatch3");
}

#[test]
fn play_tool_needs_the_separator() {
    let names = vec!["GamedevPlayReference".to_string()];
    assert!(plan_play(&names, "Chess").is_err());
}
