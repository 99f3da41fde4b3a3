use thclaws_core::error::Error;
use thclaws_core::verticals::gamedev_tools::{
    configured_root, first_lower, is_game_dir, is_game_dir_name, mime_from_ext,
    preview_refused, preview_request, preview_server_reusable, preview_spawned, preview_ui_resource,
    preview_widget, render_preview_message, serve_permitted, GamedevExampleTool, PreviewAction,
    PreviewRefusal, GamedevListExamplesTool, GamedevScaffoldTool,
};

#[test]
fn first_lower_basic() {
    assert_eq!(first_lower("Minimal"), "minimal");
    assert_eq!(first_lower("SpaceShooter"), "spaceShooter");
    assert_eq!(first_lower(""), "");
}

#[test]
fn first_lower_unicode() {
    assert_eq!(first_lower("Éclair"), "éclair");
    assert_eq!(first_lower("İx"), "i\u{307}x");
}

#[test]
fn is_game_dir_filters_correctly() {
    // FakeGame: a directory with index.html and FakeGame.js
    assert!(is_game_dir(true, Some("FakeGame"), true, true));
    // _templates: an underscore-prefixed directory
    assert!(!is_game_dir(true, Some("_templates"), false, false));
    // Empty: a directory without the files
    assert!(!is_game_dir(true, Some("Empty"), false, false));
    // Nonexistent: not a directory at all
    assert!(!is_game_dir(false, Some("Nonexistent"), false, false));
}

#[test]
fn game_dir_names_excluded() {
    assert!(!is_game_dir_name("screenshots"));
    assert!(!is_game_dir_name("others"));
    assert!(!is_game_dir_name("_x"));
    assert!(is_game_dir_name("Breakout"));
    assert!(!is_game_dir(true, Some("others"), true, true));
    assert!(!is_game_dir(true, None, true, true));
}

#[test]
fn configured_root_ignores_blank() {
    assert_eq!(configured_root(None), None);
    assert_eq!(configured_root(Some("  \t")), None);
    assert_eq!(configured_root(Some(" /games ")), Some(" /games ".to_string()));
}

#[test]
fn listing_sorts_and_counts() {
    let t = GamedevListExamplesTool;
    let out = t.render(
        "/g",
        vec!["Sudoku".to_string(), "Breakout".to_string(), "SpaceShooter".to_string()],
    );
    assert_eq!(
        out,
        "3 reference games available:\n  - Breakout\n  - SpaceShooter\n  - Sudoku"
    );
    assert_eq!(t.render("/g", vec![]), "no game examples found under /g");
}

#[test]
fn example_assets_filtered_and_sorted() {
    let files = vec![
        "style.css".to_string(),
        "Pong.js".to_string(),
        "Ball.png".to_string(),
        "index.html".to_string(),
        "Ambient.wav".to_string(),
    ];
    assert_eq!(
        GamedevExampleTool::asset_names("Pong", files),
        vec!["Ambient.wav".to_string(), "Ball.png".to_string()]
    );
}

#[test]
fn example_source_layout() {
    let t = GamedevExampleTool;
    let out = t.render("Pong", "<html>", None, "class Pong {}", &vec![]);
    assert!(out.starts_with("=== Pong — example game source ===\n\n── index.html ─"));
    assert!(out.contains("\n<html>\n\n── style.css ─"));
    assert!(out.contains("─\n(no style.css)\n\n── Pong.js ─"));
    assert!(out.contains("─\nclass Pong {}\n\n── assets in this game dir ─"));
    assert!(out.ends_with("─\n(none)"));
    let out = t.render("Pong", "", Some("body{}"), "", &vec!["a.png".to_string()]);
    assert!(out.contains("─\nbody{}\n\n"));
    assert!(out.ends_with("─\n  - a.png"));
}

#[test]
fn scaffold_name_rules() {
    assert!(GamedevScaffoldTool::validate_name("MyShooter2").is_ok());
    assert_eq!(
        GamedevScaffoldTool::validate_name("").unwrap_err().message(),
        "'name' must start with an uppercase ASCII letter (PascalCase)"
    );
    assert_eq!(
        GamedevScaffoldTool::validate_name("myShooter").unwrap_err().message(),
        "'name' must start with an uppercase ASCII letter (PascalCase)"
    );
    assert_eq!(
        GamedevScaffoldTool::validate_name("My-Shooter").unwrap_err().message(),
        "'name' may only contain ASCII letters and digits"
    );
}

#[test]
fn scaffold_renames_template() {
    assert_eq!(GamedevScaffoldTool::file_name("Minimal.js", "Pong"), "Pong.js");
    assert_eq!(GamedevScaffoldTool::file_name("index.html", "Pong"), "index.html");
    assert_eq!(
        GamedevScaffoldTool::substitute(
            "class Minimal extends MinimalLibrary {}\nconst minimal = new Minimal();",
            "SpaceShooter"
        ),
        "class SpaceShooter extends SpaceShooterLibrary {}\nconst spaceShooter = new SpaceShooter();"
    );
}

#[test]
fn scaffold_report_lists_sorted_files() {
    let out = GamedevScaffoldTool::report(
        "Pong",
        "/g/Pong",
        vec!["style.css".to_string(), "Pong.js".to_string(), "index.html".to_string()],
        "",
    );
    assert!(out.starts_with(
        "scaffolded Pong at /g/Pong\nfiles created:\n  - Pong.js\n  - index.html\n  - style.css\n\nnext steps:\n"
    ));
    assert!(out.ends_with("3. call GamedevPreview(target_dir=/g/Pong) to view it live in chat"));
    assert!(out.contains("fill in TODOs in Pong.js"));
}

#[test]
fn scaffold_always_asks_for_approval() {
    assert!(GamedevScaffoldTool.requires_approval());
}

#[test]
fn preview_texts() {
    assert_eq!(
        render_preview_message("/g/Pong", 8123, "Pong", ""),
        "preview mounted for /g/Pong\n  server: http://127.0.0.1:8123/Pong/index.html"
    );
    let r = preview_ui_resource(0, "Pong");
    assert_eq!(r.uri, "gamedev://preview/Pong");
    assert!(r.html.contains("<iframe src=\"http://127.0.0.1:0/Pong/index.html\""));
    assert!(r.html.contains("html, body, iframe {\n"));
    assert_eq!(r.mime.as_deref(), Some("text/html;profile=mcp-app"));
    assert!(r.allow_same_origin);
}

#[test]
fn preview_server_reuse() {
    assert!(preview_server_reusable(Some("/g"), "/g"));
    assert!(!preview_server_reusable(Some("/g"), "/h"));
    assert!(!preview_server_reusable(None, "/g"));
}

#[test]
fn serve_containment() {
    assert!(serve_permitted("/srv/games/Pong/index.html", "/srv/games"));
    assert!(serve_permitted("/srv/games", "/srv/games"));
    assert!(!serve_permitted("/srv/gamesX/a.js", "/srv/games"));
    assert!(!serve_permitted("/etc/passwd", "/srv/games"));
    assert!(serve_permitted("/home/u/local/GameLibrary.js", "/srv/games"));
    assert!(serve_permitted("/anything", "/"));
}

#[test]
fn mime_types() {
    assert_eq!(mime_from_ext("HTML"), "text/html; charset=utf-8");
    assert_eq!(mime_from_ext("mjs"), "application/javascript; charset=utf-8");
    assert_eq!(mime_from_ext("woff2"), "font/woff2");
    assert_eq!(mime_from_ext("JpEg"), "image/jpeg");
    assert_eq!(mime_from_ext(""), "application/octet-stream");
    assert_eq!(mime_from_ext("exe"), "application/octet-stream");
}

#[test]
fn preview_keeps_server_and_port_for_the_same_parent() {
    assert!(matches!(preview_request(None, "/g", "Pong"), PreviewAction::Spawn));
    let m = preview_spawned("/g", 8123, "Pong");
    assert_eq!(m.serve_root, "/g");
    assert_eq!(m.port, 8123);
    match preview_request(Some(&m), "/g", "Snake") {
        PreviewAction::Keep(n) => {
            assert_eq!(n.serve_root, "/g");
            assert_eq!(n.port, 8123);
            assert_eq!(n.game_subdir, "Snake");
        }
        PreviewAction::Spawn => panic!("same parent must keep the server"),
    }
    assert!(matches!(preview_request(Some(&m), "/h", "Pong"), PreviewAction::Spawn));
}

#[test]
fn preview_widget_follows_the_mount() {
    assert!(preview_widget(None).is_none());
    let m = preview_spawned("/g", 9001, "Snake");
    let w = preview_widget(Some(&m)).unwrap();
    assert_eq!(w.uri, "gamedev://preview/Snake");
    assert!(w.html.contains("src=\"http://127.0.0.1:9001/Snake/index.html\""));
    assert_eq!(w.mime.as_deref(), Some("text/html;profile=mcp-app"));
    assert!(w.allow_same_origin);
}

#[test]
fn preview_refusals() {
    let text = |e: Error| match e {
        Error::Tool(m) => m,
        _ => panic!("expected a tool error"),
    };
    assert_eq!(text(preview_refused(PreviewRefusal::NotADirectory, "/x")), "/x is not a directory");
    assert_eq!(
        text(preview_refused(PreviewRefusal::NoIndex, "/x")),
        "/x has no index.html — nothing to preview yet"
    );
    assert_eq!(text(preview_refused(PreviewRefusal::NoParent, "/")), "target_dir has no parent");
    assert_eq!(text(preview_refused(PreviewRefusal::NoName, "/")), "target_dir has no name");
}
