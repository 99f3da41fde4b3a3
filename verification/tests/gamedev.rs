use thclaws_core::verticals::gamedev::GameDevPack;
use thclaws_core::verticals::{VerticalPack, VerticalPackRegistry};

#[test]
fn pack_metadata() {
    let pack = GameDevPack::new();
    assert_eq!(pack.mode_name(), "gamedev");
    assert!(!pack.description().is_empty());
    assert!(pack.system_prompt().contains("gamedev"));
}

#[test]
fn resources_empty_before_enter() {
    let pack = GameDevPack::new();
    let res = pack.resources();
    assert!(res.skill_dirs.is_empty());
    assert!(res.mcp_servers.is_empty());
}

/// The library records the cache root and composes the paths; writing
/// `SKILL.md` there is the host's file work, so this checks that the
/// offered `skills` directory holds `gamedev/SKILL.md` where the body is
/// written, not that the file exists on disk.
#[test]
fn resources_after_enter_point_at_cached_skill_dir() {
    let mut pack = GameDevPack::with_cache_root("/tmp/cache".to_string());
    pack.on_enter().unwrap();
    let res = pack.resources();
    assert_eq!(res.skill_dirs.len(), 1);
    let dir = &res.skill_dirs[0];
    assert!(dir.ends_with("skills"));
    assert_eq!(
        GameDevPack::skill_file("/tmp/cache"),
        format!("{dir}/gamedev/SKILL.md")
    );
}

#[test]
fn on_enter_is_idempotent_and_keeps_first_root() {
    let mut pack = GameDevPack::with_cache_root("/tmp/a".to_string());
    pack.on_enter().unwrap();
    pack.on_enter().unwrap();
    assert_eq!(pack.resources().skill_dirs, vec!["/tmp/a/skills".to_string()]);
}

#[test]
fn skill_body_is_the_p5_skill() {
    assert!(GameDevPack::skill_body().contains("p5.js"));
}

#[test]
fn cache_root_prefers_xdg_then_home() {
    let p = GameDevPack::with_environment(Some("/x".to_string()), Some("/home/u".to_string()));
    assert_eq!(p.resolve_cache_root().ok().unwrap(), "/x/thclaws/verticals/gamedev");
    let p = GameDevPack::with_environment(None, Some("/home/u/".to_string()));
    assert_eq!(
        p.resolve_cache_root().ok().unwrap(),
        "/home/u/.cache/thclaws/verticals/gamedev"
    );
    let p = GameDevPack::with_environment(Some(String::new()), None);
    assert_eq!(p.resolve_cache_root().ok().unwrap(), "thclaws/verticals/gamedev");
}

#[test]
fn enter_without_home_fails_and_records_nothing() {
    let mut p = GameDevPack::new();
    let err = p.on_enter().unwrap_err();
    assert_eq!(err.message(), "no home directory; cannot cache gamedev skill");
    assert!(p.resources().skill_dirs.is_empty());
}

#[test]
fn skill_paths() {
    assert_eq!(GameDevPack::skill_dir("/c"), "/c/skills/gamedev");
    assert_eq!(GameDevPack::skill_file("/c/"), "/c/skills/gamedev/SKILL.md");
}

#[test]
fn pack_works_through_registry() {
    let mut reg = VerticalPackRegistry::new();
    reg.register(GameDevPack::with_cache_root("/tmp/reg".to_string()));
    reg.enter("gamedev").unwrap();
    let pack = reg.active().unwrap();
    let res = pack.resources();
    assert_eq!(res.skill_dirs.len(), 1);
    assert!(!pack.system_prompt().is_empty());
}
