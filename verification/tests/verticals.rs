use std::sync::atomic::{AtomicU32, Ordering};
use std::sync::{Arc, Mutex};
use thclaws_core::error::Error;
use thclaws_core::verticals::{
    active_mode_name, enter_mode, exit_mode, list_modes, register_pack, vertical_pack_agent_dirs,
    vertical_pack_command_dirs, vertical_pack_mcp_servers, vertical_pack_skill_dirs,
    vertical_pack_system_prompt, vertical_pack_tools, vertical_pack_ui_panels, VerticalPack,
    VerticalPackRegistry, VerticalPackResources,
};

struct StubPack {
    name: &'static str,
    desc: &'static str,
    prompt: &'static str,
    enters: Arc<AtomicU32>,
    exits: Arc<AtomicU32>,
    enter_should_fail: bool,
    exit_should_fail: bool,
    calls: Arc<Mutex<Vec<String>>>,
}

impl StubPack {
    fn new(name: &'static str) -> Self {
        Self {
            name,
            desc: "stub pack for tests",
            prompt: "stub prompt",
            enters: Arc::new(AtomicU32::new(0)),
            exits: Arc::new(AtomicU32::new(0)),
            enter_should_fail: false,
            exit_should_fail: false,
            calls: Arc::new(Mutex::new(Vec::new())),
        }
    }
}

impl VerticalPack for StubPack {
    type McpServer = ();
    type ToolHandle = ();

    fn mode_name(&self) -> &str {
        self.name
    }
    fn description(&self) -> &str {
        self.desc
    }
    fn system_prompt(&self) -> String {
        self.prompt.to_string()
    }
    fn resources(&self) -> VerticalPackResources<(), ()> {
        VerticalPackResources {
            skill_dirs: vec![format!("/fake/{}/skills", self.name)],
            command_dirs: vec![format!("/fake/{}/cmds", self.name)],
            agent_dirs: vec![],
            mcp_servers: vec![],
            tools: vec![],
        }
    }
    fn on_enter(&mut self) -> Result<(), Error> {
        self.enters.fetch_add(1, Ordering::SeqCst);
        self.calls.lock().unwrap().push(format!("enter {}", self.name));
        if self.enter_should_fail {
            Err(Error::Config("boom".into()))
        } else {
            Ok(())
        }
    }
    fn on_exit(&mut self) -> Result<(), Error> {
        self.exits.fetch_add(1, Ordering::SeqCst);
        self.calls.lock().unwrap().push(format!("exit {}", self.name));
        if self.exit_should_fail {
            Err(Error::Config("exit boom".into()))
        } else {
            Ok(())
        }
    }
}

#[test]
fn register_and_list_is_sorted() {
    let mut reg = VerticalPackRegistry::new();
    reg.register(StubPack::new("zeta"));
    reg.register(StubPack::new("alpha"));
    reg.register(StubPack::new("mu"));
    let list: Vec<_> = reg.list().into_iter().map(|(n, _)| n).collect();
    assert_eq!(list, vec!["alpha", "mu", "zeta"]);
}

#[test]
fn enter_calls_on_enter_and_sets_active() {
    let pack = StubPack::new("gamedev");
    let enters = pack.enters.clone();
    let mut reg = VerticalPackRegistry::new();
    reg.register(pack);
    reg.enter("gamedev").unwrap();
    assert_eq!(reg.active_name(), Some("gamedev"));
    assert_eq!(enters.load(Ordering::SeqCst), 1);
}

#[test]
fn enter_unknown_mode_errors_and_leaves_state_untouched() {
    let mut reg = VerticalPackRegistry::new();
    reg.register(StubPack::new("gamedev"));
    reg.enter("gamedev").unwrap();
    let res = reg.enter("does-not-exist");
    assert!(res.is_err());
    assert_eq!(
        res.unwrap_err().message(),
        "vertical pack not registered: does-not-exist"
    );
    assert_eq!(reg.active_name(), Some("gamedev"));
}

#[test]
fn entering_new_mode_exits_prior() {
    let a = StubPack::new("a");
    let b = StubPack::new("b");
    let a_exits = a.exits.clone();
    let b_enters = b.enters.clone();
    let mut reg = VerticalPackRegistry::new();
    reg.register(a);
    reg.register(b);
    reg.enter("a").unwrap();
    reg.enter("b").unwrap();
    assert_eq!(reg.active_name(), Some("b"));
    assert_eq!(a_exits.load(Ordering::SeqCst), 1);
    assert_eq!(b_enters.load(Ordering::SeqCst), 1);
}

#[test]
fn failing_on_enter_leaves_no_active_mode() {
    let mut bad = StubPack::new("bad");
    bad.enter_should_fail = true;
    let mut reg = VerticalPackRegistry::new();
    reg.register(StubPack::new("good"));
    reg.register(bad);
    reg.enter("good").unwrap();
    let res = reg.enter("bad");
    assert!(res.is_err());
    assert_eq!(reg.active_name(), None);
}

#[test]
fn exit_clears_active() {
    let mut reg = VerticalPackRegistry::new();
    reg.register(StubPack::new("gamedev"));
    reg.enter("gamedev").unwrap();
    reg.exit().unwrap();
    assert_eq!(reg.active_name(), None);
}

#[test]
fn re_registering_replaces_prior_pack() {
    let mut reg = VerticalPackRegistry::new();
    let first = StubPack::new("gamedev");
    let mut second = StubPack::new("gamedev");
    second.desc = "second";
    reg.register(first);
    reg.register(second);
    let entry = reg.get("gamedev").unwrap();
    assert_eq!(entry.description(), "second");
    assert_eq!(reg.list().len(), 1);
}

#[test]
fn resources_flatten_when_active_and_empty_otherwise() {
    let mut reg = VerticalPackRegistry::new();
    reg.register(StubPack::new("gamedev"));
    assert!(reg.active().is_none());
    reg.enter("gamedev").unwrap();
    let res = reg.active().unwrap().resources();
    assert_eq!(res.skill_dirs.len(), 1);
    assert_eq!(res.command_dirs.len(), 1);
}

#[test]
fn accessors_read_the_active_pack_only() {
    let mut reg = VerticalPackRegistry::new();
    register_pack(&mut reg, StubPack::new("gamedev"));
    assert!(vertical_pack_skill_dirs(&reg).is_empty());
    assert!(vertical_pack_command_dirs(&reg).is_empty());
    assert_eq!(vertical_pack_system_prompt(&reg), None);
    assert_eq!(active_mode_name(&reg), None);
    enter_mode(&mut reg, "gamedev").unwrap();
    assert_eq!(active_mode_name(&reg), Some("gamedev".to_string()));
    assert_eq!(vertical_pack_skill_dirs(&reg), vec!["/fake/gamedev/skills".to_string()]);
    assert_eq!(vertical_pack_command_dirs(&reg), vec!["/fake/gamedev/cmds".to_string()]);
    assert!(vertical_pack_agent_dirs(&reg).is_empty());
    assert!(vertical_pack_mcp_servers(&reg).is_empty());
    assert!(vertical_pack_tools(&reg).is_empty());
    assert!(vertical_pack_ui_panels(&reg).is_empty());
    assert_eq!(vertical_pack_system_prompt(&reg), Some("stub prompt".to_string()));
    exit_mode(&mut reg).unwrap();
    assert!(vertical_pack_skill_dirs(&reg).is_empty());
    assert_eq!(
        list_modes(&reg),
        vec![("gamedev".to_string(), "stub pack for tests".to_string())]
    );
}

#[test]
fn reentering_same_mode_exits_then_enters_it() {
    let p = StubPack::new("a");
    let enters = p.enters.clone();
    let exits = p.exits.clone();
    let mut reg = VerticalPackRegistry::new();
    reg.register(p);
    reg.enter("a").unwrap();
    reg.enter("a").unwrap();
    assert_eq!(enters.load(Ordering::SeqCst), 2);
    assert_eq!(exits.load(Ordering::SeqCst), 1);
    assert_eq!(reg.active_name(), Some("a"));
}

#[test]
fn exit_with_no_mode_is_a_no_op() {
    let p = StubPack::new("a");
    let exits = p.exits.clone();
    let mut reg = VerticalPackRegistry::new();
    reg.register(p);
    reg.exit().unwrap();
    assert_eq!(exits.load(Ordering::SeqCst), 0);
    assert_eq!(reg.active_name(), None);
}

#[test]
fn failing_on_exit_does_not_block_the_next_mode() {
    let mut reg = VerticalPackRegistry::new();
    let mut broken = StubPack::new("broken");
    broken.exit_should_fail = true;
    let broken_exits = broken.exits.clone();
    let next = StubPack::new("next");
    let next_enters = next.enters.clone();
    reg.register(broken);
    reg.register(next);
    reg.enter("broken").unwrap();
    assert!(reg.enter("next").is_ok());
    assert_eq!(reg.active_name(), Some("next"));
    assert_eq!(broken_exits.load(Ordering::SeqCst), 1);
    assert_eq!(next_enters.load(Ordering::SeqCst), 1);
}

#[test]
fn exit_runs_the_failing_hook_and_still_succeeds() {
    let mut reg = VerticalPackRegistry::new();
    let mut broken = StubPack::new("broken");
    broken.exit_should_fail = true;
    let exits = broken.exits.clone();
    reg.register(broken);
    reg.enter("broken").unwrap();
    assert!(reg.exit().is_ok());
    assert_eq!(reg.active_name(), None);
    assert_eq!(exits.load(Ordering::SeqCst), 1);
    assert_eq!(reg.list().len(), 1);
}

#[test]
fn switching_runs_the_old_exit_before_the_new_enter() {
    let calls = Arc::new(Mutex::new(Vec::new()));
    let mut a = StubPack::new("a");
    a.calls = calls.clone();
    let mut b = StubPack::new("b");
    b.calls = calls.clone();
    let mut reg = VerticalPackRegistry::new();
    reg.register(a);
    reg.register(b);
    reg.enter("a").unwrap();
    reg.enter("b").unwrap();
    reg.exit().unwrap();
    assert_eq!(
        *calls.lock().unwrap(),
        vec!["enter a", "exit a", "enter b", "exit b"]
    );
}
