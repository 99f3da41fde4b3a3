//! The `/gamedev` pack: building p5.js web games.
//!
//! The pack contributes a short system-prompt fragment and one skill,
//! whose body it carries. On entering the mode the skill is written to
//! `<cache root>/skills/gamedev/SKILL.md` and the pack then offers
//! `<cache root>/skills` as its skill directory. The cache root is
//! `$XDG_CACHE_HOME/thclaws/verticals/gamedev`, or
//! `~/.cache/thclaws/verticals/gamedev` when `XDG_CACHE_HOME` is not set.
//! The pack holds the two environment values it reads; the host that
//! performs the file write passes them in and writes the skill body at
//! `skill_file(root)` before `on_enter` records the root.
use vstd::prelude::*;
use crate::error::Error;
use crate::text::{join_path, path_join, views};
use crate::verticals::{
    exit_outcome, lemma_exit_keeps_listing, list_outcome, may_describe, ResourcesView, VerticalPack,
    VerticalPackRegistry, VerticalPackResources,
};

verus! {

pub const MODE_NAME: &'static str = "gamedev";

pub const DESCRIPTION: &'static str = "p5.js web game development";

pub const SKILL_NAME: &'static str = "gamedev";

pub const SYSTEM_PROMPT: &'static str = "You are in `/gamedev` mode. The user is building a web game with p5.js.

Read the bundled `gamedev` skill before writing any game code. It defines the project conventions (entity model, state location, time, input) that all generated code must follow.

If the project root has a `./SKILL.md`, treat it as the source of truth for game-specific conventions — the universal skill is the default, the project file overrides.

Game feel matters. After a visible change, take a snap of the canvas (when the snap tool is available) and confirm the render before continuing. Code that parses is not code that runs.";

/// The universal gamedev skill: p5.js conventions, recipe index,
/// workflow and anti-patterns.
pub const SKILL_BODY: &'static str = r#"---
name: gamedev
description: Universal conventions and recipe catalog for /gamedev sessions. Read before writing any game code.
---

# /gamedev — p5.js game development

You are working in a `/gamedev` session. The stack is **p5.js + vanilla JavaScript** loaded straight in the browser — no bundler, no TypeScript, no React. Games render to a single `<canvas>` mounted by p5 in `setup()`.

If `./SKILL.md` exists in the project root, read it first. Project conventions override this skill.

## Conventions (non-negotiable)

These exist so generated code stays consistent across one project. Do not deviate unless the user explicitly asks.

### Entity model
- Entities are plain objects produced by factory functions, not ES6 classes:
  `function makeBullet(x, y, vx, vy) { return { kind: 'bullet', x, y, vx, vy, alive: true }; }`.
- Behavior lives in free functions that switch on `kind`: `updateEntity(e, dt)`, `drawEntity(e)`. Not methods on the object.
- All entities live in one array: `state.entities`. Iterate to update and draw. Reap dead entities (`alive === false`) once per frame at the end of `update`, never mid-iteration.

### State location
- One module-scope `const state = { ... }` holds every game value: entities, score, scene, timers, input intents.
- Top-level `let` is reserved for genuinely re-bound references (e.g. `let player = null` assigned in `setup()`).
- No globals on `window` except what p5 itself defines.

### Coordinate system
- Origin top-left, +x right, +y down (canvas default).
- Use the p5 globals `width` / `height` for canvas size. Never hardcode pixel dimensions in game logic.

### Time and motion
- All movement is delta-based: `e.x += e.vx * dt`. `dt` is `deltaTime / 1000` (seconds).
- Frame-based counters are allowed only for cosmetic animation cycles (sprite frame index). Never for gameplay timing.

### Input
- Continuous input (move, hold-to-charge) → poll with `keyIsDown(LEFT_ARROW)` inside `update`.
- Discrete actions (jump, fire, pause) → set an intent flag from the `keyPressed()` event handler, consume it in `update`, clear it before returning.
- Never read input from `draw()`.

### File layout
- Start single-file: `index.html` loads p5 from CDN and `game.js`. `game.js` is the whole game.
- Split into `entities.js`, `scenes.js`, `input.js` only when `game.js` passes ~400 lines or the user asks.
- No build step. Files are loaded via `<script>` tags.

## Recipes

Recipes cover things that are easy to get wrong. Ask the bundled `gamedev` MCP server for the recipe text when you hit one of these:

- `juice` — screen shake, hit pause, particles, easing. Game-feel polish.
- `collision` — AABB, circle, swept collision, spatial partitioning.
- `state-machine` — scene transitions, entity state, pause/resume layering.
- `audio` — playback without latency, music vs sfx, mobile autoplay rules.
- `save-load` — `localStorage`, schema versioning, migration.

For everything not in this list (score display, basic movement, level data, UI text), follow the conventions above and write directly. Do not search for a recipe that does not exist.

## Workflow

1. Read `./SKILL.md` if it exists. It is the source of truth for project-specific conventions.
2. Scaffold from a template via the bundled `gamedev` MCP server (when present). Otherwise create `index.html` + `game.js` by hand following the file layout above.
3. Iterate. After any visible change, take a canvas snap (when the snap tool is available) and verify it looks right before continuing. Code that parses is not code that runs.
4. Keep changes small and shippable. A working game with three rough features beats a half-built game with ten.

## Anti-patterns

Do not, unless the user explicitly asks:

- Introduce TypeScript, JSX, Webpack/Vite/Parcel, npm packages, or test frameworks. p5.js is browser-loadable; keep it that way.
- Refactor factory-function entities into ES6 classes "for clarity". Project convention is plain objects.
- Call `requestAnimationFrame` yourself. p5 owns the loop.
- Add ECS, scene graphs, or other Unity-style abstractions to a small game. They cost more than they save below ~2000 lines.
"#;

/// The cache root chosen for the given override and environment values.
pub open spec fn cache_root_spec(
    root_override: Option<Seq<char>>,
    xdg_cache_home: Option<Seq<char>>,
    home_dir: Option<Seq<char>>,
) -> Result<Seq<char>, Seq<char>> {
    match root_override {
        Some(o) => Ok(o),
        None => {
            let base = match xdg_cache_home {
                Some(x) => Some(x),
                None => match home_dir {
                    Some(h) => Some(path_join(h, ".cache"@)),
                    None => None,
                },
            };
            match base {
                Some(b) => Ok(
                    path_join(path_join(path_join(b, "thclaws"@), "verticals"@), "gamedev"@),
                ),
                None => Err("no home directory; cannot cache gamedev skill"@),
            }
        },
    }
}

/// `<root>/skills`, the directory offered to skill discovery.
pub open spec fn skills_dir_spec(root: Seq<char>) -> Seq<char> {
    path_join(root, "skills"@)
}

/// `<root>/skills/gamedev/SKILL.md`, where the skill body is written.
pub open spec fn skill_file_spec(root: Seq<char>) -> Seq<char> {
    path_join(path_join(skills_dir_spec(root), "gamedev"@), "SKILL.md"@)
}

pub open spec fn opt_view(o: Option<String>) -> Option<Seq<char>> {
    match o {
        Some(s) => Some(s@),
        None => None,
    }
}

pub struct GameDevPack {
    /// Recorded by `on_enter` once the skill body is in place; kept
    /// across `exit` so entering again finds the same directory.
    cache_root: Option<String>,
    /// When set, used as the cache root in place of the environment.
    cache_root_override: Option<String>,
    /// `XDG_CACHE_HOME`, if the environment sets it.
    xdg_cache_home: Option<String>,
    /// The user's home directory, if there is one.
    home_dir: Option<String>,
}

impl GameDevPack {
    pub closed spec fn recorded_root(&self) -> Option<Seq<char>> {
        opt_view(self.cache_root)
    }

    /// The cache root this pack resolves to.
    pub closed spec fn resolved_root(&self) -> Result<Seq<char>, Seq<char>> {
        cache_root_spec(
            opt_view(self.cache_root_override),
            opt_view(self.xdg_cache_home),
            opt_view(self.home_dir),
        )
    }

    /// A pack that knows no environment values and has nothing recorded:
    /// until a root is given it resolves none, so its `on_enter` fails. The
    /// library reads no environment; a host builds the pack with
    /// `with_environment` from `XDG_CACHE_HOME` and the home directory.
    pub fn new() -> (r: Self)
        ensures
            r.recorded_root() is None,
            r.resolved_root() == cache_root_spec(None, None, None),
    {
        GameDevPack { cache_root: None, cache_root_override: None, xdg_cache_home: None, home_dir: None }
    }

    /// A pack that reads the cache root from `XDG_CACHE_HOME` and the home
    /// directory, as the host found them.
    pub fn with_environment(xdg_cache_home: Option<String>, home_dir: Option<String>) -> (r: Self)
        ensures
            r.recorded_root() is None,
            r.resolved_root() == cache_root_spec(None, opt_view(xdg_cache_home), opt_view(home_dir)),
    {
        GameDevPack { cache_root: None, cache_root_override: None, xdg_cache_home, home_dir }
    }

    /// A pack rooted at an explicit cache directory.
    pub fn with_cache_root(root: String) -> (r: Self)
        ensures
            r.recorded_root() is None,
            r.resolved_root() == Ok::<Seq<char>, Seq<char>>(root@),
    {
        GameDevPack { cache_root: None, cache_root_override: Some(root), xdg_cache_home: None, home_dir: None }
    }

    /// The on-disk cache root: the override, else
    /// `$XDG_CACHE_HOME/thclaws/verticals/gamedev`, else
    /// `<home>/.cache/thclaws/verticals/gamedev`; an error when neither
    /// value is there.
    pub fn resolve_cache_root(&self) -> (r: Result<String, Error>)
        ensures
            match r {
                Ok(root) => self.resolved_root() == Ok::<Seq<char>, Seq<char>>(root@),
                Err(Error::Config(m)) => self.resolved_root() == Err::<Seq<char>, Seq<char>>(m@),
                Err(_) => false,
            },
    {
        proof {
            reveal_strlit(".cache");
            reveal_strlit("thclaws");
            reveal_strlit("verticals");
            reveal_strlit("gamedev");
        }
        match &self.cache_root_override {
            Some(o) => return Ok(o.clone()),
            None => {},
        }
        let base = match &self.xdg_cache_home {
            Some(x) => x.clone(),
            None => match &self.home_dir {
                Some(h) => join_path(h.as_str(), ".cache"),
                None => {
                    return Err(
                        Error::Config(String::from_str("no home directory; cannot cache gamedev skill")),
                    )
                },
            },
        };
        let a = join_path(base.as_str(), "thclaws");
        let b = join_path(a.as_str(), "verticals");
        Ok(join_path(b.as_str(), MODE_NAME))
    }

    /// `<root>/skills/gamedev`, the directory to create before writing.
    pub fn skill_dir(root: &str) -> (r: String)
        ensures
            r@ == path_join(skills_dir_spec(root@), "gamedev"@),
    {
        proof {
            reveal_strlit("skills");
            reveal_strlit("gamedev");
        }
        let s = join_path(root, "skills");
        join_path(s.as_str(), SKILL_NAME)
    }

    /// `<root>/skills/gamedev/SKILL.md`, where the skill body goes.
    pub fn skill_file(root: &str) -> (r: String)
        ensures
            r@ == skill_file_spec(root@),
    {
        proof {
            reveal_strlit("SKILL.md");
        }
        let d = Self::skill_dir(root);
        join_path(d.as_str(), "SKILL.md")
    }

    /// The body written to `skill_file`.
    pub fn skill_body() -> (r: &'static str)
        ensures
            r@ == SKILL_BODY@,
    {
        SKILL_BODY
    }
}

/// Once a cache root is recorded the pack offers exactly one skill
/// directory, and the skill body's file is `gamedev/SKILL.md` inside it,
/// where skill discovery looks.
pub proof fn lemma_skill_file_in_offered_dir(p: GameDevPack)
    requires
        p.recorded_root() is Some,
    ensures
        p.spec_resources().0.len() == 1,
        skill_file_spec(p.recorded_root()->0) == path_join(
            path_join(p.spec_resources().0[0], "gamedev"@),
            "SKILL.md"@,
        ),
{
}

impl Default for GameDevPack {
    fn default() -> (r: Self)
        ensures
            r.recorded_root() is None,
            r.resolved_root() == cache_root_spec(None, None, None),
    {
        Self::new()
    }
}

impl VerticalPack for GameDevPack {
    type McpServer = ();

    type ToolHandle = ();

    open spec fn obeys_pack_laws(&self) -> bool {
        true
    }

    open spec fn spec_mode_name(&self) -> Seq<char> {
        MODE_NAME@
    }

    open spec fn spec_description(&self) -> Seq<char> {
        DESCRIPTION@
    }

    open spec fn spec_system_prompt(&self) -> Seq<char> {
        SYSTEM_PROMPT@
    }

    /// `<root>/skills` once a root is recorded, nothing before; no
    /// commands, agents, MCP servers or tools.
    open spec fn spec_resources(&self) -> ResourcesView<(), ()> {
        (
            match self.recorded_root() {
                Some(root) => seq![skills_dir_spec(root)],
                None => Seq::empty(),
            },
            Seq::empty(),
            Seq::empty(),
            Seq::empty(),
            Seq::empty(),
        )
    }

    /// Entering records the resolved cache root (the first one recorded
    /// stays) and succeeds; when no root can be resolved it fails with that
    /// configuration error and records nothing. The environment values
    /// themselves never change.
    open spec fn enter_effect(&self, after: &Self, r: Result<(), Error>) -> bool {
        &&& match r {
            Ok(_) => self.resolved_root() is Ok,
            Err(Error::Config(m)) => self.resolved_root() == Err::<Seq<char>, Seq<char>>(m@),
            Err(_) => false,
        }
        &&& after.resolved_root() == self.resolved_root()
        &&& after.recorded_root() == match self.recorded_root() {
            Some(root) => Some(root),
            None => match self.resolved_root() {
                Ok(root) => Some(root),
                Err(_) => None,
            },
        }
    }

    /// Leaving the mode succeeds and keeps everything, the recorded cache
    /// root included, so entering again offers the same directory.
    open spec fn exit_effect(&self, after: &Self, r: Result<(), Error>) -> bool {
        *after == *self && r is Ok
    }

    fn mode_name(&self) -> (r: &str) {
        MODE_NAME
    }

    fn description(&self) -> (r: &str) {
        DESCRIPTION
    }

    fn system_prompt(&self) -> (r: String) {
        String::from_str(SYSTEM_PROMPT)
    }

    fn resources(&self) -> (r: VerticalPackResources<(), ()>) {
        let mut res = VerticalPackResources::empty();
        match &self.cache_root {
            Some(root) => {
                proof {
                    reveal_strlit("skills");
                }
                res.skill_dirs.push(join_path(root.as_str(), "skills"));
                assert(views(res.skill_dirs@) =~= seq![skills_dir_spec(root@)]);
            },
            None => {
                assert(views(res.skill_dirs@) =~= Seq::<Seq<char>>::empty());
            },
        }
        assert(views(res.command_dirs@) =~= Seq::<Seq<char>>::empty());
        assert(views(res.agent_dirs@) =~= Seq::<Seq<char>>::empty());
        res
    }

    fn on_enter(&mut self) -> (r: Result<(), Error>) {
        match self.resolve_cache_root() {
            Ok(root) => {
                if self.cache_root.is_none() {
                    self.cache_root = Some(root);
                }
                Ok(())
            },
            Err(e) => Err(e),
        }
    }

    fn on_exit(&mut self) -> (r: Result<(), Error>) {
        Ok(())
    }
}

/// Leaving a mode of a registry of gamedev packs leaves the mode
/// listing as it was: the gamedev pack's `on_exit` changes nothing.
pub proof fn lemma_gamedev_exit_keeps_listing(
    a: VerticalPackRegistry<GameDevPack>,
    b: VerticalPackRegistry<GameDevPack>,
    r: Result<(), Error>,
    l: Seq<(String, String)>,
)
    requires
        a.wf(),
        exit_outcome(a, b, r),
    ensures
        list_outcome(a, l) <==> list_outcome(b, l),
{
    assert forall|p: GameDevPack, q: GameDevPack, e: Result<(), Error>, d: Seq<char>|
        #![trigger p.exit_effect(&q, e), may_describe(q, d)]
        #![trigger p.exit_effect(&q, e), may_describe(p, d)]
        p.exit_effect(&q, e) implies (may_describe(q, d) <==> may_describe(p, d)) by {}
    lemma_exit_keeps_listing(a, b, r, l);
}

} // verus!
