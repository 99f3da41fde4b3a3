//! Vertical packs: first-party modes that swap in a system-prompt
//! fragment, skill/command/agent directories, MCP servers, tools and UI
//! panels while they are active.
//!
//! Packs are kept under the mode name each gave when registered.
//! Exactly one mode is active at a time. Entering a mode looks the pack
//! up by name, runs the previous pack's `on_exit` (its failure does not
//! block the switch), clears the active mode, runs the new pack's
//! `on_enter`, and records the new mode only if that succeeded. The
//! registry's ghost hook log records the order in which hooks ran. The
//! resource accessors read the active pack only.
use vstd::prelude::*;
use crate::error::Error;
use crate::text::{
    views, chars_of, lemma_seq_less_irreflexive, lemma_seq_less_total,
    lemma_seq_less_transitive, seq_less, str_eq, chars_less,
};

pub mod gamedev;
pub mod gamedev_tools;

verus! {

/// What a pack's resources hold, as values: skill directories, command
/// directories, agent directories, MCP server configurations, tools.
pub type ResourcesView<S, T> = (Seq<Seq<char>>, Seq<Seq<char>>, Seq<Seq<char>>, Seq<S>, Seq<T>);

/// Resources a pack contributes while it is active. Directories are
/// paths; `S` is the MCP server configuration type and `T` the tool
/// handle type of the host that registers the pack.
pub struct VerticalPackResources<S, T> {
    /// Directories whose children are skill directories holding `SKILL.md`.
    pub skill_dirs: Vec<String>,
    /// Directories of `.md` command files.
    pub command_dirs: Vec<String>,
    /// Directories of agent definition `.md` files.
    pub agent_dirs: Vec<String>,
    /// MCP servers to spawn or connect to while the mode is active.
    pub mcp_servers: Vec<S>,
    /// In-process tools contributed by the pack.
    pub tools: Vec<T>,
}

impl<S, T> View for VerticalPackResources<S, T> {
    type V = ResourcesView<S, T>;

    open spec fn view(&self) -> ResourcesView<S, T> {
        (
            views(self.skill_dirs@),
            views(self.command_dirs@),
            views(self.agent_dirs@),
            self.mcp_servers@,
            self.tools@,
        )
    }
}

impl<S, T> VerticalPackResources<S, T> {
    /// No resources at all.
    pub fn empty() -> (r: Self)
        ensures
            r@.0.len() == 0,
            r@.1.len() == 0,
            r@.2.len() == 0,
            r@.3.len() == 0,
            r@.4.len() == 0,
    {
        VerticalPackResources {
            skill_dirs: Vec::new(),
            command_dirs: Vec::new(),
            agent_dirs: Vec::new(),
            mcp_servers: Vec::new(),
            tools: Vec::new(),
        }
    }
}

/// Where the frontend should mount a panel.
#[derive(Debug, Clone, Copy, PartialEq, Eq)]
pub enum UiPanelMount {
    SidebarLeft,
    SidebarRight,
    Bottom,
    /// Floating, user-positionable window.
    Floating,
}

/// A panel the frontend mounts while a pack is active; the library only
/// declares it.
#[derive(Debug, Clone)]
pub struct UiPanel {
    /// Stable hierarchical id, e.g. `gamedev.asset-browser`.
    pub id: String,
    /// Human-readable title.
    pub title: String,
    /// URL the frontend loads.
    pub content_url: String,
    /// Mount slot hint.
    pub mount: UiPanelMount,
}

/// A vertical pack. Every method but `on_enter` / `on_exit` is cheap and
/// free of side effects. A pack whose `obeys_pack_laws` holds answers
/// those methods as its spec functions say; of any other pack (one
/// written outside verified code keeps the defaults) the registry states
/// what the methods themselves returned, through `call_ensures`.
/// What the two lifecycle hooks do is stated by the pack's own
/// `enter_effect` / `exit_effect` relations, which by default say
/// nothing; a pack verified here defines them, and its hooks are checked
/// against them.
pub trait VerticalPack {
    /// The host's MCP server configuration type.
    type McpServer;

    /// The host's tool handle type.
    type ToolHandle;

    /// The cheap methods answer as the spec functions below say.
    open spec fn obeys_pack_laws(&self) -> bool {
        false
    }

    open spec fn spec_mode_name(&self) -> Seq<char> {
        Seq::empty()
    }

    open spec fn spec_description(&self) -> Seq<char> {
        Seq::empty()
    }

    open spec fn spec_system_prompt(&self) -> Seq<char> {
        Seq::empty()
    }

    open spec fn spec_resources(&self) -> ResourcesView<Self::McpServer, Self::ToolHandle> {
        (Seq::empty(), Seq::empty(), Seq::empty(), Seq::empty(), Seq::empty())
    }

    /// `on_enter`, run on `self`, may leave the pack as `after` and
    /// return `r`.
    open spec fn enter_effect(&self, after: &Self, r: Result<(), Error>) -> bool {
        true
    }

    /// `on_exit`, run on `self`, may leave the pack as `after` and
    /// return `r`.
    open spec fn exit_effect(&self, after: &Self, r: Result<(), Error>) -> bool {
        true
    }

    /// The name typed after the slash (`/gamedev` gives `gamedev`); the
    /// registry key.
    fn mode_name(&self) -> (r: &str)
        ensures
            self.obeys_pack_laws() ==> r@ == self.spec_mode_name(),
    ;

    /// One-line description for mode listings.
    fn description(&self) -> (r: &str)
        ensures
            self.obeys_pack_laws() ==> r@ == self.spec_description(),
    ;

    /// System-prompt fragment appended while the mode is active.
    fn system_prompt(&self) -> (r: String)
        ensures
            self.obeys_pack_laws() ==> r@ == self.spec_system_prompt(),
    ;

    /// Resources contributed while the mode is active.
    fn resources(&self) -> (r: VerticalPackResources<Self::McpServer, Self::ToolHandle>)
        ensures
            self.obeys_pack_laws() ==> r@ == self.spec_resources(),
    ;

    /// Panels the GUI mounts while the mode is active; none by default.
    fn ui_panels(&self) -> (r: Vec<UiPanel>)
        default_ensures
            r@.len() == 0,
    {
        Vec::new()
    }

    /// Runs when the mode becomes active; an error aborts the switch.
    fn on_enter(&mut self) -> (r: Result<(), Error>)
        ensures
            old(self).enter_effect(&*final(self), r),
    ;

    /// Runs when the mode is left; an error does not block the switch.
    fn on_exit(&mut self) -> (r: Result<(), Error>)
        ensures
            old(self).exit_effect(&*final(self), r),
    ;
}

// ───────────────────────── registry model ─────────────────────────

/// Which lifecycle hook ran.
pub enum HookKind {
    Enter,
    Exit,
}

/// The hooks a transition runs, in order, each with the key of the pack
/// it ran on: `on_exit` of the active pack (if any), then `on_enter` of
/// the named one when `entering` is given.
pub open spec fn transition_hooks(active: Option<Seq<char>>, entering: Option<Seq<char>>) -> Seq<
    (HookKind, Seq<char>),
> {
    let exits = match active {
        Some(p) => seq![(HookKind::Exit, p)],
        None => Seq::empty(),
    };
    match entering {
        Some(n) => exits.push((HookKind::Enter, n)),
        None => exits,
    }
}

/// `k` is a name `p.mode_name()` may return.
pub open spec fn may_name<P: VerticalPack>(p: P, k: Seq<char>) -> bool {
    exists|s: &str| #[trigger] call_ensures(P::mode_name, (&p,), s) && s@ == k
}

/// `d` is a description `p.description()` may return.
pub open spec fn may_describe<P: VerticalPack>(p: P, d: Seq<char>) -> bool {
    exists|s: &str| #[trigger] call_ensures(P::description, (&p,), s) && s@ == d
}

/// Keys strictly increase: sorted, no key twice.
pub open spec fn keys_increasing(keys: Seq<Seq<char>>) -> bool {
    forall|i: int, j: int| 0 <= i < j < keys.len() ==> seq_less(#[trigger] keys[i], #[trigger] keys[j])
}

/// The position of `n` among `keys` (meaningful when `n` is there).
pub open spec fn key_index(keys: Seq<Seq<char>>, n: Seq<char>) -> int {
    choose|i: int| 0 <= i < keys.len() && #[trigger] keys[i] == n
}

/// The pack stored under key `n`, `packs` being parallel to `keys`.
pub open spec fn lookup_at<P>(keys: Seq<Seq<char>>, packs: Seq<P>, n: Seq<char>) -> Option<P> {
    if keys.contains(n) {
        Some(packs[key_index(keys, n)])
    } else {
        None
    }
}

/// In increasing keys, the key at `k` is found at `k`.
pub proof fn lemma_key_index(keys: Seq<Seq<char>>, k: int)
    requires
        keys_increasing(keys),
        0 <= k < keys.len(),
    ensures
        keys.contains(keys[k]),
        key_index(keys, keys[k]) == k,
{
    let n = keys[k];
    assert(keys[k] == n);
    let c = key_index(keys, n);
    if c < k {
        lemma_seq_less_irreflexive(n);
        assert(seq_less(keys[c], keys[k]));
    } else if c > k {
        lemma_seq_less_irreflexive(n);
        assert(seq_less(keys[k], keys[c]));
    }
}

/// Changing the packs at positions `i` and `j` only leaves every other
/// key's pack as it was.
proof fn lemma_lookups_kept<P>(keys: Seq<Seq<char>>, a: Seq<P>, b: Seq<P>, i: int, j: int)
    requires
        a.len() == keys.len(),
        b.len() == keys.len(),
        forall|k: int| 0 <= k < keys.len() && k != i && k != j ==> #[trigger] b[k] == a[k],
    ensures
        forall|n: Seq<char>|
            n != keys[i] && n != keys[j] ==> #[trigger] lookup_at(keys, b, n) == lookup_at(keys, a, n),
{
    assert forall|n: Seq<char>| n != keys[i] && n != keys[j] implies #[trigger] lookup_at(keys, b, n)
        == lookup_at(keys, a, n) by {
        if keys.contains(n) {
            let c = key_index(keys, n);
            assert(keys[c] == n);
            assert(b[c] == a[c]);
        }
    }
}

/// What `register` guarantees of the registry before (`a`) and after
/// (`b`), `k` being the mode name the pack gave.
pub open spec fn register_outcome<P: VerticalPack>(
    a: VerticalPackRegistry<P>,
    b: VerticalPackRegistry<P>,
    pack: P,
    k: Seq<char>,
) -> bool {
    &&& b.wf()
    &&& b.lookup(k) == Some(pack)
    &&& forall|n: Seq<char>| n != k ==> #[trigger] b.lookup(n) == a.lookup(n)
    &&& forall|n: Seq<char>| #[trigger] b.has(n) <==> (a.has(n) || n == k)
    &&& b.keys().len() == a.keys().len() + if a.has(k) {
        0int
    } else {
        1int
    }
    &&& b.active_mode() == a.active_mode()
    &&& b.hook_log() == a.hook_log()
}

/// The hooks an entry into `name` ran, from the registry before (`a`) to
/// after (`b`) with result `r`: the active pack's `on_exit` (with any
/// result), then the named pack's `on_enter`, whose result is `r`. When
/// the named pack is the active one, its `on_enter` runs on the pack its
/// `on_exit` left.
pub open spec fn enter_steps<P: VerticalPack>(
    a: VerticalPackRegistry<P>,
    b: VerticalPackRegistry<P>,
    name: Seq<char>,
    r: Result<(), Error>,
) -> bool {
    match a.active_mode() {
        None => a.lookup(name)->0.enter_effect(&b.lookup(name)->0, r),
        Some(p) => if p == name {
            exists|m: P, e: Result<(), Error>|
                #[trigger] a.lookup(name)->0.exit_effect(&m, e) && m.enter_effect(
                    &b.lookup(name)->0,
                    r,
                )
        } else {
            &&& exists|e: Result<(), Error>| #[trigger] a.lookup(p)->0.exit_effect(&b.lookup(p)->0, e)
            &&& a.lookup(name)->0.enter_effect(&b.lookup(name)->0, r)
        },
    }
}

/// What `enter(name)` guarantees of the registry before (`a`) and after
/// (`b`) and of its result `r`.
pub open spec fn enter_outcome<P: VerticalPack>(
    a: VerticalPackRegistry<P>,
    b: VerticalPackRegistry<P>,
    name: Seq<char>,
    r: Result<(), Error>,
) -> bool {
    &&& b.wf()
    &&& !a.has(name) ==> {
        &&& b == a
        &&& r matches Err(Error::Config(m)) && m@ == "vertical pack not registered: "@ + name
    }
    &&& a.has(name) ==> {
        &&& (r is Ok ==> b.active_mode() == Some(name))
        &&& (r is Err ==> b.active_mode() is None)
        &&& b.keys() == a.keys()
        &&& b.hook_log() == a.hook_log() + transition_hooks(a.active_mode(), Some(name))
        &&& enter_steps(a, b, name, r)
        &&& forall|n: Seq<char>|
            n != name && Some(n) != a.active_mode() ==> #[trigger] b.lookup(n) == a.lookup(n)
    }
}

/// What `exit` guarantees of the registry before (`a`) and after (`b`)
/// and of its result `r`: the active pack, if any, ran `on_exit` (with
/// any result); nothing else changed but the active mode, now none.
pub open spec fn exit_outcome<P: VerticalPack>(
    a: VerticalPackRegistry<P>,
    b: VerticalPackRegistry<P>,
    r: Result<(), Error>,
) -> bool {
    &&& b.wf()
    &&& r is Ok
    &&& b.active_mode() is None
    &&& b.keys() == a.keys()
    &&& b.hook_log() == a.hook_log() + transition_hooks(a.active_mode(), None)
    &&& forall|n: Seq<char>| Some(n) != a.active_mode() ==> #[trigger] b.lookup(n) == a.lookup(n)
    &&& match a.active_mode() {
        Some(p) => exists|e: Result<(), Error>| #[trigger] a.lookup(p)->0.exit_effect(&b.lookup(p)->0, e),
        None => b.packs() == a.packs(),
    }
}

/// What `list` returns for a registry.
pub open spec fn list_outcome<P: VerticalPack>(
    reg: VerticalPackRegistry<P>,
    r: Seq<(String, String)>,
) -> bool {
    &&& r.len() == reg.keys().len()
    &&& forall|i: int|
        0 <= i < r.len() ==> (#[trigger] r[i]).0@ == reg.keys()[i] && may_describe(
            reg.packs()[i],
            r[i].1@,
        )
    &&& forall|i: int, j: int| 0 <= i < j < r.len() ==> seq_less(#[trigger] r[i].0@, #[trigger] r[j].0@)
    &&& forall|n: Seq<char>| reg.has(n) <==> exists|i: int| 0 <= i < r.len() && #[trigger] r[i].0@ == n
}

/// Registry of packs, each under the mode name it gave when registered,
/// plus the active mode name. Keys are kept in order, one pack per key.
pub struct VerticalPackRegistry<P> {
    names: Vec<String>,
    packs: Vec<P>,
    active: Option<String>,
    /// Every hook run so far, in order.
    hooks: Ghost<Seq<(HookKind, Seq<char>)>>,
}

impl<P: VerticalPack> VerticalPackRegistry<P> {
    /// The keys, in order.
    pub closed spec fn keys(&self) -> Seq<Seq<char>> {
        views(self.names@)
    }

    /// The registered packs, parallel to the keys.
    pub closed spec fn packs(&self) -> Seq<P> {
        self.packs@
    }

    /// The active mode name.
    pub closed spec fn active_mode(&self) -> Option<Seq<char>> {
        match self.active {
            Some(s) => Some(s@),
            None => None,
        }
    }

    /// Every lifecycle hook the registry has run, in order, with the key
    /// of the pack it ran on.
    pub closed spec fn hook_log(&self) -> Seq<(HookKind, Seq<char>)> {
        self.hooks@
    }

    /// A pack is registered under `n`.
    pub open spec fn has(&self, n: Seq<char>) -> bool {
        self.keys().contains(n)
    }

    /// The pack registered under `n`.
    pub open spec fn lookup(&self, n: Seq<char>) -> Option<P> {
        lookup_at(self.keys(), self.packs(), n)
    }

    /// The active pack.
    pub open spec fn active_pack(&self) -> Option<P> {
        match self.active_mode() {
            Some(n) => self.lookup(n),
            None => None,
        }
    }

    /// One pack per key, keys in order; the active mode, if any, is a key.
    pub open spec fn wf(&self) -> bool {
        &&& self.keys().len() == self.packs().len()
        &&& keys_increasing(self.keys())
        &&& (self.active_mode() matches Some(n) ==> self.has(n))
    }

    /// An empty registry with no active mode.
    pub fn new() -> (r: Self)
        ensures
            r.wf(),
            r.keys().len() == 0,
            r.active_mode() is None,
            r.hook_log().len() == 0,
            forall|n: Seq<char>| !r.has(n),
    {
        let r = VerticalPackRegistry {
            names: Vec::new(),
            packs: Vec::new(),
            active: None,
            hooks: Ghost(Seq::empty()),
        };
        assert(r.keys() =~= Seq::<Seq<char>>::empty());
        r
    }

    /// The position of the key `name`.
    fn find_index(&self, name: &str) -> (r: Option<usize>)
        ensures
            match r {
                Some(i) => i < self.keys().len() && self.keys()[i as int] == name@,
                None => !self.has(name@),
            },
    {
        let mut i: usize = 0;
        while i < self.names.len()
            invariant
                i <= self.names@.len(),
                forall|k: int| 0 <= k < i ==> #[trigger] self.keys()[k] != name@,
            decreases self.names.len() - i,
        {
            if str_eq(self.names[i].as_str(), name) {
                return Some(i);
            }
            i = i + 1;
        }
        None
    }

    /// Insert a pack under the mode name it gives. A pack already
    /// registered under that name is replaced; others stay; the active
    /// mode is unchanged.
    pub fn register(&mut self, pack: P)
        requires
            old(self).wf(),
        ensures
            exists|k: Seq<char>|
                #[trigger] register_outcome(*old(self), *final(self), pack, k) && may_name(pack, k),
    {
        let ghost a = *self;
        let ghost old_keys = self.keys();
        let ghost old_packs = self.packs@;
        let given = pack.mode_name();
        proof {
            assert(call_ensures(P::mode_name, (&pack,), given));
            assert(may_name(pack, given@));
        }
        let key = String::from_str(given);
        let name = chars_of(key.as_str());
        let ghost nm = key@;
        // first position whose key is not below `name`
        let mut i: usize = 0;
        while i < self.names.len() && chars_less(&chars_of(self.names[i].as_str()), &name)
            invariant
                i <= self.names@.len(),
                views(self.names@) == old_keys,
                name@ == nm,
                forall|k: int| 0 <= k < i ==> seq_less(#[trigger] old_keys[k], nm),
            decreases self.names.len() - i,
        {
            i = i + 1;
        }
        let replace = i < self.names.len() && str_eq(self.names[i].as_str(), key.as_str());
        if replace {
            self.packs.remove(i);
            self.packs.insert(i, pack);
        } else {
            self.packs.insert(i, pack);
            self.names.insert(i, key);
        }
        proof {
            let new_keys = self.keys();
            let new_packs = self.packs@;
            if replace {
                assert(new_packs =~= old_packs.update(i as int, pack));
                assert(new_keys == old_keys);
            } else {
                assert(new_packs =~= old_packs.insert(i as int, pack));
                assert(new_keys =~= old_keys.insert(i as int, nm));
            }
            // the keys from position i on are above `name`
            assert forall|k: int|
                i <= k < old_keys.len() && !(replace && k == i) implies seq_less(
                nm,
                #[trigger] old_keys[k],
            ) by {
                let ni = old_keys[i as int];
                lemma_seq_less_total(ni, nm);
                if replace {
                    assert(seq_less(ni, old_keys[k]));
                } else if k != i {
                    assert(seq_less(ni, old_keys[k]));
                    if seq_less(nm, ni) {
                        lemma_seq_less_transitive(nm, ni, old_keys[k]);
                    }
                }
            }
            // where each old entry went
            let pos = |k: int|
                if k < i || replace {
                    k
                } else {
                    k + 1
                };
            assert forall|k: int| 0 <= k < old_keys.len() implies 0 <= #[trigger] pos(k)
                < new_keys.len() && new_keys[pos(k)] == old_keys[k] && (!(replace && k == i)
                ==> new_packs[pos(k)] == old_packs[k]) by {}
            assert(new_keys[i as int] == nm && new_packs[i as int] == pack);
            assert(keys_increasing(new_keys)) by {
                assert forall|x: int, y: int| 0 <= x < y < new_keys.len() implies seq_less(
                    #[trigger] new_keys[x],
                    #[trigger] new_keys[y],
                ) by {
                    if !replace && x == i {
                        assert(new_keys[y] == old_keys[y - 1]);
                    } else if !replace && y == i {
                        assert(new_keys[x] == old_keys[x]);
                    } else {
                        let ox = if x < i || replace { x } else { x - 1 };
                        let oy = if y < i || replace { y } else { y - 1 };
                        assert(new_keys[x] == old_keys[ox]);
                        assert(new_keys[y] == old_keys[oy]);
                    }
                }
            }
            lemma_key_index(new_keys, i as int);
            assert(a.has(nm) == replace) by {
                if a.has(nm) && !replace {
                    let c = key_index(old_keys, nm);
                    assert(old_keys[c] == nm);
                    lemma_seq_less_irreflexive(nm);
                    if c < i {
                    } else {
                        assert(seq_less(nm, old_keys[c]));
                    }
                }
                if replace {
                    assert(old_keys[i as int] == nm);
                }
            }
            assert forall|n: Seq<char>| n != nm implies #[trigger] lookup_at(new_keys, new_packs, n)
                == lookup_at(old_keys, old_packs, n) && (new_keys.contains(n)
                == old_keys.contains(n)) by {
                if old_keys.contains(n) {
                    let k = key_index(old_keys, n);
                    assert(old_keys[k] == n);
                    lemma_key_index(old_keys, k);
                    assert(new_keys[pos(k)] == n);
                    assert(!(replace && k == i));
                    lemma_key_index(new_keys, pos(k));
                } else {
                    if new_keys.contains(n) {
                        let k = key_index(new_keys, n);
                        assert(new_keys[k] == n);
                        if replace {
                            assert(old_keys[k] == n);
                        } else if k < i {
                            assert(old_keys[k] == n);
                        } else if k > i {
                            assert(old_keys[k - 1] == n);
                        }
                    }
                }
            }
            assert forall|n: Seq<char>| #[trigger]
                new_keys.contains(n) <==> (old_keys.contains(n) || n == nm) by {
                if n != nm {
                    assert(lookup_at(new_keys, new_packs, n) == lookup_at(old_keys, old_packs, n)
                        && (new_keys.contains(n) == old_keys.contains(n)));
                }
            }
            assert(register_outcome(a, *self, pack, nm));
        }
    }

    /// The pack registered under `mode_name`.
    pub fn get(&self, mode_name: &str) -> (r: Option<&P>)
        requires
            self.wf(),
        ensures
            match r {
                Some(p) => self.lookup(mode_name@) == Some(*p),
                None => self.lookup(mode_name@) is None,
            },
    {
        match self.find_index(mode_name) {
            Some(i) => {
                proof {
                    lemma_key_index(self.keys(), i as int);
                }
                Some(&self.packs[i])
            },
            None => None,
        }
    }

    /// `(mode_name, description)` of every registered pack, in mode name
    /// order.
    pub fn list(&self) -> (r: Vec<(String, String)>)
        requires
            self.wf(),
        ensures
            list_outcome(*self, r@),
    {
        let mut out: Vec<(String, String)> = Vec::new();
        let mut i: usize = 0;
        while i < self.names.len()
            invariant
                self.wf(),
                i <= self.names@.len(),
                out@.len() == i,
                forall|k: int|
                    0 <= k < i ==> (#[trigger] out@[k]).0@ == self.keys()[k] && may_describe(
                        self.packs@[k],
                        out@[k].1@,
                    ),
            decreases self.names.len() - i,
        {
            let p = &self.packs[i];
            let d = p.description();
            proof {
                assert(call_ensures(P::description, (p,), d));
                assert(may_describe(self.packs@[i as int], d@));
            }
            out.push((String::from_str(self.names[i].as_str()), String::from_str(d)));
            i = i + 1;
        }
        proof {
            assert forall|x: int, y: int| 0 <= x < y < out@.len() implies seq_less(
                #[trigger] out@[x].0@,
                #[trigger] out@[y].0@,
            ) by {
                assert(seq_less(self.keys()[x], self.keys()[y]));
            }
            assert forall|n: Seq<char>|
                self.has(n) <==> exists|k: int| 0 <= k < out@.len() && #[trigger] out@[k].0@ == n by {
                if self.has(n) {
                    let k = key_index(self.keys(), n);
                    assert(out@[k].0@ == n);
                }
                if exists|k: int| 0 <= k < out@.len() && #[trigger] out@[k].0@ == n {
                    let k = choose|k: int| 0 <= k < out@.len() && #[trigger] out@[k].0@ == n;
                    assert(self.keys()[k] == n);
                }
            }
        }
        out
    }

    /// The active pack.
    pub fn active(&self) -> (r: Option<&P>)
        requires
            self.wf(),
        ensures
            match r {
                Some(p) => self.active_pack() == Some(*p),
                None => self.active_pack() is None,
            },
    {
        match &self.active {
            Some(n) => self.get(n.as_str()),
            None => None,
        }
    }

    /// The active mode name.
    pub fn active_name(&self) -> (r: Option<&str>)
        ensures
            match r {
                Some(s) => self.active_mode() == Some(s@),
                None => self.active_mode() is None,
            },
    {
        match &self.active {
            Some(n) => Some(n.as_str()),
            None => None,
        }
    }

    /// Runs `on_exit` (if `exit`) or `on_enter` on the pack at index `i`.
    fn run_hook(&mut self, i: usize, exit: bool) -> (r: Result<(), Error>)
        requires
            i < old(self).packs().len(),
        ensures
            final(self).packs().len() == old(self).packs().len(),
            forall|k: int|
                0 <= k < old(self).packs().len() && k != i ==> #[trigger] final(self).packs()[k]
                    == old(self).packs()[k],
            final(self).keys() == old(self).keys(),
            final(self).active_mode() == old(self).active_mode(),
            final(self).hook_log() == old(self).hook_log().push(
                (
                    if exit {
                        HookKind::Exit
                    } else {
                        HookKind::Enter
                    },
                    old(self).keys()[i as int],
                ),
            ),
            exit ==> old(self).packs()[i as int].exit_effect(&final(self).packs()[i as int], r),
            !exit ==> old(self).packs()[i as int].enter_effect(&final(self).packs()[i as int], r),
    {
        let mut p = self.packs.remove(i);
        let r = if exit {
            p.on_exit()
        } else {
            p.on_enter()
        };
        self.packs.insert(i, p);
        let ghost key = self.keys()[i as int];
        self.hooks = Ghost(
            self.hooks@.push(
                (
                    if exit {
                        HookKind::Exit
                    } else {
                        HookKind::Enter
                    },
                    key,
                ),
            ),
        );
        r
    }

    /// Transition to `mode_name`: the active pack (if any) gets `on_exit`,
    /// whose failure is ignored; the mode is cleared; the named pack gets
    /// `on_enter`, and becomes active only if that succeeded. An unknown
    /// name is refused and leaves the registry as it was.
    pub fn enter(&mut self, mode_name: &str) -> (r: Result<(), Error>)
        requires
            old(self).wf(),
        ensures
            enter_outcome(*old(self), *final(self), mode_name@, r),
    {
        let ghost a = *self;
        let idx = match self.find_index(mode_name) {
            Some(i) => i,
            None => {
                let mut msg = String::from_str("vertical pack not registered: ");
                msg.append(mode_name);
                return Err(Error::Config(msg));
            },
        };
        proof {
            lemma_key_index(a.keys(), idx as int);
        }
        let mut prev_idx: Option<usize> = None;
        if let Some(prev) = &self.active {
            prev_idx = self.find_index(prev.as_str());
        }
        let ghost mut exit_result: Result<(), Error> = Ok(());
        if let Some(j) = prev_idx {
            let e = self.run_hook(j, true);
            proof {
                exit_result = e;
                lemma_key_index(a.keys(), j as int);
            }
        }
        let ghost mid = self.packs@;
        self.active = None;
        let r = self.run_hook(idx, false);
        if r.is_ok() {
            self.active = Some(String::from_str(mode_name));
        }
        proof {
            let b = *self;
            assert(b.keys() == a.keys());
            lemma_key_index(b.keys(), idx as int);
            let j = match prev_idx {
                Some(j) => j as int,
                None => idx as int,
            };
            lemma_lookups_kept(a.keys(), a.packs(), b.packs(), idx as int, j);
            assert(b.hook_log() =~= a.hook_log() + transition_hooks(a.active_mode(), Some(mode_name@)));
            match a.active_mode() {
                None => {
                    assert(mid == a.packs());
                },
                Some(p) => {
                    lemma_key_index(b.keys(), j);
                    if p == mode_name@ {
                        assert(j == idx);
                        assert(a.lookup(mode_name@)->0.exit_effect(&mid[j], exit_result));
                    } else {
                        assert(j != idx);
                        assert(a.lookup(p)->0.exit_effect(&b.lookup(p)->0, exit_result));
                    }
                },
            }
        }
        r
    }

    /// Leave the current mode: the active pack (if any) gets `on_exit`,
    /// whose failure is ignored, and no mode is active afterwards.
    pub fn exit(&mut self) -> (r: Result<(), Error>)
        requires
            old(self).wf(),
        ensures
            exit_outcome(*old(self), *final(self), r),
    {
        let ghost a = *self;
        let mut prev_idx: Option<usize> = None;
        if let Some(prev) = &self.active {
            prev_idx = self.find_index(prev.as_str());
        }
        let ghost mut exit_result: Result<(), Error> = Ok(());
        if let Some(j) = prev_idx {
            let e = self.run_hook(j, true);
            proof {
                exit_result = e;
            }
        }
        self.active = None;
        proof {
            let b = *self;
            match prev_idx {
                Some(j) => {
                    lemma_key_index(a.keys(), j as int);
                    lemma_lookups_kept(a.keys(), a.packs(), b.packs(), j as int, j as int);
                    assert(a.lookup(a.keys()[j as int])->0.exit_effect(
                        &b.lookup(a.keys()[j as int])->0,
                        exit_result,
                    ));
                    assert(b.hook_log() =~= a.hook_log() + transition_hooks(a.active_mode(), None));
                },
                None => {
                    assert(b.packs() == a.packs());
                    assert(b.hook_log() =~= a.hook_log() + transition_hooks(a.active_mode(), None));
                },
            }
        }
        Ok(())
    }
}

// ───────────────────────── laws ─────────────────────────

/// Entering any mode and then leaving it ends with no active mode and
/// the same modes registered, whether or not the entry succeeded; after a
/// successful entry the hooks ran in the order exit (of the mode active
/// before), enter, exit.
pub proof fn lemma_enter_then_exit_leaves_no_mode<P: VerticalPack>(
    a: VerticalPackRegistry<P>,
    b: VerticalPackRegistry<P>,
    c: VerticalPackRegistry<P>,
    name: Seq<char>,
    r1: Result<(), Error>,
    r2: Result<(), Error>,
)
    requires
        a.wf(),
        enter_outcome(a, b, name, r1),
        exit_outcome(b, c, r2),
    ensures
        c.wf(),
        c.active_mode() is None,
        c.keys() == a.keys(),
        a.has(name) && r1 is Ok ==> c.hook_log() == a.hook_log() + transition_hooks(
            a.active_mode(),
            Some(name),
        ).push((HookKind::Exit, name)),
{
    if a.has(name) && r1 is Ok {
        assert(c.hook_log() =~= a.hook_log() + transition_hooks(a.active_mode(), Some(name)).push(
            (HookKind::Exit, name),
        ));
    }
}

/// A pack just registered can be entered: the only way that entry fails
/// is the pack's own `on_enter` refusing, which leaves no mode active;
/// otherwise its mode is the active one. Unless the mode was already
/// active, `on_enter` ran on the very pack registered.
pub proof fn lemma_registered_pack_can_be_entered<P: VerticalPack>(
    a: VerticalPackRegistry<P>,
    b: VerticalPackRegistry<P>,
    c: VerticalPackRegistry<P>,
    pack: P,
    k: Seq<char>,
    r: Result<(), Error>,
)
    requires
        a.wf(),
        register_outcome(a, b, pack, k),
        enter_outcome(b, c, k, r),
    ensures
        c.wf(),
        r is Ok ==> c.active_mode() == Some(k) && c.active_pack() is Some,
        r is Err ==> c.active_mode() is None && c.active_pack() is None,
        b.active_mode() != Some(k) ==> pack.enter_effect(&c.lookup(k)->0, r),
{
    assert(b.has(k));
    if r is Ok {
        assert(c.has(k));
    }
}

/// Registering adds one row to the listing for a new mode name and none
/// for a name already there: the listing has one row per name.
pub proof fn lemma_register_lists_each_name_once<P: VerticalPack>(
    a: VerticalPackRegistry<P>,
    b: VerticalPackRegistry<P>,
    pack: P,
    k: Seq<char>,
    l1: Seq<(String, String)>,
    l2: Seq<(String, String)>,
)
    requires
        a.wf(),
        register_outcome(a, b, pack, k),
        list_outcome(a, l1),
        list_outcome(b, l2),
    ensures
        l2.len() == l1.len() + if a.has(k) {
            0int
        } else {
            1int
        },
        exists|i: int| 0 <= i < l2.len() && #[trigger] l2[i].0@ == k,
{
    assert(b.has(k));
}

/// For packs whose `on_exit` leaves the descriptions they may give as
/// they were, leaving the mode leaves the listing as it was.
pub proof fn lemma_exit_keeps_listing<P: VerticalPack>(
    a: VerticalPackRegistry<P>,
    b: VerticalPackRegistry<P>,
    r: Result<(), Error>,
    l: Seq<(String, String)>,
)
    requires
        a.wf(),
        exit_outcome(a, b, r),
        forall|p: P, q: P, e: Result<(), Error>, d: Seq<char>|
            #![trigger p.exit_effect(&q, e), may_describe(q, d)]
            #![trigger p.exit_effect(&q, e), may_describe(p, d)]
            p.exit_effect(&q, e) ==> (may_describe(q, d) <==> may_describe(p, d)),
    ensures
        list_outcome(a, l) <==> list_outcome(b, l),
{
    assert forall|i: int, d: Seq<char>| 0 <= i < a.keys().len() implies #[trigger] may_describe(
        b.packs()[i],
        d,
    ) == may_describe(a.packs()[i], d) by {
        let n = a.keys()[i];
        lemma_key_index(a.keys(), i);
        if Some(n) == a.active_mode() {
            let e = choose|e: Result<(), Error>| #[trigger] a.lookup(n)->0.exit_effect(&b.lookup(n)->0, e);
            assert(a.packs()[i].exit_effect(&b.packs()[i], e));
            assert(may_describe(b.packs()[i], d) == may_describe(a.packs()[i], d));
        } else {
            assert(b.lookup(n) == a.lookup(n));
        }
    }
    assert(b.keys() == a.keys());
    if list_outcome(a, l) {
        assert forall|i: int| 0 <= i < l.len() implies (#[trigger] l[i]).0@ == b.keys()[i]
            && may_describe(b.packs()[i], l[i].1@) by {
            assert(may_describe(b.packs()[i], l[i].1@) == may_describe(a.packs()[i], l[i].1@));
        }
        assert forall|n: Seq<char>| b.has(n) <==> exists|i: int| 0 <= i < l.len() && #[trigger] l[i].0@
            == n by {
            assert(b.has(n) == a.has(n));
        }
    }
    if list_outcome(b, l) {
        assert forall|i: int| 0 <= i < l.len() implies (#[trigger] l[i]).0@ == a.keys()[i]
            && may_describe(a.packs()[i], l[i].1@) by {
            assert(may_describe(b.packs()[i], l[i].1@) == may_describe(a.packs()[i], l[i].1@));
        }
        assert forall|n: Seq<char>| a.has(n) <==> exists|i: int| 0 <= i < l.len() && #[trigger] l[i].0@
            == n by {
            assert(b.has(n) == a.has(n));
        }
    }
}

// ───────────────────────── accessors ─────────────────────────
//
// The host keeps one registry for the whole process and hands it to
// these functions; each reads or changes that registry only.

/// Register `pack` in `reg`, replacing a pack of the same mode name.
pub fn register_pack<P: VerticalPack>(reg: &mut VerticalPackRegistry<P>, pack: P)
    requires
        old(reg).wf(),
    ensures
        exists|k: Seq<char>|
            #[trigger] register_outcome(*old(reg), *final(reg), pack, k) && may_name(pack, k),
{
    reg.register(pack);
}

/// Enter the mode named `mode_name` in `reg`.
pub fn enter_mode<P: VerticalPack>(reg: &mut VerticalPackRegistry<P>, mode_name: &str) -> (r:
    Result<(), Error>)
    requires
        old(reg).wf(),
    ensures
        enter_outcome(*old(reg), *final(reg), mode_name@, r),
{
    reg.enter(mode_name)
}

/// Leave the active mode of `reg`.
pub fn exit_mode<P: VerticalPack>(reg: &mut VerticalPackRegistry<P>) -> (r: Result<(), Error>)
    requires
        old(reg).wf(),
    ensures
        exit_outcome(*old(reg), *final(reg), r),
{
    reg.exit()
}

/// The active mode name of `reg`.
pub fn active_mode_name<P: VerticalPack>(reg: &VerticalPackRegistry<P>) -> (r: Option<String>)
    ensures
        match r {
            Some(s) => reg.active_mode() == Some(s@),
            None => reg.active_mode() is None,
        },
{
    match reg.active_name() {
        Some(s) => Some(String::from_str(s)),
        None => None,
    }
}

/// `(mode_name, description)` of every pack in `reg`, by mode name.
pub fn list_modes<P: VerticalPack>(reg: &VerticalPackRegistry<P>) -> (r: Vec<(String, String)>)
    requires
        reg.wf(),
    ensures
        list_outcome(*reg, r@),
{
    reg.list()
}

/// The system-prompt fragment of the active pack, as its `system_prompt`
/// gives it, if a mode is active.
pub fn vertical_pack_system_prompt<P: VerticalPack>(reg: &VerticalPackRegistry<P>) -> (r: Option<
    String,
>)
    requires
        reg.wf(),
    ensures
        match reg.active_pack() {
            Some(p) => r matches Some(s) && call_ensures(P::system_prompt, (&p,), s),
            None => r is None,
        },
{
    match reg.active() {
        Some(p) => Some(p.system_prompt()),
        None => None,
    }
}

/// Skill directories of the resources the active pack's `resources` gives; none
/// when no mode is active.
pub fn vertical_pack_skill_dirs<P: VerticalPack>(reg: &VerticalPackRegistry<P>) -> (r: Vec<
    String,
>)
    requires
        reg.wf(),
    ensures
        match reg.active_pack() {
            Some(p) => exists|res: VerticalPackResources<P::McpServer, P::ToolHandle>|
                #[trigger] call_ensures(P::resources, (&p,), res) && r@ == res.skill_dirs@,
            None => r@.len() == 0,
        },
{
    match reg.active() {
        Some(p) => {
            let res = p.resources();
            let ghost offered = res;
            let out = res.skill_dirs;
            proof {
                assert(call_ensures(P::resources, (p,), offered));
                assert(out@ == offered.skill_dirs@);
                let q = reg.active_pack()->0;
                assert(call_ensures(P::resources, (&q,), offered));
            }
            out
        },
        None => Vec::new(),
    }
}

/// Command directories of the resources the active pack's `resources` gives; none
/// when no mode is active.
pub fn vertical_pack_command_dirs<P: VerticalPack>(reg: &VerticalPackRegistry<P>) -> (r: Vec<
    String,
>)
    requires
        reg.wf(),
    ensures
        match reg.active_pack() {
            Some(p) => exists|res: VerticalPackResources<P::McpServer, P::ToolHandle>|
                #[trigger] call_ensures(P::resources, (&p,), res) && r@ == res.command_dirs@,
            None => r@.len() == 0,
        },
{
    match reg.active() {
        Some(p) => {
            let res = p.resources();
            let ghost offered = res;
            let out = res.command_dirs;
            proof {
                assert(call_ensures(P::resources, (p,), offered));
                assert(out@ == offered.command_dirs@);
                let q = reg.active_pack()->0;
                assert(call_ensures(P::resources, (&q,), offered));
            }
            out
        },
        None => Vec::new(),
    }
}

/// Agent directories of the resources the active pack's `resources` gives; none
/// when no mode is active.
pub fn vertical_pack_agent_dirs<P: VerticalPack>(reg: &VerticalPackRegistry<P>) -> (r: Vec<
    String,
>)
    requires
        reg.wf(),
    ensures
        match reg.active_pack() {
            Some(p) => exists|res: VerticalPackResources<P::McpServer, P::ToolHandle>|
                #[trigger] call_ensures(P::resources, (&p,), res) && r@ == res.agent_dirs@,
            None => r@.len() == 0,
        },
{
    match reg.active() {
        Some(p) => {
            let res = p.resources();
            let ghost offered = res;
            let out = res.agent_dirs;
            proof {
                assert(call_ensures(P::resources, (p,), offered));
                assert(out@ == offered.agent_dirs@);
                let q = reg.active_pack()->0;
                assert(call_ensures(P::resources, (&q,), offered));
            }
            out
        },
        None => Vec::new(),
    }
}

/// MCP servers of the resources the active pack's `resources` gives; none
/// when no mode is active.
pub fn vertical_pack_mcp_servers<P: VerticalPack>(reg: &VerticalPackRegistry<P>) -> (r: Vec<
    P::McpServer,
>)
    requires
        reg.wf(),
    ensures
        match reg.active_pack() {
            Some(p) => exists|res: VerticalPackResources<P::McpServer, P::ToolHandle>|
                #[trigger] call_ensures(P::resources, (&p,), res) && r@ == res.mcp_servers@,
            None => r@.len() == 0,
        },
{
    match reg.active() {
        Some(p) => {
            let res = p.resources();
            let ghost offered = res;
            let out = res.mcp_servers;
            proof {
                assert(call_ensures(P::resources, (p,), offered));
                assert(out@ == offered.mcp_servers@);
                let q = reg.active_pack()->0;
                assert(call_ensures(P::resources, (&q,), offered));
            }
            out
        },
        None => Vec::new(),
    }
}

/// UI panels of the active pack, as its `ui_panels` gives them; none
/// when no mode is active.
pub fn vertical_pack_ui_panels<P: VerticalPack>(reg: &VerticalPackRegistry<P>) -> (r: Vec<UiPanel>)
    requires
        reg.wf(),
    ensures
        match reg.active_pack() {
            Some(p) => call_ensures(P::ui_panels, (&p,), r),
            None => r@.len() == 0,
        },
{
    match reg.active() {
        Some(p) => p.ui_panels(),
        None => Vec::new(),
    }
}

/// Tools of the resources the active pack's `resources` gives; none
/// when no mode is active.
pub fn vertical_pack_tools<P: VerticalPack>(reg: &VerticalPackRegistry<P>) -> (r: Vec<
    P::ToolHandle,
>)
    requires
        reg.wf(),
    ensures
        match reg.active_pack() {
            Some(p) => exists|res: VerticalPackResources<P::McpServer, P::ToolHandle>|
                #[trigger] call_ensures(P::resources, (&p,), res) && r@ == res.tools@,
            None => r@.len() == 0,
        },
{
    match reg.active() {
        Some(p) => {
            let res = p.resources();
            let ghost offered = res;
            let out = res.tools;
            proof {
                assert(call_ensures(P::resources, (p,), offered));
                assert(out@ == offered.tools@);
                let q = reg.active_pack()->0;
                assert(call_ensures(P::resources, (&q,), offered));
            }
            out
        },
        None => Vec::new(),
    }
}

} // verus!
