//! Logic of the tools the `/gamedev` pack contributes when
//! `THCLAWS_GAMEDEV_LOCAL` points at the user's local game collection:
//! which directories count as games, what each tool answers given what
//! it read from disk, how the scaffold template is renamed, and which
//! files the preview server may serve with which MIME type. The host
//! does the file-system and network work and passes the results in.
use vstd::prelude::*;
use crate::error::Error;
use crate::text::{
    ascii_lower, ascii_lower_chars, ascii_lower_seq, bullet_list, bullet_lines, chars_eq, chars_of,
    contains, decimal, decimal_string, ends_with, ends_with_chars, is_ascii_alnum, is_ascii_upper,
    lemma_replace_absent, lemma_replace_first, push_all,
    push_str, replace_all, replace_str, sort_strings, sorted_views, starts_with, str_eq,
    string_from_chars, trim, trim_chars, views,
};
use crate::tools::UiResource;

verus! {

/// The environment variable naming the local game collection.
pub const ENV_VAR: &'static str = "THCLAWS_GAMEDEV_LOCAL";

// ───────────────────────── local root ─────────────────────────

/// The collection root named by the environment value `raw`: the value
/// as it is, unless it is missing or blank.
pub fn configured_root(raw: Option<&str>) -> (r: Option<String>)
    ensures
        match raw {
            Some(v) => if trim(v@).len() > 0 {
                r matches Some(s) && s@ == v@
            } else {
                r is None
            },
            None => r is None,
        },
{
    match raw {
        Some(v) => {
            let t = trim_chars(&chars_of(v));
            if t.len() > 0 {
                Some(String::from_str(v))
            } else {
                None
            }
        },
        None => None,
    }
}

/// The refusal when the configured root is not a directory.
pub fn root_not_a_directory(path: &str) -> (r: Error)
    ensures
        r matches Error::Config(m) && m@ == "THCLAWS_GAMEDEV_LOCAL points at "@ + path@
            + " which is not a directory"@,
{
    let mut out: Vec<char> = Vec::new();
    push_str(&mut out, "THCLAWS_GAMEDEV_LOCAL points at ");
    push_str(&mut out, path);
    push_str(&mut out, " which is not a directory");
    Error::Config(string_from_chars(&out))
}

/// The refusal of a tool when no collection is configured; the listing
/// tool says where the tools are available.
pub fn root_not_set(listing: bool) -> (r: Error)
    ensures
        r matches Error::Tool(m) && m@ == if listing {
            "THCLAWS_GAMEDEV_LOCAL is not set; tool is only available inside a configured /gamedev session"@
        } else {
            "THCLAWS_GAMEDEV_LOCAL is not set"@
        },
{
    if listing {
        Error::Tool(String::from_str("THCLAWS_GAMEDEV_LOCAL is not set; tool is only available inside a configured /gamedev session"))
    } else {
        Error::Tool(String::from_str("THCLAWS_GAMEDEV_LOCAL is not set"))
    }
}

/// The refusal of a tool call that lacks the string argument `arg`.
pub fn missing_argument(arg: &str) -> (r: Error)
    ensures
        r matches Error::Tool(m) && m@ == "missing '"@ + arg@ + "' argument"@,
{
    let mut out: Vec<char> = Vec::new();
    push_str(&mut out, "missing '");
    push_str(&mut out, arg);
    push_str(&mut out, "' argument");
    Error::Tool(string_from_chars(&out))
}

// ───────────────────────── game directories ─────────────────────────

/// A directory name that may be a game: not `_`-prefixed (templates),
/// not `screenshots`, not `others`.
pub open spec fn game_name_allowed(name: Seq<char>) -> bool {
    !starts_with(name, "_"@) && name != "screenshots"@ && name != "others"@
}

/// The only directory names the listing leaves out are those starting
/// with `_`, `screenshots` and `others`; any other name (`Asteroids`,
/// `Tetris`, `pong`) may be a game.
pub proof fn lemma_excluded_game_names(name: Seq<char>)
    ensures
        game_name_allowed(name) <==> ((name.len() == 0 || name[0] != '_') && name
            != "screenshots"@ && name != "others"@),
{
    reveal_strlit("_");
    reveal_strlit("screenshots");
    reveal_strlit("others");
    assert("_"@ =~= seq!['_']);
    if name.len() > 0 {
        assert(name.take(1) =~= seq![name[0]]);
        if name[0] == '_' {
            assert(starts_with(name, "_"@));
        } else {
            assert(name.take(1)[0] != "_"@[0]);
            assert(!starts_with(name, "_"@));
        }
    } else {
        assert(!starts_with(name, "_"@));
    }
}

pub fn is_game_dir_name(name: &str) -> (r: bool)
    ensures
        r == game_name_allowed(name@),
{
    let v = chars_of(name);
    let underscore = chars_of("_");
    !crate::text::starts_with_chars(&v, &underscore) && !str_eq(name, "screenshots") && !str_eq(
        name,
        "others",
    )
}

/// `<name>.js`, the script a game directory must hold.
pub fn game_script_name(name: &str) -> (r: String)
    ensures
        r@ == name@ + ".js"@,
{
    let mut out = chars_of(name);
    push_str(&mut out, ".js");
    string_from_chars(&out)
}

/// A directory entry is a game when it is a directory with a name the
/// filter allows, holding `index.html` and `<name>.js` as files. The
/// caller passes what the file system says: whether the entry is a
/// directory, its name when it has a UTF-8 one, and whether
/// `index.html` and `<name>.js` are files in it.
pub fn is_game_dir(is_dir: bool, name: Option<&str>, has_index_html: bool, has_script: bool) -> (r:
    bool)
    ensures
        r == (is_dir && match name {
            Some(n) => game_name_allowed(n@) && has_index_html && has_script,
            None => false,
        }),
{
    if !is_dir {
        return false;
    }
    match name {
        Some(n) => is_game_dir_name(n) && has_index_html && has_script,
        None => false,
    }
}

// ───────────────────────── GamedevListExamples ─────────────────────────

pub open spec fn listing_spec(root: Seq<char>, names: Seq<Seq<char>>) -> Seq<char> {
    if names.len() == 0 {
        "no game examples found under "@ + root
    } else {
        decimal(names.len()) + " reference games available:\n"@ + bullet_lines(names)
    }
}

/// Lists the reference games found in a collection.
pub struct GamedevListExamplesTool;

impl GamedevListExamplesTool {
    pub fn name(&self) -> (r: &'static str)
        ensures
            r@ == "GamedevListExamples"@,
    {
        "GamedevListExamples"
    }

    pub fn description(&self) -> (r: &'static str)
        ensures
            r@ == "List reference game examples available in the local game collection. Each entry is the name of a sibling game directory (Breakout, SpaceShooter, Sudoku, etc.). Use this to pick a closest-genre reference before writing a new game, then fetch its source with `GamedevExample`."@,
    {
        "List reference game examples available in the local game collection. Each entry is the name of a sibling game directory (Breakout, SpaceShooter, Sudoku, etc.). Use this to pick a closest-genre reference before writing a new game, then fetch its source with `GamedevExample`."
    }

    /// The answer for the game directory names found under `root`: their
    /// count and the names in `String` order as bullets, or a note that
    /// there are none.
    pub fn render(&self, root: &str, names: Vec<String>) -> (r: String)
        ensures
            exists|sorted: Seq<String>|
                #[trigger] sorted.to_multiset() == names@.to_multiset() && sorted_views(
                    views(sorted),
                ) && r@ == listing_spec(root@, views(sorted)),
    {
        let sorted = sort_strings(names);
        let mut out: Vec<char> = Vec::new();
        if sorted.len() == 0 {
            push_str(&mut out, "no game examples found under ");
            push_str(&mut out, root);
        } else {
            let n = decimal_string(sorted.len() as u64);
            push_str(&mut out, n.as_str());
            push_str(&mut out, " reference games available:\n");
            let list = bullet_list(&sorted);
            push_all(&mut out, &list);
        }
        let r = string_from_chars(&out);
        assert(r@ == listing_spec(root@, views(sorted@)));
        r
    }
}

// ───────────────────────── GamedevExample ─────────────────────────

/// A file of a game directory that is listed as an asset: not one of
/// the three text files whose contents are shown.
pub open spec fn is_asset_name(game: Seq<char>, file: Seq<char>) -> bool {
    file != "index.html"@ && file != "style.css"@ && file != game + ".js"@
}

/// A file whose name occurs in one sequence of strings occurs in any
/// other with the same multiset of strings.
proof fn lemma_views_contains_moved(a: Seq<String>, b: Seq<String>, f: Seq<char>)
    requires
        a.to_multiset() == b.to_multiset(),
        views(a).contains(f),
    ensures
        views(b).contains(f),
{
    broadcast use vstd::seq_lib::group_to_multiset_ensures;

    let i = choose|i: int| 0 <= i < views(a).len() && views(a)[i] == f;
    let s = a[i];
    assert(a.contains(s));
    assert(a.to_multiset().count(s) > 0);
    assert(b.contains(s));
    let j = choose|j: int| 0 <= j < b.len() && b[j] == s;
    assert(views(b)[j] == f);
}

/// The asset list of a game directory holds exactly its files other
/// than `index.html`, `style.css` and `<game>.js`: every other file (a
/// second script, an image, a sound) is listed, and those three never
/// are. `r` is any answer `asset_names(game, files)` may give.
pub proof fn lemma_assets_are_all_other_files(game: Seq<char>, files: Seq<String>, r: Seq<String>)
    requires
        exists|kept: Seq<String>|
            #[trigger] kept.to_multiset() == r.to_multiset() && views(kept) == views(files).filter(
                |f: Seq<char>| is_asset_name(game, f),
            ),
    ensures
        forall|f: Seq<char>|
            #[trigger] views(r).contains(f) <==> (views(files).contains(f) && f != "index.html"@ && f
                != "style.css"@ && f != game + ".js"@),
{
    broadcast use vstd::seq_lib::group_filter_ensures;

    let kept = choose|kept: Seq<String>|
        #[trigger] kept.to_multiset() == r.to_multiset() && views(kept) == views(files).filter(
            |f: Seq<char>| is_asset_name(game, f),
        );
    let pred = |f: Seq<char>| is_asset_name(game, f);
    assert(views(kept) == views(files).filter(pred));
    assert forall|f: Seq<char>|
        #[trigger] views(r).contains(f) <==> (views(files).contains(f) && f != "index.html"@ && f
            != "style.css"@ && f != game + ".js"@) by {
        if views(r).contains(f) {
            lemma_views_contains_moved(r, kept, f);
            views(files).lemma_filter_contains_rev(pred, f);
            let k = choose|k: int| 0 <= k < views(kept).len() && views(kept)[k] == f;
            views(files).lemma_filter_pred(pred, k);
        }
        if views(files).contains(f) && pred(f) {
            let k = choose|k: int| 0 <= k < views(files).len() && views(files)[k] == f;
            views(files).lemma_filter_contains(pred, k);
            lemma_views_contains_moved(kept, r, f);
        }
    }
}

pub open spec fn asset_section(assets: Seq<Seq<char>>) -> Seq<char> {
    if assets.len() == 0 {
        "(none)"@
    } else {
        bullet_lines(assets)
    }
}

pub open spec fn example_source_spec(
    name: Seq<char>,
    index_html: Seq<char>,
    style_css: Option<Seq<char>>,
    js_src: Seq<char>,
    assets: Seq<Seq<char>>,
) -> Seq<char> {
    "=== "@ + name + " — example game source ===\n\n── index.html ──────────────────────────────────────\n"@ + index_html + "\n\n── style.css ───────────────────────────────────────\n"@ + match style_css {
        Some(c) => c,
        None => "(no style.css)"@,
    } + "\n\n── "@ + name + ".js ──────────────────────────────────────\n"@ + js_src + "\n\n── assets in this game dir ────────────────────────\n"@ + asset_section(assets)
}

/// Returns one reference game's source.
pub struct GamedevExampleTool;

impl GamedevExampleTool {
    pub fn name(&self) -> (r: &'static str)
        ensures
            r@ == "GamedevExample"@,
    {
        "GamedevExample"
    }

    pub fn description(&self) -> (r: &'static str)
        ensures
            r@ == "Return the full source of one reference game: index.html, style.css, the main <Name>.js file, plus a list of the game's asset filenames. Use after picking a target via `GamedevListExamples`."@,
    {
        "Return the full source of one reference game: index.html, style.css, the main <Name>.js file, plus a list of the game's asset filenames. Use after picking a target via `GamedevListExamples`."
    }

    /// The refusal when `name` is not a game under `root`.
    pub fn not_a_game(name: &str, root: &str) -> (r: Error)
        ensures
            r matches Error::Tool(m) && m@ == "no game named '"@ + name@ + "' under "@ + root@
                + " (try GamedevListExamples)"@,
    {
        let mut out: Vec<char> = Vec::new();
        push_str(&mut out, "no game named '");
        push_str(&mut out, name);
        push_str(&mut out, "' under ");
        push_str(&mut out, root);
        push_str(&mut out, " (try GamedevListExamples)");
        Error::Tool(string_from_chars(&out))
    }

    /// The asset names among the regular files of game `name`'s
    /// directory, in `String` order.
    pub fn asset_names(name: &str, files: Vec<String>) -> (r: Vec<String>)
        ensures
            sorted_views(views(r@)),
            exists|kept: Seq<String>|
                #[trigger] kept.to_multiset() == r@.to_multiset() && views(kept) == views(
                    files@,
                ).filter(|f: Seq<char>| is_asset_name(name@, f)),
    {
        let script = game_script_name(name);
        let mut kept: Vec<String> = Vec::new();
        let mut i: usize = 0;
        let ghost pred = |f: Seq<char>| is_asset_name(name@, f);
        while i < files.len()
            invariant
                i <= files@.len(),
                script@ == name@ + ".js"@,
                pred == (|f: Seq<char>| is_asset_name(name@, f)),
                views(kept@) == views(files@.take(i as int)).filter(pred),
            decreases files.len() - i,
        {
            let f = &files[i];
            let keep = !str_eq(f.as_str(), "index.html") && !str_eq(f.as_str(), "style.css")
                && !str_eq(f.as_str(), script.as_str());
            proof {
                let before = views(files@.take(i as int));
                assert(views(files@.take(i + 1)) =~= before.push(f@));
                reveal_with_fuel(Seq::<Seq<char>>::filter, 1);
                assert(before.push(f@).drop_last() =~= before);
            }
            if keep {
                kept.push(f.clone());
                assert(views(kept@) =~= views(files@.take(i + 1)).filter(pred));
            } else {
                assert(views(kept@) =~= views(files@.take(i + 1)).filter(pred));
            }
            i = i + 1;
        }
        assert(files@.take(files.len() as int) =~= files@);
        sort_strings(kept)
    }

    /// The answer: the game's `index.html`, `style.css` (or a note that
    /// there is none), `<name>.js` and its asset list, under headings.
    pub fn render(
        &self,
        name: &str,
        index_html: &str,
        style_css: Option<&str>,
        js_src: &str,
        assets: &Vec<String>,
    ) -> (r: String)
        ensures
            r@ == example_source_spec(
                name@,
                index_html@,
                match style_css {
                    Some(c) => Some(c@),
                    None => None,
                },
                js_src@,
                views(assets@),
            ),
    {
        let mut out: Vec<char> = Vec::new();
        push_str(&mut out, "=== ");
        push_str(&mut out, name);
        push_str(&mut out, " — example game source ===\n\n── index.html ──────────────────────────────────────\n");
        push_str(&mut out, index_html);
        push_str(&mut out, "\n\n── style.css ───────────────────────────────────────\n");
        match style_css {
            Some(c) => push_str(&mut out, c),
            None => push_str(&mut out, "(no style.css)"),
        }
        push_str(&mut out, "\n\n── ");
        push_str(&mut out, name);
        push_str(&mut out, ".js ──────────────────────────────────────\n");
        push_str(&mut out, js_src);
        push_str(&mut out, "\n\n── assets in this game dir ────────────────────────\n");
        if assets.len() == 0 {
            push_str(&mut out, "(none)");
        } else {
            let list = bullet_list(assets);
            push_all(&mut out, &list);
        }
        string_from_chars(&out)
    }
}

// ───────────────────────── GamedevLibrary ─────────────────────────

/// Returns the collection's `GameLibrary.js`.
pub struct GamedevLibraryTool;

impl GamedevLibraryTool {
    pub fn name(&self) -> (r: &'static str)
        ensures
            r@ == "GamedevLibrary"@,
    {
        "GamedevLibrary"
    }

    pub fn description(&self) -> (r: &'static str)
        ensures
            r@ == "Return the full source of GameLibrary.js — the engine every game in the collection uses. Read this ONCE per session to learn the API, then keep it in context. ~4000 lines; do not re-fetch unless you forgot something specific."@,
    {
        "Return the full source of GameLibrary.js — the engine every game in the collection uses. Read this ONCE per session to learn the API, then keep it in context. ~4000 lines; do not re-fetch unless you forgot something specific."
    }
}

// ───────────────────────── GamedevScaffold ─────────────────────────

/// What `char::to_lowercase` yields for `c`: its Unicode lowercase
/// mapping, one or more characters.
pub uninterp spec fn unicode_lowercase(c: char) -> Seq<char>;

/// The lowercase mapping of `c`; `char::to_lowercase`. Besides naming the
/// result, the contract states that an ASCII character maps to its ASCII
/// lowercase form alone, as the function's documentation shows.
#[verifier::external_body]
fn char_to_lowercase(c: char) -> (r: Vec<char>)
    ensures
        r@ == unicode_lowercase(c),
        (c as u32) < 128 ==> r@ == seq![ascii_lower(c)],
{
    c.to_lowercase().collect()
}

pub open spec fn first_lower_spec(s: Seq<char>) -> Seq<char> {
    if s.len() == 0 {
        s
    } else {
        unicode_lowercase(s[0]) + s.drop_first()
    }
}

/// `s` with its first character lowercased (Unicode mapping), the rest
/// as it is.
pub fn first_lower(s: &str) -> (r: String)
    ensures
        r@ == first_lower_spec(s@),
        s@.len() > 0 && (s@[0] as u32) < 128 ==> r@ == seq![ascii_lower(s@[0])] + s@.drop_first(),
{
    let v = chars_of(s);
    if v.len() == 0 {
        return String::new();
    }
    let mut out = char_to_lowercase(v[0]);
    let rest = crate::text::slice_chars(&v, 1, v.len());
    assert(rest@ =~= s@.drop_first());
    push_all(&mut out, &rest);
    string_from_chars(&out)
}

/// A name the scaffold accepts: an ASCII uppercase letter first, then
/// ASCII letters and digits only.
pub open spec fn scaffold_name_ok(name: Seq<char>) -> bool {
    name.len() > 0 && is_ascii_upper(name[0]) && forall|i: int|
        0 <= i < name.len() ==> is_ascii_alnum(#[trigger] name[i])
}

pub open spec fn template_substitution(body: Seq<char>, name: Seq<char>) -> Seq<char> {
    replace_all(replace_all(body, "Minimal"@, name), "minimal"@, first_lower_spec(name))
}

/// Every `Minimal` of a template is renamed, wherever it stands (inside
/// a longer identifier such as `loadMinimalAssets` too): with the first
/// `Minimal` after `a` and none in `b`, the body comes out as `a`, the
/// name, then `b`, unless renaming creates a lowercase `minimal`.
pub proof fn lemma_substitution_renames_pascal_placeholder(
    a: Seq<char>,
    b: Seq<char>,
    name: Seq<char>,
)
    requires
        !contains(a + "Minimal"@.drop_last(), "Minimal"@),
        !contains(b, "Minimal"@),
        !contains(a + name + b, "minimal"@),
    ensures
        template_substitution(a + "Minimal"@ + b, name) == a + name + b,
{
    reveal_strlit("Minimal");
    reveal_strlit("minimal");
    lemma_replace_first(a, "Minimal"@, name, b);
    lemma_replace_absent(b, "Minimal"@, name);
    lemma_replace_absent(a + name + b, "minimal"@, first_lower_spec(name));
}

/// Every `minimal` of a template is renamed to the name with its first
/// letter lowercased, wherever it stands: in a body without `Minimal`,
/// with the first `minimal` after `a` and none in `b`, the body comes out
/// as `a`, the lowered name, then `b`.
pub proof fn lemma_substitution_renames_camel_placeholder(
    a: Seq<char>,
    b: Seq<char>,
    name: Seq<char>,
)
    requires
        !contains(a + "minimal"@ + b, "Minimal"@),
        !contains(a + "minimal"@.drop_last(), "minimal"@),
        !contains(b, "minimal"@),
    ensures
        template_substitution(a + "minimal"@ + b, name) == a + first_lower_spec(name) + b,
{
    reveal_strlit("Minimal");
    reveal_strlit("minimal");
    lemma_replace_absent(a + "minimal"@ + b, "Minimal"@, name);
    lemma_replace_first(a, "minimal"@, first_lower_spec(name), b);
    lemma_replace_absent(b, "minimal"@, first_lower_spec(name));
}

pub open spec fn scaffold_report_spec(
    name: Seq<char>,
    target: Seq<char>,
    created: Seq<Seq<char>>,
    link_note: Seq<char>,
) -> Seq<char> {
    "scaffolded "@ + name + " at "@ + target + "\nfiles created:\n"@ + bullet_lines(created) + link_note
        + "\n\nnext steps:\n  1. add PNG assets (SplashScreen, Background, Play0/1, EnterFullscreen0/1, ExitFullscreen0/1) — copy from a reference game via GamedevExample, or generate\n  2. fill in TODOs in "@ + name + ".js (start with onLoad to register the assets)\n  3. call GamedevPreview(target_dir="@ + target + ") to view it live in chat"@
}

/// Copies the `minimal` template into a new game directory.
pub struct GamedevScaffoldTool;

impl GamedevScaffoldTool {
    pub fn name(&self) -> (r: &'static str)
        ensures
            r@ == "GamedevScaffold"@,
    {
        "GamedevScaffold"
    }

    pub fn description(&self) -> (r: &'static str)
        ensures
            r@ == "Copy the `minimal` template into a target directory, renaming the placeholder class `Minimal` to the requested new game name. Creates index.html, style.css, and <Name>.js. You still need to add the PNG assets (SplashScreen, Background, standard buttons) — copy them from a reference game's directory or generate them."@,
    {
        "Copy the `minimal` template into a target directory, renaming the placeholder class `Minimal` to the requested new game name. Creates index.html, style.css, and <Name>.js. You still need to add the PNG assets (SplashScreen, Background, standard buttons) — copy them from a reference game's directory or generate them."
    }

    /// Scaffolding writes files, so every call asks for approval.
    pub fn requires_approval(&self) -> (r: bool)
        ensures
            r,
    {
        true
    }

    /// Accepts a PascalCase ASCII name; the first refusal that applies
    /// is returned.
    pub fn validate_name(name: &str) -> (r: Result<(), Error>)
        ensures
            r is Ok <==> scaffold_name_ok(name@),
            r matches Err(Error::Tool(m)) ==> m@ == if name@.len() == 0 || !is_ascii_upper(
                name@[0],
            ) {
                "'name' must start with an uppercase ASCII letter (PascalCase)"@
            } else {
                "'name' may only contain ASCII letters and digits"@
            },
            r matches Err(e) ==> e is Tool,
    {
        let v = chars_of(name);
        if v.len() == 0 || !('A' <= v[0] && v[0] <= 'Z') {
            return Err(
                Error::Tool(String::from_str("'name' must start with an uppercase ASCII letter (PascalCase)")),
            );
        }
        let mut i: usize = 0;
        while i < v.len()
            invariant
                v@ == name@,
                v.len() > 0,
                'A' <= v@[0] && v@[0] <= 'Z',
                i <= v.len(),
                forall|k: int| 0 <= k < i ==> is_ascii_alnum(#[trigger] v@[k]),
            decreases v.len() - i,
        {
            let c = v[i];
            if !(('A' <= c && c <= 'Z') || ('a' <= c && c <= 'z') || ('0' <= c && c <= '9')) {
                return Err(Error::Tool(String::from_str("'name' may only contain ASCII letters and digits")));
            }
            i = i + 1;
        }
        Ok(())
    }

    /// The file name a template file gets: `Minimal.js` becomes
    /// `<name>.js`, the others keep their names.
    pub fn file_name(template_file: &str, name: &str) -> (r: String)
        ensures
            r@ == if template_file@ == "Minimal.js"@ {
                name@ + ".js"@
            } else {
                template_file@
            },
    {
        if str_eq(template_file, "Minimal.js") {
            game_script_name(name)
        } else {
            String::from_str(template_file)
        }
    }

    /// A template file's body with `Minimal` replaced by `name` and then
    /// `minimal` by `name` with its first letter lowercased (PascalCase
    /// first, so `MinimalLibrary` is not split).
    pub fn substitute(body: &str, name: &str) -> (r: String)
        ensures
            r@ == template_substitution(body@, name@),
    {
        proof {
            reveal_strlit("Minimal");
            reveal_strlit("minimal");
        }
        let lower = first_lower(name);
        let v = chars_of(body);
        let v = replace_str(&v, "Minimal", name);
        let v = replace_str(&v, "minimal", lower.as_str());
        string_from_chars(&v)
    }

    /// The refusal when the target already exists.
    pub fn target_exists(target: &str) -> (r: Error)
        ensures
            r matches Error::Tool(m) && m@ == "target "@ + target@ + " already exists"@,
    {
        let mut out: Vec<char> = Vec::new();
        push_str(&mut out, "target ");
        push_str(&mut out, target);
        push_str(&mut out, " already exists");
        Error::Tool(string_from_chars(&out))
    }

    /// The refusal when the collection has no `_templates/minimal`.
    pub fn template_missing(template_dir: &str) -> (r: Error)
        ensures
            r matches Error::Tool(m) && m@ == "template dir "@ + template_dir@ + " is missing"@,
    {
        let mut out: Vec<char> = Vec::new();
        push_str(&mut out, "template dir ");
        push_str(&mut out, template_dir);
        push_str(&mut out, " is missing");
        Error::Tool(string_from_chars(&out))
    }

    /// The note added when `GameLibrary.js` was linked into `parent`.
    pub fn link_note(parent: &str) -> (r: String)
        ensures
            r@ == "\n  + linked GameLibrary.js into "@ + parent@ + " so `../GameLibrary.js` resolves"@,
    {
        let mut out: Vec<char> = Vec::new();
        push_str(&mut out, "\n  + linked GameLibrary.js into ");
        push_str(&mut out, parent);
        push_str(&mut out, " so `../GameLibrary.js` resolves");
        string_from_chars(&out)
    }

    /// The answer: where the game went, the files created in `String`
    /// order, the link note (empty when nothing was linked) and the next
    /// steps.
    pub fn report(name: &str, target: &str, created: Vec<String>, link_note: &str) -> (r: String)
        ensures
            exists|sorted: Seq<String>|
                #[trigger] sorted.to_multiset() == created@.to_multiset() && sorted_views(
                    views(sorted),
                ) && r@ == scaffold_report_spec(name@, target@, views(sorted), link_note@),
    {
        let sorted = sort_strings(created);
        let mut out: Vec<char> = Vec::new();
        push_str(&mut out, "scaffolded ");
        push_str(&mut out, name);
        push_str(&mut out, " at ");
        push_str(&mut out, target);
        push_str(&mut out, "\nfiles created:\n");
        let list = bullet_list(&sorted);
        push_all(&mut out, &list);
        push_str(&mut out, link_note);
        push_str(&mut out, "\n\nnext steps:\n  1. add PNG assets (SplashScreen, Background, Play0/1, EnterFullscreen0/1, ExitFullscreen0/1) — copy from a reference game via GamedevExample, or generate\n  2. fill in TODOs in ");
        push_str(&mut out, name);
        push_str(&mut out, ".js (start with onLoad to register the assets)\n  3. call GamedevPreview(target_dir=");
        push_str(&mut out, target);
        push_str(&mut out, ") to view it live in chat");
        let r = string_from_chars(&out);
        assert(r@ == scaffold_report_spec(name@, target@, views(sorted@), link_note@));
        r
    }
}

// ───────────────────────── GamedevPreview ─────────────────────────

pub open spec fn preview_url(port: u16, game_subdir: Seq<char>) -> Seq<char> {
    "http://127.0.0.1:"@ + decimal(port as nat) + "/"@ + game_subdir + "/index.html"@
}

pub open spec fn preview_html(port: u16, game_subdir: Seq<char>) -> Seq<char> {
    "<!DOCTYPE html>\n<html><head><meta charset=\"utf-8\"><title>gamedev preview</title><style>\nhtml, body, iframe {\n    margin: 0; padding: 0;\n    height: 100vh; width: 100vw;\n    border: 0; display: block;\n    background: #000;\n}\n</style></head>\n<body><iframe src=\""@ + preview_url(port, game_subdir) + "\"\n    allow=\"autoplay; gamepad; fullscreen\"\n    title=\"game preview\"></iframe></body>\n</html>"@
}

/// The running preview server can stay when it already serves `parent`.
pub fn preview_server_reusable(serving: Option<&str>, parent: &str) -> (r: bool)
    ensures
        r == match serving {
            Some(s) => s@ == parent@,
            None => false,
        },
{
    match serving {
        Some(s) => str_eq(s, parent),
        None => false,
    }
}

/// `http://127.0.0.1:<port>/<game_subdir>/index.html`.
pub fn render_preview_url(port: u16, game_subdir: &str) -> (r: String)
    ensures
        r@ == preview_url(port, game_subdir@),
{
    let mut out: Vec<char> = Vec::new();
    push_str(&mut out, "http://127.0.0.1:");
    let p = decimal_string(port as u64);
    push_str(&mut out, p.as_str());
    push_str(&mut out, "/");
    push_str(&mut out, game_subdir);
    push_str(&mut out, "/index.html");
    string_from_chars(&out)
}

/// The preview answer: the directory mounted, the server URL, and the
/// link note (empty when nothing was linked).
pub fn render_preview_message(abs_dir: &str, port: u16, game_subdir: &str, link_note: &str) -> (r:
    String)
    ensures
        r@ == "preview mounted for "@ + abs_dir@ + "\n  server: "@ + preview_url(port, game_subdir@)
            + link_note@,
{
    let mut out: Vec<char> = Vec::new();
    push_str(&mut out, "preview mounted for ");
    push_str(&mut out, abs_dir);
    push_str(&mut out, "\n  server: ");
    let u = render_preview_url(port, game_subdir);
    push_str(&mut out, u.as_str());
    push_str(&mut out, link_note);
    string_from_chars(&out)
}

/// The note added when `GameLibrary.js` was linked into `parent`.
pub fn preview_link_note(parent: &str) -> (r: String)
    ensures
        r@ == "\n  (linked GameLibrary.js into "@ + parent@ + " for relative resolution)"@,
{
    let mut out: Vec<char> = Vec::new();
    push_str(&mut out, "\n  (linked GameLibrary.js into ");
    push_str(&mut out, parent);
    push_str(&mut out, " for relative resolution)");
    string_from_chars(&out)
}

/// The widget: a full-window iframe on the game served from the loopback
/// preview server, allowed to keep its origin so it can load scripts.
pub fn preview_ui_resource(port: u16, game_subdir: &str) -> (r: UiResource)
    ensures
        r.uri@ == "gamedev://preview/"@ + game_subdir@,
        r.html@ == preview_html(port, game_subdir@),
        r.mime matches Some(m) && m@ == "text/html;profile=mcp-app"@,
        r.allow_same_origin,
{
    let mut html: Vec<char> = Vec::new();
    push_str(&mut html, "<!DOCTYPE html>\n<html><head><meta charset=\"utf-8\"><title>gamedev preview</title><style>\nhtml, body, iframe {\n    margin: 0; padding: 0;\n    height: 100vh; width: 100vw;\n    border: 0; display: block;\n    background: #000;\n}\n</style></head>\n<body><iframe src=\"");
    let u = render_preview_url(port, game_subdir);
    push_str(&mut html, u.as_str());
    push_str(&mut html, "\"\n    allow=\"autoplay; gamepad; fullscreen\"\n    title=\"game preview\"></iframe></body>\n</html>");
    let mut uri: Vec<char> = Vec::new();
    push_str(&mut uri, "gamedev://preview/");
    push_str(&mut uri, game_subdir);
    UiResource {
        uri: string_from_chars(&uri),
        html: string_from_chars(&html),
        mime: Some(String::from_str("text/html;profile=mcp-app")),
        allow_same_origin: true,
    }
}

// ───────────────────────── preview state ─────────────────────────

/// The preview server the host keeps running between calls: the
/// canonical directory it serves, its port, and the game directory
/// (a child of the served one) the widget shows.
pub struct PreviewMount {
    pub serve_root: String,
    pub port: u16,
    pub game_subdir: String,
}

/// What the host does for a preview request.
pub enum PreviewAction {
    /// Keep the running server (same root, same port); the preview now
    /// shows this mount.
    Keep(PreviewMount),
    /// Start a server on the requested parent; once it runs, the mount is
    /// `preview_spawned`'s, replacing (and shutting down) any earlier one.
    Spawn,
}

/// The decision for a request to preview the game directory
/// `game_subdir` under the canonical `parent`, given the mount the host
/// keeps: a server that already serves `parent` is kept with its port,
/// any other situation starts a new one.
pub fn preview_request(current: Option<&PreviewMount>, parent: &str, game_subdir: &str) -> (r:
    PreviewAction)
    ensures
        match current {
            Some(m) => if m.serve_root@ == parent@ {
                r matches PreviewAction::Keep(n) && n.serve_root@ == m.serve_root@ && n.port
                    == m.port && n.game_subdir@ == game_subdir@
            } else {
                r is Spawn
            },
            None => r is Spawn,
        },
{
    match current {
        Some(m) => {
            if preview_server_reusable(Some(m.serve_root.as_str()), parent) {
                PreviewAction::Keep(
                    PreviewMount {
                        serve_root: String::from_str(m.serve_root.as_str()),
                        port: m.port,
                        game_subdir: String::from_str(game_subdir),
                    },
                )
            } else {
                PreviewAction::Spawn
            }
        },
        None => PreviewAction::Spawn,
    }
}

/// The mount after a new server for `parent` started on `port`.
pub fn preview_spawned(parent: &str, port: u16, game_subdir: &str) -> (r: PreviewMount)
    ensures
        r.serve_root@ == parent@,
        r.port == port,
        r.game_subdir@ == game_subdir@,
{
    PreviewMount {
        serve_root: String::from_str(parent),
        port,
        game_subdir: String::from_str(game_subdir),
    }
}

/// The widget of the current mount: none before the first successful
/// preview, else the iframe on the mounted game at the kept port.
pub fn preview_widget(current: Option<&PreviewMount>) -> (r: Option<UiResource>)
    ensures
        match current {
            Some(m) => r matches Some(u) && u.uri@ == "gamedev://preview/"@ + m.game_subdir@
                && u.html@ == preview_html(m.port, m.game_subdir@) && (u.mime matches Some(t)
                && t@ == "text/html;profile=mcp-app"@) && u.allow_same_origin,
            None => r is None,
        },
{
    match current {
        Some(m) => Some(preview_ui_resource(m.port, m.game_subdir.as_str())),
        None => None,
    }
}

/// Why a preview request is refused before anything is served.
pub enum PreviewRefusal {
    /// The target is not a directory.
    NotADirectory,
    /// The target has no `index.html`.
    NoIndex,
    /// The canonical target has no parent directory.
    NoParent,
    /// The canonical target has no (UTF-8) last component.
    NoName,
}

/// The error a refused preview request answers with; `target` is the
/// path as the user gave it after the sandbox check.
pub fn preview_refused(why: PreviewRefusal, target: &str) -> (r: Error)
    ensures
        r matches Error::Tool(m) && m@ == match why {
            PreviewRefusal::NotADirectory => target@ + " is not a directory"@,
            PreviewRefusal::NoIndex => target@ + " has no index.html — nothing to preview yet"@,
            PreviewRefusal::NoParent => "target_dir has no parent"@,
            PreviewRefusal::NoName => "target_dir has no name"@,
        },
{
    let mut out: Vec<char> = Vec::new();
    match why {
        PreviewRefusal::NotADirectory => {
            push_str(&mut out, target);
            push_str(&mut out, " is not a directory");
        },
        PreviewRefusal::NoIndex => {
            push_str(&mut out, target);
            push_str(&mut out, " has no index.html — nothing to preview yet");
        },
        PreviewRefusal::NoParent => {
            push_str(&mut out, "target_dir has no parent");
        },
        PreviewRefusal::NoName => {
            push_str(&mut out, "target_dir has no name");
        },
    }
    Error::Tool(string_from_chars(&out))
}

// ───────────────────────── preview file server ─────────────────────────

/// `path` lies in `root`, for paths in canonical form (absolute, no `.`
/// or `..` components, no repeated or trailing `/` except the root
/// itself), where this is what component-wise `Path::starts_with` decides.
pub open spec fn within(path: Seq<char>, root: Seq<char>) -> bool {
    path == root || (root.len() > 0 && root.last() == '/' && starts_with(path, root)) || starts_with(
        path,
        root + seq!['/'],
    )
}

/// The last component of canonical `path` is `GameLibrary.js`.
pub open spec fn names_game_library(path: Seq<char>) -> bool {
    path == "GameLibrary.js"@ || ends_with(path, "/GameLibrary.js"@)
}

/// A requested file may be served when its canonical path lies in the
/// canonical serve root, or when its last component is `GameLibrary.js`,
/// wherever that path lies: the library file that the serve root links
/// to from outside it is let through by name.
pub fn serve_permitted(canonical: &str, root: &str) -> (r: bool)
    ensures
        r == (within(canonical@, root@) || names_game_library(canonical@)),
{
    let p = chars_of(canonical);
    let mut rt = chars_of(root);
    let inside = if chars_eq(&p, &rt) {
        true
    } else if rt.len() > 0 && rt[rt.len() - 1] == '/' && crate::text::starts_with_chars(&p, &rt) {
        true
    } else {
        rt.push('/');
        assert(rt@ =~= root@ + seq!['/']);
        crate::text::starts_with_chars(&p, &rt)
    };
    let lib_name = chars_of("GameLibrary.js");
    let lib_suffix = chars_of("/GameLibrary.js");
    inside || chars_eq(&p, &lib_name) || ends_with_chars(&p, &lib_suffix)
}

/// The MIME type a file extension is served with.
pub open spec fn mime_spec(e: Seq<char>) -> Seq<char> {
        if e == "html"@ || e == "htm"@ {
        "text/html; charset=utf-8"@
    } else     if e == "css"@ {
        "text/css; charset=utf-8"@
    } else     if e == "js"@ || e == "mjs"@ {
        "application/javascript; charset=utf-8"@
    } else     if e == "json"@ {
        "application/json; charset=utf-8"@
    } else     if e == "svg"@ {
        "image/svg+xml"@
    } else     if e == "png"@ {
        "image/png"@
    } else     if e == "jpg"@ || e == "jpeg"@ {
        "image/jpeg"@
    } else     if e == "gif"@ {
        "image/gif"@
    } else     if e == "webp"@ {
        "image/webp"@
    } else     if e == "ico"@ {
        "image/x-icon"@
    } else     if e == "wav"@ {
        "audio/wav"@
    } else     if e == "mp3"@ {
        "audio/mpeg"@
    } else     if e == "ogg"@ {
        "audio/ogg"@
    } else     if e == "woff"@ {
        "font/woff"@
    } else     if e == "woff2"@ {
        "font/woff2"@
    } else     if e == "ttf"@ {
        "font/ttf"@
    } else     if e == "otf"@ {
        "font/otf"@
    } else {
        "application/octet-stream"@
    }
}

/// The served `Content-Type` of every extension, in any ASCII case:
/// HTML, CSS, JavaScript and JSON as UTF-8 text, the image, sound and font
/// types by name, and `application/octet-stream` for anything else.
pub proof fn lemma_mime_table(ext: Seq<char>)
    ensures
        ascii_lower_seq(ext) == "html"@ ==> mime_spec(ascii_lower_seq(ext)) == "text/html; charset=utf-8"@,
        ascii_lower_seq(ext) == "htm"@ ==> mime_spec(ascii_lower_seq(ext)) == "text/html; charset=utf-8"@,
        ascii_lower_seq(ext) == "css"@ ==> mime_spec(ascii_lower_seq(ext)) == "text/css; charset=utf-8"@,
        ascii_lower_seq(ext) == "js"@ ==> mime_spec(ascii_lower_seq(ext)) == "application/javascript; charset=utf-8"@,
        ascii_lower_seq(ext) == "mjs"@ ==> mime_spec(ascii_lower_seq(ext)) == "application/javascript; charset=utf-8"@,
        ascii_lower_seq(ext) == "json"@ ==> mime_spec(ascii_lower_seq(ext)) == "application/json; charset=utf-8"@,
        ascii_lower_seq(ext) == "svg"@ ==> mime_spec(ascii_lower_seq(ext)) == "image/svg+xml"@,
        ascii_lower_seq(ext) == "png"@ ==> mime_spec(ascii_lower_seq(ext)) == "image/png"@,
        ascii_lower_seq(ext) == "jpg"@ ==> mime_spec(ascii_lower_seq(ext)) == "image/jpeg"@,
        ascii_lower_seq(ext) == "jpeg"@ ==> mime_spec(ascii_lower_seq(ext)) == "image/jpeg"@,
        ascii_lower_seq(ext) == "gif"@ ==> mime_spec(ascii_lower_seq(ext)) == "image/gif"@,
        ascii_lower_seq(ext) == "webp"@ ==> mime_spec(ascii_lower_seq(ext)) == "image/webp"@,
        ascii_lower_seq(ext) == "ico"@ ==> mime_spec(ascii_lower_seq(ext)) == "image/x-icon"@,
        ascii_lower_seq(ext) == "wav"@ ==> mime_spec(ascii_lower_seq(ext)) == "audio/wav"@,
        ascii_lower_seq(ext) == "mp3"@ ==> mime_spec(ascii_lower_seq(ext)) == "audio/mpeg"@,
        ascii_lower_seq(ext) == "ogg"@ ==> mime_spec(ascii_lower_seq(ext)) == "audio/ogg"@,
        ascii_lower_seq(ext) == "woff"@ ==> mime_spec(ascii_lower_seq(ext)) == "font/woff"@,
        ascii_lower_seq(ext) == "woff2"@ ==> mime_spec(ascii_lower_seq(ext)) == "font/woff2"@,
        ascii_lower_seq(ext) == "ttf"@ ==> mime_spec(ascii_lower_seq(ext)) == "font/ttf"@,
        ascii_lower_seq(ext) == "otf"@ ==> mime_spec(ascii_lower_seq(ext)) == "font/otf"@,
        (ascii_lower_seq(ext) != "html"@ && ascii_lower_seq(ext) != "htm"@ && ascii_lower_seq(ext) != "css"@ && ascii_lower_seq(ext) != "js"@ && ascii_lower_seq(ext) != "mjs"@ && ascii_lower_seq(ext) != "json"@ && ascii_lower_seq(ext) != "svg"@ && ascii_lower_seq(ext) != "png"@ && ascii_lower_seq(ext) != "jpg"@ && ascii_lower_seq(ext) != "jpeg"@ && ascii_lower_seq(ext) != "gif"@ && ascii_lower_seq(ext) != "webp"@ && ascii_lower_seq(ext) != "ico"@ && ascii_lower_seq(ext) != "wav"@ && ascii_lower_seq(ext) != "mp3"@ && ascii_lower_seq(ext) != "ogg"@ && ascii_lower_seq(ext) != "woff"@ && ascii_lower_seq(ext) != "woff2"@ && ascii_lower_seq(ext) != "ttf"@ && ascii_lower_seq(ext) != "otf"@) ==> mime_spec(ascii_lower_seq(ext)) == "application/octet-stream"@,
{
    reveal_strlit("application/javascript; charset=utf-8");
    reveal_strlit("application/json; charset=utf-8");
    reveal_strlit("application/octet-stream");
    reveal_strlit("audio/mpeg");
    reveal_strlit("audio/ogg");
    reveal_strlit("audio/wav");
    reveal_strlit("css");
    reveal_strlit("font/otf");
    reveal_strlit("font/ttf");
    reveal_strlit("font/woff");
    reveal_strlit("font/woff2");
    reveal_strlit("gif");
    reveal_strlit("htm");
    reveal_strlit("html");
    reveal_strlit("ico");
    reveal_strlit("image/gif");
    reveal_strlit("image/jpeg");
    reveal_strlit("image/png");
    reveal_strlit("image/svg+xml");
    reveal_strlit("image/webp");
    reveal_strlit("image/x-icon");
    reveal_strlit("jpeg");
    reveal_strlit("jpg");
    reveal_strlit("js");
    reveal_strlit("json");
    reveal_strlit("mjs");
    reveal_strlit("mp3");
    reveal_strlit("ogg");
    reveal_strlit("otf");
    reveal_strlit("png");
    reveal_strlit("svg");
    reveal_strlit("text/css; charset=utf-8");
    reveal_strlit("text/html; charset=utf-8");
    reveal_strlit("ttf");
    reveal_strlit("wav");
    reveal_strlit("webp");
    reveal_strlit("woff");
    reveal_strlit("woff2");
    let e = ascii_lower_seq(ext);
    if e == "htm"@ {
        assert(e.len() != "html"@.len());
    }
    if e == "css"@ {
        assert(e.len() != "html"@.len());
        assert(e[0] != "htm"@[0]);
    }
    if e == "js"@ {
        assert(e.len() != "html"@.len());
        assert(e.len() != "htm"@.len());
        assert(e.len() != "css"@.len());
    }
    if e == "mjs"@ {
        assert(e.len() != "html"@.len());
        assert(e[0] != "htm"@[0]);
        assert(e[0] != "css"@[0]);
        assert(e.len() != "js"@.len());
    }
    if e == "json"@ {
        assert(e[0] != "html"@[0]);
        assert(e.len() != "htm"@.len());
        assert(e.len() != "css"@.len());
        assert(e.len() != "js"@.len());
        assert(e.len() != "mjs"@.len());
    }
    if e == "svg"@ {
        assert(e.len() != "html"@.len());
        assert(e[0] != "htm"@[0]);
        assert(e[0] != "css"@[0]);
        assert(e.len() != "js"@.len());
        assert(e[0] != "mjs"@[0]);
        assert(e.len() != "json"@.len());
    }
    if e == "png"@ {
        assert(e.len() != "html"@.len());
        assert(e[0] != "htm"@[0]);
        assert(e[0] != "css"@[0]);
        assert(e.len() != "js"@.len());
        assert(e[0] != "mjs"@[0]);
        assert(e.len() != "json"@.len());
        assert(e[0] != "svg"@[0]);
    }
    if e == "jpg"@ {
        assert(e.len() != "html"@.len());
        assert(e[0] != "htm"@[0]);
        assert(e[0] != "css"@[0]);
        assert(e.len() != "js"@.len());
        assert(e[0] != "mjs"@[0]);
        assert(e.len() != "json"@.len());
        assert(e[0] != "svg"@[0]);
        assert(e[0] != "png"@[0]);
    }
    if e == "jpeg"@ {
        assert(e[0] != "html"@[0]);
        assert(e.len() != "htm"@.len());
        assert(e.len() != "css"@.len());
        assert(e.len() != "js"@.len());
        assert(e.len() != "mjs"@.len());
        assert(e[1] != "json"@[1]);
        assert(e.len() != "svg"@.len());
        assert(e.len() != "png"@.len());
        assert(e.len() != "jpg"@.len());
    }
    if e == "gif"@ {
        assert(e.len() != "html"@.len());
        assert(e[0] != "htm"@[0]);
        assert(e[0] != "css"@[0]);
        assert(e.len() != "js"@.len());
        assert(e[0] != "mjs"@[0]);
        assert(e.len() != "json"@.len());
        assert(e[0] != "svg"@[0]);
        assert(e[0] != "png"@[0]);
        assert(e[0] != "jpg"@[0]);
        assert(e.len() != "jpeg"@.len());
    }
    if e == "webp"@ {
        assert(e[0] != "html"@[0]);
        assert(e.len() != "htm"@.len());
        assert(e.len() != "css"@.len());
        assert(e.len() != "js"@.len());
        assert(e.len() != "mjs"@.len());
        assert(e[0] != "json"@[0]);
        assert(e.len() != "svg"@.len());
        assert(e.len() != "png"@.len());
        assert(e.len() != "jpg"@.len());
        assert(e[0] != "jpeg"@[0]);
        assert(e.len() != "gif"@.len());
    }
    if e == "ico"@ {
        assert(e.len() != "html"@.len());
        assert(e[0] != "htm"@[0]);
        assert(e[0] != "css"@[0]);
        assert(e.len() != "js"@.len());
        assert(e[0] != "mjs"@[0]);
        assert(e.len() != "json"@.len());
        assert(e[0] != "svg"@[0]);
        assert(e[0] != "png"@[0]);
        assert(e[0] != "jpg"@[0]);
        assert(e.len() != "jpeg"@.len());
        assert(e[0] != "gif"@[0]);
        assert(e.len() != "webp"@.len());
    }
    if e == "wav"@ {
        assert(e.len() != "html"@.len());
        assert(e[0] != "htm"@[0]);
        assert(e[0] != "css"@[0]);
        assert(e.len() != "js"@.len());
        assert(e[0] != "mjs"@[0]);
        assert(e.len() != "json"@.len());
        assert(e[0] != "svg"@[0]);
        assert(e[0] != "png"@[0]);
        assert(e[0] != "jpg"@[0]);
        assert(e.len() != "jpeg"@.len());
        assert(e[0] != "gif"@[0]);
        assert(e.len() != "webp"@.len());
        assert(e[0] != "ico"@[0]);
    }
    if e == "mp3"@ {
        assert(e.len() != "html"@.len());
        assert(e[0] != "htm"@[0]);
        assert(e[0] != "css"@[0]);
        assert(e.len() != "js"@.len());
        assert(e[1] != "mjs"@[1]);
        assert(e.len() != "json"@.len());
        assert(e[0] != "svg"@[0]);
        assert(e[0] != "png"@[0]);
        assert(e[0] != "jpg"@[0]);
        assert(e.len() != "jpeg"@.len());
        assert(e[0] != "gif"@[0]);
        assert(e.len() != "webp"@.len());
        assert(e[0] != "ico"@[0]);
        assert(e[0] != "wav"@[0]);
    }
    if e == "ogg"@ {
        assert(e.len() != "html"@.len());
        assert(e[0] != "htm"@[0]);
        assert(e[0] != "css"@[0]);
        assert(e.len() != "js"@.len());
        assert(e[0] != "mjs"@[0]);
        assert(e.len() != "json"@.len());
        assert(e[0] != "svg"@[0]);
        assert(e[0] != "png"@[0]);
        assert(e[0] != "jpg"@[0]);
        assert(e.len() != "jpeg"@.len());
        assert(e[0] != "gif"@[0]);
        assert(e.len() != "webp"@.len());
        assert(e[0] != "ico"@[0]);
        assert(e[0] != "wav"@[0]);
        assert(e[0] != "mp3"@[0]);
    }
    if e == "woff"@ {
        assert(e[0] != "html"@[0]);
        assert(e.len() != "htm"@.len());
        assert(e.len() != "css"@.len());
        assert(e.len() != "js"@.len());
        assert(e.len() != "mjs"@.len());
        assert(e[0] != "json"@[0]);
        assert(e.len() != "svg"@.len());
        assert(e.len() != "png"@.len());
        assert(e.len() != "jpg"@.len());
        assert(e[0] != "jpeg"@[0]);
        assert(e.len() != "gif"@.len());
        assert(e[1] != "webp"@[1]);
        assert(e.len() != "ico"@.len());
        assert(e.len() != "wav"@.len());
        assert(e.len() != "mp3"@.len());
        assert(e.len() != "ogg"@.len());
    }
    if e == "woff2"@ {
        assert(e.len() != "html"@.len());
        assert(e.len() != "htm"@.len());
        assert(e.len() != "css"@.len());
        assert(e.len() != "js"@.len());
        assert(e.len() != "mjs"@.len());
        assert(e.len() != "json"@.len());
        assert(e.len() != "svg"@.len());
        assert(e.len() != "png"@.len());
        assert(e.len() != "jpg"@.len());
        assert(e.len() != "jpeg"@.len());
        assert(e.len() != "gif"@.len());
        assert(e.len() != "webp"@.len());
        assert(e.len() != "ico"@.len());
        assert(e.len() != "wav"@.len());
        assert(e.len() != "mp3"@.len());
        assert(e.len() != "ogg"@.len());
        assert(e.len() != "woff"@.len());
    }
    if e == "ttf"@ {
        assert(e.len() != "html"@.len());
        assert(e[0] != "htm"@[0]);
        assert(e[0] != "css"@[0]);
        assert(e.len() != "js"@.len());
        assert(e[0] != "mjs"@[0]);
        assert(e.len() != "json"@.len());
        assert(e[0] != "svg"@[0]);
        assert(e[0] != "png"@[0]);
        assert(e[0] != "jpg"@[0]);
        assert(e.len() != "jpeg"@.len());
        assert(e[0] != "gif"@[0]);
        assert(e.len() != "webp"@.len());
        assert(e[0] != "ico"@[0]);
        assert(e[0] != "wav"@[0]);
        assert(e[0] != "mp3"@[0]);
        assert(e[0] != "ogg"@[0]);
        assert(e.len() != "woff"@.len());
        assert(e.len() != "woff2"@.len());
    }
    if e == "otf"@ {
        assert(e.len() != "html"@.len());
        assert(e[0] != "htm"@[0]);
        assert(e[0] != "css"@[0]);
        assert(e.len() != "js"@.len());
        assert(e[0] != "mjs"@[0]);
        assert(e.len() != "json"@.len());
        assert(e[0] != "svg"@[0]);
        assert(e[0] != "png"@[0]);
        assert(e[0] != "jpg"@[0]);
        assert(e.len() != "jpeg"@.len());
        assert(e[0] != "gif"@[0]);
        assert(e.len() != "webp"@.len());
        assert(e[0] != "ico"@[0]);
        assert(e[0] != "wav"@[0]);
        assert(e[0] != "mp3"@[0]);
        assert(e[1] != "ogg"@[1]);
        assert(e.len() != "woff"@.len());
        assert(e.len() != "woff2"@.len());
        assert(e[0] != "ttf"@[0]);
    }
}

fn lit_eq(v: &Vec<char>, lit: &str) -> (r: bool)
    ensures
        r == (v@ == lit@),
{
    let l = chars_of(lit);
    chars_eq(v, &l)
}

/// Extensions that differ only in ASCII case get the same MIME type.
pub proof fn lemma_mime_ignores_ascii_case(a: Seq<char>, b: Seq<char>)
    requires
        crate::text::eq_ignore_ascii_case(a, b),
    ensures
        mime_spec(ascii_lower_seq(a)) == mime_spec(ascii_lower_seq(b)),
{
    assert(ascii_lower_seq(a) =~= ascii_lower_seq(b));
}

/// The `Content-Type` for a file with extension `ext` (empty when the
/// file has none), matched ignoring ASCII case. (Lowercasing with the
/// full Unicode mapping gives the same answers: no other character
/// lowercases to an ASCII letter used in these extensions.)
pub fn mime_from_ext(ext: &str) -> (r: &'static str)
    ensures
        r@ == mime_spec(ascii_lower_seq(ext@)),
{
    let e = ascii_lower_chars(&chars_of(ext));
    if lit_eq(&e, "html") || lit_eq(&e, "htm") {
        return "text/html; charset=utf-8";
    }
    if lit_eq(&e, "css") {
        return "text/css; charset=utf-8";
    }
    if lit_eq(&e, "js") || lit_eq(&e, "mjs") {
        return "application/javascript; charset=utf-8";
    }
    if lit_eq(&e, "json") {
        return "application/json; charset=utf-8";
    }
    if lit_eq(&e, "svg") {
        return "image/svg+xml";
    }
    if lit_eq(&e, "png") {
        return "image/png";
    }
    if lit_eq(&e, "jpg") || lit_eq(&e, "jpeg") {
        return "image/jpeg";
    }
    if lit_eq(&e, "gif") {
        return "image/gif";
    }
    if lit_eq(&e, "webp") {
        return "image/webp";
    }
    if lit_eq(&e, "ico") {
        return "image/x-icon";
    }
    if lit_eq(&e, "wav") {
        return "audio/wav";
    }
    if lit_eq(&e, "mp3") {
        return "audio/mpeg";
    }
    if lit_eq(&e, "ogg") {
        return "audio/ogg";
    }
    if lit_eq(&e, "woff") {
        return "font/woff";
    }
    if lit_eq(&e, "woff2") {
        return "font/woff2";
    }
    if lit_eq(&e, "ttf") {
        return "font/ttf";
    }
    if lit_eq(&e, "otf") {
        return "font/otf";
    }
    "application/octet-stream"
}

} // verus!
