//! The curated reference games behind `/games` and `/game <name>`.
//!
//! The list is fixed: a small showcase, not the whole reference
//! catalogue. `/game <name>` runs the gamedev MCP server's
//! `GamedevPlayReference` tool, which serves the game's source read-only
//! from the server's own image.
use vstd::prelude::*;
use crate::error::Error;
use crate::text::{
    ascii_lower, chars_of, ends_with, ends_with_chars, eq_ignore_ascii_case, push_str, spaces,
    str_eq_ignore_ascii_case, string_from_chars,
};
use crate::tools::UiResource;

verus! {

/// One entry of the showcase. `display_name` is what the user types
/// after `/game` and also the name forwarded to the MCP play tool, which
/// resolves it against its own reference index; `reference_id` is kept
/// for documentation only and is never sent.
pub struct CuratedGame {
    pub display_name: &'static str,
    pub reference_id: &'static str,
    pub description: &'static str,
}

/// The showcase, in order: display name, reference id, description.
pub open spec fn curated_spec() -> Seq<(Seq<char>, Seq<char>, Seq<char>)> {
    seq![
        ("ThaiChecker"@, "thai-checker-game"@, "หมากฮอสไทย — เริ่ม 2 แถว เดินทแยง กินกระโดด"@),
        ("Othello"@, "othello-game"@, "เกมพลิกหมาก 8×8 — กลยุทธ์ครองมุมและขอบ"@),
        ("Chess"@, "chess-game"@, "หมากรุกสากล — ครบทั้ง 6 ตัวหมาก"@),
        ("IsometricMatch3"@, "IsometricMatch3"@, "จับคู่สามชิ้นในมุมมอง isometric"@),
        ("VeggieMerge"@, "VeggieMerge"@, "ปลูก–รวม–เก็บเกี่ยวผัก เพิ่ม tier ตามการ merge"@),
    ]
}

/// The curated showcase, in display order.
pub fn curated_games() -> (r: [CuratedGame; 5])
    ensures
        forall|i: int|
            0 <= i < 5 ==> (#[trigger] r@[i]).display_name@ == curated_spec()[i].0
                && r@[i].reference_id@ == curated_spec()[i].1 && r@[i].description@
                == curated_spec()[i].2,
{
    let r = [
        CuratedGame { display_name: "ThaiChecker", reference_id: "thai-checker-game", description: "หมากฮอสไทย — เริ่ม 2 แถว เดินทแยง กินกระโดด" },
        CuratedGame { display_name: "Othello", reference_id: "othello-game", description: "เกมพลิกหมาก 8×8 — กลยุทธ์ครองมุมและขอบ" },
        CuratedGame { display_name: "Chess", reference_id: "chess-game", description: "หมากรุกสากล — ครบทั้ง 6 ตัวหมาก" },
        CuratedGame { display_name: "IsometricMatch3", reference_id: "IsometricMatch3", description: "จับคู่สามชิ้นในมุมมอง isometric" },
        CuratedGame { display_name: "VeggieMerge", reference_id: "VeggieMerge", description: "ปลูก–รวม–เก็บเกี่ยวผัก เพิ่ม tier ตามการ merge" },
    ];
    assert forall|i: int| 0 <= i < 5 implies (#[trigger] r@[i]).display_name@ == curated_spec()[i].0
        && r@[i].reference_id@ == curated_spec()[i].1 && r@[i].description@ == curated_spec()[i].2 by {
        if i == 0 {} else if i == 1 {} else if i == 2 {} else if i == 3 {} else {}
    }
    r
}


/// The bare name of the MCP tool that plays a reference game.
pub const PLAY_TOOL_BARE: &'static str = "GamedevPlayReference";

/// The separator between an MCP server's name and its tool's name.
pub const MCP_NAME_SEPARATOR: &'static str = "__";

pub open spec fn game_count() -> nat {
    5
}

pub open spec fn game_name(i: int) -> Seq<char> {
    curated_spec()[i].0
}

pub open spec fn game_reference(i: int) -> Seq<char> {
    curated_spec()[i].1
}

pub open spec fn game_description(i: int) -> Seq<char> {
    curated_spec()[i].2
}

/// The widest display name among the first `n` games, in characters.
pub open spec fn name_width(n: int) -> nat
    decreases n,
{
    if n <= 0 {
        0
    } else {
        let w = name_width(n - 1);
        let l = game_name(n - 1).len();
        if l > w {
            l
        } else {
            w
        }
    }
}

/// `  /game <name padded to width>  <description>` and a newline.
pub open spec fn game_line(i: int, width: nat) -> Seq<char> {
    "  /game "@ + game_name(i) + spaces((width - game_name(i).len()) as nat) + "  "@
        + game_description(i) + "\n"@
}

/// The lines of the first `n` games.
pub open spec fn game_lines(n: int, width: nat) -> Seq<char>
    decreases n,
{
    if n <= 0 {
        Seq::empty()
    } else {
        game_lines(n - 1, width) + game_line(n - 1, width)
    }
}

pub open spec fn games_footer() -> Seq<char> {
    "\nGames are served read-only from the gamedev-mcp reference library — they cannot be modified during play."@
}

/// The `/games` output: a header, one line per game with names padded to
/// the widest name, and the read-only notice.
pub open spec fn games_list_spec() -> Seq<char> {
    "Playable reference games:\n"@ + game_lines(5, name_width(5)) + games_footer()
}

/// The `/games` output.
pub fn render_games_list() -> (r: String)
    ensures
        r@ == games_list_spec(),
{
    let games = curated_games();
    let mut width: usize = 0;
    let mut i: usize = 0;
    while i < 5
        invariant
            i <= 5,
            forall|j: int|
                0 <= j < 5 ==> (#[trigger] games@[j]).display_name@ == curated_spec()[j].0
                    && games@[j].reference_id@ == curated_spec()[j].1 && games@[j].description@
                    == curated_spec()[j].2,
            width == name_width(i as int),
        decreases 5 - i,
    {
        let l = chars_of(games[i].display_name).len();
        if l > width {
            width = l;
        }
        i = i + 1;
    }
    let mut out: Vec<char> = Vec::new();
    push_str(&mut out, "Playable reference games:\n");
    let mut k: usize = 0;
    while k < 5
        invariant
            k <= 5,
            forall|j: int|
                0 <= j < 5 ==> (#[trigger] games@[j]).display_name@ == curated_spec()[j].0
                    && games@[j].reference_id@ == curated_spec()[j].1 && games@[j].description@
                    == curated_spec()[j].2,
            width == name_width(5),
            out@ == "Playable reference games:\n"@ + game_lines(k as int, width as nat),
        decreases 5 - k,
    {
        let name = chars_of(games[k].display_name);
        proof {
            lemma_width_bounds(5, k as int);
        }
        let ghost before = out@;
        push_str(&mut out, "  /game ");
        push_str(&mut out, games[k].display_name);
        let mut p: usize = name.len();
        while p < width
            invariant
                name.len() <= p <= width,
                out@ == before + "  /game "@ + game_name(k as int) + spaces((p - name.len()) as nat),
            decreases width - p,
        {
            out.push(' ');
            p = p + 1;
            assert(spaces((p - name.len()) as nat) =~= spaces((p - 1 - name.len()) as nat).push(' '));
        }
        push_str(&mut out, "  ");
        push_str(&mut out, games[k].description);
        push_str(&mut out, "\n");
        k = k + 1;
        assert(out@ =~= "Playable reference games:\n"@ + game_lines(k as int, width as nat));
    }
    push_str(&mut out, "\nGames are served read-only from the gamedev-mcp reference library — they cannot be modified during play.");
    string_from_chars(&out)
}

proof fn lemma_width_bounds(n: int, k: int)
    requires
        0 <= k < n,
    ensures
        game_name(k).len() <= name_width(n),
    decreases n,
{
    if k < n - 1 {
        lemma_width_bounds(n - 1, k);
    }
}

/// The curated game whose display name matches `display_name` ignoring
/// ASCII case: the first such, by position in the list.
pub fn find_curated_game(display_name: &str) -> (r: Option<usize>)
    ensures
        match r {
            Some(i) => i < 5 && eq_ignore_ascii_case(game_name(i as int), display_name@) && forall|
                j: int,
            | 0 <= j < i ==> !eq_ignore_ascii_case(#[trigger] game_name(j), display_name@),
            None => forall|j: int|
                0 <= j < 5 ==> !eq_ignore_ascii_case(#[trigger] game_name(j), display_name@),
        },
{
    let games = curated_games();
    let mut i: usize = 0;
    while i < 5
        invariant
            i <= 5,
            forall|j: int|
                0 <= j < 5 ==> (#[trigger] games@[j]).display_name@ == curated_spec()[j].0
                    && games@[j].reference_id@ == curated_spec()[j].1 && games@[j].description@
                    == curated_spec()[j].2,
            forall|j: int| 0 <= j < i ==> !eq_ignore_ascii_case(#[trigger] game_name(j), display_name@),
        decreases 5 - i,
    {
        if str_eq_ignore_ascii_case(games[i].display_name, display_name) {
            return Some(i);
        }
        i = i + 1;
    }
    None
}

/// `/game` names that differ only in ASCII case select the same game:
/// each curated name matches both or neither.
pub proof fn lemma_game_match_ignores_ascii_case(a: Seq<char>, b: Seq<char>, i: int)
    requires
        eq_ignore_ascii_case(a, b),
    ensures
        eq_ignore_ascii_case(game_name(i), a) == eq_ignore_ascii_case(game_name(i), b),
{
    let g = game_name(i);
    if eq_ignore_ascii_case(g, a) {
        assert forall|k: int| 0 <= k < g.len() implies ascii_lower(#[trigger] g[k]) == ascii_lower(
            b[k],
        ) by {
            assert(ascii_lower(a[k]) == ascii_lower(b[k]));
        }
    }
    if eq_ignore_ascii_case(g, b) {
        assert forall|k: int| 0 <= k < g.len() implies ascii_lower(#[trigger] g[k]) == ascii_lower(
            a[k],
        ) by {
            assert(ascii_lower(a[k]) == ascii_lower(b[k]));
        }
    }
}

pub open spec fn available_names() -> Seq<char> {
    "ThaiChecker, Othello, Chess, IsometricMatch3, VeggieMerge"@
}

/// The refusal for a name that is not in the list; it names the list.
pub fn unknown_game_error(display_name: &str) -> (r: Error)
    ensures
        r matches Error::Tool(m) && m@ == "unknown game '"@ + display_name@ + "'. Available: "@
            + available_names(),
{
    let mut out: Vec<char> = Vec::new();
    push_str(&mut out, "unknown game '");
    push_str(&mut out, display_name);
    push_str(&mut out, "'. Available: ");
    push_str(&mut out, "ThaiChecker, Othello, Chess, IsometricMatch3, VeggieMerge");
    Error::Tool(string_from_chars(&out))
}

pub open spec fn play_tool_suffix() -> Seq<char> {
    "__GamedevPlayReference"@
}

pub open spec fn mcp_missing_message() -> Seq<char> {
    "gamedev MCP not connected — expected a tool ending in '__GamedevPlayReference'. Make sure the gamedev-mcp server is registered in mcp.json and running."@
}

/// The first tool name, in the order given, that ends in
/// `__GamedevPlayReference`: the gamedev MCP server's play tool under
/// whatever alias the server was mounted.
pub fn find_play_tool(tool_names: &Vec<String>) -> (r: Option<usize>)
    ensures
        match r {
            Some(i) => i < tool_names@.len() && ends_with(tool_names@[i as int]@, play_tool_suffix())
                && forall|j: int|
                0 <= j < i ==> !ends_with(#[trigger] tool_names@[j]@, play_tool_suffix()),
            None => forall|j: int|
                0 <= j < tool_names@.len() ==> !ends_with(
                    #[trigger] tool_names@[j]@,
                    play_tool_suffix(),
                ),
        },
{
    let mut suffix: Vec<char> = Vec::new();
    push_str(&mut suffix, MCP_NAME_SEPARATOR);
    push_str(&mut suffix, PLAY_TOOL_BARE);
    assert(suffix@ =~= play_tool_suffix()) by {
        reveal_strlit("__");
        reveal_strlit("GamedevPlayReference");
        reveal_strlit("__GamedevPlayReference");
    }
    let mut i: usize = 0;
    while i < tool_names.len()
        invariant
            i <= tool_names@.len(),
            suffix@ == play_tool_suffix(),
            forall|j: int| 0 <= j < i ==> !ends_with(#[trigger] tool_names@[j]@, play_tool_suffix()),
        decreases tool_names.len() - i,
    {
        let n = chars_of(tool_names[i].as_str());
        if ends_with_chars(&n, &suffix) {
            return Some(i);
        }
        i = i + 1;
    }
    None
}

/// What `/game <name>` invokes: the qualified play tool and the
/// game's canonical display name to send it.
pub struct PlayTarget {
    pub qualified_tool_name: String,
    pub display_name: &'static str,
}

/// Resolves `/game <display_name>` against the tools the host has
/// registered: an unknown name is refused first, then a missing play
/// tool; otherwise the first play tool and the game's display name as
/// the showcase spells it (whatever case the user typed).
pub fn plan_play(tool_names: &Vec<String>, display_name: &str) -> (r: Result<PlayTarget, Error>)
    ensures
        match r {
            Ok(t) => exists|g: int, k: int|
                0 <= g < 5 && 0 <= k < tool_names@.len() && eq_ignore_ascii_case(
                    #[trigger] game_name(g),
                    display_name@,
                ) && (forall|j: int|
                    0 <= j < g ==> !eq_ignore_ascii_case(#[trigger] game_name(j), display_name@))
                    && t.display_name@ == game_name(g) && t.qualified_tool_name@
                    == #[trigger] tool_names@[k]@ && ends_with(tool_names@[k]@, play_tool_suffix())
                    && (forall|j: int|
                    0 <= j < k ==> !ends_with(#[trigger] tool_names@[j]@, play_tool_suffix())),
            Err(Error::Tool(m)) => {
                ||| (forall|j: int|
                    0 <= j < 5 ==> !eq_ignore_ascii_case(#[trigger] game_name(j), display_name@))
                    && m@ == "unknown game '"@ + display_name@ + "'. Available: "@
                    + available_names()
                ||| (exists|g: int|
                    0 <= g < 5 && eq_ignore_ascii_case(#[trigger] game_name(g), display_name@))
                    && (forall|j: int|
                    0 <= j < tool_names@.len() ==> !ends_with(
                        #[trigger] tool_names@[j]@,
                        play_tool_suffix(),
                    )) && m@ == mcp_missing_message()
            },
            Err(_) => false,
        },
{
    let games = curated_games();
    let g = match find_curated_game(display_name) {
        Some(g) => g,
        None => return Err(unknown_game_error(display_name)),
    };
    let k = match find_play_tool(tool_names) {
        Some(k) => k,
        None => {
            proof {
                reveal_strlit("gamedev MCP not connected — expected a tool ending in '__GamedevPlayReference'. Make sure the gamedev-mcp server is registered in mcp.json and running.");
            }
            return Err(
                Error::Tool(
                    String::from_str(
                        "gamedev MCP not connected — expected a tool ending in '__GamedevPlayReference'. Make sure the gamedev-mcp server is registered in mcp.json and running.",
                    ),
                ),
            );
        },
    };
    let t = PlayTarget {
        qualified_tool_name: tool_names[k].clone(),
        display_name: games[g].display_name,
    };
    assert(eq_ignore_ascii_case(game_name(g as int), display_name@));
    assert(ends_with(tool_names@[k as int]@, play_tool_suffix()));
    Ok(t)
}

/// The refusal when the play tool disappears between lookup and call.
pub fn vanished_tool_error(qualified: &str) -> (r: Error)
    ensures
        r matches Error::Tool(m) && m@ == "tool '"@ + qualified@ + "' vanished mid-lookup"@,
{
    let mut out: Vec<char> = Vec::new();
    push_str(&mut out, "tool '");
    push_str(&mut out, qualified);
    push_str(&mut out, "' vanished mid-lookup");
    Error::Tool(string_from_chars(&out))
}

/// Outcome of a successful `/game`: the qualified tool name that
/// produced the widget, its text output, and the widget when the server
/// is trusted.
#[derive(Debug)]
pub struct PlayOutcome {
    pub qualified_tool_name: String,
    pub output: String,
    pub ui_resource: Option<UiResource>,
}

} // verus!
