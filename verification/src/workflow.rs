//! Workflow scripts: turning a model's reply into a script the
//! Script-mode JavaScript sandbox accepts, and the text the sandbox's
//! `thclaws.subagent` host function answers with when no Task tool is
//! wired.
use vstd::prelude::*;
use crate::text::{chars_of, ends_with, ends_with_chars, is_ws, lemma_replace_words_mid_word, only_mid_word, lemma_trim_by_fixed, lemma_trim_end_by_last, lemma_trim_end_by_take, lemma_trim_start_by_first, lemma_trim_start_by_skip, newline_pred, push_str, replace_words, replace_words_str, slice_chars, starts_with, starts_with_chars, string_from_chars, trim, trim_chars, trim_end, trim_end_by, trim_end_chars, trim_start, trim_start_by, trim_start_newlines, ws_pred};

verus! {

// ───────────────────────── specifications ─────────────────────────

/// The script after the six rewrites that remove the `async` / `await`
/// / `Promise.all` shapes, applied in this order. Each rewrites only
/// occurrences that start a word, so an identifier that merely contains
/// one of the shapes (`myawait `, `MyPromise.all(`) is left alone.
pub open spec fn desugar_async_spec(s: Seq<char>) -> Seq<char> {
    let s1 = replace_words(s, "await Promise.all("@, "("@);
    let s2 = replace_words(s1, "Promise.all("@, "("@);
    let s3 = replace_words(s2, "await "@, Seq::<char>::empty());
    let s4 = replace_words(s3, "async function"@, "function"@);
    let s5 = replace_words(s4, "async ("@, "("@);
    replace_words(s5, "async("@, "("@)
}

/// The body inside a fence that opens with `prefix`, if `t` is such a
/// fenced block: after `prefix`, leading newlines are dropped, a closing
/// ```` ``` ```` must end the text, and trailing whitespace of the body
/// is dropped.
pub open spec fn fence_body(t: Seq<char>, prefix: Seq<char>) -> Option<Seq<char>> {
    if starts_with(t, prefix) {
        let inner = trim_start_by(t.skip(prefix.len() as int), newline_pred());
        if ends_with(inner, "```"@) {
            Some(trim_end(inner.take(inner.len() - 3)))
        } else {
            None
        }
    } else {
        None
    }
}

/// The text with outer whitespace trimmed and one ```` ```javascript ````,
/// ```` ```js ```` or bare ```` ``` ```` fence (tried in that order)
/// unwrapped.
pub open spec fn strip_fence_spec(text: Seq<char>) -> Seq<char> {
    let t = trim(text);
    match fence_body(t, "```javascript"@) {
        Some(b) => b,
        None => match fence_body(t, "```js"@) {
            Some(b) => b,
            None => match fence_body(t, "```"@) {
                Some(b) => b,
                None => t,
            },
        },
    }
}

/// A fenced block: opening fence with language tag `lang`, a newline,
/// `body`, a newline and the closing fence.
pub open spec fn fenced(lang: Seq<char>, body: Seq<char>) -> Seq<char> {
    "```"@ + lang + seq!['\n'] + body + seq!['\n'] + "```"@
}

/// The user message that asks the model for a workflow script.
pub open spec fn author_message_spec(goal: Seq<char>, note: Option<Seq<char>>) -> Seq<char> {
    match note {
        Some(n) if trim(n).len() > 0 => "Goal:\n"@ + goal
            + "\n\nThe previous script was rejected. Revision note:\n"@ + n,
        _ => "Goal:\n"@ + goal,
    }
}

/// The script kept from a model reply, or the refusal.
pub open spec fn authored_script_spec(reply: Seq<char>) -> Result<Seq<char>, Seq<char>> {
    let script = desugar_async_spec(strip_fence_spec(reply));
    if trim(script).len() == 0 {
        Err("model returned empty script"@)
    } else {
        Ok(script)
    }
}

// ───────────────────────── laws ─────────────────────────

/// Text in which no rewritten shape (`await Promise.all(`,
/// `Promise.all(`, `await `, `async function`, `async (`, `async(`)
/// starts a word is left exactly as it is: identifiers that merely
/// contain one, such as `myawait `, `awaited` or `asynced`, survive.
pub proof fn lemma_desugar_keeps_text_without_keywords(s: Seq<char>)
    requires
        only_mid_word(s, "await Promise.all("@, false),
        only_mid_word(s, "Promise.all("@, false),
        only_mid_word(s, "await "@, false),
        only_mid_word(s, "async function"@, false),
        only_mid_word(s, "async ("@, false),
        only_mid_word(s, "async("@, false),
    ensures
        desugar_async_spec(s) == s,
{
    lemma_replace_words_mid_word(s, "await Promise.all("@, "("@, false);
    lemma_replace_words_mid_word(s, "Promise.all("@, "("@, false);
    lemma_replace_words_mid_word(s, "await "@, Seq::<char>::empty(), false);
    lemma_replace_words_mid_word(s, "async function"@, "function"@, false);
    lemma_replace_words_mid_word(s, "async ("@, "("@, false);
    lemma_replace_words_mid_word(s, "async("@, "("@, false);
}

proof fn lemma_trim_end_is_prefix(s: Seq<char>, p: spec_fn(char) -> bool)
    ensures
        trim_end_by(s, p) == s.take(trim_end_by(s, p).len() as int),
    decreases s.len(),
{
    if s.len() > 0 && p(s.last()) {
        lemma_trim_end_is_prefix(s.drop_last(), p);
        lemma_trim_end_by_last(s.drop_last(), p);
        assert(s.drop_last().take(trim_end_by(s, p).len() as int) =~= s.take(
            trim_end_by(s, p).len() as int,
        ));
    } else {
        assert(s.take(s.len() as int) =~= s);
    }
}

proof fn lemma_trim_start_is_suffix(s: Seq<char>, p: spec_fn(char) -> bool)
    ensures
        trim_start_by(s, p) == s.skip(s.len() - trim_start_by(s, p).len()),
    decreases s.len(),
{
    if s.len() > 0 && p(s[0]) {
        lemma_trim_start_is_suffix(s.drop_first(), p);
        lemma_trim_start_by_first(s.drop_first(), p);
        assert(s.drop_first().skip(s.drop_first().len() - trim_start_by(s, p).len()) =~= s.skip(
            s.len() - trim_start_by(s, p).len(),
        ));
    } else {
        assert(s.skip(0) =~= s);
    }
}

/// Ends of a trimmed text are not whitespace.
proof fn lemma_trimmed_ends(body: Seq<char>)
    requires
        trim(body) == body,
    ensures
        body.len() > 0 ==> !is_ws(body[0]) && !is_ws(body.last()),
{
    let y = trim_start(body);
    lemma_trim_start_by_first(body, ws_pred());
    lemma_trim_end_by_last(y, ws_pred());
    lemma_trim_end_is_prefix(y, ws_pred());
    if body.len() > 0 {
        assert(body[0] == y[0]);
    }
}

/// The fence around a script is removed and the script given back
/// exactly, for each of the three fence openings the model uses, when
/// the script has no outer whitespace of its own.
pub proof fn lemma_fenced_body_recovered(lang: Seq<char>, body: Seq<char>)
    requires
        lang == "javascript"@ || lang == "js"@ || lang == Seq::<char>::empty(),
        trim(body) == body,
    ensures
        strip_fence_spec(fenced(lang, body)) == body,
{
    reveal_strlit("```");
    reveal_strlit("```javascript");
    reveal_strlit("```js");
    reveal_strlit("javascript");
    reveal_strlit("js");
    let x = fenced(lang, body);
    lemma_trimmed_ends(body);
    // the fenced text has no outer whitespace
    assert(x[0] == '`');
    assert(x.last() == '`');
    lemma_trim_by_fixed(x, ws_pred());
    assert(trim_start(x) == x);
    assert(trim(x) == x);
    let prefix = "```"@ + lang;
    assert("```"@ + "javascript"@ =~= "```javascript"@);
    assert("```"@ + "js"@ =~= "```js"@);
    assert("```"@ + Seq::<char>::empty() =~= "```"@);
    assert(x.take(prefix.len() as int) =~= prefix);
    assert(starts_with(x, prefix));
    let rest = x.skip(prefix.len() as int);
    assert(rest =~= seq!['\n'] + body + seq!['\n'] + "```"@);
    let inner = trim_start_by(rest, newline_pred());
    if body.len() > 0 {
        lemma_trim_start_by_skip(rest, newline_pred(), 1);
        assert(rest.skip(1) =~= body + seq!['\n'] + "```"@);
    } else {
        assert(rest[1] == '\n');
        lemma_trim_start_by_skip(rest, newline_pred(), 2);
        assert(rest.skip(2) =~= "```"@);
    }
    assert(inner.skip(inner.len() - 3) =~= "```"@);
    assert(ends_with(inner, "```"@));
    let kept = inner.take(inner.len() - 3);
    if body.len() > 0 {
        assert(kept =~= body + seq!['\n']);
        lemma_trim_end_by_take(kept, ws_pred(), body.len() as int);
        assert(kept.take(body.len() as int) =~= body);
    } else {
        assert(kept =~= body);
    }
    assert(fence_body(x, prefix) == Some(body));
    if lang == "js"@ {
        assert(x[5] == '\n');
        assert(!starts_with(x, "```javascript"@)) by {
            if x.len() >= 13 {
                assert(x.take(13)[5] == x[5]);
            }
        }
    } else if lang == Seq::<char>::empty() {
        assert(x[3] == '\n');
        assert(!starts_with(x, "```javascript"@)) by {
            if x.len() >= 13 {
                assert(x.take(13)[3] == x[3]);
            }
        }
        assert(!starts_with(x, "```js"@)) by {
            if x.len() >= 5 {
                assert(x.take(5)[3] == x[3]);
            }
        }
    }
}

// ───────────────────────── executable ─────────────────────────

/// Rewrites the `await` / `async` / `Promise.all` shapes that Script-mode
/// evaluation rejects. With a synchronous `thclaws.subagent` these are
/// no-ops, so the rewrite keeps what the script means; a shape counts
/// only where it starts a word, so identifiers that contain one are
/// kept. Known limits of a text-level rewrite: `Promise.all(arr).then(cb)`
/// becomes `(arr).then(cb)`, and the words inside string literals are
/// rewritten too.
pub fn desugar_async(s: &str) -> (r: String)
    ensures
        r@ == desugar_async_spec(s@),
{
    proof {
        reveal_strlit("await Promise.all(");
        reveal_strlit("Promise.all(");
        reveal_strlit("await ");
        reveal_strlit("async function");
        reveal_strlit("async (");
        reveal_strlit("async(");
        reveal_strlit("");
        assert(""@ =~= Seq::<char>::empty());
    }
    let v = chars_of(s);
    let v = replace_words_str(&v, "await Promise.all(", "(");
    let v = replace_words_str(&v, "Promise.all(", "(");
    let v = replace_words_str(&v, "await ", "");
    let v = replace_words_str(&v, "async function", "function");
    let v = replace_words_str(&v, "async (", "(");
    let v = replace_words_str(&v, "async(", "(");
    string_from_chars(&v)
}

fn try_fence(t: &Vec<char>, prefix: &str) -> (r: Option<Vec<char>>)
    ensures
        match r {
            Some(b) => fence_body(t@, prefix@) == Some(b@),
            None => fence_body(t@, prefix@) is None,
        },
{
    proof {
        reveal_strlit("```");
    }
    let p = chars_of(prefix);
    if !starts_with_chars(t, &p) {
        return None;
    }
    let rest = slice_chars(t, p.len(), t.len());
    assert(rest@ =~= t@.skip(prefix@.len() as int));
    let inner = trim_start_newlines(&rest);
    let close = chars_of("```");
    if !ends_with_chars(&inner, &close) {
        return None;
    }
    let kept = slice_chars(&inner, 0, inner.len() - 3);
    assert(kept@ =~= inner@.take(inner@.len() - 3));
    Some(trim_end_chars(&kept))
}

/// Trims the reply and unwraps one ```` ```javascript ````, ```` ```js ````
/// or bare ```` ``` ```` fence around it; a reply that is not fenced
/// comes back trimmed.
pub fn strip_markdown_fence(text: &str) -> (r: String)
    ensures
        r@ == strip_fence_spec(text@),
{
    let v = chars_of(text);
    let t = trim_chars(&v);
    if let Some(b) = try_fence(&t, "```javascript") {
        return string_from_chars(&b);
    }
    if let Some(b) = try_fence(&t, "```js") {
        return string_from_chars(&b);
    }
    if let Some(b) = try_fence(&t, "```") {
        return string_from_chars(&b);
    }
    string_from_chars(&t)
}

/// The single user message sent when asking for a script: the goal, and
/// the revision note when a re-author carries one that is not blank.
pub fn author_user_message(user_prompt: &str, revision_note: Option<&str>) -> (r: String)
    ensures
        r@ == author_message_spec(
            user_prompt@,
            match revision_note {
                Some(n) => Some(n@),
                None => None,
            },
        ),
{
    let mut out: Vec<char> = Vec::new();
    push_str(&mut out, "Goal:\n");
    push_str(&mut out, user_prompt);
    match revision_note {
        Some(note) => {
            let nv = chars_of(note);
            let trimmed = trim_chars(&nv);
            if trimmed.len() > 0 {
                push_str(&mut out, "\n\nThe previous script was rejected. Revision note:\n");
                push_str(&mut out, note);
            }
        },
        None => {},
    }
    string_from_chars(&out)
}

/// The script kept from the model's reply: unfenced and desugared, and
/// refused when nothing but whitespace is left.
pub fn finish_authored_script(reply: &str) -> (r: Result<String, String>)
    ensures
        match r {
            Ok(s) => authored_script_spec(reply@) == Ok::<Seq<char>, Seq<char>>(s@),
            Err(e) => authored_script_spec(reply@) == Err::<Seq<char>, Seq<char>>(e@),
        },
{
    let unfenced = strip_markdown_fence(reply);
    let script = desugar_async(unfenced.as_str());
    let sv = chars_of(script.as_str());
    let trimmed = trim_chars(&sv);
    if trimmed.len() == 0 {
        Err(String::from_str("model returned empty script"))
    } else {
        Ok(script)
    }
}

/// The prompt passed to `thclaws.subagent`, or `(no prompt)` when the
/// argument has no string `prompt` field.
pub fn prompt_or_placeholder(prompt: Option<String>) -> (r: String)
    ensures
        r@ == match prompt {
            Some(p) => p@,
            None => "(no prompt)"@,
        },
{
    match prompt {
        Some(p) => p,
        None => String::from_str("(no prompt)"),
    }
}

/// What `thclaws.subagent` answers when no Task tool is wired: the
/// prompt echoed back inside `(stub for: …)`.
pub fn stub_subagent_reply(prompt: &str) -> (r: String)
    ensures
        r@ == "(stub for: "@ + prompt@ + ")"@,
{
    let mut out: Vec<char> = Vec::new();
    push_str(&mut out, "(stub for: ");
    push_str(&mut out, prompt);
    push_str(&mut out, ")");
    string_from_chars(&out)
}

} // verus!
