use thclaws_core::workflow::{
    author_user_message, desugar_async, finish_authored_script, prompt_or_placeholder,
    strip_markdown_fence, stub_subagent_reply,
};

#[test]
fn fence_with_js_lang_tag() {
    let input = "```js\nlet x = 1;\nx\n```";
    assert_eq!(strip_markdown_fence(input), "let x = 1;\nx");
}

#[test]
fn fence_with_javascript_lang_tag() {
    let input = "```javascript\nlet x = 1;\n```";
    assert_eq!(strip_markdown_fence(input), "let x = 1;");
}

#[test]
fn bare_fence() {
    let input = "```\nlet x = 1;\n```";
    assert_eq!(strip_markdown_fence(input), "let x = 1;");
}

#[test]
fn no_fence_passes_through() {
    let input = "// Workflow: hi\nlet x = 1;\nx";
    assert_eq!(strip_markdown_fence(input), input);
}

#[test]
fn trims_outer_whitespace() {
    let input = "\n\n```js\nlet x = 1;\n```\n\n";
    assert_eq!(strip_markdown_fence(input), "let x = 1;");
}

#[test]
fn desugars_bare_await() {
    let input = "const x = await thclaws.subagent({prompt: \"hi\"});\nx";
    assert_eq!(
        desugar_async(input),
        "const x = thclaws.subagent({prompt: \"hi\"});\nx"
    );
}

#[test]
fn desugars_await_promise_all_map_pattern() {
    let input = "const summaries = await Promise.all(\n  paths.map(path => thclaws.subagent({prompt: `Read ${path}`}))\n);";
    let want = "const summaries = (\n  paths.map(path => thclaws.subagent({prompt: `Read ${path}`}))\n);";
    assert_eq!(desugar_async(input), want);
}

#[test]
fn desugars_bare_promise_all() {
    let input = "Promise.all([thclaws.subagent({prompt: \"a\"})])";
    assert_eq!(
        desugar_async(input),
        "([thclaws.subagent({prompt: \"a\"})])"
    );
}

#[test]
fn desugars_async_arrow() {
    let input = "paths.map(async (p) => thclaws.subagent({prompt: p}))";
    assert_eq!(
        desugar_async(input),
        "paths.map((p) => thclaws.subagent({prompt: p}))"
    );
}

#[test]
fn desugars_async_function() {
    let input = "async function wf() { return thclaws.subagent({prompt: \"x\"}); }";
    assert_eq!(
        desugar_async(input),
        "function wf() { return thclaws.subagent({prompt: \"x\"}); }"
    );
}

#[test]
fn desugar_preserves_innocent_text() {
    let input = "const awaited = 1;\nconst asynced = 2;";
    assert_eq!(desugar_async(input), input);
}

#[test]
fn full_real_world_script_desugars_cleanly() {
    let input = "const list = await thclaws.subagent({\n  prompt: \"List every .rs file under thclaws/crates/core/src, recursively. \" +\n          \"Return only paths, one per line, no other text.\"\n});\nconst paths = list.split(\"\\n\").map(p => p.trim()).filter(Boolean);\n\nconst summaries = await Promise.all(\n  paths.map(path => thclaws.subagent({\n    prompt: `Read ${path} and write ONE sentence describing what it does.`\n  }))\n);\n\npaths.map((p, i) => `${p} — ${summaries[i]}`).join(\"\\n\");";
    let out = desugar_async(input);
    assert!(!out.contains("await"), "await should be stripped, got:\n{out}");
    assert!(
        !out.contains("Promise.all"),
        "Promise.all should be stripped, got:\n{out}"
    );
    assert!(out.contains("thclaws.subagent"));
    assert!(out.contains("paths.map((p, i)"));
}

#[test]
fn fence_without_closing_is_only_trimmed() {
    let input = "  ```js\nlet x = 1;\n";
    assert_eq!(strip_markdown_fence(input), "```js\nlet x = 1;");
}

#[test]
fn fence_keeps_inner_leading_spaces_but_drops_newlines() {
    let input = "```\n\n  let x = 1;  \n\n```";
    assert_eq!(strip_markdown_fence(input), "  let x = 1;");
}

#[test]
fn fence_round_trip_for_each_opening() {
    let body = "const a = thclaws.subagent({prompt: \"q\"});\na";
    for lang in ["javascript", "js", ""] {
        let fenced = format!("```{lang}\n{body}\n```");
        assert_eq!(strip_markdown_fence(&fenced), body);
    }
}

#[test]
fn desugar_rewrites_inside_string_literals_too() {
    assert_eq!(desugar_async("\"await me\""), "\"me\"");
}

#[test]
fn desugar_async_without_space_before_paren() {
    assert_eq!(desugar_async("f(async(x) => x)"), "f((x) => x)");
}

#[test]
fn author_message_without_note() {
    assert_eq!(author_user_message("sum files", None), "Goal:\nsum files");
    assert_eq!(author_user_message("sum files", Some("   ")), "Goal:\nsum files");
}

#[test]
fn author_message_with_note() {
    assert_eq!(
        author_user_message("sum files", Some("use Read")),
        "Goal:\nsum files\n\nThe previous script was rejected. Revision note:\nuse Read"
    );
}

#[test]
fn authored_script_is_unfenced_and_desugared() {
    let reply = "```js\nconst a = await thclaws.subagent({prompt: \"x\"});\na\n```";
    assert_eq!(
        finish_authored_script(reply),
        Ok("const a = thclaws.subagent({prompt: \"x\"});\na".to_string())
    );
}

#[test]
fn empty_authored_script_is_refused() {
    assert_eq!(
        finish_authored_script("```js\n   \n```"),
        Err("model returned empty script".to_string())
    );
    assert_eq!(
        finish_authored_script("  "),
        Err("model returned empty script".to_string())
    );
}

#[test]
fn stub_subagent_echoes_prompt() {
    let prompt = prompt_or_placeholder(Some("hello".to_string()));
    assert_eq!(stub_subagent_reply(&prompt), "(stub for: hello)");
}

#[test]
fn stub_subagent_handles_missing_prompt() {
    let prompt = prompt_or_placeholder(None);
    assert_eq!(stub_subagent_reply(&prompt), "(stub for: (no prompt))");
}

#[test]
fn desugar_keeps_identifiers_that_end_in_a_keyword() {
    let input = "let myawait = 1;";
    assert_eq!(desugar_async(input), input);
    let input = "myPromise.all(x); notasync (y); xasync(z)";
    assert_eq!(desugar_async(input), input);
    assert_eq!(desugar_async("x = (await f()) + await g"), "x = (f()) + g");
    assert_eq!(desugar_async("$await h"), "$await h");
}
