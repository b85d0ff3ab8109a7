//! Help text for the probe's MCP tools: the tool catalog, usage notes and
//! example payloads.

use vstd::prelude::*;
use crate::text::{decimal, fmt_usize, join_strings, join_with, str_eq, strings_view};

verus! {

/// Help entry describing a probe tool.
pub struct ToolHelpEntry {
    pub name: String,
    pub summary: String,
    pub example: Vec<String>,
}

/// Example IDs for `probe_run` usage snippets.
#[derive(Clone, Copy, Debug, PartialEq, Eq, Structural)]
pub enum ProbeRunExampleId {
    Unauthenticated,
    Cached,
    Explicit,
    Refresh,
}

/// A help entry as plain values.
pub struct EntryModel {
    pub name: Seq<char>,
    pub summary: Seq<char>,
    pub example: Seq<Seq<char>>,
}

/// The plain values of a help entry.
pub open spec fn entry_view(e: ToolHelpEntry) -> EntryModel {
    EntryModel { name: e.name@, summary: e.summary@, example: strings_view(e.example@) }
}

/// The plain values of each help entry.
pub open spec fn entries_view(s: Seq<ToolHelpEntry>) -> Seq<EntryModel> {
    s.map_values(|e: ToolHelpEntry| entry_view(e))
}

/// The probe tools, in the order they are listed.
pub open spec fn tool_catalog() -> Seq<EntryModel> {
    seq![
        EntryModel {
            name: "probe_run"@,
            summary: "Full probe: connect + list tools/resources/prompts."@,
            example: Seq::<Seq<char>>::empty(),
        },
        EntryModel {
            name: "probe_run_script"@,
            summary: "Scripted probe with assertions and snapshots."@,
            example: seq![
                "Example script:"@,
                "{"@,
                "  \"scenario\": {"@,
                "    \"transport\": \"streamable-http\","@,
                "    \"url\": \"http://127.0.0.1:8002/mcp\","@,
                "    \"access_token\": \"<token>\","@,
                "    \"steps\": ["@,
                "      { \"tool\": \"ping\" }"@,
                "    ]"@,
                "  }"@,
                "}"@,
            ],
        },
        EntryModel {
            name: "probe_help"@,
            summary: "List tools, examples, and usage notes."@,
            example: seq![
                "{ }"@,
            ],
        },
        EntryModel {
            name: "probe_discover_auth"@,
            summary: "Check PRM + OAuth metadata discovery without connecting."@,
            example: seq![
                "{ \"url\": \"http://127.0.0.1:8002/mcp\" }"@,
            ],
        },
        EntryModel {
            name: "probe_handshake"@,
            summary: "Connect + ping + list tools, or confirm an expected bearer challenge before authenticated requests."@,
            example: seq![
                "{ \"transport\": \"streamable-http\", \"url\": \"http://127.0.0.1:8002/mcp\" }"@,
                "{ \"transport\": \"streamable-http\", \"url\": \"http://127.0.0.1:8002/mcp\", \"expect_auth_required\": true }"@,
            ],
        },
        EntryModel {
            name: "probe_http_smoke"@,
            summary: "HTTP smoke check for PRM + OAuth metadata endpoints."@,
            example: seq![
                "{ \"url\": \"http://127.0.0.1:8002/mcp\" }"@,
                "{ \"url\": \"http://127.0.0.1:8002/mcp\", \"expect_registration_endpoint\": true }"@,
            ],
        },
        EntryModel {
            name: "probe_replay"@,
            summary: "Validate Last-Event-ID replay for streamable HTTP."@,
            example: seq![
                "{ \"url\": \"http://127.0.0.1:8002/mcp\", \"use_auth\": true }"@,
            ],
        },
        EntryModel {
            name: "probe_raw_request"@,
            summary: "Send a raw MCP request (method + params)."@,
            example: seq![
                "{"@,
                "  \"transport\": \"streamable-http\","@,
                "  \"url\": \"http://127.0.0.1:8002/mcp\","@,
                "  \"method\": \"tools/list\""@,
                "}"@,
            ],
        },
        EntryModel {
            name: "probe_call_tool"@,
            summary: "Connect and call a single MCP tool."@,
            example: seq![
                "{"@,
                "  \"transport\": \"streamable-http\","@,
                "  \"url\": \"http://127.0.0.1:8002/mcp\","@,
                "  \"tool_name\": \"status.get\","@,
                "  \"arguments\": {}"@,
                "}"@,
            ],
        },
        EntryModel {
            name: "probe_prompt_render"@,
            summary: "Connect and render a single MCP prompt."@,
            example: seq![
                "{"@,
                "  \"transport\": \"streamable-http\","@,
                "  \"url\": \"http://127.0.0.1:8002/mcp\","@,
                "  \"prompt_name\": \"summarize_case\","@,
                "  \"arguments\": { \"case_id\": \"C123\" }"@,
                "}"@,
            ],
        },
        EntryModel {
            name: "probe_resource_read"@,
            summary: "Connect and read a single MCP resource."@,
            example: seq![
                "{"@,
                "  \"transport\": \"streamable-http\","@,
                "  \"url\": \"http://127.0.0.1:8002/mcp\","@,
                "  \"uri\": \"mcp-probe://status\""@,
                "}"@,
            ],
        },
        EntryModel {
            name: "probe_resource_subscribe"@,
            summary: "Connect, subscribe to a resource URI, then unsubscribe."@,
            example: seq![
                "{"@,
                "  \"transport\": \"streamable-http\","@,
                "  \"url\": \"http://127.0.0.1:8002/mcp\","@,
                "  \"uri\": \"mcp-probe://status\","@,
                "  \"trace\": true"@,
                "}"@,
            ],
        },
    ]
}

/// The usage notes shown with help text.
pub open spec fn notes() -> Seq<Seq<char>> {
    seq![
        "Notes:"@,
        "- transport: stdio | sse | streamable-http (alias streamable_http)"@,
        "- log_format: json | logfmt (alias text)"@,
        "- auth: for protected servers, pass access_token (Bearer token). For OAuth refresh flows, pass refresh_token + client_id (HTTP transports only)."@,
        "- expect_auth_required: for protected HTTP servers, allows probe_handshake to stop cleanly once the expected bearer challenge is confirmed."@,
        "- use_auth: true uses a cached token if the probe server has one configured for the target URL."@,
        "- *_token_path options read a token JSON file; paths are restricted to the probe server token directory for safety."@,
        "- refresh_token auth: token_endpoint is discovered from server_url if omitted."@,
        "- verbosity: summary (default) omits tools/resources/resource_templates/prompts raw payloads; full returns full report payloads and the redacted catalog artifact."@,
        "- descriptor_profile: basic (default) checks generic input schemas; chatgpt_tool also checks tool-only ChatGPT connector metadata; apps_sdk_ui requires at least one UI template descriptor."@,
        "- trace: true captures JSON-RPC traffic (may be large)."@,
        "- stdio cwd/env: set cwd or env for stdio transports when probing monorepos."@,
        "- stdio may be disabled by probe policy; if so, use sse/streamable-http."@,
        "- outbound URL hosts may be restricted by probe policy; localhost is commonly allowed."@,
        "- probe_raw_request params must be an object when provided (null is treated as omitted)."@,
        "- probe_prompt_render sends prompts/get with prompt_name and optional arguments; use dry_run first to preview target/auth/argument keys."@,
        "- probe_resource_read sends resources/read for one URI; probe_resource_subscribe sends resources/subscribe then resources/unsubscribe."@,
        "- For resource subscription update-notification debugging, pass trace: true and inspect the returned trace in full verbosity."@,
        "- probe_replay only supports streamable-http and opens a short SSE stream to capture event ids."@,
        "- dry_run: true skips sending the request and returns a preview."@,
    ]
}

/// The auth caveats shown with help text.
pub open spec fn auth_gotchas() -> Seq<Seq<char>> {
    seq![
        "Auth gotchas:"@,
        "- use_auth (cached tokens) is mutually exclusive with access_token* and refresh_token* options."@,
        "- refresh_token auth only works for HTTP transports (sse/streamable-http)."@,
        "- expect_registration_endpoint: true fails auth discovery/smoke unless OAuth metadata includes registration_endpoint."@,
        "- token file paths must be within the probe server token directory (enforced for safety)."@,
    ]
}

/// The `probe_run` examples: id, title and payload line.
pub open spec fn run_examples() -> Seq<(ProbeRunExampleId, Seq<char>, Seq<char>)> {
    seq![
        (ProbeRunExampleId::Unauthenticated, "Unauthenticated probe"@, "{ \"transport\": \"streamable-http\", \"url\": \"http://127.0.0.1:8002/mcp\" }"@),
        (ProbeRunExampleId::Cached, "Auth with cached token (if available on the probe server)"@, "{ \"transport\": \"streamable-http\", \"url\": \"http://127.0.0.1:8002/mcp\", \"use_auth\": true }"@),
        (ProbeRunExampleId::Explicit, "Auth with explicit token"@, "{ \"transport\": \"streamable-http\", \"url\": \"http://127.0.0.1:8002/mcp\", \"access_token\": \"<token>\" }"@),
        (ProbeRunExampleId::Refresh, "Refresh access token (OAuth refresh_token)"@, "{ \"transport\": \"streamable-http\", \"url\": \"http://127.0.0.1:8002/mcp\", \"refresh_token\": \"<refresh_token>\", \"client_id\": \"my-client\" }"@),
    ]
}

fn push_line(v: &mut Vec<String>, line: &str)
    ensures
        strings_view(final(v)@) == strings_view(old(v)@).push(line@),
{
    let ghost before = v@;
    v.push(String::from_str(line));
    proof {
        assert(strings_view(v@) =~= strings_view(before).push(line@));
    }
}

fn push_entry(v: &mut Vec<ToolHelpEntry>, name: &str, summary: &str, example: Vec<String>)
    ensures
        entries_view(final(v)@) == entries_view(old(v)@).push(
            EntryModel { name: name@, summary: summary@, example: strings_view(example@) },
        ),
{
    let ghost before = v@;
    let e = ToolHelpEntry {
        name: String::from_str(name),
        summary: String::from_str(summary),
        example,
    };
    v.push(e);
    proof {
        assert(entries_view(v@) =~= entries_view(before).push(entry_view(e)));
    }
}

/// The help entries of every probe tool.
#[verifier::rlimit(60)]
pub fn base_tool_entries() -> (r: Vec<ToolHelpEntry>)
    ensures
        entries_view(r@) == tool_catalog(),
{
    let mut v: Vec<ToolHelpEntry> = Vec::new();
    let mut ex: Vec<String> = Vec::new();
    proof {
        assert(strings_view(ex@) =~= tool_catalog()[0].example);
    }
    push_entry(&mut v, "probe_run", "Full probe: connect + list tools/resources/prompts.", ex);
    let mut ex: Vec<String> = Vec::new();
    push_line(&mut ex, "Example script:");
    push_line(&mut ex, "{");
    push_line(&mut ex, "  \"scenario\": {");
    push_line(&mut ex, "    \"transport\": \"streamable-http\",");
    push_line(&mut ex, "    \"url\": \"http://127.0.0.1:8002/mcp\",");
    push_line(&mut ex, "    \"access_token\": \"<token>\",");
    push_line(&mut ex, "    \"steps\": [");
    push_line(&mut ex, "      { \"tool\": \"ping\" }");
    push_line(&mut ex, "    ]");
    push_line(&mut ex, "  }");
    push_line(&mut ex, "}");
    proof {
        assert(strings_view(ex@) =~= tool_catalog()[1].example);
    }
    push_entry(&mut v, "probe_run_script", "Scripted probe with assertions and snapshots.", ex);
    let mut ex: Vec<String> = Vec::new();
    push_line(&mut ex, "{ }");
    proof {
        assert(strings_view(ex@) =~= tool_catalog()[2].example);
    }
    push_entry(&mut v, "probe_help", "List tools, examples, and usage notes.", ex);
    let mut ex: Vec<String> = Vec::new();
    push_line(&mut ex, "{ \"url\": \"http://127.0.0.1:8002/mcp\" }");
    proof {
        assert(strings_view(ex@) =~= tool_catalog()[3].example);
    }
    push_entry(&mut v, "probe_discover_auth", "Check PRM + OAuth metadata discovery without connecting.", ex);
    let mut ex: Vec<String> = Vec::new();
    push_line(&mut ex, "{ \"transport\": \"streamable-http\", \"url\": \"http://127.0.0.1:8002/mcp\" }");
    push_line(&mut ex, "{ \"transport\": \"streamable-http\", \"url\": \"http://127.0.0.1:8002/mcp\", \"expect_auth_required\": true }");
    proof {
        assert(strings_view(ex@) =~= tool_catalog()[4].example);
    }
    push_entry(&mut v, "probe_handshake", "Connect + ping + list tools, or confirm an expected bearer challenge before authenticated requests.", ex);
    let mut ex: Vec<String> = Vec::new();
    push_line(&mut ex, "{ \"url\": \"http://127.0.0.1:8002/mcp\" }");
    push_line(&mut ex, "{ \"url\": \"http://127.0.0.1:8002/mcp\", \"expect_registration_endpoint\": true }");
    proof {
        assert(strings_view(ex@) =~= tool_catalog()[5].example);
    }
    push_entry(&mut v, "probe_http_smoke", "HTTP smoke check for PRM + OAuth metadata endpoints.", ex);
    let mut ex: Vec<String> = Vec::new();
    push_line(&mut ex, "{ \"url\": \"http://127.0.0.1:8002/mcp\", \"use_auth\": true }");
    proof {
        assert(strings_view(ex@) =~= tool_catalog()[6].example);
    }
    push_entry(&mut v, "probe_replay", "Validate Last-Event-ID replay for streamable HTTP.", ex);
    let mut ex: Vec<String> = Vec::new();
    push_line(&mut ex, "{");
    push_line(&mut ex, "  \"transport\": \"streamable-http\",");
    push_line(&mut ex, "  \"url\": \"http://127.0.0.1:8002/mcp\",");
    push_line(&mut ex, "  \"method\": \"tools/list\"");
    push_line(&mut ex, "}");
    proof {
        assert(strings_view(ex@) =~= tool_catalog()[7].example);
    }
    push_entry(&mut v, "probe_raw_request", "Send a raw MCP request (method + params).", ex);
    let mut ex: Vec<String> = Vec::new();
    push_line(&mut ex, "{");
    push_line(&mut ex, "  \"transport\": \"streamable-http\",");
    push_line(&mut ex, "  \"url\": \"http://127.0.0.1:8002/mcp\",");
    push_line(&mut ex, "  \"tool_name\": \"status.get\",");
    push_line(&mut ex, "  \"arguments\": {}");
    push_line(&mut ex, "}");
    proof {
        assert(strings_view(ex@) =~= tool_catalog()[8].example);
    }
    push_entry(&mut v, "probe_call_tool", "Connect and call a single MCP tool.", ex);
    let mut ex: Vec<String> = Vec::new();
    push_line(&mut ex, "{");
    push_line(&mut ex, "  \"transport\": \"streamable-http\",");
    push_line(&mut ex, "  \"url\": \"http://127.0.0.1:8002/mcp\",");
    push_line(&mut ex, "  \"prompt_name\": \"summarize_case\",");
    push_line(&mut ex, "  \"arguments\": { \"case_id\": \"C123\" }");
    push_line(&mut ex, "}");
    proof {
        assert(strings_view(ex@) =~= tool_catalog()[9].example);
    }
    push_entry(&mut v, "probe_prompt_render", "Connect and render a single MCP prompt.", ex);
    let mut ex: Vec<String> = Vec::new();
    push_line(&mut ex, "{");
    push_line(&mut ex, "  \"transport\": \"streamable-http\",");
    push_line(&mut ex, "  \"url\": \"http://127.0.0.1:8002/mcp\",");
    push_line(&mut ex, "  \"uri\": \"mcp-probe://status\"");
    push_line(&mut ex, "}");
    proof {
        assert(strings_view(ex@) =~= tool_catalog()[10].example);
    }
    push_entry(&mut v, "probe_resource_read", "Connect and read a single MCP resource.", ex);
    let mut ex: Vec<String> = Vec::new();
    push_line(&mut ex, "{");
    push_line(&mut ex, "  \"transport\": \"streamable-http\",");
    push_line(&mut ex, "  \"url\": \"http://127.0.0.1:8002/mcp\",");
    push_line(&mut ex, "  \"uri\": \"mcp-probe://status\",");
    push_line(&mut ex, "  \"trace\": true");
    push_line(&mut ex, "}");
    proof {
        assert(strings_view(ex@) =~= tool_catalog()[11].example);
    }
    push_entry(&mut v, "probe_resource_subscribe", "Connect, subscribe to a resource URI, then unsubscribe.", ex);
    assert(entries_view(v@) =~= tool_catalog());
    v
}

/// The usage notes as strings.
fn notes_lines() -> (r: Vec<String>)
    ensures
        strings_view(r@) == notes(),
{
    let mut v: Vec<String> = Vec::new();
    push_line(&mut v, "Notes:");
    push_line(&mut v, "- transport: stdio | sse | streamable-http (alias streamable_http)");
    push_line(&mut v, "- log_format: json | logfmt (alias text)");
    push_line(&mut v, "- auth: for protected servers, pass access_token (Bearer token). For OAuth refresh flows, pass refresh_token + client_id (HTTP transports only).");
    push_line(&mut v, "- expect_auth_required: for protected HTTP servers, allows probe_handshake to stop cleanly once the expected bearer challenge is confirmed.");
    push_line(&mut v, "- use_auth: true uses a cached token if the probe server has one configured for the target URL.");
    push_line(&mut v, "- *_token_path options read a token JSON file; paths are restricted to the probe server token directory for safety.");
    push_line(&mut v, "- refresh_token auth: token_endpoint is discovered from server_url if omitted.");
    push_line(&mut v, "- verbosity: summary (default) omits tools/resources/resource_templates/prompts raw payloads; full returns full report payloads and the redacted catalog artifact.");
    push_line(&mut v, "- descriptor_profile: basic (default) checks generic input schemas; chatgpt_tool also checks tool-only ChatGPT connector metadata; apps_sdk_ui requires at least one UI template descriptor.");
    push_line(&mut v, "- trace: true captures JSON-RPC traffic (may be large).");
    push_line(&mut v, "- stdio cwd/env: set cwd or env for stdio transports when probing monorepos.");
    push_line(&mut v, "- stdio may be disabled by probe policy; if so, use sse/streamable-http.");
    push_line(&mut v, "- outbound URL hosts may be restricted by probe policy; localhost is commonly allowed.");
    push_line(&mut v, "- probe_raw_request params must be an object when provided (null is treated as omitted).");
    push_line(&mut v, "- probe_prompt_render sends prompts/get with prompt_name and optional arguments; use dry_run first to preview target/auth/argument keys.");
    push_line(&mut v, "- probe_resource_read sends resources/read for one URI; probe_resource_subscribe sends resources/subscribe then resources/unsubscribe.");
    push_line(&mut v, "- For resource subscription update-notification debugging, pass trace: true and inspect the returned trace in full verbosity.");
    push_line(&mut v, "- probe_replay only supports streamable-http and opens a short SSE stream to capture event ids.");
    push_line(&mut v, "- dry_run: true skips sending the request and returns a preview.");
    assert(strings_view(v@) =~= notes());
    v
}

/// The auth caveats as strings.
fn auth_gotcha_lines() -> (r: Vec<String>)
    ensures
        strings_view(r@) == auth_gotchas(),
{
    let mut v: Vec<String> = Vec::new();
    push_line(&mut v, "Auth gotchas:");
    push_line(&mut v, "- use_auth (cached tokens) is mutually exclusive with access_token* and refresh_token* options.");
    push_line(&mut v, "- refresh_token auth only works for HTTP transports (sse/streamable-http).");
    push_line(&mut v, "- expect_registration_endpoint: true fails auth discovery/smoke unless OAuth metadata includes registration_endpoint.");
    push_line(&mut v, "- token file paths must be within the probe server token directory (enforced for safety).");
    assert(strings_view(v@) =~= auth_gotchas());
    v
}


fn run_example_table() -> (r: Vec<(ProbeRunExampleId, &'static str, &'static str)>)
    ensures
        r@.map_values(|e: (ProbeRunExampleId, &'static str, &'static str)| (e.0, e.1@, e.2@))
            == run_examples(),
{
    let mut v: Vec<(ProbeRunExampleId, &'static str, &'static str)> = Vec::new();
    v.push((ProbeRunExampleId::Unauthenticated, "Unauthenticated probe", "{ \"transport\": \"streamable-http\", \"url\": \"http://127.0.0.1:8002/mcp\" }"));
    v.push((ProbeRunExampleId::Cached, "Auth with cached token (if available on the probe server)", "{ \"transport\": \"streamable-http\", \"url\": \"http://127.0.0.1:8002/mcp\", \"use_auth\": true }"));
    v.push((ProbeRunExampleId::Explicit, "Auth with explicit token", "{ \"transport\": \"streamable-http\", \"url\": \"http://127.0.0.1:8002/mcp\", \"access_token\": \"<token>\" }"));
    v.push((ProbeRunExampleId::Refresh, "Refresh access token (OAuth refresh_token)", "{ \"transport\": \"streamable-http\", \"url\": \"http://127.0.0.1:8002/mcp\", \"refresh_token\": \"<refresh_token>\", \"client_id\": \"my-client\" }"));
    assert(v@.map_values(|e: (ProbeRunExampleId, &'static str, &'static str)| (e.0, e.1@, e.2@))
        =~= run_examples());
    v
}

/// The examples (in catalog order) whose id is selected.
pub open spec fn chosen_examples(
    items: Seq<(ProbeRunExampleId, Seq<char>, Seq<char>)>,
    sel: Seq<ProbeRunExampleId>,
) -> Seq<(ProbeRunExampleId, Seq<char>, Seq<char>)>
    decreases items.len(),
{
    if items.len() == 0 {
        Seq::empty()
    } else {
        let c = chosen_examples(items.drop_last(), sel);
        if sel.contains(items.last().0) {
            c.push(items.last())
        } else {
            c
        }
    }
}

/// Two lines per example: the numbered title, then the indented payload.
pub open spec fn example_block(items: Seq<(ProbeRunExampleId, Seq<char>, Seq<char>)>) -> Seq<
    Seq<char>,
>
    decreases items.len(),
{
    if items.len() == 0 {
        Seq::empty()
    } else {
        example_block(items.drop_last()) + seq![
            decimal(items.len()) + ") "@ + items.last().1 + ":"@,
            "   "@ + items.last().2,
        ]
    }
}

/// The `probe_run` example lines for a selection (all when `None`).
pub open spec fn run_example_lines(sel: Option<Seq<ProbeRunExampleId>>) -> Seq<Seq<char>> {
    let chosen = match sel {
        Some(s) => chosen_examples(run_examples(), s),
        None => run_examples(),
    };
    seq!["Examples:"@] + example_block(chosen)
}

fn contains_id(ids: &[ProbeRunExampleId], id: ProbeRunExampleId) -> (r: bool)
    ensures
        r == ids@.contains(id),
{
    let mut i: usize = 0;
    while i < ids.len()
        invariant
            i <= ids@.len(),
            forall|j: int| 0 <= j < i ==> ids@[j] != id,
        decreases ids@.len() - i,
    {
        if ids[i] == id {
            return true;
        }
        i = i + 1;
    }
    false
}

/// Format the `probe_run` example lines for the selected ids (all when
/// `None`).
#[verifier::loop_isolation(false)]
pub fn format_probe_run_example_lines(ids: Option<&[ProbeRunExampleId]>) -> (r: Vec<String>)
    ensures
        strings_view(r@) == run_example_lines(
            match ids {
                Some(s) => Some(s@),
                None => None,
            },
        ),
{
    let table = run_example_table();
    let ghost tv = run_examples();
    let mut lines: Vec<String> = Vec::new();
    push_line(&mut lines, "Examples:");
    let ghost mut chosen: Seq<(ProbeRunExampleId, Seq<char>, Seq<char>)> = Seq::empty();
    let mut count: usize = 0;
    let mut i: usize = 0;
    proof {
        assert(tv.subrange(0, 0) =~= Seq::<(ProbeRunExampleId, Seq<char>, Seq<char>)>::empty());
    }
    while i < table.len()
        invariant
            i <= table@.len(),
            table@.len() == tv.len(),
            tv.len() == 4,
            forall|j: int| 0 <= j < tv.len() ==> #[trigger] tv[j] == (table@[j].0, table@[j].1@, table@[j].2@),
            chosen == match ids {
                Some(s) => chosen_examples(tv.subrange(0, i as int), s@),
                None => tv.subrange(0, i as int),
            },
            count == chosen.len(),
            count <= i,
            strings_view(lines@) == seq!["Examples:"@] + example_block(chosen),
        decreases table@.len() - i,
    {
        let entry = table[i];
        let selected = match ids {
            Some(s) => contains_id(s, entry.0),
            None => true,
        };
        proof {
            assert(tv.subrange(0, i + 1).drop_last() =~= tv.subrange(0, i as int));
            assert(tv[i as int] == (entry.0, entry.1@, entry.2@));
        }
        if selected {
            count = count + 1;
            let mut title = fmt_usize(count);
            title.append(") ");
            title.append(entry.1);
            title.append(":");
            let mut line = String::from_str("   ");
            line.append(entry.2);
            let ghost before = strings_view(lines@);
            push_line(&mut lines, title.as_str());
            push_line(&mut lines, line.as_str());
            proof {
                let old_chosen = chosen;
                chosen = chosen.push(tv[i as int]);
                assert(chosen.drop_last() =~= old_chosen);
                assert(strings_view(lines@) =~= seq!["Examples:"@] + example_block(chosen));
            }
        }
        i = i + 1;
    }
    proof {
        assert(tv.subrange(0, tv.len() as int) =~= tv);
    }
    lines
}


fn extend_lines(dst: &mut Vec<String>, src: Vec<String>)
    ensures
        strings_view(final(dst)@) == strings_view(old(dst)@) + strings_view(src@),
{
    let ghost start = strings_view(dst@);
    let mut i: usize = 0;
    while i < src.len()
        invariant
            i <= src@.len(),
            strings_view(dst@) == start + strings_view(src@.subrange(0, i as int)),
        decreases src@.len() - i,
    {
        let ghost before = dst@;
        dst.push(src[i].clone());
        proof {
            assert(strings_view(src@.subrange(0, i + 1)) =~= strings_view(src@.subrange(0, i as int)).push(src@[i as int]@));
            assert(strings_view(dst@) =~= strings_view(before).push(src@[i as int]@));
        }
        i = i + 1;
    }
    assert(src@.subrange(0, src@.len() as int) =~= src@);
}

/// Every entry of the catalog, with the `probe_run` entry showing the
/// `probe_run` examples.
pub open spec fn listed_tools() -> Seq<EntryModel> {
    tool_catalog().map_values(
        |e: EntryModel|
            if e.name == "probe_run"@ {
                EntryModel { example: run_example_lines(None), ..e }
            } else {
                e
            },
    )
}

/// Return help entries for all probe tools.
pub fn list_probe_tools() -> (r: Vec<ToolHelpEntry>)
    ensures
        entries_view(r@) == listed_tools(),
{
    let entries = base_tool_entries();
    let mut out: Vec<ToolHelpEntry> = Vec::new();
    let mut i: usize = 0;
    while i < entries.len()
        invariant
            i <= entries@.len(),
            entries_view(entries@) == tool_catalog(),
            entries_view(out@) == listed_tools().subrange(0, i as int),
        decreases entries@.len() - i,
    {
        let e = &entries[i];
        assert(entry_view(*e) == tool_catalog()[i as int]);
        let example = if str_eq(e.name.as_str(), "probe_run") {
            format_probe_run_example_lines(None)
        } else {
            crate::text::clone_strings(&e.example)
        };
        let ghost before = out@;
        let ne = ToolHelpEntry { name: e.name.clone(), summary: e.summary.clone(), example };
        out.push(ne);
        proof {
            assert(entries_view(out@) =~= entries_view(before).push(entry_view(ne)));
            assert(listed_tools().subrange(0, i + 1) =~= listed_tools().subrange(0, i as int).push(listed_tools()[i as int]));
        }
        i = i + 1;
    }
    proof {
        assert(listed_tools().len() == entries@.len());
        assert(listed_tools().subrange(0, i as int) =~= listed_tools());
    }
    out
}

/// The first catalog entry at or after `i` named `name`.
pub open spec fn find_tool_from(cat: Seq<EntryModel>, name: Seq<char>, i: int) -> Option<int>
    decreases cat.len() - i,
{
    if i < 0 || i >= cat.len() {
        None
    } else if cat[i].name == name {
        Some(i)
    } else {
        find_tool_from(cat, name, i + 1)
    }
}

/// The catalog entry named `name`.
pub open spec fn find_tool(name: Seq<char>) -> Option<EntryModel> {
    match find_tool_from(tool_catalog(), name, 0) {
        Some(i) => Some(tool_catalog()[i]),
        None => None,
    }
}

proof fn lemma_find_tool_from_bounds(cat: Seq<EntryModel>, name: Seq<char>, i: int)
    ensures
        find_tool_from(cat, name, i) matches Some(k) ==> 0 <= i <= k < cat.len(),
    decreases cat.len() - i,
{
    if 0 <= i < cat.len() && cat[i].name != name {
        lemma_find_tool_from_bounds(cat, name, i + 1);
    }
}

/// The help entry of the tool named `name`.
pub fn find_entry(name: &str) -> (r: Option<ToolHelpEntry>)
    ensures
        match r {
            Some(e) => find_tool(name@) == Some(entry_view(e)),
            None => find_tool(name@) is None,
        },
{
    let entries = base_tool_entries();
    let mut i: usize = 0;
    let ghost cat = tool_catalog();
    while i < entries.len()
        invariant
            i <= entries@.len(),
            entries_view(entries@) == cat,
            cat == tool_catalog(),
            find_tool_from(cat, name@, 0) == find_tool_from(cat, name@, i as int),
        decreases entries@.len() - i,
    {
        assert(entry_view(entries@[i as int]) == cat[i as int]);
        if str_eq(entries[i].name.as_str(), name) {
            let e = &entries[i];
            return Some(
                ToolHelpEntry {
                    name: e.name.clone(),
                    summary: e.summary.clone(),
                    example: crate::text::clone_strings(&e.example),
                },
            );
        }
        i = i + 1;
    }
    None
}

/// The example payload text of the tool named `name` (empty when unknown).
pub open spec fn example_text(name: Seq<char>) -> Seq<char> {
    match find_tool(name) {
        Some(e) => join_with(e.example, "\n"@),
        None => Seq::empty(),
    }
}

fn example_of(name: &str) -> (r: String)
    ensures
        r@ == example_text(name@),
{
    match find_entry(name) {
        Some(e) => join_strings(&e.example, "\n"),
        None => String::new(),
    }
}

/// The tail shared by every help page: a blank line, the notes, a blank
/// line and the auth caveats.
pub open spec fn help_tail() -> Seq<Seq<char>> {
    seq![""@] + notes() + seq![""@] + auth_gotchas()
}

/// The help page of one tool entry.
pub open spec fn tool_page(e: EntryModel) -> Seq<char> {
    join_with(
        seq!["Tool: "@ + e.name, e.summary, ""@] + e.example + help_tail(),
        "\n"@,
    )
}

/// One numbered line of the tool summary.
pub open spec fn summary_line(i: int, e: EntryModel) -> Seq<char> {
    decimal((i + 1) as nat) + ") "@ + e.name + " - "@ + e.summary
}

/// The help text: one tool's page, an unknown-tool message naming the
/// known tools, or the summary of every tool.
pub open spec fn help_text(tool: Option<Seq<char>>) -> Seq<char> {
    let cat = tool_catalog();
    match tool {
        Some(name) => match find_tool(name) {
            Some(e) => tool_page(e),
            None => "Unknown tool \""@ + name + "\". Known tools: "@ + join_with(
                cat.map_values(|e: EntryModel| e.name),
                ", "@,
            ) + "."@,
        },
        None => join_with(
            seq!["mcp-probe tools:"@] + cat.map_values(|e: EntryModel| e.name).map(
                |i: int, n: Seq<char>| summary_line(i, cat[i]),
            ) + help_tail(),
            "\n"@,
        ),
    }
}

fn tail_lines() -> (r: Vec<String>)
    ensures
        strings_view(r@) == help_tail(),
{
    let mut v: Vec<String> = Vec::new();
    push_line(&mut v, "");
    extend_lines(&mut v, notes_lines());
    push_line(&mut v, "");
    extend_lines(&mut v, auth_gotcha_lines());
    assert(strings_view(v@) =~= help_tail());
    v
}

/// Format help text for a specific tool or a global summary.
pub fn format_probe_help_text(tool_name: Option<&str>) -> (r: String)
    ensures
        r@ == help_text(
            match tool_name {
                Some(n) => Some(n@),
                None => None,
            },
        ),
{
    let entries = base_tool_entries();
    let ghost cat = tool_catalog();
    match tool_name {
        Some(name) => {
            match find_entry(name) {
                Some(entry) => {
                    let mut parts: Vec<String> = Vec::new();
                    let mut first = String::from_str("Tool: ");
                    first.append(entry.name.as_str());
                    push_line(&mut parts, first.as_str());
                    push_line(&mut parts, entry.summary.as_str());
                    push_line(&mut parts, "");
                    extend_lines(&mut parts, entry.example);
                    extend_lines(&mut parts, tail_lines());
                    proof {
                        assert(strings_view(parts@) =~= seq![
                            "Tool: "@ + entry_view(entry).name,
                            entry_view(entry).summary,
                            ""@,
                        ] + entry_view(entry).example + help_tail());
                    }
                    join_strings(&parts, "\n")
                },
                None => {
                    let mut names: Vec<String> = Vec::new();
                    let mut i: usize = 0;
                    while i < entries.len()
                        invariant
                            i <= entries@.len(),
                            entries_view(entries@) == cat,
                            cat == tool_catalog(),
                            strings_view(names@) == cat.map_values(|e: EntryModel| e.name).subrange(0, i as int),
                        decreases entries@.len() - i,
                    {
                        assert(entry_view(entries@[i as int]) == cat[i as int]);
                        let ghost before = names@;
                        push_line(&mut names, entries[i].name.as_str());
                        proof {
                            assert(cat.map_values(|e: EntryModel| e.name).subrange(0, i + 1) =~= cat.map_values(|e: EntryModel| e.name).subrange(0, i as int).push(cat[i as int].name));
                        }
                        i = i + 1;
                    }
                    proof {
                        assert(cat.map_values(|e: EntryModel| e.name).subrange(0, i as int) =~= cat.map_values(|e: EntryModel| e.name));
                    }
                    let mut m = String::from_str("Unknown tool \"");
                    m.append(name);
                    m.append("\". Known tools: ");
                    m.append(join_strings(&names, ", ").as_str());
                    m.append(".");
                    m
                },
            }
        },
        None => {
            let mut parts: Vec<String> = Vec::new();
            push_line(&mut parts, "mcp-probe tools:");
            let ghost lines = cat.map_values(|e: EntryModel| e.name).map(
                |i: int, n: Seq<char>| summary_line(i, cat[i]),
            );
            let mut i: usize = 0;
            while i < entries.len()
                invariant
                    i <= entries@.len(),
                    entries_view(entries@) == cat,
                    cat == tool_catalog(),
                    lines.len() == cat.len(),
                    forall|k: int| 0 <= k < cat.len() ==> #[trigger] lines[k] == summary_line(k, cat[k]),
                    strings_view(parts@) == seq!["mcp-probe tools:"@] + lines.subrange(0, i as int),
                decreases entries@.len() - i,
            {
                assert(entry_view(entries@[i as int]) == cat[i as int]);
                let mut line = fmt_usize(i + 1);
                line.append(") ");
                line.append(entries[i].name.as_str());
                line.append(" - ");
                line.append(entries[i].summary.as_str());
                push_line(&mut parts, line.as_str());
                proof {
                    assert(lines[i as int] == summary_line(i as int, cat[i as int]));
                    assert(lines.subrange(0, i + 1) =~= lines.subrange(0, i as int).push(lines[i as int]));
                }
                i = i + 1;
            }
            extend_lines(&mut parts, tail_lines());
            proof {
                assert(lines.subrange(0, i as int) =~= lines);
            }
            join_strings(&parts, "\n")
        },
    }
}

/// Format the `probe_run` examples.
pub fn format_probe_run_examples() -> (r: String)
    ensures
        r@ == join_with(run_example_lines(None), "\n"@),
{
    join_strings(&format_probe_run_example_lines(None), "\n")
}

/// Format the `probe_run` examples for the selected ids.
pub fn format_probe_run_examples_for(ids: &[ProbeRunExampleId]) -> (r: String)
    ensures
        r@ == join_with(run_example_lines(Some(ids@)), "\n"@),
{
    join_strings(&format_probe_run_example_lines(Some(ids)), "\n")
}

/// Format the `probe_run_script` example payload.
pub fn format_probe_script_example() -> (r: String)
    ensures
        r@ == example_text("probe_run_script"@),
{
    example_of("probe_run_script")
}

/// Format the `probe_discover_auth` example payload.
pub fn format_probe_discover_auth_example() -> (r: String)
    ensures
        r@ == example_text("probe_discover_auth"@),
{
    example_of("probe_discover_auth")
}

/// Format the `probe_handshake` example payload.
pub fn format_probe_handshake_example() -> (r: String)
    ensures
        r@ == example_text("probe_handshake"@),
{
    example_of("probe_handshake")
}

/// Format the `probe_http_smoke` example payload.
pub fn format_probe_http_smoke_example() -> (r: String)
    ensures
        r@ == example_text("probe_http_smoke"@),
{
    example_of("probe_http_smoke")
}

/// Format the `probe_replay` example payload.
pub fn format_probe_replay_example() -> (r: String)
    ensures
        r@ == example_text("probe_replay"@),
{
    example_of("probe_replay")
}

/// Format the `probe_raw_request` example payload.
pub fn format_probe_raw_request_example() -> (r: String)
    ensures
        r@ == example_text("probe_raw_request"@),
{
    example_of("probe_raw_request")
}

/// Format the `probe_call_tool` example payload.
pub fn format_probe_call_tool_example() -> (r: String)
    ensures
        r@ == example_text("probe_call_tool"@),
{
    example_of("probe_call_tool")
}

/// Format the `probe_prompt_render` example payload.
pub fn format_probe_prompt_render_example() -> (r: String)
    ensures
        r@ == example_text("probe_prompt_render"@),
{
    example_of("probe_prompt_render")
}

/// Format the `probe_resource_read` example payload.
pub fn format_probe_resource_read_example() -> (r: String)
    ensures
        r@ == example_text("probe_resource_read"@),
{
    example_of("probe_resource_read")
}

/// Format the `probe_resource_subscribe` example payload.
pub fn format_probe_resource_subscribe_example() -> (r: String)
    ensures
        r@ == example_text("probe_resource_subscribe"@),
{
    example_of("probe_resource_subscribe")
}

} // verus!
