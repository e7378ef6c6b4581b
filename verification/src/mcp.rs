use vstd::prelude::*;
use vstd::string::StringExecFns;
use crate::json::{
    JsonValue, JsonView, spec_lookup, spec_render, view_members, view_list, render_json,
    lemma_view_members_props, lemma_view_list_props,
};

verus! {

/// The tool-registration document derived from a token and an API URL: it
/// names this application's connector binary and the exact command line the
/// external consumer should launch it with.
pub open spec fn spec_mcp_args(token: Seq<char>, api_url: Seq<char>) -> Seq<JsonView> {
    seq![
        JsonView::Str("--token"@),
        JsonView::Str(token),
        JsonView::Str("--api-url"@),
        JsonView::Str(api_url),
    ]
}

pub open spec fn spec_mcp_entry(token: Seq<char>, api_url: Seq<char>) -> JsonView {
    JsonView::Object(
        seq![
            ("command"@, JsonView::Str("tc-connector"@)),
            ("args"@, JsonView::Array(spec_mcp_args(token, api_url))),
        ],
    )
}

pub open spec fn spec_mcp_json(token: Seq<char>, api_url: Seq<char>) -> JsonView {
    JsonView::Object(
        seq![
            (
                "mcpServers"@,
                JsonView::Object(seq![("teach-charlie"@, spec_mcp_entry(token, api_url))]),
            ),
        ],
    )
}

/// The registered tool's entry inside a descriptor document, reached by the
/// path `mcpServers`, then `teach-charlie`.
pub open spec fn spec_mcp_lookup_entry(v: JsonView) -> Option<JsonView> {
    match v {
        JsonView::Object(top) => match spec_lookup(top, "mcpServers"@) {
            Some(JsonView::Object(srv)) => spec_lookup(srv, "teach-charlie"@),
            _ => None,
        },
        _ => None,
    }
}

/// The descriptor names the connector binary under `command` and carries
/// exactly the ordered argument list `--token <token> --api-url <api_url>`
/// under `args`, at the path `mcpServers`, `teach-charlie`.
pub proof fn lemma_mcp_descriptor_shape(token: Seq<char>, api_url: Seq<char>)
    ensures
        spec_mcp_lookup_entry(spec_mcp_json(token, api_url)) == Some(
            spec_mcp_entry(token, api_url),
        ),
        ({
            let e = spec_mcp_entry(token, api_url);
            &&& e matches JsonView::Object(tc)
            &&& spec_lookup(tc, "command"@) == Some(JsonView::Str("tc-connector"@))
            &&& spec_lookup(tc, "args"@) == Some(JsonView::Array(spec_mcp_args(token, api_url)))
        }),
{
    reveal_strlit("command");
    reveal_strlit("args");
    let tc = seq![
        ("command"@, JsonView::Str("tc-connector"@)),
        ("args"@, JsonView::Array(spec_mcp_args(token, api_url))),
    ];
    let tc1 = seq![("args"@, JsonView::Array(spec_mcp_args(token, api_url)))];
    assert(tc.drop_first() =~= tc1);
    assert("command"@.len() == 7);
    assert("args"@.len() == 4);
    assert(spec_lookup(tc, "command"@) == Some(JsonView::Str("tc-connector"@)));
    assert(spec_lookup(tc, "args"@) == spec_lookup(tc1, "args"@));
    assert(spec_lookup(tc1, "args"@) == Some(JsonView::Array(spec_mcp_args(token, api_url))));
}

/// Builds the descriptor document for the given token and URL.
pub fn mcp_config_json(token: &str, api_url: &str) -> (r: JsonValue)
    ensures
        r@ == spec_mcp_json(token@, api_url@),
{
    let mut args: Vec<JsonValue> = Vec::new();
    args.push(JsonValue::Str(String::from_str("--token")));
    args.push(JsonValue::Str(token.to_owned()));
    args.push(JsonValue::Str(String::from_str("--api-url")));
    args.push(JsonValue::Str(api_url.to_owned()));
    let ghost argsv = args@;
    let mut entry: Vec<(String, JsonValue)> = Vec::new();
    entry.push((String::from_str("command"), JsonValue::Str(String::from_str("tc-connector"))));
    entry.push((String::from_str("args"), JsonValue::Array(args)));
    let ghost entryv = entry@;
    let mut srv: Vec<(String, JsonValue)> = Vec::new();
    srv.push((String::from_str("teach-charlie"), JsonValue::Object(entry)));
    let ghost srvv = srv@;
    let mut top: Vec<(String, JsonValue)> = Vec::new();
    top.push((String::from_str("mcpServers"), JsonValue::Object(srv)));
    let r = JsonValue::Object(top);
    proof {
        lemma_view_list_props(argsv);
        assert(view_list(argsv)[0] == argsv[0]@);
        assert(view_list(argsv)[1] == argsv[1]@);
        assert(view_list(argsv)[2] == argsv[2]@);
        assert(view_list(argsv)[3] == argsv[3]@);
        assert(view_list(argsv) =~= spec_mcp_args(token@, api_url@));
        lemma_view_members_props(entryv);
        assert(view_members(entryv)[0] == (entryv[0].0@, entryv[0].1@));
        assert(view_members(entryv)[1] == (entryv[1].0@, entryv[1].1@));
        assert(view_members(entryv) =~= seq![
            ("command"@, JsonView::Str("tc-connector"@)),
            ("args"@, JsonView::Array(spec_mcp_args(token@, api_url@))),
        ]);
        lemma_view_members_props(srvv);
        assert(view_members(srvv)[0] == (srvv[0].0@, srvv[0].1@));
        assert(view_members(srvv) =~= seq![
            ("teach-charlie"@, spec_mcp_entry(token@, api_url@)),
        ]);
        lemma_view_members_props(top@);
        assert(view_members(top@)[0] == (top@[0].0@, top@[0].1@));
        assert(view_members(top@) =~= seq![
            (
                "mcpServers"@,
                JsonView::Object(seq![("teach-charlie"@, spec_mcp_entry(token@, api_url@))]),
            ),
        ]);
    }
    r
}

/// The serialized descriptor exactly as it is written to disk.
pub fn write_mcp_config_content(token: &str, api_url: &str) -> (r: String)
    ensures
        r@ == spec_render(spec_mcp_json(token@, api_url@)),
{
    let v = mcp_config_json(token, api_url);
    render_json(&v)
}

} // verus!
