use vstd::prelude::*;
use vstd::string::StringExecFns;
use crate::json::{
    JsonValue, JsonView, spec_lookup, view_members, lookup_member, lemma_view_members_props,
};

verus! {

/// The persisted settings record. Every field is optional: absence means
/// "unset", never an error. The tokens and the URL are opaque strings.
#[derive(Debug)]
pub struct DesktopConfig {
    pub api_url: Option<String>,
    pub mcp_token: Option<String>,
    pub clerk_session: Option<String>,
    pub auto_start: Option<bool>,
}

/// The mathematical shape of a settings record.
pub struct ConfigView {
    pub api_url: Option<Seq<char>>,
    pub mcp_token: Option<Seq<char>>,
    pub clerk_session: Option<Seq<char>>,
    pub auto_start: Option<bool>,
}

impl ConfigView {
    /// The record with every field unset.
    pub open spec fn unset() -> ConfigView {
        ConfigView { api_url: None, mcp_token: None, clerk_session: None, auto_start: None }
    }
}

impl View for DesktopConfig {
    type V = ConfigView;

    open spec fn view(&self) -> ConfigView {
        ConfigView {
            api_url: self.api_url.deep_view(),
            mcp_token: self.mcp_token.deep_view(),
            clerk_session: self.clerk_session.deep_view(),
            auto_start: self.auto_start,
        }
    }
}

impl DesktopConfig {
    /// An exact copy of the record.
    pub fn duplicate(&self) -> (r: DesktopConfig)
        ensures
            r == *self,
    {
        DesktopConfig {
            api_url: match &self.api_url {
                None => None,
                Some(s) => Some(s.clone()),
            },
            mcp_token: match &self.mcp_token {
                None => None,
                Some(s) => Some(s.clone()),
            },
            clerk_session: match &self.clerk_session {
                None => None,
                Some(s) => Some(s.clone()),
            },
            auto_start: match self.auto_start {
                None => None,
                Some(b) => Some(b),
            },
        }
    }
}

impl Default for DesktopConfig {
    fn default() -> (r: DesktopConfig)
        ensures
            r@ == ConfigView::unset(),
    {
        DesktopConfig { api_url: None, mcp_token: None, clerk_session: None, auto_start: None }
    }
}

// ------------------------------------------------------------------
// The record as a JSON document.
// ------------------------------------------------------------------

pub open spec fn spec_opt_str_json(o: Option<Seq<char>>) -> JsonView {
    match o {
        None => JsonView::Null,
        Some(t) => JsonView::Str(t),
    }
}

pub open spec fn spec_opt_bool_json(o: Option<bool>) -> JsonView {
    match o {
        None => JsonView::Null,
        Some(b) => JsonView::Bool(b),
    }
}

/// The document a record serializes to: one object with the four fields in
/// a fixed order, unset fields as `null`.
pub open spec fn spec_config_json(c: ConfigView) -> JsonView {
    JsonView::Object(
        seq![
            ("api_url"@, spec_opt_str_json(c.api_url)),
            ("mcp_token"@, spec_opt_str_json(c.mcp_token)),
            ("clerk_session"@, spec_opt_str_json(c.clerk_session)),
            ("auto_start"@, spec_opt_bool_json(c.auto_start)),
        ],
    )
}

/// How an optional string field reads back from an object: a missing key or
/// `null` is unset, a string is set, anything else is a type error (`None`).
pub open spec fn spec_str_field(ms: Seq<(Seq<char>, JsonView)>, k: Seq<char>) -> Option<
    Option<Seq<char>>,
> {
    match spec_lookup(ms, k) {
        None => Some(None),
        Some(JsonView::Null) => Some(None),
        Some(JsonView::Str(t)) => Some(Some(t)),
        Some(_) => None,
    }
}

/// How the optional boolean field reads back from an object.
pub open spec fn spec_bool_field(ms: Seq<(Seq<char>, JsonView)>, k: Seq<char>) -> Option<
    Option<bool>,
> {
    match spec_lookup(ms, k) {
        None => Some(None),
        Some(JsonView::Null) => Some(None),
        Some(JsonView::Bool(b)) => Some(Some(b)),
        Some(_) => None,
    }
}

/// The record denoted by a document: an object whose four known fields have
/// the right types; unknown members are ignored, missing members are unset.
pub open spec fn spec_config_of_json(v: JsonView) -> Option<ConfigView> {
    match v {
        JsonView::Object(ms) => match (
            spec_str_field(ms, "api_url"@),
            spec_str_field(ms, "mcp_token"@),
            spec_str_field(ms, "clerk_session"@),
            spec_bool_field(ms, "auto_start"@),
        ) {
            (Some(a), Some(m), Some(cs), Some(au)) => Some(
                ConfigView { api_url: a, mcp_token: m, clerk_session: cs, auto_start: au },
            ),
            _ => None,
        },
        _ => None,
    }
}

fn opt_str_json(o: &Option<String>) -> (r: JsonValue)
    ensures
        r@ == spec_opt_str_json(o.deep_view()),
{
    match o {
        None => JsonValue::Null,
        Some(s) => JsonValue::Str(s.clone()),
    }
}

fn opt_bool_json(o: &Option<bool>) -> (r: JsonValue)
    ensures
        r@ == spec_opt_bool_json(*o),
{
    match o {
        None => JsonValue::Null,
        Some(b) => JsonValue::Bool(*b),
    }
}

/// Builds the document a record serializes to.
pub fn config_to_json(c: &DesktopConfig) -> (r: JsonValue)
    ensures
        r@ == spec_config_json(c@),
{
    let mut ms: Vec<(String, JsonValue)> = Vec::new();
    ms.push((String::from_str("api_url"), opt_str_json(&c.api_url)));
    ms.push((String::from_str("mcp_token"), opt_str_json(&c.mcp_token)));
    ms.push((String::from_str("clerk_session"), opt_str_json(&c.clerk_session)));
    ms.push((String::from_str("auto_start"), opt_bool_json(&c.auto_start)));
    let r = JsonValue::Object(ms);
    proof {
        lemma_view_members_props(ms@);
        assert(view_members(ms@)[0] == (ms@[0].0@, ms@[0].1@));
        assert(view_members(ms@)[1] == (ms@[1].0@, ms@[1].1@));
        assert(view_members(ms@)[2] == (ms@[2].0@, ms@[2].1@));
        assert(view_members(ms@)[3] == (ms@[3].0@, ms@[3].1@));
        assert(view_members(ms@) =~= seq![
            ("api_url"@, spec_opt_str_json(c@.api_url)),
            ("mcp_token"@, spec_opt_str_json(c@.mcp_token)),
            ("clerk_session"@, spec_opt_str_json(c@.clerk_session)),
            ("auto_start"@, spec_opt_bool_json(c@.auto_start)),
        ]);
    }
    r
}

fn str_field(ms: &Vec<(String, JsonValue)>, k: &str) -> (r: Option<Option<String>>)
    ensures
        match r {
            None => spec_str_field(view_members(ms@), k@) is None,
            Some(o) => spec_str_field(view_members(ms@), k@) == Some(o.deep_view()),
        },
{
    match lookup_member(ms, k) {
        None => Some(None),
        Some(JsonValue::Null) => Some(None),
        Some(JsonValue::Str(t)) => Some(Some(t.clone())),
        Some(_) => None,
    }
}

fn bool_field(ms: &Vec<(String, JsonValue)>, k: &str) -> (r: Option<Option<bool>>)
    ensures
        match r {
            None => spec_bool_field(view_members(ms@), k@) is None,
            Some(o) => spec_bool_field(view_members(ms@), k@) == Some(o),
        },
{
    match lookup_member(ms, k) {
        None => Some(None),
        Some(JsonValue::Null) => Some(None),
        Some(JsonValue::Bool(b)) => Some(Some(*b)),
        Some(_) => None,
    }
}

/// Reads a record back out of a document.
pub fn config_from_json(v: &JsonValue) -> (r: Option<DesktopConfig>)
    ensures
        match r {
            None => spec_config_of_json(v@) is None,
            Some(c) => spec_config_of_json(v@) == Some(c@),
        },
{
    match v {
        JsonValue::Object(ms) => {
            let a = str_field(ms, "api_url");
            let m = str_field(ms, "mcp_token");
            let cs = str_field(ms, "clerk_session");
            let au = bool_field(ms, "auto_start");
            match (a, m, cs, au) {
                (Some(a), Some(m), Some(cs), Some(au)) => Some(
                    DesktopConfig { api_url: a, mcp_token: m, clerk_session: cs, auto_start: au },
                ),
                _ => None,
            }
        },
        _ => None,
    }
}

/// A record and its serialized document round-trip exactly: reading the
/// document written for any record yields that record again, every set
/// field kept and every unset field still unset.
pub proof fn lemma_config_json_round_trip(c: ConfigView)
    ensures
        spec_config_of_json(spec_config_json(c)) == Some(c),
{
    reveal_strlit("api_url");
    reveal_strlit("mcp_token");
    reveal_strlit("clerk_session");
    reveal_strlit("auto_start");
    let ms = seq![
        ("api_url"@, spec_opt_str_json(c.api_url)),
        ("mcp_token"@, spec_opt_str_json(c.mcp_token)),
        ("clerk_session"@, spec_opt_str_json(c.clerk_session)),
        ("auto_start"@, spec_opt_bool_json(c.auto_start)),
    ];
    let ms1 = seq![
        ("mcp_token"@, spec_opt_str_json(c.mcp_token)),
        ("clerk_session"@, spec_opt_str_json(c.clerk_session)),
        ("auto_start"@, spec_opt_bool_json(c.auto_start)),
    ];
    let ms2 = seq![
        ("clerk_session"@, spec_opt_str_json(c.clerk_session)),
        ("auto_start"@, spec_opt_bool_json(c.auto_start)),
    ];
    let ms3 = seq![("auto_start"@, spec_opt_bool_json(c.auto_start))];
    assert(ms.drop_first() =~= ms1);
    assert(ms1.drop_first() =~= ms2);
    assert(ms2.drop_first() =~= ms3);
    assert("api_url"@.len() == 7);
    assert("mcp_token"@.len() == 9);
    assert("clerk_session"@.len() == 13);
    assert("auto_start"@.len() == 10);
    assert(spec_lookup(ms, "api_url"@) == Some(spec_opt_str_json(c.api_url)));
    assert(spec_lookup(ms, "mcp_token"@) == spec_lookup(ms1, "mcp_token"@));
    assert(spec_lookup(ms, "mcp_token"@) == Some(spec_opt_str_json(c.mcp_token)));
    assert(spec_lookup(ms, "clerk_session"@) == spec_lookup(ms1, "clerk_session"@));
    assert(spec_lookup(ms1, "clerk_session"@) == spec_lookup(ms2, "clerk_session"@));
    assert(spec_lookup(ms2, "clerk_session"@) == Some(spec_opt_str_json(c.clerk_session)));
    assert(spec_lookup(ms, "auto_start"@) == spec_lookup(ms1, "auto_start"@));
    assert(spec_lookup(ms1, "auto_start"@) == spec_lookup(ms2, "auto_start"@));
    assert(spec_lookup(ms2, "auto_start"@) == spec_lookup(ms3, "auto_start"@));
    assert(spec_lookup(ms3, "auto_start"@) == Some(spec_opt_bool_json(c.auto_start)));
}

} // verus!
