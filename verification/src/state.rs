use vstd::prelude::*;
use vstd::string::StringExecFns;
use crate::config::{ConfigView, DesktopConfig, spec_config_json, spec_config_of_json};
use crate::errors::CommandError;
use crate::json::{
    JsonView, bump, is_leaf, lemma_members_first_char, lemma_sp_members_round, parse_json,
    render_json, sp_members, sp_value, sp_ws, spec_parse, spec_render, spec_render_members,
};
use crate::sidecar::{SidecarEvent, SidecarState};

verus! {

/// The per-application context handed to every command handler: one
/// settings record and one sidecar record. The surrounding shell keeps it
/// behind its locking; each handler touches only the record it is about.
pub struct AppState {
    pub config: DesktopConfig,
    pub sidecar: SidecarState,
}

impl AppState {
    pub fn new() -> (r: AppState)
        ensures
            r.config@ == ConfigView::unset(),
            r.sidecar == SidecarState::spec_stopped(),
            r.sidecar.wf(),
    {
        AppState { config: DesktopConfig::default(), sidecar: SidecarState::new() }
    }
}

impl Default for AppState {
    fn default() -> (r: AppState)
        ensures
            r.config@ == ConfigView::unset(),
            r.sidecar == SidecarState::spec_stopped(),
            r.sidecar.wf(),
    {
        AppState::new()
    }
}

/// What the shell found at the settings path: no file, a file it could not
/// read (with the reason), or the file's text.
pub enum ReadOutcome {
    Missing,
    Unreadable(String),
    Content(String),
}

/// The record denoted by a settings file's text, if the text is a valid
/// serialized record.
pub open spec fn spec_load_text(s: Seq<char>) -> Option<ConfigView> {
    match spec_parse(s) {
        None => None,
        Some(v) => spec_config_of_json(v),
    }
}

/// Loads the settings record from what the shell read at the fixed path.
/// A missing file is not an error: it yields the fully-unset record. On
/// every successful outcome the in-memory mirror is replaced with the
/// returned record; on a failure it is left as it was. The sidecar record
/// is never touched.
pub fn load_config(state: &mut AppState, file: ReadOutcome) -> (r: Result<
    DesktopConfig,
    CommandError,
>)
    ensures
        final(state).sidecar == old(state).sidecar,
        match file {
            ReadOutcome::Missing => {
                &&& r matches Ok(c) && c@ == ConfigView::unset()
                &&& final(state).config@ == ConfigView::unset()
            },
            ReadOutcome::Unreadable(m) => {
                &&& r matches Err(e) && e matches CommandError::Io(d) && d@ == m@
                &&& final(state).config == old(state).config
            },
            ReadOutcome::Content(s) => match spec_load_text(s@) {
                Some(cv) => {
                    &&& r matches Ok(c) && c@ == cv
                    &&& final(state).config@ == cv
                },
                None => {
                    &&& r matches Err(e) && e is Format
                    &&& final(state).config == old(state).config
                },
            },
        },
{
    match file {
        ReadOutcome::Missing => {
            let c = DesktopConfig::default();
            state.config = c.duplicate();
            Ok(c)
        },
        ReadOutcome::Unreadable(m) => Err(CommandError::Io(m)),
        ReadOutcome::Content(s) => match parse_json(s.as_str()) {
            None => Err(CommandError::Format(String::from_str("not a JSON document"))),
            Some(v) => match crate::config::config_from_json(&v) {
                None => Err(
                    CommandError::Format(String::from_str("not a settings record")),
                ),
                Some(c) => {
                    state.config = c.duplicate();
                    Ok(c)
                },
            },
        },
    }
}

/// The exact text that storing the given record writes to the settings
/// file: the record's document in the canonical serialized form. Each store
/// writes this one complete text, never a partial update.
pub fn store_config_render(config: &DesktopConfig) -> (r: String)
    ensures
        r@ == spec_render(spec_config_json(config@)),
{
    let v = crate::config::config_to_json(config);
    render_json(&v)
}

/// After the shell has written the rendered text successfully, replaces the
/// in-memory mirror with the stored record. The sidecar record is never
/// touched.
pub fn store_config_commit(state: &mut AppState, config: DesktopConfig)
    ensures
        final(state).config == config,
        final(state).sidecar == old(state).sidecar,
{
    state.config = config;
}

/// The command line for the sidecar process: the connector binary and the
/// two fixed flag/value argument pairs.
pub struct SpawnPlan {
    pub program: String,
    pub args: Vec<String>,
}

/// Decides a start request. When the supervisor is already running this
/// yields no plan: the request is an idempotent no-op and nothing may be
/// spawned. Otherwise it yields exactly the command line
/// `binaries/tc-connector --token <token> --api-url <api_url>`.
pub fn start_sidecar_request(state: &AppState, token: &str, api_url: &str) -> (r: Option<
    SpawnPlan,
>)
    ensures
        r is Some <==> !state.sidecar.running,
        r matches Some(p) ==> {
            &&& p.program@ == "binaries/tc-connector"@
            &&& p.args@.len() == 4
            &&& p.args@[0]@ == "--token"@
            &&& p.args@[1]@ == token@
            &&& p.args@[2]@ == "--api-url"@
            &&& p.args@[3]@ == api_url@
        },
{
    if state.sidecar.running {
        None
    } else {
        let mut args: Vec<String> = Vec::new();
        args.push(String::from_str("--token"));
        args.push(token.to_owned());
        args.push(String::from_str("--api-url"));
        args.push(api_url.to_owned());
        Some(SpawnPlan { program: String::from_str("binaries/tc-connector"), args })
    }
}

/// Records the outcome of the one spawn a start request asked for. On
/// success the supervisor holds the new handle, is running, and exactly one
/// `running` event is owed to the shell; on failure the record is unchanged
/// and no event is emitted.
pub fn start_sidecar_commit(state: &mut AppState, outcome: Result<u64, String>) -> (r: Result<
    SidecarEvent,
    CommandError,
>)
    requires
        !old(state).sidecar.running,
    ensures
        final(state).config == old(state).config,
        match outcome {
            Ok(h) => {
                &&& r matches Ok(ev) && ev is Running
                &&& final(state).sidecar == SidecarState::spec_running(h)
                &&& final(state).sidecar.wf()
            },
            Err(m) => {
                &&& r matches Err(e) && e matches CommandError::Spawn(d) && d@ == m@
                &&& final(state).sidecar == old(state).sidecar
            },
        },
{
    match outcome {
        Ok(h) => {
            state.sidecar.child = Some(h);
            state.sidecar.running = true;
            Ok(SidecarEvent::Running)
        },
        Err(m) => Err(CommandError::Spawn(m)),
    }
}

/// Decides a stop request: the handle to terminate, if one is held. The
/// handle is surrendered to the caller, which must attempt the termination
/// and report back.
pub fn stop_sidecar_request(state: &AppState) -> (h: Option<u64>)
    ensures
        h == state.sidecar.child,
{
    state.sidecar.child
}

/// Records the outcome of a stop. A termination failure may only be
/// reported when a handle was surrendered; it leaves the record unchanged
/// and surfaces the error. Otherwise — the termination succeeded, or there
/// was nothing to terminate — the handle is cleared, the flag lowered, and
/// one `stopped` event is owed to the shell.
pub fn stop_sidecar_commit(state: &mut AppState, kill_result: Result<(), String>) -> (r: Result<
    SidecarEvent,
    CommandError,
>)
    requires
        kill_result is Err ==> old(state).sidecar.child is Some,
    ensures
        final(state).config == old(state).config,
        final(state).sidecar == old(state).sidecar.spec_after_stop(kill_result is Ok),
        match kill_result {
            Ok(_) => {
                &&& r matches Ok(ev) && ev is Stopped
                &&& final(state).sidecar == SidecarState::spec_stopped()
                &&& final(state).sidecar.wf()
            },
            Err(m) => {
                &&& r matches Err(e) && e matches CommandError::Kill(d) && d@ == m@
                &&& final(state).sidecar == old(state).sidecar
            },
        },
{
    match kill_result {
        Ok(_) => {
            state.sidecar.child = None;
            state.sidecar.running = false;
            Ok(SidecarEvent::Stopped)
        },
        Err(m) => Err(CommandError::Kill(m)),
    }
}

/// The cached last-known status: true exactly when the supervisor believes
/// the sidecar is running. A point-in-time read, not a liveness probe.
pub fn sidecar_status(state: &AppState) -> (b: bool)
    ensures
        b == state.sidecar.running,
{
    state.sidecar.running
}


/// Round trip: for every settings record, loading the exact text that
/// storing the record writes yields that record back — every set field
/// kept, every unset field still unset.
#[verifier::rlimit(100)]
pub proof fn lemma_store_load_round_trip(c: ConfigView)
    ensures
        spec_load_text(spec_render(spec_config_json(c))) == Some(c),
{
    let doc = spec_config_json(c);
    let ms = seq![
        ("api_url"@, crate::config::spec_opt_str_json(c.api_url)),
        ("mcp_token"@, crate::config::spec_opt_str_json(c.mcp_token)),
        ("clerk_session"@, crate::config::spec_opt_str_json(c.clerk_session)),
        ("auto_start"@, crate::config::spec_opt_bool_json(c.auto_start)),
    ];
    assert(doc == JsonView::Object(ms));
    let m = spec_render_members(ms);
    let s = spec_render(doc);
    assert(s == seq!['{'] + m + seq!['}']);
    assert(s =~= seq!['{'] + (m + seq!['}']));
    let ml = m.len() as int;
    assert(s.len() == ml + 2);
    assert(s[0] == '{');
    assert forall|i: int| 0 <= i < ml + 1 implies s[1 + i] == (m + seq!['}'])[i] by {
        assert(s[1 + i] == (m + seq!['}'])[i]);
    }
    assert(s[1 + ml] == '}');
    assert forall|i: int| 0 <= i < ml implies s[1 + i] == m[i] by {
        assert((m + seq!['}'])[i] == m[i]);
    }
    assert(s.subrange(1, 1 + ml) =~= m);
    assert forall|i: int| 0 <= i < ms.len() implies is_leaf(#[trigger] ms[i].1) by {
        if i == 3 {
            match c.auto_start {
                None => {},
                Some(_) => {},
            }
        }
    }
    lemma_members_first_char(ms);
    assert(s[1] == '"');
    // The parse walk over the rendered text.
    assert(sp_ws(s, 0) == 0);
    assert(sp_ws(s, 1) == 1);
    assert(bump(0, 1) == 1);
    lemma_sp_members_round(s, 1, ms);
    assert(sp_members(s, 1) == Some((ms, 1 + ml)));
    assert(sp_value(s, 0) == Some((doc, s.len() as int)));
    assert(sp_ws(s, s.len() as int) == s.len() as int);
    assert(spec_parse(s) == Some(doc));
    crate::config::lemma_config_json_round_trip(c);
}

} // verus!
