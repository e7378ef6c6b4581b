use vstd::prelude::*;
use vstd::string::StringExecFns;

verus! {

/// Relies on dirs::home_dir: yields the user's home directory, if the
/// platform reports one that is valid text. The result depends on the
/// environment, so nothing is promised of it.
#[verifier::external_body]
fn home_dir_str() -> (r: Option<String>) {
    match dirs::home_dir() {
        None => None,
        Some(p) => match p.into_os_string().into_string() {
            Ok(s) => Some(s),
            Err(_) => None,
        },
    }
}

/// The per-user base directory holding both generated files.
pub fn config_dir_of(home: &str) -> (r: String)
    ensures
        r@ == home@ + "/.teach-charlie"@,
{
    let mut s = home.to_owned();
    s.append("/.teach-charlie");
    s
}

/// The path of the persisted settings record under the given home.
pub fn config_path_of(home: &str) -> (r: String)
    ensures
        r@ == home@ + "/.teach-charlie/config.json"@,
{
    let mut s = config_dir_of(home);
    s.append("/config.json");
    proof {
        reveal_strlit("/.teach-charlie");
        reveal_strlit("/config.json");
        reveal_strlit("/.teach-charlie/config.json");
        assert(home@ + "/.teach-charlie"@ + "/config.json"@ =~= home@
            + "/.teach-charlie/config.json"@);
    }
    s
}

/// The path of the generated MCP descriptor under the given home.
pub fn mcp_config_path_of(home: &str) -> (r: String)
    ensures
        r@ == home@ + "/.teach-charlie/mcp-config.json"@,
{
    let mut s = config_dir_of(home);
    s.append("/mcp-config.json");
    proof {
        reveal_strlit("/.teach-charlie");
        reveal_strlit("/mcp-config.json");
        reveal_strlit("/.teach-charlie/mcp-config.json");
        assert(home@ + "/.teach-charlie"@ + "/mcp-config.json"@ =~= home@
            + "/.teach-charlie/mcp-config.json"@);
    }
    s
}

/// The per-user base directory, if the environment names a home.
pub fn config_dir() -> (r: Option<String>)
    ensures
        r matches Some(d) ==> exists|h: Seq<char>| d@ == h + "/.teach-charlie"@,
{
    match home_dir_str() {
        None => None,
        Some(h) => {
            let d = config_dir_of(h.as_str());
            proof {
                assert(d@ == h@ + "/.teach-charlie"@);
            }
            Some(d)
        },
    }
}

/// The settings record's path, if the environment names a home.
pub fn config_path() -> (r: Option<String>)
    ensures
        r matches Some(p) ==> exists|h: Seq<char>| p@ == h + "/.teach-charlie/config.json"@,
{
    match home_dir_str() {
        None => None,
        Some(h) => {
            let p = config_path_of(h.as_str());
            proof {
                assert(p@ == h@ + "/.teach-charlie/config.json"@);
            }
            Some(p)
        },
    }
}

/// The MCP descriptor's path, if the environment names a home.
pub fn mcp_config_path() -> (r: Option<String>)
    ensures
        r matches Some(p) ==> exists|h: Seq<char>| p@ == h + "/.teach-charlie/mcp-config.json"@,
{
    match home_dir_str() {
        None => None,
        Some(h) => {
            let p = mcp_config_path_of(h.as_str());
            proof {
                assert(p@ == h@ + "/.teach-charlie/mcp-config.json"@);
            }
            Some(p)
        },
    }
}

/// The settings path for display in the shell's settings view.
pub fn get_config_path() -> (r: Option<String>)
    ensures
        r matches Some(p) ==> exists|h: Seq<char>| p@ == h + "/.teach-charlie/config.json"@,
{
    config_path()
}

} // verus!
