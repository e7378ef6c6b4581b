use tc_agent::mcp::write_mcp_config_content;
use tc_agent::paths::{config_dir_of, config_path, config_path_of, mcp_config_path_of};

#[test]
fn descriptor_shape_matches_the_consumer_contract() {
    let text = write_mcp_config_content("T", "U");
    let v: serde_json::Value = serde_json::from_str(&text).unwrap();
    let entry = &v["mcpServers"]["teach-charlie"];
    assert_eq!(entry["command"].as_str(), Some("tc-connector"));
    let args: Vec<&str> = entry["args"]
        .as_array()
        .unwrap()
        .iter()
        .map(|a| a.as_str().unwrap())
        .collect();
    assert_eq!(args, vec!["--token", "T", "--api-url", "U"]);
}

#[test]
fn descriptor_text_is_exact() {
    assert_eq!(
        write_mcp_config_content("T", "U"),
        "{\"mcpServers\": {\"teach-charlie\": {\"command\": \"tc-connector\", \
         \"args\": [\"--token\", \"T\", \"--api-url\", \"U\"]}}}"
    );
}

#[test]
fn descriptor_escapes_its_inputs() {
    let text = write_mcp_config_content("a\"b", "c\\d");
    let v: serde_json::Value = serde_json::from_str(&text).unwrap();
    let args = v["mcpServers"]["teach-charlie"]["args"].as_array().unwrap();
    assert_eq!(args[1].as_str(), Some("a\"b"));
    assert_eq!(args[3].as_str(), Some("c\\d"));
}

#[test]
fn paths_are_derived_from_home() {
    assert_eq!(config_dir_of("/home/u"), "/home/u/.teach-charlie");
    assert_eq!(config_path_of("/home/u"), "/home/u/.teach-charlie/config.json");
    assert_eq!(
        mcp_config_path_of("/home/u"),
        "/home/u/.teach-charlie/mcp-config.json"
    );
}

#[test]
fn config_path_uses_the_real_home() {
    // The test environment provides a home directory.
    let p = config_path().unwrap();
    assert!(p.ends_with("/.teach-charlie/config.json"));
    assert!(p.len() > "/.teach-charlie/config.json".len());
}
