//! The client's configuration values. Reading and writing the configuration
//! file is the surrounding program's business; the library only defines the
//! shape and the defaults.

use vstd::prelude::*;

verus! {

/// Configuration of the client.
#[derive(Debug, Clone)]
pub struct Config {
    /// Base address of the remote server.
    pub server_url: String,
    /// Bearer token attached to every request.
    pub api_key: String,
    /// Conversation to continue by default, if any.
    pub default_conversation_id: Option<String>,
    /// Whether output is colored.
    pub colored_output: bool,
    /// Whether tool calls are shown while a turn runs.
    pub show_tool_calls: bool,
    /// Response token cap; zero means no cap.
    pub max_tokens: u32,
}

/// The server address used when none is configured.
pub fn default_server_url() -> (r: String)
    ensures
        r@ == "http://localhost:3210/v1"@,
{
    String::from_str("http://localhost:3210/v1")
}

/// The default of the flags that are on unless configured off.
pub fn default_true() -> (r: bool)
    ensures
        r,
{
    true
}

impl Config {
    /// The configuration directory under a platform base directory.
    pub fn config_dir(base: &str) -> (r: String)
        ensures
            r@ == base@ + "/speakmcp"@,
    {
        let mut out = base.to_owned();
        out.append("/speakmcp");
        out
    }

    /// The configuration file path under a platform base directory.
    pub fn config_path(base: &str) -> (r: String)
        ensures
            r@ == base@ + "/speakmcp"@ + "/cli.toml"@,
    {
        let mut out = Config::config_dir(base);
        out.append("/cli.toml");
        out
    }
}

impl Default for Config {
    /// The configuration before any file or flag sets a value: the local
    /// server address, no key, no default conversation, colored output and
    /// tool-call display on, no token cap.
    fn default() -> (r: Config)
        ensures
            r.server_url@ == "http://localhost:3210/v1"@,
            r.api_key@.len() == 0,
            r.default_conversation_id is None,
            r.colored_output,
            r.show_tool_calls,
            r.max_tokens == 0,
    {
        Config {
            server_url: default_server_url(),
            api_key: String::new(),
            default_conversation_id: None,
            colored_output: default_true(),
            show_tool_calls: default_true(),
            max_tokens: 0,
        }
    }
}

} // verus!
