//! The launcher's saved configuration.
use vstd::prelude::*;
use crate::json::push_quoted;
use crate::text::{dec, push_digits, push_str};

verus! {

/// The configuration saved in `config.json`.
pub struct LauncherConfig {
    pub llama_path: String,
    pub models_dir: String,
    pub port: u16,
    pub ctx: u32,
    /// Unload every model when the window closes.
    pub auto_unload: bool,
}

/// Whether closing the window unloads the models: as the saved configuration
/// says, and yes where there is none (or it does not read).
pub fn load_auto_unload_setting(config: Option<&LauncherConfig>) -> (r: bool)
    ensures
        r == match config {
            Some(c) => c.auto_unload,
            None => true,
        },
{
    match config {
        Some(c) => c.auto_unload,
        None => true,
    }
}

/// The user port a fresh installation is configured with.
pub const DEFAULT_PORT: u16 = 20000;

/// The context size a fresh installation is configured with.
pub const DEFAULT_CTX: u32 = 4096;

/// The configuration written at installation: the installed llama-server,
/// the models directory, the default port and context size, and the backend,
/// as pretty-printed JSON with its keys in order.
pub open spec fn install_config_text(llama_path: Seq<char>, models_dir: Seq<char>, backend: Seq<char>) -> Seq<char> {
    "{\n  \"backend\": "@ + crate::json::quoted(backend) + ",\n  \"ctx\": "@ + dec(DEFAULT_CTX as nat)
        + ",\n  \"llama_path\": "@ + crate::json::quoted(llama_path) + ",\n  \"models_dir\": "@
        + crate::json::quoted(models_dir) + ",\n  \"port\": "@ + dec(DEFAULT_PORT as nat) + "\n}"@
}

/// Writes the configuration of a fresh installation.
pub fn install_config(llama_path: &str, models_dir: &str, backend: &str) -> (r: String)
    ensures
        r@ == install_config_text(llama_path@, models_dir@, backend@),
{
    let mut s = String::from_str("{\n  \"backend\": ");
    push_quoted(&mut s, backend);
    push_str(&mut s, ",\n  \"ctx\": ");
    push_digits(&mut s, DEFAULT_CTX as u128, 10);
    push_str(&mut s, ",\n  \"llama_path\": ");
    push_quoted(&mut s, llama_path);
    push_str(&mut s, ",\n  \"models_dir\": ");
    push_quoted(&mut s, models_dir);
    push_str(&mut s, ",\n  \"port\": ");
    push_digits(&mut s, DEFAULT_PORT as u128, 10);
    push_str(&mut s, "\n}");
    assert(s@ =~= install_config_text(llama_path@, models_dir@, backend@));
    s
}

} // verus!
