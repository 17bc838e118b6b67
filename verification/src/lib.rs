use vstd::prelude::*;

pub mod calendar;
pub mod catalog;
pub mod chatml;
pub mod clock;
pub mod config;
pub mod download;
pub mod hardware;
pub mod json;
pub mod logger;
pub mod models;
pub mod order;
pub mod proxy;
pub mod registry;
pub mod reply;
pub mod router;
pub mod server;
pub mod sessions;
pub mod sizes;
pub mod text;

verus! {

/// The value that configuration fields without an explicit setting take.
pub fn default_true() -> (r: bool)
    ensures
        r == true,
{
    true
}

/// The serde default of a running model's `persistent` flag.
pub fn return_true() -> (r: bool)
    ensures
        r == true,
{
    true
}

} // verus!
