//! How the headless browser is launched: its profile directory and its
//! command-line arguments. Launching it is the application's work.

use vstd::prelude::*;
use vstd::string::*;
use crate::clock::{is_v4_uuid_text, new_uuid_text};
use crate::config::DEFAULT_USER_AGENT;
use crate::text::{contains, contains_text, owned};

verus! {

/// The browser executable.
pub const EDGE_EXECUTABLE: &'static str = "C:\\Program Files (x86)\\Microsoft\\Edge\\Application\\msedge.exe";

/// The browser window and viewport size, in pixels.
pub const WINDOW_WIDTH: u32 = 1920;

pub const WINDOW_HEIGHT: u32 = 1080;

/// The name of a run's own profile directory, so that runs do not share one.
pub open spec fn profile_dir_name_spec(id: Seq<char>) -> Seq<char> {
    "velaris_browser_"@ + id
}

/// The name of the profile directory for the identifier `id`.
pub fn profile_dir_name_for(id: &str) -> (r: String)
    ensures
        r@ == profile_dir_name_spec(id@),
{
    let mut r = owned("velaris_browser_");
    r.append(id);
    r
}

/// The name of a fresh profile directory, made with a random identifier.
pub fn new_profile_dir_name() -> (r: String)
    ensures
        exists|id: Seq<char>| is_v4_uuid_text(id) && r@ == profile_dir_name_spec(id),
{
    let id = new_uuid_text();
    profile_dir_name_for(id.as_str())
}

/// The command-line arguments of the browser, whose profile lives in `profile_path`.
pub open spec fn browser_args_spec(profile_path: Seq<char>) -> Seq<Seq<char>> {
    seq![
        "--headless=new"@,
        "--user-data-dir="@ + profile_path,
        "--user-agent="@ + DEFAULT_USER_AGENT@,
        "--disable-blink-features=AutomationControlled"@,
        "--no-sandbox"@,
        "--disable-gpu"@,
        "--disable-dev-shm-usage"@,
        "--no-first-run"@,
    ]
}

/// The command-line arguments of the browser (see `browser_args_spec`).
pub fn browser_args(profile_path: &str) -> (r: Vec<String>)
    ensures
        r@.len() == 8,
        forall|i: int| 0 <= i < 8 ==> (#[trigger] r@[i])@ == browser_args_spec(profile_path@)[i],
{
    let mut r: Vec<String> = Vec::new();
    r.push(owned("--headless=new"));
    let mut dir = owned("--user-data-dir=");
    dir.append(profile_path);
    r.push(dir);
    let mut agent = owned("--user-agent=");
    agent.append(DEFAULT_USER_AGENT);
    r.push(agent);
    r.push(owned("--disable-blink-features=AutomationControlled"));
    r.push(owned("--no-sandbox"));
    r.push(owned("--disable-gpu"));
    r.push(owned("--disable-dev-shm-usage"));
    r.push(owned("--no-first-run"));
    r
}

/// Whether an error of the browser connection is worth reporting: errors from
/// decoding protocol messages (which name "Serde" or say that "data did not
/// match") are common across browser versions and are ignored.
pub open spec fn handler_error_reported(msg: Seq<char>) -> bool {
    !contains_text(msg, "Serde"@) && !contains_text(msg, "data did not match"@)
}

/// Whether the browser connection error `msg` is to be reported (see `handler_error_reported`).
pub fn should_report_handler_error(msg: &str) -> (b: bool)
    ensures
        b == handler_error_reported(msg@),
{
    !contains(msg, "Serde") && !contains(msg, "data did not match")
}

} // verus!
