//! Fixed settings of the bot.

use vstd::prelude::*;

verus! {

/// The User-Agent of the browser and of the HTTP requests.
pub const DEFAULT_USER_AGENT: &'static str = "Mozilla/5.0 (Windows NT 10.0; Win64; x64) AppleWebKit/537.36 (KHTML, like Gecko) Chrome/120.0.0.0 Safari/537.36";

/// Seconds to wait for a web site to answer.
pub const WEB_CHECK_TIMEOUT_SECS: u64 = 5;

/// The file that keeps the session between runs.
pub const PERSISTENCE_FILE: &'static str = "session_leads.json";

} // verus!
