//! Deciding the web status of each lead from the answers of its web site.
//!
//! The HTTP requests themselves are made by the application; this module
//! decides which status each answer means, and what a lead's final status is.

use vstd::prelude::*;
use crate::models::{Lead, WebStatus, count_leads, status_is_sin_web, status_is_activa};
use crate::text::{chars_of, host_in_domain, host_of, in_domain, lowercase_of, to_lowercase, url_host};

verus! {

/// Whether a lower-cased host is one of the domains that do not count as a
/// business web site (social networks, link pages, file sharing) or a
/// sub-domain of one.
pub open spec fn social_media_host(host: Seq<char>) -> bool {
    ||| host_in_domain(host, "facebook.com"@)
    ||| host_in_domain(host, "instagram.com"@)
    ||| host_in_domain(host, "wa.me"@)
    ||| host_in_domain(host, "whatsapp.com"@)
    ||| host_in_domain(host, "api.whatsapp.com"@)
    ||| host_in_domain(host, "tiktok.com"@)
    ||| host_in_domain(host, "twitter.com"@)
    ||| host_in_domain(host, "x.com"@)
    ||| host_in_domain(host, "youtube.com"@)
    ||| host_in_domain(host, "t.me"@)
    ||| host_in_domain(host, "telegram.me"@)
    ||| host_in_domain(host, "linktr.ee"@)
    ||| host_in_domain(host, "linktree.com"@)
    ||| host_in_domain(host, "drive.google.com"@)
    ||| host_in_domain(host, "docs.google.com"@)
    ||| host_in_domain(host, "dropbox.com"@)
}

/// Whether `url` is a social network or similar page rather than a business
/// web site: its host, in lower case, is one of the listed domains or a
/// sub-domain of one.
pub open spec fn is_social_media_spec(url: Seq<char>) -> bool {
    social_media_host(lowercase_of(host_of(url)))
}

/// Whether a lower-cased host is one of the listed domains or a sub-domain of one.
pub fn is_social_media_host(host: &str) -> (b: bool)
    ensures
        b == social_media_host(host@),
{
    let h = chars_of(host);
    in_domain(&h, "facebook.com")
        || in_domain(&h, "instagram.com")
        || in_domain(&h, "wa.me")
        || in_domain(&h, "whatsapp.com")
        || in_domain(&h, "api.whatsapp.com")
        || in_domain(&h, "tiktok.com")
        || in_domain(&h, "twitter.com")
        || in_domain(&h, "x.com")
        || in_domain(&h, "youtube.com")
        || in_domain(&h, "t.me")
        || in_domain(&h, "telegram.me")
        || in_domain(&h, "linktr.ee")
        || in_domain(&h, "linktree.com")
        || in_domain(&h, "drive.google.com")
        || in_domain(&h, "docs.google.com")
        || in_domain(&h, "dropbox.com")
}

/// Whether `url` does not count as a business web site (see `is_social_media_spec`).
pub fn is_social_media(url: &str) -> (b: bool)
    ensures
        b == is_social_media_spec(url@),
{
    let host = url_host(url);
    let lower = to_lowercase(host.as_str());
    is_social_media_host(lower.as_str())
}

/// A lead whose web link is on one of the listed domains (facebook.com,
/// instagram.com, wa.me, whatsapp.com, api.whatsapp.com, tiktok.com,
/// twitter.com, x.com, youtube.com, t.me, telegram.me, linktr.ee,
/// linktree.com, drive.google.com, docs.google.com, dropbox.com), or on a
/// sub-domain of one, is a social page: its final status is `SinWeb`
/// whatever its site answered.
pub proof fn law_listed_domains_have_no_web(url: String, d: Seq<char>)
    requires
        d == "facebook.com"@
            || d == "instagram.com"@
            || d == "wa.me"@
            || d == "whatsapp.com"@
            || d == "api.whatsapp.com"@
            || d == "tiktok.com"@
            || d == "twitter.com"@
            || d == "x.com"@
            || d == "youtube.com"@
            || d == "t.me"@
            || d == "telegram.me"@
            || d == "linktr.ee"@
            || d == "linktree.com"@
            || d == "drive.google.com"@
            || d == "docs.google.com"@
            || d == "dropbox.com"@,
        ({
            let h = lowercase_of(host_of(url@));
            h == d || (h.len() > d.len() && h[h.len() - d.len() - 1] == '.' && h.skip(
                h.len() - d.len(),
            ) == d)
        }),
    ensures
        is_social_media_spec(url@),
        forall|probe: WebStatus| #[trigger] resolved_status(Some(url), probe) == WebStatus::SinWeb,
{
}

/// What came of one HTTP request to a lead's web site.
#[derive(Debug, Clone, PartialEq)]
pub enum HttpOutcome {
    /// The server answered with this status code.
    Responded(u16),
    /// The request timed out.
    TimedOut,
    /// The request failed otherwise; the text describes the error.
    Failed(String),
}

/// The status that an answer means: a 2xx code is an active site, any other
/// code a server error, a time-out `Timeout`, and any other failure `Caida`.
pub open spec fn status_of_outcome(o: HttpOutcome) -> WebStatus {
    match o {
        HttpOutcome::Responded(code) => if 200 <= code <= 299 {
            WebStatus::Activa
        } else {
            WebStatus::ErrorServidor(code)
        },
        HttpOutcome::TimedOut => WebStatus::Timeout,
        HttpOutcome::Failed(msg) => WebStatus::Caida(msg),
    }
}

/// The status that an answer means (see `status_of_outcome`).
pub fn status_from_outcome(outcome: HttpOutcome) -> (s: WebStatus)
    ensures
        s == status_of_outcome(outcome),
{
    match outcome {
        HttpOutcome::Responded(code) => if 200 <= code && code <= 299 {
            WebStatus::Activa
        } else {
            WebStatus::ErrorServidor(code)
        },
        HttpOutcome::TimedOut => WebStatus::Timeout,
        HttpOutcome::Failed(msg) => WebStatus::Caida(msg),
    }
}

/// A site is probed with a HEAD request first. If the server answered, its
/// answer decides the status; if the request failed, `None` says that a GET
/// request must be made, whose outcome then decides.
pub fn status_after_head(head: HttpOutcome) -> (s: Option<WebStatus>)
    ensures
        head is Responded ==> s == Some(status_of_outcome(head)),
        !(head is Responded) ==> s is None,
{
    match head {
        HttpOutcome::Responded(code) => Some(status_from_outcome(HttpOutcome::Responded(code))),
        _ => None,
    }
}

/// The final status of a lead whose site probe gave `probe`: a lead without a
/// URL, or whose URL is a social network page, has no web site of its own.
pub open spec fn resolved_status(url_web: Option<String>, probe: WebStatus) -> WebStatus {
    match url_web {
        Some(url) => if is_social_media_spec(url@) {
            WebStatus::SinWeb
        } else {
            probe
        },
        None => WebStatus::SinWeb,
    }
}

/// The final status of a lead whose site probe gave `probe` (see `resolved_status`).
pub fn resolve_status(url_web: &Option<String>, probe: WebStatus) -> (s: WebStatus)
    ensures
        s == resolved_status(*url_web, probe),
{
    match url_web {
        Some(url) => if is_social_media(url.as_str()) {
            WebStatus::SinWeb
        } else {
            probe
        },
        None => WebStatus::SinWeb,
    }
}

/// Records the probe results in the leads: `results[i]` is the status that the
/// probe of `leads[i]` gave, or `None` when that probe did not finish, in which
/// case the lead keeps its status.
pub fn apply_probe_results(leads: &mut Vec<Lead>, results: &Vec<Option<WebStatus>>)
    requires
        old(leads).len() == results.len(),
    ensures
        final(leads).len() == old(leads).len(),
        forall|i: int|
            0 <= i < results.len() ==> #[trigger] final(leads)@[i] == match results@[i] {
                Some(st) => Lead { estado_web: resolved_status(old(leads)@[i].url_web, st), ..old(leads)@[i] },
                None => old(leads)@[i],
            },
{
    let ghost orig = leads@;
    let mut i: usize = 0;
    while i < results.len()
        invariant
            i <= results.len(),
            leads.len() == results.len(),
            orig.len() == results.len(),
            forall|j: int|
                0 <= j < i ==> #[trigger] leads@[j] == match results@[j] {
                    Some(st) => Lead { estado_web: resolved_status(orig[j].url_web, st), ..orig[j] },
                    None => orig[j],
                },
            forall|j: int| i <= j < results.len() ==> #[trigger] leads@[j] == orig[j],
        decreases results.len() - i,
    {
        match &results[i] {
            Some(st) => {
                let status = resolve_status(&leads[i].url_web, st.duplicate());
                let updated = leads[i].with_status(status);
                leads.set(i, updated);
            },
            None => {},
        }
        i += 1;
    }
}

/// The three numbers reported after validation.
#[derive(Debug, Clone, Copy, PartialEq)]
pub struct ValidationSummary {
    /// Leads without a web site of their own.
    pub sin_web: usize,
    /// Leads with an active web site.
    pub con_web: usize,
    /// Leads whose site is down or answered with an error.
    pub caidos: usize,
}

/// Counts the leads without a web site, with an active one, and the rest.
pub fn validation_summary(leads: &Vec<Lead>) -> (r: ValidationSummary)
    ensures
        r.sin_web == count_leads(leads@, status_is_sin_web()),
        r.con_web == count_leads(leads@, status_is_activa()),
        r.caidos == leads.len() - r.sin_web - r.con_web,
{
    let mut sin_web: usize = 0;
    let mut con_web: usize = 0;
    let mut i: usize = 0;
    while i < leads.len()
        invariant
            i <= leads.len(),
            sin_web == count_leads(leads@.take(i as int), status_is_sin_web()),
            con_web == count_leads(leads@.take(i as int), status_is_activa()),
            sin_web + con_web <= i,
        decreases leads.len() - i,
    {
        assert(leads@.take(i + 1).drop_last() =~= leads@.take(i as int));
        if leads[i].estado_web.is_sin_web() {
            sin_web += 1;
        } else if leads[i].estado_web.is_activa() {
            con_web += 1;
        }
        i += 1;
    }
    assert(leads@.take(leads.len() as int) =~= leads@);
    ValidationSummary { sin_web, con_web, caidos: leads.len() - sin_web - con_web }
}

} // verus!
