//! The decisions of the Google Maps scraper.
//!
//! The browser work (loading the page, evaluating scripts, clicking, waiting)
//! is done by the application. This module decides, from what the page gave
//! back, which cards are new, when to stop scrolling, which businesses become
//! leads and what each lead holds.

use vstd::prelude::*;
use vstd::string::*;
use crate::clock::{Timestamp, is_v4_uuid_text, new_uuid_text, now_utc};
use crate::models::{Lead, WebStatus, copy_opt_text, copy_text, has_url, unique_urls};
use crate::text::{
    ascii_digits, ascii_digits_of, chars_of, first_word, first_word_of, host_in_domain, host_of,
    in_domain, is_white_space, lemma_replace_char_one_for_one, lemma_take_while_stop,
    lowercase_of, non_white_space_pred, owned, parse_u32_chars, parse_u32_spec, replace_char,
    replace_char_with, skip_while, to_lowercase, url_host, white_space_pred,
};

verus! {

/// After this many scrolls in a row that bring no new card, the end of the
/// result list is taken as reached.
pub const MAX_STAGNANT_SCROLLS: u32 = 10;

/// The most discovery rounds of one scraping run.
pub const MAX_BATCHES: u32 = 120;

// ─── Domains that do not count as a business web site ───────────────────────

/// Whether a lower-cased host is one of the domains that do not count as a
/// corporate web site when scraping, or a sub-domain of one.
pub open spec fn blacklisted_host(host: Seq<char>) -> bool {
    ||| host_in_domain(host, "facebook.com"@)
    ||| host_in_domain(host, "instagram.com"@)
    ||| host_in_domain(host, "wa.me"@)
    ||| host_in_domain(host, "whatsapp.com"@)
    ||| host_in_domain(host, "api.whatsapp.com"@)
    ||| host_in_domain(host, "linktr.ee"@)
    ||| host_in_domain(host, "linktree.com"@)
    ||| host_in_domain(host, "drive.google.com"@)
    ||| host_in_domain(host, "docs.google.com"@)
    ||| host_in_domain(host, "tiktok.com"@)
    ||| host_in_domain(host, "twitter.com"@)
    ||| host_in_domain(host, "x.com"@)
    ||| host_in_domain(host, "youtube.com"@)
    ||| host_in_domain(host, "t.me"@)
    ||| host_in_domain(host, "telegram.me"@)
}

/// Whether `url` is a social network or similar page rather than a corporate
/// web site: its host, in lower case, is one of the listed domains or a
/// sub-domain of one.
pub open spec fn is_social_or_blacklisted_spec(url: Seq<char>) -> bool {
    blacklisted_host(lowercase_of(host_of(url)))
}

/// Whether a lower-cased host is one of the listed domains or a sub-domain of one.
pub fn is_blacklisted_host(host: &str) -> (b: bool)
    ensures
        b == blacklisted_host(host@),
{
    let h = chars_of(host);
    in_domain(&h, "facebook.com")
        || in_domain(&h, "instagram.com")
        || in_domain(&h, "wa.me")
        || in_domain(&h, "whatsapp.com")
        || in_domain(&h, "api.whatsapp.com")
        || in_domain(&h, "linktr.ee")
        || in_domain(&h, "linktree.com")
        || in_domain(&h, "drive.google.com")
        || in_domain(&h, "docs.google.com")
        || in_domain(&h, "tiktok.com")
        || in_domain(&h, "twitter.com")
        || in_domain(&h, "x.com")
        || in_domain(&h, "youtube.com")
        || in_domain(&h, "t.me")
        || in_domain(&h, "telegram.me")
}

/// Whether `url` does not count as a corporate web site (see
/// `is_social_or_blacklisted_spec`).
pub fn is_social_or_blacklisted(url: &str) -> (b: bool)
    ensures
        b == is_social_or_blacklisted_spec(url@),
{
    let host = url_host(url);
    let lower = to_lowercase(host.as_str());
    is_blacklisted_host(lower.as_str())
}

// ─── Reading the card texts ──────────────────────────────────────────────────

/// The review count written in a card: its ASCII digits read as a `u32`, or 0
/// when there are none or they do not fit.
pub open spec fn review_count_spec(text: Seq<char>) -> u32 {
    match parse_u32_spec(ascii_digits(text)) {
        Some(n) => n,
        None => 0,
    }
}

/// The review count written in a card (see `review_count_spec`).
pub fn parse_review_count(text: &str) -> (n: u32)
    ensures
        n == review_count_spec(text@),
{
    let digits = ascii_digits_of(text);
    match parse_u32_chars(&digits) {
        Some(n) => n,
        None => 0,
    }
}

/// The number part of a card's rating text: commas become decimal points and
/// the first white-space separated word is taken.
pub open spec fn score_token_spec(text: Seq<char>) -> Option<Seq<char>> {
    first_word(replace_char(text, ',', "."@))
}

/// The number part of a card's rating text (see `score_token_spec`).
pub fn score_token(text: &str) -> (r: Option<String>)
    ensures
        r matches Some(t) ==> score_token_spec(text@) == Some(t@),
        r is None ==> score_token_spec(text@) is None,
{
    let dotted = replace_char_with(text, ',', ".");
    first_word_of(dotted.as_str())
}

/// For a card rating written without white space, the rating word is the
/// whole text, character for character, with each comma turned into a
/// decimal point (so "4,5" and "4.5" both give "4.5").
pub proof fn law_score_token_keeps_the_rating(text: Seq<char>)
    requires
        text.len() > 0,
        forall|i: int| 0 <= i < text.len() ==> !is_white_space(#[trigger] text[i]),
    ensures
        score_token_spec(text) matches Some(t) && t.len() == text.len() && forall|i: int|
            0 <= i < text.len() ==> #[trigger] t[i] == (if text[i] == ',' {
                '.'
            } else {
                text[i]
            }),
{
    let r = replace_char(text, ',', "."@);
    lemma_replace_char_one_for_one(text, ',', '.');
    assert(seq!['.'] =~= "."@) by {
        reveal_strlit(".");
    }
    let p = white_space_pred();
    assert(!p(r[0]));
    assert(skip_while(r, p) == r);
    let q = non_white_space_pred();
    assert forall|j: int| 0 <= j < r.len() implies q(#[trigger] r[j]) by {}
    lemma_take_while_stop(r, q, r.len() as int);
    assert(r.take(r.len() as int) =~= r);
}

// ─── Browser scripts and addresses ───────────────────────────────────────────

/// The Maps search address for a category in a zone.
pub open spec fn search_url_spec(categoria: Seq<char>, zona: Seq<char>) -> Seq<char> {
    "https://www.google.com/maps/search/"@ + categoria + "+en+"@ + zona
}

/// The Maps search address for a category in a zone (see `search_url_spec`).
pub fn search_url(categoria: &str, zona: &str) -> (r: String)
    ensures
        r@ == search_url_spec(categoria@, zona@),
{
    let mut r = owned("https://www.google.com/maps/search/");
    r.append(categoria);
    r.append("+en+");
    r.append(zona);
    r
}

pub const CLICK_SCRIPT_HEAD: &'static str = "\n                () => {\n                    const card = document.querySelector('a[href=\"";

pub const CLICK_SCRIPT_TAIL: &'static str = "\"]');\n                    if (card) {\n                        card.dataset.velarisProcessed = \"done\";\n                        card.scrollIntoView({behavior: 'instant', block: 'center'});\n                        card.click();\n                        return true;\n                    }\n                    return false;\n                }\n            ";

/// The script that opens the card with the Maps address `maps_url`; double
/// quotes in the address are escaped so that it fits in the selector.
pub open spec fn click_script_spec(maps_url: Seq<char>) -> Seq<char> {
    CLICK_SCRIPT_HEAD@ + replace_char(maps_url, '"', "\\\""@) + CLICK_SCRIPT_TAIL@
}

/// The script that opens the card with the Maps address `maps_url` (see `click_script_spec`).
pub fn click_script(maps_url: &str) -> (r: String)
    ensures
        r@ == click_script_spec(maps_url@),
{
    let escaped = replace_char_with(maps_url, '"', "\\\"");
    let mut r = owned(CLICK_SCRIPT_HEAD);
    r.append(escaped.as_str());
    r.append(CLICK_SCRIPT_TAIL);
    r
}

// ─── What the page gives back ────────────────────────────────────────────────

/// A result card found in the list, before it is opened.
#[derive(Debug, Clone, PartialEq)]
pub struct RawCard {
    pub nombre: String,
    pub maps_url: String,
    /// The review count as the card shows it.
    pub resenas: String,
    /// The rating as the card shows it.
    pub calificacion: String,
}

/// What the detail panel of a business shows.
#[derive(Debug, Clone, PartialEq)]
pub struct PlaceDetail {
    pub phone: Option<String>,
    pub web: Option<String>,
    pub addr: Option<String>,
}

impl RawCard {
    /// An identical copy of this card.
    pub fn duplicate(&self) -> (r: RawCard)
        ensures
            r == *self,
    {
        RawCard {
            nombre: copy_text(&self.nombre),
            maps_url: copy_text(&self.maps_url),
            resenas: copy_text(&self.resenas),
            calificacion: copy_text(&self.calificacion),
        }
    }
}

/// The cards of `s` whose Maps address is not in `done`, in order.
pub open spec fn fresh_cards(s: Seq<RawCard>, done: Set<Seq<char>>) -> Seq<RawCard>
    decreases s.len(),
{
    if s.len() == 0 {
        Seq::empty()
    } else {
        fresh_cards(s.drop_last(), done) + (if done.contains(s.last().maps_url@) {
            Seq::empty()
        } else {
            seq![s.last()]
        })
    }
}

/// Whether the business of `detail` qualifies: it has no web site, or only a
/// social network page or similar.
pub open spec fn qualifies(detail: PlaceDetail) -> bool {
    match detail.web {
        None => true,
        Some(url) => is_social_or_blacklisted_spec(url@),
    }
}

/// The lead made from an opened card: no e-mail, status `SinWeb`, the
/// review count read from the card, and the given rating (in tenths),
/// identifier and extraction time.
pub open spec fn lead_from(
    card: RawCard,
    detail: PlaceDetail,
    categoria: String,
    calificacion_decimas: u32,
    id: String,
    now: Timestamp,
) -> Lead {
    Lead {
        id: id,
        nombre: card.nombre,
        direccion: detail.addr,
        telefono: detail.phone,
        correo: None,
        categoria: categoria,
        url_web: detail.web,
        maps_url: card.maps_url,
        estado_web: WebStatus::SinWeb,
        resenas: review_count_spec(card.resenas@),
        calificacion_decimas: calificacion_decimas,
        extraido_el: now,
    }
}

/// `s` with `l` stored under its Maps address: it replaces the lead with the
/// same address, or is added at the end when there is none.
pub open spec fn upsert_lead(s: Seq<Lead>, l: Lead) -> Seq<Lead> {
    if has_url(s, l.maps_url@) {
        s.update(choose|i: int| 0 <= i < s.len() && (#[trigger] s[i]).maps_url@ == l.maps_url@, l)
    } else {
        s.push(l)
    }
}

/// What the scraper should do after a discovery round.
#[derive(Debug, Clone, PartialEq)]
pub enum BatchStep {
    /// Open these new cards one by one, then scroll on.
    Process(Vec<RawCard>),
    /// Nothing new: scroll and look again.
    Scroll,
    /// Nothing new for too long: the end of the list is reached.
    Stop,
}

/// The state of a scraping run.
pub struct ScrapeState {
    rounds: u32,
    stagnant_scrolls: u32,
    total_analyzed: u32,
    processed_urls: Vec<String>,
    leads: Vec<Lead>,
}

impl ScrapeState {
    /// Discovery rounds done so far.
    pub closed spec fn rounds(&self) -> nat {
        self.rounds as nat
    }

    /// The run is over: the end of the list was reached (too many fruitless
    /// scrolls) or `MAX_BATCHES` rounds were done.
    pub open spec fn finished(&self) -> bool {
        self.stagnant() >= MAX_STAGNANT_SCROLLS || self.rounds() >= MAX_BATCHES
    }

    /// Scrolls in a row that brought no new card.
    pub closed spec fn stagnant(&self) -> nat {
        self.stagnant_scrolls as nat
    }

    /// Cards opened so far.
    pub closed spec fn analyzed(&self) -> nat {
        self.total_analyzed as nat
    }

    /// The Maps addresses of the cards opened so far.
    pub closed spec fn processed(&self) -> Set<Seq<char>> {
        Set::new(|u: Seq<char>| exists|i: int| 0 <= i < self.processed_urls@.len() && (#[trigger] self.processed_urls@[i])@ == u)
    }

    /// The leads captured so far, one per Maps address.
    pub closed spec fn captured(&self) -> Seq<Lead> {
        self.leads@
    }

    /// The state is consistent: the stagnation count is within its limit, no
    /// two captured leads share a Maps address, and every captured lead has
    /// status `SinWeb`, no e-mail, and no web site but possibly a social page.
    pub closed spec fn wf(&self) -> bool {
        &&& self.stagnant_scrolls <= MAX_STAGNANT_SCROLLS
        &&& self.rounds <= MAX_BATCHES
        &&& unique_urls(self.leads@)
        &&& forall|i: int| 0 <= i < self.leads@.len() ==> {
            let l = #[trigger] self.leads@[i];
            &&& l.estado_web is SinWeb
            &&& l.correo is None
            &&& match l.url_web {
                None => true,
                Some(url) => is_social_or_blacklisted_spec(url@),
            }
        }
    }

    /// A fresh run: nothing opened, nothing captured.
    pub fn new() -> (s: ScrapeState)
        ensures
            s.wf(),
            s.rounds() == 0,
            s.stagnant() == 0,
            s.analyzed() == 0,
            s.processed() == Set::<Seq<char>>::empty(),
            s.captured() == Seq::<Lead>::empty(),
    {
        let s = ScrapeState {
            rounds: 0,
            stagnant_scrolls: 0,
            total_analyzed: 0,
            processed_urls: Vec::new(),
            leads: Vec::new(),
        };
        assert(s.processed() =~= Set::<Seq<char>>::empty());
        s
    }

    /// Scrolls in a row that brought no new card.
    pub fn stagnant_scrolls(&self) -> (n: u32)
        ensures
            n == self.stagnant(),
    {
        self.stagnant_scrolls
    }

    /// Cards opened so far.
    pub fn total_analyzed(&self) -> (n: u32)
        ensures
            n == self.analyzed(),
    {
        self.total_analyzed
    }

    /// How many leads have been captured.
    pub fn lead_count(&self) -> (n: usize)
        ensures
            n == self.captured().len(),
    {
        self.leads.len()
    }

    /// Discovery rounds done so far.
    pub fn rounds_done(&self) -> (n: u32)
        ensures
            n == self.rounds(),
    {
        self.rounds
    }

    /// Whether the run is over (see `finished`).
    pub fn is_finished(&self) -> (b: bool)
        ensures
            b == self.finished(),
    {
        self.stagnant_scrolls >= MAX_STAGNANT_SCROLLS || self.rounds >= MAX_BATCHES
    }

    /// Whether the card with Maps address `url` was opened already.
    pub fn was_processed(&self, url: &String) -> (b: bool)
        ensures
            b == self.processed().contains(url@),
    {
        let mut i: usize = 0;
        while i < self.processed_urls.len()
            invariant
                i <= self.processed_urls.len(),
                forall|j: int| 0 <= j < i ==> (#[trigger] self.processed_urls@[j])@ != url@,
            decreases self.processed_urls.len() - i,
        {
            if self.processed_urls[i] == *url {
                return true;
            }
            i += 1;
        }
        false
    }

    /// The cards of a discovery round that were not opened before.
    pub fn fresh(&self, candidates: &Vec<RawCard>) -> (r: Vec<RawCard>)
        ensures
            r@ == fresh_cards(candidates@, self.processed()),
    {
        let mut r: Vec<RawCard> = Vec::new();
        let mut i: usize = 0;
        while i < candidates.len()
            invariant
                i <= candidates.len(),
                r@ == fresh_cards(candidates@.take(i as int), self.processed()),
            decreases candidates.len() - i,
        {
            assert(candidates@.take(i + 1).drop_last() =~= candidates@.take(i as int));
            if !self.was_processed(&candidates[i].maps_url) {
                r.push(candidates[i].duplicate());
            }
            i += 1;
        }
        assert(candidates@.take(candidates.len() as int) =~= candidates@);
        r
    }

    /// Decides what follows a discovery round that found `candidates`: the
    /// round is counted; the cards not opened before are to be processed, and
    /// the stagnation count starts again; when there is none, the count goes
    /// up and the run stops once it reaches `MAX_STAGNANT_SCROLLS`.
    pub fn on_batch(&mut self, candidates: &Vec<RawCard>) -> (step: BatchStep)
        requires
            old(self).wf(),
            !old(self).finished(),
        ensures
            final(self).wf(),
            final(self).rounds() == old(self).rounds() + 1,
            final(self).analyzed() == old(self).analyzed(),
            final(self).processed() == old(self).processed(),
            final(self).captured() == old(self).captured(),
            fresh_cards(candidates@, old(self).processed()).len() > 0 ==> final(self).stagnant() == 0
                && (step matches BatchStep::Process(v) && v@ == fresh_cards(
                candidates@,
                old(self).processed(),
            )),
            fresh_cards(candidates@, old(self).processed()).len() == 0 ==> final(self).stagnant()
                == old(self).stagnant() + 1 && (if final(self).stagnant() >= MAX_STAGNANT_SCROLLS {
                step is Stop
            } else {
                step is Scroll
            }),
    {
        let new_cards = self.fresh(candidates);
        self.rounds = self.rounds + 1;
        if new_cards.len() == 0 {
            self.stagnant_scrolls = self.stagnant_scrolls + 1;
            if self.stagnant_scrolls >= MAX_STAGNANT_SCROLLS {
                BatchStep::Stop
            } else {
                BatchStep::Scroll
            }
        } else {
            self.stagnant_scrolls = 0;
            BatchStep::Process(new_cards)
        }
    }

    /// Marks `card` as opened; returns how many cards have been opened.
    pub fn start_card(&mut self, card: &RawCard) -> (n: u32)
        requires
            old(self).wf(),
            old(self).analyzed() < u32::MAX,
        ensures
            final(self).wf(),
            final(self).analyzed() == old(self).analyzed() + 1,
            n == final(self).analyzed(),
            final(self).processed() == old(self).processed().insert(card.maps_url@),
            final(self).captured() == old(self).captured(),
            final(self).stagnant() == old(self).stagnant(),
            final(self).rounds() == old(self).rounds(),
    {
        let ghost before = self.processed();
        if !self.was_processed(&card.maps_url) {
            self.processed_urls.push(copy_text(&card.maps_url));
            assert(self.processed() =~= before.insert(card.maps_url@)) by {
                assert(self.processed_urls@[self.processed_urls@.len() - 1]@ == card.maps_url@);
                assert forall|u: Seq<char>| before.contains(u) implies self.processed().contains(u) by {
                    let j = choose|j: int| 0 <= j < self.processed_urls@.len() - 1 && (#[trigger] old(self).processed_urls@[j])@ == u;
                    assert(self.processed_urls@[j] == old(self).processed_urls@[j]);
                }
                assert forall|u: Seq<char>| self.processed().contains(u) implies #[trigger] before.insert(card.maps_url@).contains(u) by {
                    let j = choose|j: int| 0 <= j < self.processed_urls@.len() && (#[trigger] self.processed_urls@[j])@ == u;
                    if j < self.processed_urls@.len() - 1 {
                        assert(self.processed_urls@[j] == old(self).processed_urls@[j]);
                    }
                }
            }
        } else {
            assert(self.processed() =~= before.insert(card.maps_url@));
        }
        self.total_analyzed = self.total_analyzed + 1;
        self.total_analyzed
    }

    /// Stores `lead` under its Maps address.
    #[verifier::loop_isolation(false)]
    fn store(&mut self, lead: Lead)
        requires
            old(self).wf(),
            lead.estado_web is SinWeb,
            lead.correo is None,
            match lead.url_web {
                None => true,
                Some(url) => is_social_or_blacklisted_spec(url@),
            },
        ensures
            final(self).wf(),
            final(self).captured() == upsert_lead(old(self).captured(), lead),
            final(self).processed() == old(self).processed(),
            final(self).analyzed() == old(self).analyzed(),
            final(self).stagnant() == old(self).stagnant(),
            final(self).rounds() == old(self).rounds(),
    {
        let ghost s = self.leads@;
        let mut i: usize = 0;
        while i < self.leads.len()
            invariant
                *self == *old(self),
                s == self.leads@,
                i <= self.leads.len(),
                forall|j: int| 0 <= j < i ==> (#[trigger] self.leads@[j]).maps_url@ != lead.maps_url@,
            decreases self.leads.len() - i,
        {
            if self.leads[i].maps_url == lead.maps_url {
                proof {
                    assert(has_url(s, lead.maps_url@));
                    let c = choose|k: int| 0 <= k < s.len() && (#[trigger] s[k]).maps_url@ == lead.maps_url@;
                    if c != i {
                        if c < i {
                        } else {
                            assert(s[i as int].maps_url@ == s[c].maps_url@);
                        }
                    }
                }
                self.leads.set(i, lead);
                proof {
                    let t = self.leads@;
                    assert forall|a: int, b: int| 0 <= a < b < t.len() implies (#[trigger] t[a]).maps_url@
                        != (#[trigger] t[b]).maps_url@ by {
                        if a != i && b != i {
                            assert(t[a] == s[a] && t[b] == s[b]);
                        } else if a == i {
                            assert(t[b] == s[b]);
                            assert(s[i as int].maps_url@ == lead.maps_url@);
                        } else {
                            assert(t[a] == s[a]);
                            assert(s[i as int].maps_url@ == lead.maps_url@);
                        }
                    }
                }
                return;
            }
            i += 1;
        }
        assert(!has_url(s, lead.maps_url@));
        self.leads.push(lead);
        proof {
            let t = self.leads@;
            assert forall|a: int, b: int| 0 <= a < b < t.len() implies (#[trigger] t[a]).maps_url@
                != (#[trigger] t[b]).maps_url@ by {
                assert(t[a] == s[a]);
                if b < s.len() {
                    assert(t[b] == s[b]);
                }
            }
        }
    }

    /// Decides on an opened card: a business with a corporate web site is left
    /// out (`false`); otherwise its lead, made with identifier `id` at time
    /// `now`, is stored under its Maps address (`true`).
    pub fn record_card(
        &mut self,
        card: RawCard,
        detail: PlaceDetail,
        categoria: &String,
        calificacion_decimas: u32,
        id: String,
        now: Timestamp,
    ) -> (captured: bool)
        requires
            old(self).wf(),
        ensures
            final(self).wf(),
            captured == qualifies(detail),
            captured ==> final(self).captured() == upsert_lead(
                old(self).captured(),
                lead_from(card, detail, *categoria, calificacion_decimas, id, now),
            ),
            !captured ==> final(self).captured() == old(self).captured(),
            final(self).processed() == old(self).processed(),
            final(self).analyzed() == old(self).analyzed(),
            final(self).stagnant() == old(self).stagnant(),
            final(self).rounds() == old(self).rounds(),
    {
        let keep = match &detail.web {
            None => true,
            Some(url) => is_social_or_blacklisted(url.as_str()),
        };
        if !keep {
            return false;
        }
        let resenas = parse_review_count(card.resenas.as_str());
        let lead = Lead {
            id: id,
            nombre: card.nombre,
            direccion: detail.addr,
            telefono: detail.phone,
            correo: None,
            categoria: copy_text(categoria),
            url_web: detail.web,
            maps_url: card.maps_url,
            estado_web: WebStatus::SinWeb,
            resenas: resenas,
            calificacion_decimas: calificacion_decimas,
            extraido_el: now,
        };
        self.store(lead);
        true
    }

    /// Decides on an opened card as `record_card` does, drawing a fresh
    /// identifier and reading the clock for the lead.
    pub fn capture_card(
        &mut self,
        card: RawCard,
        detail: PlaceDetail,
        categoria: &String,
        calificacion_decimas: u32,
    ) -> (captured: bool)
        requires
            old(self).wf(),
        ensures
            final(self).wf(),
            captured == qualifies(detail),
            captured ==> exists|id: String, now: Timestamp|
                is_v4_uuid_text(id@) && now.secs >= 0 && now.nanos < 1_000_000_000
                    && final(self).captured() == upsert_lead(
                    old(self).captured(),
                    lead_from(card, detail, *categoria, calificacion_decimas, id, now),
                ),
            !captured ==> final(self).captured() == old(self).captured(),
            final(self).processed() == old(self).processed(),
            final(self).analyzed() == old(self).analyzed(),
            final(self).stagnant() == old(self).stagnant(),
            final(self).rounds() == old(self).rounds(),
    {
        let id = new_uuid_text();
        let now = now_utc();
        self.record_card(card, detail, categoria, calificacion_decimas, id, now)
    }

    /// The captured leads, one per Maps address.
    pub fn into_leads(self) -> (r: Vec<Lead>)
        ensures
            r@ == self.captured(),
    {
        self.leads
    }
}

/// A business whose only web link is on one of the scraper's listed domains
/// (facebook.com, instagram.com, wa.me, whatsapp.com, api.whatsapp.com,
/// linktr.ee, linktree.com, drive.google.com, docs.google.com, tiktok.com,
/// twitter.com, x.com, youtube.com, t.me, telegram.me), or on a sub-domain of
/// one, counts as having no corporate web site: its link is blacklisted and
/// the business qualifies, so `record_card` captures it.
pub proof fn law_listed_domains_qualify(detail: PlaceDetail, url: String, d: Seq<char>)
    requires
        detail.web == Some(url),
        d == "facebook.com"@
            || d == "instagram.com"@
            || d == "wa.me"@
            || d == "whatsapp.com"@
            || d == "api.whatsapp.com"@
            || d == "linktr.ee"@
            || d == "linktree.com"@
            || d == "drive.google.com"@
            || d == "docs.google.com"@
            || d == "tiktok.com"@
            || d == "twitter.com"@
            || d == "x.com"@
            || d == "youtube.com"@
            || d == "t.me"@
            || d == "telegram.me"@,
        ({
            let h = lowercase_of(host_of(url@));
            h == d || (h.len() > d.len() && h[h.len() - d.len() - 1] == '.' && h.skip(
                h.len() - d.len(),
            ) == d)
        }),
    ensures
        is_social_or_blacklisted_spec(url@),
        qualifies(detail),
{
}

/// Every lead a scraping run holds is a business without a corporate web site
/// (no URL, or one whose host is a listed social or sharing domain), has status
/// `SinWeb`, and no two leads share a Maps address; a run never counts more
/// than `MAX_STAGNANT_SCROLLS` fruitless scrolls nor `MAX_BATCHES` rounds.
pub proof fn law_captured_leads_have_no_corporate_site(s: &ScrapeState)
    requires
        s.wf(),
    ensures
        unique_urls(s.captured()),
        forall|i: int|
            0 <= i < s.captured().len() ==> {
                let l = #[trigger] s.captured()[i];
                &&& l.estado_web is SinWeb
                &&& l.correo is None
                &&& match l.url_web {
                    None => true,
                    Some(url) => is_social_or_blacklisted_spec(url@),
                }
            },
        s.stagnant() <= MAX_STAGNANT_SCROLLS,
        s.rounds() <= MAX_BATCHES,
{
}

} // verus!
