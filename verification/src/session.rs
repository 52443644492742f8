//! Accumulating leads between runs, and the decisions of the interactive
//! session: which category an answer selects, how many reviews it asks for,
//! whether a saved session is resumed, and how the report file is named.

use vstd::prelude::*;
use vstd::string::*;
use crate::clock::{FILE_STAMP_PATTERN, Timestamp, is_file_stamp, local_time_text, now_utc};
use crate::models::{Lead, SearchSession, has_url, unique_urls};
use crate::text::{
    before_char, lowercase_of, owned, parse_u32, parse_u32_spec, replace_char,
    replace_char_with, same_text, text_before, to_lowercase, trim, trimmed,
};

verus! {

// ─── Accumulating leads ──────────────────────────────────────────────────────

/// The leads of `s` that are kept when the accumulated list is cleaned up:
/// a lead stays when no earlier lead has the same Maps URL and its web site
/// was not found active.
pub open spec fn kept_leads(s: Seq<Lead>) -> Seq<Lead>
    decreases s.len(),
{
    if s.len() == 0 {
        Seq::empty()
    } else {
        let prev = kept_leads(s.drop_last());
        if !has_url(s.drop_last(), s.last().maps_url@) && !(s.last().estado_web is Activa) {
            prev.push(s.last())
        } else {
            prev
        }
    }
}

/// No lead of `s` has an active web site.
pub open spec fn none_active(s: Seq<Lead>) -> bool {
    forall|i: int| 0 <= i < s.len() ==> !((#[trigger] s[i]).estado_web is Activa)
}

/// Whether some lead before position `i` of `s` has the Maps URL of `s[i]`.
fn url_occurs_before(s: &Vec<Lead>, i: usize) -> (b: bool)
    requires
        i < s.len(),
    ensures
        b == has_url(s@.take(i as int), s@[i as int].maps_url@),
{
    let mut j: usize = 0;
    while j < i
        invariant
            i < s.len(),
            j <= i,
            forall|k: int| 0 <= k < j ==> (#[trigger] s@[k]).maps_url@ != s@[i as int].maps_url@,
        decreases i - j,
    {
        if s[j].maps_url == s[i].maps_url {
            assert(s@.take(i as int)[j as int] == s@[j as int]);
            return true;
        }
        j += 1;
    }
    assert forall|k: int| 0 <= k < i implies (#[trigger] s@.take(i as int)[k]).maps_url@ != s@[i as int].maps_url@ by {
        assert(s@.take(i as int)[k] == s@[k]);
    }
    false
}

/// Adds the leads of this run to the accumulated ones and cleans the list up:
/// duplicates by Maps URL are dropped (the first one stays) and so are leads
/// whose web site is active. Returns how many leads the list gained.
pub fn merge_leads(all: &mut Vec<Lead>, new: &Vec<Lead>) -> (added: usize)
    ensures
        final(all)@ == kept_leads(old(all)@ + new@),
        added == (if final(all).len() >= old(all).len() {
            final(all).len() - old(all).len()
        } else {
            0int
        }),
{
    let pre = all.len();
    let mut combined: Vec<Lead> = Vec::new();
    std::mem::swap(all, &mut combined);
    let ghost first = combined@;
    let mut k: usize = 0;
    while k < new.len()
        invariant
            k <= new.len(),
            combined@ == first + new@.take(k as int),
        decreases new.len() - k,
    {
        combined.push(new[k].duplicate());
        assert(first + new@.take(k + 1) =~= (first + new@.take(k as int)).push(new@[k as int]));
        k += 1;
    }
    assert(new@.take(new.len() as int) =~= new@);
    let mut out: Vec<Lead> = Vec::new();
    let mut i: usize = 0;
    while i < combined.len()
        invariant
            i <= combined.len(),
            out@ == kept_leads(combined@.take(i as int)),
        decreases combined.len() - i,
    {
        assert(combined@.take(i + 1).drop_last() =~= combined@.take(i as int));
        if !url_occurs_before(&combined, i) && !combined[i].estado_web.is_activa() {
            out.push(combined[i].duplicate());
        }
        i += 1;
    }
    assert(combined@.take(combined.len() as int) =~= combined@);
    let post = out.len();
    *all = out;
    if post >= pre {
        post - pre
    } else {
        0
    }
}

// ─── Laws of accumulation ────────────────────────────────────────────────────

/// Every Maps URL among the kept leads is the URL of some input lead.
pub proof fn lemma_kept_urls_come_from_input(s: Seq<Lead>, u: Seq<char>)
    ensures
        has_url(kept_leads(s), u) ==> has_url(s, u),
    decreases s.len(),
{
    if s.len() > 0 {
        let d = s.drop_last();
        lemma_kept_urls_come_from_input(d, u);
        let k = kept_leads(s);
        if has_url(k, u) {
            let j = choose|j: int| 0 <= j < k.len() && (#[trigger] k[j]).maps_url@ == u;
            if j < kept_leads(d).len() {
                assert(k[j] == kept_leads(d)[j]);
                assert(has_url(kept_leads(d), u));
                let m = choose|m: int| 0 <= m < d.len() && (#[trigger] d[m]).maps_url@ == u;
                assert(s[m] == d[m]);
            } else {
                assert(s[s.len() - 1] == s.last());
            }
        }
    }
}

/// Every kept lead is one of the input leads, with the same position order.
pub proof fn lemma_kept_from_input(s: Seq<Lead>)
    ensures
        forall|i: int| 0 <= i < kept_leads(s).len() ==> s.contains(#[trigger] kept_leads(s)[i]),
        kept_leads(s).len() <= s.len(),
    decreases s.len(),
{
    if s.len() > 0 {
        let d = s.drop_last();
        lemma_kept_from_input(d);
        assert forall|i: int| 0 <= i < kept_leads(s).len() implies s.contains(
            #[trigger] kept_leads(s)[i],
        ) by {
            if i < kept_leads(d).len() {
                assert(kept_leads(s)[i] == kept_leads(d)[i]);
                let m = choose|m: int| 0 <= m < d.len() && d[m] == kept_leads(d)[i];
                assert(s[m] == d[m]);
            } else {
                assert(s[s.len() - 1] == kept_leads(s)[i]);
            }
        }
    }
}

/// The accumulated list never holds two leads with the same Maps URL.
pub proof fn lemma_kept_unique(s: Seq<Lead>)
    ensures
        unique_urls(kept_leads(s)),
    decreases s.len(),
{
    if s.len() > 0 {
        let d = s.drop_last();
        lemma_kept_unique(d);
        let l = s.last();
        if !has_url(d, l.maps_url@) && !(l.estado_web is Activa) {
            lemma_kept_urls_come_from_input(d, l.maps_url@);
            let k = kept_leads(s);
            let kd = kept_leads(d);
            assert forall|i: int, j: int| 0 <= i < j < k.len() implies (#[trigger] k[i]).maps_url@
                != (#[trigger] k[j]).maps_url@ by {
                if j == k.len() - 1 {
                    assert(k[i] == kd[i]);
                    if k[i].maps_url@ == l.maps_url@ {
                        assert(has_url(kd, l.maps_url@));
                    }
                } else {
                    assert(k[i] == kd[i]);
                    assert(k[j] == kd[j]);
                }
            }
        }
    }
}

/// The accumulated list never holds a lead whose web site is active.
pub proof fn lemma_kept_none_active(s: Seq<Lead>)
    ensures
        none_active(kept_leads(s)),
    decreases s.len(),
{
    if s.len() > 0 {
        lemma_kept_none_active(s.drop_last());
        let k = kept_leads(s);
        let kd = kept_leads(s.drop_last());
        assert forall|i: int| 0 <= i < k.len() implies !((#[trigger] k[i]).estado_web is Activa) by {
            if i < kd.len() {
                assert(k[i] == kd[i]);
            }
        }
    }
}

/// Cleaning up `s + t` keeps, first, exactly what cleaning up `s` keeps.
pub proof fn lemma_kept_prefix(s: Seq<Lead>, t: Seq<Lead>)
    ensures
        kept_leads(s).len() <= kept_leads(s + t).len(),
        kept_leads(s + t).take(kept_leads(s).len() as int) == kept_leads(s),
    decreases t.len(),
{
    if t.len() == 0 {
        assert(s + t =~= s);
        assert(kept_leads(s).take(kept_leads(s).len() as int) =~= kept_leads(s));
    } else {
        lemma_kept_prefix(s, t.drop_last());
        assert((s + t).drop_last() =~= s + t.drop_last());
        let a = kept_leads(s + t.drop_last());
        let b = kept_leads(s + t);
        let n = kept_leads(s).len() as int;
        if b != a {
            assert(b.take(n) =~= a.take(n));
        }
    }
}

/// A list that is already clean (no shared URL, nothing active) is kept whole.
pub proof fn lemma_clean_list_kept(s: Seq<Lead>)
    requires
        unique_urls(s),
        none_active(s),
    ensures
        kept_leads(s) == s,
    decreases s.len(),
{
    if s.len() > 0 {
        let d = s.drop_last();
        assert(unique_urls(d)) by {
            assert forall|i: int, j: int| 0 <= i < j < d.len() implies (#[trigger] d[i]).maps_url@
                != (#[trigger] d[j]).maps_url@ by {
                assert(d[i] == s[i] && d[j] == s[j]);
            }
        }
        assert(none_active(d)) by {
            assert forall|i: int| 0 <= i < d.len() implies !((#[trigger] d[i]).estado_web is Activa) by {
                assert(d[i] == s[i]);
            }
        }
        lemma_clean_list_kept(d);
        if has_url(d, s.last().maps_url@) {
            let m = choose|m: int| 0 <= m < d.len() && (#[trigger] d[m]).maps_url@ == s.last().maps_url@;
            assert(s[m] == d[m]);
            assert(s[s.len() - 1] == s.last());
        }
        assert(!(s[s.len() - 1].estado_web is Activa));
        assert(d.push(s.last()) =~= s);
    }
}

/// A lead that is the first with its URL and is not active is kept: its URL
/// appears among the kept leads.
pub proof fn lemma_first_inactive_kept(s: Seq<Lead>, i: int)
    requires
        0 <= i < s.len(),
        !has_url(s.take(i), s[i].maps_url@),
        !(s[i].estado_web is Activa),
    ensures
        has_url(kept_leads(s), s[i].maps_url@),
    decreases s.len(),
{
    let d = s.drop_last();
    if i == s.len() - 1 {
        assert(d =~= s.take(i));
        let k = kept_leads(s);
        assert(k[k.len() - 1] == s.last());
    } else {
        assert(d.take(i) =~= s.take(i));
        assert(d[i] == s[i]);
        lemma_first_inactive_kept(d, i);
        lemma_kept_prefix(d, seq![s.last()]);
        assert(d + seq![s.last()] =~= s);
        let kd = kept_leads(d);
        let m = choose|m: int| 0 <= m < kd.len() && (#[trigger] kd[m]).maps_url@ == s[i].maps_url@;
        assert(kept_leads(s).take(kd.len() as int)[m] == kd[m]);
    }
}

/// Results accumulate: merging new leads into a clean accumulated list keeps
/// every lead already there, in place, at the front.
pub proof fn law_merge_keeps_accumulated(acc: Seq<Lead>, new: Seq<Lead>)
    requires
        unique_urls(acc),
        none_active(acc),
    ensures
        kept_leads(acc + new).len() >= acc.len(),
        kept_leads(acc + new).take(acc.len() as int) == acc,
{
    lemma_clean_list_kept(acc);
    lemma_kept_prefix(acc, new);
}

/// The merged list has no duplicates by Maps URL and no lead with an active
/// web site, whatever the inputs.
pub proof fn law_merge_is_clean(acc: Seq<Lead>, new: Seq<Lead>)
    ensures
        unique_urls(kept_leads(acc + new)),
        none_active(kept_leads(acc + new)),
{
    lemma_kept_unique(acc + new);
    lemma_kept_none_active(acc + new);
}

/// Merging the same new leads twice into a clean accumulated list gives the
/// same list as merging them once.
pub proof fn law_merge_idempotent(acc: Seq<Lead>, new: Seq<Lead>)
    requires
        unique_urls(acc),
        none_active(acc),
    ensures
        kept_leads(kept_leads(acc + new) + new) == kept_leads(acc + new),
{
    let r = kept_leads(acc + new);
    law_merge_is_clean(acc, new);
    lemma_clean_list_kept(r);
    lemma_merge_adds_nothing_new(acc, new, r, new.len() as int);
    assert(new.take(new.len() as int) =~= new);
}

/// Helper of `law_merge_idempotent`: re-adding the first `k` new leads to the
/// merged list adds nothing.
proof fn lemma_merge_adds_nothing_new(acc: Seq<Lead>, new: Seq<Lead>, r: Seq<Lead>, k: int)
    requires
        unique_urls(acc),
        none_active(acc),
        r == kept_leads(acc + new),
        kept_leads(r) == r,
        0 <= k <= new.len(),
    ensures
        kept_leads(r + new.take(k)) == r,
    decreases k,
{
    if k == 0 {
        assert(r + new.take(0) =~= r);
    } else {
        lemma_merge_adds_nothing_new(acc, new, r, k - 1);
        let s = r + new.take(k);
        assert(s.drop_last() =~= r + new.take(k - 1));
        let e = new[k - 1];
        assert(s.last() == e);
        if !has_url(s.drop_last(), e.maps_url@) && !(e.estado_web is Activa) {
            // Then `e` is the first lead with its URL in `acc + new`, so it was kept in `r`.
            let c = acc + new;
            let pos = acc.len() + k - 1;
            assert(c[pos] == e);
            assert(!has_url(c.take(pos), e.maps_url@)) by {
                if has_url(c.take(pos), e.maps_url@) {
                    let m = choose|m: int| 0 <= m < c.take(pos).len() && (#[trigger] c.take(pos)[m]).maps_url@ == e.maps_url@;
                    if m < acc.len() {
                        // `acc` is clean, so its leads are all in `r`.
                        assert(c[m] == acc[m]);
                        law_merge_keeps_accumulated(acc, new);
                        assert(r.take(acc.len() as int)[m] == acc[m]);
                        assert(r[m] == acc[m]);
                        assert(s.drop_last()[m] == r[m]);
                    } else {
                        assert(c[m] == new[m - acc.len()]);
                        assert(s.drop_last()[r.len() + m - acc.len()] == new[m - acc.len()]);
                    }
                }
            }
            lemma_first_inactive_kept(c, pos);
            let q = choose|q: int| 0 <= q < r.len() && (#[trigger] r[q]).maps_url@ == e.maps_url@;
            assert(s.drop_last()[q] == r[q]);
        }
    }
}

// ─── Session decisions ───────────────────────────────────────────────────────

/// Whether `session` was made for this zone and category.
pub fn session_matches(session: &SearchSession, zona: &str, categoria: &str) -> (b: bool)
    ensures
        b == (session.zona@ == zona@ && session.categoria@ == categoria@),
{
    same_text(session.zona.as_str(), zona) && same_text(session.categoria.as_str(), categoria)
}

/// The session to work in: the saved one with its leads when it was made for
/// this zone and category (and `true`), otherwise a new session started at
/// `now` with no leads (and `false`).
pub fn resume_or_start_at(
    loaded: Option<(SearchSession, Vec<Lead>)>,
    zona: &str,
    categoria: &str,
    now: Timestamp,
) -> (r: (SearchSession, Vec<Lead>, bool))
    ensures
        match loaded {
            Some((s, l)) => if s.zona@ == zona@ && s.categoria@ == categoria@ {
                r == (s, l, true)
            } else {
                r.0.zona@ == zona@ && r.0.categoria@ == categoria@ && r.0.ultima_actualizacion == now
                    && r.1@.len() == 0 && !r.2
            },
            None => r.0.zona@ == zona@ && r.0.categoria@ == categoria@
                && r.0.ultima_actualizacion == now && r.1@.len() == 0 && !r.2,
        },
{
    match loaded {
        Some((s, l)) => {
            if session_matches(&s, zona, categoria) {
                return (s, l, true);
            }
        },
        None => {},
    }
    (
        SearchSession {
            zona: owned(zona),
            categoria: owned(categoria),
            ultima_actualizacion: now,
        },
        Vec::new(),
        false,
    )
}

/// The session to work in, a new one being stamped with the current time (see
/// `resume_or_start_at`).
pub fn resume_or_start(
    loaded: Option<(SearchSession, Vec<Lead>)>,
    zona: &str,
    categoria: &str,
) -> (r: (SearchSession, Vec<Lead>, bool))
    ensures
        match loaded {
            Some((s, l)) => if s.zona@ == zona@ && s.categoria@ == categoria@ {
                r == (s, l, true)
            } else {
                r.0.zona@ == zona@ && r.0.categoria@ == categoria@ && r.0.ultima_actualizacion.secs
                    >= 0 && r.0.ultima_actualizacion.nanos < 1_000_000_000 && r.1@.len() == 0 && !r.2
            },
            None => r.0.zona@ == zona@ && r.0.categoria@ == categoria@
                && r.0.ultima_actualizacion.secs >= 0 && r.0.ultima_actualizacion.nanos < 1_000_000_000
                && r.1@.len() == 0 && !r.2,
        },
{
    let now = now_utc();
    resume_or_start_at(loaded, zona, categoria, now)
}

/// What an answer to the category menu selects.
#[derive(Debug, Clone, PartialEq)]
pub enum CategoryChoice {
    /// One of the listed categories.
    Selected(String),
    /// The user wants to type the category; ask for it.
    AskCustom,
    /// Not an option; ask again.
    Invalid,
}

/// The category that a (trimmed) menu answer selects, for options 1 to 9.
pub open spec fn listed_category(c: Seq<char>) -> Option<Seq<char>> {
    if c == "1"@ {
        Some("Restaurantes"@)
    } else if c == "2"@ {
        Some("Cafés"@)
    } else if c == "3"@ {
        Some("Bares"@)
    } else if c == "4"@ {
        Some("Panaderías"@)
    } else if c == "5"@ {
        Some("Peluquerías"@)
    } else if c == "6"@ {
        Some("Clínicas"@)
    } else if c == "7"@ {
        Some("Talleres mecánicos"@)
    } else if c == "8"@ {
        Some("Farmacias"@)
    } else if c == "9"@ {
        Some("Hoteles"@)
    } else {
        None
    }
}

/// What the menu answer `line` selects: its trimmed text `1`..`9` selects a
/// listed category, `0` asks for a typed category, anything else is invalid.
pub fn category_for_answer(line: &str) -> (r: CategoryChoice)
    ensures
        match r {
            CategoryChoice::Selected(name) => listed_category(trimmed(line@)) == Some(name@),
            CategoryChoice::AskCustom => listed_category(trimmed(line@)) is None && trimmed(line@)
                == "0"@,
            CategoryChoice::Invalid => listed_category(trimmed(line@)) is None && trimmed(line@)
                != "0"@,
        },
{
    let t = trim(line);
    let c = t.as_str();
    if same_text(c, "1") {
        CategoryChoice::Selected(owned("Restaurantes"))
    } else if same_text(c, "2") {
        CategoryChoice::Selected(owned("Cafés"))
    } else if same_text(c, "3") {
        CategoryChoice::Selected(owned("Bares"))
    } else if same_text(c, "4") {
        CategoryChoice::Selected(owned("Panaderías"))
    } else if same_text(c, "5") {
        CategoryChoice::Selected(owned("Peluquerías"))
    } else if same_text(c, "6") {
        CategoryChoice::Selected(owned("Clínicas"))
    } else if same_text(c, "7") {
        CategoryChoice::Selected(owned("Talleres mecánicos"))
    } else if same_text(c, "8") {
        CategoryChoice::Selected(owned("Farmacias"))
    } else if same_text(c, "9") {
        CategoryChoice::Selected(owned("Hoteles"))
    } else if same_text(c, "0") {
        CategoryChoice::AskCustom
    } else {
        CategoryChoice::Invalid
    }
}

/// The trimmed answer `line`, unless it is empty (used for the zone and for a
/// typed category, neither of which may be empty).
pub fn non_empty_answer(line: &str) -> (r: Option<String>)
    ensures
        trimmed(line@).len() == 0 ==> r is None,
        trimmed(line@).len() > 0 ==> (r matches Some(s) && s@ == trimmed(line@)),
{
    let t = trim(line);
    if t.as_str().unicode_len() == 0 {
        None
    } else {
        Some(t)
    }
}

/// The minimum number of reviews that an answer asks for: an empty answer
/// means no minimum (0); otherwise the trimmed answer must be a `u32`, and
/// `None` means it is not (ask again).
pub open spec fn min_reviews_spec(line: Seq<char>) -> Option<u32> {
    let t = trimmed(line);
    if t.len() == 0 {
        Some(0)
    } else {
        parse_u32_spec(t)
    }
}

/// The minimum number of reviews that the answer `line` asks for (see `min_reviews_spec`).
pub fn parse_min_reviews(line: &str) -> (r: Option<u32>)
    ensures
        r == min_reviews_spec(line@),
{
    let t = trim(line);
    if t.as_str().unicode_len() == 0 {
        Some(0)
    } else {
        parse_u32(t.as_str())
    }
}

/// The city part of a zone for file names: the text before the first comma,
/// trimmed, in lower case, with spaces turned into underscores.
pub open spec fn city_slug(zona: Seq<char>) -> Seq<char> {
    replace_char(lowercase_of(trimmed(before_char(zona, ','))), ' ', "_"@)
}

/// The report's file name for `zona` and the time stamp `stamp`:
/// `leads_<city>_<stamp>.pdf`.
pub open spec fn report_file_name_spec(zona: Seq<char>, stamp: Seq<char>) -> Seq<char> {
    "leads_"@ + city_slug(zona) + "_"@ + stamp + ".pdf"@
}

/// The report's file name for `zona` and the time stamp `stamp` (see `report_file_name_spec`).
pub fn report_file_name_at(zona: &str, stamp: &str) -> (r: String)
    ensures
        r@ == report_file_name_spec(zona@, stamp@),
{
    let city = text_before(zona, ',');
    let city = trim(city.as_str());
    let city = to_lowercase(city.as_str());
    let city = replace_char_with(city.as_str(), ' ', "_");
    let mut r = owned("leads_");
    r.append(city.as_str());
    r.append("_");
    r.append(stamp);
    r.append(".pdf");
    r
}

/// The report's file name for `zona`, stamped with the current local time
/// (year, month, day, `_`, hour and minute).
pub fn report_file_name(zona: &str) -> (r: String)
    ensures
        exists|stamp: Seq<char>| is_file_stamp(stamp) && r@ == report_file_name_spec(zona@, stamp),
{
    let stamp = local_time_text(FILE_STAMP_PATTERN);
    report_file_name_at(zona, stamp.as_str())
}

} // verus!
