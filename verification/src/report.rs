//! The HTML of the lead report.
//!
//! The page is printed to PDF by the application; this module writes it.

use vstd::prelude::*;
use vstd::string::*;
use crate::clock::{REPORT_DATE_PATTERN, is_report_date, local_time_text};
use crate::models::{
    Lead, WebStatus, count_leads, count_with_phone, has_phone, has_web_url, lacks_web_url,
    lemma_count_leads_is_filter_len,
};
use crate::text::{chars_of, decimal_text, digit_char, owned, push_char, push_decimal};

verus! {

// ─── Fixed text of the page ──────────────────────────────────────────────────

pub const PAGE_OPEN: &'static str = "<!DOCTYPE html>\n<html lang=\"es\">\n<head>\n<meta charset=\"UTF-8\"/>\n<style>\n  @import url('https://fonts.googleapis.com/css2?family=Inter:wght@400;600;700&display=swap');\n  * { box-sizing: border-box; margin: 0; padding: 0; }\n  body { font-family: 'Inter', sans-serif; color: #1a1a2e; background: #fff; padding: 32px; font-size: 12px; }\n\n  .header { display: flex; align-items: center; justify-content: space-between; margin-bottom: 28px; border-bottom: 3px solid #2563eb; padding-bottom: 16px; }\n  .header h1 { font-size: 22px; font-weight: 700; color: #2563eb; letter-spacing: -0.5px; }\n  .header .meta { text-align: right; color: #6b7280; font-size: 11px; line-height: 1.6; }\n\n  .stats { display: flex; gap: 16px; margin-bottom: 24px; }\n  .stat { flex: 1; background: #f0f4ff; border-radius: 10px; padding: 14px 18px; border-left: 4px solid #2563eb; }\n  .stat .val { font-size: 26px; font-weight: 700; color: #2563eb; }\n  .stat .label { font-size: 10px; color: #6b7280; text-transform: uppercase; letter-spacing: 0.5px; margin-top: 2px; }\n\n  table { width: 100%; border-collapse: collapse; margin-top: 8px; }\n  thead tr { background: #2563eb; color: white; }\n  thead th { padding: 10px 12px; text-align: left; font-weight: 600; font-size: 11px; letter-spacing: 0.3px; }\n  tbody tr:nth-child(even) { background: #f8faff; }\n  tbody tr:hover { background: #e8f0fe; }\n  td { padding: 9px 12px; border-bottom: 1px solid #e5e7eb; vertical-align: top; }\n  td.name { font-weight: 600; color: #111827; }\n  td.small { font-size: 10px; color: #6b7280; max-width: 160px; }\n  code { background: #f3f4f6; padding: 2px 6px; border-radius: 4px; font-size: 11px; color: #1d4ed8; }\n\n  .badge { display: inline-block; padding: 3px 8px; border-radius: 12px; font-size: 10px; font-weight: 600; text-align: center; }\n  .badge.none { background: #dbeafe; color: #1d4ed8; }\n  .badge.social { background: #fef3c7; color: #92400e; }\n  .badge.ok { background: #d1fae5; color: #065f46; }\n  .badge.warn { background: #fee2e2; color: #991b1b; }\n\n  .footer { margin-top: 24px; text-align: center; color: #9ca3af; font-size: 10px; border-top: 1px solid #e5e7eb; padding-top: 12px; }\n</style>\n</head>\n<body>\n\n<div class=\"header\">\n  <div>\n    <h1>⚡ Velaris Lead-Gen Report</h1>\n    <div style=\"color:#6b7280;margin-top:4px;\">Negocios sin sitio web propio — oportunidades de venta</div>\n  </div>\n  <div class=\"meta\">\n    <strong>";

pub const PAGE_AFTER_CATEGORY: &'static str = "</strong> en <strong>";

pub const PAGE_AFTER_ZONE: &'static str = "</strong><br>\n    Generado el ";

pub const PAGE_AFTER_DATE: &'static str = "<br>\n    ";

pub const PAGE_AFTER_META_TOTAL: &'static str = " leads calificados\n  </div>\n</div>\n\n<div class=\"stats\">\n  <div class=\"stat\"><div class=\"val\">";

pub const PAGE_AFTER_TOTAL: &'static str = "</div><div class=\"label\">Leads Totales</div></div>\n  <div class=\"stat\"><div class=\"val\">";

pub const PAGE_AFTER_WITH_PHONE: &'static str = "</div><div class=\"label\">Con Teléfono</div></div>\n  <div class=\"stat\"><div class=\"val\">";

pub const PAGE_AFTER_WITHOUT_WEB: &'static str = "</div><div class=\"label\">Sin Sitio Web</div></div>\n  <div class=\"stat\"><div class=\"val\">";

pub const PAGE_AFTER_SOCIAL_ONLY: &'static str = "</div><div class=\"label\">Solo Redes Sociales</div></div>\n</div>\n\n<table>\n  <thead>\n    <tr>\n      <th>Negocio</th>\n      <th>Teléfono</th>\n      <th>Web / Redes</th>\n      <th>Dirección</th>\n      <th>Cal.</th>\n      <th>Reseñas</th>\n      <th>Estado</th>\n    </tr>\n  </thead>\n  <tbody>\n    ";

pub const PAGE_CLOSE: &'static str = "\n  </tbody>\n</table>\n\n<div class=\"footer\">Velaris Agency — Reporte generado automáticamente. Uso interno.</div>\n</body>\n</html>";

// ─── Fixed text of a table row ───────────────────────────────────────────────

pub const ROW_OPEN: &'static str = "<tr>\n                <td class=\"name\">";

pub const ROW_AFTER_NAME: &'static str = "</td>\n                <td><code>";

pub const ROW_AFTER_PHONE: &'static str = "</code></td>\n                <td>";

pub const ROW_AFTER_WEB: &'static str = "</td>\n                <td class=\"small\">";

pub const ROW_AFTER_ADDRESS: &'static str = "</td>\n                <td>";

pub const ROW_AFTER_RATING: &'static str = " ★</td>\n                <td>";

pub const ROW_AFTER_REVIEWS: &'static str = "</td>\n                <td>";

pub const ROW_CLOSE: &'static str = "</td>\n            </tr>";

pub const NO_VALUE: &'static str = "—";

pub const BADGE_SOCIAL_OPEN: &'static str = "<span class=\"badge social\">Red Social<br><small>";

pub const BADGE_SOCIAL_CLOSE: &'static str = "</small></span>";

pub const BADGE_NO_WEB: &'static str = "<span class=\"badge none\">Sin web</span>";

pub const BADGE_ACTIVE: &'static str = "<span class=\"badge ok\">Activa</span>";

pub const BADGE_TIMEOUT: &'static str = "<span class=\"badge warn\">Timeout</span>";

pub const BADGE_SERVER_ERROR: &'static str = "<span class=\"badge warn\">Error servidor</span>";

pub const BADGE_DOWN: &'static str = "<span class=\"badge warn\">Caída</span>";

/// How many characters of a URL the web badge shows.
pub const URL_PREVIEW_CHARS: usize = 35;

// ─── Specification of the page ───────────────────────────────────────────────

/// The text of an optional value, or a dash when there is none.
pub open spec fn or_dash(v: Option<String>) -> Seq<char> {
    match v {
        Some(s) => s@,
        None => NO_VALUE@,
    }
}

/// The first `URL_PREVIEW_CHARS` characters of `s` (all of it when shorter).
pub open spec fn url_preview(s: Seq<char>) -> Seq<char> {
    if s.len() <= URL_PREVIEW_CHARS {
        s
    } else {
        s.take(URL_PREVIEW_CHARS as int)
    }
}

/// The badge of a lead's web link: the start of the URL, or "Sin web".
pub open spec fn web_badge(url_web: Option<String>) -> Seq<char> {
    match url_web {
        Some(url) => BADGE_SOCIAL_OPEN@ + url_preview(url@) + BADGE_SOCIAL_CLOSE@,
        None => BADGE_NO_WEB@,
    }
}

/// The badge of a lead's web status.
pub open spec fn status_badge(s: WebStatus) -> Seq<char> {
    match s {
        WebStatus::SinWeb => BADGE_NO_WEB@,
        WebStatus::Activa => BADGE_ACTIVE@,
        WebStatus::Timeout => BADGE_TIMEOUT@,
        WebStatus::ErrorServidor(_) => BADGE_SERVER_ERROR@,
        WebStatus::Caida(_) => BADGE_DOWN@,
    }
}

/// A rating given in tenths, written as the shortest decimal: `45` is "4.5"
/// and `40` is "4".
pub open spec fn rating_text(tenths: nat) -> Seq<char> {
    if tenths % 10 == 0 {
        decimal_text(tenths / 10)
    } else {
        decimal_text(tenths / 10).push('.').push(digit_char(tenths % 10))
    }
}

/// The table row of one lead.
pub open spec fn lead_row(l: Lead) -> Seq<char> {
    ROW_OPEN@ + l.nombre@ + ROW_AFTER_NAME@ + or_dash(l.telefono) + ROW_AFTER_PHONE@ + web_badge(l.url_web)
        + ROW_AFTER_WEB@ + or_dash(l.direccion) + ROW_AFTER_ADDRESS@ + rating_text(
        l.calificacion_decimas as nat,
    ) + ROW_AFTER_RATING@ + decimal_text(l.resenas as nat) + ROW_AFTER_REVIEWS@ + status_badge(
        l.estado_web,
    ) + ROW_CLOSE@
}

/// The rows of all leads, one per line.
pub open spec fn lead_rows(leads: Seq<Lead>) -> Seq<char>
    decreases leads.len(),
{
    if leads.len() == 0 {
        Seq::empty()
    } else if leads.len() == 1 {
        lead_row(leads[0])
    } else {
        lead_rows(leads.drop_last()) + "\n"@ + lead_row(leads.last())
    }
}

/// The category shown in the header: that of the first lead, or a dash. The
/// header shows it in the zone's place as well.
pub open spec fn header_category(leads: Seq<Lead>) -> Seq<char> {
    if leads.len() > 0 {
        leads[0].categoria@
    } else {
        NO_VALUE@
    }
}

/// The whole report page for `leads`, generated at `date`.
pub open spec fn report_page(leads: Seq<Lead>, date: Seq<char>) -> Seq<char> {
    let total = decimal_text(leads.len());
    PAGE_OPEN@ + header_category(leads) + PAGE_AFTER_CATEGORY@ + header_category(leads)
        + PAGE_AFTER_ZONE@ + date + PAGE_AFTER_DATE@ + total + PAGE_AFTER_META_TOTAL@ + total
        + PAGE_AFTER_TOTAL@ + decimal_text(count_leads(leads, has_phone())) + PAGE_AFTER_WITH_PHONE@
        + decimal_text(count_leads(leads, lacks_web_url())) + PAGE_AFTER_WITHOUT_WEB@
        + decimal_text(count_leads(leads, has_web_url())) + PAGE_AFTER_SOCIAL_ONLY@ + lead_rows(leads)
        + PAGE_CLOSE@
}

// ─── Writing the page ────────────────────────────────────────────────────────

fn append_or_dash(out: &mut String, v: &Option<String>)
    ensures
        final(out)@ == old(out)@ + or_dash(*v),
{
    match v {
        Some(s) => out.append(s.as_str()),
        None => out.append(NO_VALUE),
    }
}

fn append_web_badge(out: &mut String, url_web: &Option<String>)
    ensures
        final(out)@ == old(out)@ + web_badge(*url_web),
{
    match url_web {
        Some(url) => {
            out.append(BADGE_SOCIAL_OPEN);
            let v = chars_of(url.as_str());
            let n = if v.len() <= URL_PREVIEW_CHARS { v.len() } else { URL_PREVIEW_CHARS };
            let mut i: usize = 0;
            let ghost start = out@;
            while i < n
                invariant
                    i <= n <= v.len(),
                    n == (if v.len() <= URL_PREVIEW_CHARS { v.len() } else { URL_PREVIEW_CHARS }),
                    out@ == start + v@.take(i as int),
                decreases n - i,
            {
                push_char(out, v[i]);
                assert(v@.take(i + 1) =~= v@.take(i as int).push(v@[i as int]));
                i += 1;
            }
            assert(v@.take(n as int) =~= url_preview(url@));
            out.append(BADGE_SOCIAL_CLOSE);
        },
        None => out.append(BADGE_NO_WEB),
    }
}

fn append_status_badge(out: &mut String, s: &WebStatus)
    ensures
        final(out)@ == old(out)@ + status_badge(*s),
{
    match s {
        WebStatus::SinWeb => out.append(BADGE_NO_WEB),
        WebStatus::Activa => out.append(BADGE_ACTIVE),
        WebStatus::Timeout => out.append(BADGE_TIMEOUT),
        WebStatus::ErrorServidor(_) => out.append(BADGE_SERVER_ERROR),
        WebStatus::Caida(_) => out.append(BADGE_DOWN),
    }
}

fn digit_of(d: u32) -> (c: char)
    requires
        d < 10,
    ensures
        c == digit_char(d as nat),
{
    if d == 0 {
        '0'
    } else if d == 1 {
        '1'
    } else if d == 2 {
        '2'
    } else if d == 3 {
        '3'
    } else if d == 4 {
        '4'
    } else if d == 5 {
        '5'
    } else if d == 6 {
        '6'
    } else if d == 7 {
        '7'
    } else if d == 8 {
        '8'
    } else {
        '9'
    }
}

/// Appends a rating given in tenths (see `rating_text`).
pub fn append_rating(out: &mut String, tenths: u32)
    ensures
        final(out)@ == old(out)@ + rating_text(tenths as nat),
{
    push_decimal(out, (tenths / 10) as u64);
    if tenths % 10 != 0 {
        push_char(out, '.');
        push_char(out, digit_of(tenths % 10));
    }
}

fn append_row(out: &mut String, l: &Lead)
    ensures
        final(out)@ == old(out)@ + lead_row(*l),
{
    let ghost start = out@;
    out.append(ROW_OPEN);
    out.append(l.nombre.as_str());
    out.append(ROW_AFTER_NAME);
    append_or_dash(out, &l.telefono);
    out.append(ROW_AFTER_PHONE);
    append_web_badge(out, &l.url_web);
    out.append(ROW_AFTER_WEB);
    append_or_dash(out, &l.direccion);
    out.append(ROW_AFTER_ADDRESS);
    append_rating(out, l.calificacion_decimas);
    out.append(ROW_AFTER_RATING);
    push_decimal(out, l.resenas as u64);
    out.append(ROW_AFTER_REVIEWS);
    append_status_badge(out, &l.estado_web);
    out.append(ROW_CLOSE);
    assert(out@ =~= start + lead_row(*l));
}

/// Counts the leads with no web link and with one.
fn count_web_links(leads: &Vec<Lead>) -> (r: (usize, usize))
    ensures
        r.0 == count_leads(leads@, lacks_web_url()),
        r.1 == count_leads(leads@, has_web_url()),
{
    let mut without: usize = 0;
    let mut with: usize = 0;
    let mut i: usize = 0;
    while i < leads.len()
        invariant
            i <= leads.len(),
            without == count_leads(leads@.take(i as int), lacks_web_url()),
            with == count_leads(leads@.take(i as int), has_web_url()),
            without + with == i,
        decreases leads.len() - i,
    {
        assert(leads@.take(i + 1).drop_last() =~= leads@.take(i as int));
        if leads[i].url_web.is_some() {
            with += 1;
        } else {
            without += 1;
        }
        i += 1;
    }
    assert(leads@.take(leads.len() as int) =~= leads@);
    (without, with)
}

/// The report page for `leads`, generated at `date` (see `report_page`).
pub fn build_report_html(leads: &Vec<Lead>, date: &str) -> (html: String)
    ensures
        html@ == report_page(leads@, date@),
{
    let ghost ls = leads@;
    let mut out = owned(PAGE_OPEN);
    if leads.len() > 0 {
        out.append(leads[0].categoria.as_str());
        out.append(PAGE_AFTER_CATEGORY);
        out.append(leads[0].categoria.as_str());
    } else {
        out.append(NO_VALUE);
        out.append(PAGE_AFTER_CATEGORY);
        out.append(NO_VALUE);
    }
    out.append(PAGE_AFTER_ZONE);
    out.append(date);
    out.append(PAGE_AFTER_DATE);
    push_decimal(&mut out, leads.len() as u64);
    out.append(PAGE_AFTER_META_TOTAL);
    push_decimal(&mut out, leads.len() as u64);
    out.append(PAGE_AFTER_TOTAL);
    push_decimal(&mut out, count_with_phone(leads) as u64);
    out.append(PAGE_AFTER_WITH_PHONE);
    let (without, with) = count_web_links(leads);
    push_decimal(&mut out, without as u64);
    out.append(PAGE_AFTER_WITHOUT_WEB);
    push_decimal(&mut out, with as u64);
    out.append(PAGE_AFTER_SOCIAL_ONLY);
    let ghost before_rows = out@;
    let mut i: usize = 0;
    while i < leads.len()
        invariant
            i <= leads.len(),
            out@ == before_rows + lead_rows(leads@.take(i as int)),
        decreases leads.len() - i,
    {
        let ghost prev = out@;
        if i > 0 {
            out.append("\n");
        }
        append_row(&mut out, &leads[i]);
        proof {
            let t = leads@.take(i + 1);
            assert(t.drop_last() =~= leads@.take(i as int));
            assert(t.last() == leads@[i as int]);
            if i == 0 {
                assert(t.len() == 1);
                assert(lead_rows(leads@.take(0)) =~= Seq::<char>::empty());
                assert(out@ =~= before_rows + lead_rows(t));
            } else {
                assert(out@ =~= before_rows + lead_rows(t));
            }
        }
        i += 1;
    }
    assert(leads@.take(leads.len() as int) =~= leads@);
    out.append(PAGE_CLOSE);
    assert(out@ =~= report_page(leads@, date@));
    out
}

/// In the report's statistics, the leads without a web link and those with
/// only a social link add up to the total.
pub proof fn law_web_link_counts_add_up(leads: Seq<Lead>)
    ensures
        count_leads(leads, lacks_web_url()) + count_leads(leads, has_web_url()) == leads.len(),
    decreases leads.len(),
{
    if leads.len() > 0 {
        law_web_link_counts_add_up(leads.drop_last());
    }
}

/// The statistics of the report count the leads: after the total come the
/// number of leads that have a phone ("Con Teléfono"), the number that have
/// no web link ("Sin Sitio Web") and the number that have one ("Solo Redes
/// Sociales"), each written in decimal and followed by its label.
pub proof fn law_report_statistics_count_leads(
    leads: Seq<Lead>,
    date: Seq<char>,
    with_phone: nat,
    without_web: nat,
    with_web: nat,
)
    requires
        with_phone == leads.filter(|l: Lead| l.telefono is Some).len(),
        without_web == leads.filter(|l: Lead| l.url_web is None).len(),
        with_web == leads.filter(|l: Lead| l.url_web is Some).len(),
    ensures
        exists|head: Seq<char>, tail: Seq<char>|
            report_page(leads, date) == #[trigger] (head + PAGE_AFTER_TOTAL@ + decimal_text(with_phone)
                + PAGE_AFTER_WITH_PHONE@ + decimal_text(without_web) + PAGE_AFTER_WITHOUT_WEB@
                + decimal_text(with_web) + PAGE_AFTER_SOCIAL_ONLY@ + tail),
{
    let phone = |l: Lead| l.telefono is Some;
    let none = |l: Lead| l.url_web is None;
    let some = |l: Lead| l.url_web is Some;
    lemma_count_leads_is_filter_len(leads, has_phone(), phone);
    lemma_count_leads_is_filter_len(leads, lacks_web_url(), none);
    lemma_count_leads_is_filter_len(leads, has_web_url(), some);
    let total = decimal_text(leads.len());
    let head = PAGE_OPEN@ + header_category(leads) + PAGE_AFTER_CATEGORY@ + header_category(leads)
        + PAGE_AFTER_ZONE@ + date + PAGE_AFTER_DATE@ + total + PAGE_AFTER_META_TOTAL@ + total;
    let tail = lead_rows(leads) + PAGE_CLOSE@;
    let mid = PAGE_AFTER_TOTAL@ + decimal_text(leads.filter(phone).len()) + PAGE_AFTER_WITH_PHONE@
        + decimal_text(leads.filter(none).len()) + PAGE_AFTER_WITHOUT_WEB@ + decimal_text(
        leads.filter(some).len(),
    ) + PAGE_AFTER_SOCIAL_ONLY@;
    assert(report_page(leads, date) =~= head + mid + tail);
    assert(head + mid + tail =~= head + PAGE_AFTER_TOTAL@ + decimal_text(leads.filter(phone).len())
        + PAGE_AFTER_WITH_PHONE@ + decimal_text(leads.filter(none).len()) + PAGE_AFTER_WITHOUT_WEB@
        + decimal_text(leads.filter(some).len()) + PAGE_AFTER_SOCIAL_ONLY@ + tail);
}

/// The report page for `leads`, dated with the current local time (day,
/// month, year, hour and minute).
pub fn report_html(leads: &Vec<Lead>) -> (html: String)
    ensures
        exists|date: Seq<char>| is_report_date(date) && html@ == report_page(leads@, date),
{
    let date = local_time_text(REPORT_DATE_PATTERN);
    build_report_html(leads, date.as_str())
}

} // verus!
