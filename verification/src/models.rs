//! The data that the bot collects: leads, the state of their web site, and
//! the search session they belong to.

use vstd::prelude::*;
use crate::clock::Timestamp;

verus! {

/// What was found out about a lead's web site.
#[derive(Debug, Clone, PartialEq)]
pub enum WebStatus {
    /// The business has no web site of its own (or only social network pages).
    SinWeb,
    /// The site answered with a success status.
    Activa,
    /// The site answered with an HTTP error status.
    ErrorServidor(u16),
    /// The connection timed out.
    Timeout,
    /// The site did not answer or is down; the text says why.
    Caida(String),
}

/// A qualified lead, ready for the report.
///
/// The rating is kept in tenths of a star (`45` is 4.5 stars) and the
/// extraction time as a moment since the Unix epoch.
#[derive(Debug, Clone, PartialEq)]
pub struct Lead {
    pub id: String,
    pub nombre: String,
    pub direccion: Option<String>,
    pub telefono: Option<String>,
    pub correo: Option<String>,
    pub categoria: String,
    pub url_web: Option<String>,
    pub maps_url: String,
    pub estado_web: WebStatus,
    pub resenas: u32,
    pub calificacion_decimas: u32,
    pub extraido_el: Timestamp,
}

/// A search session, kept between runs so that results accumulate.
#[derive(Debug, Clone, PartialEq)]
pub struct SearchSession {
    pub zona: String,
    pub categoria: String,
    pub ultima_actualizacion: Timestamp,
}

pub fn copy_text(s: &String) -> (r: String)
    ensures
        r == *s,
{
    s.clone()
}

pub fn copy_opt_text(s: &Option<String>) -> (r: Option<String>)
    ensures
        r == *s,
{
    match s {
        Some(t) => Some(t.clone()),
        None => None,
    }
}

impl WebStatus {
    /// An identical copy of this status.
    pub fn duplicate(&self) -> (r: WebStatus)
        ensures
            r == *self,
    {
        match self {
            WebStatus::SinWeb => WebStatus::SinWeb,
            WebStatus::Activa => WebStatus::Activa,
            WebStatus::ErrorServidor(code) => WebStatus::ErrorServidor(*code),
            WebStatus::Timeout => WebStatus::Timeout,
            WebStatus::Caida(msg) => WebStatus::Caida(msg.clone()),
        }
    }

    /// Whether this is `SinWeb`.
    pub fn is_sin_web(&self) -> (b: bool)
        ensures
            b == (*self is SinWeb),
    {
        match self {
            WebStatus::SinWeb => true,
            _ => false,
        }
    }

    /// Whether this is `Activa`.
    pub fn is_activa(&self) -> (b: bool)
        ensures
            b == (*self is Activa),
    {
        match self {
            WebStatus::Activa => true,
            _ => false,
        }
    }
}

impl Lead {
    /// An identical copy of this lead.
    pub fn duplicate(&self) -> (r: Lead)
        ensures
            r == *self,
    {
        Lead {
            id: copy_text(&self.id),
            nombre: copy_text(&self.nombre),
            direccion: copy_opt_text(&self.direccion),
            telefono: copy_opt_text(&self.telefono),
            correo: copy_opt_text(&self.correo),
            categoria: copy_text(&self.categoria),
            url_web: copy_opt_text(&self.url_web),
            maps_url: copy_text(&self.maps_url),
            estado_web: self.estado_web.duplicate(),
            resenas: self.resenas,
            calificacion_decimas: self.calificacion_decimas,
            extraido_el: self.extraido_el,
        }
    }

    /// This lead with its web status replaced by `status`.
    pub fn with_status(&self, status: WebStatus) -> (r: Lead)
        ensures
            r == (Lead { estado_web: status, ..*self }),
    {
        let mut r = self.duplicate();
        r.estado_web = status;
        r
    }
}


/// Some lead of `s` has the Maps URL `u`.
pub open spec fn has_url(s: Seq<Lead>, u: Seq<char>) -> bool {
    exists|j: int| 0 <= j < s.len() && (#[trigger] s[j]).maps_url@ == u
}

/// No two leads of `s` share a Maps URL.
pub open spec fn unique_urls(s: Seq<Lead>) -> bool {
    forall|i: int, j: int|
        0 <= i < j < s.len() ==> (#[trigger] s[i]).maps_url@ != (#[trigger] s[j]).maps_url@
}

/// How many leads of `s` satisfy `p`.
pub open spec fn count_leads(s: Seq<Lead>, p: spec_fn(Lead) -> bool) -> nat
    decreases s.len(),
{
    if s.len() == 0 {
        0
    } else {
        count_leads(s.drop_last(), p) + (if p(s.last()) {
            1nat
        } else {
            0nat
        })
    }
}

/// Counting over a prefix never gives more than counting over the whole.
pub proof fn lemma_count_leads_bounded(s: Seq<Lead>, p: spec_fn(Lead) -> bool)
    ensures
        count_leads(s, p) <= s.len(),
    decreases s.len(),
{
    if s.len() > 0 {
        lemma_count_leads_bounded(s.drop_last(), p);
    }
}

pub open spec fn has_phone() -> spec_fn(Lead) -> bool {
    |l: Lead| l.telefono is Some
}

pub open spec fn lacks_web_url() -> spec_fn(Lead) -> bool {
    |l: Lead| l.url_web is None
}

pub open spec fn has_web_url() -> spec_fn(Lead) -> bool {
    |l: Lead| l.url_web is Some
}

pub open spec fn status_is_sin_web() -> spec_fn(Lead) -> bool {
    |l: Lead| l.estado_web is SinWeb
}

pub open spec fn status_is_activa() -> spec_fn(Lead) -> bool {
    |l: Lead| l.estado_web is Activa
}

/// The number of leads that carry a phone number.
pub fn count_with_phone(leads: &Vec<Lead>) -> (n: usize)
    ensures
        n == count_leads(leads@, has_phone()),
{
    let mut n: usize = 0;
    let mut i: usize = 0;
    while i < leads.len()
        invariant
            i <= leads.len(),
            n == count_leads(leads@.take(i as int), has_phone()),
        decreases leads.len() - i,
    {
        assert(leads@.take(i + 1).drop_last() =~= leads@.take(i as int));
        proof {
            lemma_count_leads_bounded(leads@.take(i as int), has_phone());
        }
        if leads[i].telefono.is_some() {
            n += 1;
        }
        i += 1;
    }
    assert(leads@.take(leads.len() as int) =~= leads@);
    n
}

} // verus!

verus! {

/// Counting the leads that satisfy `p` is taking the length of the leads
/// that `q` keeps, when `p` and `q` agree on every lead.
pub proof fn lemma_count_leads_is_filter_len(s: Seq<Lead>, p: spec_fn(Lead) -> bool, q: spec_fn(Lead) -> bool)
    requires
        forall|l: Lead| #[trigger] p(l) == q(l),
    ensures
        count_leads(s, p) == s.filter(q).len(),
    decreases s.len(),
{
    reveal(Seq::filter);
    if s.len() > 0 {
        lemma_count_leads_is_filter_len(s.drop_last(), p, q);
        assert(p(s.last()) == q(s.last()));
    }
}

} // verus!
