//! Character-level text operations that the rest of the library is built on.
//!
//! Strings are viewed as `Seq<char>`. Every function here works on the
//! characters of its input and builds its result character by character, so
//! that its contract can state exactly which characters come out.

use vstd::prelude::*;
use vstd::string::*;

verus! {

// ─── Specifications ──────────────────────────────────────────────────────────

/// The Unicode `White_Space` property of a character (what
/// `char::is_whitespace` decides): the controls U+0009 to U+000D, the space,
/// U+0085, the no-break space U+00A0, U+1680, the spaces U+2000 to U+200A,
/// the line and paragraph separators U+2028 and U+2029, U+202F, U+205F and
/// the ideographic space U+3000.
pub open spec fn is_white_space(c: char) -> bool {
    ||| ('\u{9}' <= c && c <= '\u{d}')
    ||| c == ' '
    ||| c == '\u{85}'
    ||| c == '\u{a0}'
    ||| c == '\u{1680}'
    ||| ('\u{2000}' <= c && c <= '\u{200a}')
    ||| c == '\u{2028}'
    ||| c == '\u{2029}'
    ||| c == '\u{202f}'
    ||| c == '\u{205f}'
    ||| c == '\u{3000}'
}

/// The Unicode lower-case mapping of a whole string, as `str::to_lowercase`
/// computes it.
pub uninterp spec fn lowercase_of(s: Seq<char>) -> Seq<char>;

/// The longest prefix of `s` whose characters all satisfy `p`.
pub open spec fn take_while(s: Seq<char>, p: spec_fn(char) -> bool) -> Seq<char>
    decreases s.len(),
{
    if s.len() > 0 && p(s[0]) {
        seq![s[0]] + take_while(s.drop_first(), p)
    } else {
        Seq::empty()
    }
}

/// `s` without its longest prefix whose characters all satisfy `p`.
pub open spec fn skip_while(s: Seq<char>, p: spec_fn(char) -> bool) -> Seq<char>
    decreases s.len(),
{
    if s.len() > 0 && p(s[0]) {
        skip_while(s.drop_first(), p)
    } else {
        s
    }
}

/// `s` without its longest suffix whose characters all satisfy `p`.
pub open spec fn drop_last_while(s: Seq<char>, p: spec_fn(char) -> bool) -> Seq<char>
    decreases s.len(),
{
    if s.len() > 0 && p(s.last()) {
        drop_last_while(s.drop_last(), p)
    } else {
        s
    }
}

pub open spec fn white_space_pred() -> spec_fn(char) -> bool {
    |c: char| is_white_space(c)
}

pub open spec fn non_white_space_pred() -> spec_fn(char) -> bool {
    |c: char| !is_white_space(c)
}

pub open spec fn not_char_pred(sep: char) -> spec_fn(char) -> bool {
    |c: char| c != sep
}

/// `s` with leading and trailing white space removed (`str::trim`).
pub open spec fn trimmed(s: Seq<char>) -> Seq<char> {
    drop_last_while(skip_while(s, white_space_pred()), white_space_pred())
}

/// The first white-space separated word of `s`, if there is one
/// (`str::split_whitespace().next()`).
pub open spec fn first_word(s: Seq<char>) -> Option<Seq<char>> {
    let rest = skip_while(s, white_space_pred());
    if rest.len() == 0 {
        None
    } else {
        Some(take_while(rest, non_white_space_pred()))
    }
}

/// The part of `s` before the first `sep` (all of `s` when there is none);
/// this is `s.split(sep).next()`.
pub open spec fn before_char(s: Seq<char>, sep: char) -> Seq<char> {
    take_while(s, not_char_pred(sep))
}

/// Every `from` in `s` replaced by the text `to` (`str::replace` with a
/// character pattern).
pub open spec fn replace_char(s: Seq<char>, from: char, to: Seq<char>) -> Seq<char>
    decreases s.len(),
{
    if s.len() == 0 {
        Seq::empty()
    } else {
        replace_char(s.drop_last(), from, to) + (if s.last() == from {
            to
        } else {
            seq![s.last()]
        })
    }
}

pub open spec fn is_ascii_digit(c: char) -> bool {
    '0' <= c && c <= '9'
}

pub open spec fn digit_value(c: char) -> nat {
    (c as int - '0' as int) as nat
}

/// The ASCII digits of `s`, in order.
pub open spec fn ascii_digits(s: Seq<char>) -> Seq<char>
    decreases s.len(),
{
    if s.len() == 0 {
        Seq::empty()
    } else {
        ascii_digits(s.drop_last()) + (if is_ascii_digit(s.last()) {
            seq![s.last()]
        } else {
            Seq::empty()
        })
    }
}

pub open spec fn all_ascii_digits(s: Seq<char>) -> bool {
    forall|i: int| 0 <= i < s.len() ==> is_ascii_digit(#[trigger] s[i])
}

/// The number that a string of decimal digits denotes.
pub open spec fn decimal_value(s: Seq<char>) -> nat
    decreases s.len(),
{
    if s.len() == 0 {
        0
    } else {
        decimal_value(s.drop_last()) * 10 + digit_value(s.last())
    }
}

/// What `u32::from_str` gives back: an optional `+`, then at least one ASCII
/// digit and nothing else, denoting a number that fits in a `u32`.
pub open spec fn parse_u32_spec(s: Seq<char>) -> Option<u32> {
    let body = if s.len() > 0 && s[0] == '+' {
        s.drop_first()
    } else {
        s
    };
    if body.len() > 0 && all_ascii_digits(body) && decimal_value(body) <= u32::MAX {
        Some(decimal_value(body) as u32)
    } else {
        None
    }
}

pub open spec fn digit_char(d: nat) -> char {
    if d == 0 {
        '0'
    } else if d == 1 {
        '1'
    } else if d == 2 {
        '2'
    } else if d == 3 {
        '3'
    } else if d == 4 {
        '4'
    } else if d == 5 {
        '5'
    } else if d == 6 {
        '6'
    } else if d == 7 {
        '7'
    } else if d == 8 {
        '8'
    } else {
        '9'
    }
}

/// The decimal notation of `n`, as `Display` writes an unsigned integer.
pub open spec fn decimal_text(n: nat) -> Seq<char>
    decreases n,
{
    if n < 10 {
        seq![digit_char(n)]
    } else {
        decimal_text(n / 10).push(digit_char(n % 10))
    }
}

/// `needle` stands in `hay` starting at position `i`.
pub open spec fn occurs_at(hay: Seq<char>, needle: Seq<char>, i: int) -> bool {
    0 <= i && i + needle.len() <= hay.len() && hay.subrange(i, i + needle.len()) == needle
}

/// `needle` stands somewhere in `hay` (`str::contains` with a string pattern).
pub open spec fn contains_text(hay: Seq<char>, needle: Seq<char>) -> bool {
    exists|i: int| occurs_at(hay, needle, i)
}


/// A character that ends the authority part of a URL (user, host and port):
/// a path, query or fragment starts there. A backslash counts as a path
/// separator, as web browsers read it.
pub open spec fn is_authority_end(c: char) -> bool {
    c == '/' || c == '?' || c == '#' || c == '\\'
}

pub open spec fn authority_char_pred() -> spec_fn(char) -> bool {
    |c: char| !is_authority_end(c)
}

pub open spec fn not_colon_pred() -> spec_fn(char) -> bool {
    |c: char| c != ':'
}

/// What follows the last `@` of `a` (all of `a` when it has none).
pub open spec fn after_last_at(a: Seq<char>) -> Seq<char>
    decreases a.len(),
{
    if a.len() == 0 {
        a
    } else if a.last() == '@' {
        Seq::empty()
    } else {
        after_last_at(a.drop_last()).push(a.last())
    }
}

/// `"://"` stands in `s` at position `j`.
pub open spec fn scheme_sep_at(s: Seq<char>, j: int) -> bool {
    0 <= j && j + 3 <= s.len() && s[j] == ':' && s[j + 1] == '/' && s[j + 2] == '/'
}

/// What follows the first `"://"` of `s`, if it has one.
pub open spec fn after_scheme_sep(s: Seq<char>) -> Option<Seq<char>>
    decreases s.len(),
{
    if s.len() < 3 {
        None
    } else if s[0] == ':' && s[1] == '/' && s[2] == '/' {
        Some(s.skip(3))
    } else {
        after_scheme_sep(s.drop_first())
    }
}

/// The authority part of a URL: what follows the first `"://"` (or the whole
/// text when there is none), up to the first `/`, `?`, `#` or backslash.
pub open spec fn authority_of(url: Seq<char>) -> Seq<char> {
    let rest = match after_scheme_sep(url) {
        Some(r) => r,
        None => url,
    };
    take_while(rest, authority_char_pred())
}

/// The host part of a URL: its authority without the user part (everything
/// up to the last `@`) and without the port (from the first `:` on).
pub open spec fn host_of(url: Seq<char>) -> Seq<char> {
    take_while(after_last_at(authority_of(url)), not_colon_pred())
}

/// `host` is `domain` or one of its sub-domains (it ends with `.` and `domain`).
pub open spec fn host_in_domain(host: Seq<char>, domain: Seq<char>) -> bool {
    ||| host == domain
    ||| host.len() > domain.len() && host[host.len() - domain.len() - 1] == '.'
        && host.skip(host.len() - domain.len()) == domain
}

// ─── Lemmas ──────────────────────────────────────────────────────────────────

/// Skipping a prefix that satisfies `p` does not change what `skip_while` leaves.
pub proof fn lemma_skip_while_prefix(s: Seq<char>, p: spec_fn(char) -> bool, i: int)
    requires
        0 <= i <= s.len(),
        forall|j: int| 0 <= j < i ==> p(#[trigger] s[j]),
    ensures
        skip_while(s, p) == skip_while(s.skip(i), p),
    decreases i,
{
    if i > 0 {
        assert(p(s[0]));
        lemma_skip_while_prefix(s.drop_first(), p, i - 1);
        assert(s.drop_first().skip(i - 1) =~= s.skip(i));
    } else {
        assert(s.skip(0) =~= s);
    }
}

/// Dropping a suffix that satisfies `p` does not change what `drop_last_while` leaves.
pub proof fn lemma_drop_last_while_suffix(s: Seq<char>, p: spec_fn(char) -> bool, k: int)
    requires
        0 <= k <= s.len(),
        forall|j: int| k <= j < s.len() ==> p(#[trigger] s[j]),
    ensures
        drop_last_while(s, p) == drop_last_while(s.take(k), p),
    decreases s.len() - k,
{
    if k < s.len() {
        assert(p(s.last()));
        lemma_drop_last_while_suffix(s.drop_last(), p, k);
        assert(s.drop_last().take(k) =~= s.take(k));
    } else {
        assert(s.take(k) =~= s);
    }
}

/// `take_while` stops at the first character that fails `p`.
pub proof fn lemma_take_while_stop(s: Seq<char>, p: spec_fn(char) -> bool, k: int)
    requires
        0 <= k <= s.len(),
        forall|j: int| 0 <= j < k ==> p(#[trigger] s[j]),
        k < s.len() ==> !p(s[k]),
    ensures
        take_while(s, p) == s.take(k),
    decreases k,
{
    if k > 0 {
        assert(p(s[0]));
        assert forall|j: int| 0 <= j < k - 1 implies p(#[trigger] s.drop_first()[j]) by {
            assert(s.drop_first()[j] == s[j + 1]);
        }
        lemma_take_while_stop(s.drop_first(), p, k - 1);
        assert(seq![s[0]] + s.drop_first().take(k - 1) =~= s.take(k));
    } else {
        assert(s.take(0) =~= Seq::<char>::empty());
    }
}


/// Skipping a prefix in which `"://"` does not start leaves the same first
/// `"://"`.
pub proof fn lemma_after_scheme_sep_skip(s: Seq<char>, i: int)
    requires
        0 <= i <= s.len(),
        forall|j: int| 0 <= j < i ==> !scheme_sep_at(s, j),
    ensures
        after_scheme_sep(s) == after_scheme_sep(s.skip(i)),
    decreases i,
{
    if i == 0 {
        assert(s.skip(0) =~= s);
    } else if s.len() < 3 {
        assert(s.skip(i).len() < 3);
    } else {
        assert(!scheme_sep_at(s, 0));
        let d = s.drop_first();
        assert forall|j: int| 0 <= j < i - 1 implies !scheme_sep_at(d, j) by {
            assert(!scheme_sep_at(s, j + 1));
            if j + 3 <= d.len() {
                assert(d[j] == s[j + 1] && d[j + 1] == s[j + 2] && d[j + 2] == s[j + 3]);
            }
        }
        lemma_after_scheme_sep_skip(d, i - 1);
        assert(d.skip(i - 1) =~= s.skip(i));
    }
}

/// With no `@` from position `k` on, and an `@` just before `k` (or `k`
/// at the start), what follows the last `@` is the text from `k` on.
pub proof fn lemma_after_last_at(a: Seq<char>, k: int)
    requires
        0 <= k <= a.len(),
        forall|j: int| k <= j < a.len() ==> #[trigger] a[j] != '@',
        k > 0 ==> a[k - 1] == '@',
    ensures
        after_last_at(a) == a.skip(k),
    decreases a.len(),
{
    if a.len() == 0 {
        assert(a.skip(k) =~= a);
    } else if k == a.len() {
        assert(a.last() == '@');
        assert(a.skip(k) =~= Seq::<char>::empty());
    } else {
        let d = a.drop_last();
        assert forall|j: int| k <= j < d.len() implies #[trigger] d[j] != '@' by {
            assert(d[j] == a[j]);
        }
        if k > 0 {
            assert(d[k - 1] == a[k - 1]);
        }
        lemma_after_last_at(d, k);
        assert(d.skip(k).push(a.last()) =~= a.skip(k));
    }
}

/// Replacing a character by a one-character text keeps every position: the
/// result has the same length, with `to` where `from` stood.
pub proof fn lemma_replace_char_one_for_one(s: Seq<char>, from: char, to: char)
    ensures
        replace_char(s, from, seq![to]).len() == s.len(),
        forall|i: int|
            0 <= i < s.len() ==> #[trigger] replace_char(s, from, seq![to])[i] == (if s[i] == from {
                to
            } else {
                s[i]
            }),
    decreases s.len(),
{
    if s.len() > 0 {
        let d = s.drop_last();
        lemma_replace_char_one_for_one(d, from, to);
        let r = replace_char(s, from, seq![to]);
        assert forall|i: int| 0 <= i < s.len() implies #[trigger] r[i] == (if s[i] == from {
            to
        } else {
            s[i]
        }) by {
            if i < s.len() - 1 {
                assert(r[i] == replace_char(d, from, seq![to])[i]);
                assert(d[i] == s[i]);
            }
        }
    }
}

proof fn lemma_decimal_value_grows(s: Seq<char>)
    requires
        s.len() > 0,
    ensures
        decimal_value(s) >= decimal_value(s.drop_last()),
{
}

/// The value of a digit string is at least that of any of its prefixes.
pub proof fn lemma_decimal_value_prefix(s: Seq<char>, i: int)
    requires
        0 <= i <= s.len(),
    ensures
        decimal_value(s.take(i)) <= decimal_value(s),
    decreases s.len() - i,
{
    if i < s.len() {
        lemma_decimal_value_prefix(s.drop_last(), i);
        assert(s.drop_last().take(i) =~= s.take(i));
        lemma_decimal_value_grows(s);
    } else {
        assert(s.take(i) =~= s);
    }
}

proof fn lemma_digit_char(d: nat)
    requires
        d < 10,
    ensures
        is_ascii_digit(digit_char(d)),
        digit_value(digit_char(d)) == d,
        digit_char(d) != '+',
{
}

/// The decimal notation of `n` is a non-empty string of digits that denotes `n`.
pub proof fn lemma_decimal_text(n: nat)
    ensures
        decimal_text(n).len() > 0,
        all_ascii_digits(decimal_text(n)),
        decimal_value(decimal_text(n)) == n,
    decreases n,
{
    if n < 10 {
        lemma_digit_char(n);
        let t = decimal_text(n);
        assert(t.drop_last() =~= Seq::<char>::empty());
        assert(decimal_value(t) == decimal_value(t.drop_last()) * 10 + digit_value(t.last()));
    } else {
        lemma_decimal_text(n / 10);
        lemma_digit_char(n % 10);
        let t = decimal_text(n);
        assert(t.drop_last() =~= decimal_text(n / 10));
        assert(t.last() == digit_char(n % 10));
        assert(decimal_value(t) == decimal_value(t.drop_last()) * 10 + digit_value(t.last()));
        assert((n / 10) * 10 + n % 10 == n) by (nonlinear_arith);
        assert forall|i: int| 0 <= i < t.len() implies is_ascii_digit(#[trigger] t[i]) by {
            if i < t.len() - 1 {
                assert(t[i] == decimal_text(n / 10)[i]);
            }
        }
    }
}

/// Reading back a number written in decimal gives the number: parsing the
/// text of `n.to_string()` as a `u32` yields `n`.
pub proof fn law_parse_reads_back_decimal(n: u32)
    ensures
        parse_u32_spec(decimal_text(n as nat)) == Some(n),
{
    lemma_decimal_text(n as nat);
    let t = decimal_text(n as nat);
    assert(t[0] != '+') by {
        assert(is_ascii_digit(t[0]));
    }
}

// ─── Wrappers around std ─────────────────────────────────────────────────────

/// `str::to_lowercase`: the Unicode lower-case mapping of `s`. The contract
/// only names the result (`lowercase_of`); the mapping itself is std's.
#[verifier::external_body]
pub fn to_lowercase(s: &str) -> (r: String)
    ensures
        r@ == lowercase_of(s@),
{
    s.to_lowercase()
}

/// `String::push`: appends one character.
#[verifier::external_body]
pub fn push_char(s: &mut String, c: char)
    ensures
        final(s)@ == old(s)@.push(c),
{
    s.push(c)
}

// ─── Executable operations ───────────────────────────────────────────────────

/// Whether `c` has the Unicode `White_Space` property (see `is_white_space`).
pub fn char_is_whitespace(c: char) -> (b: bool)
    ensures
        b == is_white_space(c),
{
    ('\u{9}' <= c && c <= '\u{d}') || c == ' ' || c == '\u{85}' || c == '\u{a0}'
        || c == '\u{1680}' || ('\u{2000}' <= c && c <= '\u{200a}') || c == '\u{2028}'
        || c == '\u{2029}' || c == '\u{202f}' || c == '\u{205f}' || c == '\u{3000}'
}

/// The characters of `s`, in order.
pub fn chars_of(s: &str) -> (v: Vec<char>)
    ensures
        v@ == s@,
{
    let mut v: Vec<char> = Vec::new();
    for c in it: s.chars()
        invariant
            v@ == it.seq().take(it.index() as int),
            it.seq() == s@,
    {
        v.push(c);
    }
    v
}

/// The string made of the characters `v[lo..hi]`.
pub fn string_of_range(v: &Vec<char>, lo: usize, hi: usize) -> (s: String)
    requires
        lo <= hi <= v.len(),
    ensures
        s@ == v@.subrange(lo as int, hi as int),
{
    let mut s = String::new();
    let mut i = lo;
    while i < hi
        invariant
            lo <= i <= hi <= v.len(),
            s@ == v@.subrange(lo as int, i as int),
        decreases hi - i,
    {
        push_char(&mut s, v[i]);
        assert(v@.subrange(lo as int, i + 1) =~= v@.subrange(lo as int, i as int).push(v@[i as int]));
        i += 1;
    }
    s
}

/// The index of the first character of `v` at or after `from` that is not
/// white space (`v.len()` when there is none).
fn skip_white_space_from(v: &Vec<char>, from: usize) -> (lo: usize)
    requires
        from <= v.len(),
    ensures
        from <= lo <= v.len(),
        forall|j: int| from <= j < lo ==> is_white_space(#[trigger] v@[j]),
        lo < v.len() ==> !is_white_space(v@[lo as int]),
{
    let mut lo = from;
    while lo < v.len() && char_is_whitespace(v[lo])
        invariant
            from <= lo <= v.len(),
            forall|j: int| from <= j < lo ==> is_white_space(#[trigger] v@[j]),
        decreases v.len() - lo,
    {
        lo += 1;
    }
    lo
}

/// `s` with leading and trailing white space removed (`str::trim`).
pub fn trim(s: &str) -> (r: String)
    ensures
        r@ == trimmed(s@),
{
    let v = chars_of(s);
    let lo = skip_white_space_from(&v, 0);
    let mut hi = v.len();
    while hi > lo && char_is_whitespace(v[hi - 1])
        invariant
            lo <= hi <= v.len(),
            forall|j: int| hi <= j < v.len() ==> is_white_space(#[trigger] v@[j]),
        decreases hi,
    {
        hi -= 1;
    }
    proof {
        let p = white_space_pred();
        let sv = s@;
        assert forall|j: int| 0 <= j < lo implies p(#[trigger] sv[j]) by {}
        lemma_skip_while_prefix(sv, p, lo as int);
        let t = sv.skip(lo as int);
        if lo < sv.len() {
            assert(!p(t[0]));
        }
        assert(skip_while(t, p) == t);
        assert forall|j: int| hi - lo <= j < t.len() implies p(#[trigger] t[j]) by {
            assert(t[j] == sv[j + lo]);
        }
        lemma_drop_last_while_suffix(t, p, hi - lo);
        let u = t.take(hi - lo);
        if hi > lo {
            assert(u.last() == sv[hi - 1]);
            assert(!p(u.last()));
        }
        assert(drop_last_while(u, p) == u);
        assert(u =~= sv.subrange(lo as int, hi as int));
    }
    string_of_range(&v, lo, hi)
}

/// The first white-space separated word of `s`, if there is one
/// (`str::split_whitespace().next()`).
pub fn first_word_of(s: &str) -> (r: Option<String>)
    ensures
        r matches Some(w) ==> first_word(s@) == Some(w@),
        r is None ==> first_word(s@) is None,
{
    let v = chars_of(s);
    let lo = skip_white_space_from(&v, 0);
    proof {
        let sv = s@;
        let p = white_space_pred();
        assert forall|j: int| 0 <= j < lo implies p(#[trigger] sv[j]) by {}
        lemma_skip_while_prefix(sv, p, lo as int);
        let t = sv.skip(lo as int);
        if lo < sv.len() {
            assert(!p(t[0]));
        }
        assert(skip_while(t, p) == t);
    }
    if lo == v.len() {
        return None;
    }
    let mut hi = lo;
    while hi < v.len() && !char_is_whitespace(v[hi])
        invariant
            lo <= hi <= v.len(),
            forall|j: int| lo <= j < hi ==> !is_white_space(#[trigger] v@[j]),
        decreases v.len() - hi,
    {
        hi += 1;
    }
    proof {
        let sv = s@;
        let q = non_white_space_pred();
        let t = sv.skip(lo as int);
        assert forall|j: int| 0 <= j < hi - lo implies q(#[trigger] t[j]) by {
            assert(t[j] == sv[j + lo]);
        }
        if hi - lo < t.len() {
            assert(t[hi - lo] == sv[hi as int]);
        }
        lemma_take_while_stop(t, q, hi - lo);
        assert(t.take(hi - lo) =~= sv.subrange(lo as int, hi as int));
    }
    Some(string_of_range(&v, lo, hi))
}

/// The part of `s` before the first `sep`, or all of `s` when `sep` does not
/// occur (`s.split(sep).next()`).
pub fn text_before(s: &str, sep: char) -> (r: String)
    ensures
        r@ == before_char(s@, sep),
{
    let v = chars_of(s);
    let mut hi: usize = 0;
    while hi < v.len() && v[hi] != sep
        invariant
            hi <= v.len(),
            forall|j: int| 0 <= j < hi ==> #[trigger] v@[j] != sep,
        decreases v.len() - hi,
    {
        hi += 1;
    }
    proof {
        let q = not_char_pred(sep);
        let sv = s@;
        assert forall|j: int| 0 <= j < hi implies q(#[trigger] sv[j]) by {}
        lemma_take_while_stop(sv, q, hi as int);
        assert(sv.take(hi as int) =~= sv.subrange(0, hi as int));
    }
    string_of_range(&v, 0, hi)
}

/// `s` with every `from` replaced by the text `to`.
pub fn replace_char_with(s: &str, from: char, to: &str) -> (r: String)
    ensures
        r@ == replace_char(s@, from, to@),
{
    let v = chars_of(s);
    let mut r = String::new();
    let mut i: usize = 0;
    while i < v.len()
        invariant
            i <= v.len(),
            v@ == s@,
            r@ == replace_char(s@.take(i as int), from, to@),
        decreases v.len() - i,
    {
        assert(s@.take(i + 1).drop_last() =~= s@.take(i as int));
        if v[i] == from {
            r.append(to);
        } else {
            push_char(&mut r, v[i]);
        }
        i += 1;
    }
    assert(s@.take(v.len() as int) =~= s@);
    r
}

pub fn is_ascii_digit_char(c: char) -> (b: bool)
    ensures
        b == is_ascii_digit(c),
{
    '0' <= c && c <= '9'
}

/// The ASCII digits of `s`, in order.
pub fn ascii_digits_of(s: &str) -> (r: Vec<char>)
    ensures
        r@ == ascii_digits(s@),
{
    let v = chars_of(s);
    let mut r: Vec<char> = Vec::new();
    let mut i: usize = 0;
    while i < v.len()
        invariant
            i <= v.len(),
            v@ == s@,
            r@ == ascii_digits(s@.take(i as int)),
        decreases v.len() - i,
    {
        assert(s@.take(i + 1).drop_last() =~= s@.take(i as int));
        if is_ascii_digit_char(v[i]) {
            r.push(v[i]);
        }
        i += 1;
    }
    assert(s@.take(v.len() as int) =~= s@);
    r
}

/// Parses `v` as `u32::from_str` does: an optional `+`, then decimal digits only,
/// with `None` for an empty number, any other character, or a value above `u32::MAX`.
pub fn parse_u32_chars(v: &Vec<char>) -> (r: Option<u32>)
    ensures
        r == parse_u32_spec(v@),
{
    let start: usize = if v.len() > 0 && v[0] == '+' { 1 } else { 0 };
    let ghost body = if v@.len() > 0 && v@[0] == '+' { v@.drop_first() } else { v@ };
    assert(body =~= v@.skip(start as int));
    if start == v.len() {
        return None;
    }
    let mut acc: u64 = 0;
    let mut i: usize = start;
    while i < v.len()
        invariant
            start <= i <= v.len(),
            body == v@.skip(start as int),
            body == (if v@.len() > 0 && v@[0] == '+' { v@.drop_first() } else { v@ }),
            acc == decimal_value(body.take(i - start)),
            acc <= u32::MAX,
            all_ascii_digits(body.take(i - start)),
        decreases v.len() - i,
    {
        let c = v[i];
        assert(body.take(i - start + 1).drop_last() =~= body.take(i - start));
        assert(body.take(i - start + 1).last() == c);
        if !is_ascii_digit_char(c) {
            assert(!is_ascii_digit(body[i - start]));
            assert(!all_ascii_digits(body));
            return None;
        }
        let d: u64 = digit_to_u64(c);
        let next: u64 = acc * 10 + d;
        if next > 0xffff_ffff {
            proof {
                let pre = body.take(i - start + 1);
                assert(decimal_value(pre) == decimal_value(pre.drop_last()) * 10 + digit_value(pre.last()));
                assert(decimal_value(pre) > u32::MAX);
                lemma_decimal_value_prefix(body, i - start + 1);
            }
            return None;
        }
        acc = next;
        i += 1;
        assert forall|j: int| 0 <= j < i - start implies is_ascii_digit(#[trigger] body.take(i - start)[j]) by {
            if j < i - start - 1 {
                assert(body.take(i - start)[j] == body.take(i - start - 1)[j]);
            }
        }
    }
    assert(body.take(i - start) =~= body);
    Some(acc as u32)
}

fn digit_to_u64(c: char) -> (d: u64)
    requires
        is_ascii_digit(c),
    ensures
        d == digit_value(c),
        d < 10,
{
    (c as u32 - '0' as u32) as u64
}

/// Parses `s` as `u32::from_str` does (see `parse_u32_spec`).
pub fn parse_u32(s: &str) -> (r: Option<u32>)
    ensures
        r == parse_u32_spec(s@),
{
    let v = chars_of(s);
    parse_u32_chars(&v)
}

fn digit_char_of(d: u64) -> (c: char)
    requires
        d < 10,
    ensures
        c == digit_char(d as nat),
{
    if d == 0 {
        '0'
    } else if d == 1 {
        '1'
    } else if d == 2 {
        '2'
    } else if d == 3 {
        '3'
    } else if d == 4 {
        '4'
    } else if d == 5 {
        '5'
    } else if d == 6 {
        '6'
    } else if d == 7 {
        '7'
    } else if d == 8 {
        '8'
    } else {
        '9'
    }
}

/// Appends the decimal notation of `n` to `out`.
pub fn push_decimal(out: &mut String, n: u64)
    ensures
        final(out)@ == old(out)@ + decimal_text(n as nat),
    decreases n,
{
    if n >= 10 {
        push_decimal(out, n / 10);
    }
    push_char(out, digit_char_of(n % 10));
    assert(decimal_text(n as nat) =~= if n < 10 {
        seq![digit_char(n as nat)]
    } else {
        decimal_text((n / 10) as nat).push(digit_char((n % 10) as nat))
    });
}

/// The decimal notation of `n` (`n.to_string()`).
pub fn decimal_string(n: u64) -> (s: String)
    ensures
        s@ == decimal_text(n as nat),
{
    let mut s = String::new();
    push_decimal(&mut s, n);
    s
}

/// Whether the characters `needle` stand in `hay` starting at `i`.
fn occurs_at_exec(hay: &Vec<char>, needle: &Vec<char>, i: usize) -> (b: bool)
    requires
        i + needle.len() <= hay.len(),
    ensures
        b == occurs_at(hay@, needle@, i as int),
{
    let mut k: usize = 0;
    while k < needle.len()
        invariant
            k <= needle.len(),
            i + needle.len() <= hay.len(),
            forall|j: int| 0 <= j < k ==> hay@[i + j] == needle@[j],
        decreases needle.len() - k,
    {
        if hay[i + k] != needle[k] {
            assert(hay@.subrange(i as int, i + needle.len())[k as int] != needle@[k as int]);
            return false;
        }
        k += 1;
    }
    assert(hay@.subrange(i as int, i + needle.len()) =~= needle@);
    true
}

/// Whether `needle` stands somewhere in `hay`.
pub fn contains_chars(hay: &Vec<char>, needle: &Vec<char>) -> (b: bool)
    ensures
        b == contains_text(hay@, needle@),
{
    if needle.len() > hay.len() {
        return false;
    }
    let last = hay.len() - needle.len();
    let mut i: usize = 0;
    while i < last
        invariant
            last == hay.len() - needle.len(),
            i <= last,
            forall|j: int| 0 <= j < i ==> !occurs_at(hay@, needle@, j),
        decreases last - i,
    {
        if occurs_at_exec(hay, needle, i) {
            return true;
        }
        i += 1;
    }
    if occurs_at_exec(hay, needle, last) {
        return true;
    }
    assert forall|j: int| !occurs_at(hay@, needle@, j) by {
        if 0 <= j < last {
        }
    }
    false
}


/// The position of the first `"://"` of `v`, if it has one.
fn find_scheme_sep(v: &Vec<char>) -> (r: Option<usize>)
    ensures
        r matches Some(i) ==> scheme_sep_at(v@, i as int) && forall|j: int|
            0 <= j < i ==> !scheme_sep_at(v@, j),
        r is None ==> forall|j: int| !scheme_sep_at(v@, j),
{
    if v.len() < 3 {
        return None;
    }
    let last = v.len() - 3;
    let mut i: usize = 0;
    while i <= last
        invariant
            last + 3 == v.len(),
            i <= last + 1,
            forall|j: int| 0 <= j < i ==> !scheme_sep_at(v@, j),
        decreases last + 1 - i,
    {
        if v[i] == ':' && v[i + 1] == '/' && v[i + 2] == '/' {
            return Some(i);
        }
        if i == last {
            return None;
        }
        i += 1;
    }
    None
}

/// The host part of `url` (see `host_of`).
pub fn url_host(url: &str) -> (r: String)
    ensures
        r@ == host_of(url@),
{
    let v = chars_of(url);
    let found = find_scheme_sep(&v);
    let start: usize = match found {
        Some(i) => i + 3,
        None => 0,
    };
    proof {
        let s = url@;
        match found {
            Some(i) => {
                lemma_after_scheme_sep_skip(s, i as int);
                let t = s.skip(i as int);
                assert(t[0] == s[i as int] && t[1] == s[i + 1] && t[2] == s[i + 2]);
                assert(t.skip(3) =~= s.skip(start as int));
            },
            None => {
                lemma_after_scheme_sep_skip(s, s.len() as int);
                assert(s.skip(0) =~= s);
            },
        }
    }
    let mut end = start;
    while end < v.len() && !(v[end] == '/' || v[end] == '?' || v[end] == '#' || v[end] == '\\')
        invariant
            start <= end <= v.len(),
            forall|j: int| start <= j < end ==> !is_authority_end(#[trigger] v@[j]),
        decreases v.len() - end,
    {
        end += 1;
    }
    let ghost authority = v@.subrange(start as int, end as int);
    proof {
        let s = url@;
        let rest = match after_scheme_sep(s) {
            Some(r) => r,
            None => s,
        };
        assert(rest == s.skip(start as int));
        let q = authority_char_pred();
        assert forall|j: int| 0 <= j < end - start implies q(#[trigger] rest[j]) by {
            assert(rest[j] == s[j + start]);
        }
        if end - start < rest.len() {
            assert(rest[end - start] == s[end as int]);
        }
        lemma_take_while_stop(rest, q, end - start);
        assert(rest.take(end - start) =~= authority);
        assert(authority_of(s) == authority);
    }
    let mut lo = end;
    while lo > start && v[lo - 1] != '@'
        invariant
            start <= lo <= end <= v.len(),
            forall|j: int| lo <= j < end ==> #[trigger] v@[j] != '@',
        decreases lo,
    {
        lo -= 1;
    }
    proof {
        assert forall|j: int| lo - start <= j < authority.len() implies #[trigger] authority[j] != '@' by {
            assert(authority[j] == v@[j + start]);
        }
        if lo > start {
            assert(authority[lo - start - 1] == v@[lo - 1]);
        }
        lemma_after_last_at(authority, lo - start);
        assert(authority.skip(lo - start) =~= v@.subrange(lo as int, end as int));
    }
    let mut hi = lo;
    while hi < end && v[hi] != ':'
        invariant
            lo <= hi <= end <= v.len(),
            forall|j: int| lo <= j < hi ==> #[trigger] v@[j] != ':',
        decreases end - hi,
    {
        hi += 1;
    }
    proof {
        let t = v@.subrange(lo as int, end as int);
        let q = not_colon_pred();
        assert forall|j: int| 0 <= j < hi - lo implies q(#[trigger] t[j]) by {
            assert(t[j] == v@[j + lo]);
        }
        if hi - lo < t.len() {
            assert(t[hi - lo] == v@[hi as int]);
        }
        lemma_take_while_stop(t, q, hi - lo);
        assert(t.take(hi - lo) =~= v@.subrange(lo as int, hi as int));
    }
    string_of_range(&v, lo, hi)
}

/// Whether `h[off..]` is exactly `d`.
fn suffix_is(h: &Vec<char>, d: &Vec<char>, off: usize) -> (b: bool)
    requires
        off + d.len() == h.len(),
    ensures
        b == (h@.skip(off as int) == d@),
{
    let mut k: usize = 0;
    while k < d.len()
        invariant
            off + d.len() == h.len(),
            k <= d.len(),
            forall|j: int| 0 <= j < k ==> h@[off + j] == d@[j],
        decreases d.len() - k,
    {
        if h[off + k] != d[k] {
            assert(h@.skip(off as int)[k as int] != d@[k as int]);
            return false;
        }
        k += 1;
    }
    assert(h@.skip(off as int) =~= d@);
    true
}

/// Whether the host `h` is `domain` or one of its sub-domains (see `host_in_domain`).
pub fn in_domain(h: &Vec<char>, domain: &str) -> (b: bool)
    ensures
        b == host_in_domain(h@, domain@),
{
    let d = chars_of(domain);
    if h.len() == d.len() {
        let same = suffix_is(h, &d, 0);
        assert(h@.skip(0) =~= h@);
        same
    } else if h.len() > d.len() {
        let off = h.len() - d.len();
        if h[off - 1] != '.' {
            return false;
        }
        suffix_is(h, &d, off)
    } else {
        false
    }
}

/// Whether the characters of `a` are exactly those of `b`.
pub fn same_text(a: &str, b: &str) -> (r: bool)
    ensures
        r == (a@ == b@),
{
    let x = chars_of(a);
    let y = chars_of(b);
    if x.len() != y.len() {
        return false;
    }
    let mut i: usize = 0;
    while i < x.len()
        invariant
            x.len() == y.len(),
            x@ == a@,
            y@ == b@,
            i <= x.len(),
            forall|j: int| 0 <= j < i ==> x@[j] == y@[j],
        decreases x.len() - i,
    {
        if x[i] != y[i] {
            assert(a@[i as int] != b@[i as int]);
            return false;
        }
        i += 1;
    }
    assert(x@ =~= y@);
    true
}

/// The string `s` (`str::to_string`).
pub fn owned(s: &str) -> (r: String)
    ensures
        r@ == s@,
{
    String::from_str(s)
}

/// Whether `needle` stands somewhere in `hay` (`str::contains`).
pub fn contains(hay: &str, needle: &str) -> (b: bool)
    ensures
        b == contains_text(hay@, needle@),
{
    let h = chars_of(hay);
    let n = chars_of(needle);
    contains_chars(&h, &n)
}

} // verus!
