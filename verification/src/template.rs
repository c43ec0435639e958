//! The template renderer: plain `{{field}}` substitution and conditional
//! `{{#if field}}...{{/if}}` inclusion over a metadata record, with strict
//! required-field semantics — referencing an absent field outside a
//! conditional guard is an error naming that field.

use vstd::prelude::*;
use crate::chars::is_word;
use crate::metadata::{opt_str_view, Metadata};
use crate::numfmt::{dec_str, u16_to_dec};

verus! {

// ---------------------------------------------------------------------------
// Fields
// ---------------------------------------------------------------------------

/// Value of the field `name` of `m`, if present: strings verbatim, numbers
/// in decimal, the abridged flag as `true` or `false`. An unknown name is an
/// absent field.
pub open spec fn field_value(m: Metadata, name: Seq<char>) -> Option<Seq<char>> {
    if name == "title"@ {
        Some(m.title@)
    } else if name == "subtitle"@ {
        opt_str_view(m.subtitle)
    } else if name == "series"@ {
        opt_str_view(m.series)
    } else if name == "book_number"@ {
        match m.book_number {
            Some(n) => Some(dec_str(n as int)),
            None => None,
        }
    } else if name == "book_number_with_zeros"@ {
        opt_str_view(m.book_number_with_zeros)
    } else if name == "author"@ {
        opt_str_view(m.author)
    } else if name == "published_year"@ {
        opt_str_view(m.published_year)
    } else if name == "published_date"@ {
        opt_str_view(m.published_date)
    } else if name == "genre"@ {
        opt_str_view(m.genre)
    } else if name == "language"@ {
        opt_str_view(m.language)
    } else if name == "abridged"@ {
        match m.abridged {
            Some(true) => Some("true"@),
            Some(false) => Some("false"@),
            None => None,
        }
    } else if name == "file_number"@ {
        match m.file_number {
            Some(n) => Some(dec_str(n as int)),
            None => None,
        }
    } else if name == "file_number_with_zeros"@ {
        opt_str_view(m.file_number_with_zeros)
    } else {
        None
    }
}

// ---------------------------------------------------------------------------
// Token shapes
// ---------------------------------------------------------------------------

/// A `{{` opens at `i`.
pub open spec fn open_at(t: Seq<char>, i: int) -> bool {
    i + 2 <= t.len() && t[i] == '{' && t[i + 1] == '{'
}

/// A `{{#if ` opens at `i`.
pub open spec fn if_open_at(t: Seq<char>, i: int) -> bool {
    i + 6 <= t.len() && t[i] == '{' && t[i + 1] == '{' && t[i + 2] == '#' && t[i + 3] == 'i'
        && t[i + 4] == 'f' && t[i + 5] == ' '
}

/// A `{{/if}}` stands at `i`.
pub open spec fn endif_at(t: Seq<char>, i: int) -> bool {
    i + 7 <= t.len() && t[i] == '{' && t[i + 1] == '{' && t[i + 2] == '/' && t[i + 3] == 'i'
        && t[i + 4] == 'f' && t[i + 5] == '}' && t[i + 6] == '}'
}

/// Offset from `i` of the first `}}` at or after `i`.
pub open spec fn close_off(t: Seq<char>, i: int) -> Option<nat>
    decreases t.len() - i,
{
    if i + 2 > t.len() {
        None
    } else if t[i] == '}' && t[i + 1] == '}' {
        Some(0)
    } else {
        match close_off(t, i + 1) {
            Some(o) => Some((o + 1) as nat),
            None => None,
        }
    }
}

/// Offset from `i` of the first `{{/if}}` at or after `i`.
pub open spec fn endif_off(t: Seq<char>, i: int) -> Option<nat>
    decreases t.len() - i,
{
    if i >= t.len() {
        None
    } else if endif_at(t, i) {
        Some(0)
    } else {
        match endif_off(t, i + 1) {
            Some(o) => Some((o + 1) as nat),
            None => None,
        }
    }
}

/// A found `}}` lies within the template.
pub proof fn lemma_close_off_bound(t: Seq<char>, i: int)
    ensures
        match close_off(t, i) {
            Some(o) => i + o + 2 <= t.len(),
            None => true,
        },
    decreases t.len() - i,
{
    if i + 2 > t.len() {
    } else if t[i] == '}' && t[i + 1] == '}' {
    } else {
        lemma_close_off_bound(t, i + 1);
    }
}

/// A found `{{/if}}` lies within the template.
pub proof fn lemma_endif_off_bound(t: Seq<char>, i: int)
    ensures
        match endif_off(t, i) {
            Some(o) => i + o + 7 <= t.len(),
            None => true,
        },
    decreases t.len() - i,
{
    if i >= t.len() {
    } else if endif_at(t, i) {
    } else {
        lemma_endif_off_bound(t, i + 1);
    }
}

/// A usable field name: nonempty, of letters, digits and underscores.
pub open spec fn valid_name(n: Seq<char>) -> bool {
    n.len() > 0 && forall|k: int| 0 <= k < n.len() ==> is_word(#[trigger] n[k])
}

// ---------------------------------------------------------------------------
// The grammar
// ---------------------------------------------------------------------------

/// The body of a conditional block is well-formed: every `{{` in
/// `t[i..end)` is a plain substitution with a valid name, closed before
/// `end`; no nested conditional.
pub open spec fn wf_plain(t: Seq<char>, i: int, end: int) -> bool
    decreases end - i,
{
    if i >= end {
        true
    } else if open_at(t, i) {
        !if_open_at(t, i) && match close_off(t, i + 2) {
            None => false,
            Some(o) => i + 4 + o <= end && valid_name(t.subrange(i + 2, i + 2 + o))
                && wf_plain(t, i + 4 + o, end),
        }
    } else {
        wf_plain(t, i + 1, end)
    }
}

/// The template is well-formed from `i` on: every `{{` is closed with a
/// valid name, every `{{#if ` has its `{{/if}}`, no conditional nests and no
/// stray `{{/if}}` appears.
pub open spec fn wf_from(t: Seq<char>, i: int) -> bool
    decreases t.len() - i,
    via wf_from_dec
{
    if i >= t.len() {
        true
    } else if if_open_at(t, i) {
        match close_off(t, i + 6) {
            None => false,
            Some(o) => valid_name(t.subrange(i + 6, i + 6 + o)) && match endif_off(t, i + 8 + o) {
                None => false,
                Some(p) => wf_plain(t, i + 8 + o, i + 8 + o + p) && wf_from(
                    t,
                    i + 8 + o + p + 7,
                ),
            },
        }
    } else if endif_at(t, i) {
        false
    } else if open_at(t, i) {
        match close_off(t, i + 2) {
            None => false,
            Some(o) => valid_name(t.subrange(i + 2, i + 2 + o)) && wf_from(t, i + 4 + o),
        }
    } else {
        wf_from(t, i + 1)
    }
}

#[via_fn]
proof fn wf_from_dec(t: Seq<char>, i: int) {
    lemma_close_off_bound(t, i + 2);
    lemma_close_off_bound(t, i + 6);
    if let Some(o) = close_off(t, i + 6) {
        lemma_endif_off_bound(t, i + 8 + o);
    }
}

/// The template grammar that `render` requires.
pub open spec fn wf_template(t: Seq<char>) -> bool {
    wf_from(t, 0)
}

// ---------------------------------------------------------------------------
// Rendering, as a specification
// ---------------------------------------------------------------------------

/// Rendering of `t[i..end)`, a conditional body: substitutions and literal
/// text only. `Ok` carries the produced text, `Err` the name of the missing
/// field.
pub open spec fn render_plain(t: Seq<char>, m: Metadata, i: int, end: int) -> Result<
    Seq<char>,
    Seq<char>,
>
    decreases end - i,
{
    if i >= end {
        Ok(Seq::empty())
    } else if open_at(t, i) {
        match close_off(t, i + 2) {
            None => Ok(Seq::empty()),
            Some(o) => if i + 4 + o <= end {
                match field_value(m, t.subrange(i + 2, i + 2 + o)) {
                    None => Err(t.subrange(i + 2, i + 2 + o)),
                    Some(v) => match render_plain(t, m, i + 4 + o, end) {
                        Ok(rest) => Ok(v + rest),
                        Err(e) => Err(e),
                    },
                }
            } else {
                Ok(Seq::empty())
            },
        }
    } else {
        match render_plain(t, m, i + 1, end) {
            Ok(rest) => Ok(seq![t[i]] + rest),
            Err(e) => Err(e),
        }
    }
}

/// Rendering of the whole template from `i` on: a conditional block is
/// included exactly when its field is present, and is omitted entirely —
/// delimiters and content — when absent; substitutions as in
/// `render_plain`.
pub open spec fn render_from(t: Seq<char>, m: Metadata, i: int) -> Result<Seq<char>, Seq<char>>
    decreases t.len() - i,
    via render_from_dec
{
    if i >= t.len() {
        Ok(Seq::empty())
    } else if if_open_at(t, i) {
        match close_off(t, i + 6) {
            None => Ok(Seq::empty()),
            Some(o) => match endif_off(t, i + 8 + o) {
                None => Ok(Seq::empty()),
                Some(p) => match field_value(m, t.subrange(i + 6, i + 6 + o)) {
                    Some(_) => match render_plain(t, m, i + 8 + o, i + 8 + o + p) {
                        Err(e) => Err(e),
                        Ok(mid) => match render_from(t, m, i + 8 + o + p + 7) {
                            Ok(rest) => Ok(mid + rest),
                            Err(e) => Err(e),
                        },
                    },
                    None => render_from(t, m, i + 8 + o + p + 7),
                },
            },
        }
    } else if open_at(t, i) {
        match close_off(t, i + 2) {
            None => Ok(Seq::empty()),
            Some(o) => match field_value(m, t.subrange(i + 2, i + 2 + o)) {
                None => Err(t.subrange(i + 2, i + 2 + o)),
                Some(v) => match render_from(t, m, i + 4 + o) {
                    Ok(rest) => Ok(v + rest),
                    Err(e) => Err(e),
                },
            },
        }
    } else {
        match render_from(t, m, i + 1) {
            Ok(rest) => Ok(seq![t[i]] + rest),
            Err(e) => Err(e),
        }
    }
}

#[via_fn]
proof fn render_from_dec(t: Seq<char>, m: Metadata, i: int) {
    lemma_close_off_bound(t, i + 2);
    lemma_close_off_bound(t, i + 6);
    if let Some(o) = close_off(t, i + 6) {
        lemma_endif_off_bound(t, i + 8 + o);
    }
}

/// The outcome of rendering template `t` with the fields of `m`.
pub open spec fn render_spec(t: Seq<char>, m: Metadata) -> Result<Seq<char>, Seq<char>> {
    render_from(t, m, 0)
}

/// Rendering is pure: two renders of one template-and-fields pair have one
/// and the same outcome.
pub proof fn lemma_render_deterministic(
    t: Seq<char>,
    m: Metadata,
    r1: Result<Seq<char>, Seq<char>>,
    r2: Result<Seq<char>, Seq<char>>,
)
    requires
        r1 == render_spec(t, m),
        r2 == render_spec(t, m),
    ensures
        r1 == r2,
{
}

// ---------------------------------------------------------------------------
// Rendering, executably
// ---------------------------------------------------------------------------

/// A strict-mode rendering failure.
#[derive(Debug, Clone)]
pub struct RenderError {
    /// Name of the missing required field.
    pub missing_field: String,
    /// The template whose rendering failed.
    pub template: String,
}

fn open_at_x(t: &str, n: usize, i: usize) -> (b: bool)
    requires
        n == t@.len(),
        i <= n,
    ensures
        b == open_at(t@, i as int),
{
    n - i >= 2 && t.get_char(i) == '{' && t.get_char(i + 1) == '{'
}

fn if_open_at_x(t: &str, n: usize, i: usize) -> (b: bool)
    requires
        n == t@.len(),
        i <= n,
    ensures
        b == if_open_at(t@, i as int),
{
    n - i >= 6 && t.get_char(i) == '{' && t.get_char(i + 1) == '{' && t.get_char(i + 2) == '#'
        && t.get_char(i + 3) == 'i' && t.get_char(i + 4) == 'f' && t.get_char(i + 5) == ' '
}

fn endif_at_x(t: &str, n: usize, i: usize) -> (b: bool)
    requires
        n == t@.len(),
        i <= n,
    ensures
        b == endif_at(t@, i as int),
{
    n - i >= 7 && t.get_char(i) == '{' && t.get_char(i + 1) == '{' && t.get_char(i + 2) == '/'
        && t.get_char(i + 3) == 'i' && t.get_char(i + 4) == 'f' && t.get_char(i + 5) == '}'
        && t.get_char(i + 6) == '}'
}

/// Offset of the first `}}` at or after `from`.
fn find_close(t: &str, n: usize, from: usize) -> (r: Option<usize>)
    requires
        n == t@.len(),
        from <= n,
    ensures
        match r {
            Some(o) => close_off(t@, from as int) == Some(o as nat) && from + o + 2 <= n,
            None => close_off(t@, from as int) == None::<nat>,
        },
    decreases n - from,
{
    if n - from < 2 {
        None
    } else if t.get_char(from) == '}' && t.get_char(from + 1) == '}' {
        Some(0)
    } else {
        match find_close(t, n, from + 1) {
            Some(o) => Some(o + 1),
            None => None,
        }
    }
}

/// Offset of the first `{{/if}}` at or after `from`.
fn find_endif(t: &str, n: usize, from: usize) -> (r: Option<usize>)
    requires
        n == t@.len(),
        from <= n,
    ensures
        match r {
            Some(o) => endif_off(t@, from as int) == Some(o as nat) && from + o + 7 <= n,
            None => endif_off(t@, from as int) == None::<nat>,
        },
    decreases n - from,
{
    if from >= n {
        None
    } else if endif_at_x(t, n, from) {
        Some(0)
    } else {
        match find_endif(t, n, from + 1) {
            Some(o) => Some(o + 1),
            None => None,
        }
    }
}

/// Whether `t[a..b)` spells exactly the name `lit`.
fn name_is(t: &str, n: usize, a: usize, b: usize, lit: &str) -> (r: bool)
    requires
        n == t@.len(),
        a <= b <= n,
    ensures
        r == (t@.subrange(a as int, b as int) == lit@),
{
    let llen = lit.unicode_len();
    if b - a != llen {
        proof {
            assert(t@.subrange(a as int, b as int).len() == b - a);
        }
        return false;
    }
    let mut k: usize = 0;
    while k < llen
        invariant
            k <= llen,
            llen == lit@.len(),
            b - a == llen,
            a + llen <= b <= n,
            n == t@.len(),
            forall|j: int| 0 <= j < k ==> t@[a + j] == lit@[j],
        decreases llen - k,
    {
        if t.get_char(a + k) != lit.get_char(k) {
            proof {
                assert(t@.subrange(a as int, b as int)[k as int] == t@[a + k]);
                if t@.subrange(a as int, b as int) == lit@ {
                    assert(t@.subrange(a as int, b as int)[k as int] == lit@[k as int]);
                }
            }
            return false;
        }
        k = k + 1;
    }
    proof {
        assert(t@.subrange(a as int, b as int) =~= lit@);
    }
    true
}

/// Clone an optional string.
fn clone_opt(o: &Option<String>) -> (r: Option<String>)
    ensures
        opt_str_view(r) == opt_str_view(*o),
{
    match o {
        Some(v) => Some(v.clone()),
        None => None,
    }
}

/// The value of the field named `t[a..b)` of `m`, if present.
fn field_get(m: &Metadata, t: &str, n: usize, a: usize, b: usize) -> (r: Option<String>)
    requires
        n == t@.len(),
        a <= b <= n,
    ensures
        match r {
            Some(v) => field_value(*m, t@.subrange(a as int, b as int)) == Some(v@),
            None => field_value(*m, t@.subrange(a as int, b as int)) == None::<Seq<char>>,
        },
{
    if name_is(t, n, a, b, "title") {
        Some(m.title.clone())
    } else if name_is(t, n, a, b, "subtitle") {
        clone_opt(&m.subtitle)
    } else if name_is(t, n, a, b, "series") {
        clone_opt(&m.series)
    } else if name_is(t, n, a, b, "book_number") {
        match m.book_number {
            Some(v) => Some(u16_to_dec(v)),
            None => None,
        }
    } else if name_is(t, n, a, b, "book_number_with_zeros") {
        clone_opt(&m.book_number_with_zeros)
    } else if name_is(t, n, a, b, "author") {
        clone_opt(&m.author)
    } else if name_is(t, n, a, b, "published_year") {
        clone_opt(&m.published_year)
    } else if name_is(t, n, a, b, "published_date") {
        clone_opt(&m.published_date)
    } else if name_is(t, n, a, b, "genre") {
        clone_opt(&m.genre)
    } else if name_is(t, n, a, b, "language") {
        clone_opt(&m.language)
    } else if name_is(t, n, a, b, "abridged") {
        match m.abridged {
            Some(fl) => if fl {
                Some("true".to_owned())
            } else {
                Some("false".to_owned())
            },
            None => None,
        }
    } else if name_is(t, n, a, b, "file_number") {
        match m.file_number {
            Some(v) => Some(u16_to_dec(v)),
            None => None,
        }
    } else if name_is(t, n, a, b, "file_number_with_zeros") {
        clone_opt(&m.file_number_with_zeros)
    } else {
        None
    }
}

/// Render a conditional body `t[i..end)`.
fn render_plain_x(t: &str, n: usize, m: &Metadata, i: usize, end: usize) -> (r: Result<
    String,
    String,
>)
    requires
        n == t@.len(),
        i <= n,
        end <= n,
    ensures
        match r {
            Ok(out) => render_plain(t@, *m, i as int, end as int) == Ok::<Seq<char>, Seq<char>>(
                out@,
            ),
            Err(e) => render_plain(t@, *m, i as int, end as int) == Err::<Seq<char>, Seq<char>>(
                e@,
            ),
        },
    decreases end - i,
{
    if i >= end {
        Ok(String::new())
    } else if open_at_x(t, n, i) {
        match find_close(t, n, i + 2) {
            None => Ok(String::new()),
            Some(o) => {
                if !(i + 4 + o <= end) {
                    return Ok(String::new());
                }
                match field_get(m, t, n, i + 2, i + 2 + o) {
                    None => Err(t.substring_char(i + 2, i + 2 + o).to_owned()),
                    Some(v) => match render_plain_x(t, n, m, i + 4 + o, end) {
                        Ok(rest) => {
                            let mut out = v;
                            out.append(rest.as_str());
                            Ok(out)
                        },
                        Err(e) => Err(e),
                    },
                }
            },
        }
    } else {
        match render_plain_x(t, n, m, i + 1, end) {
            Ok(rest) => {
                let mut out = t.substring_char(i, i + 1).to_owned();
                out.append(rest.as_str());
                proof {
                    assert(t@.subrange(i as int, i + 1) =~= seq![t@[i as int]]);
                }
                Ok(out)
            },
            Err(e) => Err(e),
        }
    }
}

/// Render the template from `i` on.
fn render_from_x(t: &str, n: usize, m: &Metadata, i: usize) -> (r: Result<String, String>)
    requires
        n == t@.len(),
        i <= n,
    ensures
        match r {
            Ok(out) => render_from(t@, *m, i as int) == Ok::<Seq<char>, Seq<char>>(out@),
            Err(e) => render_from(t@, *m, i as int) == Err::<Seq<char>, Seq<char>>(e@),
        },
    decreases n - i,
{
    if i >= n {
        Ok(String::new())
    } else if if_open_at_x(t, n, i) {
        match find_close(t, n, i + 6) {
            None => Ok(String::new()),
            Some(o) => match find_endif(t, n, i + 8 + o) {
                None => Ok(String::new()),
                Some(p) => match field_get(m, t, n, i + 6, i + 6 + o) {
                    Some(_) => match render_plain_x(t, n, m, i + 8 + o, i + 8 + o + p) {
                        Err(e) => Err(e),
                        Ok(mid) => match render_from_x(t, n, m, i + 8 + o + p + 7) {
                            Ok(rest) => {
                                let mut out = mid;
                                out.append(rest.as_str());
                                Ok(out)
                            },
                            Err(e) => Err(e),
                        },
                    },
                    None => render_from_x(t, n, m, i + 8 + o + p + 7),
                },
            },
        }
    } else if open_at_x(t, n, i) {
        match find_close(t, n, i + 2) {
            None => Ok(String::new()),
            Some(o) => match field_get(m, t, n, i + 2, i + 2 + o) {
                None => Err(t.substring_char(i + 2, i + 2 + o).to_owned()),
                Some(v) => match render_from_x(t, n, m, i + 4 + o) {
                    Ok(rest) => {
                        let mut out = v;
                        out.append(rest.as_str());
                        Ok(out)
                    },
                    Err(e) => Err(e),
                },
            },
        }
    } else {
        match render_from_x(t, n, m, i + 1) {
            Ok(rest) => {
                let mut out = t.substring_char(i, i + 1).to_owned();
                out.append(rest.as_str());
                proof {
                    assert(t@.subrange(i as int, i + 1) =~= seq![t@[i as int]]);
                }
                Ok(out)
            },
            Err(e) => Err(e),
        }
    }
}

/// Render `template` with the fields of `m`, in strict mode: a reference to
/// an absent field outside a conditional guard fails, naming the field and
/// the template.
pub fn render(template: &str, m: &Metadata) -> (r: Result<String, RenderError>)
    requires
        wf_template(template@),
    ensures
        match r {
            Ok(out) => render_spec(template@, *m) == Ok::<Seq<char>, Seq<char>>(out@),
            Err(e) => render_spec(template@, *m) == Err::<Seq<char>, Seq<char>>(e.missing_field@)
                && e.template@ == template@,
        },
{
    let n = template.unicode_len();
    match render_from_x(template, n, m, 0) {
        Ok(out) => Ok(out),
        Err(name) => Err(
            RenderError { missing_field: name, template: template.to_owned() },
        ),
    }
}

// ---------------------------------------------------------------------------
// Grammar checking, executably
// ---------------------------------------------------------------------------

/// Whether `t[a..b)` is a usable field name.
fn name_ok(t: &str, n: usize, a: usize, b: usize) -> (r: bool)
    requires
        n == t@.len(),
        a <= b <= n,
    ensures
        r == valid_name(t@.subrange(a as int, b as int)),
{
    if a == b {
        proof {
            assert(t@.subrange(a as int, b as int).len() == 0);
        }
        return false;
    }
    let mut k: usize = a;
    while k < b
        invariant
            a <= k <= b <= n,
            n == t@.len(),
            forall|j: int| a <= j < k ==> is_word(#[trigger] t@[j]),
        decreases b - k,
    {
        if !crate::chars::word_ch(t.get_char(k)) {
            proof {
                assert(t@.subrange(a as int, b as int)[k - a] == t@[k as int]);
            }
            return false;
        }
        k = k + 1;
    }
    proof {
        assert forall|j: int| 0 <= j < b - a implies is_word(
            #[trigger] t@.subrange(a as int, b as int)[j],
        ) by {
            assert(t@.subrange(a as int, b as int)[j] == t@[a + j]);
        }
    }
    true
}

/// Whether `t[i..end)` is a well-formed conditional body.
fn wf_plain_x(t: &str, n: usize, i: usize, end: usize) -> (b: bool)
    requires
        n == t@.len(),
        i <= n,
        end <= n,
    ensures
        b == wf_plain(t@, i as int, end as int),
    decreases end - i,
{
    if i >= end {
        true
    } else if open_at_x(t, n, i) {
        if if_open_at_x(t, n, i) {
            return false;
        }
        match find_close(t, n, i + 2) {
            None => false,
            Some(o) => i + 4 + o <= end && name_ok(t, n, i + 2, i + 2 + o) && wf_plain_x(
                t,
                n,
                i + 4 + o,
                end,
            ),
        }
    } else {
        wf_plain_x(t, n, i + 1, end)
    }
}

/// Whether the template is well-formed from `i` on.
fn wf_from_x(t: &str, n: usize, i: usize) -> (b: bool)
    requires
        n == t@.len(),
        i <= n,
    ensures
        b == wf_from(t@, i as int),
    decreases n - i,
{
    if i >= n {
        true
    } else if if_open_at_x(t, n, i) {
        match find_close(t, n, i + 6) {
            None => false,
            Some(o) => {
                if !name_ok(t, n, i + 6, i + 6 + o) {
                    return false;
                }
                match find_endif(t, n, i + 8 + o) {
                    None => false,
                    Some(p) => wf_plain_x(t, n, i + 8 + o, i + 8 + o + p) && wf_from_x(
                        t,
                        n,
                        i + 8 + o + p + 7,
                    ),
                }
            },
        }
    } else if endif_at_x(t, n, i) {
        false
    } else if open_at_x(t, n, i) {
        match find_close(t, n, i + 2) {
            None => false,
            Some(o) => name_ok(t, n, i + 2, i + 2 + o) && wf_from_x(t, n, i + 4 + o),
        }
    } else {
        wf_from_x(t, n, i + 1)
    }
}

/// Check the template grammar that `render` requires.
pub fn check_template(t: &str) -> (b: bool)
    ensures
        b == wf_template(t@),
{
    let n = t.unicode_len();
    wf_from_x(t, n, 0)
}

} // verus!
