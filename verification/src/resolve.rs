//! The resolver: given a template and a context, replace every
//! placeholder string by its runtime value, leaving everything else
//! untouched. Resolution is specified as a relation, because a `UUID`
//! placeholder draws a fresh random identifier on every resolution; at
//! every other position the relation pins the result down exactly.

use vstd::prelude::*;
use crate::context::{Context, CtxView, DurationUnit, duration, duration_text, header, lookup};
use crate::placeholder::{
    classify, duration_ms_token, duration_ns_token, duration_s_token, is_placeholder,
    is_req_header_form, is_res_header_form, lemma_forms_disjoint, method_token,
    req_header_name, res_header_name, status_token, uri_token, uuid_token, Placeholder,
};
use crate::template::Plain;
use crate::text::{dec_str, u128_to_dec};
use crate::value::Value;

verus! {

broadcast use vstd::std_specs::vec::group_vec_axioms;

/// True of a lowercase hexadecimal digit character.
pub open spec fn is_hex_lower(ch: char) -> bool {
    ('0' <= ch && ch <= '9') || ('a' <= ch && ch <= 'f')
}

/// The shape of a hyphenated version-4 identifier: 36 characters,
/// hyphens at positions 8, 13, 18 and 23, lowercase hexadecimal digits
/// everywhere else, the version nibble `4`, and a variant nibble in
/// `8`..`b`.
pub open spec fn is_uuid_text(s: Seq<char>) -> bool {
    &&& s.len() == 36
    &&& s[8] == '-'
    &&& s[13] == '-'
    &&& s[18] == '-'
    &&& s[23] == '-'
    &&& forall|i: int|
        0 <= i < 36 && i != 8 && i != 13 && i != 18 && i != 23 ==> is_hex_lower(#[trigger] s[i])
    &&& s[14] == '4'
    &&& (s[19] == '8' || s[19] == '9' || s[19] == 'a' || s[19] == 'b')
}

/// Generates a fresh random identifier.
///
/// Relies on `uuid::Uuid::new_v4` and the `Display` rendering of `Uuid`:
/// `new_v4` fills 16 random bytes and forces the version nibble to 4 and
/// the variant nibble to the RFC 4122 range, and `to_string` renders the
/// hyphenated lowercase hexadecimal form. Nothing is assumed about which
/// identifier comes back: the value is random.
#[verifier::external_body]
pub(crate) fn uuid() -> (r: String)
    ensures
        is_uuid_text(r@),
{
    ::uuid::Uuid::new_v4().to_string()
}

/// How one candidate string resolves in structured mode: `out` is an
/// admissible resolution of `s` against the context `c`. Every form but
/// `UUID` determines `out` uniquely; a `UUID` placeholder admits any
/// well-formed identifier. A string matching no form passes through
/// unchanged, and `STATUS_CODE` resolves to a number, not a string.
pub open spec fn str_resolved(s: Seq<char>, c: CtxView, out: Value) -> bool {
    if s == uuid_token() {
        out matches Value::Str(u) && is_uuid_text(u@)
    } else if s == duration_ns_token() {
        out matches Value::Str(r) && r@ == duration_text(c, DurationUnit::Nanoseconds)
    } else if s == duration_ms_token() {
        out matches Value::Str(r) && r@ == duration_text(c, DurationUnit::Milliseconds)
    } else if s == duration_s_token() {
        out matches Value::Str(r) && r@ == duration_text(c, DurationUnit::Seconds)
    } else if s == method_token() {
        out matches Value::Str(r) && r@ == c.method
    } else if s == uri_token() {
        out matches Value::Str(r) && r@ == c.uri
    } else if s == status_token() {
        out matches Value::Int(n) && n == c.status_code
    } else if is_req_header_form(s) {
        out matches Value::Str(r) && r@ == lookup(c.request_headers, req_header_name(s))
    } else if is_res_header_form(s) {
        out matches Value::Str(r) && r@ == lookup(c.response_headers, res_header_name(s))
    } else {
        out matches Value::Str(r) && r@ == s
    }
}

/// How one candidate string resolves in flat mode. The only difference
/// from structured mode is that `STATUS_CODE` resolves to the decimal
/// rendering of the status, since a flat record holds only strings.
pub open spec fn flat_str_resolved(s: Seq<char>, c: CtxView, out: Seq<char>) -> bool {
    if s == uuid_token() {
        is_uuid_text(out)
    } else if s == duration_ns_token() {
        out == duration_text(c, DurationUnit::Nanoseconds)
    } else if s == duration_ms_token() {
        out == duration_text(c, DurationUnit::Milliseconds)
    } else if s == duration_s_token() {
        out == duration_text(c, DurationUnit::Seconds)
    } else if s == method_token() {
        out == c.method
    } else if s == uri_token() {
        out == c.uri
    } else if s == status_token() {
        out == dec_str(c.status_code as nat)
    } else if is_req_header_form(s) {
        out == lookup(c.request_headers, req_header_name(s))
    } else if is_res_header_form(s) {
        out == lookup(c.response_headers, res_header_name(s))
    } else {
        out == s
    }
}

/// Resolves one candidate string in structured mode.
pub fn resolve_str(s: &String, ctx: &Context) -> (out: Value)
    requires
        ctx@.wf(),
    ensures
        str_resolved(s@, ctx@, out),
{
    proof {
        lemma_forms_disjoint();
    }
    match classify(s.as_str()) {
        Placeholder::Uuid => Value::Str(uuid()),
        Placeholder::DurationNs => Value::Str(
            duration(ctx.start_ns, ctx.end_ns, DurationUnit::Nanoseconds),
        ),
        Placeholder::DurationMs => Value::Str(
            duration(ctx.start_ns, ctx.end_ns, DurationUnit::Milliseconds),
        ),
        Placeholder::DurationS => Value::Str(
            duration(ctx.start_ns, ctx.end_ns, DurationUnit::Seconds),
        ),
        Placeholder::Method => Value::Str(ctx.method.clone()),
        Placeholder::Uri => Value::Str(ctx.uri.clone()),
        Placeholder::StatusCode => Value::Int(ctx.status_code as i64),
        Placeholder::RequestHeader(name) => Value::Str(
            header(&ctx.request_headers, name.as_str()),
        ),
        Placeholder::ResponseHeader(name) => Value::Str(
            header(&ctx.response_headers, name.as_str()),
        ),
        Placeholder::Literal => Value::Str(s.clone()),
    }
}

/// Resolves one candidate string in flat mode.
pub fn resolve_flat_str(s: &String, ctx: &Context) -> (out: String)
    requires
        ctx@.wf(),
    ensures
        flat_str_resolved(s@, ctx@, out@),
{
    proof {
        lemma_forms_disjoint();
    }
    match classify(s.as_str()) {
        Placeholder::Uuid => uuid(),
        Placeholder::DurationNs => duration(ctx.start_ns, ctx.end_ns, DurationUnit::Nanoseconds),
        Placeholder::DurationMs => duration(ctx.start_ns, ctx.end_ns, DurationUnit::Milliseconds),
        Placeholder::DurationS => duration(ctx.start_ns, ctx.end_ns, DurationUnit::Seconds),
        Placeholder::Method => ctx.method.clone(),
        Placeholder::Uri => ctx.uri.clone(),
        Placeholder::StatusCode => u128_to_dec(ctx.status_code as u128),
        Placeholder::RequestHeader(name) => header(&ctx.request_headers, name.as_str()),
        Placeholder::ResponseHeader(name) => header(&ctx.response_headers, name.as_str()),
        Placeholder::Literal => s.clone(),
    }
}

/// How a whole structured template resolves: arrays keep their length
/// and order, objects keep their keys in order, non-string scalars pass
/// through unchanged, and every string leaf resolves as
/// [`str_resolved`] says.
pub open spec fn resolved(t: Value, c: CtxView, out: Value) -> bool
    decreases t,
{
    match t {
        Value::Str(s) => str_resolved(s@, c, out),
        Value::Array(a) => {
            &&& out matches Value::Array(b)
            &&& b@.len() == a@.len()
            &&& forall|i: int| 0 <= i < a@.len() ==> resolved(#[trigger] a@[i], c, b@[i])
        },
        Value::Object(m) => {
            &&& out matches Value::Object(mo)
            &&& mo@.len() == m@.len()
            &&& forall|i: int|
                0 <= i < m@.len() ==> (#[trigger] mo@[i]).0@ == m@[i].0@ && resolved(
                    m@[i].1,
                    c,
                    mo@[i].1,
                )
        },
        _ => out == t,
    }
}

/// Resolves a structured template against a context, producing the
/// record for one exchange.
#[verifier::loop_isolation(false)]
pub fn resolve(t: &Value, ctx: &Context) -> (out: Value)
    requires
        ctx@.wf(),
    ensures
        resolved(*t, ctx@, out),
    decreases *t,
{
    match t {
        Value::Null => Value::Null,
        Value::Bool(b) => Value::Bool(*b),
        Value::Int(n) => Value::Int(*n),
        Value::Str(s) => resolve_str(s, ctx),
        Value::Array(a) => {
            let n = a.len();
            let mut b: Vec<Value> = Vec::new();
            let mut i: usize = 0;
            while i < n
                invariant
                    ctx@.wf(),
                    n == a@.len(),
                    i <= n,
                    b@.len() == i,
                    forall|j: int| 0 <= j < i ==> resolved(#[trigger] a@[j], ctx@, b@[j]),
                decreases n - i,
            {
                let r = resolve(&a[i], ctx);
                b.push(r);
                i += 1;
            }
            Value::Array(b)
        },
        Value::Object(m) => {
            let n = m.len();
            let mut mo: Vec<(String, Value)> = Vec::new();
            let mut i: usize = 0;
            while i < n
                invariant
                    ctx@.wf(),
                    n == m@.len(),
                    i <= n,
                    mo@.len() == i,
                    forall|j: int|
                        0 <= j < i ==> (#[trigger] mo@[j]).0@ == m@[j].0@ && resolved(
                            m@[j].1,
                            ctx@,
                            mo@[j].1,
                        ),
                decreases n - i,
            {
                let key = m[i].0.clone();
                let r = resolve(&m[i].1, ctx);
                mo.push((key, r));
                i += 1;
            }
            Value::Object(mo)
        },
    }
}

/// How a whole flat template resolves: every field keeps its name and
/// its position, and its text resolves as [`flat_str_resolved`] says.
pub open spec fn plain_resolved(
    t: Seq<(Seq<char>, Seq<char>)>,
    c: CtxView,
    r: Seq<(Seq<char>, Seq<char>)>,
) -> bool {
    &&& r.len() == t.len()
    &&& forall|i: int|
        0 <= i < t.len() ==> (#[trigger] r[i]).0 == t[i].0 && flat_str_resolved(t[i].1, c, r[i].1)
}

/// Resolves a flat template against a context, keeping the declared
/// field order.
#[verifier::loop_isolation(false)]
pub fn resolve_plain(p: &Plain, ctx: &Context) -> (r: Plain)
    requires
        ctx@.wf(),
    ensures
        plain_resolved(p@, ctx@, r@),
{
    let n = p.data.len();
    let mut data: Vec<(String, String)> = Vec::new();
    let mut i: usize = 0;
    while i < n
        invariant
            i <= n,
            data@.len() == i,
            forall|j: int|
                0 <= j < i ==> (#[trigger] data@[j]).0@ == p@[j].0 && flat_str_resolved(
                    p@[j].1,
                    ctx@,
                    data@[j].1@,
                ),
        decreases n - i,
    {
        let key = p.data[i].0.clone();
        let val = resolve_flat_str(&p.data[i].1, ctx);
        data.push((key, val));
        i += 1;
    }
    Plain { data }
}

/// Deep equality of two resolved records: equal shape, with strings
/// compared by their characters.
pub open spec fn value_view_eq(a: Value, b: Value) -> bool
    decreases a,
{
    match (a, b) {
        (Value::Null, Value::Null) => true,
        (Value::Bool(x), Value::Bool(y)) => x == y,
        (Value::Int(x), Value::Int(y)) => x == y,
        (Value::Str(x), Value::Str(y)) => x@ == y@,
        (Value::Array(x), Value::Array(y)) => {
            &&& x@.len() == y@.len()
            &&& forall|i: int| 0 <= i < x@.len() ==> value_view_eq(#[trigger] x@[i], y@[i])
        },
        (Value::Object(x), Value::Object(y)) => {
            &&& x@.len() == y@.len()
            &&& forall|i: int|
                0 <= i < x@.len() ==> (#[trigger] x@[i]).0@ == y@[i].0@ && value_view_eq(
                    x@[i].1,
                    y@[i].1,
                )
        },
        _ => false,
    }
}

/// How two resolutions of one template may differ: nowhere, except that
/// each `UUID` placeholder may have drawn a different identifier — and
/// whatever was drawn is a well-formed identifier on both sides.
pub open spec fn same_except_generated(t: Value, r1: Value, r2: Value) -> bool
    decreases t,
{
    match t {
        Value::Str(s) => {
            if s@ == uuid_token() {
                &&& r1 matches Value::Str(u1) && is_uuid_text(u1@)
                &&& r2 matches Value::Str(u2) && is_uuid_text(u2@)
            } else {
                value_view_eq(r1, r2)
            }
        },
        Value::Array(a) => {
            &&& r1 matches Value::Array(b1)
            &&& r2 matches Value::Array(b2)
            &&& b1@.len() == a@.len()
            &&& b2@.len() == a@.len()
            &&& forall|i: int|
                0 <= i < a@.len() ==> same_except_generated(#[trigger] a@[i], b1@[i], b2@[i])
        },
        Value::Object(m) => {
            &&& r1 matches Value::Object(mo1)
            &&& r2 matches Value::Object(mo2)
            &&& mo1@.len() == m@.len()
            &&& mo2@.len() == m@.len()
            &&& forall|i: int|
                0 <= i < m@.len() ==> (#[trigger] mo1@[i]).0@ == m@[i].0@ && mo2@[i].0@
                    == m@[i].0@ && same_except_generated(m@[i].1, mo1@[i].1, mo2@[i].1)
        },
        _ => value_view_eq(r1, r2),
    }
}

/// A string that matches no recognized placeholder form resolves to
/// itself, character for character, whatever the template and the
/// context around it.
pub proof fn lemma_literal_passes_through(s: Seq<char>, c: CtxView, out: Value)
    requires
        !is_placeholder(s),
        str_resolved(s, c, out),
    ensures
        (out matches Value::Str(r) && r@ == s),
{
}

/// The flat-mode counterpart of [`lemma_literal_passes_through`].
pub proof fn lemma_literal_passes_through_flat(s: Seq<char>, c: CtxView, out: Seq<char>)
    requires
        !is_placeholder(s),
        flat_str_resolved(s, c, out),
    ensures
        out == s,
{
}

/// Resolution is deterministic except for generated identifiers: two
/// resolutions of one structured template against one context agree
/// everywhere but at `UUID` placeholders, and there both hold
/// well-formed identifiers.
pub proof fn lemma_resolution_deterministic(t: Value, c: CtxView, r1: Value, r2: Value)
    requires
        resolved(t, c, r1),
        resolved(t, c, r2),
    ensures
        same_except_generated(t, r1, r2),
    decreases t,
{
    match t {
        Value::Str(s) => {},
        Value::Array(a) => {
            let b1 = r1->Array_0;
            let b2 = r2->Array_0;
            assert forall|i: int| 0 <= i < a@.len() implies same_except_generated(
                #[trigger] a@[i],
                b1@[i],
                b2@[i],
            ) by {
                lemma_resolution_deterministic(a@[i], c, b1@[i], b2@[i]);
            }
        },
        Value::Object(m) => {
            let mo1 = r1->Object_0;
            let mo2 = r2->Object_0;
            assert forall|i: int| 0 <= i < m@.len() implies (#[trigger] mo1@[i]).0@ == m@[i].0@
                && mo2@[i].0@ == m@[i].0@ && same_except_generated(
                m@[i].1,
                mo1@[i].1,
                mo2@[i].1,
            ) by {
                lemma_resolution_deterministic(m@[i].1, c, mo1@[i].1, mo2@[i].1);
            }
        },
        _ => {},
    }
}

/// The flat-mode counterpart of [`lemma_resolution_deterministic`]:
/// field names and positions agree, and so does every resolved text
/// whose template text is not the `UUID` token.
pub proof fn lemma_plain_resolution_deterministic(
    t: Seq<(Seq<char>, Seq<char>)>,
    c: CtxView,
    r1: Seq<(Seq<char>, Seq<char>)>,
    r2: Seq<(Seq<char>, Seq<char>)>,
)
    requires
        plain_resolved(t, c, r1),
        plain_resolved(t, c, r2),
    ensures
        r1.len() == t.len(),
        r2.len() == t.len(),
        forall|i: int| 0 <= i < t.len() ==> (#[trigger] r1[i]).0 == t[i].0 && r2[i].0 == t[i].0,
        forall|i: int|
            0 <= i < t.len() && (#[trigger] t[i]).1 != uuid_token() ==> r1[i].1 == r2[i].1,
        forall|i: int|
            0 <= i < t.len() && (#[trigger] t[i]).1 == uuid_token() ==> is_uuid_text(r1[i].1)
                && is_uuid_text(r2[i].1),
{
}

/// True when no string in the tree is the `UUID` token: resolving such
/// a template draws nothing at random.
pub open spec fn uuid_free(t: Value) -> bool
    decreases t,
{
    match t {
        Value::Str(s) => s@ != uuid_token(),
        Value::Array(a) => forall|i: int| 0 <= i < a@.len() ==> uuid_free(#[trigger] a@[i]),
        Value::Object(m) => forall|i: int| 0 <= i < m@.len() ==> uuid_free((#[trigger] m@[i]).1),
        _ => true,
    }
}

/// A template without `UUID` placeholders resolves to one record, up to
/// deep equality: the generated-field exception of
/// [`lemma_resolution_deterministic`] vanishes.
pub proof fn lemma_uuid_free_deterministic(t: Value, r1: Value, r2: Value)
    requires
        uuid_free(t),
        same_except_generated(t, r1, r2),
    ensures
        value_view_eq(r1, r2),
    decreases t,
{
    match t {
        Value::Array(a) => {
            let b1 = r1->Array_0;
            let b2 = r2->Array_0;
            assert forall|i: int| 0 <= i < b1@.len() implies value_view_eq(
                #[trigger] b1@[i],
                b2@[i],
            ) by {
                lemma_uuid_free_deterministic(a@[i], b1@[i], b2@[i]);
            }
        },
        Value::Object(m) => {
            let mo1 = r1->Object_0;
            let mo2 = r2->Object_0;
            assert forall|i: int| 0 <= i < mo1@.len() implies (#[trigger] mo1@[i]).0@
                == mo2@[i].0@ && value_view_eq(mo1@[i].1, mo2@[i].1) by {
                lemma_uuid_free_deterministic(m@[i].1, mo1@[i].1, mo2@[i].1);
            }
        },
        _ => {},
    }
}

/// Resolution preserves the shape of a structured template: array
/// lengths and order, object key sequences, and every non-string
/// scalar; only string leaves are rewritten.
pub open spec fn same_structure(t: Value, r: Value) -> bool
    decreases t,
{
    match t {
        Value::Str(_) => true,
        Value::Array(a) => {
            &&& r matches Value::Array(b)
            &&& b@.len() == a@.len()
            &&& forall|i: int| 0 <= i < a@.len() ==> same_structure(#[trigger] a@[i], b@[i])
        },
        Value::Object(m) => {
            &&& r matches Value::Object(mo)
            &&& mo@.len() == m@.len()
            &&& forall|i: int|
                0 <= i < m@.len() ==> (#[trigger] mo@[i]).0@ == m@[i].0@ && same_structure(
                    m@[i].1,
                    mo@[i].1,
                )
        },
        _ => r == t,
    }
}

/// Resolving a structured template preserves its structure.
pub proof fn lemma_structure_preserved(t: Value, c: CtxView, r: Value)
    requires
        resolved(t, c, r),
    ensures
        same_structure(t, r),
    decreases t,
{
    match t {
        Value::Array(a) => {
            let b = r->Array_0;
            assert forall|i: int| 0 <= i < a@.len() implies same_structure(
                #[trigger] a@[i],
                b@[i],
            ) by {
                lemma_structure_preserved(a@[i], c, b@[i]);
            }
        },
        Value::Object(m) => {
            let mo = r->Object_0;
            assert forall|i: int| 0 <= i < m@.len() implies (#[trigger] mo@[i]).0@ == m@[i].0@
                && same_structure(m@[i].1, mo@[i].1) by {
                lemma_structure_preserved(m@[i].1, c, mo@[i].1);
            }
        },
        _ => {},
    }
}

/// Header resolution is insensitive to the case of the name written in
/// the placeholder (and, through [`lookup`], to the case the header was
/// stored under): two request-header placeholders whose names agree up
/// to ASCII case resolve to the same text.
pub proof fn lemma_header_case_insensitive(
    s1: Seq<char>,
    s2: Seq<char>,
    c: CtxView,
    o1: Value,
    o2: Value,
)
    requires
        is_req_header_form(s1),
        is_req_header_form(s2),
        crate::context::eq_ignore_ascii_case(req_header_name(s1), req_header_name(s2)),
        str_resolved(s1, c, o1),
        str_resolved(s2, c, o2),
    ensures
        (o1 matches Value::Str(r1) && o2 matches Value::Str(r2) && r1@ == r2@),
{
    lemma_forms_disjoint();
    crate::context::lemma_lookup_case_insensitive(
        c.request_headers,
        req_header_name(s1),
        req_header_name(s2),
    );
}

/// A header placeholder naming a header that the exchange did not carry
/// resolves to the empty string.
pub proof fn lemma_missing_header_empty(s: Seq<char>, c: CtxView, out: Value)
    requires
        is_res_header_form(s),
        str_resolved(s, c, out),
        forall|i: int|
            0 <= i < c.response_headers.len() ==> !crate::context::eq_ignore_ascii_case(
                (#[trigger] c.response_headers[i]).0,
                res_header_name(s),
            ),
    ensures
        (out matches Value::Str(r) && r@ == Seq::<char>::empty()),
{
    lemma_forms_disjoint();
    crate::context::lemma_lookup_missing(c.response_headers, res_header_name(s));
}

} // verus!
