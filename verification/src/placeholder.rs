//! The placeholder grammar: the closed set of exact tokens, the two
//! parametric header forms, and the classification of one candidate
//! string. A string that matches no form is an opaque literal.

use vstd::prelude::*;
use vstd::string::StrSliceExecFns;
use crate::text::{has_prefix, has_suffix, starts_with, ends_with, str_eq};

verus! {

pub open spec fn uuid_token() -> Seq<char> {
    "%{UUID()}"@
}

pub open spec fn duration_ns_token() -> Seq<char> {
    "%{DURATION(NS)}"@
}

pub open spec fn duration_ms_token() -> Seq<char> {
    "%{DURATION(MS)}"@
}

pub open spec fn duration_s_token() -> Seq<char> {
    "%{DURATION(S)}"@
}

pub open spec fn method_token() -> Seq<char> {
    "%{METHOD}"@
}

pub open spec fn uri_token() -> Seq<char> {
    "%{URI}"@
}

pub open spec fn status_token() -> Seq<char> {
    "%{STATUS_CODE}"@
}

pub open spec fn req_header_prefix() -> Seq<char> {
    "%{REQUEST_HEADER("@
}

pub open spec fn res_header_prefix() -> Seq<char> {
    "%{RESPONSE_HEADER("@
}

pub open spec fn header_suffix() -> Seq<char> {
    ")}"@
}

/// True when the whole of `s` is a request-header placeholder,
/// `%{REQUEST_HEADER(<name>)}` for some (possibly empty) `<name>`.
pub open spec fn is_req_header_form(s: Seq<char>) -> bool {
    &&& s.len() >= req_header_prefix().len() + header_suffix().len()
    &&& has_prefix(s, req_header_prefix())
    &&& has_suffix(s, header_suffix())
}

/// The `<name>` inside a request-header placeholder.
pub open spec fn req_header_name(s: Seq<char>) -> Seq<char> {
    s.subrange(req_header_prefix().len() as int, s.len() - header_suffix().len())
}

/// True when the whole of `s` is a response-header placeholder,
/// `%{RESPONSE_HEADER(<name>)}` for some (possibly empty) `<name>`.
pub open spec fn is_res_header_form(s: Seq<char>) -> bool {
    &&& s.len() >= res_header_prefix().len() + header_suffix().len()
    &&& has_prefix(s, res_header_prefix())
    &&& has_suffix(s, header_suffix())
}

/// The `<name>` inside a response-header placeholder.
pub open spec fn res_header_name(s: Seq<char>) -> Seq<char> {
    s.subrange(res_header_prefix().len() as int, s.len() - header_suffix().len())
}

/// True when `s` matches some recognized placeholder form, exact or
/// parametric.
pub open spec fn is_placeholder(s: Seq<char>) -> bool {
    ||| s == uuid_token()
    ||| s == duration_ns_token()
    ||| s == duration_ms_token()
    ||| s == duration_s_token()
    ||| s == method_token()
    ||| s == uri_token()
    ||| s == status_token()
    ||| is_req_header_form(s)
    ||| is_res_header_form(s)
}

/// The recognized forms are mutually exclusive: the exact tokens are
/// pairwise distinct, and none of them is a parametric header form.
pub proof fn lemma_forms_disjoint()
    ensures
        uuid_token() != duration_ns_token(),
        uuid_token() != duration_ms_token(),
        uuid_token() != duration_s_token(),
        uuid_token() != method_token(),
        uuid_token() != uri_token(),
        uuid_token() != status_token(),
        duration_ns_token() != duration_ms_token(),
        duration_ns_token() != duration_s_token(),
        duration_ns_token() != method_token(),
        duration_ns_token() != uri_token(),
        duration_ns_token() != status_token(),
        duration_ms_token() != duration_s_token(),
        duration_ms_token() != method_token(),
        duration_ms_token() != uri_token(),
        duration_ms_token() != status_token(),
        duration_s_token() != method_token(),
        duration_s_token() != uri_token(),
        duration_s_token() != status_token(),
        method_token() != uri_token(),
        method_token() != status_token(),
        uri_token() != status_token(),
        !is_req_header_form(uuid_token()),
        !is_req_header_form(duration_ns_token()),
        !is_req_header_form(duration_ms_token()),
        !is_req_header_form(duration_s_token()),
        !is_req_header_form(method_token()),
        !is_req_header_form(uri_token()),
        !is_req_header_form(status_token()),
        !is_res_header_form(uuid_token()),
        !is_res_header_form(duration_ns_token()),
        !is_res_header_form(duration_ms_token()),
        !is_res_header_form(duration_s_token()),
        !is_res_header_form(method_token()),
        !is_res_header_form(uri_token()),
        !is_res_header_form(status_token()),
        forall|s: Seq<char>| is_req_header_form(s) ==> !is_res_header_form(s),
{
    reveal_strlit("%{UUID()}");
    reveal_strlit("%{DURATION(NS)}");
    reveal_strlit("%{DURATION(MS)}");
    reveal_strlit("%{DURATION(S)}");
    reveal_strlit("%{METHOD}");
    reveal_strlit("%{URI}");
    reveal_strlit("%{STATUS_CODE}");
    reveal_strlit("%{REQUEST_HEADER(");
    reveal_strlit("%{RESPONSE_HEADER(");
    reveal_strlit(")}");
    assert(uuid_token().len() == 9);
    assert(duration_ns_token().len() == 15);
    assert(duration_ms_token().len() == 15);
    assert(duration_s_token().len() == 14);
    assert(method_token().len() == 9);
    assert(uri_token().len() == 6);
    assert(status_token().len() == 14);
    assert(req_header_prefix().len() == 17);
    assert(res_header_prefix().len() == 18);
    assert(header_suffix().len() == 2);
    assert(uuid_token()[2] == 'U' && method_token()[2] == 'M');
    assert(duration_ns_token()[11] == 'N' && duration_ms_token()[11] == 'M');
    assert(duration_s_token()[2] == 'D' && status_token()[2] == 'S');
    assert forall|s: Seq<char>| is_req_header_form(s) implies !is_res_header_form(s) by {
        if is_req_header_form(s) && is_res_header_form(s) {
            assert(s.subrange(0, req_header_prefix().len() as int)[4]
                == req_header_prefix()[4]);
            assert(s.subrange(0, res_header_prefix().len() as int)[4]
                == res_header_prefix()[4]);
        }
    }
}

/// What one candidate string turned out to be.
#[derive(Debug, PartialEq, Eq)]
pub enum Placeholder {
    Uuid,
    DurationNs,
    DurationMs,
    DurationS,
    Method,
    Uri,
    StatusCode,
    RequestHeader(String),
    ResponseHeader(String),
    Literal,
}

/// The contract of [`classify`]: which strings each classification
/// answer stands for.
pub open spec fn classified(s: Seq<char>, t: Placeholder) -> bool {
    match t {
        Placeholder::Uuid => s == uuid_token(),
        Placeholder::DurationNs => s == duration_ns_token(),
        Placeholder::DurationMs => s == duration_ms_token(),
        Placeholder::DurationS => s == duration_s_token(),
        Placeholder::Method => s == method_token(),
        Placeholder::Uri => s == uri_token(),
        Placeholder::StatusCode => s == status_token(),
        Placeholder::RequestHeader(name) => is_req_header_form(s) && name@ == req_header_name(s),
        Placeholder::ResponseHeader(name) => is_res_header_form(s) && name@ == res_header_name(s),
        Placeholder::Literal => !is_placeholder(s),
    }
}

/// Decides which placeholder form, if any, the whole of `s` matches,
/// and extracts the header name of a parametric form.
pub fn classify(s: &str) -> (t: Placeholder)
    ensures
        classified(s@, t),
{
    proof {
        reveal_strlit(")}");
        reveal_strlit("%{REQUEST_HEADER(");
        reveal_strlit("%{RESPONSE_HEADER(");
    }
    if str_eq(s, "%{UUID()}") {
        return Placeholder::Uuid;
    }
    if str_eq(s, "%{DURATION(NS)}") {
        return Placeholder::DurationNs;
    }
    if str_eq(s, "%{DURATION(MS)}") {
        return Placeholder::DurationMs;
    }
    if str_eq(s, "%{DURATION(S)}") {
        return Placeholder::DurationS;
    }
    if str_eq(s, "%{METHOD}") {
        return Placeholder::Method;
    }
    if str_eq(s, "%{URI}") {
        return Placeholder::Uri;
    }
    if str_eq(s, "%{STATUS_CODE}") {
        return Placeholder::StatusCode;
    }
    let len = s.unicode_len();
    if starts_with(s, "%{REQUEST_HEADER(") && ends_with(s, ")}") {
        let plen = "%{REQUEST_HEADER(".unicode_len();
        if len >= plen + 2 {
            let name = s.substring_char(plen, len - 2);
            return Placeholder::RequestHeader(name.to_owned());
        }
    }
    if starts_with(s, "%{RESPONSE_HEADER(") && ends_with(s, ")}") {
        let plen = "%{RESPONSE_HEADER(".unicode_len();
        if len >= plen + 2 {
            let name = s.substring_char(plen, len - 2);
            return Placeholder::ResponseHeader(name.to_owned());
        }
    }
    Placeholder::Literal
}

} // verus!
