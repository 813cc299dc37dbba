//! The per-exchange snapshot that placeholders are resolved against:
//! timing, request line, response status, and the two header mappings.

use vstd::prelude::*;
use vstd::arithmetic::div_mod::{lemma_div_is_ordered_by_denominator, lemma_div_nonincreasing, lemma_div_pos_is_pos};
use vstd::string::StrSliceExecFns;
use crate::text::dec_str;
use crate::text::u128_to_dec;

verus! {

/// ASCII case folding on a code point: the uppercase letters map to the
/// corresponding lowercase ones, everything else is left alone.
pub open spec fn fold_code(u: u32) -> u32 {
    if 65 <= u && u <= 90 {
        (u + 32) as u32
    } else {
        u
    }
}

/// True when `a` and `b` are equal up to ASCII case.
pub open spec fn eq_ignore_ascii_case(a: Seq<char>, b: Seq<char>) -> bool {
    a.len() == b.len() && forall|i: int|
        0 <= i < a.len() ==> fold_code(a[i] as u32) == fold_code(b[i] as u32)
}

/// Compares two strings up to ASCII case.
pub fn str_eq_ignore_ascii_case(a: &str, b: &str) -> (r: bool)
    ensures
        r == eq_ignore_ascii_case(a@, b@),
{
    let alen = a.unicode_len();
    let blen = b.unicode_len();
    if alen != blen {
        return false;
    }
    let mut i: usize = 0;
    while i < alen
        invariant
            alen == a@.len(),
            blen == b@.len(),
            alen == blen,
            i <= alen,
            forall|j: int| 0 <= j < i ==> fold_code(a@[j] as u32) == fold_code(b@[j] as u32),
        decreases alen - i,
    {
        let ac = a.get_char(i) as u32;
        let bc = b.get_char(i) as u32;
        let af = if 65 <= ac && ac <= 90 {
            ac + 32
        } else {
            ac
        };
        let bf = if 65 <= bc && bc <= 90 {
            bc + 32
        } else {
            bc
        };
        if af != bf {
            return false;
        }
        i += 1;
    }
    true
}

/// A multi-valued header mapping, as captured from an exchange. Names are
/// matched case-insensitively; the order of entries is the order in which
/// they were captured.
pub struct Headers {
    pub entries: Vec<(String, String)>,
}

impl View for Headers {
    type V = Seq<(Seq<char>, Seq<char>)>;

    open spec fn view(&self) -> Seq<(Seq<char>, Seq<char>)> {
        self.entries@.map_values(|p: (String, String)| (p.0@, p.1@))
    }
}

/// The first value stored under `name` (case-insensitively), or the empty
/// string when no entry has that name.
pub open spec fn lookup(hs: Seq<(Seq<char>, Seq<char>)>, name: Seq<char>) -> Seq<char>
    decreases hs.len(),
{
    if hs.len() == 0 {
        Seq::empty()
    } else if eq_ignore_ascii_case(hs[0].0, name) {
        hs[0].1
    } else {
        lookup(hs.drop_first(), name)
    }
}

impl Headers {
    pub fn new() -> (r: Headers)
        ensures
            r@ =~= Seq::<(Seq<char>, Seq<char>)>::empty(),
    {
        Headers { entries: Vec::new() }
    }

    /// Appends one name/value entry.
    pub fn push(&mut self, name: String, value: String)
        ensures
            final(self)@ =~= old(self)@.push((name@, value@)),
    {
        self.entries.push((name, value));
    }
}

/// Returns the first value of the header named `key`, matched
/// case-insensitively, or the empty string when it is absent.
pub fn header(headers: &Headers, key: &str) -> (r: String)
    ensures
        r@ == lookup(headers@, key@),
{
    let n = headers.entries.len();
    proof {
        assert(headers@.skip(0) =~= headers@);
    }
    let mut i: usize = 0;
    while i < n
        invariant
            n == headers.entries.len(),
            i <= n,
            lookup(headers@, key@) == lookup(headers@.skip(i as int), key@),
        decreases n - i,
    {
        proof {
            assert(headers@.skip(i as int)[0] == headers@[i as int]);
            assert(headers@[i as int] == (headers.entries@[i as int].0@, headers.entries@[i as int].1@));
        }
        let pair = &headers.entries[i];
        if str_eq_ignore_ascii_case(pair.0.as_str(), key) {
            return pair.1.clone();
        }
        proof {
            assert(headers@.skip(i as int).drop_first() =~= headers@.skip(i as int + 1));
        }
        i += 1;
    }
    proof {
        assert(headers@.skip(n as int) =~= Seq::<(Seq<char>, Seq<char>)>::empty());
    }
    String::new()
}

/// Case-insensitive matching of header names is insensitive to the case
/// of the queried name as well: two names equal up to ASCII case look up
/// the same value in any header mapping.
pub proof fn lemma_lookup_case_insensitive(
    hs: Seq<(Seq<char>, Seq<char>)>,
    n1: Seq<char>,
    n2: Seq<char>,
)
    requires
        eq_ignore_ascii_case(n1, n2),
    ensures
        lookup(hs, n1) == lookup(hs, n2),
    decreases hs.len(),
{
    if hs.len() > 0 {
        assert(eq_ignore_ascii_case(hs[0].0, n1) == eq_ignore_ascii_case(hs[0].0, n2));
        lemma_lookup_case_insensitive(hs.drop_first(), n1, n2);
    }
}

/// A name that no entry carries (up to ASCII case) looks up the empty
/// string.
pub proof fn lemma_lookup_missing(hs: Seq<(Seq<char>, Seq<char>)>, name: Seq<char>)
    requires
        forall|i: int| 0 <= i < hs.len() ==> !eq_ignore_ascii_case(hs[i].0, name),
    ensures
        lookup(hs, name) == Seq::<char>::empty(),
    decreases hs.len(),
{
    if hs.len() > 0 {
        assert(forall|i: int|
            0 <= i < hs.drop_first().len() ==> hs.drop_first()[i] == hs[i + 1]);
        lemma_lookup_missing(hs.drop_first(), name);
    }
}

/// The ghost image of a [`Context`]: every field as a mathematical value.
pub ghost struct CtxView {
    pub start_ns: int,
    pub end_ns: int,
    pub method: Seq<char>,
    pub uri: Seq<char>,
    pub status_code: int,
    pub request_headers: Seq<(Seq<char>, Seq<char>)>,
    pub response_headers: Seq<(Seq<char>, Seq<char>)>,
}

impl CtxView {
    /// What the capturing layer guarantees: the exchange ended no earlier
    /// than it started, and the status code is a valid HTTP status.
    pub open spec fn wf(self) -> bool {
        &&& 0 <= self.start_ns <= self.end_ns
        &&& 100 <= self.status_code <= 599
    }
}

/// The elapsed time of the exchange, in whole nanoseconds.
pub open spec fn dur_ns(c: CtxView) -> int {
    c.end_ns - c.start_ns
}

/// The elapsed time of the exchange, in whole milliseconds.
pub open spec fn dur_ms(c: CtxView) -> int {
    dur_ns(c) / 1_000_000
}

/// The elapsed time of the exchange, in whole seconds.
pub open spec fn dur_s(c: CtxView) -> int {
    dur_ns(c) / 1_000_000_000
}

/// Of the three duration renderings, the nanosecond count is the largest
/// and the second count the smallest, and none is negative.
pub proof fn lemma_duration_ordering(c: CtxView)
    requires
        c.wf(),
    ensures
        0 <= dur_s(c),
        dur_s(c) <= dur_ms(c),
        dur_ms(c) <= dur_ns(c),
{
    if dur_ns(c) > 0 {
        lemma_div_pos_is_pos(dur_ns(c), 1_000_000_000);
        lemma_div_is_ordered_by_denominator(dur_ns(c), 1_000_000, 1_000_000_000);
        lemma_div_nonincreasing(dur_ns(c), 1_000_000);
    }
}

/// The unit a `DURATION` placeholder asks for.
#[derive(Debug, PartialEq, Eq, Clone, Copy)]
pub enum DurationUnit {
    Nanoseconds,
    Milliseconds,
    Seconds,
}

/// The decimal rendering of the time elapsed between `start_ns` and
/// `end_ns` in the given unit.
pub open spec fn elapsed_text(start_ns: int, end_ns: int, unit: DurationUnit) -> Seq<char> {
    match unit {
        DurationUnit::Nanoseconds => dec_str((end_ns - start_ns) as nat),
        DurationUnit::Milliseconds => dec_str(((end_ns - start_ns) / 1_000_000) as nat),
        DurationUnit::Seconds => dec_str(((end_ns - start_ns) / 1_000_000_000) as nat),
    }
}

/// The same rendering, read off a context view.
pub open spec fn duration_text(c: CtxView, unit: DurationUnit) -> Seq<char> {
    elapsed_text(c.start_ns, c.end_ns, unit)
}

/// The per-exchange snapshot handed to the resolver. Instants are held as
/// nanosecond counts on one monotonic clock.
pub struct Context {
    pub start_ns: u128,
    pub end_ns: u128,
    pub method: String,
    pub uri: String,
    pub status_code: u16,
    pub request_headers: Headers,
    pub response_headers: Headers,
}

impl View for Context {
    type V = CtxView;

    open spec fn view(&self) -> CtxView {
        CtxView {
            start_ns: self.start_ns as int,
            end_ns: self.end_ns as int,
            method: self.method@,
            uri: self.uri@,
            status_code: self.status_code as int,
            request_headers: self.request_headers@,
            response_headers: self.response_headers@,
        }
    }
}

impl Context {
    pub fn new(
        start_ns: u128,
        end_ns: u128,
        method: String,
        uri: String,
        status_code: u16,
        request_headers: Headers,
        response_headers: Headers,
    ) -> (r: Context)
        requires
            start_ns <= end_ns,
            100 <= status_code <= 599,
        ensures
            r@.wf(),
            r@.start_ns == start_ns,
            r@.end_ns == end_ns,
            r@.method == method@,
            r@.uri == uri@,
            r@.status_code == status_code,
            r@.request_headers == request_headers@,
            r@.response_headers == response_headers@,
    {
        Context { start_ns, end_ns, method, uri, status_code, request_headers, response_headers }
    }
}

/// Renders the elapsed time between the two instants in the given unit,
/// as the decimal string a `DURATION` placeholder resolves to.
pub fn duration(start_ns: u128, end_ns: u128, unit: DurationUnit) -> (r: String)
    requires
        start_ns <= end_ns,
    ensures
        r@ == elapsed_text(start_ns as int, end_ns as int, unit),
{
    let elapsed = end_ns - start_ns;
    match unit {
        DurationUnit::Nanoseconds => u128_to_dec(elapsed),
        DurationUnit::Milliseconds => u128_to_dec(elapsed / 1_000_000),
        DurationUnit::Seconds => u128_to_dec(elapsed / 1_000_000_000),
    }
}

} // verus!
