//! Record encoders: a resolved structured record serializes to compact
//! JSON text (with the usual string escapes), a resolved flat record to
//! a line of space-separated `name="value"` tokens in declared order,
//! with a trailing space. Both are pure functions of the record.

use vstd::prelude::*;
use vstd::string::StrSliceExecFns;
use vstd::string::StringExecFns;
use crate::template::Plain;
use crate::text::{int_str, i64_to_dec};
use crate::value::Value;

verus! {

broadcast use vstd::std_specs::vec::group_vec_axioms;

/// The lowercase hexadecimal digit character for `d`.
pub open spec fn hex_char(d: nat) -> char {
    if d < 10 {
        crate::text::digit_char(d)
    } else if d == 10 {
        'a'
    } else if d == 11 {
        'b'
    } else if d == 12 {
        'c'
    } else if d == 13 {
        'd'
    } else if d == 14 {
        'e'
    } else {
        'f'
    }
}

/// How one character appears inside a JSON string: quotes and
/// backslashes are escaped, control characters get their short escapes
/// (`\b \t \n \f \r`) or a `\u00..` escape, and every other character
/// stands for itself.
pub open spec fn esc_char(ch: char) -> Seq<char> {
    let u = ch as u32;
    if ch == '"' {
        seq!['\\', '"']
    } else if ch == '\\' {
        seq!['\\', '\\']
    } else if u == 8 {
        seq!['\\', 'b']
    } else if u == 9 {
        seq!['\\', 't']
    } else if u == 10 {
        seq!['\\', 'n']
    } else if u == 12 {
        seq!['\\', 'f']
    } else if u == 13 {
        seq!['\\', 'r']
    } else if u < 32 {
        seq!['\\', 'u', '0', '0', hex_char((u / 16) as nat), hex_char((u % 16) as nat)]
    } else {
        seq![ch]
    }
}

/// The escaped body of a JSON string.
pub open spec fn escaped(s: Seq<char>) -> Seq<char>
    decreases s.len(),
{
    if s.len() == 0 {
        Seq::empty()
    } else {
        escaped(s.drop_last()) + esc_char(s.last())
    }
}

/// The JSON rendering of a string: the escaped body in double quotes.
pub open spec fn json_str_text(s: Seq<char>) -> Seq<char> {
    seq!['"'] + escaped(s) + seq!['"']
}

/// The compact JSON rendering of a record.
pub open spec fn json_text(v: Value) -> Seq<char>
    decreases v,
{
    match v {
        Value::Null => seq!['n', 'u', 'l', 'l'],
        Value::Bool(b) => if b {
            seq!['t', 'r', 'u', 'e']
        } else {
            seq!['f', 'a', 'l', 's', 'e']
        },
        Value::Int(n) => int_str(n as int),
        Value::Str(s) => json_str_text(s@),
        Value::Array(a) => seq!['['] + arr_items_text(a@) + seq![']'],
        Value::Object(m) => seq!['{'] + obj_items_text(m@) + seq!['}'],
    }
}

/// The comma-separated renderings of an array's elements.
pub open spec fn arr_items_text(xs: Seq<Value>) -> Seq<char>
    decreases xs,
{
    if xs.len() == 0 {
        Seq::empty()
    } else if xs.len() == 1 {
        json_text(xs[0])
    } else {
        arr_items_text(xs.drop_last()) + seq![','] + json_text(xs.last())
    }
}

/// The comma-separated `"key":value` renderings of an object's entries.
pub open spec fn obj_items_text(ms: Seq<(String, Value)>) -> Seq<char>
    decreases ms,
{
    if ms.len() == 0 {
        Seq::empty()
    } else if ms.len() == 1 {
        json_str_text(ms[0].0@) + seq![':'] + json_text(ms[0].1)
    } else {
        obj_items_text(ms.drop_last()) + seq![','] + json_str_text(ms.last().0@) + seq![':']
            + json_text(ms.last().1)
    }
}

/// Escaping distributes over concatenation.
proof fn lemma_escaped_concat(a: Seq<char>, b: Seq<char>)
    ensures
        escaped(a + b) == escaped(a) + escaped(b),
    decreases b.len(),
{
    if b.len() == 0 {
        assert(a + b =~= a);
        assert(escaped(a) + escaped(b) =~= escaped(a));
    } else {
        lemma_escaped_concat(a, b.drop_last());
        assert((a + b).drop_last() =~= a + b.drop_last());
        assert((a + b).last() == b.last());
        assert(escaped(a) + escaped(b.drop_last()) + esc_char(b.last()) =~= escaped(a) + escaped(
            b,
        ));
    }
}

/// A stretch of characters that escape to themselves passes through
/// escaping unchanged.
proof fn lemma_escaped_plain(s: Seq<char>)
    requires
        forall|i: int| 0 <= i < s.len() ==> esc_char(s[i]) =~= seq![s[i]],
    ensures
        escaped(s) == s,
    decreases s.len(),
{
    if s.len() > 0 {
        lemma_escaped_plain(s.drop_last());
        assert(escaped(s.drop_last()) + esc_char(s.last()) =~= s);
    }
}

/// The one-character string for a lowercase hexadecimal digit.
fn hex_digit_str(d: u32) -> (r: &'static str)
    requires
        d < 16,
    ensures
        r@ =~= seq![hex_char(d as nat)],
{
    proof {
        reveal_strlit("0");
        reveal_strlit("1");
        reveal_strlit("2");
        reveal_strlit("3");
        reveal_strlit("4");
        reveal_strlit("5");
        reveal_strlit("6");
        reveal_strlit("7");
        reveal_strlit("8");
        reveal_strlit("9");
        reveal_strlit("a");
        reveal_strlit("b");
        reveal_strlit("c");
        reveal_strlit("d");
        reveal_strlit("e");
        reveal_strlit("f");
    }
    match d {
        0 => "0",
        1 => "1",
        2 => "2",
        3 => "3",
        4 => "4",
        5 => "5",
        6 => "6",
        7 => "7",
        8 => "8",
        9 => "9",
        10 => "a",
        11 => "b",
        12 => "c",
        13 => "d",
        14 => "e",
        _ => "f",
    }
}

/// Appends the escaped body of `s` to `out`.
#[verifier::loop_isolation(false)]
fn write_escaped(out: &mut String, s: &str)
    ensures
        final(out)@ == old(out)@ + escaped(s@),
{
    proof {
        reveal_strlit("\\\"");
        reveal_strlit("\\\\");
        reveal_strlit("\\b");
        reveal_strlit("\\t");
        reveal_strlit("\\n");
        reveal_strlit("\\f");
        reveal_strlit("\\r");
        reveal_strlit("\\u00");
    }
    let n = s.unicode_len();
    let mut i: usize = 0;
    let mut run_start: usize = 0;
    while i < n
        invariant
            n == s@.len(),
            run_start <= i <= n,
            out@ == old(out)@ + escaped(s@.take(run_start as int)),
            forall|j: int| run_start <= j < i ==> esc_char(s@[j]) =~= seq![s@[j]],
        decreases n - i,
    {
        let c = s.get_char(i);
        let u = c as u32;
        let escape: Option<&'static str> = if c == '"' {
            Some("\\\"")
        } else if c == '\\' {
            Some("\\\\")
        } else if u == 8 {
            Some("\\b")
        } else if u == 9 {
            Some("\\t")
        } else if u == 10 {
            Some("\\n")
        } else if u == 12 {
            Some("\\f")
        } else if u == 13 {
            Some("\\r")
        } else {
            None
        };
        match escape {
            Some(e) => {
                proof {
                    flush_run(out@, old(out)@, s@, run_start as int, i as int);
                }
                out.append(s.substring_char(run_start, i));
                out.append(e);
                proof {
                    assert(s@.take(i as int + 1).drop_last() =~= s@.take(i as int));
                    assert(out@ =~= old(out)@ + escaped(s@.take(i as int + 1)));
                }
                run_start = i + 1;
            },
            None => {
                if u < 32 {
                    proof {
                        flush_run(out@, old(out)@, s@, run_start as int, i as int);
                    }
                    out.append(s.substring_char(run_start, i));
                    out.append("\\u00");
                    out.append(hex_digit_str(u / 16));
                    out.append(hex_digit_str(u % 16));
                    proof {
                        assert(s@.take(i as int + 1).drop_last() =~= s@.take(i as int));
                        assert(out@ =~= old(out)@ + escaped(s@.take(i as int + 1)));
                    }
                    run_start = i + 1;
                } else {
                    proof {
                        assert(esc_char(s@[i as int]) =~= seq![s@[i as int]]);
                    }
                }
            },
        }
        i += 1;
    }
    proof {
        flush_run(out@, old(out)@, s@, run_start as int, n as int);
    }
    out.append(s.substring_char(run_start, n));
    proof {
        assert(s@.take(n as int) =~= s@);
        assert(out@ =~= old(out)@ + escaped(s@));
    }
}

/// Appends the compact JSON rendering of `v` to `out`.
#[verifier::loop_isolation(false)]
#[verifier::rlimit(60)]
fn write_json(out: &mut String, v: &Value)
    ensures
        final(out)@ == old(out)@ + json_text(*v),
    decreases *v,
{
    proof {
        reveal_strlit("null");
        reveal_strlit("true");
        reveal_strlit("false");
        reveal_strlit("\"");
        reveal_strlit("[");
        reveal_strlit("]");
        reveal_strlit("{");
        reveal_strlit("}");
        reveal_strlit(",");
        reveal_strlit(":");
    }
    match v {
        Value::Null => {
            out.append("null");
            proof {
                assert(out@ =~= old(out)@ + json_text(*v));
            }
        },
        Value::Bool(b) => {
            if *b {
                out.append("true");
            } else {
                out.append("false");
            }
            proof {
                assert(out@ =~= old(out)@ + json_text(*v));
            }
        },
        Value::Int(n) => {
            let text = i64_to_dec(*n);
            out.append(text.as_str());
        },
        Value::Str(s) => {
            out.append("\"");
            write_escaped(out, s.as_str());
            out.append("\"");
            proof {
                assert(out@ =~= old(out)@ + json_text(*v));
            }
        },
        Value::Array(a) => {
            out.append("[");
            let n = a.len();
            let mut i: usize = 0;
            while i < n
                invariant
                    n == a@.len(),
                    i <= n,
                    out@ == old(out)@ + seq!['['] + arr_items_text(a@.take(i as int)),
                decreases n - i,
            {
                if i > 0 {
                    out.append(",");
                }
                write_json(out, &a[i]);
                proof {
                    assert(a@.take(i as int + 1).drop_last() =~= a@.take(i as int));
                    assert(a@.take(i as int + 1).last() == a@[i as int]);
                    if i == 0 {
                        assert(arr_items_text(a@.take(1)) == json_text(a@[0]));
                    }
                    assert(out@ =~= old(out)@ + seq!['['] + arr_items_text(
                        a@.take(i as int + 1),
                    ));
                }
                i += 1;
            }
            out.append("]");
            proof {
                assert(a@.take(n as int) =~= a@);
                assert(out@ =~= old(out)@ + json_text(*v));
            }
        },
        Value::Object(m) => {
            out.append("{");
            let n = m.len();
            let mut i: usize = 0;
            while i < n
                invariant
                    n == m@.len(),
                    i <= n,
                    out@ == old(out)@ + seq!['{'] + obj_items_text(m@.take(i as int)),
                decreases n - i,
            {
                if i > 0 {
                    out.append(",");
                }
                out.append("\"");
                write_escaped(out, m[i].0.as_str());
                out.append("\"");
                out.append(":");
                write_json(out, &m[i].1);
                proof {
                    assert(m@.take(i as int + 1).drop_last() =~= m@.take(i as int));
                    assert(m@.take(i as int + 1).last() == m@[i as int]);
                    if i == 0 {
                        assert(obj_items_text(m@.take(1)) == json_str_text(m@[0].0@) + seq![':']
                            + json_text(m@[0].1));
                    }
                    assert(out@ =~= old(out)@ + seq!['{'] + obj_items_text(
                        m@.take(i as int + 1),
                    ));
                }
                i += 1;
            }
            out.append("}");
            proof {
                assert(m@.take(n as int) =~= m@);
                assert(out@ =~= old(out)@ + json_text(*v));
            }
        },
    }
}

/// Serializes a resolved structured record as compact JSON text.
pub fn encode_json(v: &Value) -> (r: String)
    ensures
        r@ == json_text(*v),
{
    let mut out = String::new();
    write_json(&mut out, v);
    proof {
        assert(Seq::<char>::empty() + json_text(*v) =~= json_text(*v));
    }
    out
}

/// The text one field contributes to a flat log line:
/// `name="value" `, with the trailing separator space.
pub open spec fn plain_entry_text(k: Seq<char>, v: Seq<char>) -> Seq<char> {
    k + seq!['=', '"'] + v + seq!['"', ' ']
}

/// The flat rendering of a resolved flat record: the fields in declared
/// order, each as `name="value" `.
pub open spec fn plain_text(es: Seq<(Seq<char>, Seq<char>)>) -> Seq<char>
    decreases es.len(),
{
    if es.len() == 0 {
        Seq::empty()
    } else {
        plain_text(es.drop_last()) + plain_entry_text(es.last().0, es.last().1)
    }
}

/// Serializes a resolved flat record as one `name="value"` line.
#[verifier::loop_isolation(false)]
pub fn encode_plain(p: &Plain) -> (r: String)
    ensures
        r@ == plain_text(p@),
{
    proof {
        reveal_strlit("=\"");
        reveal_strlit("\" ");
    }
    let mut out = String::new();
    let n = p.data.len();
    let mut i: usize = 0;
    while i < n
        invariant
            n == p.data@.len(),
            i <= n,
            out@ == plain_text(p@.take(i as int)),
        decreases n - i,
    {
        out.append(p.data[i].0.as_str());
        out.append("=\"");
        out.append(p.data[i].1.as_str());
        out.append("\" ");
        proof {
            assert(p@.take(i as int + 1).drop_last() =~= p@.take(i as int));
            assert(p@.take(i as int + 1).last() == p@[i as int]);
            assert(out@ =~= plain_text(p@.take(i as int + 1)));
        }
        i += 1;
    }
    proof {
        assert(p@.take(n as int) =~= p@);
    }
    out
}

/// The JSON rendering depends only on the record's deep view: two
/// records that [`crate::resolve::value_view_eq`] relates encode to the
/// same text.
pub proof fn lemma_json_text_respects_view_eq(a: Value, b: Value)
    requires
        crate::resolve::value_view_eq(a, b),
    ensures
        json_text(a) == json_text(b),
    decreases a,
{
    match (a, b) {
        (Value::Array(x), Value::Array(y)) => {
            lemma_arr_items_respect_view_eq(x@, y@);
        },
        (Value::Object(x), Value::Object(y)) => {
            lemma_obj_items_respect_view_eq(x@, y@);
        },
        _ => {},
    }
}

proof fn lemma_arr_items_respect_view_eq(x: Seq<Value>, y: Seq<Value>)
    requires
        x.len() == y.len(),
        forall|i: int| 0 <= i < x.len() ==> crate::resolve::value_view_eq(#[trigger] x[i], y[i]),
    ensures
        arr_items_text(x) == arr_items_text(y),
    decreases x,
{
    if x.len() == 1 {
        lemma_json_text_respects_view_eq(x[0], y[0]);
    } else if x.len() > 1 {
        lemma_arr_items_respect_view_eq(x.drop_last(), y.drop_last());
        lemma_json_text_respects_view_eq(x.last(), y.last());
    }
}

proof fn lemma_obj_items_respect_view_eq(x: Seq<(String, Value)>, y: Seq<(String, Value)>)
    requires
        x.len() == y.len(),
        forall|i: int|
            0 <= i < x.len() ==> (#[trigger] x[i]).0@ == y[i].0@ && crate::resolve::value_view_eq(
                x[i].1,
                y[i].1,
            ),
    ensures
        obj_items_text(x) == obj_items_text(y),
    decreases x,
{
    if x.len() == 1 {
        lemma_json_text_respects_view_eq(x[0].1, y[0].1);
    } else if x.len() > 1 {
        lemma_obj_items_respect_view_eq(x.drop_last(), y.drop_last());
        lemma_json_text_respects_view_eq(x.last().1, y.last().1);
    }
}

/// When the characters from `run_start` to `i` all escape to
/// themselves, appending that stretch to text that already renders the
/// prefix gives the rendering of the first `i` characters.
proof fn flush_run(cur: Seq<char>, base: Seq<char>, s: Seq<char>, run_start: int, i: int)
    requires
        0 <= run_start <= i <= s.len(),
        cur == base + escaped(s.take(run_start)),
        forall|j: int| run_start <= j < i ==> esc_char(s[j]) =~= seq![s[j]],
    ensures
        cur + s.subrange(run_start, i) == base + escaped(s.take(i)),
{
    let run = s.subrange(run_start, i);
    assert(forall|j: int| 0 <= j < run.len() ==> esc_char(run[j]) =~= seq![run[j]]);
    lemma_escaped_plain(run);
    assert(s.take(i) =~= s.take(run_start) + run);
    lemma_escaped_concat(s.take(run_start), run);
    assert(cur + run =~= base + escaped(s.take(i)));
}

} // verus!
