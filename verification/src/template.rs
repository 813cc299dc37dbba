//! Template construction and validation. A structured template is any
//! [`Value`] tree; a flat template requires an object of scalars. Both
//! are checked once, at construction, so that resolving a validated
//! template can never fail: in particular, every string that looks like
//! a `DURATION` placeholder must name one of the recognized units.

use vstd::prelude::*;
use vstd::string::StrSliceExecFns;
use vstd::string::StringExecFns;
use crate::placeholder::{
    duration_ms_token, duration_ns_token, duration_s_token, header_suffix,
};
use crate::text::{
    dec_str, ends_with, has_prefix, has_suffix, i64_to_dec, int_str, starts_with, str_eq,
    u128_to_dec,
};
use crate::value::Value;

verus! {

broadcast use vstd::std_specs::vec::group_vec_axioms;

pub open spec fn duration_prefix() -> Seq<char> {
    "%{DURATION("@
}

/// True when the whole of `s` has the shape of a `DURATION` placeholder,
/// `%{DURATION(<unit>)}`, whatever `<unit>` is.
pub open spec fn is_duration_form(s: Seq<char>) -> bool {
    &&& s.len() >= duration_prefix().len() + header_suffix().len()
    &&& has_prefix(s, duration_prefix())
    &&& has_suffix(s, header_suffix())
}

/// True when `s` is acceptable in a validated template: a string shaped
/// like a `DURATION` placeholder must be one of the three recognized
/// duration tokens; every other string is acceptable as it stands.
pub open spec fn valid_template_str(s: Seq<char>) -> bool {
    is_duration_form(s) ==> (s == duration_ns_token() || s == duration_ms_token() || s
        == duration_s_token())
}

/// Tests [`valid_template_str`].
pub fn check_template_str(s: &str) -> (r: bool)
    ensures
        r == valid_template_str(s@),
{
    proof {
        reveal_strlit("%{DURATION(");
        reveal_strlit(")}");
    }
    if !(starts_with(s, "%{DURATION(") && ends_with(s, ")}") && s.unicode_len() >= 13) {
        return true;
    }
    str_eq(s, "%{DURATION(NS)}") || str_eq(s, "%{DURATION(MS)}") || str_eq(s, "%{DURATION(S)}")
}

/// True when every string in the tree satisfies [`valid_template_str`]:
/// the condition under which the template is accepted at construction.
pub open spec fn template_valid(t: Value) -> bool
    decreases t,
{
    match t {
        Value::Str(s) => valid_template_str(s@),
        Value::Array(a) => forall|i: int| 0 <= i < a@.len() ==> template_valid(#[trigger] a@[i]),
        Value::Object(m) => forall|i: int|
            0 <= i < m@.len() ==> template_valid((#[trigger] m@[i]).1),
        _ => true,
    }
}

/// One step of the path to a node in a structured template: an object
/// key or an array position.
#[derive(Debug, PartialEq, Eq)]
pub enum PathSeg {
    Key(String),
    Index(usize),
}

/// Why a template was rejected at construction.
#[derive(Debug, PartialEq, Eq)]
pub enum ConfigError {
    /// A flat template's top level was not an object.
    FlatNotObject,
    /// A flat template's field held a nested or null value; the field
    /// key is carried along.
    FlatValueNotScalar { key: String },
    /// A string shaped like a `DURATION` placeholder names none of the
    /// recognized units; the path to the offending string is carried
    /// along (for a flat template, the field key alone).
    UnknownDurationUnit { path: Vec<PathSeg> },
}

/// The rendering of one path step: an object key as it stands, an
/// array position in square brackets.
pub open spec fn path_seg_text(seg: PathSeg) -> Seq<char> {
    match seg {
        PathSeg::Key(k) => k@,
        PathSeg::Index(i) => "["@ + dec_str(i as nat) + "]"@,
    }
}

/// The rendering of a node path: the steps joined with dots.
pub open spec fn path_text(path: Seq<PathSeg>) -> Seq<char>
    decreases path.len(),
{
    if path.len() == 0 {
        Seq::empty()
    } else if path.len() == 1 {
        path_seg_text(path[0])
    } else {
        path_text(path.drop_last()) + "."@ + path_seg_text(path.last())
    }
}

/// The operator-facing description of a rejected template.
pub open spec fn message_text(e: ConfigError) -> Seq<char> {
    match e {
        ConfigError::FlatNotObject => "the flat log template must be an object of scalar fields"@,
        ConfigError::FlatValueNotScalar { key } => "the flat log template holds a non-scalar field: "@
            + key@,
        ConfigError::UnknownDurationUnit { path } => "unrecognized duration unit at: "@ + path_text(
            path@,
        ),
    }
}

impl ConfigError {
    /// Describes the error, naming the offending field path (for a
    /// structured template) or key (for a flat one).
    #[verifier::loop_isolation(false)]
    pub fn message(&self) -> (r: String)
        ensures
            r@ == message_text(*self),
    {
        match self {
            ConfigError::FlatNotObject => {
                "the flat log template must be an object of scalar fields".to_owned()
            },
            ConfigError::FlatValueNotScalar { key } => {
                let mut out = "the flat log template holds a non-scalar field: ".to_owned();
                out.append(key.as_str());
                out
            },
            ConfigError::UnknownDurationUnit { path } => {
                let mut out = "unrecognized duration unit at: ".to_owned();
                let n = path.len();
                let mut i: usize = 0;
                while i < n
                    invariant
                        n == path@.len(),
                        i <= n,
                        out@ == "unrecognized duration unit at: "@ + path_text(
                            path@.take(i as int),
                        ),
                    decreases n - i,
                {
                    if i > 0 {
                        out.append(".");
                    }
                    match &path[i] {
                        PathSeg::Key(k) => {
                            out.append(k.as_str());
                        },
                        PathSeg::Index(x) => {
                            out.append("[");
                            out.append(u128_to_dec(*x as u128).as_str());
                            out.append("]");
                        },
                    }
                    proof {
                        assert(path@.take(i as int + 1).drop_last() =~= path@.take(i as int));
                        assert(path@.take(i as int + 1).last() == path@[i as int]);
                        if i == 0 {
                            assert(path_text(path@.take(1)) == path_seg_text(path@[0]));
                        }
                        assert(out@ =~= "unrecognized duration unit at: "@ + path_text(
                            path@.take(i as int + 1),
                        ));
                    }
                    i += 1;
                }
                proof {
                    assert(path@.take(n as int) =~= path@);
                }
                out
            },
        }
    }
}

/// Checks a structured template, naming the path to the offending node
/// when it is rejected. Resolving a template this function accepts
/// cannot fail at request time.
/// True when following `path` from `t` reaches a string that
/// [`valid_template_str`] rejects: what the path carried by an
/// [`ConfigError::UnknownDurationUnit`] points at.
pub open spec fn path_names_invalid(t: Value, path: Seq<PathSeg>) -> bool
    decreases path.len(),
{
    if path.len() == 0 {
        t matches Value::Str(s) && !valid_template_str(s@)
    } else {
        match (t, path[0]) {
            (Value::Array(a), PathSeg::Index(i)) => (i as int) < a@.len() && path_names_invalid(
                a@[i as int],
                path.drop_first(),
            ),
            (Value::Object(m), PathSeg::Key(k)) => exists|i: int|
                0 <= i < m@.len() && (#[trigger] m@[i]).0@ == k@ && path_names_invalid(
                    m@[i].1,
                    path.drop_first(),
                ),
            _ => false,
        }
    }
}

#[verifier::loop_isolation(false)]
pub fn validate_template(t: &Value) -> (r: Result<(), ConfigError>)
    ensures
        r is Ok <==> template_valid(*t),
        (r matches Err(e) ==> e matches ConfigError::UnknownDurationUnit { path }
            && path_names_invalid(*t, path@)),
    decreases *t,
{
    match t {
        Value::Str(s) => {
            if check_template_str(s.as_str()) {
                Ok(())
            } else {
                Err(ConfigError::UnknownDurationUnit { path: Vec::new() })
            }
        },
        Value::Array(a) => {
            let n = a.len();
            let mut i: usize = 0;
            while i < n
                invariant
                    i <= n,
                    forall|j: int| 0 <= j < i ==> template_valid(#[trigger] a@[j]),
                decreases n - i,
            {
                match validate_template(&a[i]) {
                    Ok(()) => {},
                    Err(e) => {
                        let ghost inner = e->UnknownDurationUnit_path@;
                        let mut path = match e {
                            ConfigError::UnknownDurationUnit { path } => path,
                            _ => Vec::new(),
                        };
                        path.insert(0, PathSeg::Index(i));
                        proof {
                            assert(path@.drop_first() =~= inner);
                            assert(path_names_invalid(*t, path@));
                        }
                        return Err(ConfigError::UnknownDurationUnit { path });
                    },
                }
                i += 1;
            }
            Ok(())
        },
        Value::Object(m) => {
            let n = m.len();
            let mut i: usize = 0;
            while i < n
                invariant
                    i <= n,
                    forall|j: int| 0 <= j < i ==> template_valid((#[trigger] m@[j]).1),
                decreases n - i,
            {
                match validate_template(&m[i].1) {
                    Ok(()) => {},
                    Err(e) => {
                        let ghost inner = e->UnknownDurationUnit_path@;
                        let mut path = match e {
                            ConfigError::UnknownDurationUnit { path } => path,
                            _ => Vec::new(),
                        };
                        path.insert(0, PathSeg::Key(m[i].0.clone()));
                        proof {
                            assert(path@.drop_first() =~= inner);
                            assert(path@[0] matches PathSeg::Key(k) && m@[i as int].0@ == k@
                                && path_names_invalid(m@[i as int].1, path@.drop_first()));
                            assert(path_names_invalid(*t, path@));
                        }
                        return Err(ConfigError::UnknownDurationUnit { path });
                    },
                }
                i += 1;
            }
            Ok(())
        },
        _ => Ok(()),
    }
}

/// The text a scalar template value contributes to a flat template:
/// strings stand as they are, integers and booleans by their usual
/// renderings.
pub open spec fn scalar_text(v: Value) -> Seq<char> {
    match v {
        Value::Str(s) => s@,
        Value::Int(n) => int_str(n as int),
        Value::Bool(b) => if b {
            "true"@
        } else {
            "false"@
        },
        _ => Seq::empty(),
    }
}

/// A flat template (and, resolved, a flat record): an ordered mapping of
/// field name to text. Resolution and encoding keep the declared order.
#[derive(Debug, PartialEq, Eq)]
pub struct Plain {
    pub data: Vec<(String, String)>,
}

impl View for Plain {
    type V = Seq<(Seq<char>, Seq<char>)>;

    open spec fn view(&self) -> Seq<(Seq<char>, Seq<char>)> {
        self.data@.map_values(|p: (String, String)| (p.0@, p.1@))
    }
}

/// The entries a well-shaped flat template source turns into.
pub open spec fn flat_entries(m: Seq<(String, Value)>) -> Seq<(Seq<char>, Seq<char>)> {
    m.map_values(|p: (String, Value)| (p.0@, scalar_text(p.1)))
}

/// The condition under which a flat template source is accepted: an
/// object at top level, every field scalar, and every field's text a
/// valid template string.
pub open spec fn flat_template_ok(t: Value) -> bool {
    &&& t matches Value::Object(m)
    &&& forall|i: int| 0 <= i < m@.len() ==> (#[trigger] m@[i]).1.spec_is_scalar()
    &&& forall|i: int| 0 <= i < m@.len() ==> valid_template_str(scalar_text((#[trigger] m@[i]).1))
}

impl Plain {
    /// Builds a flat template from a parsed configuration value. The
    /// top level must be an object and every field a scalar; the fields
    /// keep their declared order. Field texts shaped like `DURATION`
    /// placeholders must name a recognized unit.
    #[verifier::loop_isolation(false)]
    pub fn from_value(v: &Value) -> (r: Result<Plain, ConfigError>)
        ensures
            r is Ok <==> flat_template_ok(*v),
            (r matches Ok(p) ==> v matches Value::Object(m) && p@ == flat_entries(m@)),
            ((r matches Err(e) && e is FlatNotObject) <==> !(*v is Object)),
            (r matches Err(ConfigError::FlatValueNotScalar { key })
                ==> v matches Value::Object(m) && exists|i: int|
                    0 <= i < m@.len() && (#[trigger] m@[i]).0@ == key@
                        && !m@[i].1.spec_is_scalar()),
            (r matches Err(ConfigError::UnknownDurationUnit { path })
                ==> v matches Value::Object(m) && path@.len() == 1 && (path@[0] matches PathSeg::Key(k)
                    && exists|i: int|
                        0 <= i < m@.len() && (#[trigger] m@[i]).0@ == k@
                            && m@[i].1.spec_is_scalar() && !valid_template_str(
                            scalar_text(m@[i].1),
                        ))),
    {
        let m = match v {
            Value::Object(m) => m,
            _ => {
                return Err(ConfigError::FlatNotObject);
            },
        };
        let n = m.len();
        let mut data: Vec<(String, String)> = Vec::new();
        let mut i: usize = 0;
        while i < n
            invariant
                i <= n,
                data@.len() == i,
                forall|j: int| 0 <= j < i ==> (#[trigger] m@[j]).1.spec_is_scalar(),
                forall|j: int|
                    0 <= j < i ==> valid_template_str(scalar_text((#[trigger] m@[j]).1)),
                data@.map_values(|p: (String, String)| (p.0@, p.1@)) =~= flat_entries(
                    m@.subrange(0, i as int),
                ),
            decreases n - i,
        {
            let key = m[i].0.clone();
            let text: String = match &m[i].1 {
                Value::Str(s) => s.clone(),
                Value::Int(x) => i64_to_dec(*x),
                Value::Bool(b) => {
                    proof {
                        reveal_strlit("true");
                        reveal_strlit("false");
                    }
                    if *b {
                        "true".to_owned()
                    } else {
                        "false".to_owned()
                    }
                },
                _ => {
                    proof {
                        assert(key@ == m@[i as int].0@ && !m@[i as int].1.spec_is_scalar());
                    }
                    return Err(ConfigError::FlatValueNotScalar { key });
                },
            };
            let ghost old_data = data@;
            if !check_template_str(text.as_str()) {
                let ghost key_chars = key@;
                let mut path: Vec<PathSeg> = Vec::new();
                path.push(PathSeg::Key(key));
                proof {
                    assert(path@[0] matches PathSeg::Key(k) && k@ == key_chars);
                    assert(m@[i as int].0@ == key_chars && m@[i as int].1.spec_is_scalar()
                        && !valid_template_str(scalar_text(m@[i as int].1)));
                }
                return Err(ConfigError::UnknownDurationUnit { path });
            }
            proof {
                assert(key@ == m@[i as int].0@);
                assert(text@ == scalar_text(m@[i as int].1));
            }
            data.push((key, text));
            proof {
                let f = (|p: (String, String)| (p.0@, p.1@));
                assert forall|j: int| 0 <= j < i + 1 implies data@.map_values(f)[j]
                    == flat_entries(m@.subrange(0, i as int + 1))[j] by {
                    assert(m@.subrange(0, i as int + 1)[j] == m@[j]);
                    if j < i {
                        assert(data@[j] == old_data[j]);
                        assert(old_data.map_values(f)[j] == f(old_data[j]));
                    }
                }
                assert(data@.map_values(f) =~= flat_entries(m@.subrange(0, i as int + 1)));
            }
            i += 1;
        }
        proof {
            assert(m@.subrange(0, n as int) =~= m@);
        }
        Ok(Plain { data })
    }
}

} // verus!
