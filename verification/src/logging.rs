//! The logging engine behind the middleware: both templates, validated
//! once at construction, and the per-exchange step that resolves the
//! selected one against a context and encodes the log line.

use vstd::prelude::*;
use crate::config::LoggingMode;
use crate::context::{Context, CtxView};
use crate::encode::{encode_json, encode_plain, json_text, plain_text};
use crate::resolve::{plain_resolved, resolve, resolve_plain, resolved};
use crate::template::{
    flat_entries, flat_template_ok, template_valid, validate_template, ConfigError, Plain,
};
use crate::value::Value;

verus! {

/// The Logging middleware's engine: the mode and the two parsed,
/// validated templates, built once at startup and shared read-only
/// across exchanges.
pub struct Logging {
    pub mode: LoggingMode,
    pub json: Value,
    pub plain: Plain,
}

/// What a log line for one exchange may read: the text of some
/// admissible resolution of the selected template, encoded for that
/// mode. Everything but generated identifiers is determined.
pub open spec fn logged_line(l: Logging, c: CtxView, line: Seq<char>) -> bool {
    match l.mode {
        LoggingMode::Json => exists|r: Value| resolved(l.json, c, r) && line == json_text(r),
        LoggingMode::Plain => exists|r: Seq<(Seq<char>, Seq<char>)>|
            plain_resolved(l.plain@, c, r) && line == plain_text(r),
    }
}

impl Logging {
    /// Builds the engine from the configured mode and the two template
    /// sources, validating both up front: a structured source whose
    /// `DURATION` strings all name recognized units is accepted as it
    /// stands, and the flat source must be an object of scalar,
    /// likewise valid fields. After this check, per-exchange resolution
    /// cannot fail.
    pub fn new(mode: LoggingMode, json: Value, plain_source: &Value) -> (r: Result<
        Logging,
        ConfigError,
    >)
        ensures
            (r is Ok <==> template_valid(json) && flat_template_ok(*plain_source)),
            (r matches Ok(l) ==> l.mode == mode && l.json == json && (plain_source matches Value::Object(m)
                && l.plain@ == flat_entries(m@))),
    {
        match validate_template(&json) {
            Ok(()) => {},
            Err(e) => {
                return Err(e);
            },
        }
        let plain = match Plain::from_value(plain_source) {
            Ok(p) => p,
            Err(e) => {
                return Err(e);
            },
        };
        Ok(Logging { mode, json, plain })
    }

    /// Resolves the selected template against one exchange's context
    /// and encodes the log line handed to the sink.
    pub fn log_line(&self, ctx: &Context) -> (line: String)
        requires
            ctx@.wf(),
        ensures
            logged_line(*self, ctx@, line@),
    {
        match self.mode {
            LoggingMode::Json => {
                let record = resolve(&self.json, ctx);
                let line = encode_json(&record);
                proof {
                    assert(resolved(self.json, ctx@, record) && line@ == json_text(record));
                }
                line
            },
            LoggingMode::Plain => {
                let record = resolve_plain(&self.plain, ctx);
                let line = encode_plain(&record);
                proof {
                    assert(plain_resolved(self.plain@, ctx@, record@) && line@ == plain_text(
                        record@,
                    ));
                }
                line
            },
        }
    }
}

/// For a template without `UUID` placeholders, the whole log line is
/// determined by the template and the context: any two lines logged for
/// one exchange read the same, run after run.
pub proof fn lemma_line_determined(l: Logging, c: CtxView, line1: Seq<char>, line2: Seq<char>)
    requires
        l.mode is Json ==> crate::resolve::uuid_free(l.json),
        l.mode is Plain ==> forall|i: int|
            0 <= i < l.plain@.len() ==> (#[trigger] l.plain@[i]).1
                != crate::placeholder::uuid_token(),
        logged_line(l, c, line1),
        logged_line(l, c, line2),
    ensures
        line1 == line2,
{
    match l.mode {
        LoggingMode::Json => {
            let r1 = choose|r: Value| resolved(l.json, c, r) && line1 == json_text(r);
            let r2 = choose|r: Value| resolved(l.json, c, r) && line2 == json_text(r);
            crate::resolve::lemma_resolution_deterministic(l.json, c, r1, r2);
            crate::resolve::lemma_uuid_free_deterministic(l.json, r1, r2);
            crate::encode::lemma_json_text_respects_view_eq(r1, r2);
        },
        LoggingMode::Plain => {
            let r1 = choose|r: Seq<(Seq<char>, Seq<char>)>|
                plain_resolved(l.plain@, c, r) && line1 == plain_text(r);
            let r2 = choose|r: Seq<(Seq<char>, Seq<char>)>|
                plain_resolved(l.plain@, c, r) && line2 == plain_text(r);
            crate::resolve::lemma_plain_resolution_deterministic(l.plain@, c, r1, r2);
            assert(r1 =~= r2);
        },
    }
}

} // verus!
