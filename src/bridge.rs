//! Console messages forwarded from the rendered content, turned into log
//! records.
use vstd::prelude::*;
use vstd::string::*;
use serde_json::Value;
use crate::logger::Level;
use crate::text::str_eq;

verus! {

/// One element of a message's `args` array.
pub enum JsonArg {
    /// A JSON string, unquoted.
    Str(String),
    /// Any other JSON value, as its compact JSON text.
    Other(String),
}

/// The value of one top-level field of a message.
pub enum JsonField {
    Str(String),
    Array(Vec<JsonArg>),
    /// A number, boolean, null or object.
    Other,
}

/// The top-level fields of the JSON text `raw`, as serde_json parses it: `None`
/// when the text is not JSON; no fields when the value is not an object.
pub uninterp spec fn json_fields(raw: Seq<char>) -> Option<Vec<(String, JsonField)>>;

/// Relies on serde_json::from_str into a `Value`, and on `Value`'s `Display`
/// for the compact text of non-string array elements.
#[verifier::external_body]
fn parse_fields(raw: &str) -> (r: Option<Vec<(String, JsonField)>>)
    ensures
        r == json_fields(raw@),
{
    match serde_json::from_str::<Value>(raw) {
        Ok(Value::Object(m)) => Some(m.into_iter().map(|(k, v)| (k, match v {
            Value::String(s) => JsonField::Str(s),
            Value::Array(a) => JsonField::Array(a.into_iter().map(|e| match e {
                Value::String(s) => JsonArg::Str(s),
                e => JsonArg::Other(e.to_string()),
            }).collect()),
            _ => JsonField::Other,
        })).collect()),
        Ok(_) => Some(Vec::new()),
        Err(_) => None,
    }
}

/// Entry `i` is the first one named `key`.
pub open spec fn first_named(fields: Seq<(String, JsonField)>, key: Seq<char>, i: int) -> bool {
    &&& 0 <= i < fields.len()
    &&& fields[i].0@ == key
    &&& forall|j: int| 0 <= j < i ==> fields[j].0@ != key
}

/// The value of the first field named `key`.
pub open spec fn lookup(fields: Seq<(String, JsonField)>, key: Seq<char>) -> Option<JsonField> {
    if exists|i: int| first_named(fields, key, i) {
        Some(fields[choose|i: int| first_named(fields, key, i)].1)
    } else {
        None
    }
}

/// The text an argument contributes to the message.
pub open spec fn arg_text(a: JsonArg) -> Seq<char> {
    match a {
        JsonArg::Str(s) => s@,
        JsonArg::Other(t) => t@,
    }
}

/// The arguments' texts joined by single spaces.
pub open spec fn join_args(args: Seq<JsonArg>) -> Seq<char>
    decreases args.len(),
{
    if args.len() == 0 {
        Seq::empty()
    } else if args.len() == 1 {
        arg_text(args[0])
    } else {
        join_args(args.drop_last()) + " "@ + arg_text(args.last())
    }
}

/// `s` without its leading `"` characters.
pub open spec fn trim_start_quotes(s: Seq<char>) -> Seq<char>
    decreases s.len(),
{
    if s.len() > 0 && s[0] == '"' {
        trim_start_quotes(s.drop_first())
    } else {
        s
    }
}

/// `s` without its trailing `"` characters.
pub open spec fn trim_end_quotes(s: Seq<char>) -> Seq<char>
    decreases s.len(),
{
    if s.len() > 0 && s.last() == '"' {
        trim_end_quotes(s.drop_last())
    } else {
        s
    }
}

/// `s` without the `"` characters at either end.
pub open spec fn trim_quotes(s: Seq<char>) -> Seq<char> {
    trim_end_quotes(trim_start_quotes(s))
}

/// The severity a console level name maps to.
pub open spec fn level_named(level: Seq<char>) -> Level {
    if level == "error"@ {
        Level::Error
    } else if level == "warn"@ {
        Level::Warn
    } else if level == "info"@ {
        Level::Info
    } else {
        Level::Debug
    }
}

/// Whether the message's `type` field is the string `console`.
pub open spec fn is_console(fields: Seq<(String, JsonField)>) -> bool {
    match lookup(fields, "type"@) {
        Some(JsonField::Str(s)) => s@ == "console"@,
        _ => false,
    }
}

/// The message's `level` field when it is a string, else `log`.
pub open spec fn level_text(fields: Seq<(String, JsonField)>) -> Seq<char> {
    match lookup(fields, "level"@) {
        Some(JsonField::Str(s)) => s@,
        _ => "log"@,
    }
}

/// The message's `args` field when it is an array, else no arguments.
pub open spec fn args_of(fields: Seq<(String, JsonField)>) -> Seq<JsonArg> {
    match lookup(fields, "args"@) {
        Some(JsonField::Array(a)) => a@,
        _ => Seq::empty(),
    }
}

/// The record a message with these fields produces: none unless its type is
/// `console`.
pub open spec fn console_log(fields: Seq<(String, JsonField)>) -> Option<(Level, Seq<char>)> {
    if is_console(fields) {
        Some((level_named(level_text(fields)), "JS: "@ + trim_quotes(join_args(args_of(fields)))))
    } else {
        None
    }
}

/// A log record forwarded from the content.
pub struct ConsoleLog {
    pub level: Level,
    pub message: String,
}

/// The severity and message of a record, as sequences.
pub open spec fn log_view(r: Option<ConsoleLog>) -> Option<(Level, Seq<char>)> {
    match r {
        Some(c) => Some((c.level, c.message@)),
        None => None,
    }
}

fn lookup_field<'a>(fields: &'a Vec<(String, JsonField)>, key: &str) -> (r: Option<&'a JsonField>)
    ensures
        r matches Some(f) ==> lookup(fields@, key@) == Some(*f),
        r is None ==> lookup(fields@, key@) is None,
{
    let n = fields.len();
    let mut i: usize = 0;
    while i < n
        invariant
            n == fields@.len(),
            i <= n,
            forall|j: int| 0 <= j < i ==> fields@[j].0@ != key@,
        decreases n - i,
    {
        if str_eq(fields[i].0.as_str(), key) {
            proof {
                assert(first_named(fields@, key@, i as int));
                let k = choose|k: int| first_named(fields@, key@, k);
                assert(k == i) by {
                    if k < i {
                        assert(fields@[k].0@ != key@);
                    } else if k > i {
                        assert(fields@[i as int].0@ != key@);
                    }
                }
            }
            return Some(&fields[i].1);
        }
        i = i + 1;
    }
    proof {
        assert(!exists|k: int| first_named(fields@, key@, k));
    }
    None
}

fn join_arg_texts(args: &Vec<JsonArg>) -> (r: String)
    ensures
        r@ == join_args(args@),
{
    let mut out = String::new();
    let n = args.len();
    let mut i: usize = 0;
    while i < n
        invariant
            n == args@.len(),
            i <= n,
            out@ == join_args(args@.subrange(0, i as int)),
        decreases n - i,
    {
        let ghost before = args@.subrange(0, i as int);
        let ghost after = args@.subrange(0, i + 1);
        assert(after.drop_last() =~= before);
        if i > 0 {
            out.append(" ");
        }
        match &args[i] {
            JsonArg::Str(s) => out.append(s.as_str()),
            JsonArg::Other(t) => out.append(t.as_str()),
        }
        assert(out@ =~= join_args(after));
        i = i + 1;
    }
    assert(args@.subrange(0, n as int) =~= args@);
    out
}

fn trim_quotes_str(s: &str) -> (r: &str)
    ensures
        r@ == trim_quotes(s@),
{
    let n = s.unicode_len();
    let mut a: usize = 0;
    assert(s@.subrange(0, n as int) =~= s@);
    while a < n && s.get_char(a) == '"'
        invariant
            n == s@.len(),
            a <= n,
            trim_start_quotes(s@) == trim_start_quotes(s@.subrange(a as int, n as int)),
        decreases n - a,
    {
        let ghost t = s@.subrange(a as int, n as int);
        assert(t.drop_first() =~= s@.subrange(a + 1, n as int));
        a = a + 1;
    }
    assert(trim_start_quotes(s@) == s@.subrange(a as int, n as int));
    let mut b: usize = n;
    while b > a && s.get_char(b - 1) == '"'
        invariant
            n == s@.len(),
            a <= b <= n,
            trim_end_quotes(s@.subrange(a as int, n as int)) == trim_end_quotes(
                s@.subrange(a as int, b as int),
            ),
        decreases b - a,
    {
        let ghost t = s@.subrange(a as int, b as int);
        assert(t.drop_last() =~= s@.subrange(a as int, b - 1));
        b = b - 1;
    }
    assert(trim_end_quotes(s@.subrange(a as int, b as int)) == s@.subrange(a as int, b as int));
    s.substring_char(a, b)
}

fn level_from_name(level: &str) -> (r: Level)
    ensures
        r == level_named(level@),
{
    if str_eq(level, "error") {
        Level::Error
    } else if str_eq(level, "warn") {
        Level::Warn
    } else if str_eq(level, "info") {
        Level::Info
    } else {
        Level::Debug
    }
}

/// The record that a message with these top-level fields produces: `None`
/// unless its `type` is the string `console`; else the severity its `level`
/// names and `JS: ` followed by its arguments joined by spaces, with `"`
/// trimmed from both ends.
pub fn console_log_of(fields: &Vec<(String, JsonField)>) -> (r: Option<ConsoleLog>)
    ensures
        log_view(r) == console_log(fields@),
{
    let console = match lookup_field(fields, "type") {
        Some(JsonField::Str(t)) => str_eq(t.as_str(), "console"),
        _ => false,
    };
    if !console {
        return None;
    }
    let level = match lookup_field(fields, "level") {
        Some(JsonField::Str(l)) => level_from_name(l.as_str()),
        _ => level_from_name("log"),
    };
    let joined = match lookup_field(fields, "args") {
        Some(JsonField::Array(a)) => join_arg_texts(a),
        _ => {
            let none: Vec<JsonArg> = Vec::new();
            assert(none@ =~= Seq::<JsonArg>::empty());
            join_arg_texts(&none)
        },
    };
    let message = String::from_str("JS: ").concat(trim_quotes_str(joined.as_str()));
    Some(ConsoleLog { level, message })
}

/// Handles one raw message from the content: text that is not JSON, and
/// JSON whose `type` is not `console`, produce no record.
pub fn on_message(raw: &str) -> (r: Option<ConsoleLog>)
    ensures
        log_view(r) == match json_fields(raw@) {
            None => None,
            Some(fields) => console_log(fields@),
        },
{
    match parse_fields(raw) {
        None => None,
        Some(fields) => console_log_of(&fields),
    }
}

} // verus!
