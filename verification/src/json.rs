//! The structured form of one input line: a record of key/value pairs.
//!
//! A record's values are kept in the shape the pipeline reads: scalar
//! values carry their content directly, nested arrays and objects carry
//! their compact JSON text, since no later stage descends into them.

use vstd::prelude::*;

verus! {

/// One JSON value as the pipeline reads it.
pub enum JsonValue {
    Null,
    Bool(bool),
    /// The number's decimal text.
    Number(String),
    Str(String),
    /// The compact JSON text of a nested array.
    Array(String),
    /// The compact JSON text of a nested object.
    Object(String),
}

/// The mathematical form of a `JsonValue`.
pub enum JsonValueView {
    Null,
    Bool(bool),
    Number(Seq<char>),
    Str(Seq<char>),
    Array(Seq<char>),
    Object(Seq<char>),
}

impl View for JsonValue {
    type V = JsonValueView;

    open spec fn view(&self) -> JsonValueView {
        match self {
            JsonValue::Null => JsonValueView::Null,
            JsonValue::Bool(b) => JsonValueView::Bool(*b),
            JsonValue::Number(t) => JsonValueView::Number(t@),
            JsonValue::Str(s) => JsonValueView::Str(s@),
            JsonValue::Array(t) => JsonValueView::Array(t@),
            JsonValue::Object(t) => JsonValueView::Object(t@),
        }
    }
}

/// A parsed JSON-object line: its fields in input order.
pub struct Record {
    pub entries: Vec<(String, JsonValue)>,
}

impl View for Record {
    type V = Seq<(Seq<char>, JsonValueView)>;

    open spec fn view(&self) -> Seq<(Seq<char>, JsonValueView)> {
        Seq::new(self.entries@.len(), |i: int| (self.entries@[i].0@, self.entries@[i].1@))
    }
}

/// The value under the first entry of `rec` whose key is `key`, if any.
pub open spec fn record_lookup(
    rec: Seq<(Seq<char>, JsonValueView)>,
    key: Seq<char>,
) -> Option<JsonValueView>
    decreases rec.len(),
{
    if rec.len() == 0 {
        None
    } else if rec[0].0 == key {
        Some(rec[0].1)
    } else {
        record_lookup(rec.drop_first(), key)
    }
}

proof fn lemma_record_lookup_step(rec: Seq<(Seq<char>, JsonValueView)>, key: Seq<char>, i: int)
    requires
        0 <= i < rec.len(),
        rec.subrange(i, rec.len() as int)[0].0 != key,
    ensures
        record_lookup(rec.subrange(i, rec.len() as int), key) == record_lookup(
            rec.subrange(i + 1, rec.len() as int),
            key,
        ),
{
    assert(rec.subrange(i, rec.len() as int).drop_first() =~= rec.subrange(
        i + 1,
        rec.len() as int,
    ));
}

impl Record {
    /// The value of the first field named `key`, if the record has one.
    pub fn lookup(&self, key: &String) -> (r: Option<&JsonValue>)
        ensures
            match r {
                Some(v) => record_lookup(self@, key@) == Some(v@),
                None => record_lookup(self@, key@) is None,
            },
    {
        let n = self.entries.len();
        let mut i: usize = 0;
        proof {
            assert(self@.subrange(0, self@.len() as int) =~= self@);
        }
        while i < n
            invariant
                i <= n,
                n == self.entries@.len(),
                self@.len() == n,
                record_lookup(self@, key@) == record_lookup(
                    self@.subrange(i as int, n as int),
                    key@,
                ),
            decreases n - i,
        {
            if String::eq(&self.entries[i].0, key) {
                proof {
                    assert(self@.subrange(i as int, n as int)[0] == self@[i as int]);
                    assert(record_lookup(self@.subrange(i as int, n as int), key@) == Some(
                        self@[i as int].1,
                    ));
                }
                return Some(&self.entries[i].1);
            }
            proof {
                assert(self@.subrange(i as int, n as int)[0] == self@[i as int]);
                lemma_record_lookup_step(self@, key@, i as int);
            }
            i += 1;
        }
        proof {
            assert(self@.subrange(n as int, n as int) =~= Seq::<
                (Seq<char>, JsonValueView),
            >::empty());
        }
        None
    }

    /// Whether the record has a field named `key`.
    pub fn has_key(&self, key: &String) -> (r: bool)
        ensures
            r == (record_lookup(self@, key@) is Some),
    {
        let v = self.lookup(key);
        v.is_some()
    }
}

/// How a value reads when it stands alone in output: string content
/// without quotes, anything else as its JSON text.
pub open spec fn render_value_spec(v: JsonValueView) -> Seq<char> {
    match v {
        JsonValueView::Null => "null"@,
        JsonValueView::Bool(b) => if b {
            "true"@
        } else {
            "false"@
        },
        JsonValueView::Number(t) => t,
        JsonValueView::Str(s) => s,
        JsonValueView::Array(t) => t,
        JsonValueView::Object(t) => t,
    }
}

/// Renders one value for output.
pub fn render_value(v: &JsonValue) -> (r: String)
    ensures
        r@ == render_value_spec(v@),
{
    match v {
        JsonValue::Null => String::from_str("null"),
        JsonValue::Bool(b) => if *b {
            String::from_str("true")
        } else {
            String::from_str("false")
        },
        JsonValue::Number(t) => t.clone(),
        JsonValue::Str(s) => s.clone(),
        JsonValue::Array(t) => t.clone(),
        JsonValue::Object(t) => t.clone(),
    }
}

/// The escaped form of one character inside a JSON string literal.
pub open spec fn escape_char_spec(c: char) -> Seq<char> {
    if c == '"' {
        seq!['\\', '"']
    } else if c == '\\' {
        seq!['\\', '\\']
    } else if c == '\n' {
        seq!['\\', 'n']
    } else if c == '\r' {
        seq!['\\', 'r']
    } else if c == '\t' {
        seq!['\\', 't']
    } else {
        seq![c]
    }
}

/// The body of a JSON string literal holding the text `s`.
pub open spec fn escape_spec(s: Seq<char>) -> Seq<char>
    decreases s.len(),
{
    if s.len() == 0 {
        Seq::empty()
    } else {
        escape_char_spec(s[0]) + escape_spec(s.drop_first())
    }
}

proof fn lemma_escape_push(s: Seq<char>, c: char)
    ensures
        escape_spec(s.push(c)) == escape_spec(s) + escape_char_spec(c),
    decreases s.len(),
{
    if s.len() == 0 {
        assert(s.push(c).drop_first() =~= Seq::<char>::empty());
        assert(s.push(c)[0] == c);
        assert(escape_spec(s.push(c).drop_first()) == Seq::<char>::empty());
        assert(escape_spec(s.push(c)) == escape_char_spec(c) + escape_spec(
            s.push(c).drop_first(),
        ));
        assert(escape_spec(s.push(c)) =~= escape_spec(s) + escape_char_spec(c));
    } else {
        lemma_escape_push(s.drop_first(), c);
        assert(s.push(c).drop_first() =~= s.drop_first().push(c));
        assert(s.push(c)[0] == s[0]);
        assert(escape_spec(s.push(c)) == escape_char_spec(s[0]) + escape_spec(
            s.drop_first().push(c),
        ));
        assert(escape_spec(s) == escape_char_spec(s[0]) + escape_spec(s.drop_first()));
        assert(escape_spec(s.push(c)) =~= escape_spec(s) + escape_char_spec(c));
    }
}

/// Escapes `s` so it can stand between the quotes of a JSON string.
pub fn escape_json(s: &str) -> (r: String)
    ensures
        r@ == escape_spec(s@),
{
    let mut out = String::new();
    let n = s.unicode_len();
    let mut i: usize = 0;
    proof {
        assert(s@.subrange(0, 0) =~= Seq::<char>::empty());
    }
    while i < n
        invariant
            i <= n,
            n == s@.len(),
            out@ == escape_spec(s@.subrange(0, i as int)),
        decreases n - i,
    {
        let c = s.get_char(i);
        if c == '"' {
            out.append("\\\"");
            proof {
                reveal_strlit("\\\"");
            }
        } else if c == '\\' {
            out.append("\\\\");
            proof {
                reveal_strlit("\\\\");
            }
        } else if c == '\n' {
            out.append("\\n");
            proof {
                reveal_strlit("\\n");
            }
        } else if c == '\r' {
            out.append("\\r");
            proof {
                reveal_strlit("\\r");
            }
        } else if c == '\t' {
            out.append("\\t");
            proof {
                reveal_strlit("\\t");
            }
        } else {
            let piece = s.substring_char(i, i + 1);
            out.append(piece);
        }
        proof {
            lemma_escape_push(s@.subrange(0, i as int), s@[i as int]);
            assert(s@.subrange(0, i as int).push(s@[i as int]) =~= s@.subrange(0, i + 1));
            assert(s@.subrange(i as int, i + 1) =~= seq![s@[i as int]]);
        }
        i += 1;
    }
    proof {
        assert(s@.subrange(0, n as int) =~= s@);
    }
    out
}

/// The JSON text of a value inside the compact record rendering.
pub open spec fn value_json_text_spec(v: JsonValueView) -> Seq<char> {
    match v {
        JsonValueView::Str(s) => seq!['"'] + escape_spec(s) + seq!['"'],
        _ => render_value_spec(v),
    }
}

/// The compact text of one `key: value` field.
pub open spec fn entry_json_text_spec(entry: (Seq<char>, JsonValueView)) -> Seq<char> {
    seq!['"'] + escape_spec(entry.0) + "\":"@ + value_json_text_spec(entry.1)
}

/// The compact text of the first `n` fields, comma separated.
pub open spec fn compact_prefix_spec(rec: Seq<(Seq<char>, JsonValueView)>, n: int) -> Seq<char>
    decreases n,
{
    if n <= 0 {
        Seq::empty()
    } else if n == 1 {
        entry_json_text_spec(rec[0])
    } else {
        compact_prefix_spec(rec, n - 1) + seq![','] + entry_json_text_spec(rec[n - 1])
    }
}

/// The compact JSON text of a whole record.
pub open spec fn record_compact_spec(rec: Seq<(Seq<char>, JsonValueView)>) -> Seq<char> {
    seq!['{'] + compact_prefix_spec(rec, rec.len() as int) + seq!['}']
}

/// The JSON text of one value for the compact record rendering.
fn value_json_text(v: &JsonValue) -> (r: String)
    ensures
        r@ == value_json_text_spec(v@),
{
    match v {
        JsonValue::Str(s) => {
            let mut out = String::from_str("\"");
            let body = escape_json(s.as_str());
            out.append(body.as_str());
            out.append("\"");
            proof {
                reveal_strlit("\"");
                assert(out@ =~= value_json_text_spec(v@));
            }
            out
        },
        _ => render_value(v),
    }
}

/// Renders a whole record as one compact JSON object, used when no
/// message key matches.
pub fn record_compact(rec: &Record) -> (r: String)
    ensures
        r@ == record_compact_spec(rec@),
{
    let mut out = String::from_str("{");
    let n = rec.entries.len();
    let mut i: usize = 0;
    proof {
        reveal_strlit("{");
        reveal_strlit("}");
        reveal_strlit(",");
        reveal_strlit("\"");
        reveal_strlit("\":");
        assert(out@ =~= seq!['{'] + compact_prefix_spec(rec@, 0));
    }
    while i < n
        invariant
            i <= n,
            n == rec.entries@.len(),
            rec@.len() == n,
            out@ == seq!['{'] + compact_prefix_spec(rec@, i as int),
        decreases n - i,
    {
        if i > 0 {
            out.append(",");
            proof {
                reveal_strlit(",");
            }
        }
        out.append("\"");
        let key_body = escape_json(self_key(rec, i));
        out.append(key_body.as_str());
        out.append("\":");
        let val_text = value_json_text(&rec.entries[i].1);
        out.append(val_text.as_str());
        proof {
            reveal_strlit("\"");
            reveal_strlit("\":");
            assert(rec@[i as int] == (rec.entries@[i as int].0@, rec.entries@[i as int].1@));
            assert(out@ =~= seq!['{'] + compact_prefix_spec(rec@, i as int + 1));
        }
        i += 1;
    }
    out.append("}");
    proof {
        reveal_strlit("}");
        assert(out@ =~= record_compact_spec(rec@));
    }
    out
}

/// The key of field `i`, as a plain `&str`.
fn self_key(rec: &Record, i: usize) -> (r: &str)
    requires
        i < rec.entries@.len(),
    ensures
        r@ == rec@[i as int].0,
{
    rec.entries[i].0.as_str()
}

/// What parsing one line yields: the record when the line is one JSON
/// object, nothing otherwise. The result depends on the line's
/// characters alone.
pub uninterp spec fn json_record_of(line: Seq<char>) -> Option<Seq<(Seq<char>, JsonValueView)>>;

/// Relies on serde_json::from_str to parse one line, and on
/// serde_json::to_string for the compact text of nested values; both
/// depend on their argument alone.
#[verifier::external_body]
pub fn parse_record(line: &str) -> (r: Option<Record>)
    ensures
        match r {
            Some(rec) => json_record_of(line@) == Some(rec@),
            None => json_record_of(line@) is None,
        },
{
    match serde_json::from_str::<serde_json::Value>(line) {
        Ok(serde_json::Value::Object(map)) => Some(Record {
            entries: map.into_iter().map(|(k, v)| (k, match v {
                serde_json::Value::Null => JsonValue::Null,
                serde_json::Value::Bool(b) => JsonValue::Bool(b),
                serde_json::Value::Number(n) => JsonValue::Number(n.to_string()),
                serde_json::Value::String(s) => JsonValue::Str(s),
                a @ serde_json::Value::Array(_) => JsonValue::Array(serde_json::to_string(&a).unwrap_or_default()),
                o @ serde_json::Value::Object(_) => JsonValue::Object(serde_json::to_string(&o).unwrap_or_default()),
            })).collect(),
        }),
        _ => None,
    }
}

} // verus!
