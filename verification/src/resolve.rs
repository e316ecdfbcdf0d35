//! Key resolution: which record fields supply the message, the time
//! and the level, which feed substitution, and which are emitted as
//! additional values.

use vstd::prelude::*;

use crate::json::JsonValue;
use crate::json::JsonValueView;
use crate::json::Record;
use crate::json::record_compact;
use crate::json::record_compact_spec;
use crate::json::record_lookup;
use crate::json::render_value;
use crate::json::render_value_spec;
use crate::settings::LogSettings;
use crate::settings::LogSettingsView;
use crate::settings::strings_view;
use crate::substitution::pairs_view;

verus! {

/// The fields one record resolves to.
pub struct ResolvedFields {
    /// The message text; never missing.
    pub message: String,
    /// The timestamp text, when a time key matched.
    pub time: Option<String>,
    /// The level text, when a level key matched.
    pub level: Option<String>,
    /// Context key/value pairs, for substitution only.
    pub context: Vec<(String, String)>,
    /// Key/rendered-value pairs emitted after the main line, in the
    /// record's own field order.
    pub additional: Vec<(String, String)>,
}

/// The mathematical form of `ResolvedFields`.
pub struct ResolvedFieldsView {
    pub message: Seq<char>,
    pub time: Option<Seq<char>>,
    pub level: Option<Seq<char>>,
    pub context: Seq<(Seq<char>, Seq<char>)>,
    pub additional: Seq<(Seq<char>, Seq<char>)>,
}

impl View for ResolvedFields {
    type V = ResolvedFieldsView;

    open spec fn view(&self) -> ResolvedFieldsView {
        ResolvedFieldsView {
            message: self.message@,
            time: match self.time {
                Some(t) => Some(t@),
                None => None,
            },
            level: match self.level {
                Some(l) => Some(l@),
                None => None,
            },
            context: pairs_view(self.context@),
            additional: pairs_view(self.additional@),
        }
    }
}

/// The first candidate key that the record has, in candidate order.
pub open spec fn first_present_key(
    keys: Seq<Seq<char>>,
    rec: Seq<(Seq<char>, JsonValueView)>,
) -> Option<Seq<char>>
    decreases keys.len(),
{
    if keys.len() == 0 {
        None
    } else if record_lookup(rec, keys[0]) is Some {
        Some(keys[0])
    } else {
        first_present_key(keys.drop_first(), rec)
    }
}

/// The rendered value under the resolved key, if a key was resolved.
pub open spec fn rendered_under_key(
    rec: Seq<(Seq<char>, JsonValueView)>,
    key: Option<Seq<char>>,
) -> Option<Seq<char>> {
    match key {
        None => None,
        Some(k) => match record_lookup(rec, k) {
            Some(v) => Some(render_value_spec(v)),
            None => None,
        },
    }
}

/// The resolved message: the first message key's value, or the whole
/// record rendered compactly when no message key matches.
pub open spec fn message_spec(
    rec: Seq<(Seq<char>, JsonValueView)>,
    s: LogSettingsView,
) -> Seq<char> {
    match rendered_under_key(rec, first_present_key(s.message_keys, rec)) {
        Some(m) => m,
        None => record_compact_spec(rec),
    }
}

/// The resolved time, when a time key matches.
pub open spec fn time_spec(rec: Seq<(Seq<char>, JsonValueView)>, s: LogSettingsView) -> Option<
    Seq<char>,
> {
    rendered_under_key(rec, first_present_key(s.time_keys, rec))
}

/// The resolved level, when a level key matches.
pub open spec fn level_spec(rec: Seq<(Seq<char>, JsonValueView)>, s: LogSettingsView) -> Option<
    Seq<char>,
> {
    rendered_under_key(rec, first_present_key(s.level_keys, rec))
}

/// The context pairs of the first `n` context keys: each key the
/// record has, with its rendered value, in context-key order.
pub open spec fn context_prefix_spec(
    keys: Seq<Seq<char>>,
    rec: Seq<(Seq<char>, JsonValueView)>,
    n: int,
) -> Seq<(Seq<char>, Seq<char>)>
    decreases n,
{
    if n <= 0 {
        Seq::empty()
    } else {
        let prev = context_prefix_spec(keys, rec, n - 1);
        match record_lookup(rec, keys[n - 1]) {
            Some(v) => prev.push((keys[n - 1], render_value_spec(v))),
            None => prev,
        }
    }
}

/// All the context pairs.
pub open spec fn context_spec(
    keys: Seq<Seq<char>>,
    rec: Seq<(Seq<char>, JsonValueView)>,
) -> Seq<(Seq<char>, Seq<char>)> {
    context_prefix_spec(keys, rec, keys.len() as int)
}

/// Whether the field named `key` belongs to the additional values:
/// not the key that supplied the message, time or level, and admitted
/// by the dump-all or explicit-inclusion rule.
pub open spec fn additional_included(
    rec: Seq<(Seq<char>, JsonValueView)>,
    s: LogSettingsView,
    key: Seq<char>,
) -> bool {
    first_present_key(s.message_keys, rec) != Some(key) && first_present_key(s.time_keys, rec)
        != Some(key) && first_present_key(s.level_keys, rec) != Some(key) && (if s.dump_all {
        !s.excluded_values.contains(key)
    } else {
        s.additional_values.contains(key)
    })
}

/// The additional pairs among the record's first `n` fields, in the
/// record's own order.
pub open spec fn additional_prefix_spec(
    rec: Seq<(Seq<char>, JsonValueView)>,
    s: LogSettingsView,
    n: int,
) -> Seq<(Seq<char>, Seq<char>)>
    decreases n,
{
    if n <= 0 {
        Seq::empty()
    } else {
        let prev = additional_prefix_spec(rec, s, n - 1);
        if 0 <= n - 1 < rec.len() && additional_included(rec, s, rec[n - 1].0) {
            prev.push((rec[n - 1].0, render_value_spec(rec[n - 1].1)))
        } else {
            prev
        }
    }
}

/// What one record resolves to against one settings value.
pub open spec fn resolve_spec(
    rec: Seq<(Seq<char>, JsonValueView)>,
    s: LogSettingsView,
) -> ResolvedFieldsView {
    ResolvedFieldsView {
        message: message_spec(rec, s),
        time: time_spec(rec, s),
        level: level_spec(rec, s),
        context: context_spec(s.context_keys, rec),
        additional: additional_prefix_spec(rec, s, rec.len() as int),
    }
}

/// Resolution is a function of the record and the settings alone, so
/// resolving the same record against the same settings a second time
/// yields identical fields.
pub proof fn lemma_resolution_idempotent(
    rec: Seq<(Seq<char>, JsonValueView)>,
    s: LogSettingsView,
    f1: ResolvedFieldsView,
    f2: ResolvedFieldsView,
)
    requires
        f1 == resolve_spec(rec, s),
        f2 == resolve_spec(rec, s),
    ensures
        f1 == f2,
{
}

/// The first candidate key the record has.
fn first_present(keys: &Vec<String>, rec: &Record) -> (r: Option<String>)
    ensures
        match r {
            Some(k) => first_present_key(strings_view(keys@), rec@) == Some(k@),
            None => first_present_key(strings_view(keys@), rec@) is None,
        },
{
    let ghost kv = strings_view(keys@);
    let n = keys.len();
    let mut i: usize = 0;
    proof {
        assert(kv.subrange(0, kv.len() as int) =~= kv);
    }
    while i < n
        invariant
            i <= n,
            n == keys@.len(),
            kv == strings_view(keys@),
            kv.len() == n,
            first_present_key(kv, rec@) == first_present_key(
                kv.subrange(i as int, n as int),
                rec@,
            ),
        decreases n - i,
    {
        proof {
            assert(kv.subrange(i as int, n as int)[0] == kv[i as int]);
            assert(kv[i as int] == keys@[i as int]@);
        }
        if rec.has_key(&keys[i]) {
            return Some(keys[i].clone());
        }
        proof {
            assert(kv.subrange(i as int, n as int).drop_first() =~= kv.subrange(
                i as int + 1,
                n as int,
            ));
        }
        i += 1;
    }
    proof {
        assert(kv.subrange(n as int, n as int) =~= Seq::<Seq<char>>::empty());
    }
    None
}

/// The rendered value under an already-resolved key.
fn rendered_of(rec: &Record, key: &Option<String>) -> (r: Option<String>)
    ensures
        match r {
            Some(t) => rendered_under_key(
                rec@,
                match key {
                    Some(k) => Some(k@),
                    None => None,
                },
            ) == Some(t@),
            None => rendered_under_key(
                rec@,
                match key {
                    Some(k) => Some(k@),
                    None => None,
                },
            ) is None,
        },
{
    match key {
        None => None,
        Some(k) => match rec.lookup(k) {
            Some(v) => Some(render_value(v)),
            None => None,
        },
    }
}

/// Whether `key` stands in `list`.
fn strings_contain(list: &Vec<String>, key: &String) -> (r: bool)
    ensures
        r == strings_view(list@).contains(key@),
{
    let ghost lv = strings_view(list@);
    let n = list.len();
    let mut i: usize = 0;
    while i < n
        invariant
            i <= n,
            n == list@.len(),
            lv == strings_view(list@),
            lv.len() == n,
            forall|j: int| 0 <= j < i ==> lv[j] != key@,
        decreases n - i,
    {
        proof {
            assert(lv[i as int] == list@[i as int]@);
        }
        if String::eq(&list[i], key) {
            proof {
                assert(lv[i as int] == key@);
                assert(lv.contains(key@));
            }
            return true;
        }
        i += 1;
    }
    proof {
        assert(!lv.contains(key@));
    }
    false
}

/// Resolves one record against the settings.
pub fn resolve(rec: &Record, settings: &LogSettings) -> (r: ResolvedFields)
    ensures
        r@ == resolve_spec(rec@, settings@),
{
    let message_key = first_present(&settings.message_keys, rec);
    let time_key = first_present(&settings.time_keys, rec);
    let level_key = first_present(&settings.level_keys, rec);
    let message = match rendered_of(rec, &message_key) {
        Some(m) => m,
        None => record_compact(rec),
    };
    let time = rendered_of(rec, &time_key);
    let level = rendered_of(rec, &level_key);
    let context = context_pairs(&settings.context_keys, rec);
    let additional = additional_pairs(rec, settings, &message_key, &time_key, &level_key);
    let r = ResolvedFields { message, time, level, context, additional };
    r
}

/// Collects the context pairs in context-key order.
fn context_pairs(keys: &Vec<String>, rec: &Record) -> (r: Vec<(String, String)>)
    ensures
        pairs_view(r@) == context_spec(strings_view(keys@), rec@),
{
    let ghost kv = strings_view(keys@);
    let n = keys.len();
    let mut out: Vec<(String, String)> = Vec::new();
    let mut i: usize = 0;
    proof {
        assert(pairs_view(out@) =~= context_prefix_spec(kv, rec@, 0));
    }
    while i < n
        invariant
            i <= n,
            n == keys@.len(),
            kv == strings_view(keys@),
            kv.len() == n,
            pairs_view(out@) == context_prefix_spec(kv, rec@, i as int),
        decreases n - i,
    {
        proof {
            assert(kv[i as int] == keys@[i as int]@);
        }
        match rec.lookup(&keys[i]) {
            Some(v) => {
                let rendered = render_value(v);
                out.push((keys[i].clone(), rendered));
            },
            None => {},
        }
        proof {
            assert(pairs_view(out@) =~= context_prefix_spec(kv, rec@, i as int + 1));
        }
        i += 1;
    }
    out
}

/// Collects the additional pairs in record order.
fn additional_pairs(
    rec: &Record,
    settings: &LogSettings,
    message_key: &Option<String>,
    time_key: &Option<String>,
    level_key: &Option<String>,
) -> (r: Vec<(String, String)>)
    requires
        (match message_key {
            Some(k) => first_present_key(settings@.message_keys, rec@) == Some(k@),
            None => first_present_key(settings@.message_keys, rec@) is None,
        }),
        (match time_key {
            Some(k) => first_present_key(settings@.time_keys, rec@) == Some(k@),
            None => first_present_key(settings@.time_keys, rec@) is None,
        }),
        (match level_key {
            Some(k) => first_present_key(settings@.level_keys, rec@) == Some(k@),
            None => first_present_key(settings@.level_keys, rec@) is None,
        }),
    ensures
        pairs_view(r@) == additional_prefix_spec(rec@, settings@, rec@.len() as int),
{
    let n = rec.entries.len();
    let mut out: Vec<(String, String)> = Vec::new();
    let mut i: usize = 0;
    proof {
        assert(pairs_view(out@) =~= additional_prefix_spec(rec@, settings@, 0));
    }
    while i < n
        invariant
            i <= n,
            n == rec.entries@.len(),
            rec@.len() == n,
            (match message_key {
                Some(k) => first_present_key(settings@.message_keys, rec@) == Some(k@),
                None => first_present_key(settings@.message_keys, rec@) is None,
            }),
            (match time_key {
                Some(k) => first_present_key(settings@.time_keys, rec@) == Some(k@),
                None => first_present_key(settings@.time_keys, rec@) is None,
            }),
            (match level_key {
                Some(k) => first_present_key(settings@.level_keys, rec@) == Some(k@),
                None => first_present_key(settings@.level_keys, rec@) is None,
            }),
            pairs_view(out@) == additional_prefix_spec(rec@, settings@, i as int),
        decreases n - i,
    {
        let key = &rec.entries[i].0;
        proof {
            assert(rec@[i as int] == (rec.entries@[i as int].0@, rec.entries@[i as int].1@));
        }
        let is_used = matches_option_key(key, message_key) || matches_option_key(key, time_key)
            || matches_option_key(key, level_key);
        let included = if is_used {
            false
        } else if settings.dump_all {
            !strings_contain(&settings.excluded_values, key)
        } else {
            strings_contain(&settings.additional_values, key)
        };
        if included {
            let rendered = render_value(&rec.entries[i].1);
            out.push((key.clone(), rendered));
        }
        proof {
            assert(pairs_view(out@) =~= additional_prefix_spec(rec@, settings@, i as int + 1));
        }
        i += 1;
    }
    out
}

/// Whether `key` is the resolved key inside `resolved`.
fn matches_option_key(key: &String, resolved: &Option<String>) -> (r: bool)
    ensures
        r == (match resolved {
            Some(k) => k@ == key@,
            None => false,
        }),
{
    match resolved {
        Some(k) => String::eq(k, key),
        None => false,
    }
}

} // verus!
