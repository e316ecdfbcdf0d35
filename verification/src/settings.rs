//! Per-run configuration: key lists, formats and flags.
//!
//! A `LogSettings` value is assembled once before the stream starts, from
//! a profile's values and the command-line overrides, and is read-only
//! afterwards.

use vstd::prelude::*;

verus! {

/// The settings the per-line pipeline reads.
pub struct LogSettings {
    /// Candidate keys that may supply the message, in priority order.
    pub message_keys: Vec<String>,
    /// Candidate keys that may supply the timestamp, in priority order.
    pub time_keys: Vec<String>,
    /// Candidate keys that may supply the level, in priority order.
    pub level_keys: Vec<String>,
    /// Keys whose values feed placeholder substitution.
    pub context_keys: Vec<String>,
    /// Keys left out of the additional values when dumping all.
    pub excluded_values: Vec<String>,
    /// Keys explicitly requested as additional output.
    pub additional_values: Vec<String>,
    /// Placeholder delimiters, written as one string whose first half
    /// opens a placeholder and whose second half closes it.
    pub placeholder_format: String,
    /// Emit every field that no other stage consumed.
    pub dump_all: bool,
    /// Prepend the level as a tag before the main line.
    pub with_prefix: bool,
    /// Echo each filter evaluation to the diagnostics.
    pub print_lua: bool,
    /// Rewrite placeholders in the formats before rendering.
    pub substitution_enabled: bool,
}

/// The mathematical form of `LogSettings`.
pub struct LogSettingsView {
    pub message_keys: Seq<Seq<char>>,
    pub time_keys: Seq<Seq<char>>,
    pub level_keys: Seq<Seq<char>>,
    pub context_keys: Seq<Seq<char>>,
    pub excluded_values: Seq<Seq<char>>,
    pub additional_values: Seq<Seq<char>>,
    pub placeholder_format: Seq<char>,
    pub dump_all: bool,
    pub with_prefix: bool,
    pub print_lua: bool,
    pub substitution_enabled: bool,
}

/// The views of a sequence of strings.
pub open spec fn strings_view(v: Seq<String>) -> Seq<Seq<char>> {
    Seq::new(v.len(), |i: int| v[i]@)
}

impl View for LogSettings {
    type V = LogSettingsView;

    open spec fn view(&self) -> LogSettingsView {
        LogSettingsView {
            message_keys: strings_view(self.message_keys@),
            time_keys: strings_view(self.time_keys@),
            level_keys: strings_view(self.level_keys@),
            context_keys: strings_view(self.context_keys@),
            excluded_values: strings_view(self.excluded_values@),
            additional_values: strings_view(self.additional_values@),
            placeholder_format: self.placeholder_format@,
            dump_all: self.dump_all,
            with_prefix: self.with_prefix,
            print_lua: self.print_lua,
            substitution_enabled: self.substitution_enabled,
        }
    }
}

/// How the line templates read.
pub struct TemplateSettings {
    /// The template of the main output line.
    pub main_line_format: String,
    /// The template rendered once per additional value.
    pub additional_value_format: String,
    /// Whether level colors are written as escape codes.
    pub color_enabled: bool,
}

/// All of a run's configuration.
pub struct Options {
    pub log_settings: LogSettings,
    pub template_settings: TemplateSettings,
    /// Treat a bare filter expression as the predicate itself; when
    /// false the expression must spell out its `return`.
    pub implicit_return: bool,
    /// The filter expression's source, when one was given.
    pub maybe_filter: Option<String>,
}

/// The command-line values that may override a profile, already read
/// out of the argument parser into plain values.
pub struct CliOverrides {
    pub additional_values: Option<Vec<String>>,
    pub message_keys: Option<Vec<String>>,
    pub time_keys: Option<Vec<String>>,
    pub level_keys: Option<Vec<String>>,
    pub context_keys: Option<Vec<String>>,
    pub placeholder_format: Option<String>,
    pub dump_all: bool,
    pub with_prefix: bool,
    pub print_lua: bool,
    pub excluded_values: Option<Vec<String>>,
    pub main_line_format: Option<String>,
    pub additional_value_format: Option<String>,
    pub no_implicit_filter_return_statement: bool,
    pub filter: Option<String>,
}

/// Appends every string of `extra` to `dst`.
fn append_strings(dst: &mut Vec<String>, mut extra: Vec<String>)
    ensures
        strings_view(final(dst)@) == strings_view(old(dst)@) + strings_view(extra@),
{
    let ghost orig: Seq<String> = dst@;
    let ghost added: Seq<String> = extra@;
    dst.append(&mut extra);
    proof {
        assert forall|j: int| 0 <= j < dst@.len() implies strings_view(dst@)[j] == (strings_view(
            orig,
        ) + strings_view(added))[j] by {
            if j < orig.len() {
                assert(dst@[j] == orig[j]);
            } else {
                assert(dst@[j] == added[j - orig.len()]);
            }
        }
        assert(strings_view(dst@) =~= strings_view(orig) + strings_view(added));
    }
}

impl LogSettings {
    /// The view of the settings `new_empty` yields.
    pub open spec fn new_empty_view() -> LogSettingsView {
        LogSettingsView {
            message_keys: Seq::empty(),
            time_keys: Seq::empty(),
            level_keys: Seq::empty(),
            context_keys: Seq::empty(),
            excluded_values: Seq::empty(),
            additional_values: Seq::empty(),
            placeholder_format: "{{}}"@,
            dump_all: false,
            with_prefix: false,
            print_lua: false,
            substitution_enabled: false,
        }
    }

    /// Settings with everything off and every list empty; the key lists
    /// are filled by `add_default_keys` before use.
    pub fn new_empty() -> (r: LogSettings)
        ensures
            r@ == LogSettings::new_empty_view(),
    {
        let r = LogSettings {
            message_keys: Vec::new(),
            time_keys: Vec::new(),
            level_keys: Vec::new(),
            context_keys: Vec::new(),
            excluded_values: Vec::new(),
            additional_values: Vec::new(),
            placeholder_format: String::from_str("{{}}"),
            dump_all: false,
            with_prefix: false,
            print_lua: false,
            substitution_enabled: false,
        };
        proof {
            assert(strings_view(r.message_keys@) =~= Seq::<Seq<char>>::empty());
            assert(strings_view(r.time_keys@) =~= Seq::<Seq<char>>::empty());
            assert(strings_view(r.level_keys@) =~= Seq::<Seq<char>>::empty());
            assert(strings_view(r.context_keys@) =~= Seq::<Seq<char>>::empty());
            assert(strings_view(r.excluded_values@) =~= Seq::<Seq<char>>::empty());
            assert(strings_view(r.additional_values@) =~= Seq::<Seq<char>>::empty());
        }
        r
    }

    pub fn add_message_keys(&mut self, keys: Vec<String>)
        ensures
            final(self)@ == (LogSettingsView {
                message_keys: old(self)@.message_keys + strings_view(keys@),
                ..old(self)@
            }),
    {
        append_strings(&mut self.message_keys, keys);
    }

    pub fn add_time_keys(&mut self, keys: Vec<String>)
        ensures
            final(self)@ == (LogSettingsView {
                time_keys: old(self)@.time_keys + strings_view(keys@),
                ..old(self)@
            }),
    {
        append_strings(&mut self.time_keys, keys);
    }

    pub fn add_level_keys(&mut self, keys: Vec<String>)
        ensures
            final(self)@ == (LogSettingsView {
                level_keys: old(self)@.level_keys + strings_view(keys@),
                ..old(self)@
            }),
    {
        append_strings(&mut self.level_keys, keys);
    }

    pub fn add_context_keys(&mut self, keys: Vec<String>)
        ensures
            final(self)@ == (LogSettingsView {
                context_keys: old(self)@.context_keys + strings_view(keys@),
                ..old(self)@
            }),
    {
        append_strings(&mut self.context_keys, keys);
    }

    pub fn add_excluded_values(&mut self, keys: Vec<String>)
        ensures
            final(self)@ == (LogSettingsView {
                excluded_values: old(self)@.excluded_values + strings_view(keys@),
                ..old(self)@
            }),
    {
        append_strings(&mut self.excluded_values, keys);
    }

    pub fn add_additional_values(&mut self, keys: Vec<String>)
        ensures
            final(self)@ == (LogSettingsView {
                additional_values: old(self)@.additional_values + strings_view(keys@),
                ..old(self)@
            }),
    {
        append_strings(&mut self.additional_values, keys);
    }

    /// Appends the stock candidate keys after any user-supplied ones,
    /// so every resolution category has at least one candidate.
    pub fn add_default_keys(&mut self)
        ensures
            final(self)@ == (LogSettingsView {
                message_keys: old(self)@.message_keys + seq!["message"@, "msg"@, "short_message"@],
                time_keys: old(self)@.time_keys + seq!["time"@, "timestamp"@, "@timestamp"@],
                level_keys: old(self)@.level_keys + seq!["level"@, "severity"@, "loglevel"@],
                ..old(self)@
            }),
            final(self)@.message_keys.len() > 0,
            final(self)@.time_keys.len() > 0,
            final(self)@.level_keys.len() > 0,
    {
        let mut more_message: Vec<String> = Vec::new();
        more_message.push(String::from_str("message"));
        more_message.push(String::from_str("msg"));
        more_message.push(String::from_str("short_message"));
        append_strings(&mut self.message_keys, more_message);
        let mut more_time: Vec<String> = Vec::new();
        more_time.push(String::from_str("time"));
        more_time.push(String::from_str("timestamp"));
        more_time.push(String::from_str("@timestamp"));
        append_strings(&mut self.time_keys, more_time);
        let mut more_level: Vec<String> = Vec::new();
        more_level.push(String::from_str("level"));
        more_level.push(String::from_str("severity"));
        more_level.push(String::from_str("loglevel"));
        append_strings(&mut self.level_keys, more_level);
        proof {
            assert(strings_view(more_message@) =~= seq!["message"@, "msg"@, "short_message"@]);
            assert(strings_view(more_time@) =~= seq!["time"@, "timestamp"@, "@timestamp"@]);
            assert(strings_view(more_level@) =~= seq!["level"@, "severity"@, "loglevel"@]);
        }
    }
}

impl Options {
    /// Options around empty settings: stock templates, no filter.
    pub fn new_default() -> (r: Options)
        ensures
            r.log_settings@ == LogSettings::new_empty_view(),
            r.template_settings.main_line_format@ == "{{time}} {{level}} {{message}}"@,
            r.template_settings.additional_value_format@ == "    {{key}}: {{value}}"@,
            !r.template_settings.color_enabled,
            r.implicit_return,
            r.maybe_filter is None,
    {
        Options {
            log_settings: LogSettings::new_empty(),
            template_settings: TemplateSettings {
                main_line_format: String::from_str("{{time}} {{level}} {{message}}"),
                additional_value_format: String::from_str("    {{key}}: {{value}}"),
                color_enabled: false,
            },
            implicit_return: true,
            maybe_filter: None,
        }
    }
}

/// Folds the command-line overrides into `options`.
///
/// Key lists are appended to the profile's lists; giving context keys or
/// a placeholder format turns substitution on; giving excluded values
/// implies dumping all remaining fields.
#[verifier::rlimit(100)]
#[verifier::spinoff_prover]
pub fn update_from_matches(options: &mut Options, matches: CliOverrides)
    ensures
        final(options).log_settings@.message_keys == old(options).log_settings@.message_keys + (
        match matches.message_keys {
            Some(ks) => strings_view(ks@),
            None => Seq::empty(),
        }),
        final(options).log_settings@.time_keys == old(options).log_settings@.time_keys + (
        match matches.time_keys {
            Some(ks) => strings_view(ks@),
            None => Seq::empty(),
        }),
        final(options).log_settings@.level_keys == old(options).log_settings@.level_keys + (
        match matches.level_keys {
            Some(ks) => strings_view(ks@),
            None => Seq::empty(),
        }),
        final(options).log_settings@.context_keys == old(options).log_settings@.context_keys + (
        match matches.context_keys {
            Some(ks) => strings_view(ks@),
            None => Seq::empty(),
        }),
        final(options).log_settings@.additional_values == old(
            options,
        ).log_settings@.additional_values + (match matches.additional_values {
            Some(ks) => strings_view(ks@),
            None => Seq::empty(),
        }),
        final(options).log_settings@.excluded_values == old(
            options,
        ).log_settings@.excluded_values + (match matches.excluded_values {
            Some(ks) => strings_view(ks@),
            None => Seq::empty(),
        }),
        final(options).log_settings@.placeholder_format == (match matches.placeholder_format {
            Some(f) => f@,
            None => old(options).log_settings@.placeholder_format,
        }),
        // Excluded values imply dumping every remaining field.
        final(options).log_settings@.dump_all == (matches.dump_all
            || matches.excluded_values is Some),
        final(options).log_settings@.with_prefix == matches.with_prefix,
        final(options).log_settings@.print_lua == matches.print_lua,
        // Context keys or a placeholder format turn substitution on.
        final(options).log_settings@.substitution_enabled == (old(
            options,
        ).log_settings@.substitution_enabled || matches.context_keys is Some
            || matches.placeholder_format is Some),
        final(options).template_settings.main_line_format@ == (
        match matches.main_line_format {
            Some(f) => f@,
            None => old(options).template_settings.main_line_format@,
        }),
        final(options).template_settings.additional_value_format@ == (
        match matches.additional_value_format {
            Some(f) => f@,
            None => old(options).template_settings.additional_value_format@,
        }),
        final(options).template_settings.color_enabled == old(
            options,
        ).template_settings.color_enabled,
        final(options).implicit_return == !matches.no_implicit_filter_return_statement,
        final(options).maybe_filter == matches.filter,
{
    if let Some(values) = matches.additional_values {
        options.log_settings.add_additional_values(values);
    }
    if let Some(values) = matches.message_keys {
        options.log_settings.add_message_keys(values);
    }
    if let Some(values) = matches.time_keys {
        options.log_settings.add_time_keys(values);
    }
    if let Some(values) = matches.level_keys {
        options.log_settings.add_level_keys(values);
    }
    let mut substitution_enabled = options.log_settings.substitution_enabled;
    if let Some(values) = matches.context_keys {
        substitution_enabled = true;
        options.log_settings.add_context_keys(values);
    }
    if let Some(value) = matches.placeholder_format {
        substitution_enabled = true;
        options.log_settings.placeholder_format = value;
    }
    options.log_settings.substitution_enabled = substitution_enabled;
    options.log_settings.dump_all = matches.dump_all;
    options.log_settings.with_prefix = matches.with_prefix;
    options.log_settings.print_lua = matches.print_lua;
    if let Some(values) = matches.excluded_values {
        // Dump all is implicitly set by exclusion.
        options.log_settings.dump_all = true;
        options.log_settings.add_excluded_values(values);
    }
    if let Some(main_line_format) = matches.main_line_format {
        options.template_settings.main_line_format = main_line_format;
    }
    if let Some(additional_value_format) = matches.additional_value_format {
        options.template_settings.additional_value_format = additional_value_format;
    }
    options.implicit_return = !matches.no_implicit_filter_return_statement;
    options.maybe_filter = matches.filter;
}

} // verus!
