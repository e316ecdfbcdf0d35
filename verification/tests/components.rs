//! Tests of the single components: settings merging, the filter
//! language, and placeholder substitution.

use fblog::filter::Filter;
use fblog::filter::FilterError;
use fblog::process::process_line;
use fblog::settings::CliOverrides;
use fblog::settings::Options;
use fblog::settings::update_from_matches;
use fblog::substitution::Substitution;

fn empty_overrides() -> CliOverrides {
    CliOverrides {
        additional_values: None,
        message_keys: None,
        time_keys: None,
        level_keys: None,
        context_keys: None,
        placeholder_format: None,
        dump_all: false,
        with_prefix: false,
        print_lua: false,
        excluded_values: None,
        main_line_format: None,
        additional_value_format: None,
        no_implicit_filter_return_statement: false,
        filter: None,
    }
}

#[test]
fn excluded_values_imply_dump_all() {
    let mut options = Options::new_default();
    let mut overrides = empty_overrides();
    overrides.excluded_values = Some(vec![String::from("noise")]);
    update_from_matches(&mut options, overrides);
    assert!(options.log_settings.dump_all);
    assert_eq!(options.log_settings.excluded_values, vec![String::from("noise")]);
}

#[test]
fn context_keys_turn_substitution_on() {
    let mut options = Options::new_default();
    assert!(!options.log_settings.substitution_enabled);
    let mut overrides = empty_overrides();
    overrides.context_keys = Some(vec![String::from("user")]);
    update_from_matches(&mut options, overrides);
    assert!(options.log_settings.substitution_enabled);
}

#[test]
fn placeholder_format_turns_substitution_on() {
    let mut options = Options::new_default();
    let mut overrides = empty_overrides();
    overrides.placeholder_format = Some(String::from("<<>>"));
    update_from_matches(&mut options, overrides);
    assert!(options.log_settings.substitution_enabled);
    assert_eq!(options.log_settings.placeholder_format, "<<>>");
}

#[test]
fn default_keys_fill_every_category() {
    let mut options = Options::new_default();
    options.log_settings.add_message_keys(vec![String::from("note")]);
    options.log_settings.add_default_keys();
    assert_eq!(options.log_settings.message_keys[0], "note");
    assert!(options.log_settings.message_keys.contains(&String::from("msg")));
    assert!(!options.log_settings.time_keys.is_empty());
    assert!(!options.log_settings.level_keys.is_empty());
}

#[test]
fn user_keys_win_over_default_keys() {
    let mut options = Options::new_default();
    options.log_settings.add_message_keys(vec![String::from("note")]);
    options.log_settings.add_default_keys();
    let outcome = process_line(
        "{\"note\":\"first\",\"msg\":\"second\"}",
        &options,
        None,
        None,
    );
    let text = outcome.output.expect("emitted");
    assert!(text.contains("first"));
    assert!(!text.contains("second"));
}

#[test]
fn explicit_return_is_demanded_when_implicit_is_off() {
    assert!(matches!(
        Filter::new("true", false),
        Err(FilterError::MissingReturn)
    ));
    assert!(Filter::new("return true", false).is_ok());
}

#[test]
fn bare_field_keeps_truthy_records_only() {
    let mut options = Options::new_default();
    options.log_settings.add_default_keys();
    let filter = Filter::new("active", true).expect("a bare field parses");
    let kept = process_line(
        "{\"msg\":\"m\",\"active\":true}",
        &options,
        None,
        Some(&filter),
    );
    assert!(kept.output.is_some());
    let dropped = process_line(
        "{\"msg\":\"m\",\"active\":false}",
        &options,
        None,
        Some(&filter),
    );
    assert!(dropped.output.is_none());
    let absent = process_line("{\"msg\":\"m\"}", &options, None, Some(&filter));
    assert!(absent.output.is_none());
}

#[test]
fn field_comparison_filters_on_rendered_value() {
    let mut options = Options::new_default();
    options.log_settings.add_default_keys();
    let filter = Filter::new("level == \"info\"", true).expect("a comparison parses");
    let kept = process_line(
        "{\"msg\":\"m\",\"level\":\"info\"}",
        &options,
        None,
        Some(&filter),
    );
    assert!(kept.output.is_some());
    let dropped = process_line(
        "{\"msg\":\"m\",\"level\":\"warn\"}",
        &options,
        None,
        Some(&filter),
    );
    assert!(dropped.output.is_none());
}

#[test]
fn comparing_an_absent_field_drops_with_a_diagnostic() {
    let mut options = Options::new_default();
    options.log_settings.add_default_keys();
    let filter = Filter::new("user == \"bob\"", true).expect("a comparison parses");
    let outcome = process_line("{\"msg\":\"m\"}", &options, None, Some(&filter));
    assert!(outcome.output.is_none());
    assert_eq!(outcome.diagnostics.len(), 1);
    assert!(outcome.diagnostics[0].contains("absent field user"));
}

#[test]
fn filter_echo_goes_to_diagnostics_when_asked() {
    let mut options = Options::new_default();
    options.log_settings.add_default_keys();
    options.log_settings.print_lua = true;
    let filter = Filter::new("true", true).expect("a literal parses");
    let outcome = process_line("{\"msg\":\"m\"}", &options, None, Some(&filter));
    assert!(outcome.output.is_some());
    assert_eq!(outcome.diagnostics.len(), 1);
    assert!(outcome.diagnostics[0].contains("true"));
}

#[test]
fn unquoted_comparison_is_refused() {
    assert!(matches!(
        Filter::new("level == info", true),
        Err(FilterError::Unparseable)
    ));
}

#[test]
fn substitution_applies_each_context_pair() {
    let substitution =
        Substitution::new(vec![String::from("user")], String::from("{{}}")).expect("splits");
    let ctx = vec![(String::from("user"), String::from("bob"))];
    assert_eq!(substitution.apply("{{user}}", &ctx), "bob");
    assert_eq!(substitution.apply("hi {{user}}!", &ctx), "hi bob!");
    assert_eq!(substitution.apply("{{other}}!", &ctx), "!");
    assert_eq!(substitution.apply("plain", &ctx), "plain");
}

#[test]
fn asymmetric_delimiters_split_down_the_middle() {
    let substitution = Substitution::new(Vec::new(), String::from("<%%>")).expect("splits");
    assert_eq!(substitution.open_delim, "<%");
    assert_eq!(substitution.close_delim, "%>");
    let ctx = vec![(String::from("k"), String::from("v"))];
    assert_eq!(substitution.apply("a <%k%> b", &ctx), "a v b");
}

#[test]
fn colored_level_tag_wraps_the_level() {
    let mut options = Options::new_default();
    options.log_settings.add_default_keys();
    options.log_settings.with_prefix = true;
    options.template_settings.color_enabled = true;
    let outcome = process_line(
        "{\"msg\":\"m\",\"level\":\"error\"}",
        &options,
        None,
        None,
    );
    let text = outcome.output.expect("emitted");
    assert!(text.contains("\u{1b}[31merror\u{1b}[0m"));
}
