//! End-to-end tests of the line pipeline.

use fblog::filter::Filter;
use fblog::process::process_line;
use fblog::settings::Options;
use fblog::substitution::Substitution;

fn default_options() -> Options {
    let mut options = Options::new_default();
    options.log_settings.add_default_keys();
    options
}

#[test]
fn prefixed_level_tag_precedes_message() {
    let mut options = default_options();
    options.log_settings.with_prefix = true;
    let outcome = process_line("{\"msg\":\"hello\",\"level\":\"info\"}", &options, None, None);
    let text = outcome.output.expect("a JSON object line is emitted");
    let info_at = text.find("info").expect("the level tag is there");
    let hello_at = text.find("hello").expect("the message is there");
    assert!(info_at < hello_at);
    assert!(text.starts_with("[info]"));
    assert!(outcome.diagnostics.is_empty());
}

#[test]
fn non_json_line_passes_through_unchanged() {
    let options = default_options();
    let outcome = process_line("not json at all", &options, None, None);
    assert_eq!(outcome.output.as_deref(), Some("not json at all"));
    assert!(outcome.diagnostics.is_empty());
}

#[test]
fn non_object_json_passes_through_unchanged() {
    let options = default_options();
    let outcome = process_line("[1,2,3]", &options, None, None);
    assert_eq!(outcome.output.as_deref(), Some("[1,2,3]"));
    let outcome = process_line("42", &options, None, None);
    assert_eq!(outcome.output.as_deref(), Some("42"));
}

#[test]
fn context_value_substitutes_into_main_format() {
    let mut options = default_options();
    options.log_settings.substitution_enabled = true;
    options.log_settings.context_keys.push(String::from("user"));
    options.template_settings.main_line_format = String::from("{{message}} by {{user}}");
    let substitution = Substitution::new(
        options.log_settings.context_keys.clone(),
        String::from("{{}}"),
    )
    .expect("a two-brace pair splits");
    let outcome = process_line(
        "{\"msg\":\"x\",\"user\":\"bob\"}",
        &options,
        Some(&substitution),
        None,
    );
    assert_eq!(outcome.output.as_deref(), Some("x by bob"));
}

#[test]
fn always_false_filter_emits_nothing() {
    let options = default_options();
    let filter = Filter::new("false", true).expect("a literal parses");
    for line in [
        "{\"msg\":\"hello\"}",
        "{\"msg\":\"other\",\"level\":\"warn\"}",
        "{}",
    ] {
        let outcome = process_line(line, &options, None, Some(&filter));
        assert!(outcome.output.is_none());
        assert!(outcome.diagnostics.is_empty());
    }
}

#[test]
fn empty_placeholder_format_is_refused_before_the_stream() {
    assert!(Substitution::new(Vec::new(), String::new()).is_err());
    assert!(Substitution::new(Vec::new(), String::from("{#}")).is_err());
}

#[test]
fn message_falls_back_to_compact_record() {
    let options = default_options();
    let outcome = process_line("{\"user\":\"bob\"}", &options, None, None);
    let text = outcome.output.expect("emitted");
    assert!(text.contains("{\"user\":\"bob\"}"));
}

#[test]
fn fallback_compact_record_escapes_strings() {
    let options = default_options();
    let outcome = process_line("{\"a\":\"x\\\"y\"}", &options, None, None);
    let text = outcome.output.expect("emitted");
    assert!(text.contains("{\"a\":\"x\\\"y\"}"));
}

#[test]
fn dump_all_appends_remaining_fields_in_input_order() {
    let mut options = default_options();
    options.log_settings.dump_all = true;
    let outcome = process_line(
        "{\"msg\":\"m\",\"beta\":\"1\",\"alpha\":\"2\"}",
        &options,
        None,
        None,
    );
    let text = outcome.output.expect("emitted");
    let lines: Vec<&str> = text.split('\n').collect();
    assert_eq!(lines.len(), 3);
    assert_eq!(lines[1], "    beta: 1");
    assert_eq!(lines[2], "    alpha: 2");
}

#[test]
fn excluded_values_are_left_out_of_the_dump() {
    let mut options = default_options();
    options.log_settings.dump_all = true;
    options.log_settings.excluded_values.push(String::from("noise"));
    let outcome = process_line(
        "{\"msg\":\"m\",\"noise\":\"x\",\"keep\":\"y\"}",
        &options,
        None,
        None,
    );
    let text = outcome.output.expect("emitted");
    assert!(!text.contains("noise"));
    assert!(text.contains("    keep: y"));
}

#[test]
fn explicit_additional_values_without_dump_all() {
    let mut options = default_options();
    options.log_settings.additional_values.push(String::from("b"));
    let outcome = process_line(
        "{\"msg\":\"m\",\"a\":\"1\",\"b\":\"2\"}",
        &options,
        None,
        None,
    );
    let text = outcome.output.expect("emitted");
    assert!(!text.contains("a: 1"));
    assert!(text.contains("    b: 2"));
}

#[test]
fn scalar_values_render_as_their_json_text() {
    let mut options = default_options();
    options.log_settings.dump_all = true;
    let outcome = process_line(
        "{\"msg\":\"m\",\"n\":5,\"b\":true,\"z\":null}",
        &options,
        None,
        None,
    );
    let text = outcome.output.expect("emitted");
    assert!(text.contains("    n: 5"));
    assert!(text.contains("    b: true"));
    assert!(text.contains("    z: null"));
}

#[test]
fn nested_values_render_compactly() {
    let mut options = default_options();
    options.log_settings.dump_all = true;
    let outcome = process_line(
        "{\"msg\":\"m\",\"inner\":{\"a\":1},\"list\":[1,2]}",
        &options,
        None,
        None,
    );
    let text = outcome.output.expect("emitted");
    assert!(text.contains("    inner: {\"a\":1}"));
    assert!(text.contains("    list: [1,2]"));
}

#[test]
fn missing_time_and_level_render_as_empty_segments() {
    let options = default_options();
    let outcome = process_line("{\"msg\":\"lone\"}", &options, None, None);
    let text = outcome.output.expect("emitted");
    assert!(!text.contains("null"));
    assert!(!text.contains("undefined"));
    assert!(text.contains("lone"));
}

#[test]
fn unresolvable_placeholder_vanishes() {
    let mut options = default_options();
    options.template_settings.main_line_format = String::from("{{nothing}}{{message}}");
    let outcome = process_line("{\"msg\":\"m\"}", &options, None, None);
    assert_eq!(outcome.output.as_deref(), Some("m"));
}
