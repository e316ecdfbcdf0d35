//! The per-line decision procedure: parse, filter, resolve, substitute
//! and render one input line, or pass it through untouched.

use vstd::prelude::*;

use crate::filter::Filter;
use crate::filter::eval_spec;
use crate::json::json_record_of;
use crate::json::parse_record;
use crate::resolve::resolve;
use crate::resolve::resolve_spec;
use crate::settings::Options;
use crate::settings::strings_view;
use crate::substitution::Substitution;
use crate::template::render_line;
use crate::template::rendered_line_spec;

verus! {

/// What one line turns into: output for the stream, when any, and
/// diagnostic lines for the side channel.
pub struct LineOutcome {
    pub output: Option<String>,
    pub diagnostics: Vec<String>,
}

/// The diagnostic line an evaluation writes: the filter's source and
/// what it came to.
pub open spec fn filter_diag_spec(source: Seq<char>, outcome: Result<bool, Seq<char>>) -> Seq<
    char,
> {
    match outcome {
        Ok(b) => "filter: "@ + source + " => "@ + (if b {
            "true"@
        } else {
            "false"@
        }),
        Err(k) => "filter: "@ + source + " => error: absent field "@ + k,
    }
}

/// The rendered line a parsed record comes out as, under the given
/// options and delimiters.
pub open spec fn record_output_spec(
    rec: Seq<(Seq<char>, crate::json::JsonValueView)>,
    options: Options,
    open: Seq<char>,
    close: Seq<char>,
) -> Seq<char> {
    rendered_line_spec(
        options.template_settings.main_line_format@,
        options.template_settings.additional_value_format@,
        open,
        close,
        resolve_spec(rec, options.log_settings@),
        options.log_settings.with_prefix,
        options.template_settings.color_enabled,
    )
}

/// The delimiters a run renders with: the substitution's own when
/// substitution is on, the stock pair otherwise.
pub open spec fn open_of(substitution: Option<&Substitution>) -> Seq<char> {
    match substitution {
        Some(s) => s.open_delim@,
        None => "{{"@,
    }
}

/// The close counterpart of `open_of`.
pub open spec fn close_of(substitution: Option<&Substitution>) -> Seq<char> {
    match substitution {
        Some(s) => s.close_delim@,
        None => "}}"@,
    }
}

/// Builds the diagnostic line for one evaluation.
fn filter_diag(source: &String, outcome: &Result<bool, String>) -> (r: String)
    ensures
        r@ == filter_diag_spec(
            source@,
            match outcome {
                Ok(b) => Ok(*b),
                Err(k) => Err(k@),
            },
        ),
{
    let mut out = String::from_str("filter: ");
    out.append(source.as_str());
    match outcome {
        Ok(b) => {
            out.append(" => ");
            if *b {
                out.append("true");
            } else {
                out.append("false");
            }
        },
        Err(k) => {
            out.append(" => error: absent field ");
            out.append(k.as_str());
        },
    }
    out
}

/// Processes one input line.
///
/// A line that is not one JSON object passes through byte-identical
/// with no diagnostics. A parsed record is dropped without output when
/// the filter says no or cannot say; rendering follows the resolved
/// fields otherwise. A filter error always leaves one diagnostic line;
/// a filter verdict leaves one exactly when `print_lua` asks for the
/// echo.
pub fn process_line(
    line: &str,
    options: &Options,
    substitution: Option<&Substitution>,
    filter: Option<&Filter>,
) -> (r: LineOutcome)
    requires
        (match substitution {
            Some(s) => s.wf(),
            None => true,
        }),
    ensures
        json_record_of(line@) is None ==> (r.output matches Some(o) && o@ == line@)
            && r.diagnostics@.len() == 0,
        (json_record_of(line@) matches Some(rec) ==> (match filter {
            None => (r.output matches Some(o) && o@ == record_output_spec(
                rec,
                *options,
                open_of(substitution),
                close_of(substitution),
            )) && r.diagnostics@.len() == 0,
            Some(f) => (match eval_spec(f.expr@, rec) {
                Ok(true) => (r.output matches Some(o) && o@ == record_output_spec(
                    rec,
                    *options,
                    open_of(substitution),
                    close_of(substitution),
                )) && (if options.log_settings.print_lua {
                    strings_view(r.diagnostics@) == seq![
                        filter_diag_spec(f.source@, Ok::<bool, Seq<char>>(true)),
                    ]
                } else {
                    r.diagnostics@.len() == 0
                }),
                Ok(false) => r.output is None && (if options.log_settings.print_lua {
                    strings_view(r.diagnostics@) == seq![
                        filter_diag_spec(f.source@, Ok::<bool, Seq<char>>(false)),
                    ]
                } else {
                    r.diagnostics@.len() == 0
                }),
                Err(k) => r.output is None && strings_view(r.diagnostics@) == seq![
                    filter_diag_spec(f.source@, Err::<bool, Seq<char>>(k)),
                ],
            }),
        })),
{
    let parsed = parse_record(line);
    match parsed {
        None => {
            let r = LineOutcome { output: Some(String::from_str(line)), diagnostics: Vec::new() };
            proof {
                assert(strings_view(r.diagnostics@) =~= Seq::<Seq<char>>::empty());
            }
            r
        },
        Some(rec) => {
            let mut diagnostics: Vec<String> = Vec::new();
            let mut keep = true;
            match filter {
                None => {},
                Some(f) => {
                    match f.evaluate(&rec) {
                        Ok(b) => {
                            keep = b;
                            if options.log_settings.print_lua {
                                let diag = filter_diag(&f.source, &Ok(b));
                                diagnostics.push(diag);
                                proof {
                                    assert(strings_view(diagnostics@) =~= seq![
                                        filter_diag_spec(f.source@, Ok::<bool, Seq<char>>(b)),
                                    ]);
                                }
                            }
                        },
                        Err(e) => {
                            keep = false;
                            let diag = filter_diag(&f.source, &Err(e.key));
                            diagnostics.push(diag);
                            proof {
                                assert(strings_view(diagnostics@) =~= seq![
                                    filter_diag_spec(
                                        f.source@,
                                        eval_spec(f.expr@, rec@),
                                    ),
                                ]);
                            }
                        },
                    }
                },
            }
            if !keep {
                return LineOutcome { output: None, diagnostics };
            }
            let fields = resolve(&rec, &options.log_settings);
            let out = match substitution {
                Some(s) => render_line(
                    &options.template_settings,
                    s,
                    options.log_settings.with_prefix,
                    &fields,
                ),
                None => {
                    let stock = Substitution {
                        context_keys: Vec::new(),
                        open_delim: String::from_str("{{"),
                        close_delim: String::from_str("}}"),
                    };
                    proof {
                        reveal_strlit("{{");
                        reveal_strlit("}}");
                    }
                    render_line(
                        &options.template_settings,
                        &stock,
                        options.log_settings.with_prefix,
                        &fields,
                    )
                },
            };
            LineOutcome { output: Some(out), diagnostics }
        },
    }
}

} // verus!
