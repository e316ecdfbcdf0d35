//! Rendering the output line: the main line from its format, a level
//! tag when asked for, level colors, and one line per additional value.
//!
//! The formats are ordinary placeholder text: the reserved keys
//! `message`, `time` and `level` stand for the resolved fields, and the
//! resolved context values stand behind their own keys; missing time or
//! level reads as empty text. The additional-value format sees the
//! reserved keys `key` and `value`.

use vstd::prelude::*;

use crate::resolve::ResolvedFields;
use crate::resolve::ResolvedFieldsView;
use crate::settings::TemplateSettings;
use crate::substitution::Substitution;
use crate::substitution::ctx_lookup;
use crate::substitution::lemma_subst_leading_placeholder;
use crate::substitution::pairs_view;
use crate::substitution::subst_spec;
use crate::textscan::contains_seq;
use crate::textscan::occurs_at;
use crate::textscan::str_eq;

verus! {

/// An optional field's text: empty when the field is missing.
pub open spec fn opt_text(o: Option<Seq<char>>) -> Seq<char> {
    match o {
        Some(t) => t,
        None => Seq::empty(),
    }
}

/// The escape code that paints a recognized level; empty otherwise.
pub open spec fn level_color_spec(level: Seq<char>) -> Seq<char> {
    if level == "error"@ {
        "\u{1b}[31m"@
    } else if level == "warn"@ || level == "warning"@ {
        "\u{1b}[33m"@
    } else if level == "info"@ {
        "\u{1b}[32m"@
    } else if level == "debug"@ {
        "\u{1b}[36m"@
    } else if level == "trace"@ {
        "\u{1b}[35m"@
    } else {
        Seq::empty()
    }
}

/// The level as a tag: painted when colors are on and the level is
/// recognized, plain otherwise.
pub open spec fn level_tag_spec(level: Seq<char>, color_enabled: bool) -> Seq<char> {
    if color_enabled && level_color_spec(level).len() > 0 {
        level_color_spec(level) + level + "\u{1b}[0m"@
    } else {
        level
    }
}

/// What stands before the main line: a bracketed level tag when
/// `with_prefix` is on and a level resolved, else nothing.
pub open spec fn prefix_spec(
    level: Option<Seq<char>>,
    with_prefix: bool,
    color_enabled: bool,
) -> Seq<char> {
    match level {
        Some(l) => if with_prefix {
            "["@ + level_tag_spec(l, color_enabled) + "] "@
        } else {
            Seq::empty()
        },
        None => Seq::empty(),
    }
}

/// The context a line's formats see: the reserved field keys first, so
/// they win over a context key of the same name, then the resolved
/// context values.
pub open spec fn render_ctx_spec(f: ResolvedFieldsView) -> Seq<(Seq<char>, Seq<char>)> {
    seq![("message"@, f.message), ("time"@, opt_text(f.time)), ("level"@, opt_text(f.level))]
        + f.context
}

/// The main output line.
pub open spec fn main_line_spec(
    fmt: Seq<char>,
    open: Seq<char>,
    close: Seq<char>,
    f: ResolvedFieldsView,
    with_prefix: bool,
    color_enabled: bool,
) -> Seq<char> {
    prefix_spec(f.level, with_prefix, color_enabled) + subst_spec(
        fmt,
        open,
        close,
        render_ctx_spec(f),
    )
}

/// One additional value, rendered through the additional-value format.
pub open spec fn additional_line_spec(
    afmt: Seq<char>,
    open: Seq<char>,
    close: Seq<char>,
    key: Seq<char>,
    value: Seq<char>,
) -> Seq<char> {
    subst_spec(afmt, open, close, seq![("key"@, key), ("value"@, value)])
}

/// The block after the main line: the first `n` additional values,
/// each on a line of its own.
pub open spec fn additional_block_spec(
    afmt: Seq<char>,
    open: Seq<char>,
    close: Seq<char>,
    pairs: Seq<(Seq<char>, Seq<char>)>,
    n: int,
) -> Seq<char>
    decreases n,
{
    if n <= 0 {
        Seq::empty()
    } else {
        additional_block_spec(afmt, open, close, pairs, n - 1) + "\n"@ + additional_line_spec(
            afmt,
            open,
            close,
            pairs[n - 1].0,
            pairs[n - 1].1,
        )
    }
}

/// The whole rendered line for one record.
pub open spec fn rendered_line_spec(
    fmt: Seq<char>,
    afmt: Seq<char>,
    open: Seq<char>,
    close: Seq<char>,
    f: ResolvedFieldsView,
    with_prefix: bool,
    color_enabled: bool,
) -> Seq<char> {
    main_line_spec(fmt, open, close, f, with_prefix, color_enabled) + additional_block_spec(
        afmt,
        open,
        close,
        f.additional,
        f.additional.len() as int,
    )
}

/// A main-line format that opens with the message placeholder always
/// carries the resolved message in the rendered line, whatever record,
/// flags and remaining format stand around it; the rendered line is at
/// least as long as the message, so it is never empty while the
/// message is not.
pub proof fn lemma_rendered_contains_message(
    rest: Seq<char>,
    afmt: Seq<char>,
    f: ResolvedFieldsView,
    with_prefix: bool,
    color_enabled: bool,
)
    ensures
        ({
            let fmt = "{{"@ + "message"@ + "}}"@ + rest;
            let out = rendered_line_spec(fmt, afmt, "{{"@, "}}"@, f, with_prefix, color_enabled);
            contains_seq(out, f.message) && out.len() >= f.message.len()
        }),
{
    reveal_strlit("{{");
    reveal_strlit("}}");
    reveal_strlit("message");
    let open = "{{"@;
    let close = "}}"@;
    let key = "message"@;
    let ctx = render_ctx_spec(f);
    assert forall|p: int| 0 <= p < key.len() implies !occurs_at(key + close, close, p) by {
        assert((key + close).subrange(p, p + 2)[0] == (key + close)[p]);
        assert((key + close)[p] == key[p]);
        if p == 0 {
            assert(key[p] == 'm');
        } else if p == 1 {
            assert(key[p] == 'e');
        } else if p == 2 {
            assert(key[p] == 's');
        } else if p == 3 {
            assert(key[p] == 's');
        } else if p == 4 {
            assert(key[p] == 'a');
        } else if p == 5 {
            assert(key[p] == 'g');
        } else {
            assert(key[p] == 'e');
        }
        assert(close[0] == '}');
    }
    lemma_subst_leading_placeholder(open, close, key, rest, ctx);
    assert(ctx_lookup(ctx, key) == f.message) by {
        assert(ctx[0] == ("message"@, f.message));
    }
    let fmt = open + key + close + rest;
    let pre = prefix_spec(f.level, with_prefix, color_enabled);
    let out = rendered_line_spec(fmt, afmt, open, close, f, with_prefix, color_enabled);
    assert(occurs_at(out, f.message, pre.len() as int)) by {
        assert(out.subrange(
            pre.len() as int,
            pre.len() as int + f.message.len() as int,
        ) =~= f.message);
    }
}

/// The level as a tag, painted when colors are on.
fn level_tag(level: &String, color_enabled: bool) -> (r: String)
    ensures
        r@ == level_tag_spec(level@, color_enabled),
{
    let color: &str = if str_eq(level.as_str(), "error") {
        "\u{1b}[31m"
    } else if str_eq(level.as_str(), "warn") || str_eq(level.as_str(), "warning") {
        "\u{1b}[33m"
    } else if str_eq(level.as_str(), "info") {
        "\u{1b}[32m"
    } else if str_eq(level.as_str(), "debug") {
        "\u{1b}[36m"
    } else if str_eq(level.as_str(), "trace") {
        "\u{1b}[35m"
    } else {
        ""
    };
    proof {
        assert(color@ == level_color_spec(level@)) by {
            reveal_strlit("\u{1b}[31m");
            reveal_strlit("\u{1b}[33m");
            reveal_strlit("\u{1b}[32m");
            reveal_strlit("\u{1b}[36m");
            reveal_strlit("\u{1b}[35m");
            reveal_strlit("");
        }
    }
    if color_enabled && color.unicode_len() > 0 {
        let mut out = String::from_str(color);
        out.append(level.as_str());
        out.append("\u{1b}[0m");
        out
    } else {
        level.clone()
    }
}

/// An optional field's text, as an owned string.
fn opt_text_string(o: &Option<String>) -> (r: String)
    ensures
        r@ == opt_text(match o {
            Some(t) => Some(t@),
            None => None,
        }),
{
    match o {
        Some(t) => t.clone(),
        None => String::new(),
    }
}

/// Renders the whole output line for one resolved record.
pub fn render_line(
    ts: &TemplateSettings,
    delims: &Substitution,
    with_prefix: bool,
    fields: &ResolvedFields,
) -> (r: String)
    requires
        delims.wf(),
    ensures
        r@ == rendered_line_spec(
            ts.main_line_format@,
            ts.additional_value_format@,
            delims.open_delim@,
            delims.close_delim@,
            fields@,
            with_prefix,
            ts.color_enabled,
        ),
{
    // The context the formats see.
    let mut ctx: Vec<(String, String)> = Vec::new();
    ctx.push((String::from_str("message"), fields.message.clone()));
    ctx.push((String::from_str("time"), opt_text_string(&fields.time)));
    ctx.push((String::from_str("level"), opt_text_string(&fields.level)));
    let ghost head = pairs_view(ctx@);
    proof {
        assert(head =~= seq![
            ("message"@, fields@.message),
            ("time"@, opt_text(fields@.time)),
            ("level"@, opt_text(fields@.level)),
        ]);
    }
    let cn = fields.context.len();
    let mut ci: usize = 0;
    proof {
        assert(pairs_view(ctx@) =~= head + fields@.context.subrange(0, 0));
    }
    while ci < cn
        invariant
            ci <= cn,
            cn == fields.context@.len(),
            fields@.context.len() == cn,
            pairs_view(ctx@) == head + fields@.context.subrange(0, ci as int),
        decreases cn - ci,
    {
        proof {
            assert(fields@.context[ci as int] == (
                fields.context@[ci as int].0@,
                fields.context@[ci as int].1@,
            ));
        }
        let pair = (fields.context[ci].0.clone(), fields.context[ci].1.clone());
        let ghost ctx_pre = ctx@;
        let ghost pair_v = (pair.0@, pair.1@);
        ctx.push(pair);
        proof {
            assert(ctx@ == ctx_pre.push((pair.0, pair.1)));
            assert forall|j: int| 0 <= j < ctx_pre.len() implies pairs_view(ctx@)[j] == pairs_view(
                ctx_pre,
            )[j] by {
                assert(ctx@[j] == ctx_pre[j]);
            }
            assert(pairs_view(ctx@)[ctx_pre.len() as int] == pair_v);
            assert(pairs_view(ctx@) =~= pairs_view(ctx_pre).push(pair_v));
            assert(fields@.context.subrange(0, ci as int + 1) =~= fields@.context.subrange(
                0,
                ci as int,
            ).push(fields@.context[ci as int]));
            assert(pairs_view(ctx@) =~= head + fields@.context.subrange(0, ci as int + 1));
        }
        ci += 1;
    }
    proof {
        assert(fields@.context.subrange(0, cn as int) =~= fields@.context);
        assert(pairs_view(ctx@) =~= render_ctx_spec(fields@));
    }
    // The prefix, then the substituted main line.
    let mut out = String::new();
    match &fields.level {
        Some(l) => {
            if with_prefix {
                out.append("[");
                let tag = level_tag(l, ts.color_enabled);
                out.append(tag.as_str());
                out.append("] ");
            }
        },
        None => {},
    }
    proof {
        assert(out@ =~= prefix_spec(fields@.level, with_prefix, ts.color_enabled));
    }
    let main = delims.apply(ts.main_line_format.as_str(), &ctx);
    out.append(main.as_str());
    let ghost main_done = out@;
    proof {
        assert(main_done =~= main_line_spec(
            ts.main_line_format@,
            delims.open_delim@,
            delims.close_delim@,
            fields@,
            with_prefix,
            ts.color_enabled,
        ));
    }
    // One line per additional value.
    let an = fields.additional.len();
    let mut ai: usize = 0;
    proof {
        assert(out@ =~= main_done + additional_block_spec(
            ts.additional_value_format@,
            delims.open_delim@,
            delims.close_delim@,
            fields@.additional,
            0,
        ));
    }
    while ai < an
        invariant
            ai <= an,
            an == fields.additional@.len(),
            fields@.additional.len() == an,
            delims.wf(),
            out@ == main_done + additional_block_spec(
                ts.additional_value_format@,
                delims.open_delim@,
                delims.close_delim@,
                fields@.additional,
                ai as int,
            ),
        decreases an - ai,
    {
        proof {
            assert(fields@.additional[ai as int] == (
                fields.additional@[ai as int].0@,
                fields.additional@[ai as int].1@,
            ));
        }
        let mut actx: Vec<(String, String)> = Vec::new();
        actx.push((String::from_str("key"), fields.additional[ai].0.clone()));
        actx.push((String::from_str("value"), fields.additional[ai].1.clone()));
        proof {
            assert(pairs_view(actx@) =~= seq![
                ("key"@, fields@.additional[ai as int].0),
                ("value"@, fields@.additional[ai as int].1),
            ]);
        }
        let line = delims.apply(ts.additional_value_format.as_str(), &actx);
        out.append("\n");
        out.append(line.as_str());
        proof {
            assert(out@ =~= main_done + additional_block_spec(
                ts.additional_value_format@,
                delims.open_delim@,
                delims.close_delim@,
                fields@.additional,
                ai as int + 1,
            ));
        }
        ai += 1;
    }
    out
}

} // verus!
