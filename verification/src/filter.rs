//! The per-record filter: a small predicate language compiled once per
//! run and evaluated once per record.
//!
//! An expression is one of: `true`, `false`, a bare field name (keep
//! when the field is there and truthy), or `field == "text"` /
//! `field != "text"` comparing a field's rendered value with a quoted
//! literal. Comparing a field the record does not have is an
//! evaluation error: the record is dropped and the error reported,
//! without ending the stream.

use vstd::prelude::*;

use crate::json::JsonValueView;
use crate::json::record_lookup;
use crate::json::render_value_spec;
use crate::json::Record;
use crate::json::JsonValue;
use crate::json::render_value;
use crate::textscan::find_seq;
use crate::textscan::find_str;
use crate::textscan::str_eq;

verus! {

/// One compiled filter expression.
pub enum FilterExpr {
    LitTrue,
    LitFalse,
    /// Keep when the named field is there and truthy.
    Present(String),
    /// Keep when the named field's rendered value equals the literal.
    FieldEq(String, String),
    /// Keep when the named field's rendered value differs from the literal.
    FieldNe(String, String),
}

/// The mathematical form of `FilterExpr`.
pub enum FilterExprView {
    LitTrue,
    LitFalse,
    Present(Seq<char>),
    FieldEq(Seq<char>, Seq<char>),
    FieldNe(Seq<char>, Seq<char>),
}

impl View for FilterExpr {
    type V = FilterExprView;

    open spec fn view(&self) -> FilterExprView {
        match self {
            FilterExpr::LitTrue => FilterExprView::LitTrue,
            FilterExpr::LitFalse => FilterExprView::LitFalse,
            FilterExpr::Present(k) => FilterExprView::Present(k@),
            FilterExpr::FieldEq(k, l) => FilterExprView::FieldEq(k@, l@),
            FilterExpr::FieldNe(k, l) => FilterExprView::FieldNe(k@, l@),
        }
    }
}

/// Why a filter source cannot be compiled.
#[derive(Debug)]
pub enum FilterError {
    /// The run asks for an explicit `return` and the source has none.
    MissingReturn,
    /// The expression is not one the language knows.
    Unparseable,
}

/// A compiled filter: its source, kept for diagnostics, and its
/// expression.
pub struct Filter {
    pub source: String,
    pub expr: FilterExpr,
}

/// The predicate body of the source: the source itself under implicit
/// return, else whatever follows the spelled-out `return `.
pub open spec fn body_of(src: Seq<char>, implicit_return: bool) -> Option<Seq<char>> {
    if implicit_return {
        Some(src)
    } else if src.len() >= 7 && src.subrange(0, 7) == "return "@ {
        Some(src.subrange(7, src.len() as int))
    } else {
        None
    }
}

/// The text of a quoted literal, when `s` is one.
pub open spec fn parse_quoted(s: Seq<char>) -> Option<Seq<char>> {
    if s.len() >= 2 && s[0] == '"' && s[s.len() - 1] == '"' {
        Some(s.subrange(1, s.len() - 1))
    } else {
        None
    }
}

/// What a predicate body parses to, if anything.
pub open spec fn parse_body(body: Seq<char>) -> Option<FilterExprView> {
    if body == "true"@ {
        Some(FilterExprView::LitTrue)
    } else if body == "false"@ {
        Some(FilterExprView::LitFalse)
    } else {
        match find_seq(body, " == "@, 0) {
            Some(i) => match parse_quoted(body.subrange(i + 4, body.len() as int)) {
                Some(lit) => if i > 0 {
                    Some(FilterExprView::FieldEq(body.subrange(0, i), lit))
                } else {
                    None
                },
                None => None,
            },
            None => match find_seq(body, " != "@, 0) {
                Some(i) => match parse_quoted(body.subrange(i + 4, body.len() as int)) {
                    Some(lit) => if i > 0 {
                        Some(FilterExprView::FieldNe(body.subrange(0, i), lit))
                    } else {
                        None
                    },
                    None => None,
                },
                None => if body.len() > 0 {
                    Some(FilterExprView::Present(body))
                } else {
                    None
                },
            },
        }
    }
}

/// What a whole filter source parses to under the given return mode.
pub open spec fn parse_filter_spec(src: Seq<char>, implicit_return: bool) -> Option<
    FilterExprView,
> {
    match body_of(src, implicit_return) {
        None => None,
        Some(b) => parse_body(b),
    }
}

/// Whether a field value keeps a bare-field predicate: there is a
/// value and it is neither null, false nor the empty string.
pub open spec fn truthy(v: JsonValueView) -> bool {
    match v {
        JsonValueView::Null => false,
        JsonValueView::Bool(b) => b,
        JsonValueView::Str(s) => s.len() > 0,
        _ => true,
    }
}

/// What evaluating an expression against a record yields: the keep
/// decision, or the absent field a comparison stumbled on.
pub open spec fn eval_spec(e: FilterExprView, rec: Seq<(Seq<char>, JsonValueView)>) -> Result<
    bool,
    Seq<char>,
> {
    match e {
        FilterExprView::LitTrue => Ok(true),
        FilterExprView::LitFalse => Ok(false),
        FilterExprView::Present(k) => match record_lookup(rec, k) {
            None => Ok(false),
            Some(v) => Ok(truthy(v)),
        },
        FilterExprView::FieldEq(k, lit) => match record_lookup(rec, k) {
            None => Err(k),
            Some(v) => Ok(render_value_spec(v) == lit),
        },
        FilterExprView::FieldNe(k, lit) => match record_lookup(rec, k) {
            None => Err(k),
            Some(v) => Ok(render_value_spec(v) != lit),
        },
    }
}

/// An evaluation error: the field a comparison needed was absent.
pub struct EvalError {
    pub key: String,
}

impl Filter {
    /// Compiles a filter source once, before the stream starts.
    pub fn new(source: &str, implicit_return: bool) -> (r: Result<Filter, FilterError>)
        ensures
            match r {
                Ok(f) => parse_filter_spec(source@, implicit_return) == Some(f.expr@) && f.source@
                    == source@,
                Err(e) => parse_filter_spec(source@, implicit_return) is None && ((
                e is MissingReturn) <==> (body_of(source@, implicit_return) is None)),
            },
    {
        let n = source.unicode_len();
        let body: &str = if implicit_return {
            source
        } else {
            if n >= 7 && matches_return_prefix(source) {
                source.substring_char(7, n)
            } else {
                return Err(FilterError::MissingReturn);
            }
        };
        match parse_body_str(body) {
            Some(expr) => Ok(Filter { source: String::from_str(source), expr }),
            None => Err(FilterError::Unparseable),
        }
    }

    /// Evaluates the compiled expression against one record.
    pub fn evaluate(&self, rec: &Record) -> (r: Result<bool, EvalError>)
        ensures
            match r {
                Ok(b) => eval_spec(self.expr@, rec@) == Ok::<bool, Seq<char>>(b),
                Err(e) => eval_spec(self.expr@, rec@) == Err::<bool, Seq<char>>(e.key@),
            },
    {
        match &self.expr {
            FilterExpr::LitTrue => Ok(true),
            FilterExpr::LitFalse => Ok(false),
            FilterExpr::Present(k) => match rec.lookup(k) {
                None => Ok(false),
                Some(v) => Ok(value_truthy(v)),
            },
            FilterExpr::FieldEq(k, lit) => match rec.lookup(k) {
                None => Err(EvalError { key: k.clone() }),
                Some(v) => {
                    let rendered = render_value(v);
                    Ok(str_eq(rendered.as_str(), lit.as_str()))
                },
            },
            FilterExpr::FieldNe(k, lit) => match rec.lookup(k) {
                None => Err(EvalError { key: k.clone() }),
                Some(v) => {
                    let rendered = render_value(v);
                    Ok(!str_eq(rendered.as_str(), lit.as_str()))
                },
            },
        }
    }
}

/// Whether the source begins with the spelled-out `return `.
fn matches_return_prefix(source: &str) -> (r: bool)
    ensures
        r == (source@.len() >= 7 && source@.subrange(0, 7) == "return "@),
{
    let n = source.unicode_len();
    if n < 7 {
        return false;
    }
    let head = source.substring_char(0, 7);
    let word = "return ";
    proof {
        reveal_strlit("return ");
    }
    str_eq(head, word)
}

/// Whether a field value keeps a bare-field predicate.
fn value_truthy(v: &JsonValue) -> (r: bool)
    ensures
        r == truthy(v@),
{
    match v {
        JsonValue::Null => false,
        JsonValue::Bool(b) => *b,
        JsonValue::Str(s) => s.unicode_len() > 0,
        _ => true,
    }
}

/// Parses a predicate body.
fn parse_body_str(body: &str) -> (r: Option<FilterExpr>)
    ensures
        match r {
            Some(e) => parse_body(body@) == Some(e@),
            None => parse_body(body@) is None,
        },
{
    let n = body.unicode_len();
    if str_eq(body, "true") {
        return Some(FilterExpr::LitTrue);
    }
    if str_eq(body, "false") {
        return Some(FilterExpr::LitFalse);
    }
    match find_str(body, " == ", 0) {
        Some(i) => {
            proof {
                reveal_strlit(" == ");
            }
            let rest = body.substring_char(i + 4, n);
            match parse_quoted_str(rest) {
                Some(lit) => if i > 0 {
                    let field = String::from_str(body.substring_char(0, i));
                    Some(FilterExpr::FieldEq(field, lit))
                } else {
                    None
                },
                None => None,
            }
        },
        None => {
            proof {
                reveal_strlit(" == ");
            }
            match find_str(body, " != ", 0) {
                Some(i) => {
                    proof {
                        reveal_strlit(" != ");
                    }
                    let rest = body.substring_char(i + 4, n);
                    match parse_quoted_str(rest) {
                        Some(lit) => if i > 0 {
                            let field = String::from_str(body.substring_char(0, i));
                            Some(FilterExpr::FieldNe(field, lit))
                        } else {
                            None
                        },
                        None => None,
                    }
                },
                None => {
                    proof {
                        reveal_strlit(" != ");
                    }
                    if n > 0 {
                        Some(FilterExpr::Present(String::from_str(body)))
                    } else {
                        None
                    }
                },
            }
        },
    }
}

/// The text of a quoted literal, when `s` is one.
fn parse_quoted_str(s: &str) -> (r: Option<String>)
    ensures
        match r {
            Some(t) => parse_quoted(s@) == Some(t@),
            None => parse_quoted(s@) is None,
        },
{
    let n = s.unicode_len();
    if n < 2 {
        return None;
    }
    let first = s.get_char(0);
    let last = s.get_char(n - 1);
    if first == '"' && last == '"' {
        Some(String::from_str(s.substring_char(1, n - 1)))
    } else {
        None
    }
}

} // verus!
