//! Placeholder substitution: rewriting `<open>key<close>` tokens in a
//! format string with values looked up among the resolved context
//! values.
//!
//! Scanning is non-overlapping and left to right; the first close
//! delimiter after an open delimiter ends the token; a key that
//! resolves to nothing is replaced with empty text; replaced text is
//! not scanned again.

use vstd::prelude::*;

use crate::textscan::find_seq;
use crate::textscan::find_str;
use crate::textscan::lemma_find_seq_first;
use crate::textscan::occurs_at;

verus! {

/// Why a placeholder format cannot be used.
#[derive(Debug)]
pub enum SubstitutionError {
    /// The placeholder format is the empty string.
    EmptyFormat,
    /// The placeholder format cannot be split into two halves.
    OddFormat,
}

/// The delimiters a run substitutes with, plus the context keys it
/// looks up.
pub struct Substitution {
    pub context_keys: Vec<String>,
    pub open_delim: String,
    pub close_delim: String,
}

/// The views of a sequence of key/value string pairs.
pub open spec fn pairs_view(v: Seq<(String, String)>) -> Seq<(Seq<char>, Seq<char>)> {
    Seq::new(v.len(), |i: int| (v[i].0@, v[i].1@))
}

/// The value under the first pair whose key is `key`; empty text when
/// no pair has it.
pub open spec fn ctx_lookup(ctx: Seq<(Seq<char>, Seq<char>)>, key: Seq<char>) -> Seq<char>
    decreases ctx.len(),
{
    if ctx.len() == 0 {
        Seq::empty()
    } else if ctx[0].0 == key {
        ctx[0].1
    } else {
        ctx_lookup(ctx.drop_first(), key)
    }
}

/// What substituting `fmt` yields: each `<open>key<close>` token is
/// replaced, left to right, by the context value of `key`.
pub open spec fn subst_spec(
    fmt: Seq<char>,
    open: Seq<char>,
    close: Seq<char>,
    ctx: Seq<(Seq<char>, Seq<char>)>,
) -> Seq<char>
    decreases fmt.len(),
{
    if open.len() == 0 || close.len() == 0 {
        fmt
    } else {
        match find_seq(fmt, open, 0) {
            None => fmt,
            Some(i) => match find_seq(fmt, close, i + open.len() as int) {
                None => fmt,
                Some(j) => if i < 0 || j < i + open.len() || j + close.len() > fmt.len() {
                    fmt  // a found position always lies in range; never the case
                } else {
                    fmt.subrange(0, i) + ctx_lookup(ctx, fmt.subrange(i + open.len() as int, j))
                        + subst_spec(
                        fmt.subrange(j + close.len() as int, fmt.len() as int),
                        open,
                        close,
                        ctx,
                    )
                },
            },
        }
    }
}

impl Substitution {
    /// Delimiters fit for scanning: both halves are there.
    pub open spec fn wf(&self) -> bool {
        self.open_delim@.len() > 0 && self.close_delim@.len() > 0
    }

    /// Splits the placeholder format into its two delimiter halves;
    /// an empty or odd-length format is a configuration error.
    pub fn new(context_keys: Vec<String>, placeholder_format: String) -> (r: Result<
        Substitution,
        SubstitutionError,
    >)
        ensures
            match r {
                Ok(s) => placeholder_format@.len() > 0 && placeholder_format@.len() % 2 == 0
                    && s.open_delim@ == placeholder_format@.subrange(
                    0,
                    placeholder_format@.len() as int / 2,
                ) && s.close_delim@ == placeholder_format@.subrange(
                    placeholder_format@.len() as int / 2,
                    placeholder_format@.len() as int,
                ) && s.wf() && s.context_keys == context_keys,
                Err(e) => (placeholder_format@.len() == 0 ==> e is EmptyFormat) && (
                placeholder_format@.len() > 0 ==> placeholder_format@.len() % 2 == 1 && (
                e is OddFormat)),
            },
            (r is Err) == (placeholder_format@.len() == 0 || placeholder_format@.len() % 2 == 1),
    {
        let fmt = placeholder_format.as_str();
        let n = fmt.unicode_len();
        if n == 0 {
            return Err(SubstitutionError::EmptyFormat);
        }
        if n % 2 == 1 {
            return Err(SubstitutionError::OddFormat);
        }
        let mid = n / 2;
        let open_half = fmt.substring_char(0, mid);
        let close_half = fmt.substring_char(mid, n);
        Ok(Substitution {
            context_keys,
            open_delim: String::from_str(open_half),
            close_delim: String::from_str(close_half),
        })
    }

    /// The context value of `key`: the value of the first matching
    /// pair, or empty text so an unresolvable placeholder vanishes.
    pub fn context_value(ctx: &Vec<(String, String)>, key: &str) -> (r: String)
        ensures
            r@ == ctx_lookup(pairs_view(ctx@), key@),
    {
        let key_string = String::from_str(key);
        let n = ctx.len();
        let mut i: usize = 0;
        proof {
            assert(pairs_view(ctx@).subrange(0, pairs_view(ctx@).len() as int) =~= pairs_view(
                ctx@,
            ));
        }
        while i < n
            invariant
                i <= n,
                n == ctx@.len(),
                pairs_view(ctx@).len() == n,
                key_string@ == key@,
                ctx_lookup(pairs_view(ctx@), key@) == ctx_lookup(
                    pairs_view(ctx@).subrange(i as int, n as int),
                    key@,
                ),
            decreases n - i,
        {
            let ghost pv = pairs_view(ctx@);
            proof {
                assert(pv.subrange(i as int, n as int)[0] == pv[i as int]);
                assert(pv[i as int] == (ctx@[i as int].0@, ctx@[i as int].1@));
            }
            if String::eq(&ctx[i].0, &key_string) {
                proof {
                    assert(ctx_lookup(pv.subrange(i as int, n as int), key@) == pv[i as int].1);
                }
                return ctx[i].1.clone();
            }
            proof {
                assert(pv.subrange(i as int, n as int).drop_first() =~= pv.subrange(
                    i as int + 1,
                    n as int,
                ));
            }
            i += 1;
        }
        proof {
            assert(pairs_view(ctx@).subrange(n as int, n as int) =~= Seq::<
                (Seq<char>, Seq<char>),
            >::empty());
        }
        String::new()
    }

    /// Rewrites every placeholder of `fmt` with its context value.
    pub fn apply(&self, fmt: &str, ctx: &Vec<(String, String)>) -> (r: String)
        requires
            self.wf(),
        ensures
            r@ == subst_spec(fmt@, self.open_delim@, self.close_delim@, pairs_view(ctx@)),
        decreases fmt@.len(),
    {
        let fl = fmt.unicode_len();
        let found_open = find_str(fmt, self.open_delim.as_str(), 0);
        match found_open {
            None => String::from_str(fmt),
            Some(i) => {
                let after = i + self.open_delim.unicode_len();
                let found_close = find_str(fmt, self.close_delim.as_str(), after);
                match found_close {
                    None => String::from_str(fmt),
                    Some(j) => {
                        let mut out = String::from_str(fmt.substring_char(0, i));
                        let key = fmt.substring_char(after, j);
                        let val = Substitution::context_value(ctx, key);
                        out.append(val.as_str());
                        let tail_start = j + self.close_delim.unicode_len();
                        let rendered_tail = self.apply(fmt.substring_char(tail_start, fl), ctx);
                        out.append(rendered_tail.as_str());
                        proof {
                            assert(out@ =~= subst_spec(
                                fmt@,
                                self.open_delim@,
                                self.close_delim@,
                                pairs_view(ctx@),
                            ));
                        }
                        out
                    },
                }
            },
        }
    }
}

/// Substituting a format that begins with the placeholder around
/// `key` yields the context value of `key` followed by the rest of the
/// format, substituted in turn.
///
/// The one condition is that the close delimiter does not begin inside
/// `key`, which is what makes the token readable at all.
pub proof fn lemma_subst_leading_placeholder(
    open: Seq<char>,
    close: Seq<char>,
    key: Seq<char>,
    rest: Seq<char>,
    ctx: Seq<(Seq<char>, Seq<char>)>,
)
    requires
        open.len() > 0,
        close.len() > 0,
        forall|p: int| 0 <= p < key.len() ==> !occurs_at(key + close, close, p),
    ensures
        subst_spec(open + key + close + rest, open, close, ctx) == ctx_lookup(ctx, key)
            + subst_spec(rest, open, close, ctx),
{
    let fmt = open + key + close + rest;
    assert(occurs_at(fmt, open, 0)) by {
        assert(fmt.subrange(0, open.len() as int) =~= open);
    }
    lemma_find_seq_first(fmt, open, 0, 0);
    let t = open.len() as int + key.len() as int;
    assert(occurs_at(fmt, close, t)) by {
        assert(fmt.subrange(t, t + close.len() as int) =~= close);
    }
    assert forall|p: int| open.len() <= p < t implies !occurs_at(fmt, close, p) by {
        let q = p - open.len() as int;
        assert(!occurs_at(key + close, close, q));
        if occurs_at(fmt, close, p) {
            assert(fmt.subrange(p, p + close.len() as int) =~= (key + close).subrange(
                q,
                q + close.len() as int,
            ));
            assert(occurs_at(key + close, close, q));
        }
    }
    lemma_find_seq_first(fmt, close, open.len() as int, t);
    assert(fmt.subrange(open.len() as int, t) =~= key);
    assert(fmt.subrange(0, 0) =~= Seq::<char>::empty());
    assert(fmt.subrange(t + close.len() as int, fmt.len() as int) =~= rest);
    assert(subst_spec(fmt, open, close, ctx) =~= ctx_lookup(ctx, key) + subst_spec(
        rest,
        open,
        close,
        ctx,
    ));
}

/// Substituting a format that is exactly one placeholder around `key`
/// yields exactly the context value of `key`: the value is substituted
/// once and no delimiter text remains.
///
/// The one condition is that the close delimiter does not begin inside
/// `key`, which is what makes the token readable at all.
pub proof fn lemma_placeholder_round_trip(
    open: Seq<char>,
    close: Seq<char>,
    key: Seq<char>,
    ctx: Seq<(Seq<char>, Seq<char>)>,
)
    requires
        open.len() > 0,
        close.len() > 0,
        forall|p: int| 0 <= p < key.len() ==> !occurs_at(key + close, close, p),
    ensures
        subst_spec(open + key + close, open, close, ctx) == ctx_lookup(ctx, key),
{
    let fmt = open + key + close;
    assert(occurs_at(fmt, open, 0)) by {
        assert(fmt.subrange(0, open.len() as int) =~= open);
    }
    lemma_find_seq_first(fmt, open, 0, 0);
    let t = open.len() as int + key.len() as int;
    assert(occurs_at(fmt, close, t)) by {
        assert(fmt.subrange(t, t + close.len() as int) =~= close);
    }
    assert forall|p: int| open.len() <= p < t implies !occurs_at(fmt, close, p) by {
        let q = p - open.len() as int;
        assert(!occurs_at(key + close, close, q));
        if occurs_at(fmt, close, p) {
            assert(fmt.subrange(p, p + close.len() as int) =~= (key + close).subrange(
                q,
                q + close.len() as int,
            ));
            assert(occurs_at(key + close, close, q));
        }
    }
    lemma_find_seq_first(fmt, close, open.len() as int, t);
    assert(fmt.subrange(open.len() as int, t) =~= key);
    assert(fmt.subrange(0, 0) =~= Seq::<char>::empty());
    assert(fmt.subrange(t + close.len() as int, fmt.len() as int) =~= Seq::<char>::empty());
    assert(subst_spec(Seq::<char>::empty(), open, close, ctx) == Seq::<char>::empty()) by {
        assert(find_seq(Seq::<char>::empty(), open, 0) is None);
    }
    assert(subst_spec(fmt, open, close, ctx) =~= ctx_lookup(ctx, key));
}

} // verus!
