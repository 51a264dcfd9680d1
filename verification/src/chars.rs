//! Character classes and runs.
//!
//! The grammar only ever asks three questions of a single character: is it
//! whitespace, is it a decimal digit, and how long is the run of such
//! characters at the front of the text.  `run_len` is the one spec-level
//! notion of a run; the named predicates pin down which class is meant.

use vstd::prelude::*;
use vstd::string::*;

verus! {

/// Whitespace as the transcript uses it: blank, tab, newline, carriage return.
pub open spec fn is_ws_char(c: char) -> bool {
    c == ' ' || c == '\t' || c == '\n' || c == '\r'
}

/// A decimal digit.
pub open spec fn is_digit_char(c: char) -> bool {
    ('0' as u32) <= (c as u32) && (c as u32) <= ('9' as u32)
}

pub open spec fn ws_pred() -> spec_fn(char) -> bool {
    |c: char| is_ws_char(c)
}

pub open spec fn digit_pred() -> spec_fn(char) -> bool {
    |c: char| is_digit_char(c)
}

pub open spec fn nonws_pred() -> spec_fn(char) -> bool {
    |c: char| !is_ws_char(c)
}

/// Length of the longest prefix of `s` whose characters all satisfy `p`.
pub open spec fn run_len(s: Seq<char>, p: spec_fn(char) -> bool) -> int
    decreases s.len(),
{
    if s.len() > 0 && p(s[0]) {
        1 + run_len(s.drop_first(), p)
    } else {
        0
    }
}

pub open spec fn ws_len(s: Seq<char>) -> int {
    run_len(s, ws_pred())
}

pub open spec fn digits_len(s: Seq<char>) -> int {
    run_len(s, digit_pred())
}

pub open spec fn nonws_len(s: Seq<char>) -> int {
    run_len(s, nonws_pred())
}

/// A run is in bounds, all of its characters satisfy `p`, and it stops at the
/// first character that does not.
pub proof fn lemma_run_len(s: Seq<char>, p: spec_fn(char) -> bool)
    ensures
        0 <= run_len(s, p) <= s.len(),
        forall|j: int| 0 <= j < run_len(s, p) ==> p(s[j]),
        run_len(s, p) < s.len() ==> !p(s[run_len(s, p)]),
    decreases s.len(),
{
    if s.len() > 0 && p(s[0]) {
        let t = s.drop_first();
        lemma_run_len(t, p);
        assert forall|j: int| 0 <= j < run_len(s, p) implies p(s[j]) by {
            if j >= 1 {
                assert(s[j] == t[j - 1]);
            }
        }
        if run_len(s, p) < s.len() {
            assert(s[run_len(s, p)] == t[run_len(t, p)]);
        }
    }
}

/// Any bound with those three properties is the run length.
pub proof fn lemma_run_len_is(s: Seq<char>, p: spec_fn(char) -> bool, k: int)
    requires
        0 <= k <= s.len(),
        forall|j: int| 0 <= j < k ==> p(s[j]),
        k < s.len() ==> !p(s[k]),
    ensures
        run_len(s, p) == k,
    decreases s.len(),
{
    if s.len() > 0 && p(s[0]) {
        let t = s.drop_first();
        assert(k != 0);
        assert forall|j: int| 0 <= j < k - 1 implies p(t[j]) by {
            assert(t[j] == s[j + 1]);
        }
        if k - 1 < t.len() {
            assert(t[k - 1] == s[k]);
        }
        lemma_run_len_is(t, p, k - 1);
    } else {
        if s.len() > 0 && k > 0 {
            assert(p(s[0]));
        }
    }
}

pub fn ws_char(c: char) -> (b: bool)
    ensures
        b == is_ws_char(c),
{
    c == ' ' || c == '\t' || c == '\n' || c == '\r'
}

pub fn digit_char(c: char) -> (b: bool)
    ensures
        b == is_digit_char(c),
{
    ('0' as u32) <= (c as u32) && (c as u32) <= ('9' as u32)
}

/// Number of leading whitespace characters of `s`.
pub fn ws_count(s: &str) -> (k: usize)
    ensures
        k as int == ws_len(s@),
        k <= s@.len(),
{
    let n = s.unicode_len();
    let mut i: usize = 0;
    while i < n && ws_char(s.get_char(i))
        invariant
            0 <= i <= n,
            n == s@.len(),
            forall|j: int| 0 <= j < i ==> is_ws_char(s@[j]),
        decreases n - i,
    {
        i = i + 1;
    }
    proof {
        lemma_run_len_is(s@, ws_pred(), i as int);
    }
    i
}

/// Number of leading decimal digits of `s`.
pub fn digit_count(s: &str) -> (k: usize)
    ensures
        k as int == digits_len(s@),
        k <= s@.len(),
{
    let n = s.unicode_len();
    let mut i: usize = 0;
    while i < n && digit_char(s.get_char(i))
        invariant
            0 <= i <= n,
            n == s@.len(),
            forall|j: int| 0 <= j < i ==> is_digit_char(s@[j]),
        decreases n - i,
    {
        i = i + 1;
    }
    proof {
        lemma_run_len_is(s@, digit_pred(), i as int);
    }
    i
}

/// Number of leading non-whitespace characters of `s`.
pub fn nonws_count(s: &str) -> (k: usize)
    ensures
        k as int == nonws_len(s@),
        k <= s@.len(),
{
    let n = s.unicode_len();
    let mut i: usize = 0;
    while i < n && !ws_char(s.get_char(i))
        invariant
            0 <= i <= n,
            n == s@.len(),
            forall|j: int| 0 <= j < i ==> !is_ws_char(s@[j]),
        decreases n - i,
    {
        i = i + 1;
    }
    proof {
        lemma_run_len_is(s@, nonws_pred(), i as int);
    }
    i
}

/// The suffix of `s` past its leading whitespace.
pub fn skip_ws<'a>(s: &'a str) -> (r: &'a str)
    ensures
        r@ == s@.skip(ws_len(s@)),
{
    let n = s.unicode_len();
    let k = ws_count(s);
    let r = s.substring_char(k, n);
    proof {
        assert(r@ =~= s@.skip(ws_len(s@)));
    }
    r
}

} // verus!
