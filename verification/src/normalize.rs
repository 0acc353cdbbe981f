//! Normalization of the model's reply text before it is rendered.
//!
//! The reply is extracted from the response envelope in its raw, escaped
//! form.  A literal backslash-n sequence in it stands for a line break and
//! becomes one; an escaped backslash before an `n` stands for a literal
//! backslash-n and is kept as those two characters.  Both rules hold
//! simultaneously on mixed input, and [`spec_process_newlines`] states them
//! exactly.  A few punctuation touch-ups and a pass that settles line
//! endings follow.

use vstd::prelude::*;

verus! {

// ---------------------------------------------------------------------------
// Escaped-newline normalization.
// ---------------------------------------------------------------------------

/// The escaped-newline rule, applied left to right: `\\n` (escaped
/// backslash, then `n`) becomes the two characters `\n`; `\n` (backslash,
/// then `n`) becomes a line break; every other byte is kept.
pub open spec fn spec_process_newlines(s: Seq<u8>) -> Seq<u8>
    decreases s.len(),
{
    if s.len() >= 3 && s[0] == 92 && s[1] == 92 && s[2] == 110 {
        seq![92u8, 110] + spec_process_newlines(s.skip(3))
    } else if s.len() >= 2 && s[0] == 92 && s[1] == 110 {
        seq![10u8] + spec_process_newlines(s.skip(2))
    } else if s.len() == 0 {
        Seq::empty()
    } else {
        seq![s[0]] + spec_process_newlines(s.skip(1))
    }
}

/// Applies the escaped-newline rule to `input`.
pub fn process_newlines(input: &Vec<u8>) -> (r: Vec<u8>)
    ensures
        r@ == spec_process_newlines(input@),
{
    let mut out: Vec<u8> = Vec::new();
    let mut i: usize = 0;
    proof {
        assert(input@.skip(0) =~= input@);
        assert(Seq::<u8>::empty() + spec_process_newlines(input@) =~= spec_process_newlines(
            input@,
        ));
    }
    while i < input.len()
        invariant
            i <= input@.len(),
            spec_process_newlines(input@) == out@ + spec_process_newlines(input@.skip(i as int)),
        decreases input@.len() - i,
    {
        let ghost suffix = input@.skip(i as int);
        proof {
            assert(suffix[0] == input@[i as int]);
            if suffix.len() >= 2 {
                assert(suffix[1] == input@[i + 1]);
            }
            if suffix.len() >= 3 {
                assert(suffix[2] == input@[i + 2]);
            }
            assert(suffix.skip(1) =~= input@.skip(i + 1));
            if suffix.len() >= 2 {
                assert(suffix.skip(2) =~= input@.skip(i + 2));
            }
            if suffix.len() >= 3 {
                assert(suffix.skip(3) =~= input@.skip(i + 3));
            }
        }
        let ghost out0 = out@;
        if input.len() - i >= 3 && input[i] == 92 && input[i + 1] == 92 && input[i + 2] == 110 {
            out.push(92);
            out.push(110);
            proof {
                assert(out@ =~= out0 + seq![92u8, 110]);
                assert(out0 + (seq![92u8, 110] + spec_process_newlines(input@.skip(i + 3))) =~= out@
                    + spec_process_newlines(input@.skip(i + 3)));
            }
            i = i + 3;
        } else if input.len() - i >= 2 && input[i] == 92 && input[i + 1] == 110 {
            out.push(10);
            proof {
                assert(out@ =~= out0 + seq![10u8]);
                assert(out0 + (seq![10u8] + spec_process_newlines(input@.skip(i + 2))) =~= out@
                    + spec_process_newlines(input@.skip(i + 2)));
            }
            i = i + 2;
        } else {
            let b = input[i];
            out.push(b);
            proof {
                assert(out@ =~= out0 + seq![b]);
                assert(out0 + (seq![b] + spec_process_newlines(input@.skip(i + 1))) =~= out@
                    + spec_process_newlines(input@.skip(i + 1)));
            }
            i = i + 1;
        }
    }
    proof {
        assert(input@.skip(input@.len() as int) =~= Seq::<u8>::empty());
        assert(out@ + Seq::<u8>::empty() =~= out@);
    }
    out
}

// ---------------------------------------------------------------------------
// Literal replacement.
// ---------------------------------------------------------------------------

/// Replaces every occurrence of `pat` in `s` with `rep`, left to right,
/// never rescanning replaced text.
pub open spec fn spec_replace_all(s: Seq<u8>, pat: Seq<u8>, rep: Seq<u8>) -> Seq<u8>
    decreases s.len(),
    when pat.len() > 0
{
    if s.len() < pat.len() {
        s
    } else if s.subrange(0, pat.len() as int) == pat {
        rep + spec_replace_all(s.skip(pat.len() as int), pat, rep)
    } else {
        seq![s[0]] + spec_replace_all(s.skip(1), pat, rep)
    }
}

/// Decides whether `pat` occurs in `s` at position `i`.
fn is_match_at(s: &Vec<u8>, i: usize, pat: &Vec<u8>) -> (r: bool)
    requires
        i <= s@.len(),
    ensures
        r == (i + pat@.len() <= s@.len() && s@.subrange(i as int, i + pat@.len()) == pat@),
{
    if s.len() - i < pat.len() {
        return false;
    }
    let mut k: usize = 0;
    while k < pat.len()
        invariant
            k <= pat@.len(),
            i + pat@.len() <= s@.len(),
            s@.len() <= usize::MAX,
            forall|j: int| 0 <= j < k ==> s@[i + j] == pat@[j],
        decreases pat@.len() - k,
    {
        if s[i + k] != pat[k] {
            proof {
                assert(s@.subrange(i as int, i + pat@.len())[k as int] == s@[i + k]);
            }
            return false;
        }
        k = k + 1;
    }
    proof {
        assert(s@.subrange(i as int, i + pat@.len()) =~= pat@);
    }
    true
}

/// Replaces every occurrence of `pat` in `s` with `rep`.
pub fn replace_all(s: &Vec<u8>, pat: &Vec<u8>, rep: &Vec<u8>) -> (r: Vec<u8>)
    requires
        pat@.len() > 0,
    ensures
        r@ == spec_replace_all(s@, pat@, rep@),
{
    let mut out: Vec<u8> = Vec::new();
    let mut i: usize = 0;
    proof {
        assert(s@.skip(0) =~= s@);
        assert(Seq::<u8>::empty() + spec_replace_all(s@, pat@, rep@) =~= spec_replace_all(
            s@,
            pat@,
            rep@,
        ));
    }
    while i < s.len()
        invariant
            i <= s@.len(),
            pat@.len() > 0,
            spec_replace_all(s@, pat@, rep@) == out@ + spec_replace_all(
                s@.skip(i as int),
                pat@,
                rep@,
            ),
        decreases s@.len() - i,
    {
        let ghost suffix = s@.skip(i as int);
        proof {
            assert(suffix[0] == s@[i as int]);
            assert(suffix.skip(1) =~= s@.skip(i + 1));
            if i + pat@.len() <= s@.len() {
                assert(suffix.subrange(0, pat@.len() as int) =~= s@.subrange(
                    i as int,
                    i + pat@.len(),
                ));
                assert(suffix.skip(pat@.len() as int) =~= s@.skip(i + pat@.len()));
            }
        }
        let ghost out0 = out@;
        if is_match_at(s, i, pat) {
            crate::utils::append_bytes(&mut out, rep);
            proof {
                assert(out0 + (rep@ + spec_replace_all(s@.skip(i + pat@.len()), pat@, rep@)) =~=
                out@ + spec_replace_all(s@.skip(i + pat@.len()), pat@, rep@));
            }
            i = i + pat.len();
        } else {
            let b = s[i];
            out.push(b);
            proof {
                assert(suffix.len() < pat@.len() || suffix.subrange(0, pat@.len() as int)
                    != pat@);
                assert(out@ =~= out0 + seq![b]);
                assert(out0 + (seq![b] + spec_replace_all(s@.skip(i + 1), pat@, rep@)) =~= out@
                    + spec_replace_all(s@.skip(i + 1), pat@, rep@));
            }
            i = i + 1;
        }
    }
    proof {
        assert(s@.skip(s@.len() as int) =~= Seq::<u8>::empty());
    }
    out
}

// ---------------------------------------------------------------------------
// Quote stripping.
// ---------------------------------------------------------------------------

/// `s` without its leading double quotes.
pub open spec fn spec_strip_quotes_front(s: Seq<u8>) -> Seq<u8>
    decreases s.len(),
{
    if s.len() > 0 && s[0] == 34 {
        spec_strip_quotes_front(s.drop_first())
    } else {
        s
    }
}

/// `s` without its trailing double quotes.
pub open spec fn spec_strip_quotes_back(s: Seq<u8>) -> Seq<u8>
    decreases s.len(),
{
    if s.len() > 0 && s.last() == 34 {
        spec_strip_quotes_back(s.drop_last())
    } else {
        s
    }
}

/// `s` without leading and trailing double quotes, as the raw reply text is
/// unwrapped from its JSON rendering.
pub open spec fn spec_strip_quotes(s: Seq<u8>) -> Seq<u8> {
    spec_strip_quotes_back(spec_strip_quotes_front(s))
}

proof fn lemma_strip_front_skip(s: Seq<u8>, k: int)
    requires
        0 <= k <= s.len(),
        forall|j: int| 0 <= j < k ==> s[j] == 34,
        k < s.len() ==> s[k] != 34,
    ensures
        spec_strip_quotes_front(s) == s.skip(k),
    decreases k,
{
    if k == 0 {
        if s.len() > 0 && s[0] == 34 {
        } else {
            assert(s.skip(0) =~= s);
        }
    } else {
        assert(s.drop_first() =~= s.skip(1));
        lemma_strip_front_skip(s.skip(1), k - 1);
        assert(s.skip(1).skip(k - 1) =~= s.skip(k));
    }
}

proof fn lemma_strip_back_take(s: Seq<u8>, k: int)
    requires
        0 <= k <= s.len(),
        forall|j: int| k <= j < s.len() ==> s[j] == 34,
        k > 0 ==> s[k - 1] != 34,
    ensures
        spec_strip_quotes_back(s) == s.take(k),
    decreases s.len() - k,
{
    if k == s.len() {
        if s.len() > 0 && s.last() == 34 {
        } else {
            assert(s.take(k) =~= s);
        }
    } else {
        assert(s.drop_last() =~= s.take(s.len() - 1));
        lemma_strip_back_take(s.take(s.len() - 1), k);
    }
}

/// Strips leading and trailing double quotes from `s`.
pub fn strip_quotes(s: &Vec<u8>) -> (r: Vec<u8>)
    ensures
        r@ == spec_strip_quotes(s@),
{
    let mut lo: usize = 0;
    while lo < s.len() && s[lo] == 34
        invariant
            lo <= s@.len(),
            forall|j: int| 0 <= j < lo ==> s@[j] == 34,
        decreases s@.len() - lo,
    {
        lo = lo + 1;
    }
    proof {
        lemma_strip_front_skip(s@, lo as int);
    }
    let ghost front = s@.skip(lo as int);
    let mut hi: usize = s.len();
    while hi > lo && s[hi - 1] == 34
        invariant
            lo <= hi <= s@.len(),
            front == s@.skip(lo as int),
            forall|j: int| hi <= j < s@.len() ==> s@[j] == 34,
        decreases hi,
    {
        hi = hi - 1;
    }
    proof {
        assert(forall|j: int| #![auto] 0 <= j < front.len() ==> front[j] == s@[lo + j]);
        assert(hi - lo > 0 ==> front[hi - lo - 1] != 34);
        lemma_strip_back_take(front, hi - lo);
    }
    let mut r: Vec<u8> = Vec::new();
    let mut i: usize = lo;
    while i < hi
        invariant
            lo <= i <= hi <= s@.len(),
            r@ == s@.subrange(lo as int, i as int),
        decreases hi - i,
    {
        r.push(s[i]);
        i = i + 1;
    }
    proof {
        assert(r@ =~= front.take(hi - lo));
    }
    r
}

// ---------------------------------------------------------------------------
// Line endings.
// ---------------------------------------------------------------------------

/// The index of the first line break in `s`, or `s.len()` if there is none.
pub open spec fn spec_find_nl(s: Seq<u8>) -> int
    decreases s.len(),
{
    if s.len() == 0 {
        0
    } else if s[0] == 10 {
        0
    } else {
        1 + spec_find_nl(s.drop_first())
    }
}

/// A line without its trailing carriage return, if it carries one.
pub open spec fn spec_trim_cr(line: Seq<u8>) -> Seq<u8> {
    if line.len() > 0 && line.last() == 13 {
        line.drop_last()
    } else {
        line
    }
}

/// `s` split into lines, each line stripped of a trailing carriage return
/// and closed with exactly one line break.  The empty text stays empty.
pub open spec fn spec_fold_lines(s: Seq<u8>) -> Seq<u8>
    decreases s.len(),
{
    if s.len() == 0 {
        Seq::empty()
    } else {
        let k = spec_find_nl(s);
        if 0 <= k < s.len() {
            spec_trim_cr(s.take(k)) + seq![10u8] + spec_fold_lines(s.skip(k + 1))
        } else {
            spec_trim_cr(s) + seq![10u8]
        }
    }
}

proof fn lemma_find_nl_characterize(s: Seq<u8>, k: int)
    requires
        0 <= k <= s.len(),
        forall|j: int| 0 <= j < k ==> s[j] != 10,
        k < s.len() ==> s[k] == 10,
    ensures
        spec_find_nl(s) == k,
    decreases k,
{
    if s.len() == 0 {
    } else if k == 0 {
    } else {
        assert(s.drop_first() =~= s.skip(1));
        lemma_find_nl_characterize(s.skip(1), k - 1);
    }
}

/// Settles line endings as the rendered artifact wants them.
pub fn fold_lines(s: &Vec<u8>) -> (r: Vec<u8>)
    ensures
        r@ == spec_fold_lines(s@),
{
    let mut out: Vec<u8> = Vec::new();
    let mut i: usize = 0;
    proof {
        assert(s@.skip(0) =~= s@);
        assert(Seq::<u8>::empty() + spec_fold_lines(s@) =~= spec_fold_lines(s@));
    }
    while i < s.len()
        invariant
            i <= s@.len(),
            spec_fold_lines(s@) == out@ + spec_fold_lines(s@.skip(i as int)),
        decreases s@.len() - i,
    {
        let ghost suffix = s@.skip(i as int);
        let mut k: usize = i;
        while k < s.len() && s[k] != 10
            invariant
                i <= k <= s@.len(),
                forall|j: int| i <= j < k ==> s@[j] != 10,
            decreases s@.len() - k,
        {
            k = k + 1;
        }
        proof {
            assert(forall|j: int| #![auto] 0 <= j < suffix.len() ==> suffix[j] == s@[i + j]);
            lemma_find_nl_characterize(suffix, k - i);
        }
        let line_end = if k > i && s[k - 1] == 13 {
            k - 1
        } else {
            k
        };
        let ghost out0 = out@;
        let mut j: usize = i;
        while j < line_end
            invariant
                i <= j <= line_end <= s@.len(),
                out@ == out0 + s@.subrange(i as int, j as int),
            decreases line_end - j,
        {
            out.push(s[j]);
            j = j + 1;
        }
        out.push(10);
        proof {
            assert(suffix.take(k - i) =~= s@.subrange(i as int, k as int));
            if k > i && s@[k - 1] == 13 {
                assert(spec_trim_cr(suffix.take(k - i)) =~= s@.subrange(
                    i as int,
                    line_end as int,
                ));
            } else {
                assert(spec_trim_cr(suffix.take(k - i)) =~= s@.subrange(
                    i as int,
                    line_end as int,
                ));
            }
            if k < s@.len() {
                assert(suffix.skip((k - i) + 1) =~= s@.skip(k + 1));
                assert(spec_fold_lines(suffix) == spec_trim_cr(suffix.take(k - i)) + seq![10u8]
                    + spec_fold_lines(s@.skip(k + 1)));
            } else {
                assert(suffix.take(k - i) =~= suffix);
                assert(spec_fold_lines(suffix) == spec_trim_cr(suffix) + seq![10u8]);
                assert(s@.skip(s@.len() as int) =~= Seq::<u8>::empty());
            }
            assert(out@ =~= out0 + (spec_trim_cr(suffix.take(k - i)) + seq![10u8]));
        }
        if k < s.len() {
            i = k + 1;
        } else {
            i = k;
            proof {
                assert(spec_fold_lines(s@.skip(i as int)) == Seq::<u8>::empty());
                assert(out@ + Seq::<u8>::empty() =~= out@);
            }
        }
    }
    proof {
        assert(s@.skip(s@.len() as int) =~= Seq::<u8>::empty());
        assert(out@ + Seq::<u8>::empty() =~= out@);
    }
    out
}

// ---------------------------------------------------------------------------
// The whole normalization pass.
// ---------------------------------------------------------------------------

/// The touch-up normalization of a raw reply: escaped newlines settled,
/// the bold-marker spacing collapsed, every colon given a trailing space,
/// and escaped quotes unescaped.  This is the text a successful exchange
/// appends to the context log.
pub open spec fn spec_touch_up(s: Seq<u8>) -> Seq<u8> {
    spec_replace_all(
        spec_replace_all(
            spec_replace_all(spec_process_newlines(s), seq![42u8, 42, 32], seq![42u8, 42]),
            seq![58u8],
            seq![58u8, 32],
        ),
        seq![92u8, 34],
        seq![34u8],
    )
}

/// Applies the touch-up normalization to a raw reply.
pub fn touch_up(s: &Vec<u8>) -> (r: Vec<u8>)
    ensures
        r@ == spec_touch_up(s@),
{
    let step1 = process_newlines(s);
    let mut star_pat: Vec<u8> = Vec::new();
    star_pat.push(42);
    star_pat.push(42);
    star_pat.push(32);
    let mut star_rep: Vec<u8> = Vec::new();
    star_rep.push(42);
    star_rep.push(42);
    proof {
        assert(star_pat@ =~= seq![42u8, 42, 32]);
        assert(star_rep@ =~= seq![42u8, 42]);
    }
    let step2 = replace_all(&step1, &star_pat, &star_rep);
    let mut colon_pat: Vec<u8> = Vec::new();
    colon_pat.push(58);
    let mut colon_rep: Vec<u8> = Vec::new();
    colon_rep.push(58);
    colon_rep.push(32);
    proof {
        assert(colon_pat@ =~= seq![58u8]);
        assert(colon_rep@ =~= seq![58u8, 32]);
    }
    let step3 = replace_all(&step2, &colon_pat, &colon_rep);
    let mut quote_pat: Vec<u8> = Vec::new();
    quote_pat.push(92);
    quote_pat.push(34);
    let mut quote_rep: Vec<u8> = Vec::new();
    quote_rep.push(34);
    proof {
        assert(quote_pat@ =~= seq![92u8, 34]);
        assert(quote_rep@ =~= seq![34u8]);
    }
    replace_all(&step3, &quote_pat, &quote_rep)
}

/// The rendered form of a raw reply: the touch-up normalization with each
/// line closed by one line break.  This is the body of the transcript
/// entry and the text handed to the viewer.
pub open spec fn spec_normalize_reply(s: Seq<u8>) -> Seq<u8> {
    spec_fold_lines(spec_touch_up(s))
}

/// Normalizes a raw reply for rendering.
pub fn normalize_reply(s: &Vec<u8>) -> (r: Vec<u8>)
    ensures
        r@ == spec_normalize_reply(s@),
{
    let touched = touch_up(s);
    fold_lines(&touched)
}

} // verus!
