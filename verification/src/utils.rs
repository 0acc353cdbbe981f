//! Byte-sequence utilities.
//!
//! The library represents every piece of text as UTF-8 bytes in a `Vec<u8>`,
//! so that documents, paths and replies can be specified exactly as sequences
//! of bytes.  This module holds the small verified helpers the rest of the
//! crate builds on.

use vstd::prelude::*;

verus! {

use vstd::string::StringSliceAdditionalSpecFns;

/// The UTF-8 bytes of a string slice, as a specification-level sequence.
pub open spec fn str_bytes(s: &str) -> Seq<u8> {
    s.spec_bytes()
}

/// Copies a string literal into the byte representation used by the crate.
pub fn bytes_of(s: &str) -> (r: Vec<u8>)
    ensures
        r@ == str_bytes(s),
{
    let b = s.as_bytes();
    let mut r: Vec<u8> = Vec::new();
    let mut i: usize = 0;
    while i < b.len()
        invariant
            i <= b@.len(),
            b@ == str_bytes(s),
            r@ == b@.subrange(0, i as int),
        decreases b@.len() - i,
    {
        r.push(b[i]);
        i = i + 1;
    }
    proof {
        assert(r@ =~= str_bytes(s));
    }
    r
}

/// Copies a byte vector.
pub fn copy_bytes(v: &Vec<u8>) -> (r: Vec<u8>)
    ensures
        r@ == v@,
{
    let mut r: Vec<u8> = Vec::new();
    let mut i: usize = 0;
    while i < v.len()
        invariant
            i <= v@.len(),
            r@ == v@.subrange(0, i as int),
        decreases v@.len() - i,
    {
        r.push(v[i]);
        i = i + 1;
    }
    proof {
        assert(r@ =~= v@);
    }
    r
}

/// Appends the bytes of `src` to `dst`.
pub fn append_bytes(dst: &mut Vec<u8>, src: &Vec<u8>)
    ensures
        final(dst)@ == old(dst)@ + src@,
{
    let mut i: usize = 0;
    while i < src.len()
        invariant
            i <= src@.len(),
            dst@ == old(dst)@ + src@.subrange(0, i as int),
        decreases src@.len() - i,
    {
        dst.push(src[i]);
        i = i + 1;
    }
    proof {
        assert(dst@ =~= old(dst)@ + src@);
    }
}

/// Appends the bytes of a string literal to `dst`.
pub fn append_str(dst: &mut Vec<u8>, s: &str)
    ensures
        final(dst)@ == old(dst)@ + str_bytes(s),
{
    let v = bytes_of(s);
    append_bytes(dst, &v);
}

/// Compares two byte vectors for equality of their contents.
pub fn bytes_eq(a: &Vec<u8>, b: &Vec<u8>) -> (r: bool)
    ensures
        r == (a@ == b@),
{
    if a.len() != b.len() {
        return false;
    }
    let mut i: usize = 0;
    while i < a.len()
        invariant
            i <= a@.len(),
            a@.len() == b@.len(),
            forall|j: int| 0 <= j < i ==> a@[j] == b@[j],
        decreases a@.len() - i,
    {
        if a[i] != b[i] {
            return false;
        }
        i = i + 1;
    }
    proof {
        assert(a@ =~= b@);
    }
    true
}

/// Compares a byte vector against a string literal.
pub fn bytes_eq_str(a: &Vec<u8>, s: &str) -> (r: bool)
    ensures
        r == (a@ == str_bytes(s)),
{
    let b = bytes_of(s);
    bytes_eq(a, &b)
}

/// ASCII whitespace, as trimmed from interactive answers.
pub open spec fn is_ascii_space(b: u8) -> bool {
    b == 32 || b == 9 || b == 10 || b == 13
}

/// `s` without its leading ASCII whitespace.
pub open spec fn spec_trim_front(s: Seq<u8>) -> Seq<u8>
    decreases s.len(),
{
    if s.len() > 0 && is_ascii_space(s[0]) {
        spec_trim_front(s.drop_first())
    } else {
        s
    }
}

/// `s` without its trailing ASCII whitespace.
pub open spec fn spec_trim_back(s: Seq<u8>) -> Seq<u8>
    decreases s.len(),
{
    if s.len() > 0 && is_ascii_space(s.last()) {
        spec_trim_back(s.drop_last())
    } else {
        s
    }
}

/// `s` without leading and trailing ASCII whitespace.
pub open spec fn spec_trim(s: Seq<u8>) -> Seq<u8> {
    spec_trim_back(spec_trim_front(s))
}

proof fn lemma_trim_front_skip(s: Seq<u8>, k: int)
    requires
        0 <= k <= s.len(),
        forall|j: int| 0 <= j < k ==> is_ascii_space(s[j]),
        k < s.len() ==> !is_ascii_space(s[k]),
    ensures
        spec_trim_front(s) == s.skip(k),
    decreases k,
{
    if k == 0 {
        if s.len() > 0 && is_ascii_space(s[0]) {
        } else {
            assert(s.skip(0) =~= s);
        }
    } else {
        assert(is_ascii_space(s[0]));
        assert(s.drop_first() =~= s.skip(1));
        lemma_trim_front_skip(s.skip(1), k - 1);
        assert(s.skip(1).skip(k - 1) =~= s.skip(k));
    }
}

proof fn lemma_trim_back_take(s: Seq<u8>, k: int)
    requires
        0 <= k <= s.len(),
        forall|j: int| k <= j < s.len() ==> is_ascii_space(s[j]),
        k > 0 ==> !is_ascii_space(s[k - 1]),
    ensures
        spec_trim_back(s) == s.take(k),
    decreases s.len() - k,
{
    if k == s.len() {
        if s.len() > 0 && is_ascii_space(s.last()) {
        } else {
            assert(s.take(k) =~= s);
        }
    } else {
        assert(is_ascii_space(s.last()));
        assert(s.drop_last() =~= s.take(s.len() - 1));
        lemma_trim_back_take(s.take(s.len() - 1), k);
    }
}

/// Decides [`is_ascii_space`] on one byte.
fn is_space_byte(b: u8) -> (r: bool)
    ensures
        r == is_ascii_space(b),
{
    b == 32 || b == 9 || b == 10 || b == 13
}

/// Trims ASCII whitespace from both ends, as interactive answers are trimmed.
pub fn trim_bytes(s: &Vec<u8>) -> (r: Vec<u8>)
    ensures
        r@ == spec_trim(s@),
{
    let mut lo: usize = 0;
    while lo < s.len() && is_space_byte(s[lo])
        invariant
            lo <= s@.len(),
            forall|j: int| 0 <= j < lo ==> is_ascii_space(s@[j]),
        decreases s@.len() - lo,
    {
        lo = lo + 1;
    }
    proof {
        lemma_trim_front_skip(s@, lo as int);
    }
    let ghost front = s@.skip(lo as int);
    let mut hi: usize = s.len();
    while hi > lo && is_space_byte(s[hi - 1])
        invariant
            lo <= hi <= s@.len(),
            front == s@.skip(lo as int),
            forall|j: int| hi <= j < s@.len() ==> is_ascii_space(s@[j]),
        decreases hi,
    {
        hi = hi - 1;
    }
    proof {
        assert(forall|j: int| #![auto] 0 <= j < front.len() ==> front[j] == s@[lo + j]);
        assert(hi - lo > 0 ==> !is_ascii_space(front[hi - lo - 1]));
        lemma_trim_back_take(front, hi - lo);
    }
    let mut r: Vec<u8> = Vec::new();
    let mut i: usize = lo;
    while i < hi
        invariant
            lo <= i <= hi <= s@.len(),
            r@ == s@.subrange(lo as int, i as int),
        decreases hi - i,
    {
        r.push(s[i]);
        i = i + 1;
    }
    proof {
        assert(r@ =~= front.take(hi - lo));
    }
    r
}

/// `s` with every ASCII whitespace byte removed, as session names are
/// sanitized.
pub open spec fn spec_remove_whitespace(s: Seq<u8>) -> Seq<u8>
    decreases s.len(),
{
    if s.len() == 0 {
        Seq::empty()
    } else if is_ascii_space(s[0]) {
        spec_remove_whitespace(s.drop_first())
    } else {
        seq![s[0]] + spec_remove_whitespace(s.drop_first())
    }
}

proof fn lemma_remove_whitespace_snoc(s: Seq<u8>, b: u8)
    ensures
        spec_remove_whitespace(s.push(b)) == spec_remove_whitespace(s) + (if is_ascii_space(b) {
            Seq::<u8>::empty()
        } else {
            seq![b]
        }),
    decreases s.len(),
{
    if s.len() == 0 {
        assert(s.push(b).drop_first() =~= Seq::<u8>::empty());
        assert(spec_remove_whitespace(Seq::<u8>::empty()) == Seq::<u8>::empty());
        assert(s.push(b)[0] == b);
        if is_ascii_space(b) {
            assert(spec_remove_whitespace(s.push(b)) == spec_remove_whitespace(
                Seq::<u8>::empty(),
            ));
            assert(spec_remove_whitespace(s) + Seq::<u8>::empty() =~= Seq::<u8>::empty());
        } else {
            assert(spec_remove_whitespace(s.push(b)) == seq![b] + spec_remove_whitespace(
                Seq::<u8>::empty(),
            ));
            assert(seq![b] + spec_remove_whitespace(Seq::<u8>::empty()) =~= seq![b]);
            assert(spec_remove_whitespace(s) + seq![b] =~= seq![b]);
        }
    } else {
        assert(s.push(b).drop_first() =~= s.drop_first().push(b));
        lemma_remove_whitespace_snoc(s.drop_first(), b);
        if !is_ascii_space(s[0]) {
            assert(seq![s[0]] + (spec_remove_whitespace(s.drop_first()) + (if is_ascii_space(b) {
                Seq::<u8>::empty()
            } else {
                seq![b]
            })) =~= (seq![s[0]] + spec_remove_whitespace(s.drop_first())) + (if is_ascii_space(b) {
                Seq::<u8>::empty()
            } else {
                seq![b]
            }));
        }
    }
}

/// Removes every ASCII whitespace byte from `s`.
pub fn remove_whitespace(s: &Vec<u8>) -> (r: Vec<u8>)
    ensures
        r@ == spec_remove_whitespace(s@),
{
    let mut r: Vec<u8> = Vec::new();
    let mut i: usize = 0;
    while i < s.len()
        invariant
            i <= s@.len(),
            r@ == spec_remove_whitespace(s@.subrange(0, i as int)),
        decreases s@.len() - i,
    {
        proof {
            assert(s@.subrange(0, i + 1) =~= s@.subrange(0, i as int).push(s@[i as int]));
            lemma_remove_whitespace_snoc(s@.subrange(0, i as int), s@[i as int]);
        }
        if !is_space_byte(s[i]) {
            r.push(s[i]);
        }
        i = i + 1;
    }
    proof {
        assert(s@.subrange(0, s@.len() as int) =~= s@);
    }
    r
}

/// The file extensions the terminal-assistant persona counts as
/// executable programs.
pub open spec fn spec_is_executable_extension(ext: Seq<u8>) -> bool {
    ||| ext == str_bytes("com")
    ||| ext == str_bytes("exe")
    ||| ext == str_bytes("bat")
    ||| ext == str_bytes("cmd")
    ||| ext == str_bytes("vbs")
    ||| ext == str_bytes("vbe")
    ||| ext == str_bytes("wsf")
    ||| ext == str_bytes("wsh")
    ||| ext == str_bytes("msc")
    ||| ext == str_bytes("ps1")
}

/// Decides whether a file extension names an executable program kind.
pub fn is_executable_extension(ext: &Vec<u8>) -> (r: bool)
    ensures
        r == spec_is_executable_extension(ext@),
{
    bytes_eq_str(ext, "com") || bytes_eq_str(ext, "exe") || bytes_eq_str(ext, "bat")
        || bytes_eq_str(ext, "cmd") || bytes_eq_str(ext, "vbs") || bytes_eq_str(ext, "vbe")
        || bytes_eq_str(ext, "wsf") || bytes_eq_str(ext, "wsh") || bytes_eq_str(ext, "msc")
        || bytes_eq_str(ext, "ps1")
}

} // verus!

