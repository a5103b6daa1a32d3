//! The shared text and contributions are sequences of UTF-8 bytes. This
//! module holds the byte-level vocabulary the rest of the library speaks:
//! ASCII whitespace, trimming, and the prefix order on snapshots.

use vstd::prelude::*;

verus! {

/// ASCII whitespace, the bytes `trim` strips: space, tab, line feed,
/// carriage return.
pub open spec fn is_space(b: u8) -> bool {
    b == 32 || b == 9 || b == 10 || b == 13
}

/// True when every byte of `s` is whitespace (vacuously true of the empty
/// sequence).
pub open spec fn all_space(s: Seq<u8>) -> bool {
    forall|i: int| 0 <= i < s.len() ==> is_space(s[i])
}

/// `s` with its leading whitespace removed.
pub open spec fn trim_start(s: Seq<u8>) -> Seq<u8>
    decreases s.len(),
{
    if s.len() == 0 {
        s
    } else if is_space(s[0]) {
        trim_start(s.drop_first())
    } else {
        s
    }
}

/// `s` with its trailing whitespace removed.
pub open spec fn trim_end(s: Seq<u8>) -> Seq<u8>
    decreases s.len(),
{
    if s.len() == 0 {
        s
    } else if is_space(s.last()) {
        trim_end(s.drop_last())
    } else {
        s
    }
}

/// `s` with whitespace removed from both ends: what a submitted buffer is
/// reduced to before it can become a contribution.
pub open spec fn trimmed(s: Seq<u8>) -> Seq<u8> {
    trim_end(trim_start(s))
}

/// Executable counterpart of `is_space`.
pub fn space_byte(b: u8) -> (r: bool)
    ensures
        r == is_space(b),
{
    b == 32 || b == 9 || b == 10 || b == 13
}

/// Removing leading whitespace is the same as cutting `s` at the first
/// non-whitespace byte.
proof fn lemma_trim_start_at(s: Seq<u8>, i: int)
    requires
        0 <= i <= s.len(),
        forall|j: int| 0 <= j < i ==> is_space(s[j]),
        i < s.len() ==> !is_space(s[i]),
    ensures
        trim_start(s) == s.subrange(i, s.len() as int),
    decreases i,
{
    if i == 0 {
        if s.len() == 0 {
            assert(trim_start(s) =~= s.subrange(0, s.len() as int));
        } else {
            assert(trim_start(s) =~= s.subrange(0, s.len() as int));
        }
    } else {
        assert(is_space(s[0]));
        let t = s.drop_first();
        assert(t =~= s.subrange(1, s.len() as int));
        lemma_trim_start_at(t, i - 1);
        assert(t.subrange(i - 1, t.len() as int) =~= s.subrange(i, s.len() as int));
    }
}

/// Removing trailing whitespace is the same as cutting `s` after the last
/// non-whitespace byte.
proof fn lemma_trim_end_at(s: Seq<u8>, i: int)
    requires
        0 <= i <= s.len(),
        forall|j: int| i <= j < s.len() ==> is_space(s[j]),
        i > 0 ==> !is_space(s[i - 1]),
    ensures
        trim_end(s) == s.subrange(0, i),
    decreases s.len() - i,
{
    if i == s.len() {
        if s.len() == 0 {
            assert(trim_end(s) =~= s.subrange(0, i));
        } else if is_space(s.last()) {
            assert(!is_space(s[i - 1]));
            assert(false);
        } else {
            assert(trim_end(s) =~= s.subrange(0, i));
        }
    } else {
        assert(is_space(s.last()));
        let t = s.drop_last();
        assert(t =~= s.subrange(0, s.len() - 1));
        lemma_trim_end_at(t, i);
        assert(t.subrange(0, i) =~= s.subrange(0, i));
    }
}

/// A trimmed buffer is empty exactly when the buffer held nothing but
/// whitespace.
pub proof fn lemma_trimmed_empty_iff_all_space(s: Seq<u8>)
    ensures
        trimmed(s).len() == 0 <==> all_space(s),
    decreases s.len(),
{
    if s.len() == 0 {
    } else if is_space(s[0]) {
        lemma_trimmed_empty_iff_all_space(s.drop_first());
        assert(s.drop_first() =~= s.subrange(1, s.len() as int));
        if all_space(s.drop_first()) {
            assert(forall|i: int| 0 <= i < s.len() ==> is_space(#[trigger] s[i])) by {
                assert(forall|i: int|
                    1 <= i < s.len() ==> is_space(#[trigger] s[i]) == is_space(
                        s.drop_first()[i - 1],
                    ));
            }
        } else {
            let k = choose|i: int| 0 <= i < s.drop_first().len() && !is_space(s.drop_first()[i]);
            assert(!is_space(s[k + 1]));
        }
    } else {
        assert(trim_start(s) == s);
        if trim_end(s).len() == 0 {
            lemma_trim_end_keeps_head(s);
            assert(false);
        }
        assert(!all_space(s));
    }
}

/// Trimming the end of a sequence that starts with a non-whitespace byte
/// leaves that byte in place.
proof fn lemma_trim_end_keeps_head(s: Seq<u8>)
    requires
        s.len() > 0,
        !is_space(s[0]),
    ensures
        trim_end(s).len() > 0,
        trim_end(s)[0] == s[0],
    decreases s.len(),
{
    if is_space(s.last()) {
        lemma_trim_end_keeps_head(s.drop_last());
    }
}

/// Strips leading and trailing ASCII whitespace from a byte buffer, as a
/// word submission is normalised before validation.
pub fn trim(v: &Vec<u8>) -> (r: Vec<u8>)
    ensures
        r@ == trimmed(v@),
        r@.len() == 0 <==> all_space(v@),
{
    let n = v.len();
    let mut a: usize = 0;
    while a < n && space_byte(v[a])
        invariant
            a <= n,
            n == v@.len(),
            forall|j: int| 0 <= j < a ==> is_space(v@[j]),
        decreases n - a,
    {
        a = a + 1;
    }
    let mut b: usize = n;
    while b > a && space_byte(v[b - 1])
        invariant
            a <= b <= n,
            n == v@.len(),
            forall|j: int| b <= j < n ==> is_space(v@[j]),
        decreases b,
    {
        b = b - 1;
    }
    proof {
        lemma_trim_start_at(v@, a as int);
        let t = v@.subrange(a as int, n as int);
        lemma_trim_end_at(t, b - a);
        assert(t.subrange(0, b - a) =~= v@.subrange(a as int, b as int));
        lemma_trimmed_empty_iff_all_space(v@);
    }
    let s = vstd::slice::slice_subrange(v.as_slice(), a, b);
    vstd::slice::slice_to_vec(s)
}

/// Copies a byte buffer: a snapshot handed out is an independent value
/// equal to the text at this instant.
pub fn copy_bytes(v: &Vec<u8>) -> (r: Vec<u8>)
    ensures
        r@ == v@,
{
    vstd::slice::slice_to_vec(v.as_slice())
}

/// The prefix order on snapshots is transitive: a text never shrinks
/// through any chain of accepted contributions.
pub proof fn lemma_prefix_transitive(a: Seq<u8>, b: Seq<u8>, c: Seq<u8>)
    requires
        a.is_prefix_of(b),
        b.is_prefix_of(c),
    ensures
        a.is_prefix_of(c),
{
    assert(a =~= c.subrange(0, a.len() as int));
}

} // verus!
