//! Validation of the coordinator endpoint a participant asks to connect
//! to: an IPv4 literal, an IPv6 literal, or a hostname. An invalid
//! identifier is rejected before any connection is attempted.

use vstd::prelude::*;

verus! {

/// The byte `.`, separating IPv4 octets and hostname labels.
pub const DOT: u8 = 46;

/// The byte `:`, separating IPv6 groups.
pub const COLON: u8 = 58;

/// The byte `-`, allowed inside hostnames but not at either end.
pub const HYPHEN: u8 = 45;

/// The byte `0`; a multi-digit octet must not start with it.
pub const DIGIT_ZERO: u8 = 48;

/// An ASCII decimal digit.
pub open spec fn is_digit(b: u8) -> bool {
    48 <= b <= 57
}

/// An ASCII hexadecimal digit, either case.
pub open spec fn is_hex_digit(b: u8) -> bool {
    is_digit(b) || (65 <= b <= 70) || (97 <= b <= 102)
}

/// An ASCII letter or digit.
pub open spec fn is_alnum(b: u8) -> bool {
    is_digit(b) || (65 <= b <= 90) || (97 <= b <= 122)
}

/// `s` split at every occurrence of `sep`: the parts between separators,
/// in order, kept even when empty. A sequence with no separator is one
/// part; every separator adds one.
pub open spec fn split(s: Seq<u8>, sep: u8) -> Seq<Seq<u8>>
    decreases s.len(),
{
    if s.len() == 0 {
        seq![Seq::<u8>::empty()]
    } else if s[0] == sep {
        seq![Seq::<u8>::empty()] + split(s.drop_first(), sep)
    } else {
        let rest = split(s.drop_first(), sep);
        seq![seq![s[0]] + rest[0]] + rest.drop_first()
    }
}

/// The views of a vector of byte buffers, part by part.
pub open spec fn seqs_of(g: Seq<Vec<u8>>) -> Seq<Seq<u8>> {
    Seq::new(g.len(), |i: int| g[i]@)
}

/// A separator-free sequence is a single part.
proof fn lemma_split_no_sep(s: Seq<u8>, sep: u8)
    requires
        forall|j: int| 0 <= j < s.len() ==> s[j] != sep,
    ensures
        split(s, sep) == seq![s],
    decreases s.len(),
{
    if s.len() == 0 {
        assert(split(s, sep) =~~= seq![s]);
    } else {
        lemma_split_no_sep(s.drop_first(), sep);
        assert(seq![s[0]] + s.drop_first() =~= s);
        assert(split(s, sep) =~~= seq![s]);
    }
}

/// Splitting at the first separator: the part before it, then the split
/// of what follows it.
proof fn lemma_split_head(s: Seq<u8>, sep: u8, i: int)
    requires
        0 <= i < s.len(),
        s[i] == sep,
        forall|j: int| 0 <= j < i ==> s[j] != sep,
    ensures
        split(s, sep) == seq![s.subrange(0, i)] + split(s.subrange(i + 1, s.len() as int), sep),
    decreases i,
{
    if i == 0 {
        assert(s.drop_first() =~= s.subrange(1, s.len() as int));
        assert(s.subrange(0, 0) =~= Seq::<u8>::empty());
        assert(split(s, sep) =~~= seq![s.subrange(0, 0)] + split(
            s.subrange(1, s.len() as int),
            sep,
        ));
    } else {
        let d = s.drop_first();
        assert(d =~= s.subrange(1, s.len() as int));
        lemma_split_head(d, sep, i - 1);
        let rest = split(d, sep);
        assert(rest[0] == d.subrange(0, i - 1));
        assert(seq![s[0]] + d.subrange(0, i - 1) =~= s.subrange(0, i));
        assert(rest.drop_first() == split(d.subrange(i - 1 + 1, d.len() as int), sep)) by {
            assert(rest =~~= seq![d.subrange(0, i - 1)] + split(d.subrange(i, d.len() as int), sep));
            assert(rest.drop_first() =~~= split(d.subrange(i, d.len() as int), sep));
        }
        assert(d.subrange(i, d.len() as int) =~= s.subrange(i + 1, s.len() as int));
        assert(split(s, sep) =~~= seq![s.subrange(0, i)] + split(
            s.subrange(i + 1, s.len() as int),
            sep,
        ));
    }
}

/// Splits a byte buffer at every occurrence of `sep`.
pub fn split_bytes(v: &Vec<u8>, sep: u8) -> (r: Vec<Vec<u8>>)
    ensures
        seqs_of(r@) == split(v@, sep),
{
    let n = v.len();
    let mut r: Vec<Vec<u8>> = Vec::new();
    let mut start: usize = 0;
    let mut i: usize = 0;
    proof {
        assert(v@.subrange(0, n as int) =~= v@);
        assert(seqs_of(r@) + split(v@, sep) =~~= split(v@, sep));
    }
    while i < n
        invariant
            start <= i <= n,
            n == v@.len(),
            forall|j: int| start <= j < i ==> v@[j] != sep,
            split(v@, sep) == seqs_of(r@) + split(v@.subrange(start as int, n as int), sep),
        decreases n - i,
    {
        if v[i] == sep {
            let g = vstd::slice::slice_to_vec(vstd::slice::slice_subrange(v.as_slice(), start, i));
            proof {
                let t = v@.subrange(start as int, n as int);
                lemma_split_head(t, sep, i - start);
                assert(t.subrange(0, i - start) =~= v@.subrange(start as int, i as int));
                assert(t.subrange(i - start + 1, t.len() as int) =~= v@.subrange(
                    i + 1,
                    n as int,
                ));
                assert(seqs_of(r@.push(g)) =~~= seqs_of(r@) + seq![g@]);
                assert(seqs_of(r@) + (seq![g@] + split(v@.subrange(i + 1, n as int), sep)) =~~= (
                seqs_of(r@) + seq![g@]) + split(v@.subrange(i + 1, n as int), sep));
            }
            r.push(g);
            start = i + 1;
        }
        i = i + 1;
    }
    let g = vstd::slice::slice_to_vec(vstd::slice::slice_subrange(v.as_slice(), start, n));
    proof {
        lemma_split_no_sep(v@.subrange(start as int, n as int), sep);
        assert(seqs_of(r@.push(g)) =~~= seqs_of(r@) + seq![g@]);
        assert(seqs_of(r@) + seq![g@] =~~= seqs_of(r@) + split(
            v@.subrange(start as int, n as int),
            sep,
        ));
    }
    r.push(g);
    r
}

/// The numeric value of a sequence of decimal digits, most significant
/// first.
pub open spec fn dec_val(s: Seq<u8>) -> int
    decreases s.len(),
{
    if s.len() == 0 {
        0
    } else {
        dec_val(s.drop_last()) * 10 + (s.last() - 48)
    }
}

/// A valid IPv4 octet: one to three decimal digits, value at most 255,
/// and no leading zero (so each address has one spelling).
pub open spec fn octet_ok(o: Seq<u8>) -> bool {
    &&& 1 <= o.len() <= 3
    &&& forall|i: int| 0 <= i < o.len() ==> is_digit(#[trigger] o[i])
    &&& dec_val(o) <= 255
    &&& o.len() > 1 ==> o[0] != DIGIT_ZERO
}

/// An IPv4 literal: four valid octets separated by dots.
pub open spec fn is_ipv4(s: Seq<u8>) -> bool {
    let g = split(s, DOT);
    &&& g.len() == 4
    &&& forall|i: int| 0 <= i < 4 ==> octet_ok(#[trigger] g[i])
}

/// A valid IPv6 group: one to four hexadecimal digits.
pub open spec fn group_ok(g: Seq<u8>) -> bool {
    &&& 1 <= g.len() <= 4
    &&& forall|i: int| 0 <= i < g.len() ==> is_hex_digit(#[trigger] g[i])
}

/// How many parts of `g` are empty.
pub open spec fn num_empty(g: Seq<Seq<u8>>) -> int
    decreases g.len(),
{
    if g.len() == 0 {
        0
    } else {
        (if g[0].len() == 0 {
            1int
        } else {
            0int
        }) + num_empty(g.drop_first())
    }
}

/// An IPv6 literal, in the textual form of groups separated by colons:
/// either eight groups, or fewer with exactly one `::` eliding at least
/// one group of zeros — at the start, at the end, in the middle, or as
/// the whole address. Splitting at every colon turns `::` into adjacent
/// empty parts: one leading or trailing pair, one interior single, or
/// three for `::` alone. The embedded-IPv4 form is not recognised.
pub open spec fn is_ipv6(s: Seq<u8>) -> bool {
    let g = split(s, COLON);
    let m = g.len() as int;
    let k = num_empty(g);
    &&& forall|i: int| 0 <= i < m ==> (g[i].len() == 0 || group_ok(#[trigger] g[i]))
    &&& {
        ||| (k == 0 && m == 8)
        ||| (k == 3 && m == 3)
        ||| (k == 2 && 3 <= m <= 9 && g[0].len() == 0 && g[1].len() == 0)
        ||| (k == 2 && 3 <= m <= 9 && g[m - 1].len() == 0 && g[m - 2].len() == 0)
        ||| (k == 1 && m <= 8 && g[0].len() > 0 && g[m - 1].len() > 0)
    }
}

/// A valid hostname label: non-empty, ASCII letters, digits and hyphens
/// only, with no hyphen at either end.
pub open spec fn label_ok(l: Seq<u8>) -> bool {
    &&& l.len() > 0
    &&& forall|i: int| 0 <= i < l.len() ==> (is_alnum(#[trigger] l[i]) || l[i] == HYPHEN)
    &&& l[0] != HYPHEN
    &&& l[l.len() - 1] != HYPHEN
}

/// A hostname: non-empty, at most 253 bytes, made of valid labels
/// separated by dots. Empty labels are invalid, so a dot at either end
/// or two dots in a row are rejected.
pub open spec fn hostname_ok(s: Seq<u8>) -> bool {
    &&& 0 < s.len() <= 253
    &&& forall|i: int| 0 <= i < split(s, DOT).len() ==> label_ok(#[trigger] split(s, DOT)[i])
}

/// A valid coordinator endpoint: an IPv4 literal, an IPv6 literal, or a
/// hostname.
pub open spec fn valid_host(s: Seq<u8>) -> bool {
    is_ipv4(s) || is_ipv6(s) || hostname_ok(s)
}

/// Checks one part for being a valid IPv4 octet.
fn octet_check(o: &Vec<u8>) -> (r: bool)
    ensures
        r == octet_ok(o@),
{
    let n = o.len();
    if n < 1 || n > 3 {
        return false;
    }
    if n > 1 && o[0] == DIGIT_ZERO {
        return false;
    }
    let mut val: u32 = 0;
    let mut i: usize = 0;
    proof {
        assert(o@.subrange(0, 0) =~= Seq::<u8>::empty());
    }
    while i < n
        invariant
            i <= n <= 3,
            n == o@.len(),
            forall|j: int| 0 <= j < i ==> is_digit(#[trigger] o@[j]),
            val == dec_val(o@.subrange(0, i as int)),
            i == 0 ==> val == 0,
            i == 1 ==> val <= 9,
            i == 2 ==> val <= 99,
            i == 3 ==> val <= 999,
        decreases n - i,
    {
        let b = o[i];
        if b < 48 || b > 57 {
            return false;
        }
        val = val * 10 + ((b - 48) as u32);
        proof {
            assert(o@.subrange(0, i + 1).drop_last() =~= o@.subrange(0, i as int));
            assert(o@.subrange(0, i + 1).last() == o@[i as int]);
        }
        i = i + 1;
    }
    proof {
        assert(o@.subrange(0, n as int) =~= o@);
    }
    val <= 255
}

/// Checks one part for being a valid IPv6 group.
fn group_check(g: &Vec<u8>) -> (r: bool)
    ensures
        r == group_ok(g@),
{
    let n = g.len();
    if n < 1 || n > 4 {
        return false;
    }
    let mut i: usize = 0;
    while i < n
        invariant
            i <= n,
            n == g@.len(),
            forall|j: int| 0 <= j < i ==> is_hex_digit(#[trigger] g@[j]),
        decreases n - i,
    {
        let b = g[i];
        if !((48 <= b && b <= 57) || (65 <= b && b <= 70) || (97 <= b && b <= 102)) {
            return false;
        }
        i = i + 1;
    }
    true
}

/// Counts the empty parts of a split.
fn count_empty(g: &Vec<Vec<u8>>) -> (k: usize)
    ensures
        k == num_empty(seqs_of(g@)),
{
    let m = g.len();
    let mut k: usize = 0;
    let mut i: usize = m;
    proof {
        assert(seqs_of(g@).skip(m as int) =~~= Seq::<Seq<u8>>::empty());
    }
    while i > 0
        invariant
            i <= m,
            m == g@.len(),
            k <= m - i,
            k == num_empty(seqs_of(g@).skip(i as int)),
        decreases i,
    {
        i = i - 1;
        if g[i].len() == 0 {
            k = k + 1;
        }
        proof {
            assert(seqs_of(g@).skip(i as int).drop_first() =~~= seqs_of(g@).skip(i + 1));
            assert(seqs_of(g@).skip(i as int)[0] == g@[i as int]@);
        }
    }
    proof {
        assert(seqs_of(g@).skip(0) =~~= seqs_of(g@));
    }
    k
}

/// Recognises an IPv4 literal.
fn ipv4_check(addr: &Vec<u8>) -> (r: bool)
    ensures
        r == is_ipv4(addr@),
{
    let parts = split_bytes(addr, DOT);
    if parts.len() != 4 {
        return false;
    }
    let mut i: usize = 0;
    while i < 4
        invariant
            i <= 4,
            parts@.len() == 4,
            seqs_of(parts@) == split(addr@, DOT),
            forall|j: int| 0 <= j < i ==> octet_ok(#[trigger] seqs_of(parts@)[j]),
        decreases 4 - i,
    {
        if !octet_check(&parts[i]) {
            proof {
                assert(seqs_of(parts@)[i as int] == parts@[i as int]@);
            }
            return false;
        }
        i = i + 1;
    }
    true
}

/// Recognises an IPv6 literal.
fn ipv6_check(addr: &Vec<u8>) -> (r: bool)
    ensures
        r == is_ipv6(addr@),
{
    let parts = split_bytes(addr, COLON);
    let m = parts.len();
    let mut i: usize = 0;
    while i < m
        invariant
            i <= m,
            m == parts@.len(),
            seqs_of(parts@) == split(addr@, COLON),
            forall|j: int|
                0 <= j < i ==> (seqs_of(parts@)[j].len() == 0 || group_ok(
                    #[trigger] seqs_of(parts@)[j],
                )),
        decreases m - i,
    {
        if parts[i].len() > 0 && !group_check(&parts[i]) {
            proof {
                assert(seqs_of(parts@)[i as int] == parts@[i as int]@);
            }
            return false;
        }
        i = i + 1;
    }
    let k = count_empty(&parts);
    if k == 0 && m == 8 {
        true
    } else if k == 3 && m == 3 {
        true
    } else if k == 2 && 3 <= m && m <= 9 && parts[0].len() == 0 && parts[1].len() == 0 {
        true
    } else if k == 2 && 3 <= m && m <= 9 && parts[m - 1].len() == 0 && parts[m - 2].len() == 0 {
        true
    } else if k == 1 && m <= 8 && parts[0].len() > 0 && parts[m - 1].len() > 0 {
        true
    } else {
        false
    }
}

/// Checks one part for being a valid hostname label.
fn label_check(l: &Vec<u8>) -> (r: bool)
    ensures
        r == label_ok(l@),
{
    let n = l.len();
    if n == 0 {
        return false;
    }
    if l[0] == HYPHEN || l[n - 1] == HYPHEN {
        return false;
    }
    let mut i: usize = 0;
    while i < n
        invariant
            i <= n,
            n == l@.len(),
            forall|j: int| 0 <= j < i ==> (is_alnum(#[trigger] l@[j]) || l@[j] == HYPHEN),
        decreases n - i,
    {
        let b = l[i];
        let alnum = (48 <= b && b <= 57) || (65 <= b && b <= 90) || (97 <= b && b <= 122);
        if !(alnum || b == HYPHEN) {
            return false;
        }
        i = i + 1;
    }
    true
}

/// Recognises a hostname.
fn hostname_check(addr: &Vec<u8>) -> (r: bool)
    ensures
        r == hostname_ok(addr@),
{
    let n = addr.len();
    if n == 0 || n > 253 {
        return false;
    }
    let labels = split_bytes(addr, DOT);
    let m = labels.len();
    let mut i: usize = 0;
    while i < m
        invariant
            i <= m,
            m == labels@.len(),
            seqs_of(labels@) == split(addr@, DOT),
            forall|j: int| 0 <= j < i ==> label_ok(#[trigger] seqs_of(labels@)[j]),
        decreases m - i,
    {
        if !label_check(&labels[i]) {
            proof {
                assert(seqs_of(labels@)[i as int] == labels@[i as int]@);
            }
            return false;
        }
        i = i + 1;
    }
    true
}

/// Decides whether `addr` may be used as the coordinator endpoint: an
/// IPv4 literal, an IPv6 literal, or a hostname of letters, digits,
/// dots and hyphens, at most 253 bytes, with no dot or hyphen at either
/// end. Anything else is rejected before a connection is attempted.
pub fn is_valid_ip_or_hostname(addr: &Vec<u8>) -> (r: bool)
    ensures
        r == valid_host(addr@),
{
    if ipv4_check(addr) {
        return true;
    }
    if ipv6_check(addr) {
        return true;
    }
    hostname_check(addr)
}

} // verus!
