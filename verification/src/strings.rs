//! Character-level string utilities: UTF-8 byte accounting, literal
//! substring replacement, and clamping of display strings to a byte limit.

use vstd::prelude::*;
use vstd::string::StrSliceExecFns;
use vstd::string::StringExecFns;

verus! {

/// Byte length of the UTF-8 encoding of one character.
pub open spec fn char_len(c: char) -> nat {
    if (c as u32) < 0x80 {
        1
    } else if (c as u32) < 0x800 {
        2
    } else if (c as u32) < 0x10000 {
        3
    } else {
        4
    }
}

/// Byte length of the UTF-8 encoding of a character sequence.
pub open spec fn byte_len(s: Seq<char>) -> nat
    decreases s.len(),
{
    if s.len() == 0 {
        0
    } else {
        char_len(s[0]) + byte_len(s.drop_first())
    }
}

pub proof fn lemma_byte_len_concat(a: Seq<char>, b: Seq<char>)
    ensures
        byte_len(a + b) == byte_len(a) + byte_len(b),
    decreases a.len(),
{
    if a.len() == 0 {
        assert(a + b =~= b);
    } else {
        assert((a + b).drop_first() =~= a.drop_first() + b);
        lemma_byte_len_concat(a.drop_first(), b);
    }
}

/// Extending a prefix by one character adds that character's width.
pub proof fn lemma_byte_len_snoc(s: Seq<char>, i: int)
    requires
        0 <= i < s.len(),
    ensures
        byte_len(s.take(i + 1)) == byte_len(s.take(i)) + char_len(s[i]),
{
    assert(s.take(i + 1) =~= s.take(i) + seq![s[i]]);
    lemma_byte_len_concat(s.take(i), seq![s[i]]);
    assert(byte_len(Seq::<char>::empty()) == 0);
    assert(seq![s[i]].drop_first() =~= Seq::<char>::empty());
    assert(byte_len(seq![s[i]]) == char_len(s[i]));
}

/// UTF-8 width of one character, computed from its code point.
pub fn char_width(c: char) -> (w: u8)
    ensures
        w == char_len(c),
{
    let u = c as u32;
    if u < 0x80 {
        1
    } else if u < 0x800 {
        2
    } else if u < 0x10000 {
        3
    } else {
        4
    }
}

/// Character-by-character string equality.
pub fn str_eq(a: &str, b: &str) -> (r: bool)
    ensures
        r == (a@ == b@),
{
    let an = a.unicode_len();
    let bn = b.unicode_len();
    if an != bn {
        return false;
    }
    let mut i: usize = 0;
    while i < an
        invariant
            i <= an,
            an == a@.len(),
            bn == b@.len(),
            an == bn,
            forall|j: int| 0 <= j < i ==> a@[j] == b@[j],
        decreases an - i,
    {
        if a.get_char(i) != b.get_char(i) {
            return false;
        }
        i = i + 1;
    }
    proof {
        assert(a@ =~= b@);
    }
    true
}

/// Whether `p` is a prefix of `s`.
pub open spec fn starts_with_spec(s: Seq<char>, p: Seq<char>) -> bool {
    p.len() <= s.len() && s.take(p.len() as int) == p
}

/// Character-by-character prefix test.
pub fn starts_with(s: &str, p: &str) -> (r: bool)
    ensures
        r == starts_with_spec(s@, p@),
{
    let n = s.unicode_len();
    let m = p.unicode_len();
    if m > n {
        return false;
    }
    let r = str_eq(s.substring_char(0, m), p);
    proof {
        assert(s@.subrange(0, m as int) =~= s@.take(m as int));
    }
    r
}

/// The result of replacing, left to right and without rescanning what was
/// substituted, every occurrence of `p` in `s` by `v`.
pub open spec fn replace_all_spec(s: Seq<char>, p: Seq<char>, v: Seq<char>) -> Seq<char>
    recommends
        p.len() >= 1,
    decreases s.len(),
{
    if s.len() == 0 {
        Seq::empty()
    } else if 1 <= p.len() <= s.len() && s.take(p.len() as int) == p {
        v + replace_all_spec(s.skip(p.len() as int), p, v)
    } else {
        seq![s[0]] + replace_all_spec(s.drop_first(), p, v)
    }
}

/// Replaces every occurrence of `pat` in `s` by `val`, scanning left to
/// right; substituted text is not scanned again.
pub fn replace_all(s: &str, pat: &str, val: &str) -> (r: String)
    requires
        pat@.len() >= 1,
    ensures
        r@ == replace_all_spec(s@, pat@, val@),
{
    let n = s.unicode_len();
    let m = pat.unicode_len();
    let mut out = String::new();
    let mut seg: usize = 0;
    let mut i: usize = 0;
    proof {
        assert(s@.skip(0) =~= s@);
        assert(s@.subrange(0, 0) =~= Seq::<char>::empty());
        assert(out@ + s@.subrange(0, 0) + replace_all_spec(s@.skip(0), pat@, val@)
            =~= replace_all_spec(s@, pat@, val@));
    }
    while i < n
        invariant
            seg <= i <= n,
            n == s@.len(),
            m == pat@.len(),
            m >= 1,
            replace_all_spec(s@, pat@, val@) == out@ + s@.subrange(seg as int, i as int)
                + replace_all_spec(s@.skip(i as int), pat@, val@),
        decreases n - i,
    {
        let matched = if m <= n - i {
            str_eq(s.substring_char(i, i + m), pat)
        } else {
            false
        };
        if matched {
            proof {
                assert(s@.skip(i as int).take(m as int) =~= s@.subrange(i as int, (i + m) as int));
                assert(s@.skip(i as int).skip(m as int) =~= s@.skip((i + m) as int));
                assert(replace_all_spec(s@.skip(i as int), pat@, val@) == val@
                    + replace_all_spec(s@.skip((i + m) as int), pat@, val@));
            }
            out.append(s.substring_char(seg, i));
            out.append(val);
            proof {
                assert(s@.subrange((i + m) as int, (i + m) as int) =~= Seq::<char>::empty());
                assert(out@ + s@.subrange((i + m) as int, (i + m) as int)
                    + replace_all_spec(s@.skip((i + m) as int), pat@, val@)
                    =~= replace_all_spec(s@, pat@, val@));
            }
            i = i + m;
            seg = i;
        } else {
            proof {
                if m <= n - i {
                    assert(s@.skip(i as int).take(m as int) =~= s@.subrange(
                        i as int,
                        (i + m) as int,
                    ));
                }
                assert(s@.skip(i as int).len() == n - i >= 1);
                assert(s@.skip(i as int).drop_first() =~= s@.skip(i as int + 1));
                assert(s@.skip(i as int)[0] == s@[i as int]);
                assert(replace_all_spec(s@.skip(i as int), pat@, val@) == seq![s@[i as int]]
                    + replace_all_spec(s@.skip(i as int + 1), pat@, val@));
                assert(s@.subrange(seg as int, i as int + 1) =~= s@.subrange(seg as int, i as int)
                    + seq![s@[i as int]]);
                assert(out@ + s@.subrange(seg as int, i as int + 1)
                    + replace_all_spec(s@.skip(i as int + 1), pat@, val@)
                    =~= replace_all_spec(s@, pat@, val@));
            }
            i = i + 1;
        }
    }
    proof {
        assert(s@.skip(n as int).len() == 0);
        assert(replace_all_spec(s@.skip(n as int), pat@, val@) =~= Seq::<char>::empty());
        assert(out@ + s@.subrange(seg as int, n as int) + Seq::<char>::empty()
            =~= out@ + s@.subrange(seg as int, n as int));
    }
    out.append(s.substring_char(seg, n));
    out
}

/// The three-dot marker appended when a string is truncated.
pub open spec fn ellipsis() -> Seq<char> {
    seq!['.', '.', '.']
}

/// The longest prefix of `s` whose UTF-8 encoding fits in `limit` bytes,
/// found by dropping characters from the end.
pub open spec fn clamp_prefix(s: Seq<char>, limit: nat) -> Seq<char>
    decreases s.len(),
{
    if byte_len(s) <= limit {
        s
    } else {
        clamp_prefix(s.drop_last(), limit)
    }
}

/// What clamping returns: the string itself when its UTF-8 encoding fits
/// in `max` bytes, otherwise the longest prefix that leaves room for the
/// three-byte ellipsis, with the ellipsis appended.
pub open spec fn clamp_spec(s: Seq<char>, max: nat) -> Seq<char>
    recommends
        max >= 3,
{
    if byte_len(s) <= max {
        s
    } else {
        clamp_prefix(s, (max - 3) as nat) + ellipsis()
    }
}

proof fn lemma_clamp_prefix_fits(s: Seq<char>, limit: nat)
    ensures
        byte_len(clamp_prefix(s, limit)) <= limit,
    decreases s.len(),
{
    if byte_len(s) <= limit {
    } else {
        assert(s.len() > 0);
        lemma_clamp_prefix_fits(s.drop_last(), limit);
    }
}

/// Clamping never exceeds the byte limit; a string that fits is returned
/// unchanged, and a truncated one ends in the ellipsis.
pub proof fn lemma_clamp_within_limit(s: Seq<char>, max: nat)
    requires
        max >= 3,
    ensures
        byte_len(clamp_spec(s, max)) <= max,
        byte_len(s) <= max ==> clamp_spec(s, max) == s,
        byte_len(s) > max ==> clamp_spec(s, max).len() >= 3 && clamp_spec(s, max).skip(
            clamp_spec(s, max).len() - 3,
        ) =~= ellipsis(),
{
    if byte_len(s) > max {
        let limit = (max - 3) as nat;
        lemma_clamp_prefix_fits(s, limit);
        lemma_byte_len_concat(clamp_prefix(s, limit), ellipsis());
        assert(byte_len(ellipsis()) == 3) by {
            assert(ellipsis().drop_first() =~= seq!['.', '.']);
            assert(seq!['.', '.'].drop_first() =~= seq!['.']);
            assert(seq!['.'].drop_first() =~= Seq::<char>::empty());
            assert(byte_len(Seq::<char>::empty()) == 0);
            assert(byte_len(seq!['.']) == 1);
            assert(byte_len(seq!['.', '.']) == 2);
        }
    }
}

/// Clamps a string to at most `len` bytes of UTF-8. A string over the
/// limit is cut down and the ellipsis appended so that the total byte
/// count is equal to or just below the limit.
pub fn clamp(s: String, len: usize) -> (r: String)
    requires
        len >= 3,
    ensures
        r@ == clamp_spec(s@, len as nat),
{
    let n = s.as_str().unicode_len();
    let mut total: u128 = 0;
    let mut i: usize = 0;
    proof {
        assert(s@.take(0) =~= Seq::<char>::empty());
    }
    while i < n
        invariant
            i <= n,
            n == s@.len(),
            total == byte_len(s@.take(i as int)),
            total <= 4 * (i as int),
        decreases n - i,
    {
        let c = s.as_str().get_char(i);
        let w = char_width(c);
        proof {
            lemma_byte_len_snoc(s@, i as int);
        }
        total = total + w as u128;
        i = i + 1;
    }
    proof {
        assert(s@.take(n as int) =~= s@);
    }
    if total <= len as u128 {
        s
    } else {
        let limit = len - 3;
        let mut k: usize = n;
        let mut b: u128 = total;
        while b > limit as u128
            invariant
                k <= n,
                n == s@.len(),
                b == byte_len(s@.take(k as int)),
                clamp_prefix(s@, limit as nat) == clamp_prefix(s@.take(k as int), limit as nat),
            decreases k,
        {
            proof {
                assert(s@.take(k as int).len() > 0);
            }
            let c = s.as_str().get_char(k - 1);
            let w = char_width(c);
            proof {
                lemma_byte_len_snoc(s@, k as int - 1);
                assert(s@.take(k as int).drop_last() =~= s@.take(k as int - 1));
                assert(clamp_prefix(s@.take(k as int), limit as nat) == clamp_prefix(
                    s@.take(k as int - 1),
                    limit as nat,
                ));
            }
            b = b - w as u128;
            k = k - 1;
        }
        let mut out = String::from_str(s.as_str().substring_char(0, k));
        out.append("...");
        proof {
            reveal_strlit("...");
            assert(("...")@ =~= ellipsis());
            assert(clamp_prefix(s@.take(k as int), limit as nat) == s@.take(k as int));
            assert(s@.subrange(0, k as int) =~= s@.take(k as int));
        }
        out
    }
}

} // verus!
