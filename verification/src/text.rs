//! Text helpers: character access, comparison, decimal formatting, trimming
//! and the removal of repeated prefixes and suffixes.

use vstd::prelude::*;

verus! {

/// What `str::to_lowercase` makes of a text (Unicode lowercase mapping).
pub uninterp spec fn lowercase(s: Seq<char>) -> Seq<char>;

/// The characters of Unicode's `White_Space` property, which is what
/// `char::is_whitespace` tests.
pub open spec fn is_white_space(c: char) -> bool {
    let u = c as u32;
    ||| 0x9 <= u <= 0xd
    ||| u == 0x20
    ||| u == 0x85
    ||| u == 0xa0
    ||| u == 0x1680
    ||| 0x2000 <= u <= 0x200a
    ||| u == 0x2028
    ||| u == 0x2029
    ||| u == 0x202f
    ||| u == 0x205f
    ||| u == 0x3000
}

/// The text without its leading white space.
pub open spec fn trim_start(s: Seq<char>) -> Seq<char>
    decreases s.len(),
{
    if s.len() > 0 && is_white_space(s[0]) {
        trim_start(s.drop_first())
    } else {
        s
    }
}

/// The text without its trailing white space.
pub open spec fn trim_end(s: Seq<char>) -> Seq<char>
    decreases s.len(),
{
    if s.len() > 0 && is_white_space(s.last()) {
        trim_end(s.drop_last())
    } else {
        s
    }
}

/// The text without leading and trailing white space (`str::trim`).
pub open spec fn trim(s: Seq<char>) -> Seq<char> {
    trim_end(trim_start(s))
}

/// The text with every leading copy of a non-empty pattern removed
/// (`str::trim_start_matches`).
pub open spec fn strip_prefixes(s: Seq<char>, p: Seq<char>) -> Seq<char>
    decreases s.len(),
{
    if p.len() > 0 && p.len() <= s.len() && s.take(p.len() as int) == p {
        strip_prefixes(s.skip(p.len() as int), p)
    } else {
        s
    }
}

/// The text with every trailing copy of a non-empty pattern removed
/// (`str::trim_end_matches`).
pub open spec fn strip_suffixes(s: Seq<char>, p: Seq<char>) -> Seq<char>
    decreases s.len(),
{
    if p.len() > 0 && p.len() <= s.len() && s.skip(s.len() - p.len()) == p {
        strip_suffixes(s.take(s.len() - p.len()), p)
    } else {
        s
    }
}

/// The character of a decimal digit.
pub open spec fn digit_char(d: nat) -> char {
    (48 + d) as char
}

/// The decimal notation of a number, without leading zeros.
pub open spec fn decimal(n: nat) -> Seq<char>
    decreases n,
{
    if n < 10 {
        seq![digit_char(n)]
    } else {
        decimal(n / 10).push(digit_char(n % 10))
    }
}

/// Every character is one of `0`..`9`.
pub open spec fn all_digits(s: Seq<char>) -> bool {
    forall|i: int| 0 <= i < s.len() ==> '0' <= #[trigger] s[i] <= '9'
}

/// `String::push`: appends one character.
#[verifier::external_body]
pub(crate) fn push_char(s: &mut String, c: char)
    ensures
        final(s)@ == old(s)@.push(c),
{
    s.push(c);
}

/// `str::to_lowercase`: the Unicode lowercase form of a text.
#[verifier::external_body]
pub(crate) fn to_lowercase(s: &str) -> (r: String)
    ensures
        r@ == lowercase(s@),
{
    s.to_lowercase()
}

/// The characters of a text.
pub fn chars_of(s: &str) -> (r: Vec<char>)
    ensures
        r@ == s@,
{
    let n = s.unicode_len();
    let mut v: Vec<char> = Vec::new();
    let mut i: usize = 0;
    while i < n
        invariant
            n == s@.len(),
            i <= n,
            v@ == s@.take(i as int),
        decreases n - i,
    {
        v.push(s.get_char(i));
        i = i + 1;
        assert(v@ =~= s@.take(i as int));
    }
    assert(v@ =~= s@);
    v
}

/// Appends the characters `cs[lo..hi]` to a string.
pub(crate) fn push_chars(s: &mut String, cs: &Vec<char>, lo: usize, hi: usize)
    requires
        lo <= hi <= cs@.len(),
    ensures
        final(s)@ == old(s)@ + cs@.subrange(lo as int, hi as int),
{
    let mut i: usize = lo;
    while i < hi
        invariant
            lo <= i <= hi <= cs@.len(),
            s@ == old(s)@ + cs@.subrange(lo as int, i as int),
        decreases hi - i,
    {
        push_char(s, cs[i]);
        i = i + 1;
        assert(s@ =~= old(s)@ + cs@.subrange(lo as int, i as int));
    }
}

/// The string made of `cs[lo..hi]`.
pub fn string_of(cs: &Vec<char>, lo: usize, hi: usize) -> (r: String)
    requires
        lo <= hi <= cs@.len(),
    ensures
        r@ == cs@.subrange(lo as int, hi as int),
{
    let mut s = String::new();
    push_chars(&mut s, cs, lo, hi);
    assert(s@ =~= cs@.subrange(lo as int, hi as int));
    s
}

/// Appends a text to a string.
pub fn push_str(s: &mut String, t: &str)
    ensures
        final(s)@ == old(s)@ + t@,
{
    s.append(t);
}

/// Whether two texts hold the same characters.
pub fn str_eq(a: &str, b: &str) -> (r: bool)
    ensures
        r == (a@ == b@),
{
    let x = chars_of(a);
    let y = chars_of(b);
    if x.len() != y.len() {
        return false;
    }
    let mut i: usize = 0;
    while i < x.len()
        invariant
            x@ == a@,
            y@ == b@,
            x@.len() == y@.len(),
            i <= x@.len(),
            forall|k: int| 0 <= k < i ==> x@[k] == y@[k],
        decreases x@.len() - i,
    {
        if x[i] != y[i] {
            return false;
        }
        i = i + 1;
    }
    assert(x@ =~= y@);
    true
}

/// `char::is_whitespace`.
pub fn char_is_white_space(c: char) -> (r: bool)
    ensures
        r == is_white_space(c),
{
    let u = c as u32;
    (0x9 <= u && u <= 0xd) || u == 0x20 || u == 0x85 || u == 0xa0 || u == 0x1680 || (0x2000 <= u
        && u <= 0x200a) || u == 0x2028 || u == 0x2029 || u == 0x202f || u == 0x205f || u == 0x3000
}

/// The decimal digit character of `d`.
fn digit(d: u64) -> (r: char)
    requires
        d < 10,
    ensures
        r == digit_char(d as nat),
{
    let b: u8 = 48u8 + (d as u8);
    b as char
}

/// Appends the decimal notation of `n`.
pub fn push_decimal(s: &mut String, n: u64)
    ensures
        final(s)@ == old(s)@ + decimal(n as nat),
    decreases n,
{
    if n >= 10 {
        push_decimal(s, n / 10);
    }
    push_char(s, digit(n % 10));
    assert(s@ =~= old(s)@ + decimal(n as nat));
}

/// The decimal notation of `n` (`u64::to_string`).
pub fn decimal_string(n: u64) -> (r: String)
    ensures
        r@ == decimal(n as nat),
{
    let mut s = String::new();
    push_decimal(&mut s, n);
    assert(s@ =~= decimal(n as nat));
    s
}

/// Decimal notations are made of digits only.
pub proof fn lemma_decimal_digits(n: nat)
    ensures
        all_digits(decimal(n)),
        decimal(n).len() >= 1,
    decreases n,
{
    if n >= 10 {
        lemma_decimal_digits(n / 10);
        assert forall|i: int| 0 <= i < decimal(n).len() implies '0' <= #[trigger] decimal(n)[i] <= '9' by {
            if i < decimal(n / 10).len() {
                assert(decimal(n)[i] == decimal(n / 10)[i]);
            }
        }
    }
}

/// Numbers from 10^(k-1) up to, not including, 10^k have k decimal digits;
/// here for nine digits.
pub proof fn lemma_decimal_nine_digits(n: nat)
    requires
        100_000_000 <= n < 1_000_000_000,
    ensures
        decimal(n).len() == 9,
{
    let n1 = n / 10;
    let n2 = n1 / 10;
    let n3 = n2 / 10;
    let n4 = n3 / 10;
    let n5 = n4 / 10;
    let n6 = n5 / 10;
    let n7 = n6 / 10;
    let n8 = n7 / 10;
    assert(1 <= n8 < 10);
    assert(decimal(n8).len() == 1);
    assert(decimal(n7).len() == 2);
    assert(decimal(n6).len() == 3);
    assert(decimal(n5).len() == 4);
    assert(decimal(n4).len() == 5);
    assert(decimal(n3).len() == 6);
    assert(decimal(n2).len() == 7);
    assert(decimal(n1).len() == 8);
}

/// The characters `cs[i..]` with leading white space skipped: the first index
/// that is not white space.
fn skip_white_space(cs: &Vec<char>) -> (i: usize)
    ensures
        i <= cs@.len(),
        trim_start(cs@) == cs@.skip(i as int),
{
    let mut i: usize = 0;
    assert(cs@.skip(0) =~= cs@);
    while i < cs.len() && char_is_white_space(cs[i])
        invariant
            i <= cs@.len(),
            trim_start(cs@) == trim_start(cs@.skip(i as int)),
        decreases cs@.len() - i,
    {
        assert(cs@.skip(i as int).drop_first() =~= cs@.skip(i + 1));
        i = i + 1;
    }
    i
}

/// The end of `cs[..hi]` with trailing white space dropped.
fn drop_white_space_end(cs: &Vec<char>, lo: usize, hi: usize) -> (j: usize)
    requires
        lo <= hi <= cs@.len(),
    ensures
        lo <= j <= hi,
        trim_end(cs@.subrange(lo as int, hi as int)) == cs@.subrange(lo as int, j as int),
{
    let mut j: usize = hi;
    while j > lo && char_is_white_space(cs[j - 1])
        invariant
            lo <= j <= hi <= cs@.len(),
            trim_end(cs@.subrange(lo as int, hi as int)) == trim_end(cs@.subrange(lo as int, j as int)),
        decreases j,
    {
        assert(cs@.subrange(lo as int, j as int).drop_last() =~= cs@.subrange(lo as int, j - 1));
        j = j - 1;
    }
    j
}

/// `str::trim`.
pub fn trim_str(s: &str) -> (r: String)
    ensures
        r@ == trim(s@),
{
    let cs = chars_of(s);
    let lo = skip_white_space(&cs);
    assert(cs@.skip(lo as int) =~= cs@.subrange(lo as int, cs@.len() as int));
    let hi = drop_white_space_end(&cs, lo, cs.len());
    string_of(&cs, lo, hi)
}

/// Whether `p` occurs in `cs` at `i`.
fn occurs_at(cs: &Vec<char>, i: usize, p: &Vec<char>) -> (r: bool)
    requires
        i <= cs@.len(),
    ensures
        r == (i + p@.len() <= cs@.len() && cs@.subrange(i as int, i + p@.len()) == p@),
        r ==> i + p.len() <= cs.len(),
{
    if p.len() > cs.len() - i {
        return false;
    }
    let mut k: usize = 0;
    while k < p.len()
        invariant
            i + p.len() <= cs.len(),
            k <= p.len(),
            forall|m: int| 0 <= m < k ==> cs@[i + m] == p@[m],
        decreases p@.len() - k,
    {
        if cs[i + k] != p[k] {
            assert(cs@.subrange(i as int, i + p@.len())[k as int] != p@[k as int]);
            return false;
        }
        k = k + 1;
    }
    assert(cs@.subrange(i as int, i + p@.len()) =~= p@);
    true
}

/// `str::trim_start_matches` with a non-empty pattern.
pub fn strip_prefixes_str(s: &str, pat: &str) -> (r: String)
    requires
        pat@.len() > 0,
    ensures
        r@ == strip_prefixes(s@, pat@),
{
    let cs = chars_of(s);
    let p = chars_of(pat);
    let mut i: usize = 0;
    assert(cs@.skip(0) =~= cs@);
    let mut more = occurs_at(&cs, i, &p);
    while more
        invariant
            p@ == pat@,
            p@.len() > 0,
            i <= cs@.len(),
            more == (i + p@.len() <= cs@.len() && cs@.subrange(i as int, i + p@.len()) == p@),
            more ==> i + p.len() <= cs.len(),
            strip_prefixes(cs@, p@) == strip_prefixes(cs@.skip(i as int), p@),
        decreases cs@.len() - i,
    {
        let ghost t = cs@.skip(i as int);
        assert(t.take(p@.len() as int) =~= cs@.subrange(i as int, i + p@.len()));
        assert(t.skip(p@.len() as int) =~= cs@.skip(i + p@.len()));
        i = i + p.len();
        more = occurs_at(&cs, i, &p);
    }
    let ghost t = cs@.skip(i as int);
    assert(i + p@.len() <= cs@.len() ==> t.take(p@.len() as int) =~= cs@.subrange(
        i as int,
        i + p@.len(),
    ));
    assert(cs@.skip(i as int) =~= cs@.subrange(i as int, cs@.len() as int));
    string_of(&cs, i, cs.len())
}

/// `str::trim_end_matches` with a non-empty pattern.
pub fn strip_suffixes_str(s: &str, pat: &str) -> (r: String)
    requires
        pat@.len() > 0,
    ensures
        r@ == strip_suffixes(s@, pat@),
{
    let cs = chars_of(s);
    let p = chars_of(pat);
    let mut j: usize = cs.len();
    assert(cs@.take(j as int) =~= cs@);
    let mut more = j >= p.len() && occurs_at(&cs, j - p.len(), &p);
    while more
        invariant
            p@ == pat@,
            p@.len() > 0,
            j <= cs@.len(),
            more == (j >= p@.len() && cs@.subrange(j - p@.len(), j as int) == p@),
            strip_suffixes(cs@, p@) == strip_suffixes(cs@.take(j as int), p@),
        decreases j,
    {
        let ghost t = cs@.take(j as int);
        assert(t.skip(t.len() - p@.len()) =~= cs@.subrange(j - p@.len(), j as int));
        assert(t.take(t.len() - p@.len()) =~= cs@.take(j - p@.len()));
        j = j - p.len();
        more = j >= p.len() && occurs_at(&cs, j - p.len(), &p);
    }
    let ghost t = cs@.take(j as int);
    assert(j >= p@.len() ==> t.skip(t.len() - p@.len()) =~= cs@.subrange(j - p@.len(), j as int));
    assert(cs@.take(j as int) =~= cs@.subrange(0, j as int));
    string_of(&cs, 0, j)
}

/// The first `n` characters of a text (all of it where it is shorter).
pub fn take_chars(s: &str, n: usize) -> (r: String)
    ensures
        r@ == s@.take(if n < s@.len() { n as int } else { s@.len() as int }),
{
    let cs = chars_of(s);
    let k = if n < cs.len() {
        n
    } else {
        cs.len()
    };
    let r = string_of(&cs, 0, k);
    assert(r@ =~= s@.take(k as int));
    r
}

} // verus!
