//! Character-level text helpers shared by the rest of the library.
use vstd::prelude::*;

verus! {

/// Appends one character at the end of a string.
///
/// Trusted: wraps `String::push`, which std documents as appending the given
/// char to the end of the string.
#[verifier::external_body]
pub(crate) fn push_char(s: &mut String, c: char)
    ensures
        final(s)@ == old(s)@.push(c),
{
    s.push(c);
}

/// The characters of a string slice, in order.
pub fn chars_of(s: &str) -> (v: Vec<char>)
    ensures
        v@ == s@,
{
    let n = s.unicode_len();
    let mut v: Vec<char> = Vec::new();
    let mut i: usize = 0;
    while i < n
        invariant
            n == s@.len(),
            i <= n,
            v@ == s@.take(i as int),
        decreases n - i,
    {
        let c = s.get_char(i);
        v.push(c);
        i = i + 1;
        assert(v@ =~= s@.take(i as int));
    }
    assert(v@ =~= s@);
    v
}

/// A string holding the characters `v[lo..hi]`.
pub fn string_of(v: &Vec<char>, lo: usize, hi: usize) -> (s: String)
    requires
        lo <= hi <= v@.len(),
    ensures
        s@ == v@.subrange(lo as int, hi as int),
{
    let mut s = String::new();
    let mut i: usize = lo;
    while i < hi
        invariant
            lo <= i <= hi,
            hi <= v@.len(),
            s@ == v@.subrange(lo as int, i as int),
        decreases hi - i,
    {
        push_char(&mut s, v[i]);
        i = i + 1;
        assert(s@ =~= v@.subrange(lo as int, i as int));
    }
    s
}



/// The decimal digit character for `d` (`d < 10`).
pub open spec fn digit_char(d: nat) -> char {
    ((48 + d) as u32) as char
}

/// Decimal notation of a natural number, most significant digit first.
pub open spec fn decimal(n: nat) -> Seq<char>
    decreases n,
{
    if n < 10 {
        seq![digit_char(n)]
    } else {
        decimal(n / 10).push(digit_char(n % 10))
    }
}

/// Decimal notation of an integer: a `-` sign before the digits of a negative one.
pub open spec fn signed_decimal(n: int) -> Seq<char> {
    if n < 0 {
        seq!['-'] + decimal((-n) as nat)
    } else {
        decimal(n as nat)
    }
}

fn digit(d: u128) -> (c: char)
    requires
        d < 10,
    ensures
        c == digit_char(d as nat),
{
    let c = if d == 0 {
        '0'
    } else if d == 1 {
        '1'
    } else if d == 2 {
        '2'
    } else if d == 3 {
        '3'
    } else if d == 4 {
        '4'
    } else if d == 5 {
        '5'
    } else if d == 6 {
        '6'
    } else if d == 7 {
        '7'
    } else if d == 8 {
        '8'
    } else {
        '9'
    };
    c
}

/// Appends the decimal notation of `n` to `s`.
pub fn push_decimal(s: &mut String, n: u128)
    ensures
        final(s)@ == old(s)@ + decimal(n as nat),
    decreases n,
{
    if n >= 10 {
        push_decimal(s, n / 10);
    }
    let c = digit(n % 10);
    push_char(s, c);
    assert(final(s)@ =~= old(s)@ + decimal(n as nat));
}

/// Appends the decimal notation of a signed number to `s`.
pub fn push_signed_decimal(s: &mut String, n: i64)
    ensures
        final(s)@ == old(s)@ + signed_decimal(n as int),
{
    if n < 0 {
        push_char(s, '-');
        let m: i128 = 0i128 - (n as i128);
        push_decimal(s, m as u128);
        assert(final(s)@ =~= old(s)@ + signed_decimal(n as int));
    } else {
        push_decimal(s, n as u128);
    }
}

/// The decimal notation of `n` as a new string.
pub fn decimal_string(n: u64) -> (s: String)
    ensures
        s@ == decimal(n as nat),
{
    let mut s = String::new();
    push_decimal(&mut s, n as u128);
    assert(s@ =~= decimal(n as nat));
    s
}

/// Whether `c` is white space in the sense of Unicode's `White_Space`
/// property, which is what `char::is_whitespace` tests.
pub open spec fn is_space(c: char) -> bool {
    let u = c as u32;
    ||| 0x9 <= u <= 0xD
    ||| u == 0x20
    ||| u == 0x85
    ||| u == 0xA0
    ||| u == 0x1680
    ||| 0x2000 <= u <= 0x200A
    ||| u == 0x2028
    ||| u == 0x2029
    ||| u == 0x202F
    ||| u == 0x205F
    ||| u == 0x3000
}

/// Tests `is_space`.
pub fn space(c: char) -> (b: bool)
    ensures
        b == is_space(c),
{
    let u = c as u32;
    (0x9 <= u && u <= 0xD) || u == 0x20 || u == 0x85 || u == 0xA0 || u == 0x1680 || (0x2000
        <= u && u <= 0x200A) || u == 0x2028 || u == 0x2029 || u == 0x202F || u == 0x205F || u
        == 0x3000
}

/// `s` without its leading white space.
pub open spec fn trim_start(s: Seq<char>) -> Seq<char>
    decreases s.len(),
{
    if s.len() > 0 && is_space(s[0]) {
        trim_start(s.drop_first())
    } else {
        s
    }
}

/// `s` without its trailing white space.
pub open spec fn trim_end(s: Seq<char>) -> Seq<char>
    decreases s.len(),
{
    if s.len() > 0 && is_space(s.last()) {
        trim_end(s.drop_last())
    } else {
        s
    }
}

/// `s` without white space at either end, as `str::trim` gives it.
pub open spec fn trim(s: Seq<char>) -> Seq<char> {
    trim_end(trim_start(s))
}

proof fn lemma_trim_start_skip(s: Seq<char>, i: int)
    requires
        0 <= i <= s.len(),
        forall|j: int| 0 <= j < i ==> is_space(#[trigger] s[j]),
    ensures
        trim_start(s) == trim_start(s.skip(i)),
    decreases i,
{
    if i > 0 {
        assert(s.drop_first().skip(i - 1) =~= s.skip(i));
        lemma_trim_start_skip(s.drop_first(), i - 1);
    } else {
        assert(s.skip(0) =~= s);
    }
}

proof fn lemma_trim_end_take(s: Seq<char>, k: int)
    requires
        0 <= k <= s.len(),
        forall|j: int| k <= j < s.len() ==> is_space(#[trigger] s[j]),
    ensures
        trim_end(s) == trim_end(s.take(k)),
    decreases s.len() - k,
{
    if k < s.len() {
        assert(s.drop_last().take(k) =~= s.take(k));
        lemma_trim_end_take(s.drop_last(), k);
    } else {
        assert(s.take(k) =~= s);
    }
}

/// `v[lo..hi]` trimmed of white space at both ends, as a new character vector.
pub fn trim_range(v: &Vec<char>, lo: usize, hi: usize) -> (r: Vec<char>)
    requires
        lo <= hi <= v@.len(),
    ensures
        r@ == trim(v@.subrange(lo as int, hi as int)),
{
    let ghost t = v@.subrange(lo as int, hi as int);
    let mut a: usize = lo;
    while a < hi && space(v[a])
        invariant
            lo <= a <= hi,
            hi <= v@.len(),
            forall|j: int| lo <= j < a ==> is_space(#[trigger] v@[j]),
        decreases hi - a,
    {
        a = a + 1;
    }
    proof {
        assert forall|j: int| 0 <= j < a - lo implies is_space(#[trigger] t[j]) by {
            assert(t[j] == v@[lo + j]);
        }
        lemma_trim_start_skip(t, a - lo);
        assert(t.skip(a - lo) =~= v@.subrange(a as int, hi as int));
        if a < hi {
            assert(t.skip(a - lo)[0] == v@[a as int]);
        }
    }
    let mut b: usize = hi;
    while b > a && space(v[b - 1])
        invariant
            a <= b <= hi,
            hi <= v@.len(),
            forall|j: int| b <= j < hi ==> is_space(#[trigger] v@[j]),
        decreases b,
    {
        b = b - 1;
    }
    let ghost u = v@.subrange(a as int, hi as int);
    proof {
        assert forall|j: int| b - a <= j < u.len() implies is_space(#[trigger] u[j]) by {
            assert(u[j] == v@[a + j]);
        }
        lemma_trim_end_take(u, b - a);
        assert(u.take(b - a) =~= v@.subrange(a as int, b as int));
    }
    let mut r: Vec<char> = Vec::new();
    let mut i: usize = a;
    while i < b
        invariant
            a <= i <= b,
            b <= v@.len(),
            r@ == v@.subrange(a as int, i as int),
        decreases b - i,
    {
        r.push(v[i]);
        i = i + 1;
        assert(r@ =~= v@.subrange(a as int, i as int));
    }
    r
}

/// Index of the first `c` in `s`, or `s.len()` when there is none.
pub open spec fn find_char(s: Seq<char>, c: char) -> nat
    decreases s.len(),
{
    if s.len() == 0 {
        0
    } else if s[0] == c {
        0
    } else {
        1 + find_char(s.drop_first(), c)
    }
}

/// `find_char` is the index of the first occurrence of `c`.
pub proof fn lemma_find_char(s: Seq<char>, c: char, k: int)
    requires
        0 <= k <= s.len(),
        forall|j: int| 0 <= j < k ==> #[trigger] s[j] != c,
        k == s.len() || s[k] == c,
    ensures
        find_char(s, c) == k,
    decreases k,
{
    if k > 0 {
        assert forall|j: int| 0 <= j < k - 1 implies #[trigger] s.drop_first()[j] != c by {
            assert(s.drop_first()[j] == s[j + 1]);
        }
        lemma_find_char(s.drop_first(), c, k - 1);
    }
}

/// Position of the first `c` in `v[lo..hi]`, or `hi` when there is none.
pub fn find_in(v: &Vec<char>, lo: usize, hi: usize, c: char) -> (k: usize)
    requires
        lo <= hi <= v@.len(),
    ensures
        lo <= k <= hi,
        k == lo + find_char(v@.subrange(lo as int, hi as int), c),
{
    let mut k: usize = lo;
    while k < hi && v[k] != c
        invariant
            lo <= k <= hi,
            hi <= v@.len(),
            forall|j: int| lo <= j < k ==> #[trigger] v@[j] != c,
        decreases hi - k,
    {
        k = k + 1;
    }
    proof {
        let t = v@.subrange(lo as int, hi as int);
        assert forall|j: int| 0 <= j < k - lo implies #[trigger] t[j] != c by {
            assert(t[j] == v@[lo + j]);
        }
        lemma_find_char(t, c, k - lo);
    }
    k
}

/// Whether two character vectors hold the same characters.
pub fn same_chars(a: &Vec<char>, b: &Vec<char>) -> (r: bool)
    ensures
        r == (a@ == b@),
{
    if a.len() != b.len() {
        return false;
    }
    let mut i: usize = 0;
    while i < a.len()
        invariant
            a@.len() == b@.len(),
            i <= a@.len(),
            forall|j: int| 0 <= j < i ==> a@[j] == b@[j],
        decreases a@.len() - i,
    {
        if a[i] != b[i] {
            return false;
        }
        i = i + 1;
    }
    assert(a@ =~= b@);
    true
}

/// Whether two string slices hold the same characters.
pub fn str_eq(a: &str, b: &str) -> (r: bool)
    ensures
        r == (a@ == b@),
{
    let x = chars_of(a);
    let y = chars_of(b);
    same_chars(&x, &y)
}

/// A string holding `lit` followed by `rest`.
pub fn concat(lit: &str, rest: &str) -> (s: String)
    ensures
        s@ == lit@ + rest@,
{
    let mut s = String::from_str(lit);
    s.append(rest);
    s
}

/// `s` cut to at most `n` characters, the last of them an ellipsis where the
/// text was cut.
pub open spec fn truncated(s: Seq<char>, n: nat) -> Seq<char> {
    if s.len() <= n {
        s
    } else {
        s.take(if n == 0 { 0 } else { n - 1 }).push('…')
    }
}

/// Shortens `s` to `n` characters: a string of at most `n` characters comes
/// back unchanged; a longer one keeps its first `n - 1` characters (none when
/// `n` is 0) followed by `…`.
pub fn truncate(s: &str, n: usize) -> (r: String)
    ensures
        r@ == truncated(s@, n as nat),
{
    let v = chars_of(s);
    if v.len() <= n {
        return string_of(&v, 0, v.len());
    }
    let keep: usize = if n == 0 { 0 } else { n - 1 };
    let mut out = string_of(&v, 0, keep);
    push_char(&mut out, '…');
    assert(v@.subrange(0, keep as int) =~= v@.take(keep as int));
    out
}

/// `s` followed by spaces up to `width` characters, as `{:<width}` lays it out.
pub open spec fn padded_right(s: Seq<char>, width: nat) -> Seq<char> {
    if s.len() >= width {
        s
    } else {
        s + Seq::new((width - s.len()) as nat, |i: int| ' ')
    }
}

/// `s` preceded by spaces up to `width` characters, as `{:>width}` lays it out.
pub open spec fn padded_left(s: Seq<char>, width: nat) -> Seq<char> {
    if s.len() >= width {
        s
    } else {
        Seq::new((width - s.len()) as nat, |i: int| ' ') + s
    }
}

/// Left-aligns `s` in a field of `width` characters.
pub fn pad_right(s: &str, width: usize) -> (r: String)
    ensures
        r@ == padded_right(s@, width as nat),
{
    let n = s.unicode_len();
    let mut r = String::from_str(s);
    let mut k: usize = n;
    while k < width
        invariant
            n == s@.len(),
            n <= k || width <= n,
            k >= n,
            k < width ==> r@ == s@ + Seq::new((k - n) as nat, |i: int| ' '),
            k >= width ==> r@ == padded_right(s@, width as nat),
        decreases width - k,
    {
        proof {
            assert(r@ == s@ + Seq::new((k - n) as nat, |i: int| ' '));
        }
        push_char(&mut r, ' ');
        k = k + 1;
        proof {
            assert(r@ =~= s@ + Seq::new((k - n) as nat, |i: int| ' '));
        }
    }
    if n >= width {
        assert(r@ =~= padded_right(s@, width as nat));
    }
    r
}

/// Right-aligns `s` in a field of `width` characters.
pub fn pad_left(s: &str, width: usize) -> (r: String)
    ensures
        r@ == padded_left(s@, width as nat),
{
    let n = s.unicode_len();
    let mut r = String::new();
    let mut k: usize = n;
    while k < width
        invariant
            n == s@.len(),
            k >= n,
            k <= width || k == n,
            r@ == Seq::new((k - n) as nat, |i: int| ' '),
        decreases width - k,
    {
        push_char(&mut r, ' ');
        k = k + 1;
        assert(r@ =~= Seq::new((k - n) as nat, |i: int| ' '));
    }
    r.append(s);
    if n >= width {
        assert(r@ =~= s@);
    } else {
        assert(r@ =~= padded_left(s@, width as nat));
    }
    r
}

/// `n` copies of `c`.
pub open spec fn repeated(c: char, n: nat) -> Seq<char> {
    Seq::new(n, |i: int| c)
}

/// A string of `n` copies of `c`, as `str::repeat` builds it from a one-character string.
pub fn repeat_char(c: char, n: usize) -> (r: String)
    ensures
        r@ == repeated(c, n as nat),
{
    let mut r = String::new();
    let mut k: usize = 0;
    while k < n
        invariant
            k <= n,
            r@ == repeated(c, k as nat),
        decreases n - k,
    {
        push_char(&mut r, c);
        k = k + 1;
        assert(r@ =~= repeated(c, k as nat));
    }
    r
}

/// A text that fits is kept whole; a longer one is cut to exactly `n`
/// characters (one for `n` = 0), its first characters those of the text and
/// its last an ellipsis.
pub proof fn truncation_fits(s: Seq<char>, n: nat)
    ensures
        s.len() <= n ==> truncated(s, n) == s,
        s.len() > n ==> truncated(s, n).len() == if n == 0 {
            1
        } else {
            n
        },
        s.len() > n ==> truncated(s, n).last() == '…',
        forall|i: int| 0 <= i < truncated(s, n).len() - 1 ==> truncated(s, n)[i] == s[i],
{
}

/// Padding gives a text of at least `width` characters that keeps the text
/// whole, at its start for left alignment and at its end for right
/// alignment, with spaces filling the rest.
pub proof fn padding_keeps_text(s: Seq<char>, width: nat)
    ensures
        padded_right(s, width).len() == if s.len() >= width {
            s.len()
        } else {
            width
        },
        padded_left(s, width).len() == padded_right(s, width).len(),
        padded_right(s, width).take(s.len() as int) == s,
        padded_left(s, width).skip(padded_left(s, width).len() - s.len()) == s,
        forall|i: int|
            s.len() <= i < padded_right(s, width).len() ==> padded_right(s, width)[i] == ' ',
        forall|i: int|
            0 <= i < padded_left(s, width).len() - s.len() ==> padded_left(s, width)[i] == ' ',
{
    assert(padded_right(s, width).take(s.len() as int) =~= s);
    assert(padded_left(s, width).skip(padded_left(s, width).len() - s.len()) =~= s);
}

} // verus!
