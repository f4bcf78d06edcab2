//! Settings: the stats range, key bindings, colours, and how the raw
//! configuration, the environment and the scrobbler credentials combine.
use vstd::prelude::*;

use crate::text::{
    chars_of, find_char, find_in, same_chars, str_eq, string_of, trim, trim_range,
};

verus! {

/// The time range that the stats tabs cover.
#[derive(Debug, Clone, Copy, PartialEq, Eq, Structural)]
pub enum Range {
    Week,
    Month,
    Year,
    All,
}

/// The name of a range as the stats endpoints expect it.
pub open spec fn range_name(r: Range) -> Seq<char> {
    match r {
        Range::Week => "week"@,
        Range::Month => "month"@,
        Range::Year => "year"@,
        Range::All => "all_time"@,
    }
}

/// The range that follows `r`: week, month, year, all, then week again.
pub open spec fn range_after(r: Range) -> Range {
    match r {
        Range::Week => Range::Month,
        Range::Month => Range::Year,
        Range::Year => Range::All,
        Range::All => Range::Week,
    }
}

impl Range {
    /// The query value for this range.
    pub fn as_str(self) -> (s: &'static str)
        ensures
            s@ == range_name(self),
    {
        match self {
            Range::Week => "week",
            Range::Month => "month",
            Range::Year => "year",
            Range::All => "all_time",
        }
    }

    /// The next range in the cycle week → month → year → all → week.
    pub fn cycle(self) -> (r: Self)
        ensures
            r == range_after(self),
    {
        match self {
            Range::Week => Range::Month,
            Range::Month => Range::Year,
            Range::Year => Range::All,
            Range::All => Range::Week,
        }
    }
}

/// Cycling the range four times comes back to where it started.
pub proof fn range_cycle_returns(r: Range)
    ensures
        range_after(range_after(range_after(range_after(r)))) == r,
        range_after(r) != r,
{
}

/// The character bound to each action.
#[derive(Debug, Clone, Copy, PartialEq, Eq, Structural)]
pub struct KeyMap {
    pub quit: char,
    pub next_tab: char,
    pub prev_tab: char,
    pub down: char,
    pub up: char,
    pub top: char,
    pub bottom: char,
    pub refresh: char,
    pub toggle_range: char,
}

/// The vim-style default bindings.
pub open spec fn default_keys() -> KeyMap {
    KeyMap {
        quit: 'q',
        next_tab: 'l',
        prev_tab: 'h',
        down: 'j',
        up: 'k',
        top: 'g',
        bottom: 'G',
        refresh: 'r',
        toggle_range: 't',
    }
}

impl Default for KeyMap {
    fn default() -> (k: Self)
        ensures
            k == default_keys(),
    {
        KeyMap {
            quit: 'q',
            next_tab: 'l',
            prev_tab: 'h',
            down: 'j',
            up: 'k',
            top: 'g',
            bottom: 'G',
            refresh: 'r',
            toggle_range: 't',
        }
    }
}

/// A colour given by its red, green and blue components.
#[derive(Debug, Clone, Copy, PartialEq, Eq, Structural)]
pub struct Rgb {
    pub r: u8,
    pub g: u8,
    pub b: u8,
}

/// The colours of the interface, one per slot.
#[derive(Debug, Clone, Copy, PartialEq, Eq, Structural)]
pub struct Palette {
    pub accent: Rgb,
    pub accent_deep: Rgb,
    pub muted: Rgb,
    pub positive: Rgb,
    pub warning: Rgb,
    pub error: Rgb,
    pub fg: Rgb,
    pub bg: Rgb,
}

/// The default colours: #9A6DD7, #5A2A82, #6A6A6A, #9A6DD7, #B83D8E,
/// #FF6B6B, #E5E5E5 and #0D0D0D.
pub open spec fn default_palette() -> Palette {
    Palette {
        accent: Rgb { r: 0x9A, g: 0x6D, b: 0xD7 },
        accent_deep: Rgb { r: 0x5A, g: 0x2A, b: 0x82 },
        muted: Rgb { r: 0x6A, g: 0x6A, b: 0x6A },
        positive: Rgb { r: 0x9A, g: 0x6D, b: 0xD7 },
        warning: Rgb { r: 0xB8, g: 0x3D, b: 0x8E },
        error: Rgb { r: 0xFF, g: 0x6B, b: 0x6B },
        fg: Rgb { r: 0xE5, g: 0xE5, b: 0xE5 },
        bg: Rgb { r: 0x0D, g: 0x0D, b: 0x0D },
    }
}

impl Default for Palette {
    fn default() -> (p: Self)
        ensures
            p == default_palette(),
    {
        Palette {
            accent: Rgb { r: 0x9A, g: 0x6D, b: 0xD7 },
            accent_deep: Rgb { r: 0x5A, g: 0x2A, b: 0x82 },
            muted: Rgb { r: 0x6A, g: 0x6A, b: 0x6A },
            positive: Rgb { r: 0x9A, g: 0x6D, b: 0xD7 },
            warning: Rgb { r: 0xB8, g: 0x3D, b: 0x8E },
            error: Rgb { r: 0xFF, g: 0x6B, b: 0x6B },
            fg: Rgb { r: 0xE5, g: 0xE5, b: 0xE5 },
            bg: Rgb { r: 0x0D, g: 0x0D, b: 0x0D },
        }
    }
}

/// The settings the application runs with.
#[derive(Debug, Clone)]
pub struct Config {
    pub username: String,
    pub token: Option<String>,
    pub range: Range,
    pub refresh_interval: u64,
    pub keys: KeyMap,
    pub colors: Palette,
}

// ---------------------------------------------------------------- colours

/// Number of bytes that `c` takes in UTF-8.
pub open spec fn utf8_width(c: char) -> nat {
    let u = c as u32;
    if u < 0x80 {
        1
    } else if u < 0x800 {
        2
    } else if u < 0x10000 {
        3
    } else {
        4
    }
}

/// Number of bytes that `s` takes in UTF-8 (what `str::len` reports).
pub open spec fn utf8_len(s: Seq<char>) -> nat
    decreases s.len(),
{
    if s.len() == 0 {
        0
    } else {
        utf8_width(s[0]) + utf8_len(s.drop_first())
    }
}

/// Whether byte offset `k` of the UTF-8 encoding of `s` falls between two characters.
pub open spec fn is_boundary(s: Seq<char>, k: int) -> bool
    decreases s.len(),
{
    if k == 0 {
        true
    } else if s.len() == 0 {
        false
    } else {
        k >= utf8_width(s[0]) && is_boundary(s.drop_first(), k - utf8_width(s[0]))
    }
}

/// `s` without its leading `c` characters.
pub open spec fn strip_leading(s: Seq<char>, c: char) -> Seq<char>
    decreases s.len(),
{
    if s.len() > 0 && s[0] == c {
        strip_leading(s.drop_first(), c)
    } else {
        s
    }
}

/// The value of a hexadecimal digit.
pub open spec fn hex_digit(c: char) -> Option<nat> {
    if '0' <= c && c <= '9' {
        Some((c as u32 - '0' as u32) as nat)
    } else if 'a' <= c && c <= 'f' {
        Some((c as u32 - 'a' as u32 + 10) as nat)
    } else if 'A' <= c && c <= 'F' {
        Some((c as u32 - 'A' as u32 + 10) as nat)
    } else {
        None
    }
}

/// The byte that a two-character string denotes in base 16, as
/// `u8::from_str_radix` reads it: two hex digits, or `+` and one hex digit.
pub open spec fn hex_pair(a: char, b: char) -> Option<u8> {
    if a == '+' {
        match hex_digit(b) {
            Some(d) => Some(d as u8),
            None => None,
        }
    } else {
        match (hex_digit(a), hex_digit(b)) {
            (Some(x), Some(y)) => Some((16 * x + y) as u8),
            _ => None,
        }
    }
}

/// The colour of six characters read as three base-16 bytes.
pub open spec fn rgb_of_six(t: Seq<char>) -> Option<Rgb> {
    if t.len() == 6 && hex_pair(t[0], t[1]) is Some && hex_pair(t[2], t[3]) is Some && hex_pair(
        t[4],
        t[5],
    ) is Some {
        Some(
            Rgb {
                r: hex_pair(t[0], t[1])->0,
                g: hex_pair(t[2], t[3])->0,
                b: hex_pair(t[4], t[5])->0,
            },
        )
    } else {
        None
    }
}

/// The colour that a `#RRGGBB` string denotes, if any. Leading `#`s are
/// ignored; what remains must be six bytes long.
pub open spec fn hex_color(s: Seq<char>) -> Option<Rgb> {
    let t = strip_leading(s, '#');
    if utf8_len(t) == 6 {
        rgb_of_six(t)
    } else {
        None
    }
}

/// The inputs on which reading a colour by byte offsets would cut a character
/// in two: six bytes after the `#`s, but no character boundary at offset 2, or
/// none at offset 4 once the first byte was read.
pub open spec fn hex_panics(s: Seq<char>) -> bool {
    let t = strip_leading(s, '#');
    &&& utf8_len(t) == 6
    &&& (!is_boundary(t, 2) || (t.len() >= 2 && hex_pair(t[0], t[1]) is Some && !is_boundary(t, 4)))
}

/// Why a colour string was refused.
#[derive(Debug, Clone)]
pub enum HexError {
    /// The text after the `#`s is not six bytes long; it is carried here.
    WrongLength(String),
    /// Six bytes, but not three base-16 bytes.
    InvalidDigit,
}

/// The error that reading `s` as a colour gives.
pub open spec fn hex_error_for(e: HexError, s: Seq<char>) -> bool {
    let t = strip_leading(s, '#');
    if utf8_len(t) != 6 {
        e matches HexError::WrongLength(x) && x@ == t
    } else {
        e matches HexError::InvalidDigit
    }
}

proof fn lemma_strip_skip(s: Seq<char>, c: char, i: int)
    requires
        0 <= i <= s.len(),
        forall|j: int| 0 <= j < i ==> #[trigger] s[j] == c,
    ensures
        strip_leading(s, c) == strip_leading(s.skip(i), c),
    decreases i,
{
    if i > 0 {
        assert(s.drop_first().skip(i - 1) =~= s.skip(i));
        lemma_strip_skip(s.drop_first(), c, i - 1);
    } else {
        assert(s.skip(0) =~= s);
    }
}

/// UTF-8 length adds up over concatenation.
pub proof fn lemma_utf8_len_concat(a: Seq<char>, b: Seq<char>)
    ensures
        utf8_len(a + b) == utf8_len(a) + utf8_len(b),
    decreases a.len(),
{
    if a.len() > 0 {
        assert((a + b).drop_first() =~= a.drop_first() + b);
        lemma_utf8_len_concat(a.drop_first(), b);
    } else {
        assert(a + b =~= b);
    }
}

proof fn lemma_utf8_len_single(c: char)
    ensures
        utf8_len(seq![c]) == utf8_width(c),
{
    assert(seq![c].drop_first() =~= Seq::<char>::empty());
    assert(utf8_len(Seq::<char>::empty()) == 0);
}

fn char_width(c: char) -> (w: usize)
    ensures
        w == utf8_width(c),
{
    let u = c as u32;
    if u < 0x80 {
        1
    } else if u < 0x800 {
        2
    } else if u < 0x10000 {
        3
    } else {
        4
    }
}

/// Index of the first character of `v` that is not `c`.
fn skip_leading(v: &Vec<char>, c: char) -> (a: usize)
    ensures
        a <= v@.len(),
        strip_leading(v@, c) == v@.skip(a as int),
{
    let mut a: usize = 0;
    while a < v.len() && v[a] == c
        invariant
            a <= v@.len(),
            forall|j: int| 0 <= j < a ==> #[trigger] v@[j] == c,
        decreases v@.len() - a,
    {
        a = a + 1;
    }
    proof {
        lemma_strip_skip(v@, c, a as int);
        let t = v@.skip(a as int);
        if t.len() > 0 {
            assert(t[0] == v@[a as int]);
        }
    }
    a
}

/// The UTF-8 length of `v[a..]` when it is at most `cap`; something above `cap` otherwise.
fn utf8_len_capped(v: &Vec<char>, a: usize, cap: usize) -> (n: usize)
    requires
        a <= v@.len(),
        cap < 1000,
    ensures
        utf8_len(v@.skip(a as int)) <= cap ==> n == utf8_len(v@.skip(a as int)),
        utf8_len(v@.skip(a as int)) > cap ==> n > cap,
{
    let ghost t = v@.skip(a as int);
    let mut n: usize = 0;
    let mut i: usize = a;
    while i < v.len()
        invariant
            a <= i <= v@.len(),
            t == v@.skip(a as int),
            cap < 1000,
            n <= cap,
            n == utf8_len(v@.subrange(a as int, i as int)),
        decreases v@.len() - i,
    {
        let w = char_width(v[i]);
        proof {
            lemma_utf8_len_concat(v@.subrange(a as int, i as int), seq![v@[i as int]]);
            assert(v@.subrange(a as int, i as int) + seq![v@[i as int]] =~= v@.subrange(
                a as int,
                i + 1,
            ));
            lemma_utf8_len_single(v@[i as int]);
        }
        n = n + w;
        i = i + 1;
        if n > cap {
            proof {
                lemma_utf8_len_concat(v@.subrange(a as int, i as int), v@.skip(i as int));
                assert(v@.subrange(a as int, i as int) + v@.skip(i as int) =~= t);
            }
            return n;
        }
    }
    assert(v@.subrange(a as int, v@.len() as int) =~= t);
    n
}

/// Reads a hexadecimal digit.
fn hex_digit_of(c: char) -> (d: Option<u8>)
    ensures
        d is Some <==> hex_digit(c) is Some,
        d is Some ==> d->0 == hex_digit(c)->0,
{
    if '0' <= c && c <= '9' {
        Some((c as u32 - '0' as u32) as u8)
    } else if 'a' <= c && c <= 'f' {
        Some((c as u32 - 'a' as u32 + 10) as u8)
    } else if 'A' <= c && c <= 'F' {
        Some((c as u32 - 'A' as u32 + 10) as u8)
    } else {
        None
    }
}

/// Reads two characters as one base-16 byte.
fn hex_pair_of(a: char, b: char) -> (r: Option<u8>)
    ensures
        r == hex_pair(a, b),
{
    if a == '+' {
        match hex_digit_of(b) {
            Some(d) => Some(d),
            None => None,
        }
    } else {
        match (hex_digit_of(a), hex_digit_of(b)) {
            (Some(x), Some(y)) => Some(16 * x + y),
            _ => None,
        }
    }
}

/// Reads a `#RRGGBB` colour. Leading `#`s are dropped; the rest must be six
/// bytes long, else `WrongLength` with that rest; six bytes that are not three
/// base-16 bytes give `InvalidDigit`.
pub fn hex(s: &str) -> (r: Result<Rgb, HexError>)
    requires
        !hex_panics(s@),
    ensures
        match r {
            Ok(c) => hex_color(s@) == Some(c),
            Err(e) => hex_color(s@) is None && hex_error_for(e, s@),
        },
{
    let v = chars_of(s);
    let a = skip_leading(&v, '#');
    let n = utf8_len_capped(&v, a, 6);
    if n != 6 {
        return Err(HexError::WrongLength(string_of(&v, a, v.len())));
    }
    if v.len() - a != 6 {
        return Err(HexError::InvalidDigit);
    }
    let ghost t = v@.skip(a as int);
    assert(t[0] == v@[a as int] && t[1] == v@[a + 1] && t[2] == v@[a + 2]);
    assert(t[3] == v@[a + 3] && t[4] == v@[a + 4] && t[5] == v@[a + 5]);
    let r = hex_pair_of(v[a], v[a + 1]);
    let g = hex_pair_of(v[a + 2], v[a + 3]);
    let b = hex_pair_of(v[a + 4], v[a + 5]);
    match (r, g, b) {
        (Some(r), Some(g), Some(b)) => Ok(Rgb { r, g, b }),
        _ => Err(HexError::InvalidDigit),
    }
}

/// Whether byte offset `k` of `v[a..]` in UTF-8 falls between two characters.
fn boundary_at(v: &Vec<char>, a: usize, k: usize) -> (b: bool)
    requires
        a <= v@.len(),
        k < 1000,
    ensures
        b == is_boundary(v@.skip(a as int), k as int),
{
    let mut i: usize = a;
    let mut acc: usize = 0;
    while i < v.len() && acc < k
        invariant
            a <= i <= v@.len(),
            acc <= k,
            k < 1000,
            is_boundary(v@.skip(a as int), k as int) == is_boundary(
                v@.skip(i as int),
                k - acc,
            ),
        decreases v@.len() - i,
    {
        let w = char_width(v[i]);
        proof {
            let u = v@.skip(i as int);
            assert(u[0] == v@[i as int]);
            assert(u.drop_first() =~= v@.skip(i + 1));
        }
        if acc + w > k {
            proof {
                let u = v@.skip(i as int);
                assert(!is_boundary(u, k - acc));
            }
            return false;
        }
        acc = acc + w;
        i = i + 1;
    }
    acc == k
}

/// Whether `hex` would have to cut a character in two on `s` (see `hex_panics`).
pub fn hex_would_panic(s: &str) -> (b: bool)
    ensures
        b == hex_panics(s@),
{
    let v = chars_of(s);
    let a = skip_leading(&v, '#');
    let n = utf8_len_capped(&v, a, 6);
    if n != 6 {
        return false;
    }
    if !boundary_at(&v, a, 2) {
        return true;
    }
    let ghost t = v@.skip(a as int);
    if v.len() - a < 2 {
        return false;
    }
    assert(t[0] == v@[a as int] && t[1] == v@[a + 1]);
    match hex_pair_of(v[a], v[a + 1]) {
        Some(_) => !boundary_at(&v, a, 4),
        None => false,
    }
}

// ------------------------------------------------------------ key bindings

/// Why a key binding was refused.
#[derive(Debug, Clone)]
pub enum KeyError {
    /// The binding is the empty string.
    Empty,
    /// The binding has more than one character; it is carried here.
    NotSingle(String),
}

/// Reads a key binding: exactly one character.
pub fn parse_key(s: &str) -> (r: Result<char, KeyError>)
    ensures
        s@.len() == 1 ==> r == Ok::<char, KeyError>(s@[0]),
        s@.len() == 0 ==> r matches Err(KeyError::Empty),
        s@.len() > 1 ==> (r matches Err(KeyError::NotSingle(x)) && x@ == s@),
{
    let v = chars_of(s);
    if v.len() == 0 {
        Err(KeyError::Empty)
    } else if v.len() > 1 {
        Err(KeyError::NotSingle(String::from_str(s)))
    } else {
        Ok(v[0])
    }
}


// ------------------------------------------------------------- credentials

/// The header of the ListenBrainz section in the scrobbler's credentials file.
pub open spec fn lb_header() -> Seq<char> {
    "[listenbrainz]"@
}

/// Looks `field` up in credentials text `s`, read line by line: a line that
/// starts with `[` opens a section (the ListenBrainz one only when the line is
/// exactly its header); inside that section a line `key = value` whose trimmed
/// key is `field` gives the trimmed value. Lines are trimmed of white space.
pub open spec fn credentials_lookup(s: Seq<char>, field: Seq<char>, in_section: bool) -> Option<
    Seq<char>,
>
    decreases s.len(),
{
    let e = find_char(s, '\n');
    let line = trim(s.take(e as int));
    let p = find_char(line, '=');
    if line.len() > 0 && line[0] == '[' {
        if e < s.len() {
            credentials_lookup(s.skip((e + 1) as int), field, line == lb_header())
        } else {
            None
        }
    } else if in_section && p < line.len() && trim(line.take(p as int)) == field {
        Some(trim(line.skip((p + 1) as int)))
    } else if e < s.len() {
        credentials_lookup(s.skip((e + 1) as int), field, in_section)
    } else {
        None
    }
}

/// Reads `field` from the `[listenbrainz]` section of the scrobbler's
/// credentials text `body`: the first `field = value` line of that section
/// gives the trimmed value.
pub fn read_credentials_field(body: &str, field: &str) -> (r: Option<String>)
    ensures
        match r {
            Some(x) => credentials_lookup(body@, field@, false) == Some(x@),
            None => credentials_lookup(body@, field@, false) is None,
        },
{
    let v = chars_of(body);
    let f = chars_of(field);
    let header = chars_of("[listenbrainz]");
    let mut start: usize = 0;
    let mut in_lb = false;
    proof {
        assert(v@.skip(0) =~= v@);
    }
    loop
        invariant
            start <= v@.len(),
            v@ == body@,
            f@ == field@,
            header@ == lb_header(),
            credentials_lookup(body@, field@, false) == credentials_lookup(
                v@.skip(start as int),
                field@,
                in_lb,
            ),
        decreases v@.len() - start,
    {
        let ghost s = v@.skip(start as int);
        let e = find_in(&v, start, v.len(), '\n');
        proof {
            assert(v@.subrange(start as int, v@.len() as int) =~= s);
            assert(v@.subrange(start as int, e as int) =~= s.take(e - start));
        }
        let line = trim_range(&v, start, e);
        let ghost old_in = in_lb;
        let p = find_in(&line, 0, line.len(), '=');
        proof {
            assert(line@.subrange(0, line@.len() as int) =~= line@);
        }
        if line.len() > 0 && line[0] == '[' {
            in_lb = same_chars(&line, &header);
        } else if in_lb {
            if p < line.len() {
                let k = trim_range(&line, 0, p);
                proof {
                    assert(line@.subrange(0, p as int) =~= line@.take(p as int));
                }
                if same_chars(&k, &f) {
                    let val = trim_range(&line, p + 1, line.len());
                    proof {
                        assert(line@.subrange(p + 1, line@.len() as int) =~= line@.skip(p + 1));
                    }
                    let out = string_of(&val, 0, val.len());
                    proof {
                        assert(val@.subrange(0, val@.len() as int) =~= val@);
                    }
                    return Some(out);
                }
            }
        }
        if e >= v.len() {
            return None;
        }
        proof {
            assert(s.skip(e - start + 1) =~= v@.skip(e + 1));
        }
        start = e + 1;
    }
}

/// The token in the scrobbler's credentials text.
pub fn read_credentials_token(body: &str) -> (r: Option<String>)
    ensures
        match r {
            Some(x) => credentials_lookup(body@, "token"@, false) == Some(x@),
            None => credentials_lookup(body@, "token"@, false) is None,
        },
{
    read_credentials_field(body, "token")
}

/// The user name in the scrobbler's credentials text.
pub fn read_credentials_username(body: &str) -> (r: Option<String>)
    ensures
        match r {
            Some(x) => credentials_lookup(body@, "username"@, false) == Some(x@),
            None => credentials_lookup(body@, "username"@, false) is None,
        },
{
    read_credentials_field(body, "username")
}


// ------------------------------------------------------------------ loading

/// The configuration file's contents, as far as the settings need them. An
/// absent `keys` or `colors` table is an empty list; the entries of a table
/// come in the order in which they were read, and no two of them name the
/// same setting (`names_distinct`), as in the file's tables.
#[derive(Debug, Clone)]
pub struct RawConfig {
    pub username: Option<String>,
    pub token: Option<String>,
    pub range: Option<Range>,
    pub refresh_interval: Option<u64>,
    pub keys: Vec<(String, String)>,
    pub colors: Vec<(String, String)>,
}

/// Why the configuration was refused.
#[derive(Debug, Clone)]
#[allow(inconsistent_fields)]
pub enum ConfigError {
    /// The binding given for `action` is not a single character.
    KeyBinding { action: String, cause: KeyError },
    /// A binding names an action that does not exist.
    UnknownKeyAction(String),
    /// The colour given for `slot` cannot be read.
    Color { slot: String, cause: HexError },
    /// A colour names a slot that does not exist.
    UnknownColorSlot(String),
    /// No user name in the configuration, the environment or the credentials.
    NoUsername,
}

/// No two entries of a table name the same setting: the tables of the
/// configuration file are maps.
pub open spec fn names_distinct(entries: Seq<(String, String)>) -> bool {
    forall|i: int, j: int|
        0 <= i < j < entries.len() ==> (#[trigger] entries[i]).0@ != (#[trigger] entries[j]).0@
}

/// Whether no two entries name the same setting.
pub fn names_are_distinct(entries: &Vec<(String, String)>) -> (b: bool)
    ensures
        b == names_distinct(entries@),
{
    let mut j: usize = 0;
    while j < entries.len()
        invariant
            j <= entries@.len(),
            forall|a: int, b: int|
                0 <= a < b < j ==> (#[trigger] entries@[a]).0@ != (#[trigger] entries@[b]).0@,
        decreases entries@.len() - j,
    {
        let mut i: usize = 0;
        while i < j
            invariant
                i <= j < entries@.len(),
                forall|a: int| 0 <= a < i ==> (#[trigger] entries@[a]).0@ != entries@[j as int].0@,
            decreases j - i,
        {
            if str_eq(entries[i].0.as_str(), entries[j].0.as_str()) {
                assert(!names_distinct(entries@)) by {
                    assert(entries@[i as int].0@ == entries@[j as int].0@);
                }
                return false;
            }
            i = i + 1;
        }
        j = j + 1;
    }
    true
}

/// Whether `name` is one of the actions that can be bound.
pub open spec fn is_key_action(name: Seq<char>) -> bool {
    ||| name == "quit"@
    ||| name == "next_tab"@
    ||| name == "prev_tab"@
    ||| name == "down"@
    ||| name == "up"@
    ||| name == "top"@
    ||| name == "bottom"@
    ||| name == "refresh"@
    ||| name == "toggle_range"@
}

/// `km` with action `name` bound to `c` (unchanged for an unknown action).
pub open spec fn bind_key(km: KeyMap, name: Seq<char>, c: char) -> KeyMap {
    if name == "quit"@ {
        KeyMap { quit: c, ..km }
    } else if name == "next_tab"@ {
        KeyMap { next_tab: c, ..km }
    } else if name == "prev_tab"@ {
        KeyMap { prev_tab: c, ..km }
    } else if name == "down"@ {
        KeyMap { down: c, ..km }
    } else if name == "up"@ {
        KeyMap { up: c, ..km }
    } else if name == "top"@ {
        KeyMap { top: c, ..km }
    } else if name == "bottom"@ {
        KeyMap { bottom: c, ..km }
    } else if name == "refresh"@ {
        KeyMap { refresh: c, ..km }
    } else if name == "toggle_range"@ {
        KeyMap { toggle_range: c, ..km }
    } else {
        km
    }
}

/// A key binding entry that is accepted: a known action and one character.
pub open spec fn key_entry_ok(e: (String, String)) -> bool {
    e.1@.len() == 1 && is_key_action(e.0@)
}

/// Whether every key binding entry is accepted.
pub open spec fn keys_ok(entries: Seq<(String, String)>) -> bool {
    forall|i: int| 0 <= i < entries.len() ==> key_entry_ok(#[trigger] entries[i])
}

/// The default bindings with the entries applied in order (a later entry
/// for the same action wins).
pub open spec fn keys_applied(entries: Seq<(String, String)>) -> KeyMap
    decreases entries.len(),
{
    if entries.len() == 0 {
        default_keys()
    } else {
        bind_key(keys_applied(entries.drop_last()), entries.last().0@, entries.last().1@[0])
    }
}

/// The error that a refused key binding entry gives.
pub open spec fn key_error_for(e: ConfigError, entry: (String, String)) -> bool {
    let name = entry.0@;
    let value = entry.1@;
    if value.len() == 0 {
        e matches ConfigError::KeyBinding { action, cause: KeyError::Empty } && action@ == name
    } else if value.len() > 1 {
        e matches ConfigError::KeyBinding { action, cause: KeyError::NotSingle(x) } && action@
            == name && x@ == value
    } else {
        e matches ConfigError::UnknownKeyAction(a) && a@ == name
    }
}

/// `e` is the error of the first refused key binding entry.
pub open spec fn key_failure(e: ConfigError, entries: Seq<(String, String)>) -> bool {
    exists|i: int|
        0 <= i < entries.len() && (forall|j: int| 0 <= j < i ==> key_entry_ok(#[trigger] entries[j]))
            && !key_entry_ok(#[trigger] entries[i]) && key_error_for(e, entries[i])
}

/// Binds `name` to `c` in `km`; false, and `km` unchanged, for an unknown action.
fn bind(km: &mut KeyMap, name: &str, c: char) -> (known: bool)
    ensures
        known == is_key_action(name@),
        *final(km) == bind_key(*old(km), name@, c),
{
    if str_eq(name, "quit") {
        km.quit = c;
    } else if str_eq(name, "next_tab") {
        km.next_tab = c;
    } else if str_eq(name, "prev_tab") {
        km.prev_tab = c;
    } else if str_eq(name, "down") {
        km.down = c;
    } else if str_eq(name, "up") {
        km.up = c;
    } else if str_eq(name, "top") {
        km.top = c;
    } else if str_eq(name, "bottom") {
        km.bottom = c;
    } else if str_eq(name, "refresh") {
        km.refresh = c;
    } else if str_eq(name, "toggle_range") {
        km.toggle_range = c;
    } else {
        return false;
    }
    true
}

/// The key bindings: the defaults overridden by `entries` in order, or the
/// error of the first entry that is refused.
pub fn resolve_keys(entries: &Vec<(String, String)>) -> (r: Result<KeyMap, ConfigError>)
    requires
        names_distinct(entries@),
    ensures
        match r {
            Ok(km) => keys_ok(entries@) && km == keys_applied(entries@),
            Err(e) => !keys_ok(entries@) && key_failure(e, entries@),
        },
{
    let mut km = KeyMap::default();
    let mut i: usize = 0;
    while i < entries.len()
        invariant
            i <= entries@.len(),
            forall|j: int| 0 <= j < i ==> key_entry_ok(#[trigger] entries@[j]),
            km == keys_applied(entries@.take(i as int)),
        decreases entries@.len() - i,
    {
        let c = match parse_key(entries[i].1.as_str()) {
            Ok(c) => c,
            Err(cause) => {
                let e = ConfigError::KeyBinding { action: entries[i].0.clone(), cause };
                assert(!key_entry_ok(entries@[i as int]));
                assert(key_failure(e, entries@));
                return Err(e);
            },
        };
        if !bind(&mut km, entries[i].0.as_str(), c) {
            let e = ConfigError::UnknownKeyAction(entries[i].0.clone());
            assert(!key_entry_ok(entries@[i as int]));
            assert(key_failure(e, entries@));
            return Err(e);
        }
        proof {
            let t = entries@.take(i + 1);
            assert(t.drop_last() =~= entries@.take(i as int));
            assert(t.last() == entries@[i as int]);
        }
        i = i + 1;
    }
    assert(entries@.take(entries@.len() as int) =~= entries@);
    Ok(km)
}

/// Whether `name` is one of the colour slots.
pub open spec fn is_color_slot(name: Seq<char>) -> bool {
    ||| name == "accent"@
    ||| name == "accent_deep"@
    ||| name == "muted"@
    ||| name == "positive"@
    ||| name == "warning"@
    ||| name == "error"@
    ||| name == "fg"@
    ||| name == "bg"@
}

/// `p` with slot `name` set to `c` (unchanged for an unknown slot).
pub open spec fn set_color(p: Palette, name: Seq<char>, c: Rgb) -> Palette {
    if name == "accent"@ {
        Palette { accent: c, ..p }
    } else if name == "accent_deep"@ {
        Palette { accent_deep: c, ..p }
    } else if name == "muted"@ {
        Palette { muted: c, ..p }
    } else if name == "positive"@ {
        Palette { positive: c, ..p }
    } else if name == "warning"@ {
        Palette { warning: c, ..p }
    } else if name == "error"@ {
        Palette { error: c, ..p }
    } else if name == "fg"@ {
        Palette { fg: c, ..p }
    } else if name == "bg"@ {
        Palette { bg: c, ..p }
    } else {
        p
    }
}

/// A colour entry that is accepted: a readable colour for a known slot.
pub open spec fn color_entry_ok(e: (String, String)) -> bool {
    hex_color(e.1@) is Some && is_color_slot(e.0@)
}

/// Whether every colour entry is accepted.
pub open spec fn colors_ok(entries: Seq<(String, String)>) -> bool {
    forall|i: int| 0 <= i < entries.len() ==> color_entry_ok(#[trigger] entries[i])
}

/// The inputs on which reading the colour entries in order reaches a value
/// that `hex` cannot read without cutting a character (see `hex_panics`).
pub open spec fn colors_panic(entries: Seq<(String, String)>) -> bool {
    exists|i: int|
        0 <= i < entries.len() && (forall|j: int|
            0 <= j < i ==> color_entry_ok(#[trigger] entries[j])) && hex_panics(
            #[trigger] entries[i].1@,
        )
}

/// The default palette with the entries applied in order.
pub open spec fn colors_applied(entries: Seq<(String, String)>) -> Palette
    decreases entries.len(),
{
    if entries.len() == 0 {
        default_palette()
    } else {
        set_color(
            colors_applied(entries.drop_last()),
            entries.last().0@,
            hex_color(entries.last().1@)->0,
        )
    }
}

/// The error that a refused colour entry gives.
pub open spec fn color_error_for(e: ConfigError, entry: (String, String)) -> bool {
    if hex_color(entry.1@) is None {
        e matches ConfigError::Color { slot, cause } && slot@ == entry.0@ && hex_error_for(
            cause,
            entry.1@,
        )
    } else {
        e matches ConfigError::UnknownColorSlot(n) && n@ == entry.0@
    }
}

/// `e` is the error of the first refused colour entry.
pub open spec fn color_failure(e: ConfigError, entries: Seq<(String, String)>) -> bool {
    exists|i: int|
        0 <= i < entries.len() && (forall|j: int|
            0 <= j < i ==> color_entry_ok(#[trigger] entries[j])) && !color_entry_ok(
            #[trigger] entries[i],
        ) && color_error_for(e, entries[i])
}

/// Sets slot `name` of `p` to `c`; false, and `p` unchanged, for an unknown slot.
fn paint(p: &mut Palette, name: &str, c: Rgb) -> (known: bool)
    ensures
        known == is_color_slot(name@),
        *final(p) == set_color(*old(p), name@, c),
{
    if str_eq(name, "accent") {
        p.accent = c;
    } else if str_eq(name, "accent_deep") {
        p.accent_deep = c;
    } else if str_eq(name, "muted") {
        p.muted = c;
    } else if str_eq(name, "positive") {
        p.positive = c;
    } else if str_eq(name, "warning") {
        p.warning = c;
    } else if str_eq(name, "error") {
        p.error = c;
    } else if str_eq(name, "fg") {
        p.fg = c;
    } else if str_eq(name, "bg") {
        p.bg = c;
    } else {
        return false;
    }
    true
}

/// The palette: the defaults overridden by `entries` in order, or the error
/// of the first entry that is refused.
pub fn resolve_colors(entries: &Vec<(String, String)>) -> (r: Result<Palette, ConfigError>)
    requires
        names_distinct(entries@),
        !colors_panic(entries@),
    ensures
        match r {
            Ok(p) => colors_ok(entries@) && p == colors_applied(entries@),
            Err(e) => !colors_ok(entries@) && color_failure(e, entries@),
        },
{
    let mut p = Palette::default();
    let mut i: usize = 0;
    while i < entries.len()
        invariant
            i <= entries@.len(),
            !colors_panic(entries@),
            forall|j: int| 0 <= j < i ==> color_entry_ok(#[trigger] entries@[j]),
            p == colors_applied(entries@.take(i as int)),
        decreases entries@.len() - i,
    {
        proof {
            if hex_panics(entries@[i as int].1@) {
                assert(colors_panic(entries@));
            }
        }
        let c = match hex(entries[i].1.as_str()) {
            Ok(c) => c,
            Err(cause) => {
                let e = ConfigError::Color { slot: entries[i].0.clone(), cause };
                assert(!color_entry_ok(entries@[i as int]));
                assert(color_failure(e, entries@));
                return Err(e);
            },
        };
        if !paint(&mut p, entries[i].0.as_str(), c) {
            let e = ConfigError::UnknownColorSlot(entries[i].0.clone());
            assert(!color_entry_ok(entries@[i as int]));
            assert(color_failure(e, entries@));
            return Err(e);
        }
        proof {
            let t = entries@.take(i + 1);
            assert(t.drop_last() =~= entries@.take(i as int));
            assert(t.last() == entries@[i as int]);
        }
        i = i + 1;
    }
    assert(entries@.take(entries@.len() as int) =~= entries@);
    Ok(p)
}

/// Whether the colour entries reach a value that `hex` cannot read (see `colors_panic`).
pub fn colors_would_panic(entries: &Vec<(String, String)>) -> (b: bool)
    ensures
        b == colors_panic(entries@),
{
    let mut i: usize = 0;
    while i < entries.len()
        invariant
            i <= entries@.len(),
            forall|j: int| 0 <= j < i ==> color_entry_ok(#[trigger] entries@[j]),
            forall|j: int| 0 <= j < i ==> !hex_panics(#[trigger] entries@[j].1@),
        decreases entries@.len() - i,
    {
        if hex_would_panic(entries[i].1.as_str()) {
            assert(colors_panic(entries@));
            return true;
        }
        let ok = match hex(entries[i].1.as_str()) {
            Ok(c) => {
                let mut scratch = Palette::default();
                paint(&mut scratch, entries[i].0.as_str(), c)
            },
            Err(_) => false,
        };
        if !ok {
            proof {
                assert(!color_entry_ok(entries@[i as int]));
                if colors_panic(entries@) {
                    let k = choose|k: int|
                        0 <= k < entries@.len() && (forall|j: int|
                            0 <= j < k ==> color_entry_ok(#[trigger] entries@[j])) && hex_panics(
                            #[trigger] entries@[k].1@,
                        );
                    if k > i {
                        assert(color_entry_ok(entries@[i as int]));
                    }
                }
            }
            return false;
        }
        i = i + 1;
    }
    proof {
        if colors_panic(entries@) {
            let k = choose|k: int|
                0 <= k < entries@.len() && (forall|j: int|
                    0 <= j < k ==> color_entry_ok(#[trigger] entries@[j])) && hex_panics(
                    #[trigger] entries@[k].1@,
                );
            assert(!hex_panics(entries@[k].1@));
        }
    }
    false
}

/// The first of three optional values that is present.
pub open spec fn first_present(a: Option<Seq<char>>, b: Option<Seq<char>>, c: Option<Seq<char>>) -> Option<Seq<char>> {
    if a is Some {
        a
    } else if b is Some {
        b
    } else {
        c
    }
}

/// The characters of an optional string.
pub open spec fn opt_view(o: Option<String>) -> Option<Seq<char>> {
    match o {
        Some(s) => Some(s@),
        None => None,
    }
}

/// `field` as the credentials text gives it, if there is such a text.
pub open spec fn credentials_value(credentials: Option<String>, field: Seq<char>) -> Option<Seq<char>> {
    match credentials {
        Some(body) => credentials_lookup(body@, field, false),
        None => None,
    }
}

/// The user name in order of precedence: configuration, environment, credentials.
pub open spec fn username_source(raw: RawConfig, env_username: Option<String>, credentials: Option<String>) -> Option<Seq<char>> {
    first_present(
        opt_view(raw.username),
        opt_view(env_username),
        credentials_value(credentials, "username"@),
    )
}

/// The token in order of precedence: configuration, environment, credentials.
pub open spec fn token_source(raw: RawConfig, env_token: Option<String>, credentials: Option<String>) -> Option<Seq<char>> {
    first_present(
        opt_view(raw.token),
        opt_view(env_token),
        credentials_value(credentials, "token"@),
    )
}

fn first_of(
    a: Option<String>,
    b: Option<String>,
    credentials: &Option<String>,
    field: &str,
) -> (r: Option<String>)
    ensures
        opt_view(r) == first_present(opt_view(a), opt_view(b), credentials_value(*credentials, field@)),
{
    match a {
        Some(x) => Some(x),
        None => match b {
            Some(x) => Some(x),
            None => match credentials {
                Some(body) => read_credentials_field(body.as_str(), field),
                None => None,
            },
        },
    }
}

/// Builds the settings from the configuration file's contents `raw`, the
/// environment variables `MSTATUI_TOKEN` and `MSTATUI_USERNAME` (`None` when
/// unset) and the text of the scrobbler's credentials file (`None` when it
/// cannot be read).
///
/// Key bindings are checked first, then colours, each in entry order; the
/// first refused entry is the error. The token and the user name come from
/// the configuration, else the environment, else the credentials; without a
/// user name the result is `NoUsername`. The range defaults to a week and the
/// refresh interval to 0 (no automatic refresh).
pub fn load(
    raw: RawConfig,
    env_token: Option<String>,
    env_username: Option<String>,
    credentials: Option<String>,
) -> (r: Result<Config, ConfigError>)
    requires
        names_distinct(raw.keys@),
        names_distinct(raw.colors@),
        !(keys_ok(raw.keys@) && colors_panic(raw.colors@)),
    ensures
        !keys_ok(raw.keys@) ==> (r matches Err(e) && key_failure(e, raw.keys@)),
        keys_ok(raw.keys@) && !colors_ok(raw.colors@) ==> (r matches Err(e) && color_failure(
            e,
            raw.colors@,
        )),
        keys_ok(raw.keys@) && colors_ok(raw.colors@) && username_source(
            raw,
            env_username,
            credentials,
        ) is None ==> r matches Err(ConfigError::NoUsername),
        keys_ok(raw.keys@) && colors_ok(raw.colors@) && username_source(
            raw,
            env_username,
            credentials,
        ) is Some ==> r is Ok,
        r matches Ok(c) ==> {
            &&& Some(c.username@) == username_source(raw, env_username, credentials)
            &&& opt_view(c.token) == token_source(raw, env_token, credentials)
            &&& c.keys == keys_applied(raw.keys@)
            &&& c.colors == colors_applied(raw.colors@)
            &&& c.range == match raw.range {
                Some(x) => x,
                None => Range::Week,
            }
            &&& c.refresh_interval == match raw.refresh_interval {
                Some(n) => n,
                None => 0,
            }
        },
{
    let ghost raw0 = raw;
    let keys = match resolve_keys(&raw.keys) {
        Ok(k) => k,
        Err(e) => return Err(e),
    };
    let colors = match resolve_colors(&raw.colors) {
        Ok(p) => p,
        Err(e) => return Err(e),
    };
    let token = first_of(raw.token, env_token, &credentials, "token");
    let username = match first_of(raw.username, env_username, &credentials, "username") {
        Some(u) => u,
        None => return Err(ConfigError::NoUsername),
    };
    let range = match raw.range {
        Some(x) => x,
        None => Range::Week,
    };
    let refresh_interval = match raw.refresh_interval {
        Some(n) => n,
        None => 0,
    };
    Ok(Config { username, token, range, refresh_interval, keys, colors })
}

/// Whether `load` would reach a colour it cannot read on `raw` (its `requires`).
pub fn load_would_panic(raw: &RawConfig) -> (b: bool)
    requires
        names_distinct(raw.keys@),
    ensures
        b == (keys_ok(raw.keys@) && colors_panic(raw.colors@)),
{
    match resolve_keys(&raw.keys) {
        Ok(_) => colors_would_panic(&raw.colors),
        Err(_) => false,
    }
}


/// Every table of the configuration is optional: with no key bindings and no
/// colours, every entry check passes and the defaults stand.
pub proof fn empty_tables_give_defaults(keys: Seq<(String, String)>, colors: Seq<(String, String)>)
    requires
        keys.len() == 0,
        colors.len() == 0,
    ensures
        keys_ok(keys),
        colors_ok(colors),
        !colors_panic(colors),
        keys_applied(keys) == default_keys(),
        colors_applied(colors) == default_palette(),
{
}

/// Binding the same action twice to the same character is binding it once.
proof fn lemma_bind_same(km: KeyMap, name: Seq<char>, c: char)
    ensures
        bind_key(bind_key(km, name, c), name, c) == bind_key(km, name, c),
{
}

/// Bindings of two different actions do not interfere.
proof fn lemma_bind_commute(km: KeyMap, a: Seq<char>, ca: char, b: Seq<char>, cb: char)
    requires
        a != b,
    ensures
        bind_key(bind_key(km, a, ca), b, cb) == bind_key(bind_key(km, b, cb), a, ca),
{
}

/// Every entry of a binding table takes effect: in the resulting bindings,
/// the action named by entry `i` is bound to that entry's character.
pub proof fn binding_takes_effect(entries: Seq<(String, String)>, i: int)
    requires
        names_distinct(entries),
        keys_ok(entries),
        0 <= i < entries.len(),
    ensures
        bind_key(keys_applied(entries), entries[i].0@, entries[i].1@[0]) == keys_applied(entries),
    decreases entries.len(),
{
    let n = entries.len() - 1;
    let prev = entries.drop_last();
    let last = entries[n];
    assert(key_entry_ok(entries[n]));
    if i == n {
        lemma_bind_same(keys_applied(prev), last.0@, last.1@[0]);
    } else {
        assert(names_distinct(prev));
        assert forall|j: int| 0 <= j < prev.len() implies key_entry_ok(#[trigger] prev[j]) by {
            assert(prev[j] == entries[j]);
        }
        assert(prev[i] == entries[i]);
        binding_takes_effect(prev, i);
        assert(entries[i].0@ != last.0@);
        lemma_bind_commute(
            keys_applied(prev),
            last.0@,
            last.1@[0],
            entries[i].0@,
            entries[i].1@[0],
        );
    }
}

/// Every entry of a colour table takes effect: in the resulting palette,
/// the slot named by entry `i` holds that entry's colour.
pub proof fn color_takes_effect(entries: Seq<(String, String)>, i: int)
    requires
        names_distinct(entries),
        colors_ok(entries),
        0 <= i < entries.len(),
    ensures
        set_color(colors_applied(entries), entries[i].0@, hex_color(entries[i].1@)->0)
            == colors_applied(entries),
    decreases entries.len(),
{
    let n = entries.len() - 1;
    let prev = entries.drop_last();
    let last = entries[n];
    assert(color_entry_ok(entries[n]));
    if i < n {
        assert(names_distinct(prev));
        assert forall|j: int| 0 <= j < prev.len() implies color_entry_ok(#[trigger] prev[j]) by {
            assert(prev[j] == entries[j]);
        }
        assert(prev[i] == entries[i]);
        color_takes_effect(prev, i);
        assert(entries[i].0@ != last.0@);
    }
}

/// The character that `km` binds to action `name`.
pub open spec fn key_field(km: KeyMap, name: Seq<char>) -> char {
    if name == "quit"@ {
        km.quit
    } else if name == "next_tab"@ {
        km.next_tab
    } else if name == "prev_tab"@ {
        km.prev_tab
    } else if name == "down"@ {
        km.down
    } else if name == "up"@ {
        km.up
    } else if name == "top"@ {
        km.top
    } else if name == "bottom"@ {
        km.bottom
    } else if name == "refresh"@ {
        km.refresh
    } else {
        km.toggle_range
    }
}

/// The colour that `p` holds in slot `name`.
pub open spec fn color_field(p: Palette, name: Seq<char>) -> Rgb {
    if name == "accent"@ {
        p.accent
    } else if name == "accent_deep"@ {
        p.accent_deep
    } else if name == "muted"@ {
        p.muted
    } else if name == "positive"@ {
        p.positive
    } else if name == "warning"@ {
        p.warning
    } else if name == "error"@ {
        p.error
    } else if name == "fg"@ {
        p.fg
    } else {
        p.bg
    }
}

/// The value that the entries give the setting `name`, if one names it.
pub open spec fn named_value(entries: Seq<(String, String)>, name: Seq<char>) -> Option<Seq<char>> {
    if exists|i: int| 0 <= i < entries.len() && (#[trigger] entries[i]).0@ == name {
        let i = choose|i: int| 0 <= i < entries.len() && (#[trigger] entries[i]).0@ == name;
        Some(entries[i].1@)
    } else {
        None
    }
}

/// In a table with distinct names, the value of the setting named by entry
/// `i` is that entry's value.
proof fn lemma_named_value_at(entries: Seq<(String, String)>, i: int)
    requires
        names_distinct(entries),
        0 <= i < entries.len(),
    ensures
        named_value(entries, entries[i].0@) == Some(entries[i].1@),
{
    let name = entries[i].0@;
    assert(0 <= i < entries.len() && entries[i].0@ == name);
    let k = choose|k: int| 0 <= k < entries.len() && (#[trigger] entries[k]).0@ == name;
    if k < i {
        assert(entries[k].0@ != entries[i].0@);
    } else if i < k {
        assert(entries[i].0@ != entries[k].0@);
    }
}

/// Dropping the last entry of a table with distinct names leaves the value
/// of every other setting as it was.
proof fn lemma_named_value_drop_last(entries: Seq<(String, String)>, name: Seq<char>)
    requires
        names_distinct(entries),
        entries.len() > 0,
        entries.last().0@ != name,
    ensures
        named_value(entries, name) == named_value(entries.drop_last(), name),
{
    let prev = entries.drop_last();
    assert(names_distinct(prev)) by {
        assert forall|a: int, b: int| 0 <= a < b < prev.len() implies (#[trigger] prev[a]).0@
            != (#[trigger] prev[b]).0@ by {
            assert(prev[a] == entries[a] && prev[b] == entries[b]);
        }
    }
    if exists|i: int| 0 <= i < entries.len() && (#[trigger] entries[i]).0@ == name {
        let i = choose|i: int| 0 <= i < entries.len() && (#[trigger] entries[i]).0@ == name;
        assert(i < prev.len());
        assert(prev[i] == entries[i]);
        lemma_named_value_at(entries, i);
        lemma_named_value_at(prev, i);
    } else {
        assert forall|i: int| 0 <= i < prev.len() implies (#[trigger] prev[i]).0@ != name by {
            assert(prev[i] == entries[i]);
        }
    }
}

/// Binding action `n` changes the character of action `name` exactly when
/// they are the same action.
proof fn lemma_key_field_bind(km: KeyMap, n: Seq<char>, c: char, name: Seq<char>)
    requires
        is_key_action(name),
    ensures
        key_field(bind_key(km, n, c), name) == if n == name {
            c
        } else {
            key_field(km, name)
        },
{
}

/// Setting slot `n` changes the colour of slot `name` exactly when they are
/// the same slot.
proof fn lemma_color_field_set(p: Palette, n: Seq<char>, c: Rgb, name: Seq<char>)
    requires
        is_color_slot(name),
    ensures
        color_field(set_color(p, n, c), name) == if n == name {
            c
        } else {
            color_field(p, name)
        },
{
}

/// Each action is bound to the character of the entry that names it, and an
/// action that no entry names keeps its default binding.
pub proof fn bindings_come_from_entries(entries: Seq<(String, String)>, name: Seq<char>)
    requires
        names_distinct(entries),
        is_key_action(name),
    ensures
        key_field(keys_applied(entries), name) == match named_value(entries, name) {
            Some(v) => v[0],
            None => key_field(default_keys(), name),
        },
    decreases entries.len(),
{
    if entries.len() > 0 {
        let prev = entries.drop_last();
        let last = entries.last();
        lemma_key_field_bind(keys_applied(prev), last.0@, last.1@[0], name);
        if last.0@ == name {
            lemma_named_value_at(entries, entries.len() - 1);
        } else {
            lemma_named_value_drop_last(entries, name);
            bindings_come_from_entries(prev, name);
        }
    }
}

/// Each slot holds the colour of the entry that names it, and a slot that no
/// entry names keeps its default colour.
pub proof fn colors_come_from_entries(entries: Seq<(String, String)>, name: Seq<char>)
    requires
        names_distinct(entries),
        is_color_slot(name),
    ensures
        color_field(colors_applied(entries), name) == match named_value(entries, name) {
            Some(v) => hex_color(v)->0,
            None => color_field(default_palette(), name),
        },
    decreases entries.len(),
{
    if entries.len() > 0 {
        let prev = entries.drop_last();
        let last = entries.last();
        lemma_color_field_set(colors_applied(prev), last.0@, hex_color(last.1@)->0, name);
        if last.0@ == name {
            lemma_named_value_at(entries, entries.len() - 1);
        } else {
            lemma_named_value_drop_last(entries, name);
            colors_come_from_entries(prev, name);
        }
    }
}

/// Both tables hold the same entries, perhaps in another order: each entry
/// of one has an entry of the other with the same name and value.
pub open spec fn same_entries(a: Seq<(String, String)>, b: Seq<(String, String)>) -> bool {
    &&& forall|i: int|
        0 <= i < a.len() ==> exists|j: int|
            0 <= j < b.len() && (#[trigger] b[j]).0@ == (#[trigger] a[i]).0@ && b[j].1@ == a[i].1@
    &&& forall|j: int|
        0 <= j < b.len() ==> exists|i: int|
            0 <= i < a.len() && (#[trigger] a[i]).0@ == (#[trigger] b[j]).0@ && a[i].1@ == b[j].1@
}

/// Two tables with the same entries give every setting the same value.
proof fn lemma_named_value_same(a: Seq<(String, String)>, b: Seq<(String, String)>, name: Seq<char>)
    requires
        names_distinct(a),
        names_distinct(b),
        same_entries(a, b),
    ensures
        named_value(a, name) == named_value(b, name),
{
    if exists|i: int| 0 <= i < a.len() && (#[trigger] a[i]).0@ == name {
        let i = choose|i: int| 0 <= i < a.len() && (#[trigger] a[i]).0@ == name;
        let j = choose|j: int| 0 <= j < b.len() && (#[trigger] b[j]).0@ == a[i].0@ && b[j].1@ == a[i].1@;
        lemma_named_value_at(a, i);
        lemma_named_value_at(b, j);
    } else if exists|j: int| 0 <= j < b.len() && (#[trigger] b[j]).0@ == name {
        let j = choose|j: int| 0 <= j < b.len() && (#[trigger] b[j]).0@ == name;
        let i = choose|i: int| 0 <= i < a.len() && (#[trigger] a[i]).0@ == b[j].0@ && a[i].1@ == b[j].1@;
        assert(a[i].0@ == name);
    }
}

/// The key bindings do not depend on the order of the table's entries: the
/// same entries in any order are accepted alike and give the same bindings.
pub proof fn bindings_ignore_order(a: Seq<(String, String)>, b: Seq<(String, String)>)
    requires
        names_distinct(a),
        names_distinct(b),
        same_entries(a, b),
    ensures
        keys_ok(a) == keys_ok(b),
        keys_applied(a) == keys_applied(b),
{
    assert(keys_ok(a) ==> keys_ok(b)) by {
        if keys_ok(a) {
            assert forall|j: int| 0 <= j < b.len() implies key_entry_ok(#[trigger] b[j]) by {
                let i = choose|i: int| 0 <= i < a.len() && (#[trigger] a[i]).0@ == b[j].0@ && a[i].1@ == b[j].1@;
                assert(key_entry_ok(a[i]));
            }
        }
    }
    assert(keys_ok(b) ==> keys_ok(a)) by {
        if keys_ok(b) {
            assert forall|i: int| 0 <= i < a.len() implies key_entry_ok(#[trigger] a[i]) by {
                let j = choose|j: int| 0 <= j < b.len() && (#[trigger] b[j]).0@ == a[i].0@ && b[j].1@ == a[i].1@;
                assert(key_entry_ok(b[j]));
            }
        }
    }
    reveal_strlit("quit");
    reveal_strlit("next_tab");
    reveal_strlit("prev_tab");
    reveal_strlit("down");
    reveal_strlit("up");
    reveal_strlit("top");
    reveal_strlit("bottom");
    reveal_strlit("refresh");
    reveal_strlit("toggle_range");
    let names = seq!["quit"@, "next_tab"@, "prev_tab"@, "down"@, "up"@, "top"@, "bottom"@, "refresh"@, "toggle_range"@];
    assert forall|k: int| 0 <= k < names.len() implies key_field(keys_applied(a), #[trigger] names[k])
        == key_field(keys_applied(b), names[k]) by {
        lemma_named_value_same(a, b, names[k]);
        bindings_come_from_entries(a, names[k]);
        bindings_come_from_entries(b, names[k]);
    }
    let (ka, kb) = (keys_applied(a), keys_applied(b));
    assert(key_field(ka, names[0]) == key_field(kb, names[0]));
    assert(key_field(ka, names[1]) == key_field(kb, names[1]));
    assert(key_field(ka, names[2]) == key_field(kb, names[2]));
    assert(key_field(ka, names[3]) == key_field(kb, names[3]));
    assert(key_field(ka, names[4]) == key_field(kb, names[4]));
    assert(key_field(ka, names[5]) == key_field(kb, names[5]));
    assert(key_field(ka, names[6]) == key_field(kb, names[6]));
    assert(key_field(ka, names[7]) == key_field(kb, names[7]));
    assert(key_field(ka, names[8]) == key_field(kb, names[8]));
    assert("quit"@[0] != "down"@[0]);
    assert("next_tab"@[0] != "prev_tab"@[0]);
    assert("quit"@.len() == 4 && "next_tab"@.len() == 8 && "prev_tab"@.len() == 8);
    assert("down"@.len() == 4 && "up"@.len() == 2 && "top"@.len() == 3);
    assert("bottom"@.len() == 6 && "refresh"@.len() == 7 && "toggle_range"@.len() == 12);
    assert(ka.quit == kb.quit);
    assert(ka.next_tab == kb.next_tab);
    assert(ka.prev_tab == kb.prev_tab);
    assert(ka.down == kb.down);
    assert(ka.up == kb.up);
    assert(ka.top == kb.top);
    assert(ka.bottom == kb.bottom);
    assert(ka.refresh == kb.refresh);
    assert(ka.toggle_range == kb.toggle_range);
}

/// The colours do not depend on the order of the table's entries: the same
/// entries in any order are accepted alike and give the same palette.
pub proof fn colors_ignore_order(a: Seq<(String, String)>, b: Seq<(String, String)>)
    requires
        names_distinct(a),
        names_distinct(b),
        same_entries(a, b),
    ensures
        colors_ok(a) == colors_ok(b),
        colors_applied(a) == colors_applied(b),
{
    assert(colors_ok(a) ==> colors_ok(b)) by {
        if colors_ok(a) {
            assert forall|j: int| 0 <= j < b.len() implies color_entry_ok(#[trigger] b[j]) by {
                let i = choose|i: int| 0 <= i < a.len() && (#[trigger] a[i]).0@ == b[j].0@ && a[i].1@ == b[j].1@;
                assert(color_entry_ok(a[i]));
            }
        }
    }
    assert(colors_ok(b) ==> colors_ok(a)) by {
        if colors_ok(b) {
            assert forall|i: int| 0 <= i < a.len() implies color_entry_ok(#[trigger] a[i]) by {
                let j = choose|j: int| 0 <= j < b.len() && (#[trigger] b[j]).0@ == a[i].0@ && b[j].1@ == a[i].1@;
                assert(color_entry_ok(b[j]));
            }
        }
    }
    reveal_strlit("accent");
    reveal_strlit("accent_deep");
    reveal_strlit("muted");
    reveal_strlit("positive");
    reveal_strlit("warning");
    reveal_strlit("error");
    reveal_strlit("fg");
    reveal_strlit("bg");
    let names = seq!["accent"@, "accent_deep"@, "muted"@, "positive"@, "warning"@, "error"@, "fg"@, "bg"@];
    assert forall|k: int| 0 <= k < names.len() implies color_field(colors_applied(a), #[trigger] names[k])
        == color_field(colors_applied(b), names[k]) by {
        lemma_named_value_same(a, b, names[k]);
        colors_come_from_entries(a, names[k]);
        colors_come_from_entries(b, names[k]);
    }
    let (pa, pb) = (colors_applied(a), colors_applied(b));
    assert(color_field(pa, names[0]) == color_field(pb, names[0]));
    assert(color_field(pa, names[1]) == color_field(pb, names[1]));
    assert(color_field(pa, names[2]) == color_field(pb, names[2]));
    assert(color_field(pa, names[3]) == color_field(pb, names[3]));
    assert(color_field(pa, names[4]) == color_field(pb, names[4]));
    assert(color_field(pa, names[5]) == color_field(pb, names[5]));
    assert(color_field(pa, names[6]) == color_field(pb, names[6]));
    assert(color_field(pa, names[7]) == color_field(pb, names[7]));
    assert("muted"@[0] != "error"@[0]);
    assert("fg"@[0] != "bg"@[0]);
    assert("accent"@.len() == 6 && "accent_deep"@.len() == 11 && "muted"@.len() == 5);
    assert("positive"@.len() == 8 && "warning"@.len() == 7 && "error"@.len() == 5);
    assert("fg"@.len() == 2 && "bg"@.len() == 2);
    assert(pa.accent == pb.accent);
    assert(pa.accent_deep == pb.accent_deep);
    assert(pa.muted == pb.muted);
    assert(pa.positive == pb.positive);
    assert(pa.warning == pb.warning);
    assert(pa.error == pb.error);
    assert(pa.fg == pb.fg);
    assert(pa.bg == pb.bg);
}

} // verus!
