use vstd::prelude::*;

verus! {

/// The character of hexadecimal digit `d` (`d < 16`), upper or lower case.
pub open spec fn hex_digit(d: nat, upper: bool) -> char {
    if d < 10 {
        ((d + 48) as u8) as char
    } else if upper {
        ((d - 10 + 65) as u8) as char
    } else {
        ((d - 10 + 97) as u8) as char
    }
}

/// Hexadecimal notation of `n` without leading zeros (`"0"` for zero).
pub open spec fn hex_repr(n: nat, upper: bool) -> Seq<char>
    decreases n,
{
    if n < 16 {
        seq![hex_digit(n, upper)]
    } else {
        hex_repr(n / 16, upper).push(hex_digit(n % 16, upper))
    }
}

/// Decimal notation of `n` without leading zeros (`"0"` for zero).
pub open spec fn dec_repr(n: nat) -> Seq<char>
    decreases n,
{
    if n < 10 {
        seq![hex_digit(n, false)]
    } else {
        dec_repr(n / 10).push(hex_digit(n % 10, false))
    }
}

/// `c` repeated `n` times.
pub open spec fn repeat(c: char, n: nat) -> Seq<char> {
    Seq::new(n, |i: int| c)
}

/// `s` preceded by enough `'0'` to be at least `width` long.
pub open spec fn zero_pad(s: Seq<char>, width: nat) -> Seq<char> {
    if s.len() < width {
        repeat('0', (width - s.len()) as nat) + s
    } else {
        s
    }
}

/// `s` followed by enough spaces to be at least `width` long.
pub open spec fn pad_right(s: Seq<char>, width: nat) -> Seq<char> {
    if s.len() < width {
        s + repeat(' ', (width - s.len()) as nat)
    } else {
        s
    }
}

/// Hexadecimal notation of `n`, zero padded to `width` digits.
pub open spec fn hex_padded(n: nat, width: nat, upper: bool) -> Seq<char> {
    zero_pad(hex_repr(n, upper), width)
}

/// Byte in two lower case hexadecimal digits, as `{:02x}` writes it.
pub open spec fn hex2(b: u8) -> Seq<char> {
    hex_padded(b as nat, 2, false)
}

/// Address in at least four upper case hexadecimal digits, as `{:04X}` writes it.
pub open spec fn hex4(n: nat) -> Seq<char> {
    hex_padded(n, 4, true)
}

/// Appends `c` to `s` (std's `String::push`).
#[verifier::external_body]
pub(crate) fn push_char(s: &mut String, c: char)
    ensures
        final(s)@ == old(s)@.push(c),
{
    s.push(c);
}

/// Appends the characters of `t` to `s`.
pub fn push_str(s: &mut String, t: &str)
    ensures
        final(s)@ == old(s)@ + t@,
{
    s.append(t);
}

/// Appends the characters of `t` to `s`.
pub fn push_chars(s: &mut String, t: &Vec<char>)
    ensures
        final(s)@ == old(s)@ + t@,
{
    let ghost start = s@;
    let mut i: usize = 0;
    while i < t.len()
        invariant
            i <= t@.len(),
            s@ == start + t@.subrange(0, i as int),
        decreases t@.len() - i,
    {
        push_char(s, t[i]);
        i = i + 1;
        assert(s@ =~= start + t@.subrange(0, i as int));
    }
    assert(t@.subrange(0, t@.len() as int) =~= t@);
}

/// The string holding the characters of `t`.
pub fn string_of(t: &Vec<char>) -> (s: String)
    ensures
        s@ == t@,
{
    let mut s = String::new();
    push_chars(&mut s, t);
    assert(s@ =~= t@);
    s
}

/// Character of the hexadecimal digit `d`.
pub fn digit_char(d: u8, upper: bool) -> (c: char)
    requires
        d < 16,
    ensures
        c == hex_digit(d as nat, upper),
{
    if d < 10 {
        (d + 48) as char
    } else if upper {
        (d - 10 + 65) as char
    } else {
        (d - 10 + 97) as char
    }
}

/// Hexadecimal digits of `n`.
pub fn hex_chars(n: usize, upper: bool) -> (v: Vec<char>)
    ensures
        v@ == hex_repr(n as nat, upper),
    decreases n,
{
    if n < 16 {
        let mut v = Vec::new();
        v.push(digit_char(n as u8, upper));
        assert(v@ =~= hex_repr(n as nat, upper));
        v
    } else {
        let mut v = hex_chars(n / 16, upper);
        v.push(digit_char((n % 16) as u8, upper));
        v
    }
}

/// Decimal digits of `n`.
pub fn dec_chars(n: u128) -> (v: Vec<char>)
    ensures
        v@ == dec_repr(n as nat),
    decreases n,
{
    if n < 10 {
        let mut v = Vec::new();
        v.push(digit_char(n as u8, false));
        assert(v@ =~= dec_repr(n as nat));
        v
    } else {
        let mut v = dec_chars(n / 10);
        v.push(digit_char((n % 10) as u8, false));
        v
    }
}

/// Appends `c` to `s` `n` times.
pub fn push_repeat(s: &mut String, c: char, n: usize)
    ensures
        final(s)@ == old(s)@ + repeat(c, n as nat),
{
    let ghost start = s@;
    let mut i: usize = 0;
    while i < n
        invariant
            i <= n,
            s@ == start + repeat(c, i as nat),
        decreases n - i,
    {
        push_char(s, c);
        i = i + 1;
        assert(s@ =~= start + repeat(c, i as nat));
    }
}

/// Appends `n` in hexadecimal, zero padded to `width` digits.
pub fn push_hex(s: &mut String, n: usize, width: usize, upper: bool)
    ensures
        final(s)@ == old(s)@ + hex_padded(n as nat, width as nat, upper),
{
    let digits = hex_chars(n, upper);
    let ghost start = s@;
    if digits.len() < width {
        push_repeat(s, '0', width - digits.len());
    }
    push_chars(s, &digits);
    assert(s@ =~= start + hex_padded(n as nat, width as nat, upper));
}

/// Appends `n` in decimal.
pub fn push_dec(s: &mut String, n: u128)
    ensures
        final(s)@ == old(s)@ + dec_repr(n as nat),
{
    let digits = dec_chars(n);
    push_chars(s, &digits);
}

/// Appends the two hexadecimal digits of `b`, lower case.
pub fn push_hex2(s: &mut String, b: u8)
    ensures
        final(s)@ == old(s)@ + hex2(b),
{
    push_hex(s, b as usize, 2, false);
}

/// Appends `n` in at least four upper case hexadecimal digits.
pub fn push_hex4(s: &mut String, n: usize)
    ensures
        final(s)@ == old(s)@ + hex4(n as nat),
{
    push_hex(s, n, 4, true);
}

/// Appends `t`, then spaces up to `width` characters in all for `t`.
pub fn push_padded(s: &mut String, t: &String, width: usize)
    ensures
        final(s)@ == old(s)@ + pad_right(t@, width as nat),
{
    let ghost start = s@;
    let chars = t.as_str();
    push_str(s, chars);
    let n = chars.unicode_len();
    if n < width {
        push_repeat(s, ' ', width - n);
    }
    assert(s@ =~= start + pad_right(t@, width as nat));
}

/// Whether `c` is white space in Unicode's sense (`char::is_whitespace`).
pub open spec fn is_space(c: char) -> bool {
    ||| c == ' ' || c == '\t' || c == '\n' || c == '\r'
    ||| c == '\u{0B}' || c == '\u{0C}' || c == '\u{85}' || c == '\u{A0}'
    ||| c == '\u{1680}' || ('\u{2000}' <= c && c <= '\u{200A}')
    ||| c == '\u{2028}' || c == '\u{2029}' || c == '\u{202F}' || c == '\u{205F}'
    ||| c == '\u{3000}'
}

/// Whether `c` is white space (`char::is_whitespace`).
pub fn is_space_char(c: char) -> (b: bool)
    ensures
        b == is_space(c),
{
    c == ' ' || c == '\t' || c == '\n' || c == '\r' || c == '\u{0B}' || c == '\u{0C}'
        || c == '\u{85}' || c == '\u{A0}' || c == '\u{1680}' || ('\u{2000}' <= c && c
        <= '\u{200A}') || c == '\u{2028}' || c == '\u{2029}' || c == '\u{202F}' || c
        == '\u{205F}' || c == '\u{3000}'
}

/// Value of the hexadecimal digit `c`, either case.
pub open spec fn hex_value(c: char) -> Option<nat> {
    if '0' <= c && c <= '9' {
        Some((c as nat - 48) as nat)
    } else if 'a' <= c && c <= 'f' {
        Some((c as nat - 87) as nat)
    } else if 'A' <= c && c <= 'F' {
        Some((c as nat - 55) as nat)
    } else {
        None
    }
}

/// Value of the hexadecimal digit `c`, either case.
pub fn hex_digit_value(c: char) -> (r: Option<u8>)
    ensures
        match hex_value(c) {
            Some(v) => r == Some(v as u8),
            None => r is None,
        },
{
    if '0' <= c && c <= '9' {
        Some((c as u32 - 48) as u8)
    } else if 'a' <= c && c <= 'f' {
        Some((c as u32 - 87) as u8)
    } else if 'A' <= c && c <= 'F' {
        Some((c as u32 - 55) as u8)
    } else {
        None
    }
}

/// The characters of `s`.
pub fn chars_of(s: &str) -> (v: Vec<char>)
    ensures
        v@ == s@,
{
    let n = s.unicode_len();
    let mut v: Vec<char> = Vec::new();
    let mut i: usize = 0;
    while i < n
        invariant
            n == s@.len(),
            i <= n,
            v@ == s@.subrange(0, i as int),
        decreases n - i,
    {
        v.push(s.get_char(i));
        i = i + 1;
        assert(v@ =~= s@.subrange(0, i as int));
    }
    assert(v@ =~= s@);
    v
}

/// Bytes as two lower case hexadecimal digits each, separated by spaces.
pub open spec fn joined_hex(b: Seq<u8>) -> Seq<char>
    decreases b.len(),
{
    if b.len() == 0 {
        seq![]
    } else if b.len() == 1 {
        hex2(b[0])
    } else {
        joined_hex(b.drop_last()) + " "@ + hex2(b.last())
    }
}

/// The first eight bytes (or fewer) of `b`, as `joined_hex` shows them.
pub open spec fn byte_preview(b: Seq<u8>) -> Seq<char> {
    joined_hex(b.take(if b.len() < 8 {
        b.len() as int
    } else {
        8
    }))
}

/// Appends the first eight bytes (or fewer) of `b` in hexadecimal.
pub fn push_byte_preview(s: &mut String, b: &Vec<u8>)
    ensures
        final(s)@ == old(s)@ + byte_preview(b@),
{
    let ghost start = s@;
    let n: usize = if b.len() < 8 {
        b.len()
    } else {
        8
    };
    let mut i: usize = 0;
    while i < n
        invariant
            i <= n <= b@.len(),
            n == (if b@.len() < 8 {
                b@.len() as int
            } else {
                8
            }),
            s@ == start + joined_hex(b@.take(i as int)),
        decreases n - i,
    {
        if i > 0 {
            push_str(s, " ");
        }
        push_hex2(s, b[i]);
        proof {
            let t = b@.take(i + 1);
            assert(t.drop_last() =~= b@.take(i as int));
            assert(t.last() == b@[i as int]);
            if i == 0 {
                assert(b@.take(0) =~= Seq::<u8>::empty());
            }
        }
        i = i + 1;
        assert(s@ =~= start + joined_hex(b@.take(i as int)));
    }
}

/// A character as it shows in Rust's debug notation between the quotes
/// `quote`: the usual backslash escapes (the quote itself escaped), other
/// ASCII control characters as `\u{..}` with their code in lower case
/// hexadecimal, anything else unchanged (where Rust would escape a
/// character outside ASCII, it is kept here as it is).
pub open spec fn escaped_char(c: char, quote: char) -> Seq<char> {
    if c == '\0' {
        seq!['\\', '0']
    } else if c == '\t' {
        seq!['\\', 't']
    } else if c == '\r' {
        seq!['\\', 'r']
    } else if c == '\n' {
        seq!['\\', 'n']
    } else if c == '\\' || c == quote {
        seq!['\\', c]
    } else if (c as u32) < 0x20 || c as u32 == 0x7f {
        seq!['\\', 'u', '{'] + hex_repr(c as nat, false) + seq!['}']
    } else {
        seq![c]
    }
}

/// An ASCII character in Rust's debug notation (`{:?}`): between single
/// quotes, escaped.
pub open spec fn char_debug(c: char) -> Seq<char> {
    seq!['\''] + escaped_char(c, '\'') + seq!['\'']
}

/// Appends `c`, escaped as between the quotes `quote`.
pub fn push_escaped(s: &mut String, c: char, quote: char)
    ensures
        final(s)@ == old(s)@ + escaped_char(c, quote),
{
    let ghost start = s@;
    if c == '\0' {
        push_char(s, '\\');
        push_char(s, '0');
    } else if c == '\t' {
        push_char(s, '\\');
        push_char(s, 't');
    } else if c == '\r' {
        push_char(s, '\\');
        push_char(s, 'r');
    } else if c == '\n' {
        push_char(s, '\\');
        push_char(s, 'n');
    } else if c == '\\' || c == quote {
        push_char(s, '\\');
        push_char(s, c);
    } else if (c as u32) < 0x20 || c as u32 == 0x7f {
        push_char(s, '\\');
        push_char(s, 'u');
        push_char(s, '{');
        push_hex(s, c as u32 as usize, 0, false);
        push_char(s, '}');
        assert(hex_repr(c as nat, false).len() >= 1);
    } else {
        push_char(s, c);
    }
    assert(s@ =~= start + escaped_char(c, quote));
}

/// `s` without the white space at its two ends (`str::trim`).
pub open spec fn trimmed(s: Seq<char>) -> Seq<char>
    decreases s.len(),
{
    if s.len() > 0 && is_space(s[0]) {
        trimmed(s.drop_first())
    } else if s.len() > 0 && is_space(s.last()) {
        trimmed(s.drop_last())
    } else {
        s
    }
}

/// Bounds of `c[a..b]` without its white space at both ends.
pub fn trimmed_bounds(c: &Vec<char>, a: usize, b: usize) -> (r: (usize, usize))
    requires
        a <= b <= c@.len(),
    ensures
        a <= r.0 <= r.1 <= b,
        c@.subrange(r.0 as int, r.1 as int) == trimmed(c@.subrange(a as int, b as int)),
{
    let mut x = a;
    let mut y = b;
    while x < y && is_space_char(c[x])
        invariant
            a <= x <= y <= b <= c@.len(),
            trimmed(c@.subrange(x as int, y as int)) == trimmed(c@.subrange(a as int, b as int)),
        decreases y - x,
    {
        assert(c@.subrange(x as int, y as int).drop_first() =~= c@.subrange(x + 1, y as int));
        x = x + 1;
    }
    while x < y && is_space_char(c[y - 1])
        invariant
            a <= x <= y <= b <= c@.len(),
            x < y ==> !is_space(c@[x as int]),
            trimmed(c@.subrange(x as int, y as int)) == trimmed(c@.subrange(a as int, b as int)),
        decreases y - x,
    {
        assert(c@.subrange(x as int, y as int).drop_last() =~= c@.subrange(x as int, y - 1));
        y = y - 1;
    }
    proof {
        let t = c@.subrange(x as int, y as int);
        if t.len() > 0 {
            assert(!is_space(t[0]));
            assert(!is_space(t.last()));
        }
    }
    (x, y)
}

/// The string of `c[a..b]`.
pub fn string_between(c: &Vec<char>, a: usize, b: usize) -> (s: String)
    requires
        a <= b <= c@.len(),
    ensures
        s@ == c@.subrange(a as int, b as int),
{
    let mut s = String::new();
    let mut i = a;
    while i < b
        invariant
            a <= i <= b <= c@.len(),
            s@ == c@.subrange(a as int, i as int),
        decreases b - i,
    {
        push_char(&mut s, c[i]);
        i = i + 1;
        assert(s@ =~= c@.subrange(a as int, i as int));
    }
    s
}

/// `s` without the white space at its two ends.
pub fn trim_string(s: &str) -> (t: String)
    ensures
        t@ == trimmed(s@),
{
    let c = chars_of(s);
    let (a, b) = trimmed_bounds(&c, 0, c.len());
    assert(c@.subrange(0, c@.len() as int) =~= c@);
    string_between(&c, a, b)
}

} // verus!
