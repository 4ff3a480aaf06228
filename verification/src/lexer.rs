//! The lexical pieces of the script language: numbers, addresses, byte
//! lists, string literals and descriptions.
use crate::error::{AppError, AppResult};
use crate::text::{char_debug, dec_repr, hex_digit_value, hex_value, push_char, push_str, string_of};
use crate::grammar::{blank_end, hex_run, keyword_at, name_run};
use vstd::prelude::*;

verus! {

/// The bytes written as hexadecimal digit pairs in `s`.
pub open spec fn hex_pairs(s: Seq<char>) -> Seq<u8> {
    Seq::new(
        s.len() / 2,
        |i: int| (hex_value(s[2 * i])->Some_0 * 16 + hex_value(s[2 * i + 1])->Some_0) as u8,
    )
}

/// Whether every character of `s` is a hexadecimal digit.
pub open spec fn all_hex(s: Seq<char>) -> bool {
    forall|i: int| 0 <= i < s.len() ==> #[trigger] hex_value(s[i]) is Some
}

/// Whether every character of `s` is ASCII.
pub open spec fn ascii_chars(s: Seq<char>) -> bool {
    forall|i: int| 0 <= i < s.len() ==> (#[trigger] s[i] as u32) < 128
}

/// Position of the first character of `s` that is not a hexadecimal digit
/// (the length of `s` when there is none).
pub open spec fn first_non_hex(s: Seq<char>) -> nat
    decreases s.len(),
{
    if s.len() == 0 || hex_value(s[0]) is None {
        0
    } else {
        1 + first_non_hex(s.drop_first())
    }
}

/// The message of the error of `hex::decode` for ASCII text that is no
/// even run of hexadecimal digits: the length is checked first, then the
/// first character that is no digit is named with its position.
pub open spec fn hex_failure_text(s: Seq<char>) -> Seq<char> {
    if s.len() % 2 == 1 {
        "Odd number of digits"@
    } else {
        "Invalid character "@ + char_debug(s[first_non_hex(s) as int]) + " at position "@ + dec_repr(
            first_non_hex(s),
        )
    }
}

/// `hex::decode`: the bytes of a string of hexadecimal digit pairs. It
/// succeeds exactly when the string has an even number of characters, all
/// hexadecimal digits (either case), and then gives the value of each pair.
/// An error comes with the message of the crate's `FromHexError`, which for
/// ASCII text is `hex_failure_text`; the crate counts bytes, not
/// characters, so nothing is claimed of the message for other text.
#[verifier::external_body]
fn hex_decode(data: &str) -> (r: Result<Vec<u8>, String>)
    ensures
        r is Ok <==> (data@.len() % 2 == 0 && all_hex(data@)),
        r matches Ok(v) ==> v@ == hex_pairs(data@),
        ascii_chars(data@) ==> (r matches Err(m) ==> m@ == hex_failure_text(data@)),
{
    ::hex::decode(data).map_err(|e| e.to_string())
}

/// Whether `c` is skipped between the words of a command.
pub open spec fn is_blank(c: char) -> bool {
    c == ' ' || c == '\t' || c == '\r' || c == '\n'
}

/// Whether `c` may continue a name.
pub open spec fn is_name_char(c: char) -> bool {
    ('a' <= c && c <= 'z') || ('A' <= c && c <= 'Z') || ('0' <= c && c <= '9') || c == '_'
}

/// Big-endian value of a byte sequence.
pub open spec fn be_value(b: Seq<u8>) -> nat
    decreases b.len(),
{
    if b.len() == 0 {
        0
    } else {
        be_value(b.drop_last()) * 256 + b.last() as nat
    }
}

/// `s` with a `0` in front when it has an odd number of characters.
pub open spec fn even_digits(s: Seq<char>) -> Seq<char> {
    if s.len() % 2 == 1 {
        seq!['0'] + s
    } else {
        s
    }
}

/// Value of a run of hexadecimal digits.
pub open spec fn hex_run_value(s: Seq<char>) -> nat
    decreases s.len(),
{
    if s.len() == 0 {
        0
    } else {
        hex_run_value(s.drop_last()) * 16 + hex_value(s.last())->Some_0
    }
}

/// Value of a run of decimal digits.
pub open spec fn dec_run_value(s: Seq<char>) -> nat
    decreases s.len(),
{
    if s.len() == 0 {
        0
    } else {
        dec_run_value(s.drop_last()) * 10 + (s.last() as nat - 48) as nat
    }
}

/// Value of a run of binary digits.
pub open spec fn bin_run_value(s: Seq<char>) -> nat
    decreases s.len(),
{
    if s.len() == 0 {
        0
    } else {
        bin_run_value(s.drop_last()) * 2 + (s.last() as nat - 48) as nat
    }
}

/// The byte of a character in a string literal: its code, truncated.
pub open spec fn char_byte(c: char) -> u8 {
    (c as u32 % 256) as u8
}

/// Value of a two character hexadecimal escape, read as
/// `u8::from_str_radix` does (a leading `+` is allowed).
pub open spec fn escape_value(a: char, b: char) -> Option<u8> {
    if a == '+' {
        match hex_value(b) {
            Some(v) => Some(v as u8),
            None => None,
        }
    } else {
        match (hex_value(a), hex_value(b)) {
            (Some(x), Some(y)) => Some((x * 16 + y) as u8),
            _ => None,
        }
    }
}

/// The bytes of the inside of a string literal: `\n`, `\r`, `\t`, `\0`,
/// `\"`, `\\`, `\xHH`, a backslash before an end of line (which is
/// dropped with it); `None` for any other escape.
pub open spec fn unescape(s: Seq<char>) -> Option<Seq<u8>>
    decreases s.len(),
{
    if s.len() == 0 {
        Some(seq![])
    } else if s[0] != '\\' {
        match unescape(s.skip(1)) {
            Some(rest) => Some(seq![char_byte(s[0])] + rest),
            None => None,
        }
    } else if s.len() < 2 {
        None
    } else {
        let c = s[1];
        let single: Option<u8> = if c == 'n' {
            Some(10u8)
        } else if c == 'r' {
            Some(13u8)
        } else if c == 't' {
            Some(9u8)
        } else if c == '0' {
            Some(0u8)
        } else if c == '"' {
            Some(34u8)
        } else if c == '\\' {
            Some(92u8)
        } else {
            None
        };
        if single is Some {
            match unescape(s.skip(2)) {
                Some(rest) => Some(seq![single->Some_0] + rest),
                None => None,
            }
        } else if c == 'x' {
            if s.len() < 4 {
                None
            } else {
                match (escape_value(s[2], s[3]), unescape(s.skip(4))) {
                    (Some(v), Some(rest)) => Some(seq![v] + rest),
                    _ => None,
                }
            }
        } else if c == '\n' {
            unescape(s.skip(2))
        } else if c == '\r' {
            if s.len() > 2 && s[2] == '\n' {
                unescape(s.skip(3))
            } else {
                unescape(s.skip(2))
            }
        } else {
            None
        }
    }
}

/// The digits of `s` as hexadecimal pairs (a `0` in front when odd), with
/// an error for an empty string.
pub fn prepare_hex_str(hex_str: &str) -> (s: String)
    ensures
        s@ == if hex_str@.len() == 0 {
            Seq::<char>::empty()
        } else {
            even_digits(hex_str@)
        },
{
    let n = hex_str.unicode_len();
    let mut s = String::new();
    if n == 0 {
        return s;
    }
    if n % 2 == 1 {
        push_char(&mut s, '0');
    }
    push_str(&mut s, hex_str);
    assert(s@ =~= even_digits(hex_str@));
    s
}

/// The bytes written in hexadecimal in `hex_str` (a `0` is put in front of
/// an odd number of digits); an error for an empty string or a character
/// that is not a hexadecimal digit.
pub fn parse_hex_to_bytes(hex_str: &str) -> (r: AppResult<Vec<u8>>)
    ensures
        r is Ok <==> (hex_str@.len() > 0 && all_hex(hex_str@)),
        r matches Ok(v) ==> v@ == hex_pairs(even_digits(hex_str@)),
        hex_str@.len() == 0 ==> (r matches Err(e) && e.message@ == "Empty string is not a valid Hexadecimal."@),
        hex_str@.len() > 0 && ascii_chars(hex_str@) ==> (r matches Err(e) ==> e.message@ == "Failed to parse hex value '"@
            + even_digits(hex_str@) + "': "@ + hex_failure_text(even_digits(hex_str@))),
{
    if hex_str.unicode_len() == 0 {
        let mut s = String::new();
        push_str(&mut s, "Empty string is not a valid Hexadecimal.");
        return Err(AppError::new(s));
    }
    let prepared = prepare_hex_str(hex_str);
    proof {
        if hex_str@.len() % 2 == 1 {
            assert(all_hex(prepared@) <==> all_hex(hex_str@)) by {
                if all_hex(hex_str@) {
                    assert forall|i: int| 0 <= i < prepared@.len() implies #[trigger] hex_value(prepared@[i]) is Some by {
                        if i > 0 {
                            assert(prepared@[i] == hex_str@[i - 1]);
                        }
                    }
                }
                if all_hex(prepared@) {
                    assert forall|i: int| 0 <= i < hex_str@.len() implies #[trigger] hex_value(hex_str@[i]) is Some by {
                        assert(prepared@[i + 1] == hex_str@[i]);
                    }
                }
            }
        }
    }
    match hex_decode(prepared.as_str()) {
        Ok(v) => Ok(v),
        Err(t) => {
            let mut s = String::new();
            push_str(&mut s, "Failed to parse hex value '");
            push_str(&mut s, prepared.as_str());
            push_str(&mut s, "': ");
            push_str(&mut s, t.as_str());
            Err(AppError::new(s))
        },
    }
}

proof fn lemma_hex_pairs_value(s: Seq<char>)
    requires
        s.len() % 2 == 0,
        all_hex(s),
    ensures
        be_value(hex_pairs(s)) == hex_run_value(s),
    decreases s.len(),
{
    if s.len() > 0 {
        let t = s.subrange(0, s.len() - 2);
        assert(all_hex(t)) by {
            assert forall|i: int| 0 <= i < t.len() implies #[trigger] hex_value(t[i]) is Some by {
                assert(t[i] == s[i]);
            }
        }
        lemma_hex_pairs_value(t);
        assert(hex_pairs(s).drop_last() =~= hex_pairs(t));
        assert(s.drop_last().drop_last() =~= t);
        let a = hex_value(s[s.len() - 2])->Some_0;
        let b = hex_value(s[s.len() - 1])->Some_0;
        assert(hex_value(s[s.len() - 2]) is Some);
        assert(hex_value(s[s.len() - 1]) is Some);
        assert(hex_pairs(s).last() == (a * 16 + b) as u8);
        assert(a < 16 && b < 16);
        assert(s.drop_last().last() == s[s.len() - 2]);
        assert(hex_run_value(s.drop_last()) == hex_run_value(t) * 16 + a);
        assert(hex_run_value(s) == (hex_run_value(t) * 16 + a) * 16 + b);
        assert(be_value(hex_pairs(s)) == hex_run_value(t) * 256 + (a * 16 + b)) by (nonlinear_arith)
            requires
                be_value(hex_pairs(s)) == be_value(hex_pairs(t)) * 256 + ((a * 16 + b) as u8) as nat,
                be_value(hex_pairs(t)) == hex_run_value(t),
                a < 16,
                b < 16,
        ;
        assert(hex_run_value(t) * 256 + (a * 16 + b) == (hex_run_value(t) * 16 + a) * 16 + b) by (nonlinear_arith);
    }
}

proof fn lemma_leading_zero(s: Seq<char>)
    requires
        all_hex(s),
    ensures
        hex_run_value(seq!['0'] + s) == hex_run_value(s),
    decreases s.len(),
{
    if s.len() > 0 {
        lemma_leading_zero(s.drop_last());
        assert((seq!['0'] + s).drop_last() =~= seq!['0'] + s.drop_last());
        assert((seq!['0'] + s).last() == s.last());
        assert(all_hex(s.drop_last())) by {
            assert forall|i: int| 0 <= i < s.drop_last().len() implies #[trigger] hex_value(s.drop_last()[i]) is Some by {
                assert(s.drop_last()[i] == s[i]);
            }
        }
    } else {
        assert(seq!['0'] + s =~= seq!['0']);
        assert(seq!['0'].drop_last() =~= Seq::<char>::empty());
        assert(hex_value('0') == Some(0nat));
        assert(hex_run_value(Seq::<char>::empty()) == 0);
    }
}

/// A run of at most four hexadecimal digits is below `0x10000`.
pub proof fn lemma_short_hex_run_bound(s: Seq<char>)
    requires
        all_hex(s),
        s.len() <= 4,
    ensures
        hex_run_value(s) < 0x10000,
{
    lemma_hex_run_below_power(s);
    assert(pow16_len(s.len()) <= 0x10000) by {
        assert(pow16_len(0) == 1);
        assert(pow16_len(1) == 16);
        assert(pow16_len(2) == 256);
        assert(pow16_len(3) == 4096);
        assert(pow16_len(4) == 65536);
    }
}

proof fn lemma_hex_run_below_power(s: Seq<char>)
    requires
        all_hex(s),
    ensures
        hex_run_value(s) < pow16_len(s.len()),
    decreases s.len(),
{
    if s.len() > 0 {
        assert(all_hex(s.drop_last())) by {
            assert forall|i: int| 0 <= i < s.drop_last().len() implies #[trigger] hex_value(s.drop_last()[i]) is Some by {
                assert(s.drop_last()[i] == s[i]);
            }
        }
        lemma_hex_run_below_power(s.drop_last());
        assert(hex_value(s.last()) is Some);
        let d = hex_value(s.last())->Some_0;
        assert(hex_run_value(s.drop_last()) * 16 + d < pow16_len(s.len())) by (nonlinear_arith)
            requires
                hex_run_value(s.drop_last()) < pow16_len((s.len() - 1) as nat),
                d < 16,
                pow16_len(s.len()) == pow16_len((s.len() - 1) as nat) * 16,
        ;
    }
}

/// `16` to the power `n`.
pub open spec fn pow16_len(n: nat) -> nat
    decreases n,
{
    if n == 0 {
        1
    } else {
        16 * pow16_len((n - 1) as nat)
    }
}

/// A prefix of a big-endian number is worth no more than the whole.
proof fn lemma_be_prefix(b: Seq<u8>, k: int)
    requires
        0 <= k <= b.len(),
    ensures
        be_value(b.subrange(0, k)) <= be_value(b),
    decreases b.len(),
{
    if k < b.len() {
        lemma_be_prefix(b.drop_last(), k);
        assert(b.drop_last().subrange(0, k) =~= b.subrange(0, k));
    } else {
        assert(b.subrange(0, k) =~= b);
    }
}

/// The number written in hexadecimal in `hex_str`: the value of its bytes
/// (see `parse_hex_to_bytes`), most significant first, shifted in from the
/// right; an error when empty or not hexadecimal.
pub fn parse_hex(hex_str: &str) -> (r: AppResult<usize>)
    ensures
        r is Ok <==> (hex_str@.len() > 0 && all_hex(hex_str@)),
        r matches Ok(v) ==> be_value(hex_pairs(even_digits(hex_str@))) <= usize::MAX ==> v == be_value(
            hex_pairs(even_digits(hex_str@)),
        ),
        r matches Ok(v) ==> hex_str@.len() <= 4 ==> v == hex_run_value(hex_str@),
{
    let bytes = parse_hex_to_bytes(hex_str)?;
    let ghost digits = even_digits(hex_str@);
    let ghost fits = be_value(bytes@) <= usize::MAX;
    let mut value: usize = 0;
    let mut i: usize = 0;
    proof {
        if hex_str@.len() <= 4 {
            if hex_str@.len() % 2 == 1 {
                lemma_leading_zero(hex_str@);
                assert(all_hex(digits)) by {
                    assert forall|k: int| 0 <= k < digits.len() implies #[trigger] hex_value(digits[k]) is Some by {
                        if k > 0 {
                            assert(digits[k] == hex_str@[k - 1]);
                        }
                    }
                }
            }
            lemma_hex_pairs_value(digits);
            assert(be_value(bytes@) < 65536) by {
                assert(bytes@.len() <= 2);
                let b = bytes@;
                if b.len() == 1 {
                    assert(b.drop_last() =~= Seq::<u8>::empty());
                    assert(be_value(b.drop_last()) == 0);
                } else if b.len() == 2 {
                    let c = b.drop_last();
                    assert(c.drop_last() =~= Seq::<u8>::empty());
                    assert(be_value(c.drop_last()) == 0);
                    assert(be_value(c) == c.last() as nat);
                    assert(be_value(c) < 256);
                }
            }
        }
        assert(bytes@.subrange(0, 0) =~= Seq::<u8>::empty());
    }
    while i < bytes.len()
        invariant
            i <= bytes@.len(),
            fits == (be_value(bytes@) <= usize::MAX),
            fits ==> value == be_value(bytes@.subrange(0, i as int)),
        decreases bytes@.len() - i,
    {
        assert(bytes@.subrange(0, i + 1).drop_last() =~= bytes@.subrange(0, i as int));
        let b = bytes[i];
        proof {
            if fits {
                lemma_be_prefix(bytes@, i + 1);
                let bb = b as usize;
                assert(value * 256 + bb <= usize::MAX);
                vstd::arithmetic::power2::lemma2_to64();
                vstd::bits::lemma_usize_shl_is_mul(value, 8);
                assert((value << 8) as int == value * 256 && bb < 256 ==> ((value << 8) | bb) == value * 256 + bb)
                    by (bit_vector);
            }
        }
        value = (value << 8) | (b as usize);
        i = i + 1;
    }
    proof {
        assert(bytes@.subrange(0, bytes@.len() as int) =~= bytes@);
    }
    Ok(value)
}

/// First position at or after `pos` that is not blank.
pub fn skip_blank(c: &Vec<char>, pos: usize) -> (e: usize)
    requires
        pos <= c@.len(),
    ensures
        pos <= e <= c@.len(),
        forall|k: int| pos <= k < e ==> is_blank(#[trigger] c@[k]),
        e < c@.len() ==> !is_blank(c@[e as int]),
        e == blank_end(c@, pos as int),
{
    let mut e = pos;
    while e < c.len() && (c[e] == ' ' || c[e] == '\t' || c[e] == '\r' || c[e] == '\n')
        invariant
            pos <= e <= c@.len(),
            forall|k: int| pos <= k < e ==> is_blank(#[trigger] c@[k]),
            blank_end(c@, pos as int) == blank_end(c@, e as int),
        decreases c@.len() - e,
    {
        e = e + 1;
    }
    e
}

/// Whether the character at `pos` is `ch`.
pub fn char_at(c: &Vec<char>, pos: usize, ch: char) -> (b: bool)
    ensures
        b == (pos < c@.len() && c@[pos as int] == ch),
{
    pos < c.len() && c[pos] == ch
}

/// `c` in lower case, for ASCII letters.
pub open spec fn lower(c: char) -> char {
    if 'A' <= c && c <= 'Z' {
        ((c as u32) + 32) as char
    } else {
        c
    }
}

/// Whether `c` is a name character.
pub fn name_char(c: char) -> (b: bool)
    ensures
        b == is_name_char(c),
{
    ('a' <= c && c <= 'z') || ('A' <= c && c <= 'Z') || ('0' <= c && c <= '9') || c == '_'
}

/// Whether the keyword `kw` (lower case) is at `pos`, in any case, and
/// not followed by a name character: the position after it.
pub fn keyword(c: &Vec<char>, pos: usize, kw: &str) -> (r: Option<usize>)
    requires
        pos <= c@.len(),
    ensures
        r matches Some(e) ==> pos + kw@.len() == e && e <= c@.len() && (forall|k: int|
            0 <= k < kw@.len() ==> lower(#[trigger] c@[pos + k]) == kw@[k]) && (e < c@.len() ==> !is_name_char(
            c@[e as int],
        )),
        match r {
            Some(e) => keyword_at(c@, pos as int, kw@) == Some(e as int),
            None => keyword_at(c@, pos as int, kw@) is None,
        },
{
    let k = chars_of_str(kw);
    let n = c.len();
    if k.len() > n - pos {
        return None;
    }
    let mut i: usize = 0;
    while i < k.len()
        invariant
            k@ == kw@,
            i <= k@.len(),
            n == c@.len(),
            pos + k@.len() <= n,
            forall|j: int| 0 <= j < i ==> lower(#[trigger] c@[pos + j]) == kw@[j],
        decreases k@.len() - i,
    {
        let ch = c[pos + i];
        let l = if 'A' <= ch && ch <= 'Z' {
            ((ch as u32) + 32) as u8 as char
        } else {
            ch
        };
        assert(l == lower(ch)) by {
            if 'A' <= ch && ch <= 'Z' {
                assert(((ch as u32) + 32) as u8 as char == ((ch as u32) + 32) as char);
            }
        }
        if l != k[i] {
            assert(lower(c@[pos + i]) != kw@[i as int]);
            return None;
        }
        i = i + 1;
    }
    let e = pos + k.len();
    if e < c.len() && name_char(c[e]) {
        return None;
    }
    Some(e)
}

/// The characters of `s`.
pub fn chars_of_str(s: &str) -> (v: Vec<char>)
    ensures
        v@ == s@,
{
    crate::text::chars_of(s)
}

/// The characters `a..b` of `c` as a string.
pub fn slice_string(c: &Vec<char>, a: usize, b: usize) -> (s: String)
    requires
        a <= b <= c@.len(),
    ensures
        s@ == c@.subrange(a as int, b as int),
{
    let mut v: Vec<char> = Vec::new();
    let mut i = a;
    while i < b
        invariant
            a <= i <= b <= c@.len(),
            v@ == c@.subrange(a as int, i as int),
        decreases b - i,
    {
        v.push(c[i]);
        i = i + 1;
        assert(v@ =~= c@.subrange(a as int, i as int));
    }
    string_of(&v)
}

/// End of the run of hexadecimal digits starting at `pos`.
pub fn hex_run_end(c: &Vec<char>, pos: usize) -> (e: usize)
    requires
        pos <= c@.len(),
    ensures
        pos <= e <= c@.len(),
        all_hex(c@.subrange(pos as int, e as int)),
        e < c@.len() ==> hex_value(c@[e as int]) is None,
        e == hex_run(c@, pos as int),
{
    let mut e = pos;
    while e < c.len() && hex_digit_value(c[e]).is_some()
        invariant
            pos <= e <= c@.len(),
            all_hex(c@.subrange(pos as int, e as int)),
            hex_run(c@, pos as int) == hex_run(c@, e as int),
        decreases c@.len() - e,
    {
        e = e + 1;
        assert forall|i: int| 0 <= i < e - pos implies #[trigger] hex_value(c@.subrange(pos as int, e as int)[i]) is Some by {
            if i < e - 1 - pos {
                assert(c@.subrange(pos as int, e as int)[i] == c@.subrange(pos as int, e - 1)[i]);
            }
        }
    }
    e
}

/// End of the run of name characters starting at `pos`.
pub fn name_end(c: &Vec<char>, pos: usize) -> (e: usize)
    requires
        pos <= c@.len(),
    ensures
        pos <= e <= c@.len(),
        forall|k: int| pos <= k < e ==> is_name_char(#[trigger] c@[k]),
        e < c@.len() ==> !is_name_char(c@[e as int]),
        e == name_run(c@, pos as int),
{
    let mut e = pos;
    while e < c.len() && name_char(c[e])
        invariant
            pos <= e <= c@.len(),
            forall|k: int| pos <= k < e ==> is_name_char(#[trigger] c@[k]),
            name_run(c@, pos as int) == name_run(c@, e as int),
        decreases c@.len() - e,
    {
        e = e + 1;
    }
    e
}

/// The bytes of the inside of a string literal (see `unescape`); an
/// error for an unknown escape.
pub fn parse_string_literal(str_content: &str) -> (r: AppResult<Vec<u8>>)
    ensures
        match unescape(str_content@) {
            Some(b) => r matches Ok(v) && v@ == b,
            None => r is Err,
        },
{
    let s = chars_of_str(str_content);
    let ghost t = s@;
    let mut out: Vec<u8> = Vec::new();
    let mut i: usize = 0;
    assert(t.skip(0) =~= t);
    assert(out@ + Seq::<u8>::empty() =~= out@);
    while i < s.len()
        invariant
            t == s@,
            t == str_content@,
            i <= t.len(),
            match unescape(t.skip(i as int)) {
                Some(rest) => unescape(t) == Some(out@ + rest),
                None => unescape(t) is None,
            },
        decreases t.len() - i,
    {
        let ghost u = t.skip(i as int);
        let ch = s[i];
        if ch != '\\' {
            out.push((ch as u32 % 256) as u8);
            proof {
                assert(u.skip(1) =~= t.skip(i + 1));
                match unescape(t.skip(i + 1)) {
                    Some(rest) => {
                        assert(out@ + rest =~= out@.drop_last() + (seq![char_byte(ch)] + rest));
                    },
                    None => {},
                }
            }
            i = i + 1;
        } else {
            if i + 1 >= s.len() {
                return Err(bad_escape());
            }
            let e = s[i + 1];
            let single: Option<u8> = if e == 'n' {
                Some(10u8)
            } else if e == 'r' {
                Some(13u8)
            } else if e == 't' {
                Some(9u8)
            } else if e == '0' {
                Some(0u8)
            } else if e == '"' {
                Some(34u8)
            } else if e == '\\' {
                Some(92u8)
            } else {
                None
            };
            assert(u[1] == e);
            match single {
                Some(b) => {
                    out.push(b);
                    proof {
                        assert(u.skip(2) =~= t.skip(i + 2));
                        match unescape(t.skip(i + 2)) {
                            Some(rest) => {
                                assert(out@ + rest =~= out@.drop_last() + (seq![b] + rest));
                            },
                            None => {},
                        }
                    }
                    i = i + 2;
                },
                None => {
                    if e == 'x' {
                        if s.len() - i <= 3 {
                            return Err(bad_escape());
                        }
                        let a = s[i + 2];
                        let b = s[i + 3];
                        let v = if a == '+' {
                            match hex_digit_value(b) {
                                Some(x) => x,
                                None => return Err(bad_escape()),
                            }
                        } else {
                            match (hex_digit_value(a), hex_digit_value(b)) {
                                (Some(x), Some(y)) => x * 16 + y,
                                _ => return Err(bad_escape()),
                            }
                        };
                        assert(escape_value(a, b) == Some(v));
                        out.push(v);
                        proof {
                            assert(u.skip(4) =~= t.skip(i + 4));
                            match unescape(t.skip(i + 4)) {
                                Some(rest) => {
                                    assert(out@ + rest =~= out@.drop_last() + (seq![v] + rest));
                                },
                                None => {},
                            }
                        }
                        i = i + 4;
                    } else if e == '\n' {
                        proof {
                            assert(u.skip(2) =~= t.skip(i + 2));
                        }
                        i = i + 2;
                    } else if e == '\r' {
                        if i + 2 < s.len() && s[i + 2] == '\n' {
                            proof {
                                assert(u.skip(3) =~= t.skip(i + 3));
                            }
                            i = i + 3;
                        } else {
                            proof {
                                assert(u.skip(2) =~= t.skip(i + 2));
                            }
                            i = i + 2;
                        }
                    } else {
                        return Err(bad_escape());
                    }
                },
            }
        }
    }
    proof {
        assert(t.skip(i as int) =~= Seq::<char>::empty());
        assert(out@ + seq![] =~= out@);
    }
    Ok(out)
}

/// The error for an unknown escape in a string literal.
fn bad_escape() -> (e: AppError)
    ensures
        e.message@ == "unknown escape sequence in string literal"@,
{
    let mut s = String::new();
    push_str(&mut s, "unknown escape sequence in string literal");
    AppError::new(s)
}

} // verus!
