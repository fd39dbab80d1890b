//! Character-level helpers shared by the assembler and the opcode table.

use vstd::prelude::*;
use vstd::string::*;

verus! {

/// Whether the characters of `a` are exactly those of `b`.
pub fn same_chars(a: &Vec<char>, b: &str) -> (r: bool)
    ensures
        r == (a@ == b@),
{
    let n = b.unicode_len();
    if a.len() != n {
        return false;
    }
    let mut i: usize = 0;
    while i < n
        invariant
            n == b@.len(),
            a@.len() == n,
            i <= n,
            a@.subrange(0, i as int) == b@.subrange(0, i as int),
        decreases n - i,
    {
        if a[i] != b.get_char(i) {
            assert(a@[i as int] != b@[i as int]);
            return false;
        }
        assert(a@.subrange(0, i + 1) =~= a@.subrange(0, i as int).push(a@[i as int]));
        assert(b@.subrange(0, i + 1) =~= b@.subrange(0, i as int).push(b@[i as int]));
        i = i + 1;
    }
    assert(a@ =~= a@.subrange(0, n as int));
    assert(b@ =~= b@.subrange(0, n as int));
    true
}

/// The characters of `s`, in order.
pub fn chars_of(s: &str) -> (r: Vec<char>)
    ensures
        r@ == s@,
{
    broadcast use vstd::string::axiom_spec_iter;
    let mut out: Vec<char> = Vec::new();
    for c in it: s.chars()
        invariant
            out@ == it.seq().take(it.index() as int),
    {
        assert(it.seq().take(it.index() + 1) =~= it.seq().take(it.index() as int).push(c));
        out.push(c);
    }
    assert(out@ =~= s@);
    out
}

/// Relies on `String`'s `FromIterator<char>`: the string holds the given
/// characters in order.
#[verifier::external_body]
pub(crate) fn text_of(chars: &Vec<char>) -> (r: String)
    ensures
        r@ == chars@,
{
    chars.iter().collect()
}

/// Appends the characters of `s` to `out`.
pub fn push_str(out: &mut Vec<char>, s: &str)
    ensures
        final(out)@ == old(out)@ + s@,
{
    let ghost before = out@;
    let n = s.unicode_len();
    let mut i: usize = 0;
    while i < n
        invariant
            n == s@.len(),
            i <= n,
            out@ == before + s@.subrange(0, i as int),
        decreases n - i,
    {
        out.push(s.get_char(i));
        assert(s@.subrange(0, i + 1) =~= s@.subrange(0, i as int).push(s@[i as int]));
        i = i + 1;
    }
    assert(s@.subrange(0, n as int) =~= s@);
}

/// The decimal digit for `d`, which is below ten.
pub open spec fn digit_char(d: nat) -> char {
    (48 + d) as char
}

/// `n` written in decimal, without leading zeros.
pub open spec fn decimal(n: nat) -> Seq<char>
    decreases n,
{
    if n < 10 {
        seq![digit_char(n)]
    } else {
        decimal(n / 10).push(digit_char(n % 10))
    }
}

/// Appends `n`, written in decimal, to `out`.
pub fn push_decimal(out: &mut Vec<char>, n: usize)
    ensures
        final(out)@ == old(out)@ + decimal(n as nat),
    decreases n,
{
    let ghost before = out@;
    if n >= 10 {
        push_decimal(out, n / 10);
    }
    let d = (n % 10) as u8;
    out.push((48 + d) as char);
    assert(out@ =~= before + decimal(n as nat));
}

/// Whether `c` is white space in Unicode's sense, as `char::is_whitespace`
/// has it.
pub open spec fn is_space(c: char) -> bool {
    let k = c as u32;
    (0x09 <= k <= 0x0D) || k == 0x20 || k == 0x85 || k == 0xA0 || k == 0x1680 || (0x2000 <= k
        <= 0x200A) || k == 0x2028 || k == 0x2029 || k == 0x202F || k == 0x205F || k == 0x3000
}

/// Whether `c` is white space.
pub fn space(c: char) -> (r: bool)
    ensures
        r == is_space(c),
{
    let k = c as u32;
    (0x09 <= k && k <= 0x0D) || k == 0x20 || k == 0x85 || k == 0xA0 || k == 0x1680 || (0x2000 <= k
        && k <= 0x200A) || k == 0x2028 || k == 0x2029 || k == 0x202F || k == 0x205F || k == 0x3000
}

/// The value of an ASCII letter or digit as a digit (`0`-`9`, then `a`-`z`
/// or `A`-`Z` from ten); 36, which no radix accepts, for anything else.
pub open spec fn digit_value(c: char) -> nat {
    let k = c as u32;
    if 48 <= k <= 57 {
        (k - 48) as nat
    } else if 97 <= k <= 122 {
        (k - 87) as nat
    } else if 65 <= k <= 90 {
        (k - 55) as nat
    } else {
        36
    }
}

/// The number that the digits `d` spell in base `radix`.
pub open spec fn digits_value(d: Seq<char>, radix: nat) -> nat
    decreases d.len(),
{
    if d.len() == 0 {
        0
    } else {
        digits_value(d.drop_last(), radix) * radix + digit_value(d.last())
    }
}

/// Every character of `d` is a digit in base `radix`.
pub open spec fn all_digits(d: Seq<char>, radix: nat) -> bool {
    forall|i: int| 0 <= i < d.len() ==> digit_value(#[trigger] d[i]) < radix
}

/// The digits of `s` after an optional leading `+`.
pub open spec fn unsigned_digits(s: Seq<char>) -> Seq<char> {
    if s.len() > 0 && s[0] == '+' {
        s.skip(1)
    } else {
        s
    }
}

/// The byte that `s` spells in base `radix`, as `u8::from_str_radix` reads
/// it: an optional `+`, then one or more digits, with a value below 256.
pub open spec fn parse_byte(s: Seq<char>, radix: nat) -> Option<u8> {
    let d = unsigned_digits(s);
    if d.len() > 0 && all_digits(d, radix) && digits_value(d, radix) <= 255 {
        Some(digits_value(d, radix) as u8)
    } else {
        None
    }
}

/// Digits only add: a prefix of valid digits spells no more than the whole.
proof fn lemma_digits_prefix(d: Seq<char>, radix: nat, k: int)
    requires
        1 <= radix,
        0 <= k <= d.len(),
    ensures
        digits_value(d.subrange(0, k), radix) <= digits_value(d, radix),
    decreases d.len() - k,
{
    if k < d.len() {
        lemma_digits_prefix(d, radix, k + 1);
        let p = d.subrange(0, k + 1);
        assert(p.drop_last() =~= d.subrange(0, k));
        assert(digits_value(p.drop_last(), radix) * radix >= digits_value(p.drop_last(), radix))
            by (nonlinear_arith)
            requires
                radix >= 1,
        ;
    } else {
        assert(d.subrange(0, k) =~= d);
    }
}

/// The value of digit `c`, or `radix` where it is none.
fn digit(c: char, radix: u32) -> (r: u32)
    requires
        2 <= radix <= 36,
    ensures
        r < radix ==> r == digit_value(c),
        r >= radix ==> digit_value(c) >= radix,
{
    let k = c as u32;
    let v = if 48 <= k && k <= 57 {
        k - 48
    } else if 97 <= k && k <= 122 {
        k - 87
    } else if 65 <= k && k <= 90 {
        k - 55
    } else {
        36
    };
    if v < radix {
        v
    } else {
        radix
    }
}

/// Reads a byte from `s` in base `radix`, as `u8::from_str_radix` does.
pub fn read_byte(s: &Vec<char>, radix: u32) -> (r: Option<u8>)
    requires
        2 <= radix <= 36,
    ensures
        r == parse_byte(s@, radix as nat),
{
    let start: usize = if s.len() > 0 && s[0] == '+' {
        1
    } else {
        0
    };
    let ghost d = unsigned_digits(s@);
    assert(d =~= s@.subrange(start as int, s@.len() as int));
    if start >= s.len() {
        return None;
    }
    let mut v: u32 = 0;
    let mut i: usize = start;
    while i < s.len()
        invariant
            start <= i <= s@.len(),
            d == s@.subrange(start as int, s@.len() as int),
            d == unsigned_digits(s@),
            2 <= radix <= 36,
            v <= 255,
            v == digits_value(d.subrange(0, i - start), radix as nat),
            all_digits(d.subrange(0, i - start), radix as nat),
        decreases s.len() - i,
    {
        let x = digit(s[i], radix);
        let ghost p = d.subrange(0, i - start + 1);
        assert(p.drop_last() =~= d.subrange(0, i - start));
        assert(p.last() == s@[i as int]);
        if x >= radix {
            assert(!all_digits(d, radix as nat)) by {
                assert(d[i - start] == s@[i as int]);
            }
            return None;
        }
        assert(v * radix + x <= 255 * 36 + 36) by (nonlinear_arith)
            requires
                v <= 255,
                radix <= 36,
                x < radix,
        ;
        let w = v * radix + x;
        if w > 255 {
            proof {
                if all_digits(d, radix as nat) {
                    lemma_digits_prefix(d, radix as nat, i - start + 1);
                }
            }
            return None;
        }
        v = w;
        assert(all_digits(p, radix as nat)) by {
            assert forall|j: int| 0 <= j < p.len() implies digit_value(#[trigger] p[j]) < radix by {
                if j < p.len() - 1 {
                    assert(p[j] == d.subrange(0, i - start)[j]);
                }
            }
        }
        i = i + 1;
    }
    assert(d.subrange(0, d.len() as int) =~= d);
    Some(v as u8)
}

/// The upper-case hex digit for `d`, which is below sixteen.
pub open spec fn hex_char(d: nat) -> char {
    if d < 10 {
        (48 + d) as char
    } else {
        (55 + d) as char
    }
}

/// `n` written in upper-case hex, without leading zeros.
pub open spec fn hex(n: nat) -> Seq<char>
    decreases n,
{
    if n < 16 {
        seq![hex_char(n)]
    } else {
        hex(n / 16).push(hex_char(n % 16))
    }
}

/// `n` written in upper-case hex with at least two digits.
pub open spec fn hex2(n: nat) -> Seq<char> {
    if n < 16 {
        seq!['0'] + hex(n)
    } else {
        hex(n)
    }
}

/// Appends `n`, written in upper-case hex, to `out`.
fn push_hex(out: &mut Vec<char>, n: usize)
    ensures
        final(out)@ == old(out)@ + hex(n as nat),
    decreases n,
{
    let ghost before = out@;
    if n >= 16 {
        push_hex(out, n / 16);
    }
    let d = (n % 16) as u8;
    if d < 10 {
        out.push((48 + d) as char);
    } else {
        out.push((55 + d) as char);
    }
    assert(out@ =~= before + hex(n as nat));
}

/// Appends `n`, written in upper-case hex with at least two digits, to
/// `out`.
pub fn push_hex2(out: &mut Vec<char>, n: usize)
    ensures
        final(out)@ == old(out)@ + hex2(n as nat),
{
    let ghost before = out@;
    if n < 16 {
        out.push('0');
    }
    push_hex(out, n);
    assert(out@ =~= before + hex2(n as nat));
}

/// A name for what `str::to_uppercase` gives.
pub uninterp spec fn upper_of(s: Seq<char>) -> Seq<char>;

/// Relies on `str::to_uppercase`: the result depends on the characters
/// alone.
#[verifier::external_body]
pub(crate) fn uppercase(s: &str) -> (r: String)
    ensures
        r@ == upper_of(s@),
{
    s.to_uppercase()
}

} // verus!
