//! Text for listings and reports: sizes, numbers, permission bits, times.

use vstd::prelude::*;
use vstd::string::{StringExecFns, StringSliceAdditionalSpecFns};
use crate::datetime::ArchiveDateTime;

verus! {

/// The character of a decimal digit.
pub open spec fn digit_char(d: int) -> char {
    seq!['0', '1', '2', '3', '4', '5', '6', '7', '8', '9'][d]
}

/// The decimal digits of `n`, most significant first, without leading zeros
/// (`0` is one digit).
pub open spec fn digits(n: nat) -> Seq<nat>
    decreases n,
{
    if n < 10 {
        seq![n]
    } else {
        digits(n / 10).push(n % 10)
    }
}

/// The decimal text of `n`.
pub open spec fn decimal(n: nat) -> Seq<char> {
    digits(n).map_values(|d: nat| digit_char(d as int))
}

/// The decimal text of `n`, as ASCII bytes.
pub open spec fn decimal_bytes(n: nat) -> Seq<u8> {
    digits(n).map_values(|d: nat| (48 + d) as u8)
}

proof fn lemma_digits_bounds(n: nat)
    ensures
        1 <= digits(n).len(),
        n <= u64::MAX ==> digits(n).len() <= 20,
        forall|k: int| 0 <= k < digits(n).len() ==> #[trigger] digits(n)[k] < 10,
    decreases n,
{
    if n >= 10 {
        lemma_digits_bounds(n / 10);
        if n <= u64::MAX {
            if n / 10 < 10 {
            } else {
                lemma_digits_short(n);
            }
        }
    }
}

proof fn lemma_digits_short(n: nat)
    requires
        n <= u64::MAX,
    ensures
        digits(n).len() <= 20,
{
    reveal_with_fuel(pow10, 21);
    assert(pow10(20) == 100000000000000000000nat);
    lemma_digits_len_bound(n, 20);
}

/// Fewer than 10^k means at most k digits.
proof fn lemma_digits_len_bound(n: nat, k: nat)
    requires
        k >= 1,
        n < pow10(k),
    ensures
        digits(n).len() <= k,
    decreases n,
{
    if n >= 10 {
        assert(k >= 2) by {
            if k == 1 {
                assert(pow10(1) == 10 * pow10(0));
            }
        }
        assert(pow10(k as nat) == 10 * pow10((k - 1) as nat));
        assert(n / 10 < pow10((k - 1) as nat));
        lemma_digits_len_bound(n / 10, (k - 1) as nat);
    }
}

/// 10 to the power `k`.
pub open spec fn pow10(k: nat) -> nat
    decreases k,
{
    if k == 0 {
        1
    } else {
        10 * pow10((k - 1) as nat)
    }
}

/// Appends the digit `d`.
pub(crate) fn push_digit(s: &mut String, d: u8)
    requires
        d < 10,
    ensures
        final(s)@ == old(s)@.push(digit_char(d as int)),
{
    let lit: &str = if d == 0 {
        proof { reveal_strlit("0"); }
        "0"
    } else if d == 1 {
        proof { reveal_strlit("1"); }
        "1"
    } else if d == 2 {
        proof { reveal_strlit("2"); }
        "2"
    } else if d == 3 {
        proof { reveal_strlit("3"); }
        "3"
    } else if d == 4 {
        proof { reveal_strlit("4"); }
        "4"
    } else if d == 5 {
        proof { reveal_strlit("5"); }
        "5"
    } else if d == 6 {
        proof { reveal_strlit("6"); }
        "6"
    } else if d == 7 {
        proof { reveal_strlit("7"); }
        "7"
    } else if d == 8 {
        proof { reveal_strlit("8"); }
        "8"
    } else {
        proof { reveal_strlit("9"); }
        "9"
    };
    assert(lit@ =~= seq![digit_char(d as int)]);
    s.append(lit);
}

/// Appends the decimal text of `n`.
fn push_decimal(s: &mut String, n: u128)
    ensures
        final(s)@ == old(s)@ + decimal(n as nat),
    decreases n,
{
    if n >= 10 {
        push_decimal(s, n / 10);
    }
    push_digit(s, (n % 10) as u8);
    proof {
        let ds = digits(n as nat);
        if n >= 10 {
            assert(ds =~= digits((n / 10) as nat).push((n % 10) as nat));
            assert(decimal(n as nat) =~= decimal((n / 10) as nat).push(digit_char((n % 10) as int)));
        } else {
            assert(decimal(n as nat) =~= seq![digit_char(n as int)]);
        }
    }
}

/// The value `size / unit`, in tenths, rounded to the nearest tenth with
/// ties going to the even tenth.
pub open spec fn rounded_tenths(size: nat, unit: nat) -> nat {
    let q = (size * 10) / unit;
    let r = (size * 10) % unit;
    if 2 * r > unit || (2 * r == unit && q % 2 == 1) {
        q + 1
    } else {
        q
    }
}

/// A number of tenths written with one decimal.
pub open spec fn tenths_text(t: nat) -> Seq<char> {
    decimal(t / 10) + seq!['.', digit_char((t % 10) as int)]
}

/// A byte size for people: bytes below 1024, else kibi-, mebi- or gibibytes
/// with one decimal (`1.5K`, `2.0G`).
pub open spec fn size_text(size: u64) -> Seq<char> {
    if size < 1024 {
        decimal(size as nat) + seq!['B']
    } else if size < 1024 * 1024 {
        tenths_text(rounded_tenths(size as nat, 1024)) + seq!['K']
    } else if size < 1024 * 1024 * 1024 {
        tenths_text(rounded_tenths(size as nat, 1024 * 1024)) + seq!['M']
    } else {
        tenths_text(rounded_tenths(size as nat, 1024 * 1024 * 1024)) + seq!['G']
    }
}

/// Appends `size / unit` with one decimal.
fn push_tenths(s: &mut String, size: u64, unit: u64)
    requires
        unit >= 1,
    ensures
        final(s)@ == old(s)@ + tenths_text(rounded_tenths(size as nat, unit as nat)),
{
    let scaled: u128 = size as u128 * 10;
    let q: u128 = scaled / unit as u128;
    let r: u128 = scaled % unit as u128;
    let t: u128 = if 2 * r > unit as u128 || (2 * r == unit as u128 && q % 2 == 1) {
        q + 1
    } else {
        q
    };
    push_decimal(s, t / 10);
    proof { reveal_strlit("."); }
    s.append(".");
    push_digit(s, (t % 10) as u8);
    assert(final(s)@ =~= old(s)@ + tenths_text(rounded_tenths(size as nat, unit as nat)));
}

/// Formats a byte size for people.
pub fn format_size(size: u64) -> (r: String)
    ensures
        r@ == size_text(size),
{
    let mut s = String::new();
    if size < 1024 {
        push_decimal(&mut s, size as u128);
        proof { reveal_strlit("B"); }
        s.append("B");
    } else if size < 1024 * 1024 {
        push_tenths(&mut s, size, 1024);
        proof { reveal_strlit("K"); }
        s.append("K");
    } else if size < 1024 * 1024 * 1024 {
        push_tenths(&mut s, size, 1024 * 1024);
        proof { reveal_strlit("M"); }
        s.append("M");
    } else {
        push_tenths(&mut s, size, 1024 * 1024 * 1024);
        proof { reveal_strlit("G"); }
        s.append("G");
    }
    assert(s@ =~= size_text(size));
    s
}

/// Writes the decimal digits of `n` at the start of `buf`.
fn put_digits(buf: &mut [u8; 32], n: u64) -> (len: usize)
    ensures
        len == digits(n as nat).len(),
        len <= 20,
        forall|k: int| 0 <= k < len ==> #[trigger] final(buf)@[k] == decimal_bytes(n as nat)[k],
        forall|k: int| len <= k < 32 ==> #[trigger] final(buf)@[k] == old(buf)@[k],
    decreases n,
{
    proof {
        lemma_digits_bounds(n as nat);
    }
    if n < 10 {
        buf[0] = 48 + n as u8;
        return 1;
    }
    let l = put_digits(buf, n / 10);
    proof {
        lemma_digits_bounds((n / 10) as nat);
        assert(digits(n as nat) == digits((n / 10) as nat).push((n % 10) as nat));
    }
    buf[l] = 48 + (n % 10) as u8;
    l + 1
}

/// Writes the decimal text of `value` at the start of `buf` and returns its
/// length; the rest of `buf` is left as it was.
pub fn write_u64(buf: &mut [u8; 32], value: u64) -> (len: usize)
    ensures
        len == decimal_bytes(value as nat).len(),
        final(buf)@.subrange(0, len as int) == decimal_bytes(value as nat),
        forall|k: int| len <= k < 32 ==> #[trigger] final(buf)@[k] == old(buf)@[k],
{
    let len = put_digits(buf, value);
    assert(final(buf)@.subrange(0, len as int) =~= decimal_bytes(value as nat));
    len
}

/// `s` preceded by spaces up to `width` bytes.
pub open spec fn right_aligned(s: &str, width: usize) -> Seq<char> {
    let n = s.spec_bytes().len();
    Seq::new(if n < width { (width - n) as nat } else { 0 }, |i: int| ' ') + s@
}

/// Appends `s` to `out`, preceded by spaces up to `width` bytes.
pub fn write_right_aligned(out: &mut String, s: &str, width: usize)
    ensures
        final(out)@ == old(out)@ + right_aligned(s, width),
{
    let len = s.as_bytes().len();
    let ghost start = out@;
    let pad: usize = if len < width {
        width - len
    } else {
        0
    };
    let mut k: usize = 0;
    while k < pad
        invariant
            k <= pad,
            out@ == start + Seq::new(k as nat, |i: int| ' '),
        decreases pad - k,
    {
        proof { reveal_strlit(" "); }
        out.append(" ");
        assert(start + Seq::new((k + 1) as nat, |i: int| ' ') =~= start + Seq::new(k as nat, |i: int| ' ') + " "@);
        k = k + 1;
    }
    let ghost spaces = Seq::new(pad as nat, |i: int| ' ');
    out.append(s);
    assert(len == s.spec_bytes().len());
    assert(right_aligned(s, width) == spaces + s@);
    assert(out@ =~= start + (spaces + s@));
}

/// `t` preceded by spaces up to `width` characters.
pub open spec fn pad_left(t: Seq<char>, width: nat) -> Seq<char> {
    Seq::new(if t.len() < width { (width - t.len()) as nat } else { 0 }, |i: int| ' ') + t
}

/// Appends `t`, preceded by spaces up to `width` characters.
pub fn push_text_right(s: &mut String, t: &str, width: usize)
    ensures
        final(s)@ == old(s)@ + pad_left(t@, width as nat),
{
    let len = t.unicode_len();
    let pad: usize = if len < width {
        width - len
    } else {
        0
    };
    let ghost start = s@;
    let mut k: usize = 0;
    while k < pad
        invariant
            k <= pad,
            s@ == start + Seq::new(k as nat, |i: int| ' '),
        decreases pad - k,
    {
        proof { reveal_strlit(" "); }
        s.append(" ");
        assert(start + Seq::new((k + 1) as nat, |i: int| ' ') =~= start + Seq::new(k as nat, |i: int| ' ') + " "@);
        k = k + 1;
    }
    let ghost spaces = Seq::new(pad as nat, |i: int| ' ');
    s.append(t);
    assert(pad_left(t@, width as nat) == spaces + t@);
    assert(s@ =~= start + (spaces + t@));
}

/// Appends the decimal text of `n`, preceded by spaces up to `width`
/// characters.
pub fn push_number_right(s: &mut String, n: u64, width: usize)
    ensures
        final(s)@ == old(s)@ + pad_left(decimal(n as nat), width as nat),
{
    let mut text = String::new();
    push_decimal(&mut text, n as u128);
    assert(text@ =~= decimal(n as nat));
    push_text_right(s, text.as_str(), width);
}

/// The character of a hexadecimal digit, in lower case.
pub open spec fn hex_char(d: int) -> char {
    seq!['0', '1', '2', '3', '4', '5', '6', '7', '8', '9', 'a', 'b', 'c', 'd', 'e', 'f'][d]
}

/// The last `count` hexadecimal digits of `n`, most significant first.
pub open spec fn hex_digits(n: nat, count: nat) -> Seq<char>
    decreases count,
{
    if count == 0 {
        Seq::empty()
    } else {
        hex_digits(n / 16, (count - 1) as nat).push(hex_char((n % 16) as int))
    }
}

/// Appends the hexadecimal digit `d`.
fn push_hex_digit(s: &mut String, d: u32)
    requires
        d < 16,
    ensures
        final(s)@ == old(s)@.push(hex_char(d as int)),
{
    if d < 10 {
        push_digit(s, d as u8);
        return;
    }
    let lit: &str = if d == 10 {
        proof { reveal_strlit("a"); }
        "a"
    } else if d == 11 {
        proof { reveal_strlit("b"); }
        "b"
    } else if d == 12 {
        proof { reveal_strlit("c"); }
        "c"
    } else if d == 13 {
        proof { reveal_strlit("d"); }
        "d"
    } else if d == 14 {
        proof { reveal_strlit("e"); }
        "e"
    } else {
        proof { reveal_strlit("f"); }
        "f"
    };
    assert(lit@ =~= seq![hex_char(d as int)]);
    s.append(lit);
}

/// Appends the last `count` hexadecimal digits of `n`.
pub fn push_hex(s: &mut String, n: u32, count: u32)
    ensures
        final(s)@ == old(s)@ + hex_digits(n as nat, count as nat),
    decreases count,
{
    if count == 0 {
        assert(final(s)@ =~= old(s)@ + hex_digits(n as nat, 0));
        return;
    }
    push_hex(s, n / 16, count - 1);
    push_hex_digit(s, n % 16);
    assert(final(s)@ =~= old(s)@ + hex_digits(n as nat, count as nat));
}

/// One permission letter: `c` when the bit is set, else `-`.
pub open spec fn flag(on: bool, c: char) -> Seq<char> {
    if on {
        seq![c]
    } else {
        seq!['-']
    }
}

/// Unix permission bits as `ls -l` writes them: `d` or `-`, then `rwx` for
/// the owner, the group and the others.
pub open spec fn mode_text(mode: u32) -> Seq<char> {
    flag(mode & 0o040000 != 0, 'd') + flag(mode & 0o400 != 0, 'r') + flag(mode & 0o200 != 0, 'w')
        + flag(mode & 0o100 != 0, 'x') + flag(mode & 0o040 != 0, 'r') + flag(mode & 0o020 != 0, 'w')
        + flag(mode & 0o010 != 0, 'x') + flag(mode & 0o004 != 0, 'r') + flag(mode & 0o002 != 0, 'w')
        + flag(mode & 0o001 != 0, 'x')
}

/// Appends `c` or `-`.
fn push_flag(s: &mut String, on: bool, letter: &str)
    requires
        letter@.len() == 1,
    ensures
        final(s)@ == old(s)@ + flag(on, letter@[0]),
{
    if on {
        s.append(letter);
        assert(letter@ =~= seq![letter@[0]]);
    } else {
        proof { reveal_strlit("-"); }
        s.append("-");
    }
}

/// Formats Unix permission bits.
pub fn format_unix_mode(mode: u32) -> (r: String)
    ensures
        r@ == mode_text(mode),
{
    proof {
        reveal_strlit("d");
        reveal_strlit("r");
        reveal_strlit("w");
        reveal_strlit("x");
    }
    let mut s = String::new();
    push_flag(&mut s, mode & 0o040000 != 0, "d");
    push_flag(&mut s, mode & 0o400 != 0, "r");
    push_flag(&mut s, mode & 0o200 != 0, "w");
    push_flag(&mut s, mode & 0o100 != 0, "x");
    push_flag(&mut s, mode & 0o040 != 0, "r");
    push_flag(&mut s, mode & 0o020 != 0, "w");
    push_flag(&mut s, mode & 0o010 != 0, "x");
    push_flag(&mut s, mode & 0o004 != 0, "r");
    push_flag(&mut s, mode & 0o002 != 0, "w");
    push_flag(&mut s, mode & 0o001 != 0, "x");
    assert(s@ =~= mode_text(mode));
    s
}

} // verus!
