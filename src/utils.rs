use vstd::prelude::*;
use vstd::string::StringExecFns;
use crate::text::text_of;

verus! {

/// `1024` to the power `k`.
pub open spec fn pow1024(k: nat) -> nat
    decreases k,
{
    if k == 0 {
        1
    } else {
        1024 * pow1024((k - 1) as nat)
    }
}

/// The unit index reached from `k` on: step up while the size is at least a
/// thousand and twenty-four of the next unit, up to terabytes.
pub open spec fn unit_index_from(size: nat, k: nat) -> nat
    decreases 4 - k,
{
    if k < 4 && size >= pow1024(k + 1) {
        unit_index_from(size, k + 1)
    } else {
        k
    }
}

pub open spec fn unit_name(k: nat) -> Seq<char> {
    if k == 0 {
        "B"@
    } else if k == 1 {
        "KB"@
    } else if k == 2 {
        "MB"@
    } else if k == 3 {
        "GB"@
    } else {
        "TB"@
    }
}

/// `n / d` rounded to the nearest integer, ties to the even one.
pub open spec fn div_round_even(n: nat, d: nat) -> nat
    recommends
        d > 0,
{
    let q = n / d;
    let r = n % d;
    if 2 * r > d || (2 * r == d && q % 2 == 1) {
        q + 1
    } else {
        q
    }
}

pub open spec fn digit_char(d: nat) -> char {
    ('0' as nat + d) as char
}

/// The decimal digits of `n`.
pub open spec fn decimal(n: nat) -> Seq<char>
    decreases n,
{
    if n < 10 {
        seq![digit_char(n)]
    } else {
        decimal(n / 10) + seq![digit_char(n % 10)]
    }
}

/// A size in the largest unit (up to TB) in which it is at least one, with two
/// decimals rounded half to even: `1536` is "1.50 KB".
pub open spec fn bytes_text(size: nat) -> Seq<char> {
    let k = unit_index_from(size, 0);
    let hundredths = div_round_even(size * 100, pow1024(k));
    decimal(hundredths / 100) + "."@ + decimal((hundredths % 100) / 10) + decimal(hundredths % 10) + " "@
        + unit_name(k)
}

pub(crate) fn digit_text(d: u128) -> (r: &'static str)
    requires
        d < 10,
    ensures
        r@ == seq![digit_char(d as nat)],
{
    proof {
        reveal_strlit("0");
        reveal_strlit("1");
        reveal_strlit("2");
        reveal_strlit("3");
        reveal_strlit("4");
        reveal_strlit("5");
        reveal_strlit("6");
        reveal_strlit("7");
        reveal_strlit("8");
        reveal_strlit("9");
    }
    let r = if d == 0 {
        "0"
    } else if d == 1 {
        "1"
    } else if d == 2 {
        "2"
    } else if d == 3 {
        "3"
    } else if d == 4 {
        "4"
    } else if d == 5 {
        "5"
    } else if d == 6 {
        "6"
    } else if d == 7 {
        "7"
    } else if d == 8 {
        "8"
    } else {
        "9"
    };
    assert(r@ =~= seq![digit_char(d as nat)]);
    r
}

pub(crate) fn append_decimal(s: String, n: u128) -> (r: String)
    ensures
        r@ == s@ + decimal(n as nat),
    decreases n,
{
    if n < 10 {
        s.concat(digit_text(n))
    } else {
        let t = append_decimal(s, n / 10);
        let r = t.concat(digit_text(n % 10));
        assert(r@ =~= s@ + decimal(n as nat));
        r
    }
}

fn unit_text(k: u64) -> (r: &'static str)
    ensures
        r@ == unit_name(k as nat),
{
    if k == 0 {
        "B"
    } else if k == 1 {
        "KB"
    } else if k == 2 {
        "MB"
    } else if k == 3 {
        "GB"
    } else {
        "TB"
    }
}

/// A human-readable size: two decimals in the largest unit, up to TB, in
/// which the size is at least one.
pub fn format_bytes(size: u64) -> (r: String)
    ensures
        r@ == bytes_text(size as nat),
{
    let mut k: u64 = 0;
    let mut d: u64 = 1;
    proof {
        reveal_with_fuel(pow1024, 5);
    }
    while k < 4 && size / d >= 1024
        invariant
            k <= 4,
            d as nat == pow1024(k as nat),
            d >= 1,
            k == 0 ==> d == 1,
            k == 1 ==> d == 0x400,
            k == 2 ==> d == 0x100000,
            k == 3 ==> d == 0x40000000,
            k == 4 ==> d == 0x10000000000,
            unit_index_from(size as nat, 0) == unit_index_from(size as nat, k as nat),
        decreases 4 - k,
    {
        assert(pow1024((k + 1) as nat) == 1024 * pow1024(k as nat));
        assert(size as nat >= pow1024((k + 1) as nat)) by (nonlinear_arith)
            requires
                size as nat / d as nat >= 1024,
                d > 0,
                pow1024((k + 1) as nat) == 1024 * d,
        ;
        d = d * 1024;
        k = k + 1;
    }
    proof {
        assert(pow1024((k + 1) as nat) == 1024 * pow1024(k as nat));
        if k < 4 {
            assert((size as nat) < pow1024((k + 1) as nat)) by (nonlinear_arith)
                requires
                    (size as nat) / (d as nat) < 1024,
                    d > 0,
                    pow1024((k + 1) as nat) == 1024 * d,
            ;
        }
    }
    let n: u128 = (size as u128) * 100;
    let q: u128 = n / (d as u128);
    let rem: u128 = n % (d as u128);
    let h: u128 = if 2 * rem > d as u128 || (2 * rem == d as u128 && q % 2 == 1) {
        q + 1
    } else {
        q
    };
    let hu: u128 = h;
    let s = append_decimal(String::new(), hu / 100);
    let s = s.concat(".");
    let s = append_decimal(s, (hu % 100) / 10);
    let s = append_decimal(s, hu % 10);
    let s = s.concat(" ").concat(unit_text(k));
    s
}

/// The octal digits of `n`.
pub open spec fn octal(n: nat) -> Seq<char>
    decreases n,
{
    if n < 8 {
        seq![digit_char(n)]
    } else {
        octal(n / 8) + seq![digit_char(n % 8)]
    }
}

fn append_octal(s: String, n: u32) -> (r: String)
    ensures
        r@ == s@ + octal(n as nat),
    decreases n,
{
    if n < 8 {
        s.concat(digit_text(n as u128))
    } else {
        let t = append_octal(s, n / 8);
        let r = t.concat(digit_text((n % 8) as u128));
        assert(r@ =~= s@ + octal(n as nat));
        r
    }
}

/// The permission bits of a file mode, in octal.
pub fn permissions_text(mode: u32) -> (r: String)
    ensures
        r@ == octal((mode % 512) as nat),
{
    assert(mode & 0o777 == mode % 512) by (bit_vector);
    append_octal(String::new(), mode & 0o777)
}

/// Whether a file mode lets anyone execute the file.
pub fn is_executable_mode(mode: u32) -> (r: bool)
    ensures
        r == (mode & 0o111 != 0),
{
    mode & 0o111 != 0
}

/// Two decimal digits of a value below a hundred.
pub open spec fn pad2(n: nat) -> Seq<char> {
    seq![digit_char(n / 10), digit_char(n % 10)]
}

/// At least four decimal digits, zero-padded.
pub open spec fn digits_min4(n: nat) -> Seq<char> {
    if n < 10000 {
        seq![digit_char(n / 1000), digit_char(n / 100 % 10), digit_char(n / 10 % 10), digit_char(n % 10)]
    } else {
        decimal(n)
    }
}

/// A year as `%Y` writes it: four digits, with a sign outside 0 to 9999.
pub open spec fn year_text(y: int) -> Seq<char> {
    if 0 <= y <= 9999 {
        digits_min4(y as nat)
    } else if y > 9999 {
        "+"@ + digits_min4(y as nat)
    } else {
        "-"@ + digits_min4((-y) as nat)
    }
}

/// A local date and time written `YYYYMMDD_HHMMSS`.
pub open spec fn stamp_text(y: int, mo: nat, d: nat, h: nat, mi: nat, s: nat) -> Seq<char> {
    year_text(y) + pad2(mo) + pad2(d) + "_"@ + pad2(h) + pad2(mi) + pad2(s)
}

fn append_pad2(s: String, n: u32) -> (r: String)
    requires
        n < 100,
    ensures
        r@ == s@ + pad2(n as nat),
{
    let r = s.concat(digit_text((n / 10) as u128)).concat(digit_text((n % 10) as u128));
    assert(r@ =~= s@ + pad2(n as nat));
    r
}

fn append_min4(s: String, n: u64) -> (r: String)
    ensures
        r@ == s@ + digits_min4(n as nat),
{
    if n < 10000 {
        let r = s.concat(digit_text((n / 1000) as u128)).concat(digit_text((n / 100 % 10) as u128)).concat(
            digit_text((n / 10 % 10) as u128),
        ).concat(digit_text((n % 10) as u128));
        assert(r@ =~= s@ + digits_min4(n as nat));
        r
    } else {
        append_decimal(s, n as u128)
    }
}

/// Writes a local date and time as `YYYYMMDD_HHMMSS`.
pub fn timestamp_text(year: i32, month: u32, day: u32, hour: u32, minute: u32, second: u32) -> (r: String)
    requires
        month < 100,
        day < 100,
        hour < 100,
        minute < 100,
        second < 100,
    ensures
        r@ == stamp_text(year as int, month as nat, day as nat, hour as nat, minute as nat, second as nat),
{
    let y: i64 = year as i64;
    let s = if 0 <= y && y <= 9999 {
        append_min4(String::new(), y as u64)
    } else if y > 9999 {
        append_min4(text_of("+"), y as u64)
    } else {
        append_min4(text_of("-"), (-y) as u64)
    };
    let s = append_pad2(s, month);
    let s = append_pad2(s, day);
    let s = s.concat("_");
    let s = append_pad2(s, hour);
    let s = append_pad2(s, minute);
    let s = append_pad2(s, second);
    s
}

} // verus!
