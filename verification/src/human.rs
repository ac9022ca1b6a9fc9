//! Human-readable formatting for byte counts, the way `du -h` prints them.

use vstd::prelude::*;

verus! {

/// The character for a decimal digit `d` (`0 <= d < 10`).
pub open spec fn digit_char(d: nat) -> char {
    if d == 0 { '0' }
    else if d == 1 { '1' }
    else if d == 2 { '2' }
    else if d == 3 { '3' }
    else if d == 4 { '4' }
    else if d == 5 { '5' }
    else if d == 6 { '6' }
    else if d == 7 { '7' }
    else if d == 8 { '8' }
    else { '9' }
}

/// Base-ten digits of `n`, most significant first, without leading zeros.
pub open spec fn decimal(n: nat) -> Seq<char>
    decreases n,
{
    if n < 10 {
        seq![digit_char(n)]
    } else {
        decimal(n / 10).push(digit_char(n % 10))
    }
}

fn digit_str(d: u64) -> (s: &'static str)
    requires
        d < 10,
    ensures
        s@ == seq![digit_char(d as nat)],
{
    proof {
        reveal_strlit("0");
        reveal_strlit("1");
        reveal_strlit("2");
        reveal_strlit("3");
        reveal_strlit("4");
        reveal_strlit("5");
        reveal_strlit("6");
        reveal_strlit("7");
        reveal_strlit("8");
        reveal_strlit("9");
    }
    if d == 0 { "0" }
    else if d == 1 { "1" }
    else if d == 2 { "2" }
    else if d == 3 { "3" }
    else if d == 4 { "4" }
    else if d == 5 { "5" }
    else if d == 6 { "6" }
    else if d == 7 { "7" }
    else if d == 8 { "8" }
    else { "9" }
}

fn push_decimal(out: &mut String, n: u128)
    ensures
        final(out)@ == old(out)@ + decimal(n as nat),
    decreases n,
{
    if n >= 10 {
        push_decimal(out, n / 10);
    }
    out.append(digit_str((n % 10) as u64));
}


/// The spacing between neighbouring `f64` values around `b`: 1 below 2^53,
/// doubling with each further bit of `b`.
pub open spec fn f64_spacing(b: nat) -> nat
    decreases b,
{
    if b < 0x20_0000_0000_0000 {
        1
    } else {
        2 * f64_spacing(b / 2)
    }
}

/// `n / d` rounded to the nearest integer, ties to the even one.
pub open spec fn div_round_half_even(n: nat, d: nat) -> nat {
    let q = n / d;
    let r = n % d;
    if 2 * r > d || (2 * r == d && q % 2 == 1) {
        q + 1
    } else {
        q
    }
}

/// The value of `b as f64`: `b` rounded to the nearest multiple of the
/// `f64` spacing there, ties to even.
pub open spec fn nearest_f64(b: nat) -> nat {
    div_round_half_even(b, f64_spacing(b)) * f64_spacing(b)
}

proof fn lemma_spacing_positive(b: nat)
    ensures
        f64_spacing(b) >= 1,
    decreases b,
{
    if b >= 0x20_0000_0000_0000 {
        lemma_spacing_positive(b / 2);
    }
}

/// Computes `bytes as f64` exactly, as an integer.
fn nearest_f64_value(bytes: u64) -> (f: u128)
    ensures
        f == nearest_f64(bytes as nat),
        f <= 0x2_0000_0000_0000_0000,
        bytes >= 1 ==> f >= 1,
{
    let mut top: u64 = bytes;
    let mut scale: u64 = 1;
    while top >= 0x20_0000_0000_0000
        invariant
            scale >= 1,
            scale <= 4096,
            top == bytes / scale,
            bytes >= 1 ==> top >= 1,
            f64_spacing(bytes as nat) == scale * f64_spacing(top as nat),
        decreases top,
    {
        assert(scale < 2048) by (nonlinear_arith)
            requires
                top == bytes / scale,
                top >= 0x20_0000_0000_0000,
                scale >= 1,
                bytes <= 0xffff_ffff_ffff_ffff,
        {
            assert(bytes >= scale * top);
        }
        proof {
            vstd::arithmetic::div_mod::lemma_div_denominator(bytes as int, scale as int, 2);
            assert(f64_spacing(top as nat) == 2 * f64_spacing((top / 2) as nat));
            assert(scale * (2 * f64_spacing((top / 2) as nat)) == (scale * 2) * f64_spacing((top / 2) as nat))
                by (nonlinear_arith);
        }
        top = top / 2;
        scale = scale * 2;
    }
    assert(f64_spacing(bytes as nat) == scale) by {
        let sp = f64_spacing(top as nat);
        assert(sp == 1);
        assert(scale * sp == scale) by (nonlinear_arith) requires sp == 1;
    }
    let rem = bytes % scale;
    let q: u64 = if 2 * rem > scale || (2 * rem == scale && top % 2 == 1) {
        top + 1
    } else {
        top
    };
    assert(q == div_round_half_even(bytes as nat, scale as nat));
    assert(q as int * scale as int <= 0x2_0000_0000_0000_0000) by (nonlinear_arith)
        requires
            q <= 0x20_0000_0000_0000,
            scale <= 4096,
    ;
    assert(bytes >= 1 ==> q as int * scale as int >= 1) by (nonlinear_arith)
        requires
            bytes >= 1 ==> q >= 1,
            scale >= 1,
    ;
    (q as u128) * (scale as u128)
}


/// Which entry of the unit table (`B`, `KiB`, ... `EiB`) a value of `f` bytes
/// is shown in: the largest power of 1024 not above `f`, capped at `EiB`.
pub open spec fn unit_index(f: nat) -> nat {
    if f >= 0x1000_0000_0000_0000 { 6 }
    else if f >= 0x4_0000_0000_0000 { 5 }
    else if f >= 0x100_0000_0000 { 4 }
    else if f >= 0x4000_0000 { 3 }
    else if f >= 0x10_0000 { 2 }
    else if f >= 0x400 { 1 }
    else { 0 }
}

/// 1024 to the power `u`, for the units of the table.
pub open spec fn unit_divisor(u: nat) -> nat {
    if u == 0 { 1 }
    else if u == 1 { 0x400 }
    else if u == 2 { 0x10_0000 }
    else if u == 3 { 0x4000_0000 }
    else if u == 4 { 0x100_0000_0000 }
    else if u == 5 { 0x4_0000_0000_0000 }
    else { 0x1000_0000_0000_0000 }
}

/// The name of unit `u` in the table.
pub open spec fn unit_name(u: nat) -> Seq<char> {
    if u == 0 { seq!['B'] }
    else if u == 1 { seq!['K', 'i', 'B'] }
    else if u == 2 { seq!['M', 'i', 'B'] }
    else if u == 3 { seq!['G', 'i', 'B'] }
    else if u == 4 { seq!['T', 'i', 'B'] }
    else if u == 5 { seq!['P', 'i', 'B'] }
    else { seq!['E', 'i', 'B'] }
}

/// What `human_bytes(bytes)` reads: whole bytes below 1024, otherwise the
/// value of `bytes as f64` in the largest fitting binary unit, rounded to
/// one decimal place (ties to even).
pub open spec fn human_bytes_text(bytes: u64) -> Seq<char> {
    if bytes < 1024 {
        decimal(bytes as nat) + seq![' ', 'B']
    } else {
        let f = nearest_f64(bytes as nat);
        let u = unit_index(f);
        let tenths = div_round_half_even(f * 10, unit_divisor(u));
        decimal(tenths / 10) + seq!['.', digit_char(tenths % 10), ' '] + unit_name(u)
    }
}

fn unit_str(u: usize) -> (s: &'static str)
    requires
        u <= 6,
    ensures
        s@ == unit_name(u as nat),
{
    proof {
        reveal_strlit("B");
        reveal_strlit("KiB");
        reveal_strlit("MiB");
        reveal_strlit("GiB");
        reveal_strlit("TiB");
        reveal_strlit("PiB");
        reveal_strlit("EiB");
    }
    if u == 0 { "B" }
    else if u == 1 { "KiB" }
    else if u == 2 { "MiB" }
    else if u == 3 { "GiB" }
    else if u == 4 { "TiB" }
    else if u == 5 { "PiB" }
    else { "EiB" }
}

/// Format a byte count the way `du -h` does: binary units (1024, not 1000),
/// one decimal place once past whole bytes.
pub fn human_bytes(bytes: u64) -> (s: String)
    ensures
        s@ == human_bytes_text(bytes),
{
    let mut out = String::new();
    if bytes < 1024 {
        push_decimal(&mut out, bytes as u128);
        proof {
            reveal_strlit(" B");
        }
        out.append(" B");
        return out;
    }
    let f = nearest_f64_value(bytes);
    let mut unit: usize = 0;
    let mut divisor: u128 = 1;
    while f >= divisor * 1024 && unit < 6
        invariant
            unit <= 6,
            divisor == unit_divisor(unit as nat),
            f >= divisor,
            f == nearest_f64(bytes as nat),
            f <= 0x2_0000_0000_0000_0000,
        decreases 6 - unit,
    {
        divisor = divisor * 1024;
        unit = unit + 1;
    }
    assert(unit as nat == unit_index(f as nat));
    let scaled = f * 10;
    let q = scaled / divisor;
    let r = scaled % divisor;
    let tenths: u128 = if 2 * r > divisor || (2 * r == divisor && q % 2 == 1) {
        q + 1
    } else {
        q
    };
    assert(tenths == div_round_half_even((f * 10) as nat, divisor as nat));
    push_decimal(&mut out, tenths / 10);
    proof {
        reveal_strlit(".");
        reveal_strlit(" ");
    }
    out.append(".");
    out.append(digit_str((tenths % 10) as u64));
    out.append(" ");
    out.append(unit_str(unit));
    assert(out@ == human_bytes_text(bytes));
    out
}


/// Two to the power `k`.
pub open spec fn pow2(k: nat) -> nat
    decreases k,
{
    if k == 0 { 1 } else { 2 * pow2((k - 1) as nat) }
}

proof fn lemma_spacing_divides(b: nat, k: nat)
    requires
        k >= 53,
        b < pow2(k),
    ensures
        pow2(k) % f64_spacing(b) == 0,
    decreases b,
{
    lemma_spacing_positive(b);
    if b >= 0x20_0000_0000_0000 {
        if k == 53 {
            assert(pow2(53) == 0x20_0000_0000_0000) by {
                reveal_with_fuel(pow2, 54);
            }
        }
        let k1 = (k - 1) as nat;
        assert(b / 2 < pow2(k1));
        lemma_spacing_divides(b / 2, k1);
        let sp = f64_spacing(b / 2);
        lemma_spacing_positive(b / 2);
        let c = pow2(k1) / sp;
        vstd::arithmetic::div_mod::lemma_fundamental_div_mod(pow2(k1) as int, sp as int);
        assert(pow2(k) == c * (2 * sp)) by (nonlinear_arith)
            requires
                pow2(k) == 2 * pow2(k1),
                pow2(k1) == sp * c,
        ;
        vstd::arithmetic::div_mod::lemma_mod_multiples_basic(c as int, (2 * sp) as int);
    }
}

/// `u64::MAX` is a bit under 16 EiB, and so is its value as `f64` at most
/// 16 EiB: the unit table never runs out, and the largest figure shown
/// is `16.0 EiB`.
pub proof fn law_unit_table_suffices(bytes: u64)
    ensures
        nearest_f64(bytes as nat) <= 16 * unit_divisor(6),
        div_round_half_even(nearest_f64(bytes as nat) * 10, unit_divisor(6)) <= 160,
{
    let b = bytes as nat;
    let s = f64_spacing(b);
    lemma_spacing_positive(b);
    assert(pow2(64) == 0x1_0000_0000_0000_0000) by {
        reveal_with_fuel(pow2, 65);
    }
    lemma_spacing_divides(b, 64);
    let q = b / s;
    let r = b % s;
    let m = pow2(64) / s;
    vstd::arithmetic::div_mod::lemma_fundamental_div_mod(b as int, s as int);
    vstd::arithmetic::div_mod::lemma_fundamental_div_mod(pow2(64) as int, s as int);
    assert(q + 1 <= m) by (nonlinear_arith)
        requires
            b == s * q + r,
            0 <= r,
            b < pow2(64),
            pow2(64) == s * m,
            s >= 1,
    {
        assert(s * q < s * m);
    }
    assert(div_round_half_even(b, s) <= q + 1);
    assert(nearest_f64(b) <= pow2(64)) by (nonlinear_arith)
        requires
            nearest_f64(b) == div_round_half_even(b, s) * s,
            div_round_half_even(b, s) <= m,
            pow2(64) == s * m,
            s >= 1,
    ;
    let f = nearest_f64(b);
    assert(f * 10 <= 160 * 0x1000_0000_0000_0000);
    assert((f * 10) / 0x1000_0000_0000_0000 <= 160) by (nonlinear_arith)
        requires
            f * 10 <= 160 * 0x1000_0000_0000_0000,
    ;
    assert(unit_divisor(6) == 0x1000_0000_0000_0000);
    assert(div_round_half_even(f * 10, unit_divisor(6)) <= 160) by {
        let n = f * 10;
        let d = 0x1000_0000_0000_0000nat;
        if n / d == 160 {
            vstd::arithmetic::div_mod::lemma_fundamental_div_mod(n as int, d as int);
            assert(n % d == 0);
        }
    }
}


/// The index in the unit table of the unit `human_bytes(bytes)` is shown in.
pub open spec fn shown_unit(bytes: u64) -> nat {
    if bytes < 1024 {
        0
    } else {
        unit_index(nearest_f64(bytes as nat))
    }
}

/// The number `human_bytes(bytes)` shows, before the space and the unit.
pub open spec fn shown_figure(bytes: u64) -> Seq<char> {
    if bytes < 1024 {
        decimal(bytes as nat)
    } else {
        let f = nearest_f64(bytes as nat);
        let tenths = div_round_half_even(f * 10, unit_divisor(unit_index(f)));
        decimal(tenths / 10) + seq!['.', digit_char(tenths % 10)]
    }
}

/// What `human_bytes` shows is a number, a space, and a unit of the table.
pub proof fn law_shown_as_figure_and_unit(bytes: u64)
    ensures
        human_bytes_text(bytes) == shown_figure(bytes) + seq![' '] + unit_name(shown_unit(bytes)),
        shown_unit(bytes) <= 6,
{
    if bytes < 1024 {
        assert(seq![' ', 'B'] =~= seq![' '] + unit_name(0));
        assert(human_bytes_text(bytes) =~= shown_figure(bytes) + seq![' '] + unit_name(shown_unit(bytes)));
    } else {
        let f = nearest_f64(bytes as nat);
        let t = div_round_half_even(f * 10, unit_divisor(unit_index(f)));
        assert(seq!['.', digit_char(t % 10), ' '] + unit_name(unit_index(f)) =~= seq!['.', digit_char(t % 10)]
            + seq![' '] + unit_name(unit_index(f)));
        assert(human_bytes_text(bytes) =~= shown_figure(bytes) + seq![' '] + unit_name(shown_unit(bytes)));
    }
}

/// The number of times `f64_spacing` doubles: the spacing is two to it.
pub open spec fn spacing_exp(b: nat) -> nat
    decreases b,
{
    if b < 0x20_0000_0000_0000 {
        0
    } else {
        1 + spacing_exp(b / 2)
    }
}

proof fn lemma_spacing_shape(b: nat)
    ensures
        f64_spacing(b) == pow2(spacing_exp(b)),
        spacing_exp(b) == 0 ==> b < 0x20_0000_0000_0000,
        spacing_exp(b) > 0 ==> 0x10_0000_0000_0000 * f64_spacing(b) <= b,
        b < 0x20_0000_0000_0000 * f64_spacing(b),
    decreases b,
{
    if b >= 0x20_0000_0000_0000 {
        lemma_spacing_shape(b / 2);
    }
}

proof fn lemma_pow2_grows(i: nat, j: nat)
    requires
        i < j,
    ensures
        2 * pow2(i) <= pow2(j),
    decreases j,
{
    lemma_pow2_positive(i);
    if j > i + 1 {
        lemma_pow2_grows(i, (j - 1) as nat);
    }
}

proof fn lemma_pow2_positive(i: nat)
    ensures
        pow2(i) >= 1,
    decreases i,
{
    if i > 0 {
        lemma_pow2_positive((i - 1) as nat);
    }
}

proof fn lemma_quotient_bounds(n: nat, d: nat, k: nat)
    requires
        d > 0,
    ensures
        n < k * d ==> n / d < k,
        n >= k * d ==> n / d >= k,
{
    vstd::arithmetic::div_mod::lemma_fundamental_div_mod(n as int, d as int);
    let q = n / d;
    let r = n % d;
    assert(n < k * d ==> q < k) by (nonlinear_arith)
        requires
            n == d * q + r,
            0 <= r < d,
    ;
    assert(n >= k * d ==> q >= k) by (nonlinear_arith)
        requires
            n == d * q + r,
            0 <= r < d,
    ;
}

proof fn lemma_round_monotone(n1: nat, n2: nat, d: nat)
    requires
        d > 0,
        n1 <= n2,
    ensures
        div_round_half_even(n1, d) <= div_round_half_even(n2, d),
{
    vstd::arithmetic::div_mod::lemma_fundamental_div_mod(n1 as int, d as int);
    vstd::arithmetic::div_mod::lemma_fundamental_div_mod(n2 as int, d as int);
    let q1 = n1 / d;
    let q2 = n2 / d;
    assert(q1 <= q2) by (nonlinear_arith)
        requires
            n1 == d * q1 + n1 % d,
            n2 == d * q2 + n2 % d,
            0 <= n1 % d < d,
            0 <= n2 % d < d,
            n1 <= n2,
    ;
    if q1 == q2 {
        let r1 = n1 % d;
        let r2 = n2 % d;
        assert(r1 <= r2) by (nonlinear_arith)
            requires
                n1 == d * q1 + r1,
                n2 == d * q2 + r2,
                q1 == q2,
                n1 <= n2,
        ;
    }
}

/// Where `b` has spacing `s`, its value as `f64` lies between `2^52 * s`
/// (when `b` does) and `2^53 * s`.
proof fn lemma_nearest_bounds(b: nat)
    ensures
        nearest_f64(b) <= 0x20_0000_0000_0000 * f64_spacing(b),
        spacing_exp(b) > 0 ==> nearest_f64(b) >= 0x10_0000_0000_0000 * f64_spacing(b),
{
    lemma_spacing_shape(b);
    lemma_spacing_positive(b);
    let s = f64_spacing(b);
    let r = div_round_half_even(b, s);
    lemma_quotient_bounds(b, s, 0x20_0000_0000_0000);
    lemma_quotient_bounds(b, s, 0x10_0000_0000_0000);
    assert(r <= 0x20_0000_0000_0000);
    vstd::arithmetic::mul::lemma_mul_inequality(r as int, 0x20_0000_0000_0000, s as int);
    if spacing_exp(b) > 0 {
        assert(r >= 0x10_0000_0000_0000);
        vstd::arithmetic::mul::lemma_mul_inequality(0x10_0000_0000_0000, r as int, s as int);
    }
}

/// Converting to `f64` keeps order: a larger count never becomes a smaller
/// `f64`.
pub proof fn law_nearest_f64_monotone(a: nat, b: nat)
    requires
        a <= b,
    ensures
        nearest_f64(a) <= nearest_f64(b),
{
    lemma_spacing_shape(a);
    lemma_spacing_shape(b);
    lemma_spacing_positive(a);
    lemma_spacing_positive(b);
    let ea = spacing_exp(a);
    let eb = spacing_exp(b);
    let sa = f64_spacing(a);
    let sb = f64_spacing(b);
    if ea == eb {
        lemma_round_monotone(a, b, sa);
        vstd::arithmetic::mul::lemma_mul_inequality(
            div_round_half_even(a, sa) as int,
            div_round_half_even(b, sb) as int,
            sa as int,
        );
    } else if ea < eb {
        lemma_pow2_grows(ea, eb);
        lemma_nearest_bounds(a);
        lemma_nearest_bounds(b);
    } else {
        lemma_pow2_grows(eb, ea);
        assert(false);
    }
}

/// A larger count is never shown in a smaller unit.
pub proof fn law_larger_count_never_smaller_unit(a: u64, b: u64)
    requires
        a <= b,
    ensures
        shown_unit(a) <= shown_unit(b),
{
    law_nearest_f64_monotone(a as nat, b as nat);
}

proof fn lemma_round_scaled(n: nat, d: nat, c: nat)
    requires
        d > 0,
        c > 0,
    ensures
        div_round_half_even(c * n, c * d) == div_round_half_even(n, d),
{
    vstd::arithmetic::div_mod::lemma_fundamental_div_mod(n as int, d as int);
    let q = n / d;
    let r = n % d;
    assert(c * n == q * (c * d) + c * r && 0 <= c * r < c * d) by (nonlinear_arith)
        requires
            n == d * q + r,
            0 <= r < d,
            c > 0,
    ;
    vstd::arithmetic::div_mod::lemma_fundamental_div_mod_converse((c * n) as int, (c * d) as int, q as int, (c * r) as int);
    assert((2 * (c * r) > c * d) == (2 * r > d)) by (nonlinear_arith)
        requires
            c > 0,
    ;
    assert((2 * (c * r) == c * d) == (2 * r == d)) by (nonlinear_arith)
        requires
            c > 0,
    ;
}

proof fn lemma_nearest_exact(x: nat)
    requires
        x < 0x20_0000_0000_0000,
    ensures
        nearest_f64(x) == x,
{
    assert(f64_spacing(x) == 1);
}

proof fn lemma_nearest_double(x: nat)
    ensures
        nearest_f64(2 * x) == 2 * nearest_f64(x),
{
    if x < 0x10_0000_0000_0000 {
        lemma_nearest_exact(x);
        lemma_nearest_exact(2 * x);
    } else {
        let s = f64_spacing(x);
        lemma_spacing_positive(x);
        assert((2 * x) / 2 == x);
        assert(f64_spacing(2 * x) == 2 * s);
        lemma_round_scaled(x, s, 2);
        let r = div_round_half_even(x, s);
        assert(r * (2 * s) == 2 * (r * s)) by (nonlinear_arith);
    }
}

proof fn lemma_nearest_times_pow2(x: nat, k: nat)
    ensures
        nearest_f64(pow2(k) * x) == pow2(k) * nearest_f64(x),
    decreases k,
{
    if k == 0 {
        assert(pow2(0) == 1);
        assert(1 * x == x);
        assert(1 * nearest_f64(x) == nearest_f64(x));
    } else {
        let k1 = (k - 1) as nat;
        lemma_nearest_times_pow2(x, k1);
        assert(pow2(k) * x == 2 * (pow2(k1) * x)) by (nonlinear_arith)
            requires
                pow2(k) == 2 * pow2(k1),
        ;
        lemma_nearest_double(pow2(k1) * x);
        assert(pow2(k) * nearest_f64(x) == 2 * (pow2(k1) * nearest_f64(x))) by (nonlinear_arith)
            requires
                pow2(k) == 2 * pow2(k1),
        ;
    }
}

/// Multiplying a count by 1024 keeps the number shown and moves it one unit
/// up (a count of whole bytes becomes that many KiB, with `.0`).
pub proof fn law_times_1024_moves_one_unit_up(b: u64)
    requires
        1 <= b,
        b <= u64::MAX / 1024,
    ensures
        shown_unit((b * 1024) as u64) == shown_unit(b) + 1,
        shown_figure((b * 1024) as u64) == if b < 1024 {
            decimal(b as nat) + seq!['.', '0']
        } else {
            shown_figure(b)
        },
{
    let big = (b * 1024) as u64;
    assert(pow2(10) == 1024) by {
        reveal_with_fuel(pow2, 11);
    }
    lemma_nearest_times_pow2(b as nat, 10);
    let f = nearest_f64(b as nat);
    assert(nearest_f64(big as nat) == 1024 * f);
    if b < 1024 {
        lemma_nearest_exact(b as nat);
        let n = 1024 * f * 10;
        vstd::arithmetic::div_mod::lemma_fundamental_div_mod_converse(n as int, 1024, (10 * b) as int, 0);
        assert(div_round_half_even(n, 1024) == 10 * b);
        assert((10 * b) / 10 == b);
        assert((10 * b) % 10 == 0);
    } else {
        law_nearest_f64_monotone(1024, b as nat);
        lemma_nearest_exact(1024);
        law_nearest_f64_monotone(b as nat, 0x40_0000_0000_0000);
        lemma_nearest_exact(0x10_0000_0000_0000);
        assert(pow2(2) == 4) by {
            reveal_with_fuel(pow2, 3);
        }
        lemma_nearest_times_pow2(0x10_0000_0000_0000, 2);
        assert(f <= 0x40_0000_0000_0000);
        let u = unit_index(f);
        assert(unit_index(1024 * f) == u + 1);
        assert(unit_divisor(u + 1) == 1024 * unit_divisor(u));
        lemma_round_scaled(f * 10, unit_divisor(u), 1024);
        assert(1024 * f * 10 == 1024 * (f * 10));
    }
}


/// The digit a decimal character stands for.
pub open spec fn digit_value(c: char) -> nat {
    if c == '1' { 1 }
    else if c == '2' { 2 }
    else if c == '3' { 3 }
    else if c == '4' { 4 }
    else if c == '5' { 5 }
    else if c == '6' { 6 }
    else if c == '7' { 7 }
    else if c == '8' { 8 }
    else if c == '9' { 9 }
    else { 0 }
}

/// The number a string of decimal digits reads as.
pub open spec fn read_decimal(s: Seq<char>) -> nat
    decreases s.len(),
{
    if s.len() == 0 {
        0
    } else {
        read_decimal(s.drop_last()) * 10 + digit_value(s.last())
    }
}

/// `decimal(n)` is a string of digits that reads back as `n`, with no
/// leading zero unless `n` is zero.
pub proof fn law_decimal_reads_back(n: nat)
    ensures
        read_decimal(decimal(n)) == n,
        decimal(n).len() >= 1,
        n > 0 ==> decimal(n)[0] != '0',
        forall|i: int| 0 <= i < decimal(n).len() ==> '0' <= #[trigger] decimal(n)[i] <= '9',
    decreases n,
{
    if n < 10 {
        assert(decimal(n).drop_last() =~= Seq::<char>::empty());
        assert(read_decimal(Seq::<char>::empty()) == 0);
        assert(digit_value(digit_char(n)) == n);
        assert(read_decimal(decimal(n)) == read_decimal(decimal(n).drop_last()) * 10 + digit_value(decimal(n).last()));
    } else {
        law_decimal_reads_back(n / 10);
        assert(decimal(n).drop_last() =~= decimal(n / 10));
        assert(digit_value(digit_char(n % 10)) == n % 10);
        assert(read_decimal(decimal(n)) == read_decimal(decimal(n / 10)) * 10 + n % 10);
        assert forall|i: int| 0 <= i < decimal(n).len() implies '0' <= #[trigger] decimal(n)[i] <= '9' by {
            if i < decimal(n / 10).len() {
                assert(decimal(n)[i] == decimal(n / 10)[i]);
            }
        }
    }
}

} // verus!
