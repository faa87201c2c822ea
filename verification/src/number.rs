//! Numbers, truth values and addresses written as text.
use vstd::arithmetic::power::pow;
use vstd::prelude::*;

use crate::text;

verus! {

/// The value of `c` as a digit to the base `radix`.
pub open spec fn digit(c: char, radix: nat) -> Option<nat> {
    let v: int = if '0' <= c && c <= '9' {
        c as int - '0' as int
    } else if 'a' <= c && c <= 'z' {
        c as int - 'a' as int + 10
    } else if 'A' <= c && c <= 'Z' {
        c as int - 'A' as int + 10
    } else {
        radix as int
    };
    if v < radix {
        Some(v as nat)
    } else {
        None
    }
}

/// The number that the digits `s` write, if all of `s` are digits.
pub open spec fn digits_value(s: Seq<char>, radix: nat) -> Option<nat>
    decreases s.len(),
{
    if s.len() == 0 {
        Some(0)
    } else {
        match (digits_value(s.drop_last(), radix), digit(s.last(), radix)) {
            (Some(high), Some(low)) => Some(high * radix + low),
            _ => None,
        }
    }
}

/// The number that `s`, a `+` or nothing and then digits, writes, if it is at
/// most `max`.
pub open spec fn unsigned(s: Seq<char>, radix: nat, max: nat) -> Option<nat> {
    let digits = if s.len() > 1 && s[0] == '+' {
        s.skip(1)
    } else {
        s
    };
    match digits_value(digits, radix) {
        Some(v) if digits.len() > 0 && v <= max => Some(v),
        _ => None,
    }
}

/// The decimal number that `s`, a sign or nothing and then digits, writes, if
/// an `i32` can hold it.
pub open spec fn signed(s: Seq<char>) -> Option<int> {
    if s.len() > 1 && s[0] == '-' {
        match digits_value(s.skip(1), 10) {
            Some(v) if v <= 0x8000_0000 => Some(-(v as int)),
            _ => None,
        }
    } else {
        match unsigned(s, 10, i32::MAX as nat) {
            Some(v) => Some(v as int),
            None => None,
        }
    }
}

/// The truth value that `s` names.
pub open spec fn boolean(s: Seq<char>) -> Option<bool> {
    if s == "true"@ {
        Some(true)
    } else if s == "false"@ {
        Some(false)
    } else {
        None
    }
}

/// A decimal number up to 255, of at most three digits and without a zero in
/// front.
pub open spec fn octet(s: Seq<char>) -> Option<nat> {
    match digits_value(s, 10) {
        Some(v) if 1 <= s.len() <= 3 && (s.len() == 1 || s[0] != '0') && v <= 255 => Some(v),
        _ => None,
    }
}

/// An address of four octets with dots between them.
pub open spec fn ipv4(s: Seq<char>) -> Option<Seq<u8>> {
    let parts = text::pieces(s, '.');
    if parts.len() == 4 && (forall|i: int| 0 <= i < 4 ==> octet(#[trigger] parts[i]) is Some) {
        Some(Seq::new(4, |i: int| octet(parts[i])->0 as u8))
    } else {
        None
    }
}

/// The decimal digits of `n`, without zeros in front.
pub open spec fn decimal(n: nat) -> Seq<char>
    decreases n,
{
    let low = ('0' as int + n % 10) as char;
    if n < 10 {
        seq![low]
    } else {
        decimal(n / 10).push(low)
    }
}

proof fn lemma_digits_grow(s: Seq<char>, radix: nat, i: int)
    requires
        0 <= i <= s.len(),
        radix >= 1,
        digits_value(s, radix) is Some,
    ensures
        digits_value(s.take(i), radix) is Some,
        digits_value(s.take(i), radix)->0 <= digits_value(s, radix)->0,
    decreases s.len() - i,
{
    if i < s.len() {
        lemma_digits_grow(s, radix, i + 1);
        let longer = s.take(i + 1);
        assert(longer.drop_last() =~= s.take(i));
        let high = digits_value(s.take(i), radix)->0;
        assert(high <= high * radix) by (nonlinear_arith)
            requires
                radix >= 1,
                high >= 0,
        ;
    } else {
        assert(s.take(i) =~= s);
    }
}

/// Writing a number in decimal and reading it gives the number back.
pub proof fn lemma_decimal_reads_back(n: nat, max: nat)
    requires
        n <= max,
    ensures
        digits_value(decimal(n), 10) == Some(n),
        unsigned(decimal(n), 10, max) == Some(n),
    decreases n,
{
    if n >= 10 {
        lemma_decimal_reads_back(n / 10, max);
        assert(decimal(n).drop_last() =~= decimal(n / 10));
    } else {
        assert(decimal(n).drop_last() =~= Seq::empty());
    }
    assert(digits_value(decimal(n).drop_last(), 10) == Some(n / 10));
    assert(digit(decimal(n).last(), 10) == Some((n % 10) as nat));
    lemma_decimal_starts_with_digit(n);
}

proof fn lemma_decimal_starts_with_digit(n: nat)
    ensures
        decimal(n).len() > 0,
        '0' <= decimal(n)[0] <= '9',
    decreases n,
{
    if n >= 10 {
        lemma_decimal_starts_with_digit(n / 10);
    }
}

/// The digits are the ten figures and the letters behind them, in either case,
/// as far as the base goes.
pub proof fn lemma_digits_are_figures_and_letters(c: char, radix: nat, v: nat)
    requires
        2 <= radix <= 36,
        v < radix,
    ensures
        digit(c, radix) == Some(v) <==> if v < 10 {
            c as int == 0x30 + v
        } else {
            c as int == 0x61 + v - 10 || c as int == 0x41 + v - 10
        },
{
}

/// Text writes a number exactly if all its characters are digits.
pub proof fn lemma_numbers_consist_of_digits(s: Seq<char>, radix: nat)
    ensures
        digits_value(s, radix) is Some <==> forall|i: int|
            0 <= i < s.len() ==> digit(#[trigger] s[i], radix) is Some,
    decreases s.len(),
{
    if s.len() > 0 {
        lemma_numbers_consist_of_digits(s.drop_last(), radix);
        if digits_value(s, radix) is Some {
            assert forall|i: int| 0 <= i < s.len() implies digit(
                #[trigger] s[i],
                radix,
            ) is Some by {
                if i < s.len() - 1 {
                    assert(s.drop_last()[i] == s[i]);
                }
            }
        } else if forall|i: int| 0 <= i < s.len() ==> digit(#[trigger] s[i], radix) is Some {
            assert forall|i: int| 0 <= i < s.len() - 1 implies digit(
                #[trigger] s.drop_last()[i],
                radix,
            ) is Some by {
                assert(s.drop_last()[i] == s[i]);
            }
            assert(digit(s[s.len() - 1], radix) is Some);
        }
    }
}

/// Where digits stand decides what they count: with `b` behind them, the
/// digits `a` count as many times more as `b` has places.
pub proof fn lemma_places_count(a: Seq<char>, b: Seq<char>, radix: nat)
    requires
        digits_value(a, radix) is Some,
        digits_value(b, radix) is Some,
    ensures
        digits_value(a + b, radix) is Some,
        digits_value(a + b, radix)->0 == digits_value(a, radix)->0 * pow(radix as int, b.len())
            + digits_value(b, radix)->0,
    decreases b.len(),
{
    let r = radix as int;
    let x = digits_value(a, radix)->0 as int;
    reveal(pow);
    if b.len() == 0 {
        assert(a + b =~= a);
        assert(pow(r, 0) == 1);
    } else {
        let short = b.drop_last();
        lemma_places_count(a, short, radix);
        assert((a + b).drop_last() =~= a + short);
        let p = pow(r, short.len());
        let y = digits_value(short, radix)->0 as int;
        let d = digit(b.last(), radix)->0 as int;
        assert(pow(r, b.len()) == r * p);
        assert((x * p + y) * r + d == x * (r * p) + (y * r + d)) by (nonlinear_arith);
    }
}

/// A number is read exactly if there is a digit, there is nothing but digits,
/// and it is not too large. A `+` in front of the digits changes nothing.
pub proof fn lemma_unsigned_numbers(s: Seq<char>, radix: nat, max: nat, digits: Seq<char>)
    requires
        2 <= radix <= 36,
        digits == if s.len() > 1 && s[0] == '+' {
            s.skip(1)
        } else {
            s
        },
    ensures
        unsigned(s, radix, max) is Some <==> digits.len() > 0 && (forall|i: int|
            0 <= i < digits.len() ==> digit(#[trigger] digits[i], radix) is Some)
            && digits_value(digits, radix)->0 <= max,
        unsigned(s, radix, max) matches Some(v) ==> v <= max && digits_value(digits, radix) == Some(
            v,
        ),
        s.len() > 0 && s[0] != '+' ==> unsigned(seq!['+'] + s, radix, max) == unsigned(
            s,
            radix,
            max,
        ),
{
    lemma_numbers_consist_of_digits(digits, radix);
    assert((seq!['+'] + s).skip(1) =~= s);
}

/// A minus turns the number that is read around, as far as an `i32` goes, and
/// without one it is read as any other.
pub proof fn lemma_signed_numbers(s: Seq<char>, v: nat)
    requires
        s.len() > 0,
        digits_value(s, 10) == Some(v),
    ensures
        v <= 0x8000_0000 ==> signed(seq!['-'] + s) == Some(-(v as int)),
        v > 0x8000_0000 ==> signed(seq!['-'] + s) is None,
        v <= 0x7fff_ffff ==> signed(s) == Some(v as int) && signed(seq!['+'] + s) == Some(v as int),
        v > 0x7fff_ffff ==> signed(s) is None && signed(seq!['+'] + s) is None,
{
    lemma_numbers_consist_of_digits(s, 10);
    assert(digit(s[0], 10) is Some);
    assert((seq!['-'] + s).skip(1) =~= s);
    assert((seq!['+'] + s).skip(1) =~= s);
}

proof fn lemma_canonical_digits(s: Seq<char>)
    requires
        s.len() > 0,
        digits_value(s, 10) is Some,
        s.len() > 1 ==> s[0] != '0',
    ensures
        decimal(digits_value(s, 10)->0) == s,
        s.len() > 1 ==> digits_value(s, 10)->0 >= 10,
    decreases s.len(),
{
    let short = s.drop_last();
    let low = digit(s.last(), 10)->0;
    let v = digits_value(s, 10)->0;
    if s.len() == 1 {
        assert(short =~= Seq::empty());
        assert(digits_value(short, 10) == Some(0nat));
        assert(v == low);
        assert(decimal(v) =~= s);
    } else {
        lemma_canonical_digits(short);
        let high = digits_value(short, 10)->0;
        if s.len() == 2 {
            assert(short.drop_last() =~= Seq::empty());
            assert(digits_value(short.drop_last(), 10) == Some(0nat));
            assert(short.last() == s[0]);
            assert(digit(s[0], 10) == Some(high));
            assert(high >= 1);
        }
        assert(v == high * 10 + low);
        assert(v / 10 == high && v % 10 == low);
        assert(decimal(v) =~= short.push(s.last()));
        assert(short.push(s.last()) =~= s);
    }
}

proof fn lemma_octet_text(n: nat)
    requires
        n <= 255,
    ensures
        octet(decimal(n)) == Some(n),
        !decimal(n).contains('.'),
{
    reveal_with_fuel(decimal, 4);
    lemma_decimal_reads_back(n, 255);
    let s = decimal(n);
    lemma_numbers_consist_of_digits(s, 10);
    assert(1 <= s.len() <= 3);
    if s.contains('.') {
        let i = choose|i: int| 0 <= i < s.len() && s[i] == '.';
        assert(digit(s[i], 10) is Some);
    }
}

/// The address with these four numbers, as it is written: in decimal, with
/// dots between them.
pub open spec fn dotted(a: u8, b: u8, c: u8, d: u8) -> Seq<char> {
    decimal(a as nat) + seq!['.'] + (decimal(b as nat) + seq!['.'] + (decimal(c as nat) + seq!['.']
        + decimal(d as nat)))
}

/// An address is read exactly from the text that it is written as.
pub proof fn lemma_address_reads_back(a: u8, b: u8, c: u8, d: u8)
    ensures
        ipv4(dotted(a, b, c, d)) == Some(seq![a, b, c, d]),
{
    let (x, y, z, w) = (
        decimal(a as nat),
        decimal(b as nat),
        decimal(c as nat),
        decimal(d as nat),
    );
    lemma_octet_text(a as nat);
    lemma_octet_text(b as nat);
    lemma_octet_text(c as nat);
    lemma_octet_text(d as nat);
    let last = z + seq!['.'] + w;
    let tail = y + seq!['.'] + last;
    text::lemma_pieces_of_two_texts(x, tail, '.');
    text::lemma_pieces_of_two_texts(y, last, '.');
    text::lemma_pieces_of_two_texts(z, w, '.');
    text::lemma_pieces_of_two_texts(w, w, '.');
    let parts = text::pieces(dotted(a, b, c, d), '.');
    assert(parts =~= seq![x, y, z, w]);
    assert(ipv4(dotted(a, b, c, d))->0 =~= seq![a, b, c, d]);
}

/// Text that is read as an address is the address as it is written: nothing
/// else is taken for one.
pub proof fn lemma_only_addresses_are_read(s: Seq<char>)
    requires
        ipv4(s) is Some,
    ensures
        ipv4(s)->0.len() == 4,
        s == dotted(ipv4(s)->0[0], ipv4(s)->0[1], ipv4(s)->0[2], ipv4(s)->0[3]),
{
    let parts = text::pieces(s, '.');
    text::lemma_pieces_join(s, '.');
    assert(octet(parts[0]) is Some && octet(parts[1]) is Some && octet(parts[2]) is Some && octet(
        parts[3],
    ) is Some);
    lemma_canonical_digits(parts[0]);
    lemma_canonical_digits(parts[1]);
    lemma_canonical_digits(parts[2]);
    lemma_canonical_digits(parts[3]);
    reveal_with_fuel(text::joined, 5);
    assert(parts.skip(1)[0] == parts[1] && parts.skip(1).skip(1)[0] == parts[2] && parts.skip(
        1,
    ).skip(1).skip(1)[0] == parts[3]);
    assert(text::joined(parts, '.') =~= parts[0] + seq!['.'] + (parts[1] + seq!['.'] + (parts[2]
        + seq!['.'] + parts[3])));
}

/// The two truth values have a name each, and nothing else names one.
pub proof fn lemma_truth_values_have_names(s: Seq<char>)
    ensures
        boolean(s) == Some(true) <==> s == seq!['t', 'r', 'u', 'e'],
        boolean(s) == Some(false) <==> s == seq!['f', 'a', 'l', 's', 'e'],
{
    reveal_strlit("true");
    reveal_strlit("false");
    assert("true"@ =~= seq!['t', 'r', 'u', 'e']);
    assert("false"@ =~= seq!['f', 'a', 'l', 's', 'e']);
    assert("true"@.len() == 4 && "false"@.len() == 5);
}

/// A number below zero is written with a minus in front of what it would be
/// without its sign, and any other like a number without a sign.
pub proof fn lemma_sign_is_written_in_front(n: i32)
    ensures
        n < 0 ==> signed_decimal(n as int) == seq!['-'] + decimal((-n) as nat),
        n >= 0 ==> signed_decimal(n as int) == decimal(n as nat),
{
    reveal_strlit("-");
    assert("-"@ =~= seq!['-']);
}

fn digit_of(c: char, radix: u32) -> (r: Option<u32>)
    requires
        2 <= radix <= 36,
    ensures
        match r {
            Some(d) => digit(c, radix as nat) == Some(d as nat) && d < radix,
            None => digit(c, radix as nat) is None,
        },
{
    let v: u32 = if '0' <= c && c <= '9' {
        c as u32 - '0' as u32
    } else if 'a' <= c && c <= 'z' {
        c as u32 - 'a' as u32 + 10
    } else if 'A' <= c && c <= 'Z' {
        c as u32 - 'A' as u32 + 10
    } else {
        radix
    };
    if v < radix {
        Some(v)
    } else {
        None
    }
}

/// Reads `s[from..]` as digits to the base `radix`.
fn parse_digits(s: &str, from: usize, radix: u32, max: u64) -> (r: Option<u64>)
    requires
        from <= s@.len(),
        2 <= radix <= 36,
    ensures
        match r {
            Some(v) => v <= max && digits_value(s@.skip(from as int), radix as nat) == Some(
                v as nat,
            ),
            None => match digits_value(s@.skip(from as int), radix as nat) {
                Some(v) => v > max,
                None => true,
            },
        },
{
    let ghost digits = s@.skip(from as int);
    let n: usize = s.unicode_len();
    let mut value: u64 = 0;
    let mut i: usize = 0;
    assert(digits.take(0) =~= Seq::empty());
    for c in it: s.chars()
        invariant
            it.seq() == s@,
            i == it.index(),
            n == s@.len(),
            i <= n,
            from <= n,
            2 <= radix <= 36,
            digits == s@.skip(from as int),
            i <= from ==> value == 0,
            value <= max || i <= from,
            i > from ==> digits_value(digits.take(i - from), radix as nat) == Some(value as nat),
    {
        if i >= from {
            proof {
                if i == from {
                    assert(digits.take(0) =~= Seq::empty());
                }
                assert(digits.take(i - from + 1).drop_last() =~= digits.take(i - from));
                assert(digits.take(i - from + 1).last() == c);
                if digits_value(digits, radix as nat) is Some {
                    lemma_digits_grow(digits, radix as nat, i - from + 1);
                }
            }
            let low = match digit_of(c, radix) {
                Some(d) => d,
                None => {
                    return None;
                },
            };
            assert(value as u128 * radix as u128 <= u64::MAX * 36) by (nonlinear_arith)
                requires
                    value <= u64::MAX,
                    radix <= 36,
            ;
            let wide: u128 = (value as u128) * (radix as u128);
            let next: u128 = wide + low as u128;
            assert(next == value as nat * radix as nat + low as nat);
            if next > max as u128 {
                return None;
            }
            value = next as u64;
        }
        i += 1;
    }
    assert(digits.take(digits.len() as int) =~= digits);
    if i == from {
        assert(digits =~= Seq::empty());
    }
    Some(value)
}

/// Reads an unsigned number to the base `radix`, with or without a `+` in front.
pub fn parse_unsigned(s: &str, radix: u32, max: u64) -> (r: Option<u64>)
    requires
        2 <= radix <= 36,
    ensures
        match r {
            Some(v) => unsigned(s@, radix as nat, max as nat) == Some(v as nat),
            None => unsigned(s@, radix as nat, max as nat) is None,
        },
{
    let n: usize = s.unicode_len();
    if n == 0 {
        return None;
    }
    if n > 1 && s.get_char(0) == '+' {
        parse_digits(s, 1, radix, max)
    } else {
        assert(s@.skip(0) =~= s@);
        parse_digits(s, 0, radix, max)
    }
}

/// Reads a `u32` to the base `radix`.
pub fn parse_u32(s: &str, radix: u32) -> (r: Option<u32>)
    requires
        2 <= radix <= 36,
    ensures
        match r {
            Some(v) => unsigned(s@, radix as nat, u32::MAX as nat) == Some(v as nat),
            None => unsigned(s@, radix as nat, u32::MAX as nat) is None,
        },
{
    match parse_unsigned(s, radix, u32::MAX as u64) {
        Some(v) => Some(v as u32),
        None => None,
    }
}

/// Reads a decimal `i32`, with or without a sign in front.
pub fn parse_i32(s: &str) -> (r: Option<i32>)
    ensures
        match r {
            Some(v) => signed(s@) == Some(v as int),
            None => signed(s@) is None,
        },
{
    let n: usize = s.unicode_len();
    if n > 1 && s.get_char(0) == '-' {
        match parse_digits(s, 1, 10, 0x8000_0000) {
            Some(v) => Some((0i64 - v as i64) as i32),
            None => None,
        }
    } else {
        match parse_unsigned(s, 10, 0x7fff_ffff) {
            Some(v) => Some(v as i32),
            None => None,
        }
    }
}

/// Reads `true` or `false`.
pub fn parse_bool(s: &str) -> (r: Option<bool>)
    ensures
        r == boolean(s@),
{
    if text::same(s, "true") {
        Some(true)
    } else if text::same(s, "false") {
        Some(false)
    } else {
        None
    }
}

fn parse_octet(s: &str) -> (r: Option<u8>)
    ensures
        match r {
            Some(v) => octet(s@) == Some(v as nat),
            None => octet(s@) is None,
        },
{
    let n: usize = s.unicode_len();
    if n == 0 || n > 3 || (n > 1 && s.get_char(0) == '0') {
        return None;
    }
    assert(s@.skip(0) =~= s@);
    match parse_digits(s, 0, 10, 255) {
        Some(v) => Some(v as u8),
        None => None,
    }
}

/// Reads an address of the form `x.x.x.x`.
pub fn parse_ipv4(s: &str) -> (r: Option<[u8; 4]>)
    ensures
        match r {
            Some(a) => ipv4(s@) == Some(a@),
            None => ipv4(s@) is None,
        },
{
    let parts = text::split(s, '.');
    assert(text::texts(parts@).len() == parts@.len());
    let ghost all = text::pieces(s@, '.');
    if parts.len() != 4 {
        return None;
    }
    assert(all[0] == parts@[0]@ && all[1] == parts@[1]@ && all[2] == parts@[2]@ && all[3]
        == parts@[3]@);
    match (
        parse_octet(parts[0]),
        parse_octet(parts[1]),
        parse_octet(parts[2]),
        parse_octet(parts[3]),
    ) {
        (Some(a), Some(b), Some(c), Some(d)) => {
            let address = [a, b, c, d];
            assert(address@ =~= ipv4(s@)->0);
            Some(address)
        },
        _ => None,
    }
}

fn digit_text(d: u8) -> (r: &'static str)
    requires
        d < 10,
    ensures
        r@ == seq![('0' as int + d as int) as char],
{
    let text = match d {
        0 => "0",
        1 => "1",
        2 => "2",
        3 => "3",
        4 => "4",
        5 => "5",
        6 => "6",
        7 => "7",
        8 => "8",
        _ => "9",
    };
    proof {
        reveal_strlit("0");
        reveal_strlit("1");
        reveal_strlit("2");
        reveal_strlit("3");
        reveal_strlit("4");
        reveal_strlit("5");
        reveal_strlit("6");
        reveal_strlit("7");
        reveal_strlit("8");
        reveal_strlit("9");
        assert(text@ =~= seq![('0' as int + d as int) as char]);
    }
    text
}

/// Writes `n` in decimal.
pub fn write_decimal(n: u32) -> (r: String)
    ensures
        r@ == decimal(n as nat),
    decreases n,
{
    let low: u8 = (n % 10) as u8;
    if n < 10 {
        digit_text(low).to_owned()
    } else {
        let high = write_decimal(n / 10);
        let r = text::concat(high.as_str(), digit_text(low));
        assert(r@ =~= decimal(n as nat));
        r
    }
}

/// The text of `n` in decimal, with a `-` in front if it is less than zero.
pub open spec fn signed_decimal(n: int) -> Seq<char> {
    if n < 0 {
        "-"@ + decimal((-n) as nat)
    } else {
        decimal(n as nat)
    }
}

/// Writing a number with its sign and reading it gives the number back.
pub proof fn lemma_signed_decimal_reads_back(n: i32)
    ensures
        signed(signed_decimal(n as int)) == Some(n as int),
{
    if n < 0 {
        reveal_strlit("-");
        let digits = decimal((-n) as nat);
        assert(signed_decimal(n as int).skip(1) =~= digits);
        lemma_decimal_reads_back((-n) as nat, (-n) as nat);
        lemma_decimal_starts_with_digit((-n) as nat);
    } else {
        lemma_decimal_reads_back(n as nat, i32::MAX as nat);
        lemma_decimal_starts_with_digit(n as nat);
    }
}

/// Writes `n` in decimal, with its sign.
pub fn write_signed(n: i32) -> (r: String)
    ensures
        r@ == signed_decimal(n as int),
{
    if n < 0 {
        let digits = write_decimal((0 - n as i64) as u32);
        text::concat("-", digits.as_str())
    } else {
        write_decimal(n as u32)
    }
}

} // verus!
