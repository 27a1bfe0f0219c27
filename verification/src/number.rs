//! Numbers as text: decimal and hexadecimal notation, and reading it back.
use vstd::prelude::*;

verus! {

/// The decimal digit for `d`, below ten.
pub open spec fn digit_char(d: nat) -> char {
    (0x30 + d) as char
}

/// `n` in decimal notation, without leading zeros.
pub open spec fn decimal(n: nat) -> Seq<char>
    decreases n,
{
    if n < 10 {
        seq![digit_char(n)]
    } else {
        decimal(n / 10).push(digit_char(n % 10))
    }
}

/// `n` in decimal notation, with a minus sign where it is negative.
pub open spec fn signed_decimal(n: int) -> Seq<char> {
    if n < 0 {
        seq!['-'] + decimal((-n) as nat)
    } else {
        decimal(n as nat)
    }
}

/// Every character is one of `0` to `9`.
pub open spec fn all_digits(s: Seq<char>) -> bool {
    forall|i: int| 0 <= i < s.len() ==> '0' <= #[trigger] s[i] <= '9'
}

/// What a row of decimal digits stands for.
pub open spec fn digits_value(s: Seq<char>) -> nat
    decreases s.len(),
{
    if s.len() == 0 {
        0
    } else {
        digits_value(s.drop_last()) * 10 + (s.last() as nat - '0' as nat) as nat
    }
}

/// A non-empty row of digits that stands for `max` at most.
pub open spec fn read_digits(s: Seq<char>, max: nat) -> Option<nat> {
    if s.len() > 0 && all_digits(s) && digits_value(s) <= max {
        Some(digits_value(s))
    } else {
        None
    }
}

/// An unsigned number of `max` at most: digits, with or without a plus sign in front.
pub open spec fn read_unsigned(s: Seq<char>, max: nat) -> Option<nat> {
    if s.len() > 0 && s[0] == '+' {
        read_digits(s.skip(1), max)
    } else {
        read_digits(s, max)
    }
}

/// A signed 64-bit number: digits, with or without a sign in front.
pub open spec fn read_signed(s: Seq<char>) -> Option<int> {
    if s.len() > 0 && s[0] == '-' {
        match read_digits(s.skip(1), 0x8000_0000_0000_0000) {
            Some(n) => Some(-(n as int)),
            None => None,
        }
    } else {
        match read_unsigned(s, 0x7fff_ffff_ffff_ffff) {
            Some(n) => Some(n as int),
            None => None,
        }
    }
}

/// The lower-case hexadecimal digit for `d`, below sixteen.
pub open spec fn hex_digit(d: nat) -> char {
    if d < 10 {
        (0x30 + d) as char
    } else {
        (0x57 + d) as char
    }
}

/// Two hexadecimal digits for each byte.
pub open spec fn hex(bytes: Seq<u8>) -> Seq<char> {
    Seq::new(
        bytes.len() * 2,
        |i: int|
            hex_digit(
                if i % 2 == 0 {
                    bytes[i / 2] as nat / 16
                } else {
                    bytes[i / 2] as nat % 16
                },
            ),
    )
}

/// A row of digits stands for no less than any row that it continues.
pub proof fn lemma_digits_value_grows(s: Seq<char>, k: int)
    requires
        all_digits(s),
        0 <= k <= s.len(),
    ensures
        digits_value(s.take(k)) <= digits_value(s),
    decreases s.len(),
{
    if k == s.len() {
        assert(s.take(k) =~= s);
    } else {
        let t = s.drop_last();
        assert(all_digits(t)) by {
            assert forall|i: int| 0 <= i < t.len() implies '0' <= #[trigger] t[i] <= '9' by {
                assert(t[i] == s[i]);
            }
        }
        lemma_digits_value_grows(t, k);
        assert(t.take(k) =~= s.take(k));
        assert('0' <= s[s.len() - 1] <= '9');
    }
}

/// Decimal notation is a row of digits that stands for the number, and reads back as it.
pub proof fn lemma_decimal(n: nat)
    ensures
        decimal(n).len() > 0,
        all_digits(decimal(n)),
        digits_value(decimal(n)) == n,
        forall|max: nat| n <= max ==> #[trigger] read_unsigned(decimal(n), max) == Some(n),
    decreases n,
{
    let s = decimal(n);
    if n < 10 {
        assert(s.drop_last() =~= Seq::empty());
        assert(s.last() == digit_char(n));
        assert(digits_value(s.drop_last()) == 0);
    } else {
        lemma_decimal(n / 10);
        assert(s.drop_last() =~= decimal(n / 10));
        assert(s.last() == digit_char(n % 10));
        assert forall|i: int| 0 <= i < s.len() implies '0' <= #[trigger] s[i] <= '9' by {
            if i < s.len() - 1 {
                assert(s[i] == decimal(n / 10)[i]);
            }
        }
    }
    assert('0' <= s[0] <= '9');
}

/// Writes a number down in decimal notation.
pub fn write_decimal(n: u128) -> (res: String)
    ensures
        res@ == decimal(n as nat),
    decreases n,
{
    if n < 10 {
        let mut s = String::new();
        s.push((48u8 + n as u8) as char);
        assert(s@ =~= seq![digit_char(n as nat)]);
        s
    } else {
        let mut s = write_decimal(n / 10);
        s.push((48u8 + (n % 10) as u8) as char);
        s
    }
}

/// Writes a signed number down in decimal notation.
pub fn write_signed(n: i64) -> (res: String)
    ensures
        res@ == signed_decimal(n as int),
{
    if n < 0 {
        let mut s = String::new();
        s.push('-');
        let m: i128 = -(n as i128);
        let tail = write_decimal(m as u128);
        s.append(tail.as_str());
        assert(s@ =~= seq!['-'] + decimal((-n) as nat));
        s
    } else {
        write_decimal(n as u128)
    }
}

/// Reads the digits at `from..to`.
fn digits_at(cs: &Vec<char>, from: usize, to: usize) -> (res: Option<u64>)
    requires
        from <= to <= cs@.len(),
    ensures
        res == match read_digits(cs@.subrange(from as int, to as int), u64::MAX as nat) {
            Some(n) => Some(n as u64),
            None => None::<u64>,
        },
{
    let ghost all = cs@.subrange(from as int, to as int);
    if from == to {
        return None;
    }
    let mut value: u64 = 0;
    let mut i: usize = from;
    assert(all.take(0) =~= Seq::<char>::empty());
    while i < to
        invariant
            from <= i <= to <= cs@.len(),
            all == cs@.subrange(from as int, to as int),
            all_digits(all.take(i - from)),
            value == digits_value(all.take(i - from)),
        decreases to - i,
    {
        let c = cs[i];
        let ghost k = i - from;
        assert(all[k] == c);
        if !('0' <= c && c <= '9') {
            assert(!all_digits(all));
            return None;
        }
        let d: u64 = (c as u32 - 48) as u64;
        proof {
            let next = all.take(k + 1);
            assert(next.drop_last() =~= all.take(k));
            assert(next.last() == c);
            assert(all_digits(next)) by {
                assert forall|j: int| 0 <= j < next.len() implies '0' <= #[trigger] next[j]
                    <= '9' by {
                    if j < k {
                        assert(next[j] == all.take(k)[j]);
                    }
                }
            }
            if value * 10 + d > u64::MAX && all_digits(all) {
                lemma_digits_value_grows(all, k + 1);
            }
        }
        if value > u64::MAX / 10 {
            return None;
        }
        let tens: u64 = value * 10;
        if d > u64::MAX - tens {
            return None;
        }
        value = tens + d;
        i += 1;
    }
    assert(all.take(i - from) =~= all);
    Some(value)
}

/// Reads the unsigned 64-bit number that the characters `from..to` write down.
pub fn read_u64_at(cs: &Vec<char>, from: usize, to: usize) -> (res: Option<u64>)
    requires
        from <= to <= cs@.len(),
    ensures
        res == match read_unsigned(cs@.subrange(from as int, to as int), u64::MAX as nat) {
            Some(n) => Some(n as u64),
            None => None::<u64>,
        },
{
    let ghost all = cs@.subrange(from as int, to as int);
    if from < to && cs[from] == '+' {
        assert(all[0] == cs@[from as int]);
        assert(all.skip(1) =~= cs@.subrange(from + 1, to as int));
        digits_at(cs, from + 1, to)
    } else {
        if from < to {
            assert(all[0] == cs@[from as int]);
        }
        digits_at(cs, from, to)
    }
}

/// Reads the unsigned 64-bit number that `s` writes down.
pub fn read_u64(s: &str) -> (res: Option<u64>)
    ensures
        res == match read_unsigned(s@, u64::MAX as nat) {
            Some(n) => Some(n as u64),
            None => None::<u64>,
        },
{
    let cs = crate::text::chars_of(s);
    assert(cs@.subrange(0, cs@.len() as int) =~= s@);
    read_u64_at(&cs, 0, cs.len())
}

/// Reads the signed 64-bit number that `s` writes down.
pub fn read_i64(s: &str) -> (res: Option<i64>)
    ensures
        res == match read_signed(s@) {
            Some(n) => Some(n as i64),
            None => None::<i64>,
        },
{
    let cs = crate::text::chars_of(s);
    let n: usize = cs.len();
    assert(cs@.subrange(0, n as int) =~= s@);
    if n > 0 && cs[0] == '-' {
        assert(cs@.subrange(1, n as int) =~= s@.skip(1));
        match digits_at(&cs, 1, n) {
            Some(m) => {
                if m <= 0x7fff_ffff_ffff_ffff {
                    Some(-(m as i64))
                } else if m == 0x8000_0000_0000_0000 {
                    Some(i64::MIN)
                } else {
                    None
                }
            },
            None => None,
        }
    } else {
        match read_u64_at(&cs, 0, n) {
            Some(m) => {
                if m <= 0x7fff_ffff_ffff_ffff {
                    Some(m as i64)
                } else {
                    None
                }
            },
            None => None,
        }
    }
}

/// Writes bytes down in hexadecimal notation.
pub fn write_hex(bytes: &Vec<u8>) -> (res: String)
    ensures
        res@ == hex(bytes@),
{
    let mut out = String::new();
    let mut i: usize = 0;
    while i < bytes.len()
        invariant
            i <= bytes@.len(),
            out@ == hex(bytes@).take(i * 2),
        decreases bytes@.len() - i,
    {
        let b: u8 = bytes[i];
        let ghost before = out@;
        out.push(write_hex_digit(b / 16));
        out.push(write_hex_digit(b % 16));
        proof {
            let whole = hex(bytes@);
            assert((i * 2) / 2 == i);
            assert((i * 2 + 1) / 2 == i);
            assert(whole[i * 2] == hex_digit(b as nat / 16));
            assert(whole[i * 2 + 1] == hex_digit(b as nat % 16));
            assert(out@ =~= whole.take((i + 1) * 2));
        }
        i += 1;
    }
    assert(hex(bytes@).take(i * 2) =~= hex(bytes@));
    out
}

fn write_hex_digit(d: u8) -> (res: char)
    requires
        d < 16,
    ensures
        res == hex_digit(d as nat),
{
    if d < 10 {
        (0x30u8 + d) as char
    } else {
        (0x57u8 + d) as char
    }
}

/// Decimal notation has no leading zero, and two numbers never share it.
pub proof fn law_decimal_notation_is_unique(n: nat, m: nat)
    ensures
        decimal(n).len() > 1 ==> decimal(n)[0] != '0',
        decimal(n) == decimal(m) <==> n == m,
        n < 10 <==> decimal(n).len() == 1,
    decreases n,
{
    lemma_decimal(n);
    lemma_decimal(m);
    if n >= 10 {
        law_decimal_notation_is_unique(n / 10, m);
        lemma_decimal(n / 10);
        assert(decimal(n)[0] == decimal(n / 10)[0]);
        if n / 10 < 10 {
            assert(decimal(n / 10)[0] == digit_char(n / 10));
        }
    }
}

/// Each digit counts for ten times the one behind it.
pub proof fn law_digits_count_by_tens(a: Seq<char>, c: char)
    requires
        '0' <= c <= '9',
    ensures
        digits_value(a.push(c)) == 10 * digits_value(a) + (c as nat - 0x30),
        digits_value(Seq::empty()) == 0,
{
    assert(a.push(c).drop_last() =~= a);
}

proof fn lemma_zeros_in_front(zeros: Seq<char>, d: Seq<char>)
    requires
        forall|i: int| 0 <= i < zeros.len() ==> #[trigger] zeros[i] == '0',
        all_digits(d),
    ensures
        all_digits(zeros + d),
        digits_value(zeros + d) == digits_value(d),
    decreases zeros.len() + d.len(),
{
    let s = zeros + d;
    assert forall|i: int| 0 <= i < s.len() implies '0' <= #[trigger] s[i] <= '9' by {
        if i < zeros.len() {
            assert(s[i] == zeros[i]);
        } else {
            assert(s[i] == d[i - zeros.len()]);
        }
    }
    if d.len() > 0 {
        let f = d.drop_last();
        assert(s.drop_last() =~= zeros + f);
        assert forall|i: int| 0 <= i < f.len() implies '0' <= #[trigger] f[i] <= '9' by {
            assert(f[i] == d[i]);
        }
        lemma_zeros_in_front(zeros, f);
    } else if zeros.len() > 0 {
        let z = zeros.drop_last();
        assert(s.drop_last() =~= z + d);
        assert(s.last() == zeros[zeros.len() - 1]);
        lemma_zeros_in_front(z, d);
    } else {
        assert(s =~= d);
    }
}

/// A number is read from its decimal notation, with or without a plus sign and zeros in front,
/// exactly if it is small enough.
pub proof fn law_unsigned_numbers_are_read(n: nat, zeros: Seq<char>, max: nat)
    requires
        forall|i: int| 0 <= i < zeros.len() ==> #[trigger] zeros[i] == '0',
    ensures
        read_unsigned(zeros + decimal(n), max) == if n <= max {
            Some(n)
        } else {
            None
        },
        read_unsigned(seq!['+'] + (zeros + decimal(n)), max) == if n <= max {
            Some(n)
        } else {
            None
        },
{
    lemma_decimal(n);
    lemma_zeros_in_front(zeros, decimal(n));
    let s = zeros + decimal(n);
    assert('0' <= s[0] <= '9');
    assert((seq!['+'] + s).skip(1) =~= s);
}

/// Nothing but digits behind a possible plus sign is read as a number, and the number is what
/// the digits stand for.
pub proof fn law_only_digits_are_numbers(s: Seq<char>, max: nat)
    ensures
        read_unsigned(s, max) matches Some(n) ==> {
            let d = if s[0] == '+' {
                s.skip(1)
            } else {
                s
            };
            &&& d.len() > 0
            &&& forall|i: int| 0 <= i < d.len() ==> '0' <= #[trigger] d[i] <= '9'
            &&& n == digits_value(d)
            &&& n <= max
        },
        (exists|i: int| 1 <= i < s.len() && !('0' <= #[trigger] s[i] <= '9')) ==> read_unsigned(
            s,
            max,
        ) is None,
        s.len() == 0 ==> read_unsigned(s, max) is None,
{
    if read_unsigned(s, max) is Some {
        assert forall|i: int| 1 <= i < s.len() implies '0' <= #[trigger] s[i] <= '9' by {
            if s[0] == '+' {
                assert(s.skip(1)[i - 1] == s[i]);
            }
        }
    }
}

/// A signed 64-bit number is read from its decimal notation, and no other number is.
pub proof fn law_signed_numbers_are_read(n: int)
    ensures
        read_signed(signed_decimal(n)) == if i64::MIN <= n <= i64::MAX {
            Some(n)
        } else {
            None
        },
{
    if n < 0 {
        let d = decimal((-n) as nat);
        lemma_decimal((-n) as nat);
        assert((seq!['-'] + d).skip(1) =~= d);
    } else {
        let d = decimal(n as nat);
        lemma_decimal(n as nat);
        assert('0' <= d[0] <= '9');
    }
}

/// A signed number that is read fits in 64 bits, and holds nothing but digits behind its first
/// character.
pub proof fn law_signed_numbers_fit(s: Seq<char>)
    ensures
        read_signed(s) matches Some(n) ==> {
            &&& i64::MIN <= n <= i64::MAX
            &&& s.len() > 0
            &&& s[0] == '-' || s[0] == '+' || '0' <= s[0] <= '9'
            &&& forall|i: int| 1 <= i < s.len() ==> '0' <= #[trigger] s[i] <= '9'
            &&& s[0] == '-' ==> n <= 0
            &&& s[0] != '-' ==> n >= 0
        },
{
    if read_signed(s) is Some {
        assert forall|i: int| 1 <= i < s.len() implies '0' <= #[trigger] s[i] <= '9' by {
            if s[0] == '-' || s[0] == '+' {
                assert(s.skip(1)[i - 1] == s[i]);
            }
        }
    }
}

/// Hexadecimal notation has two of the sixteen digits for each byte, and gives the byte back.
pub proof fn law_hexadecimal_gives_the_bytes_back(bytes: Seq<u8>, i: int)
    requires
        0 <= i < bytes.len(),
    ensures
        hex(bytes).len() == 2 * bytes.len(),
        ({
            let digits = "0123456789abcdef"@;
            &&& digits[bytes[i] as int / 16] == hex(bytes)[2 * i]
            &&& digits[bytes[i] as int % 16] == hex(bytes)[2 * i + 1]
        }),
{
    reveal_strlit("0123456789abcdef");
    assert((2 * i) / 2 == i && (2 * i) % 2 == 0);
    assert((2 * i + 1) / 2 == i && (2 * i + 1) % 2 == 1);
}

/// A negative number is written with a minus sign, and any other as it is; a plus sign is read
/// over.
pub proof fn law_signs(n: nat)
    ensures
        signed_decimal(n as int) == decimal(n),
        n > 0 ==> signed_decimal(-(n as int)) == seq!['-'] + decimal(n),
        n <= i64::MAX ==> read_signed(seq!['+'] + decimal(n)) == Some(n as int),
        n > i64::MAX ==> read_signed(seq!['+'] + decimal(n)) is None,
{
    lemma_decimal(n);
    assert((seq!['+'] + decimal(n)).skip(1) =~= decimal(n));
}

} // verus!
