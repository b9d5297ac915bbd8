//! Decimal numbers as text.
use vstd::prelude::*;
use vstd::string::StringExecFns;

verus! {

/// Whether `c` is one of `0` to `9`.
pub open spec fn is_digit(c: char) -> bool {
    '0' <= c <= '9'
}

/// The number that a digit stands for.
pub open spec fn digit_value(c: char) -> nat {
    (c as u32 - '0' as u32) as nat
}

/// The digit that stands for a number below ten.
pub open spec fn digit_char(d: nat) -> char {
    ('0' as u32 + d) as char
}

/// The decimal numeral of `n`, without leading zeros.
pub open spec fn decimal(n: nat) -> Seq<char>
    decreases n,
{
    if n < 10 {
        seq![digit_char(n)]
    } else {
        decimal(n / 10).push(digit_char(n % 10))
    }
}

/// Whether `s` is one digit or more, and nothing else.
pub open spec fn all_digits(s: Seq<char>) -> bool {
    s.len() > 0 && forall|i: int| 0 <= i < s.len() ==> is_digit(s[i])
}

/// The number that a text of digits stands for.
pub open spec fn numeral(s: Seq<char>) -> nat
    decreases s.len(),
{
    if s.len() == 0 {
        0
    } else {
        10 * numeral(s.drop_last()) + digit_value(s.last())
    }
}

/// The number that `s` stands for where it is a run of digits, with an
/// optional `+` before it, and the number is at most `max`.
pub open spec fn parsed_number(s: Seq<char>, max: nat) -> Option<nat> {
    let digits = if s.len() > 0 && s[0] == '+' {
        s.skip(1)
    } else {
        s
    };
    if all_digits(digits) && numeral(digits) <= max {
        Some(numeral(digits))
    } else {
        None
    }
}

/// A decimal numeral is made of digits, stands for its number, and has no leading zero.
pub proof fn lemma_decimal(n: nat)
    ensures
        all_digits(decimal(n)),
        numeral(decimal(n)) == n,
        decimal(n).len() > 1 ==> decimal(n)[0] != '0',
    decreases n,
{
    let s = decimal(n);
    if n < 10 {
        assert(s.drop_last() == Seq::<char>::empty());
        assert(s.last() == digit_char(n));
        assert(numeral(s.drop_last()) == 0);
    } else {
        lemma_decimal(n / 10);
        assert(s.drop_last() == decimal(n / 10));
        assert(s[0] == decimal(n / 10)[0]);
        if decimal(n / 10).len() == 1 {
            let t = decimal(n / 10);
            assert(t.drop_last() == Seq::<char>::empty());
            assert(numeral(t.drop_last()) == 0);
            assert(numeral(t) == digit_value(t[0]));
        }
        assert forall|i: int| 0 <= i < s.len() implies is_digit(s[i]) by {
            if i < s.len() - 1 {
                assert(s[i] == decimal(n / 10)[i]);
            }
        }
    }
}

proof fn lemma_numeral_positive(s: Seq<char>)
    requires
        all_digits(s),
        s[0] != '0',
    ensures
        numeral(s) > 0,
    decreases s.len(),
{
    let t = s.drop_last();
    if t.len() > 0 {
        assert(t[0] == s[0]);
        assert forall|i: int| 0 <= i < t.len() implies is_digit(t[i]) by {
            assert(t[i] == s[i]);
        }
        lemma_numeral_positive(t);
    }
}

/// A text of digits without a leading zero is the decimal numeral of its number.
pub proof fn lemma_decimal_of_numeral(s: Seq<char>)
    requires
        all_digits(s),
        s.len() == 1 || s[0] != '0',
    ensures
        decimal(numeral(s)) == s,
    decreases s.len(),
{
    let t = s.drop_last();
    if t.len() == 0 {
        assert(numeral(t) == 0);
        assert(decimal(numeral(s)) == s);
    } else {
        assert(t[0] == s[0]);
        assert forall|i: int| 0 <= i < t.len() implies is_digit(t[i]) by {
            assert(t[i] == s[i]);
        }
        lemma_decimal_of_numeral(t);
        lemma_numeral_positive(t);
        let d = digit_value(s.last());
        assert(is_digit(s.last()));
        assert(numeral(s) == 10 * numeral(t) + d);
        assert(numeral(s) / 10 == numeral(t) && numeral(s) % 10 == d);
        assert(decimal(numeral(s)) == t.push(s.last()));
    }
}

proof fn lemma_numeral_prefix(s: Seq<char>, i: int)
    requires
        0 <= i <= s.len(),
    ensures
        numeral(s.take(i)) <= numeral(s),
    decreases s.len(),
{
    if i < s.len() {
        lemma_numeral_prefix(s.drop_last(), i);
        assert(s.drop_last().take(i) == s.take(i));
    } else {
        assert(s.take(i) == s);
    }
}

/// The number that `s` stands for where it is digits alone and the number is at most `max`.
pub fn parse_digits(s: &[char], max: u32) -> (number: Option<u32>)
    ensures
        match number {
            Some(n) => all_digits(s@) && numeral(s@) == n && n <= max,
            None => !all_digits(s@) || numeral(s@) > max,
        },
{
    if s.len() == 0 {
        return None;
    }
    let mut n: u32 = 0;
    let mut i: usize = 0;
    while i < s.len()
        invariant
            i <= s@.len(),
            forall|j: int| 0 <= j < i ==> is_digit(s@[j]),
            n == numeral(s@.take(i as int)),
            n <= max,
        decreases s@.len() - i,
    {
        let c = s[i];
        if c < '0' || c > '9' {
            assert(!is_digit(s@[i as int]));
            return None;
        }
        let next: u64 = 10 * (n as u64) + ((c as u32) - ('0' as u32)) as u64;
        proof {
            assert(s@.take(i + 1).drop_last() == s@.take(i as int));
            assert(next == numeral(s@.take(i + 1)));
        }
        if next > max as u64 {
            proof {
                lemma_numeral_prefix(s@, i + 1);
            }
            return None;
        }
        n = next as u32;
        i = i + 1;
    }
    assert(s@.take(i as int) == s@);
    Some(n)
}

/// A port number: digits with an optional `+` before them, for a number of sixteen bits.
pub fn parse_u16(s: &[char]) -> (number: Option<u16>)
    ensures
        match number {
            Some(n) => parsed_number(s@, 0xffff) == Some(n as nat),
            None => parsed_number(s@, 0xffff) is None,
        },
{
    let digits = if s.len() > 0 && s[0] == '+' {
        &s[1..s.len()]
    } else {
        s
    };
    assert(s@.len() > 0 && s@[0] == '+' ==> digits@ == s@.skip(1));
    match parse_digits(digits, 0xffff) {
        Some(n) => Some(n as u16),
        None => None,
    }
}

/// A number of eight bits as a decimal numeral without leading zeros.
pub fn parse_octet(s: &[char]) -> (number: Option<u8>)
    ensures
        match number {
            Some(n) => s@ == decimal(n as nat),
            None => forall|n: u8| s@ != decimal(n as nat),
        },
{
    proof {
        assert forall|n: u8| s@ == #[trigger] decimal(n as nat) implies all_digits(s@) && numeral(
            s@,
        ) == n && (s@.len() > 1 ==> s@[0] != '0') by {
            lemma_decimal(n as nat);
        }
    }
    if s.len() > 1 && s[0] == '0' {
        return None;
    }
    match parse_digits(s, 0xff) {
        Some(n) => {
            proof {
                lemma_decimal_of_numeral(s@);
            }
            Some(n as u8)
        },
        None => None,
    }
}

fn digit_text(d: u64) -> (text: &'static str)
    requires
        d < 10,
    ensures
        text@ == seq![digit_char(d as nat)],
{
    proof {
        reveal_strlit("0");
        reveal_strlit("1");
        reveal_strlit("2");
        reveal_strlit("3");
        reveal_strlit("4");
        reveal_strlit("5");
        reveal_strlit("6");
        reveal_strlit("7");
        reveal_strlit("8");
        reveal_strlit("9");
    }
    match d {
        0 => "0",
        1 => "1",
        2 => "2",
        3 => "3",
        4 => "4",
        5 => "5",
        6 => "6",
        7 => "7",
        8 => "8",
        _ => "9",
    }
}

/// Appends the decimal numeral of `n` to `out`.
pub fn append_decimal(out: &mut String, n: u64)
    ensures
        final(out)@ == old(out)@ + decimal(n as nat),
    decreases n,
{
    if n >= 10 {
        append_decimal(out, n / 10);
    }
    out.append(digit_text(n % 10));
    assert(out@ == old(out)@ + decimal(n as nat));
}

/// A number is read back from its decimal numeral.
pub proof fn lemma_number_round_trip(n: nat, max: nat)
    requires
        n <= max,
    ensures
        parsed_number(decimal(n), max) == Some(n),
{
    lemma_decimal(n);
    assert(is_digit(decimal(n)[0]));
}

/// A numeral ends in the digit of the remainder by ten, which is as far from
/// `0` as its number is from zero, and begins with the numeral of the quotient.
pub proof fn lemma_decimal_digits(n: nat)
    ensures
        decimal(n).len() > 0,
        decimal(n).last() as int == 48 + n % 10,
        n < 10 ==> decimal(n).len() == 1,
        n >= 10 ==> decimal(n).drop_last() == decimal(n / 10),
{
    let d = n % 10;
    assert(digit_char(d) as int == 48 + d);
    if n >= 10 {
        assert(decimal(n).drop_last() == decimal(n / 10));
    }
}

/// A digit after a text of digits makes its number ten times as large and adds
/// what the digit stands for.
pub proof fn lemma_numeral(s: Seq<char>, c: char)
    requires
        48 <= c as int <= 57,
    ensures
        numeral(Seq::<char>::empty()) == 0,
        numeral(s.push(c)) == 10 * numeral(s) + (c as int - 48),
{
    assert(s.push(c).drop_last() == s);
}

/// A number is read from one digit or more, whatever they are, if it is not too
/// large. One `+` before them changes nothing. Any other character, or no digit
/// at all, makes it no number.
pub proof fn lemma_parsed_number(s: Seq<char>, max: nat)
    ensures
        parsed_number(Seq::<char>::empty(), max) is None,
        s.len() > 0 && (forall|i: int| 0 <= i < s.len() ==> 48 <= #[trigger] s[i] as int <= 57) ==> {
            &&& parsed_number(s, max) == if numeral(s) <= max {
                Some(numeral(s))
            } else {
                None
            }
            &&& parsed_number(seq!['+'] + s, max) == parsed_number(s, max)
        },
        (exists|i: int| 0 <= i < s.len() && !(48 <= #[trigger] s[i] as int <= 57)) ==> {
            &&& s[0] != '+' ==> parsed_number(s, max) is None
            &&& parsed_number(seq!['+'] + s, max) is None
        },
        parsed_number(seq!['+'], max) is None,
{
    assert((seq!['+'] + s).skip(1) == s);
    assert(seq!['+'].skip(1) == Seq::<char>::empty());
    assert(!all_digits(Seq::<char>::empty()));
    if s.len() > 0 && (forall|i: int| 0 <= i < s.len() ==> 48 <= #[trigger] s[i] as int <= 57) {
        assert(48 <= s[0] as int <= 57);
        assert(s[0] != '+');
        assert forall|i: int| 0 <= i < s.len() implies is_digit(s[i]) by {
            assert(48 <= s[i] as int <= 57);
        }
    }
    if exists|i: int| 0 <= i < s.len() && !(48 <= #[trigger] s[i] as int <= 57) {
        let i = choose|i: int| 0 <= i < s.len() && !(48 <= #[trigger] s[i] as int <= 57);
        assert(!is_digit(s[i]));
        assert(!all_digits(s));
    }
}

/// Every port is read back from its numeral, and what is read as a port has no
/// other characters than digits and a leading `+`.
pub proof fn lemma_ports_are_read(s: &[char], number: Option<u16>, port: u16)
    requires
        call_ensures(parse_u16, (s,), number),
    ensures
        s@ == decimal(port as nat) ==> number == Some(port),
        number is Some ==> forall|i: int|
            0 <= i < s@.len() ==> 48 <= #[trigger] s@[i] as int <= 57 || i == 0 && s@[i] == '+',
{
    lemma_number_round_trip(port as nat, 0xffff);
    if number is Some {
        let digits = if s@.len() > 0 && s@[0] == '+' {
            s@.skip(1)
        } else {
            s@
        };
        assert forall|i: int| 0 <= i < s@.len() implies 48 <= #[trigger] s@[i] as int <= 57 || i == 0
            && s@[i] == '+' by {
            if s@[0] == '+' && i > 0 {
                assert(digits[i - 1] == s@[i]);
                assert(is_digit(digits[i - 1]));
            } else if s@[0] != '+' {
                assert(is_digit(digits[i]));
            }
        }
    }
}

/// Every octet is read back from its numeral, and from no other text.
pub proof fn lemma_octets_are_read(s: &[char], number: Option<u8>, n: u8)
    requires
        call_ensures(parse_octet, (s,), number),
    ensures
        number == Some(n) <==> s@ == decimal(n as nat),
{
    lemma_decimal(n as nat);
    if let Some(m) = number {
        lemma_decimal(m as nat);
    }
}

/// A number is appended as its numeral, which is read back as the number.
pub proof fn lemma_numbers_are_appended(out: &mut String, n: u64)
    requires
        call_ensures(append_decimal, (out, n), ()),
    ensures
        final(out)@.len() > old(out)@.len(),
        final(out)@.take(old(out)@.len() as int) == old(out)@,
        numeral(final(out)@.skip(old(out)@.len() as int)) == n,
        parsed_number(final(out)@.skip(old(out)@.len() as int), n as nat) == Some(n as nat),
{
    let tail = decimal(n as nat);
    lemma_decimal(n as nat);
    lemma_number_round_trip(n as nat, n as nat);
    assert(final(out)@.take(old(out)@.len() as int) =~= old(out)@);
    assert(final(out)@.skip(old(out)@.len() as int) =~= tail);
}

/// Digits are read as the number that they make, however many zeros come first,
/// unless that is larger than it may be.
pub proof fn lemma_digits_are_read(s: &[char], max: u32, number: Option<u32>)
    requires
        call_ensures(parse_digits, (s, max), number),
    ensures
        number is Some <==> s@.len() > 0 && (forall|i: int|
            0 <= i < s@.len() ==> 48 <= #[trigger] s@[i] as int <= 57) && numeral(s@) <= max,
        number is Some ==> number->0 == numeral(s@),
{
    if number is Some {
        assert forall|i: int| 0 <= i < s@.len() implies 48 <= #[trigger] s@[i] as int <= 57 by {
            assert(is_digit(s@[i]));
        }
    } else if s@.len() > 0 && forall|i: int|
        0 <= i < s@.len() ==> 48 <= #[trigger] s@[i] as int <= 57 {
        assert forall|i: int| 0 <= i < s@.len() implies is_digit(s@[i]) by {
            assert(48 <= s@[i] as int <= 57);
        }
    }
}

/// A port is read from its digits, however many zeros come first, and with a
/// `+` before them as well as without one. It is at most 65535.
pub proof fn lemma_port_digits(
    s: &[char],
    number: Option<u16>,
    signed: &[char],
    signed_number: Option<u16>,
)
    requires
        call_ensures(parse_u16, (s,), number),
        call_ensures(parse_u16, (signed,), signed_number),
        signed@ == seq!['+'] + s@,
        s@.len() > 0,
        forall|i: int| 0 <= i < s@.len() ==> 48 <= #[trigger] s@[i] as int <= 57,
    ensures
        number is Some <==> numeral(s@) <= 65535,
        number is Some ==> number->0 == numeral(s@),
        signed_number == number,
{
    lemma_parsed_number(s@, 65535);
}

} // verus!
