//! Base-36 token of a six-byte hardware address.
//!
//! The address is read as a big-endian 48-bit number and written in base 36,
//! most significant digit first, with the digits `0`-`9` followed by `a`-`z`.
//! The token has no leading zeros; the all-zero address is the single digit `0`.

use vstd::prelude::*;

verus! {

/// Number of symbols of the alphabet.
pub const BASE: u64 = 36;

/// Number of bytes of a hardware address.
pub const INPUT_LENGTH: usize = 6;

/// Longest token that a six-byte address can give.
pub const OUTPUT_MAX_LENGTH: usize = 10;

/// The symbol that stands for the digit `d`.
pub open spec fn digit_char(d: nat) -> char {
    if d < 10 {
        ((d + 48) as u8) as char
    } else {
        ((d + 87) as u8) as char
    }
}

/// Whether `c` is a symbol of the alphabet: a decimal digit or a lowercase letter.
pub open spec fn is_symbol(c: char) -> bool {
    ('0' <= c && c <= '9') || ('a' <= c && c <= 'z')
}

/// The digit that the symbol `c` stands for.
pub open spec fn digit_value(c: char) -> nat {
    if '0' <= c && c <= '9' {
        (c as u8 - 48) as nat
    } else {
        (c as u8 - 87) as nat
    }
}

/// The number that `bytes` spell, most significant byte first.
pub open spec fn address_value(bytes: Seq<u8>) -> nat
    decreases bytes.len(),
{
    if bytes.len() == 0 {
        0
    } else {
        address_value(bytes.drop_last()) * 256 + bytes.last() as nat
    }
}

/// The base-36 digits of `n`, most significant first, without leading zeros.
pub open spec fn base36_digits(n: nat) -> Seq<char>
    decreases n,
{
    if n < 36 {
        seq![digit_char(n)]
    } else {
        base36_digits(n / 36).push(digit_char(n % 36))
    }
}

/// The number that a token spells, most significant digit first.
pub open spec fn token_value(token: Seq<char>) -> nat
    decreases token.len(),
{
    if token.len() == 0 {
        0
    } else {
        token_value(token.drop_last()) * 36 + digit_value(token.last())
    }
}

/// The token of a hardware address.
pub open spec fn encoded(input: Seq<u8>) -> Seq<char> {
    base36_digits(address_value(input))
}

/// The one-symbol string of the digit `d`.
fn digit_str(d: u8) -> (symbol: &'static str)
    requires
        d < 36,
    ensures
        symbol@ == seq![digit_char(d as nat)],
{
    proof {
        reveal_strlit("0");
        reveal_strlit("1");
        reveal_strlit("2");
        reveal_strlit("3");
        reveal_strlit("4");
        reveal_strlit("5");
        reveal_strlit("6");
        reveal_strlit("7");
        reveal_strlit("8");
        reveal_strlit("9");
        reveal_strlit("a");
        reveal_strlit("b");
        reveal_strlit("c");
        reveal_strlit("d");
        reveal_strlit("e");
        reveal_strlit("f");
        reveal_strlit("g");
        reveal_strlit("h");
        reveal_strlit("i");
        reveal_strlit("j");
        reveal_strlit("k");
        reveal_strlit("l");
        reveal_strlit("m");
        reveal_strlit("n");
        reveal_strlit("o");
        reveal_strlit("p");
        reveal_strlit("q");
        reveal_strlit("r");
        reveal_strlit("s");
        reveal_strlit("t");
        reveal_strlit("u");
        reveal_strlit("v");
        reveal_strlit("w");
        reveal_strlit("x");
        reveal_strlit("y");
        reveal_strlit("z");
    }
    let symbol: &'static str = match d {
        0 => "0",
        1 => "1",
        2 => "2",
        3 => "3",
        4 => "4",
        5 => "5",
        6 => "6",
        7 => "7",
        8 => "8",
        9 => "9",
        10 => "a",
        11 => "b",
        12 => "c",
        13 => "d",
        14 => "e",
        15 => "f",
        16 => "g",
        17 => "h",
        18 => "i",
        19 => "j",
        20 => "k",
        21 => "l",
        22 => "m",
        23 => "n",
        24 => "o",
        25 => "p",
        26 => "q",
        27 => "r",
        28 => "s",
        29 => "t",
        30 => "u",
        31 => "v",
        32 => "w",
        33 => "x",
        34 => "y",
        _ => "z",
    };
    assert(symbol@ =~= seq![digit_char(d as nat)]);
    symbol
}

/// The symbols of the digits in `digits`, last digit first.
pub open spec fn symbols_reversed(digits: Seq<u8>) -> Seq<char> {
    Seq::new(digits.len(), |i: int| digit_char(digits[digits.len() - 1 - i] as nat))
}

/// `36` to the power `k`.
pub open spec fn pow36(k: nat) -> nat
    decreases k,
{
    if k == 0 {
        1
    } else {
        36 * pow36((k - 1) as nat)
    }
}

/// A number below `36^k`, with `k` at least one, has at most `k` digits.
pub proof fn lemma_digits_len(n: nat, k: nat)
    requires
        k >= 1,
        n < pow36(k),
    ensures
        1 <= base36_digits(n).len() <= k,
    decreases k,
{
    reveal_with_fuel(pow36, 2);
    if n >= 36 {
        assert(k >= 2);
        lemma_digits_len(n / 36, (k - 1) as nat);
    }
}

/// Every symbol of a token is a decimal digit or a lowercase letter.
pub proof fn lemma_digits_are_symbols(n: nat)
    ensures
        forall|i: int| 0 <= i < base36_digits(n).len() ==> is_symbol(#[trigger] base36_digits(n)[i]),
    decreases n,
{
    lemma_digit_char_is_symbol((n % 36) as nat);
    if n >= 36 {
        lemma_digits_are_symbols(n / 36);
        let head = base36_digits(n / 36);
        assert forall|i: int| 0 <= i < base36_digits(n).len() implies is_symbol(
            #[trigger] base36_digits(n)[i],
        ) by {
            if i < head.len() {
                assert(base36_digits(n)[i] == head[i]);
            }
        }
    }
}

/// The symbol of a digit is in the alphabet and stands for that digit.
pub proof fn lemma_digit_char_is_symbol(d: nat)
    requires
        d < 36,
    ensures
        is_symbol(digit_char(d)),
        digit_value(digit_char(d)) == d,
        d == 0 <==> digit_char(d) == '0',
{
    let c = digit_char(d);
    if d < 10 {
        assert(c == ((d + 48) as u8) as char);
        assert(c as u8 == d + 48);
    } else {
        assert(c == ((d + 87) as u8) as char);
        assert(c as u8 == d + 87);
    }
}

/// A token of more than one symbol does not start with the symbol of zero.
pub proof fn lemma_digits_no_leading_zero(n: nat)
    ensures
        base36_digits(n).len() > 1 ==> base36_digits(n)[0] != '0',
        n == 0 <==> base36_digits(n) == seq!['0'],
    decreases n,
{
    lemma_digit_char_is_symbol((n % 36) as nat);
    if n >= 36 {
        lemma_digits_no_leading_zero(n / 36);
        let head = base36_digits(n / 36);
        if head.len() == 1 {
            assert(head =~= seq![head[0]]);
        }
        assert(base36_digits(n)[0] == head[0]);
        assert(base36_digits(n).len() >= 2);
    } else {
        assert(base36_digits(n) =~= seq![digit_char(n)]);
        if base36_digits(n) == seq!['0'] {
            assert(base36_digits(n)[0] == '0');
        }
    }
}

/// Reading a token back gives the number it was written from.
pub proof fn lemma_token_round_trip(n: nat)
    ensures
        token_value(base36_digits(n)) == n,
    decreases n,
{
    lemma_digit_char_is_symbol((n % 36) as nat);
    if n >= 36 {
        lemma_token_round_trip(n / 36);
        let whole = base36_digits(n);
        assert(whole.drop_last() =~= base36_digits(n / 36));
        assert(whole.last() == digit_char(n % 36));
    } else {
        let whole = base36_digits(n);
        assert(whole.drop_last() =~= Seq::<char>::empty());
        assert(token_value(whole.drop_last()) == 0);
    }
}

/// An address of `len` bytes spells a number below `256^len`; six bytes stay
/// below `2^48`.
pub proof fn lemma_address_value_bound(bytes: Seq<u8>)
    ensures
        bytes.len() == 6 ==> address_value(bytes) < 0x1_0000_0000_0000,
        bytes.len() == 5 ==> address_value(bytes) < 0x100_0000_0000,
        bytes.len() == 4 ==> address_value(bytes) < 0x1_0000_0000,
        bytes.len() == 3 ==> address_value(bytes) < 0x100_0000,
        bytes.len() == 2 ==> address_value(bytes) < 0x1_0000,
        bytes.len() == 1 ==> address_value(bytes) < 0x100,
        bytes.len() == 0 ==> address_value(bytes) == 0,
    decreases bytes.len(),
{
    if bytes.len() > 0 {
        lemma_address_value_bound(bytes.drop_last());
    }
}

/// Two addresses of the same length that spell the same number are equal.
pub proof fn lemma_address_value_injective(a: Seq<u8>, b: Seq<u8>)
    requires
        a.len() == b.len(),
        address_value(a) == address_value(b),
    ensures
        a == b,
    decreases a.len(),
{
    if a.len() > 0 {
        let x = address_value(a.drop_last());
        let y = address_value(b.drop_last());
        assert(x * 256 + a.last() as nat == y * 256 + b.last() as nat);
        assert(x == y && a.last() == b.last());
        lemma_address_value_injective(a.drop_last(), b.drop_last());
        assert(a =~= a.drop_last().push(a.last()));
        assert(b =~= b.drop_last().push(b.last()));
    } else {
        assert(a =~= b);
    }
}

/// What [`encode`] promises of every address: the token is never empty, has at
/// most ten symbols, all of the alphabet, and no leading zero.
pub proof fn lemma_encoded_shape(input: Seq<u8>)
    requires
        input.len() == 6,
    ensures
        1 <= encoded(input).len() <= 10,
        forall|i: int| 0 <= i < encoded(input).len() ==> is_symbol(#[trigger] encoded(input)[i]),
        encoded(input).len() > 1 ==> encoded(input)[0] != '0',
{
    lemma_address_value_bound(input);
    assert(pow36(10) == 3656158440062976) by {
        reveal_with_fuel(pow36, 11);
    }
    lemma_digits_len(address_value(input), 10);
    lemma_digits_are_symbols(address_value(input));
    lemma_digits_no_leading_zero(address_value(input));
}

/// The token is a function of the address: equal addresses have equal tokens.
pub proof fn lemma_encode_deterministic(first: Seq<u8>, second: Seq<u8>)
    requires
        first == second,
    ensures
        encoded(first) == encoded(second),
{
}

/// The address can be read back from its token.
pub proof fn lemma_encode_round_trip(input: Seq<u8>)
    ensures
        token_value(encoded(input)) == address_value(input),
{
    lemma_token_round_trip(address_value(input));
}

/// Distinct addresses have distinct tokens.
pub proof fn lemma_encode_injective(first: Seq<u8>, second: Seq<u8>)
    requires
        first.len() == second.len(),
        encoded(first) == encoded(second),
    ensures
        first == second,
{
    lemma_encode_round_trip(first);
    lemma_encode_round_trip(second);
    lemma_address_value_injective(first, second);
}

/// Writes a six-byte hardware address as its base-36 token.
pub fn encode(input: [u8; 6]) -> (token: String)
    ensures
        token@ == encoded(input@),
        1 <= token@.len() <= 10,
        forall|i: int| 0 <= i < token@.len() ==> is_symbol(#[trigger] token@[i]),
        token@.len() > 1 ==> token@[0] != '0',
{
    let mut number: u64 = 0;
    let mut i: usize = 0;
    while i < INPUT_LENGTH
        invariant
            i <= 6,
            number == address_value(input@.take(i as int)),
        decreases 6 - i,
    {
        proof {
            lemma_address_value_bound(input@.take(i as int));
            assert(input@.take(i + 1).drop_last() =~= input@.take(i as int));
        }
        number = number * 256 + input[i] as u64;
        i += 1;
    }
    assert(input@.take(6) =~= input@);
    let ghost value: nat = number as nat;

    let mut digits: Vec<u8> = Vec::with_capacity(OUTPUT_MAX_LENGTH);
    while number >= BASE
        invariant
            base36_digits(value) =~= base36_digits(number as nat) + symbols_reversed(digits@),
            forall|k: int| 0 <= k < digits@.len() ==> digits@[k] < 36,
        decreases number,
    {
        let ghost before = digits@;
        digits.push((number % BASE) as u8);
        proof {
            let after = digits@;
            assert(symbols_reversed(after) =~= seq![digit_char((number % 36) as nat)]
                + symbols_reversed(before));
            assert(base36_digits(number as nat) =~= base36_digits((number / 36) as nat)
                + seq![digit_char((number % 36) as nat)]);
        }
        number = number / BASE;
    }
    let ghost before = digits@;
    digits.push(number as u8);
    proof {
        assert(symbols_reversed(digits@) =~= seq![digit_char(number as nat)] + symbols_reversed(
            before,
        ));
        assert(base36_digits(value) =~= symbols_reversed(digits@));
        lemma_encoded_shape(input@);
    }

    let mut token = String::new();
    let mut left: usize = digits.len();
    while left > 0
        invariant
            left <= digits@.len(),
            token@ =~= symbols_reversed(digits@).take(digits@.len() - left),
            forall|k: int| 0 <= k < digits@.len() ==> digits@[k] < 36,
        decreases left,
    {
        left -= 1;
        token.append(digit_str(digits[left]));
    }
    assert(symbols_reversed(digits@).take(digits@.len() as int) =~= symbols_reversed(digits@));
    token
}

} // verus!
