//! Names of bonded validators, and the decimal and hexadecimal notations
//! that they are written in.

use vstd::prelude::*;
use vstd::string::StringExecFns;
use vstd::string::StrSliceExecFns;

use crate::error::PreprocessingError;
use crate::execution::Preprocessor;
use crate::key::{digest_array, PublicKey};
use crate::u512::{u512_modulus, U512};

verus! {

/// The character for a decimal digit.
pub open spec fn digit_char(d: nat) -> char {
    if d == 0 {
        '0'
    }     else if d == 1 {
        '1'
    }     else if d == 2 {
        '2'
    }     else if d == 3 {
        '3'
    }     else if d == 4 {
        '4'
    }     else if d == 5 {
        '5'
    }     else if d == 6 {
        '6'
    }     else if d == 7 {
        '7'
    }     else if d == 8 {
        '8'
    } else {
        '9'
    }
}

/// The decimal digit that a character stands for.
pub open spec fn digit_value(c: char) -> Option<nat> {
    if c == '0' {
        Some(0)
    }     else if c == '1' {
        Some(1)
    }     else if c == '2' {
        Some(2)
    }     else if c == '3' {
        Some(3)
    }     else if c == '4' {
        Some(4)
    }     else if c == '5' {
        Some(5)
    }     else if c == '6' {
        Some(6)
    }     else if c == '7' {
        Some(7)
    }     else if c == '8' {
        Some(8)
    }     else if c == '9' {
        Some(9)
    } else {
        None
    }
}

/// The decimal digit that a character stands for.
pub fn char_to_digit(c: char) -> (r: Option<u8>)
    ensures
        match r {
            Some(d) => digit_value(c) == Some(d as nat),
            None => digit_value(c).is_none(),
        },
{
    if c == '0' {
        Some(0)
    }     else if c == '1' {
        Some(1)
    }     else if c == '2' {
        Some(2)
    }     else if c == '3' {
        Some(3)
    }     else if c == '4' {
        Some(4)
    }     else if c == '5' {
        Some(5)
    }     else if c == '6' {
        Some(6)
    }     else if c == '7' {
        Some(7)
    }     else if c == '8' {
        Some(8)
    }     else if c == '9' {
        Some(9)
    } else {
        None
    }
}

/// The character, in lower case, for a hexadecimal digit.
pub open spec fn hex_char(d: nat) -> char {
    if d == 0 {
        '0'
    }     else if d == 1 {
        '1'
    }     else if d == 2 {
        '2'
    }     else if d == 3 {
        '3'
    }     else if d == 4 {
        '4'
    }     else if d == 5 {
        '5'
    }     else if d == 6 {
        '6'
    }     else if d == 7 {
        '7'
    }     else if d == 8 {
        '8'
    }     else if d == 9 {
        '9'
    }     else if d == 10 {
        'a'
    }     else if d == 11 {
        'b'
    }     else if d == 12 {
        'c'
    }     else if d == 13 {
        'd'
    }     else if d == 14 {
        'e'
    } else {
        'f'
    }
}

/// The hexadecimal digit that a character stands for, in either case.
pub open spec fn hex_value(c: char) -> Option<nat> {
    if c == '0' {
        Some(0)
    }     else if c == '1' {
        Some(1)
    }     else if c == '2' {
        Some(2)
    }     else if c == '3' {
        Some(3)
    }     else if c == '4' {
        Some(4)
    }     else if c == '5' {
        Some(5)
    }     else if c == '6' {
        Some(6)
    }     else if c == '7' {
        Some(7)
    }     else if c == '8' {
        Some(8)
    }     else if c == '9' {
        Some(9)
    }     else if c == 'a' {
        Some(10)
    }     else if c == 'b' {
        Some(11)
    }     else if c == 'c' {
        Some(12)
    }     else if c == 'd' {
        Some(13)
    }     else if c == 'e' {
        Some(14)
    }     else if c == 'f' {
        Some(15)
    }     else if c == 'A' {
        Some(10)
    }     else if c == 'B' {
        Some(11)
    }     else if c == 'C' {
        Some(12)
    }     else if c == 'D' {
        Some(13)
    }     else if c == 'E' {
        Some(14)
    }     else if c == 'F' {
        Some(15)
    } else {
        None
    }
}

/// The hexadecimal digit that a character stands for, in either case.
pub fn char_to_hex(c: char) -> (r: Option<u8>)
    ensures
        match r {
            Some(d) => hex_value(c) == Some(d as nat),
            None => hex_value(c).is_none(),
        },
{
    if c == '0' {
        Some(0)
    }     else if c == '1' {
        Some(1)
    }     else if c == '2' {
        Some(2)
    }     else if c == '3' {
        Some(3)
    }     else if c == '4' {
        Some(4)
    }     else if c == '5' {
        Some(5)
    }     else if c == '6' {
        Some(6)
    }     else if c == '7' {
        Some(7)
    }     else if c == '8' {
        Some(8)
    }     else if c == '9' {
        Some(9)
    }     else if c == 'a' {
        Some(10)
    }     else if c == 'b' {
        Some(11)
    }     else if c == 'c' {
        Some(12)
    }     else if c == 'd' {
        Some(13)
    }     else if c == 'e' {
        Some(14)
    }     else if c == 'f' {
        Some(15)
    }     else if c == 'A' {
        Some(10)
    }     else if c == 'B' {
        Some(11)
    }     else if c == 'C' {
        Some(12)
    }     else if c == 'D' {
        Some(13)
    }     else if c == 'E' {
        Some(14)
    }     else if c == 'F' {
        Some(15)
    } else {
        None
    }
}

/// The text of one hexadecimal digit.
fn hex_piece(d: u8) -> (r: &'static str)
    requires
        d < 16,
    ensures
        r@ == seq![hex_char(d as nat)],
{
    proof {
        reveal_strlit("0");
        reveal_strlit("1");
        reveal_strlit("2");
        reveal_strlit("3");
        reveal_strlit("4");
        reveal_strlit("5");
        reveal_strlit("6");
        reveal_strlit("7");
        reveal_strlit("8");
        reveal_strlit("9");
        reveal_strlit("a");
        reveal_strlit("b");
        reveal_strlit("c");
        reveal_strlit("d");
        reveal_strlit("e");
        reveal_strlit("f");
    }
    let r = match d {
        0 => "0",
        1 => "1",
        2 => "2",
        3 => "3",
        4 => "4",
        5 => "5",
        6 => "6",
        7 => "7",
        8 => "8",
        9 => "9",
        10 => "a",
        11 => "b",
        12 => "c",
        13 => "d",
        14 => "e",
        _ => "f",
    };
    assert(r@ =~= seq![hex_char(d as nat)]);
    r
}

/// The text of one decimal digit.
fn digit_piece(d: u8) -> (r: &'static str)
    requires
        d < 10,
    ensures
        r@ == seq![digit_char(d as nat)],
{
    proof {
        reveal_strlit("0");
        reveal_strlit("1");
        reveal_strlit("2");
        reveal_strlit("3");
        reveal_strlit("4");
        reveal_strlit("5");
        reveal_strlit("6");
        reveal_strlit("7");
        reveal_strlit("8");
        reveal_strlit("9");
    }
    let r = match d {
        0 => "0",
        1 => "1",
        2 => "2",
        3 => "3",
        4 => "4",
        5 => "5",
        6 => "6",
        7 => "7",
        8 => "8",
        _ => "9",
    };
    assert(r@ =~= seq![digit_char(d as nat)]);
    r
}

/// Reading back what was written for a digit gives the digit.
pub proof fn lemma_digit_round_trip(d: nat)
    requires
        d < 16,
    ensures
        hex_value(hex_char(d)) == Some(d),
        d < 10 ==> digit_value(digit_char(d)) == Some(d),
{
}

/// The decimal notation of a number, without leading zeros.
pub open spec fn dec_digits(n: nat) -> Seq<char>
    decreases n,
{
    if n < 10 {
        seq![digit_char(n)]
    } else {
        dec_digits(n / 10).push(digit_char(n % 10))
    }
}

/// Whether every character is a decimal digit.
pub open spec fn all_digits(s: Seq<char>) -> bool {
    forall|i: int| 0 <= i < s.len() ==> digit_value(#[trigger] s[i]).is_some()
}

/// The number that decimal digits stand for.
pub open spec fn dec_value(s: Seq<char>) -> nat
    decreases s.len(),
{
    if s.len() == 0 {
        0
    } else {
        dec_value(s.drop_last()) * 10 + match digit_value(s.last()) {
            Some(d) => d,
            None => 0,
        }
    }
}

/// The number that a text stands for in decimal notation: the text must be
/// one digit at least, digits only, and the number must be below 2^512.
pub open spec fn parse_decimal(s: Seq<char>) -> Option<nat> {
    if s.len() >= 1 && all_digits(s) && dec_value(s) < u512_modulus() {
        Some(dec_value(s))
    } else {
        None
    }
}

/// Reading the decimal notation of a number gives the number.
pub proof fn lemma_dec_round_trip(n: nat)
    ensures
        dec_digits(n).len() >= 1,
        all_digits(dec_digits(n)),
        dec_value(dec_digits(n)) == n,
    decreases n,
{
    if n < 10 {
        let s = dec_digits(n);
        assert(s.drop_last() =~= Seq::<char>::empty());
        lemma_digit_round_trip(n);
        assert(dec_value(s.drop_last()) == 0);
    } else {
        lemma_dec_round_trip(n / 10);
        let s = dec_digits(n);
        assert(s.drop_last() =~= dec_digits(n / 10));
        lemma_digit_round_trip(n % 10);
        assert(s.last() == digit_char(n % 10));
    }
}

/// The digits at the start of a text stand for no more than the whole text.
pub proof fn lemma_dec_value_prefix(s: Seq<char>, i: int)
    requires
        0 <= i <= s.len(),
    ensures
        dec_value(s.subrange(0, i)) <= dec_value(s),
    decreases s.len() - i,
{
    if i == s.len() {
        assert(s.subrange(0, i) =~= s);
    } else {
        lemma_dec_value_prefix(s, i + 1);
        let longer = s.subrange(0, i + 1);
        assert(longer.drop_last() =~= s.subrange(0, i));
    }
}

/// The characters of a text.
pub fn chars_of(text: &str) -> (r: Vec<char>)
    ensures
        r@ == text@,
{
    let len = text.unicode_len();
    let mut chars: Vec<char> = Vec::new();
    let mut i: usize = 0;
    while i < len
        invariant
            i <= len,
            len == text@.len(),
            chars@ == text@.subrange(0, i as int),
        decreases len - i,
    {
        chars.push(text.get_char(i));
        assert(chars@ =~= text@.subrange(0, i + 1));
        i += 1;
    }
    assert(chars@ =~= text@);
    chars
}

/// Reads a number in decimal notation.
pub fn parse_decimal_chars(chars: &Vec<char>, from: usize) -> (r: Option<U512>)
    requires
        from <= chars@.len(),
    ensures
        match r {
            Some(n) => parse_decimal(chars@.subrange(from as int, chars@.len() as int)) == Some(
                n.value(),
            ),
            None => parse_decimal(chars@.subrange(from as int, chars@.len() as int)).is_none(),
        },
{
    let ghost text = chars@.subrange(from as int, chars@.len() as int);
    if from == chars.len() {
        return None;
    }
    let mut acc = U512::zero();
    let mut i: usize = from;
    while i < chars.len()
        invariant
            from <= i <= chars@.len(),
            text == chars@.subrange(from as int, chars@.len() as int),
            acc.value() == dec_value(text.subrange(0, i - from)),
            all_digits(text.subrange(0, i - from)),
        decreases chars@.len() - i,
    {
        let ghost next = text.subrange(0, i - from + 1);
        proof {
            assert(next.drop_last() =~= text.subrange(0, i - from));
            assert(next.last() == chars@[i as int]);
        }
        let digit = match char_to_digit(chars[i]) {
            Some(digit) => digit,
            None => {
                assert(text[i - from] == chars@[i as int]);
                return None;
            },
        };
        acc = match acc.checked_mul_add_u64(10, digit as u64) {
            Some(sum) => sum,
            None => {
                proof {
                    lemma_dec_value_prefix(text, i - from + 1);
                }
                return None;
            },
        };
        proof {
            assert forall|j: int| 0 <= j < next.len() implies digit_value(
                #[trigger] next[j],
            ).is_some() by {
                if j < i - from {
                    assert(next[j] == text.subrange(0, i - from)[j]);
                }
            }
        }
        i += 1;
    }
    proof {
        assert(text.subrange(0, i - from) =~= text);
        acc.lemma_value_bound();
    }
    Some(acc)
}

/// Writes a number in decimal notation at the end of a text.
pub fn push_decimal(text: &mut String, n: U512)
    ensures
        final(text)@ == old(text)@ + dec_digits(n.value()),
{
    let mut reversed: Vec<u8> = Vec::new();
    let mut rest = n;
    let mut done = false;
    while !done
        invariant
            forall|i: int| 0 <= i < reversed@.len() ==> #[trigger] reversed@[i] < 10,
            dec_digits(n.value()) == if done {
                written_backwards(reversed@)
            } else {
                dec_digits(rest.value()) + written_backwards(reversed@)
            },
        decreases
                if done {
                    0
                } else {
                    rest.value() + 1
                },
    {
        let (quotient, digit) = rest.div_rem_u64(10);
        let ghost before = reversed@;
        reversed.push(digit as u8);
        proof {
            let tail = written_backwards(reversed@);
            assert(tail =~= seq![digit_char(digit as nat)] + written_backwards(before));
            if rest.value() < 10 {
                assert(dec_digits(rest.value()) + written_backwards(before) =~= tail);
            } else {
                assert(dec_digits(rest.value()) + written_backwards(before) =~= dec_digits(
                    quotient.value(),
                ) + tail);
            }
        }
        done = quotient.is_zero();
        rest = quotient;
    }
    let ghost before = text@;
    let ghost tail = written_backwards(reversed@);
    let mut i: usize = reversed.len();
    while i > 0
        invariant
            i <= reversed@.len(),
            forall|j: int| 0 <= j < reversed@.len() ==> #[trigger] reversed@[j] < 10,
            tail == written_backwards(reversed@),
            text@ == before + tail.subrange(0, reversed@.len() - i),
        decreases i,
    {
        i -= 1;
        let ghost at = reversed@.len() - 1 - i;
        assert(tail[at] == digit_char(reversed@[i as int] as nat));
        text.append(digit_piece(reversed[i]));
        assert(text@ =~= before + tail.subrange(0, at + 1));
    }
    assert(tail.subrange(0, reversed@.len() as int) =~= tail);
}

/// The text of digits that are held last digit first.
pub open spec fn written_backwards(reversed: Seq<u8>) -> Seq<char> {
    Seq::new(reversed.len(), |i: int| digit_char(reversed[reversed.len() - 1 - i] as nat))
}

/// The decimal notation of a number.
pub fn decimal_string(n: U512) -> (r: String)
    ensures
        r@ == dec_digits(n.value()),
{
    let mut text = String::new();
    push_decimal(&mut text, n);
    assert(Seq::<char>::empty() + dec_digits(n.value()) =~= dec_digits(n.value()));
    text
}

/// Reads a number in decimal notation.
pub fn parse_decimal_str(text: &str) -> (r: Option<U512>)
    ensures
        match r {
            Some(n) => parse_decimal(text@) == Some(n.value()),
            None => parse_decimal(text@).is_none(),
        },
{
    let chars = chars_of(text);
    assert(chars@.subrange(0, chars@.len() as int) =~= chars@);
    parse_decimal_chars(&chars, 0)
}

/// The hexadecimal notation of 32 bytes: two digits for each byte, in lower
/// case.
pub open spec fn hex_chars(bytes: Seq<u8>) -> Seq<char> {
    Seq::new(
        2 * bytes.len(),
        |i: int|
            if i % 2 == 0 {
                hex_char((bytes[i / 2] / 16) as nat)
            } else {
                hex_char((bytes[i / 2] % 16) as nat)
            },
    )
}

/// Whether every character is a hexadecimal digit.
pub open spec fn all_hex(s: Seq<char>) -> bool {
    forall|i: int| 0 <= i < s.len() ==> hex_value(#[trigger] s[i]).is_some()
}

/// The bytes that hexadecimal digits stand for, two digits for each byte.
pub open spec fn hex_bytes(s: Seq<char>) -> Seq<u8> {
    Seq::new(
        s.len() / 2,
        |i: int| (hex_value(s[2 * i]).unwrap() * 16 + hex_value(s[2 * i + 1]).unwrap()) as u8,
    )
}

/// Reading the hexadecimal notation of bytes gives the bytes.
pub proof fn lemma_hex_round_trip(bytes: Seq<u8>)
    ensures
        all_hex(hex_chars(bytes)),
        hex_bytes(hex_chars(bytes)) == bytes,
{
    let s = hex_chars(bytes);
    assert forall|i: int| 0 <= i < s.len() implies hex_value(#[trigger] s[i]).is_some() by {
        lemma_digit_round_trip((bytes[i / 2] / 16) as nat);
        lemma_digit_round_trip((bytes[i / 2] % 16) as nat);
    }
    assert forall|i: int| 0 <= i < bytes.len() implies hex_bytes(s)[i] == bytes[i] by {
        lemma_digit_round_trip((bytes[i] / 16) as nat);
        lemma_digit_round_trip((bytes[i] % 16) as nat);
        assert(s[2 * i] == hex_char((bytes[i] / 16) as nat));
        assert(s[2 * i + 1] == hex_char((bytes[i] % 16) as nat));
    }
    assert(hex_bytes(s) =~= bytes);
}

/// Writes 32 bytes in hexadecimal notation at the end of a text.
pub fn push_hex(text: &mut String, bytes: &[u8; 32])
    ensures
        final(text)@ == old(text)@ + hex_chars(bytes@),
{
    let ghost before = text@;
    let mut i: usize = 0;
    while i < 32
        invariant
            i <= 32,
            text@ == before + hex_chars(bytes@).subrange(0, 2 * i),
        decreases 32 - i,
    {
        let byte = bytes[i];
        text.append(hex_piece(byte / 16));
        text.append(hex_piece(byte % 16));
        assert(text@ =~= before + hex_chars(bytes@).subrange(0, 2 * i + 2));
        i += 1;
    }
    assert(hex_chars(bytes@).subrange(0, 64) =~= hex_chars(bytes@));
}

/// The name under which the proof-of-stake contract records a bonded
/// validator: the letter v, the public key in hexadecimal notation and the
/// bonded amount in decimal notation, with an underscore between each two.
pub open spec fn validator_name(public_key: PublicKey, amount: nat) -> Seq<char> {
    seq!['v', '_'] + hex_chars(public_key.0@) + seq!['_'] + dec_digits(amount)
}

/// The validator and the amount that a name records, if it is the name of a
/// bonded validator.
pub open spec fn parse_validator_name(name: Seq<char>) -> Option<(PublicKey, nat)> {
    if name.len() >= 67 && name[0] == 'v' && name[1] == '_' && name[66] == '_' && all_hex(
        name.subrange(2, 66),
    ) {
        match parse_decimal(name.subrange(67, name.len() as int)) {
            Some(amount) => Some(
                (PublicKey(digest_array(hex_bytes(name.subrange(2, 66)))), amount),
            ),
            None => None,
        }
    } else {
        None
    }
}

/// The name of a bonded validator reads back as the validator and the
/// amount.
pub proof fn lemma_validator_name_round_trip(public_key: PublicKey, amount: nat)
    requires
        amount < u512_modulus(),
    ensures
        parse_validator_name(validator_name(public_key, amount)) == Some((public_key, amount)),
{
    let name = validator_name(public_key, amount);
    let hex = hex_chars(public_key.0@);
    assert(hex.len() == 64);
    assert(name.subrange(2, 66) =~= hex);
    assert(name.subrange(67, name.len() as int) =~= dec_digits(amount));
    lemma_hex_round_trip(public_key.0@);
    lemma_dec_round_trip(amount);
    assert(name[0] == 'v' && name[1] == '_' && name[66] == '_');
    let chosen = digest_array(public_key.0@);
    assert(chosen@ == public_key.0@);
    assert(chosen =~= public_key.0);
}

/// Writes the name of a bonded validator.
pub fn pos_validator_name(public_key: &PublicKey, amount: &U512) -> (r: String)
    ensures
        r@ == validator_name(*public_key, amount.value()),
{
    proof {
        reveal_strlit("v_");
        reveal_strlit("_");
    }
    let mut name = String::from_str("v_");
    assert(name@ =~= seq!['v', '_']);
    push_hex(&mut name, &public_key.0);
    name.append("_");
    assert("_"@ =~= seq!['_']);
    push_decimal(&mut name, *amount);
    name
}

/// Reads the name of a bonded validator.
pub fn pos_validator_to_tuple(pos_bond: &str) -> (r: Option<(PublicKey, U512)>)
    ensures
        match r {
            Some((public_key, amount)) => parse_validator_name(pos_bond@) == Some(
                (public_key, amount.value()),
            ),
            None => parse_validator_name(pos_bond@).is_none(),
        },
{
    let chars = chars_of(pos_bond);
    if chars.len() < 67 {
        return None;
    }
    if chars[0] != 'v' || chars[1] != '_' || chars[66] != '_' {
        return None;
    }
    let ghost hex = chars@.subrange(2, 66);
    let mut bytes = [0u8; 32];
    let mut i: usize = 0;
    while i < 32
        invariant
            i <= 32,
            chars@.len() >= 67,
            chars@ == pos_bond@,
            hex == chars@.subrange(2, 66),
            forall|j: int| 0 <= j < 2 * i ==> hex_value(#[trigger] hex[j]).is_some(),
            forall|j: int| 0 <= j < i ==> bytes[j] == hex_bytes(hex)[j],
        decreases 32 - i,
    {
        assert(hex[2 * i as int] == chars@[2 + 2 * i]);
        assert(hex[2 * i + 1] == chars@[3 + 2 * i]);
        let high = match char_to_hex(chars[2 + 2 * i]) {
            Some(digit) => digit,
            None => {
                assert(hex_value(hex[2 * i as int]).is_none());
                assert(!all_hex(hex));
                return None;
            },
        };
        let low = match char_to_hex(chars[3 + 2 * i]) {
            Some(digit) => digit,
            None => {
                assert(hex_value(hex[2 * i + 1]).is_none());
                assert(!all_hex(hex));
                return None;
            },
        };
        bytes[i] = high * 16 + low;
        i += 1;
    }
    let amount = match parse_decimal_chars(&chars, 67) {
        Some(amount) => amount,
        None => {
            return None;
        },
    };
    proof {
        assert(bytes@ =~= hex_bytes(hex));
        let chosen = digest_array(hex_bytes(hex));
        assert(chosen@ == hex_bytes(hex));
        assert(chosen =~= bytes);
    }
    Some((PublicKey(bytes), amount))
}

/// The code of a contract that a preprocessor has accepted.
#[derive(Debug, PartialEq, Eq)]
pub struct WasmiBytes(Vec<u8>);

impl View for WasmiBytes {
    type V = Seq<u8>;

    closed spec fn view(&self) -> Seq<u8> {
        self.0@
    }
}

impl WasmiBytes {
    /// Has code checked by a preprocessor. Code that the preprocessor turns
    /// down gives its error; code that it accepts is kept as it was given.
    pub fn new<A, P: Preprocessor<A>>(raw_bytes: &[u8], preprocessor: &P) -> (r: Result<
        WasmiBytes,
        PreprocessingError,
    >)
        ensures
            match preprocessor.rejection(raw_bytes@) {
                Some(error) => r matches Err(e) && e == error,
                None => r matches Ok(code) && code@ == raw_bytes@,
            },
    {
        match preprocessor.preprocess(raw_bytes) {
            Ok(_) => Ok(WasmiBytes(vstd::slice::slice_to_vec(raw_bytes))),
            Err(error) => Err(error),
        }
    }

    /// The bytes of the code.
    pub fn into_bytes(self) -> (r: Vec<u8>)
        ensures
            r@ == self@,
    {
        self.0
    }
}

} // verus!
