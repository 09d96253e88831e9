//! Tokens: the secrets that clients prove themselves with.
use vstd::prelude::*;
use vstd::utf8;

use rand::{RngCore, SeedableRng};
use rand_xoshiro::Xoshiro128PlusPlus;

use crate::entropy::os_fill_bytes;

verus! {

/// How many bytes a token has.
pub const TOKEN_LEN: usize = 12;

/// A secret of twelve bytes.
#[derive(Debug, Clone, Copy)]
pub struct Token(pub [u8; 12]);

impl View for Token {
    type V = Seq<u8>;

    open spec fn view(&self) -> Seq<u8> {
        self.0@
    }
}

/// The first bytes that `Xoshiro128PlusPlus` of the `rand_xoshiro` crate gives,
/// as many as a token has, when it is seeded with `seed`.
pub uninterp spec fn xoshiro_bytes(seed: u64) -> Seq<u8>;

/// The character of a hexadecimal digit, in lower case.
pub open spec fn digit_char(digit: int) -> char {
    if digit < 10 {
        (('0' as int) + digit) as char
    } else {
        (('a' as int) + digit - 10) as char
    }
}

/// Each of `bytes` as two hexadecimal digits in lower case.
pub open spec fn lower_hex(bytes: Seq<u8>) -> Seq<char> {
    Seq::new(
        2 * bytes.len(),
        |i: int|
            digit_char(
                if i % 2 == 0 {
                    bytes[i / 2] as int / 16
                } else {
                    bytes[i / 2] as int % 16
                },
            ),
    )
}

/// The value of a hexadecimal digit, in either case.
pub open spec fn digit_value(b: u8) -> Option<int> {
    if '0' as u8 <= b <= '9' as u8 {
        Some(b - '0' as u8)
    } else if 'a' as u8 <= b <= 'f' as u8 {
        Some(b - 'a' as u8 + 10)
    } else if 'A' as u8 <= b <= 'F' as u8 {
        Some(b - 'A' as u8 + 10)
    } else {
        None
    }
}

/// The number that one or two bytes of text spell in hexadecimal digits. A `+`
/// may stand before the only digit.
pub open spec fn chunk_value(chunk: Seq<u8>) -> Option<u8> {
    if chunk.len() == 1 || (chunk.len() == 2 && chunk[0] == '+' as u8) {
        match digit_value(chunk.last()) {
            Some(value) => Some(value as u8),
            None => None,
        }
    } else if chunk.len() == 2 {
        match (digit_value(chunk[0]), digit_value(chunk[1])) {
            (Some(high), Some(low)) => Some((16 * high + low) as u8),
            _ => None,
        }
    } else {
        None
    }
}

/// The `i`th pair of `bytes`; the last one may be a single byte.
pub open spec fn chunk(bytes: Seq<u8>, i: int) -> Seq<u8> {
    bytes.subrange(
        2 * i,
        if 2 * i + 2 <= bytes.len() {
            2 * i + 2
        } else {
            bytes.len() as int
        },
    )
}

/// How many pairs of `bytes` are read: all of them, but no more than a token
/// has bytes.
pub open spec fn chunk_count(bytes: Seq<u8>) -> nat {
    if bytes.len() >= 2 * TOKEN_LEN {
        TOKEN_LEN as nat
    } else {
        (bytes.len() + 1) / 2
    }
}

/// The values of the first `n` pairs of `bytes`, or which of them is the first
/// that is no number.
pub open spec fn decoded(bytes: Seq<u8>, n: nat) -> Result<Seq<u8>, nat>
    decreases n,
{
    if n == 0 {
        Ok(Seq::empty())
    } else {
        let last = (n - 1) as nat;
        match decoded(bytes, last) {
            Err(i) => Err(i),
            Ok(values) => match chunk_value(chunk(bytes, last as int)) {
                Some(value) => Ok(values.push(value)),
                None => Err(last),
            },
        }
    }
}

/// What `text` is read as: the values of its pairs of bytes, or which of them is
/// the first that is no number.
pub open spec fn decoded_text(text: Seq<char>) -> Result<Seq<u8>, nat> {
    let bytes = utf8::encode_utf8(text);
    decoded(bytes, chunk_count(bytes))
}

/// A pair of bytes that is no hexadecimal number.
#[derive(Debug)]
pub struct InvalidChunk {
    /// Which pair it is, counted from zero.
    pub index: usize,
    /// The pair.
    pub chunk: Vec<u8>,
}

/// What was read of a text: the first `len` of `bytes`. The others are zero.
#[derive(Debug)]
pub struct Decoded {
    pub bytes: [u8; 12],
    pub len: usize,
}

/// `error` names the pair of `text` that is the first that is no number.
pub open spec fn is_error_of(error: InvalidChunk, text: Seq<char>) -> bool {
    &&& decoded_text(text) == Err::<Seq<u8>, nat>(error.index as nat)
    &&& error.chunk@ == chunk(utf8::encode_utf8(text), error.index as int)
}

/// `Xoshiro128PlusPlus::seed_from_u64` of the `rand_xoshiro` crate, with the
/// first bytes that `fill_bytes` then takes from the generator. The generator
/// is a fixed function of its seed, so the bytes are; no more is said of them.
#[verifier::external_body]
fn seeded_bytes(seed: u64) -> (bytes: [u8; 12])
    ensures
        bytes@ == xoshiro_bytes(seed),
{
    let mut bytes = [0u8; 12];
    Xoshiro128PlusPlus::seed_from_u64(seed).fill_bytes(&mut bytes);
    bytes
}

/// The value of a hexadecimal digit, in either case.
fn parse_digit(b: u8) -> (value: Option<u8>)
    ensures
        match value {
            Some(value) => value < 16 && digit_value(b) == Some(value as int),
            None => digit_value(b) is None,
        },
{
    if '0' as u8 <= b && b <= '9' as u8 {
        Some(b - '0' as u8)
    } else if 'a' as u8 <= b && b <= 'f' as u8 {
        Some(b - 'a' as u8 + 10)
    } else if 'A' as u8 <= b && b <= 'F' as u8 {
        Some(b - 'A' as u8 + 10)
    } else {
        None
    }
}

/// The number that `chunk` spells in hexadecimal digits.
fn parse_chunk(chunk: &[u8]) -> (value: Option<u8>)
    requires
        1 <= chunk@.len() <= 2,
    ensures
        value == chunk_value(chunk@),
{
    if chunk.len() == 1 {
        return parse_digit(chunk[0]);
    }
    if chunk[0] == '+' as u8 {
        return parse_digit(chunk[1]);
    }
    match (parse_digit(chunk[0]), parse_digit(chunk[1])) {
        (Some(high), Some(low)) => Some(16 * high + low),
        _ => None,
    }
}

/// Where the first pair that is no number stands among the first `n`, it is the
/// first of more pairs too.
proof fn lemma_decoded_err(bytes: Seq<u8>, m: nat, n: nat)
    requires
        m <= n,
        decoded(bytes, m) is Err,
    ensures
        decoded(bytes, n) == decoded(bytes, m),
    decreases n,
{
    if m < n {
        lemma_decoded_err(bytes, m, (n - 1) as nat);
    }
}

/// Reads the pairs of `text` as hexadecimal numbers, up to the length of a token.
pub fn decode(text: &str) -> (read: Result<Decoded, InvalidChunk>)
    ensures
        match read {
            Ok(read) => {
                &&& read.len == chunk_count(utf8::encode_utf8(text@))
                &&& decoded_text(text@) == Ok::<Seq<u8>, nat>(read.bytes@.take(read.len as int))
                &&& forall|i: int| read.len <= i < TOKEN_LEN ==> read.bytes@[i] == 0
            },
            Err(error) => is_error_of(error, text@),
        },
{
    let source = text.as_bytes();
    let count: usize = if source.len() >= 24 {
        12
    } else {
        (source.len() + 1) / 2
    };
    let mut bytes = [0u8; 12];
    assert(bytes@.take(0) =~= Seq::empty());
    for i in 0..count
        invariant
            source@ == utf8::encode_utf8(text@),
            count == chunk_count(source@),
            decoded(source@, i as nat) == Ok::<Seq<u8>, nat>(bytes@.take(i as int)),
            forall|j: int| i <= j < TOKEN_LEN ==> bytes@[j] == 0,
    {
        let end: usize = if 2 * i + 2 <= source.len() {
            2 * i + 2
        } else {
            source.len()
        };
        let pair = vstd::slice::slice_subrange(source, 2 * i, end);
        match parse_chunk(pair) {
            Some(value) => {
                let ghost before = bytes@;
                bytes[i] = value;
                assert(bytes@.take(i + 1) =~= before.take(i as int).push(value));
            },
            None => {
                proof {
                    lemma_decoded_err(source@, (i + 1) as nat, count as nat);
                }
                return Err(InvalidChunk { index: i, chunk: vstd::slice::slice_to_vec(pair) });
            },
        }
    }
    Ok(Decoded { bytes, len: count })
}

impl From<[u8; 12]> for Token {
    fn from(value: [u8; 12]) -> (token: Self) {
        Token(value)
    }
}

impl vstd::std_specs::convert::FromSpecImpl<[u8; 12]> for Token {
    open spec fn obeys_from_spec() -> bool {
        true
    }

    open spec fn from_spec(value: [u8; 12]) -> Self {
        Token(value)
    }
}

impl Token {
    /// A token that chance decides on.
    pub fn random() -> (token: Token)
        ensures
            token@.len() == TOKEN_LEN,
    {
        let mut token = Token([0u8; 12]);
        os_fill_bytes(&mut token.0);
        token
    }

    /// The token of a seed, the same each time.
    pub fn from_seed(s: u64) -> (token: Token)
        ensures
            token@ == xoshiro_bytes(s),
    {
        Token(seeded_bytes(s))
    }

    /// The token in hexadecimal digits, in lower case.
    pub fn to_lower_hex(&self) -> (text: String)
        ensures
            text@ == lower_hex(self@),
    {
        let mut text = String::new();
        for i in 0..12usize
            invariant
                text@ == lower_hex(self@).take(2 * i),
        {
            let byte = self.0[i];
            text.push(hex_digit(byte / 16));
            text.push(hex_digit(byte % 16));
            assert(text@ =~= lower_hex(self@).take(2 * (i + 1)));
        }
        assert(lower_hex(self@).take(24) =~= lower_hex(self@));
        text
    }

    /// The token as it is shown.
    pub fn to_string(&self) -> (text: String)
        ensures
            text@ == lower_hex(self@),
    {
        self.to_lower_hex()
    }

    /// The text that the token is written as.
    pub fn serialize(&self) -> (text: String)
        ensures
            text@ == lower_hex(self@),
    {
        self.to_lower_hex()
    }

    /// The token that `text` is read as: pair by pair, each a hexadecimal number.
    /// What follows the last pair that a token needs is not looked at.
    ///
    /// A text that ends before a token is complete, and is valid so far, is not
    /// allowed. [`decode`] tells how far a text goes.
    pub fn deserialize(text: &str) -> (token: Result<Token, InvalidChunk>)
        requires
            decoded_text(text@) is Err || chunk_count(utf8::encode_utf8(text@)) == TOKEN_LEN,
        ensures
            match token {
                Ok(token) => decoded_text(text@) == Ok::<Seq<u8>, nat>(token@),
                Err(error) => is_error_of(error, text@),
            },
    {
        match decode(text) {
            Ok(read) => {
                assert(read.bytes@.take(12) =~= read.bytes@);
                Ok(Token(read.bytes))
            },
            Err(error) => Err(error),
        }
    }
}

/// The character of a hexadecimal digit, in lower case.
fn hex_digit(digit: u8) -> (c: char)
    requires
        digit < 16,
    ensures
        c == digit_char(digit as int),
{
    if digit < 10 {
        ('0' as u8 + digit) as char
    } else {
        ('a' as u8 + (digit - 10)) as char
    }
}

/// Where each of the first `n` pairs is a number, all of them are read.
proof fn lemma_decoded_ok(bytes: Seq<u8>, n: nat, values: Seq<u8>)
    requires
        values.len() == n,
        forall|i: int| 0 <= i < n ==> chunk_value(#[trigger] chunk(bytes, i)) == Some(values[i]),
    ensures
        decoded(bytes, n) == Ok::<Seq<u8>, nat>(values),
    decreases n,
{
    if n > 0 {
        let last = (n - 1) as nat;
        lemma_decoded_ok(bytes, last, values.drop_last());
        assert(chunk_value(chunk(bytes, last as int)) == Some(values[last as int]));
        assert(values.drop_last().push(values.last()) =~= values);
    } else {
        assert(values =~= Seq::empty());
    }
}

/// Hexadecimal digits are ASCII: each is the one byte that it is encoded as.
proof fn lemma_lower_hex_bytes(bytes: Seq<u8>)
    ensures
        utf8::encode_utf8(lower_hex(bytes)).len() == 2 * bytes.len(),
        forall|i: int|
            0 <= i < 2 * bytes.len() ==> #[trigger] utf8::encode_utf8(lower_hex(bytes))[i]
                == lower_hex(bytes)[i] as u8,
{
    let text = lower_hex(bytes);
    assert(utf8::is_ascii_chars(text));
    utf8::is_ascii_chars_encode_utf8(text);
}

/// A token is read back from the text that it is written as.
pub proof fn law_token_is_read_back(token: Token)
    ensures
        chunk_count(utf8::encode_utf8(lower_hex(token@))) == TOKEN_LEN,
        decoded_text(lower_hex(token@)) == Ok::<Seq<u8>, nat>(token@),
{
    let text = lower_hex(token@);
    let bytes = utf8::encode_utf8(text);
    lemma_lower_hex_bytes(token@);
    assert forall|i: int| 0 <= i < TOKEN_LEN implies chunk_value(#[trigger] chunk(bytes, i))
        == Some(token@[i]) by {
        let pair = chunk(bytes, i);
        assert(pair[0] == bytes[2 * i]);
        assert(pair[1] == bytes[2 * i + 1]);
        assert(text[2 * i] == digit_char(token@[i] as int / 16));
        assert(text[2 * i + 1] == digit_char(token@[i] as int % 16));
    }
    lemma_decoded_ok(bytes, TOKEN_LEN as nat, token@);
}

/// Two tokens that are written alike are the same.
pub proof fn law_text_tells_tokens_apart(a: Token, b: Token)
    requires
        lower_hex(a@) == lower_hex(b@),
    ensures
        a@ == b@,
{
    law_token_is_read_back(a);
    law_token_is_read_back(b);
}

/// A text of just the lower case digits that a token needs is read as the token
/// that is written so.
pub proof fn law_text_is_written_back(text: Seq<char>)
    requires
        text.len() == 2 * TOKEN_LEN,
        forall|i: int|
            0 <= i < text.len() ==> ('0' <= #[trigger] text[i] && text[i] <= '9') || ('a'
                <= text[i] && text[i] <= 'f'),
    ensures
        decoded_text(text) matches Ok(bytes) && lower_hex(bytes) == text,
{
    let bytes = utf8::encode_utf8(text);
    assert(utf8::is_ascii_chars(text));
    utf8::is_ascii_chars_encode_utf8(text);
    let values = Seq::new(TOKEN_LEN as nat, |i: int| chunk_value(chunk(bytes, i)).unwrap());
    assert forall|i: int| 0 <= i < TOKEN_LEN implies chunk_value(#[trigger] chunk(bytes, i))
        == Some(values[i]) by {
        let pair = chunk(bytes, i);
        assert(pair[0] == text[2 * i] as u8);
        assert(pair[1] == text[2 * i + 1] as u8);
    }
    lemma_decoded_ok(bytes, TOKEN_LEN as nat, values);
    assert forall|i: int| 0 <= i < text.len() implies lower_hex(values)[i] == text[i] by {
        let pair = chunk(bytes, i / 2);
        assert(pair[0] == text[2 * (i / 2)] as u8);
        assert(pair[1] == text[2 * (i / 2) + 1] as u8);
        let high = digit_value(pair[0]).unwrap();
        let low = digit_value(pair[1]).unwrap();
        assert(values[i / 2] == (16 * high + low) as u8);
        assert(values[i / 2] as int / 16 == high);
        assert(values[i / 2] as int % 16 == low);
    }
    assert(lower_hex(values) =~= text);
}

/// Two bytes that are read alike: the same digit, in either case, or both a `+`,
/// or neither.
pub open spec fn same_digit(a: u8, b: u8) -> bool {
    &&& digit_value(a) == digit_value(b)
    &&& (a == '+' as u8) == (b == '+' as u8)
}

/// Upper and lower case digits are read alike.
pub proof fn law_case_does_not_count(a: Seq<char>, b: Seq<char>)
    requires
        utf8::encode_utf8(a).len() == utf8::encode_utf8(b).len(),
        forall|i: int|
            0 <= i < utf8::encode_utf8(a).len() ==> same_digit(
                #[trigger] utf8::encode_utf8(a)[i],
                utf8::encode_utf8(b)[i],
            ),
    ensures
        decoded_text(a) == decoded_text(b),
{
    let (x, y) = (utf8::encode_utf8(a), utf8::encode_utf8(b));
    lemma_decoded_alike(x, y, chunk_count(x));
}

proof fn lemma_decoded_alike(a: Seq<u8>, b: Seq<u8>, n: nat)
    requires
        a.len() == b.len(),
        forall|i: int| 0 <= i < a.len() ==> same_digit(#[trigger] a[i], b[i]),
        n <= chunk_count(a),
    ensures
        decoded(a, n) == decoded(b, n),
    decreases n,
{
    if n > 0 {
        let last = (n - 1) as nat;
        lemma_decoded_alike(a, b, last);
        let k = 2 * last as int;
        assert(same_digit(a[k], b[k]));
        if k + 1 < a.len() {
            assert(same_digit(a[k + 1], b[k + 1]));
        }
        assert(chunk_value(chunk(a, last as int)) == chunk_value(chunk(b, last as int)));
    }
}

/// Only as many bytes of a text count as a token needs digits.
pub proof fn law_rest_of_text_does_not_count(a: Seq<char>, b: Seq<char>)
    requires
        utf8::encode_utf8(a).len() >= 2 * TOKEN_LEN,
        utf8::encode_utf8(b).len() >= 2 * TOKEN_LEN,
        utf8::encode_utf8(a).take(2 * TOKEN_LEN) == utf8::encode_utf8(b).take(2 * TOKEN_LEN),
    ensures
        decoded_text(a) == decoded_text(b),
{
    lemma_decoded_prefix(utf8::encode_utf8(a), utf8::encode_utf8(b), TOKEN_LEN as nat);
}

proof fn lemma_decoded_prefix(a: Seq<u8>, b: Seq<u8>, n: nat)
    requires
        n <= TOKEN_LEN,
        a.len() >= 2 * TOKEN_LEN,
        b.len() >= 2 * TOKEN_LEN,
        a.take(2 * TOKEN_LEN) == b.take(2 * TOKEN_LEN),
    ensures
        decoded(a, n) == decoded(b, n),
    decreases n,
{
    if n > 0 {
        let last = (n - 1) as nat;
        lemma_decoded_prefix(a, b, last);
        let (x, y) = (chunk(a, last as int), chunk(b, last as int));
        assert forall|i: int| 0 <= i < 2 implies x[i] == y[i] by {
            let k = 2 * last + i;
            assert(x[i] == a[k] && y[i] == b[k]);
            assert(a.take(2 * TOKEN_LEN)[k] == a[k] && b.take(2 * TOKEN_LEN)[k] == b[k]);
        }
        assert(x =~= y);
    }
}

/// Each byte is written as two digits, the sixteens before the ones: `0` to `9`,
/// then `a` to `f`.
pub proof fn law_bytes_are_written_digit_by_digit(bytes: Seq<u8>, i: int)
    requires
        0 <= i < bytes.len(),
    ensures
        lower_hex(bytes).len() == 2 * bytes.len(),
        bytes[i] < 160 ==> lower_hex(bytes)[2 * i] as int == 0x30 + bytes[i] as int / 16,
        bytes[i] >= 160 ==> lower_hex(bytes)[2 * i] as int == 0x61 + bytes[i] as int / 16 - 10,
        bytes[i] % 16 < 10 ==> lower_hex(bytes)[2 * i + 1] as int == 0x30 + bytes[i] as int % 16,
        bytes[i] % 16 >= 10 ==> lower_hex(bytes)[2 * i + 1] as int == 0x61 + bytes[i] as int % 16
            - 10,
{
    assert(lower_hex(bytes)[2 * i] == digit_char(bytes[i] as int / 16));
    assert(lower_hex(bytes)[2 * i + 1] == digit_char(bytes[i] as int % 16));
}

/// What is written of two runs of bytes, one behind the other, is what is written
/// of each.
pub proof fn law_bytes_are_written_one_by_one(a: Seq<u8>, b: Seq<u8>)
    ensures
        lower_hex(a + b) == lower_hex(a) + lower_hex(b),
{
    let whole = lower_hex(a + b);
    assert forall|i: int| 0 <= i < whole.len() implies whole[i] == (lower_hex(a) + lower_hex(
        b,
    ))[i] by {
        if i >= 2 * a.len() {
            let k = i - 2 * a.len();
            assert(i / 2 == k / 2 + a.len() && i % 2 == k % 2);
            assert((a + b)[i / 2] == b[k / 2]);
        }
    }
    assert(whole =~= lower_hex(a) + lower_hex(b));
}

/// The bytes that are digits: `0` to `9` stand for themselves, `a` to `f` and `A`
/// to `F` for ten to fifteen, and no other byte for a number.
pub proof fn law_digits_are_read_by_their_codes(b: u8)
    ensures
        0x30 <= b <= 0x39 ==> digit_value(b) == Some(b - 0x30),
        0x61 <= b <= 0x66 ==> digit_value(b) == Some(b - 0x57),
        0x41 <= b <= 0x46 ==> digit_value(b) == Some(b - 0x37),
        b < 0x30 || 0x39 < b < 0x41 || 0x46 < b < 0x61 || 0x66 < b ==> digit_value(b) is None,
{
}

/// Two digits are read as sixteen times the first and the second. A digit alone,
/// or behind a `+`, is read as itself. Nothing else is a number.
pub proof fn law_pairs_are_read_by_place(first: u8, second: u8, other: Seq<u8>)
    requires
        other.len() != 1,
        other.len() != 2,
    ensures
        digit_value(first) matches Some(high) ==> (digit_value(second) matches Some(low)
            ==> chunk_value(seq![first, second]) matches Some(value) && value == 16 * high + low),
        first != 0x2b && (digit_value(first) is None || digit_value(second) is None)
            ==> chunk_value(seq![first, second]) is None,
        digit_value(second) matches Some(low) ==> {
            &&& chunk_value(seq![second]) matches Some(value) && value == low
            &&& chunk_value(seq![0x2bu8, second]) matches Some(value) && value == low
        },
        digit_value(second) is None ==> chunk_value(seq![second]) is None && chunk_value(
            seq![0x2bu8, second],
        ) is None,
        chunk_value(other) is None,
{
}

/// Bytes are paired from the first on: those at `2 * i` and behind it are the `i`th
/// pair, and the last of an odd number stands alone. No more than twelve pairs are
/// read.
pub proof fn law_bytes_are_read_in_pairs(bytes: Seq<u8>, i: int)
    requires
        0 <= 2 * i < bytes.len(),
    ensures
        2 * i + 1 < bytes.len() ==> chunk(bytes, i) == seq![bytes[2 * i], bytes[2 * i + 1]],
        2 * i + 1 == bytes.len() ==> chunk(bytes, i) == seq![bytes[2 * i]],
        bytes.len() >= 23 ==> chunk_count(bytes) == 12,
        bytes.len() < 23 ==> 2 * chunk_count(bytes) - 1 <= bytes.len() <= 2 * chunk_count(bytes),
        chunk_count(Seq::empty()) == 0,
{
    if 2 * i + 1 < bytes.len() {
        assert(chunk(bytes, i) =~= seq![bytes[2 * i], bytes[2 * i + 1]]);
    } else {
        assert(chunk(bytes, i) =~= seq![bytes[2 * i]]);
    }
}

/// A text is read exactly where each of its pairs is a number, and then as those
/// numbers in their order. Else the first pair that is none is named.
pub proof fn law_text_is_read_pair_by_pair(text: Seq<char>)
    ensures
        ({
            let bytes = utf8::encode_utf8(text);
            match decoded_text(text) {
                Ok(values) => {
                    &&& values.len() == chunk_count(bytes)
                    &&& forall|i: int|
                        0 <= i < values.len() ==> chunk_value(chunk(bytes, i)) == Some(
                            #[trigger] values[i],
                        )
                },
                Err(k) => {
                    &&& k < chunk_count(bytes)
                    &&& chunk_value(chunk(bytes, k as int)) is None
                    &&& forall|i: int|
                        0 <= i < k ==> chunk_value(#[trigger] chunk(bytes, i)) is Some
                },
            }
        }),
{
    let bytes = utf8::encode_utf8(text);
    lemma_decoded_pairs(bytes, chunk_count(bytes));
}

proof fn lemma_decoded_pairs(bytes: Seq<u8>, n: nat)
    ensures
        match decoded(bytes, n) {
            Ok(values) => {
                &&& values.len() == n
                &&& forall|i: int|
                    0 <= i < n ==> chunk_value(#[trigger] chunk(bytes, i)) == Some(values[i])
                &&& forall|i: int|
                    0 <= i < n ==> chunk_value(chunk(bytes, i)) == Some(#[trigger] values[i])
            },
            Err(k) => {
                &&& k < n
                &&& chunk_value(chunk(bytes, k as int)) is None
                &&& forall|i: int| 0 <= i < k ==> chunk_value(#[trigger] chunk(bytes, i)) is Some
            },
        },
    decreases n,
{
    if n > 0 {
        lemma_decoded_pairs(bytes, (n - 1) as nat);
    }
}

/// A text of at least twenty-four bytes whose first twelve pairs are digits, in
/// either case, is read as the twelve numbers that sixteen times the first digit
/// and the second make.
pub proof fn law_digits_make_the_token(text: Seq<char>, high: Seq<int>, low: Seq<int>)
    requires
        high.len() == 12,
        low.len() == 12,
        utf8::encode_utf8(text).len() >= 24,
        forall|i: int|
            0 <= i < 12 ==> {
                let (h, b) = (#[trigger] high[i], utf8::encode_utf8(text)[2 * i]);
                ||| 0 <= h < 10 && b == 0x30 + h
                ||| 10 <= h < 16 && (b == 0x57 + h || b == 0x37 + h)
            },
        forall|i: int|
            0 <= i < 12 ==> {
                let (l, b) = (#[trigger] low[i], utf8::encode_utf8(text)[2 * i + 1]);
                ||| 0 <= l < 10 && b == 0x30 + l
                ||| 10 <= l < 16 && (b == 0x57 + l || b == 0x37 + l)
            },
    ensures
        decoded_text(text) matches Ok(values) && values.len() == 12 && forall|i: int|
            0 <= i < 12 ==> #[trigger] values[i] == 16 * high[i] + low[i],
{
    let bytes = utf8::encode_utf8(text);
    let values = Seq::new(12, |i: int| (16 * high[i] + low[i]) as u8);
    assert forall|i: int| 0 <= i < 12 implies chunk_value(#[trigger] chunk(bytes, i)) == Some(
        values[i],
    ) by {
        let (h, l) = (high[i], low[i]);
        let pair = chunk(bytes, i);
        assert(pair[0] == bytes[2 * i] && pair[1] == bytes[2 * i + 1]);
        assert(digit_value(pair[0]) == Some(h) && digit_value(pair[1]) == Some(l));
    }
    lemma_decoded_ok(bytes, 12, values);
    assert forall|i: int| 0 <= i < 12 implies #[trigger] values[i] == 16 * high[i] + low[i] by {
        let (h, l) = (high[i], low[i]);
        assert(0 <= 16 * h + l < 256);
    }
}

/// A token is its twelve bytes, each in its place, and is made of them as they are.
pub proof fn law_token_is_its_bytes(bytes: [u8; 12])
    ensures
        Token(bytes)@ == bytes@,
        Token(bytes)@.len() == 12,
        <Token as vstd::std_specs::convert::FromSpec<[u8; 12]>>::obeys_from_spec(),
        <Token as vstd::std_specs::convert::FromSpec<[u8; 12]>>::from_spec(bytes)@ == bytes@,
{
}

/// An error names the first pair that is no number by its place, and holds the
/// pair's bytes. A text has no two of them.
pub proof fn law_error_names_the_first_bad_pair(
    error: InvalidChunk,
    other: InvalidChunk,
    text: Seq<char>,
)
    requires
        is_error_of(error, text),
    ensures
        error.index < chunk_count(utf8::encode_utf8(text)),
        chunk_value(error.chunk@) is None,
        forall|i: int|
            0 <= i < error.index ==> chunk_value(
                #[trigger] chunk(utf8::encode_utf8(text), i),
            ) is Some,
        error.chunk@[0] == utf8::encode_utf8(text)[2 * error.index],
        2 * error.index + 1 < utf8::encode_utf8(text).len() ==> error.chunk@.len() == 2
            && error.chunk@[1] == utf8::encode_utf8(text)[2 * error.index + 1],
        2 * error.index + 1 == utf8::encode_utf8(text).len() ==> error.chunk@.len() == 1,
        is_error_of(other, text) <==> other.index == error.index && other.chunk@ == error.chunk@,
{
    let bytes = utf8::encode_utf8(text);
    lemma_decoded_pairs(bytes, chunk_count(bytes));
    law_bytes_are_read_in_pairs(bytes, error.index as int);
}

} // verus!
