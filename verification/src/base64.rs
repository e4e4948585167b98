//! Base64: bytes as text, four characters for three bytes, `=` filling the
//! last four where the bytes run out.

use vstd::prelude::*;

use crate::text::letters;

verus! {

/// Why a text is not base64.
#[derive(Clone, Copy, Debug, PartialEq, Eq, Structural)]
pub enum Malformed {
    /// The text is not a whole number of fours.
    Length,
    /// The text is fours, but no bytes are written so.
    Symbol,
}

/// What is said of a text that is not base64.
pub open spec fn words(malformed: Malformed) -> Seq<char> {
    match malformed {
        Malformed::Length => "a length that is not a multiple of four"@,
        Malformed::Symbol => "characters that no bytes are written with"@,
    }
}

impl Malformed {
    /// What is said of a text that is not base64.
    #[must_use]
    pub fn message(self) -> (message: &'static str)
        ensures
            message@ == words(self),
    {
        match self {
            Malformed::Length => "a length that is not a multiple of four",
            Malformed::Symbol => "characters that no bytes are written with",
        }
    }
}

/// The character that stands for the six bits `bits`.
pub open spec fn symbol(bits: int) -> char {
    if bits < 26 {
        (bits + 'A' as int) as char
    } else if bits < 52 {
        (bits - 26 + 'a' as int) as char
    } else if bits < 62 {
        (bits - 52 + '0' as int) as char
    } else if bits == 62 {
        '+'
    } else {
        '/'
    }
}

/// The four characters for the 24 bits `bits`.
pub open spec fn four(bits: int) -> Seq<char> {
    seq![
        symbol(bits / 262144),
        symbol(bits / 4096 % 64),
        symbol(bits / 64 % 64),
        symbol(bits % 64),
    ]
}

/// The base64 of `data`.
pub open spec fn encoded(data: Seq<u8>) -> Seq<char>
    decreases data.len(),
{
    if data.len() == 0 {
        Seq::empty()
    } else if data.len() == 1 {
        four(data[0] * 65536).take(2) + seq!['=', '=']
    } else if data.len() == 2 {
        four(data[0] * 65536 + data[1] * 256).take(3) + seq!['=']
    } else {
        four(data[0] * 65536 + data[1] * 256 + data[2]) + encoded(data.skip(3))
    }
}

/// The bytes that `text` is the base64 of, or why it is of none.
pub open spec fn decoded(text: Seq<char>) -> Result<Seq<u8>, Malformed> {
    if exists|data: Seq<u8>| encoded(data) == text {
        Ok(choose|data: Seq<u8>| encoded(data) == text)
    } else if text.len() % 4 != 0 {
        Err(Malformed::Length)
    } else {
        Err(Malformed::Symbol)
    }
}

/// The six bits `letter` stands for.
spec fn bits(letter: char) -> Option<int> {
    let code = letter as int;
    if 'A' as int <= code <= 'Z' as int {
        Some(code - 'A' as int)
    } else if 'a' as int <= code <= 'z' as int {
        Some(code - 'a' as int + 26)
    } else if '0' as int <= code <= '9' as int {
        Some(code - '0' as int + 52)
    } else if letter == '+' {
        Some(62)
    } else if letter == '/' {
        Some(63)
    } else {
        None
    }
}

/// The bytes one four stands for; fewer than three only where it is `last`.
spec fn group(a: char, b: char, c: char, d: char, last: bool) -> Option<Seq<u8>> {
    match (bits(a), bits(b), bits(c), bits(d)) {
        (Some(a), Some(b), Some(c), Some(d)) => Some(
            seq![(a * 4 + b / 16) as u8, (b % 16 * 16 + c / 4) as u8, (c % 4 * 64 + d) as u8],
        ),
        (Some(a), Some(b), Some(c), None) => if last && d == '=' && c % 4 == 0 {
            Some(seq![(a * 4 + b / 16) as u8, (b % 16 * 16 + c / 4) as u8])
        } else {
            None
        },
        (Some(a), Some(b), None, None) => if last && c == '=' && d == '=' && b % 16 == 0 {
            Some(seq![(a * 4 + b / 16) as u8])
        } else {
            None
        },
        _ => None,
    }
}

/// The bytes `text` stands for, read four by four.
spec fn read(text: Seq<char>) -> Option<Seq<u8>>
    decreases text.len(),
{
    if text.len() == 0 {
        Some(Seq::empty())
    } else if text.len() < 4 {
        None
    } else {
        match (group(text[0], text[1], text[2], text[3], text.len() == 4), read(text.skip(4))) {
            (Some(first), Some(rest)) => Some(first + rest),
            _ => None,
        }
    }
}

proof fn lemma_symbol(value: int)
    requires
        0 <= value < 64,
    ensures
        bits(symbol(value)) == Some(value),
        symbol(value) != '=',
{
}

proof fn lemma_bits(letter: char)
    ensures
        bits(letter) matches Some(value) ==> 0 <= value < 64 && symbol(value) == letter,
        bits('=') is None,
{
}

/// Three bytes cut into sixes, and put together from them.
proof fn lemma_cut(x: int, y: int, z: int)
    requires
        0 <= x < 256,
        0 <= y < 256,
        0 <= z < 256,
    ensures
        ({
            let value = x * 65536 + y * 256 + z;
            let (a, b, c, d) = (
                value / 262144,
                value / 4096 % 64,
                value / 64 % 64,
                value % 64,
            );
            &&& a == x / 4
            &&& b == x % 4 * 16 + y / 16
            &&& c == y % 16 * 4 + z / 64
            &&& d == z % 64
        }),
{
    let value = x * 65536 + y * 256 + z;
    let second = x % 4 * 16 + y / 16;
    let third = y % 16 * 4 + z / 64;
    vstd::arithmetic::div_mod::lemma_fundamental_div_mod_converse(
        value,
        262144,
        x / 4,
        second * 4096 + third * 64 + z % 64,
    );
    vstd::arithmetic::div_mod::lemma_fundamental_div_mod_converse(value, 4096, x / 4 * 64 + second, third * 64 + z % 64);
    vstd::arithmetic::div_mod::lemma_fundamental_div_mod_converse(
        value,
        64,
        x / 4 * 4096 + second * 64 + third,
        z % 64,
    );
}

/// Four sixes put together into three bytes, and cut from them.
proof fn lemma_join(a: int, b: int, c: int, d: int)
    requires
        0 <= a < 64,
        0 <= b < 64,
        0 <= c < 64,
        0 <= d < 64,
    ensures
        ({
            let (x, y, z) = (a * 4 + b / 16, b % 16 * 16 + c / 4, c % 4 * 64 + d);
            let value = x * 65536 + y * 256 + z;
            &&& 0 <= x < 256
            &&& 0 <= y < 256
            &&& 0 <= z < 256
            &&& value / 262144 == a
            &&& value / 4096 % 64 == b
            &&& value / 64 % 64 == c
            &&& value % 64 == d
        }),
{
    let (x, y, z) = (a * 4 + b / 16, b % 16 * 16 + c / 4, c % 4 * 64 + d);
    lemma_cut(x, y, z);
}

/// What `four` writes of three bytes, `group` reads back.
proof fn lemma_group_four(x: u8, y: u8, z: u8, last: bool)
    ensures
        ({
            let text = four(x * 65536 + y * 256 + z);
            &&& text.len() == 4
            &&& group(text[0], text[1], text[2], text[3], last) == Some(seq![x, y, z])
            &&& z == 0 ==> group(text[0], text[1], text[2], '=', true) == Some(seq![x, y])
            &&& y == 0 && z == 0 ==> group(text[0], text[1], '=', '=', true) == Some(seq![x])
        }),
{
    let value = x * 65536 + y * 256 + z;
    lemma_cut(x as int, y as int, z as int);
    lemma_symbol(value / 262144);
    lemma_symbol(value / 4096 % 64);
    lemma_symbol(value / 64 % 64);
    lemma_symbol(value % 64);
    lemma_bits('=');
}

/// Only a whole number of fours is read.
proof fn lemma_read_len(text: Seq<char>)
    ensures
        read(text) is Some ==> text.len() % 4 == 0,
    decreases text.len(),
{
    if text.len() >= 4 {
        lemma_read_len(text.skip(4));
    }
}

/// What `encoded` writes, `read` reads back.
proof fn lemma_read_encoded(data: Seq<u8>)
    ensures
        read(encoded(data)) == Some(data),
    decreases data.len(),
{
    reveal_with_fuel(read, 2);
    let text = encoded(data);
    if data.len() == 0 {
    } else if data.len() == 1 {
        lemma_group_four(data[0], 0, 0, true);
        assert(text.skip(4) =~= Seq::<char>::empty());
        assert(read(text)->0 =~= data);
    } else if data.len() == 2 {
        lemma_group_four(data[0], data[1], 0, true);
        assert(text.skip(4) =~= Seq::<char>::empty());
        assert(read(text)->0 =~= data);
    } else {
        let rest = data.skip(3);
        lemma_group_four(data[0], data[1], data[2], text.len() == 4);
        lemma_read_encoded(rest);
        assert(text.skip(4) =~= encoded(rest));
        assert(read(text)->0 =~= data);
    }
}

/// What `group` reads, `encoded` writes back.
proof fn lemma_encoded_group(a: char, b: char, c: char, d: char, last: bool)
    ensures
        group(a, b, c, d, last) matches Some(data) ==> {
            &&& 1 <= data.len() <= 3
            &&& data.len() < 3 ==> last
            &&& encoded(data) == seq![a, b, c, d]
        },
{
    if let Some(data) = group(a, b, c, d, last) {
        lemma_bits(a);
        lemma_bits(b);
        lemma_bits(c);
        lemma_bits(d);
        let p = bits(a)->0;
        let q = bits(b)->0;
        let r: int = if bits(c) is Some {
            bits(c)->0
        } else {
            0
        };
        let s: int = if bits(d) is Some {
            bits(d)->0
        } else {
            0
        };
        lemma_join(p, q, r, s);
        if data.len() == 3 {
            assert(encoded(data.skip(3)) =~= Seq::<char>::empty());
        }
        assert(encoded(data) =~= seq![a, b, c, d]);
    }
}

/// What `read` reads, `encoded` writes back.
proof fn lemma_encoded_read(text: Seq<char>)
    ensures
        read(text) matches Some(data) ==> encoded(data) == text,
    decreases text.len(),
{
    if text.len() >= 4 && read(text) is Some {
        let data = read(text)->0;
        let rest = text.skip(4);
        lemma_encoded_read(rest);
        lemma_encoded_group(text[0], text[1], text[2], text[3], text.len() == 4);
        let first = group(text[0], text[1], text[2], text[3], text.len() == 4)->0;
        let after = read(rest)->0;
        if first.len() == 3 {
            assert(data.skip(3) =~= after);
            assert(first.skip(3) =~= Seq::<u8>::empty());
            assert(encoded(data) =~= encoded(first) + encoded(after));
        } else {
            assert(rest.len() == 0);
            assert(data =~= first);
        }
        assert(encoded(data) =~= text);
    }
}

/// Base64 is four characters for every three bytes begun.
pub proof fn lemma_encoded_len(data: Seq<u8>)
    ensures
        encoded(data).len() == (data.len() + 2) / 3 * 4,
    decreases data.len(),
{
    if data.len() > 2 {
        lemma_encoded_len(data.skip(3));
    }
}

/// Base64 is ASCII, and stands in JSON as it is.
pub proof fn lemma_encoded_verbatim(data: Seq<u8>)
    ensures
        vstd::utf8::is_ascii_chars(encoded(data)),
        crate::json::verbatim(encoded(data)),
    decreases data.len(),
{
    if data.len() > 2 {
        lemma_encoded_verbatim(data.skip(3));
    }
}

/// Bytes written as base64 are read back the same bytes.
pub proof fn lemma_decoded_encoded(data: Seq<u8>)
    ensures
        decoded(encoded(data)) == Ok::<Seq<u8>, Malformed>(data),
{
    let text = encoded(data);
    let found = choose|found: Seq<u8>| encoded(found) == text;
    lemma_read_encoded(data);
    lemma_read_encoded(found);
}

/// A text that decodes is the very text its bytes encode to.
pub proof fn lemma_encoded_decoded(text: Seq<char>)
    ensures
        decoded(text) matches Ok(data) ==> encoded(data) == text,
{
}

/// `decoded` is what `read` reads.
proof fn lemma_decoded_read(text: Seq<char>)
    ensures
        decoded(text) == match read(text) {
            Some(data) => Ok::<Seq<u8>, Malformed>(data),
            None => Err(
                if text.len() % 4 != 0 {
                    Malformed::Length
                } else {
                    Malformed::Symbol
                },
            ),
        },
{
    lemma_encoded_read(text);
    if let Some(data) = read(text) {
        lemma_decoded_encoded(data);
    }
    if exists|data: Seq<u8>| encoded(data) == text {
        lemma_read_encoded(choose|data: Seq<u8>| encoded(data) == text);
    }
}

/// The character that stands for the six bits `value`.
fn letter(value: u32) -> (letter: char)
    requires
        value < 64,
    ensures
        letter == symbol(value as int),
{
    let value: u8 = value as u8;
    if value < 26 {
        (value + 65) as char
    } else if value < 52 {
        (value + 71) as char
    } else if value < 62 {
        (value - 4) as char
    } else if value == 62 {
        '+'
    } else {
        '/'
    }
}

/// The six bits `letter` stands for.
fn value(letter: char) -> (value: Option<u32>)
    ensures
        value matches Some(value) ==> value < 64 && bits(letter) == Some(value as int),
        value is None ==> bits(letter) is None,
{
    let code: u32 = letter as u32;
    if 65 <= code && code <= 90 {
        Some(code - 65)
    } else if 97 <= code && code <= 122 {
        Some(code - 71)
    } else if 48 <= code && code <= 57 {
        Some(code + 4)
    } else if code == 43 {
        Some(62)
    } else if code == 47 {
        Some(63)
    } else {
        None
    }
}

/// `data` as base64.
pub fn encode(data: &[u8]) -> (text: String)
    ensures
        text@ == encoded(data@),
{
    let mut text = String::new();
    let mut at: usize = 0;
    assert(data@.skip(0) =~= data@);
    while data.len() - at >= 3
        invariant
            at <= data@.len(),
            encoded(data@) == text@ + encoded(data@.skip(at as int)),
        decreases data@.len() - at,
    {
        let bits: u32 = data[at] as u32 * 65536 + data[at + 1] as u32 * 256 + data[at + 2] as u32;
        let ghost before = text@;
        text.push(letter(bits / 262144));
        text.push(letter(bits / 4096 % 64));
        text.push(letter(bits / 64 % 64));
        text.push(letter(bits % 64));
        proof {
            assert(data@.skip(at as int).skip(3) =~= data@.skip(at + 3));
            assert(text@ =~= before + four(bits as int));
            assert(encoded(data@) =~= text@ + encoded(data@.skip(at + 3)));
        }
        at += 3;
    }
    let ghost rest = data@.skip(at as int);
    let ghost before = text@;
    if data.len() - at == 1 {
        let bits: u32 = data[at] as u32 * 65536;
        text.push(letter(bits / 262144));
        text.push(letter(bits / 4096 % 64));
        text.push('=');
        text.push('=');
    } else if data.len() - at == 2 {
        let bits: u32 = data[at] as u32 * 65536 + data[at + 1] as u32 * 256;
        text.push(letter(bits / 262144));
        text.push(letter(bits / 4096 % 64));
        text.push(letter(bits / 64 % 64));
        text.push('=');
    }
    assert(text@ =~= before + encoded(rest));
    text
}

/// The bytes `text` is the base64 of.
///
/// # Errors
/// Where `text` is the base64 of no bytes.
pub fn decode(text: &str) -> (data: Result<Vec<u8>, Malformed>)
    ensures
        match data {
            Ok(data) => decoded(text@) == Ok::<Seq<u8>, Malformed>(data@),
            Err(malformed) => decoded(text@) == Err::<Seq<u8>, Malformed>(malformed),
        },
{
    let letters = letters(text);
    proof {
        lemma_decoded_read(text@);
        assert(letters@.skip(0) =~= letters@);
    }
    if letters.len() % 4 != 0 {
        proof {
            lemma_read_len(text@);
        }
        return Err(Malformed::Length);
    }
    let mut data: Vec<u8> = Vec::new();
    let mut at: usize = 0;
    while at < letters.len()
        invariant
            letters@ == text@,
            at <= letters@.len(),
            (letters@.len() - at) % 4 == 0,
            letters@.len() % 4 == 0,
            decoded(text@) == match read(text@) {
                Some(data) => Ok::<Seq<u8>, Malformed>(data),
                None => Err(Malformed::Symbol),
            },
            read(text@) == match read(letters@.skip(at as int)) {
                Some(rest) => Some(data@ + rest),
                None => None,
            },
        decreases letters@.len() - at,
    {
        let ghost before = data@;
        let ghost rest = letters@.skip(at as int);
        let (third, fourth) = (letters[at + 2], letters[at + 3]);
        let last = letters.len() - at == 4;
        match (value(letters[at]), value(letters[at + 1]), value(third), value(fourth)) {
            (Some(a), Some(b), Some(c), Some(d)) => {
                data.push((a * 4 + b / 16) as u8);
                data.push((b % 16 * 16 + c / 4) as u8);
                data.push((c % 4 * 64 + d) as u8);
            },
            (Some(a), Some(b), Some(c), None) if last && fourth == '=' && c % 4 == 0 => {
                data.push((a * 4 + b / 16) as u8);
                data.push((b % 16 * 16 + c / 4) as u8);
            },
            (Some(a), Some(b), None, None) if last && third == '=' && fourth == '=' && b % 16 == 0
            => {
                data.push((a * 4 + b / 16) as u8);
            },
            _ => {
                return Err(Malformed::Symbol);
            },
        }
        proof {
            let first = group(rest[0], rest[1], rest[2], rest[3], rest.len() == 4)->0;
            assert(data@ =~= before + first);
            assert(rest.skip(4) =~= letters@.skip(at + 4));
            if let Some(after) = read(rest.skip(4)) {
                assert(before + (first + after) =~= data@ + after);
            }
        }
        at += 4;
    }
    assert(letters@.skip(at as int) =~= Seq::<char>::empty());
    assert(data@ + Seq::<u8>::empty() =~= data@);
    Ok(data)
}

/// The letters of base64, each at the place of the six bits it stands for.
pub open spec fn alphabet() -> Seq<char> {
    "ABCDEFGHIJKLMNOPQRSTUVWXYZabcdefghijklmnopqrstuvwxyz0123456789+/"@
}

/// A letter of base64 stands at the place of its six bits.
proof fn lemma_alphabet(value: int)
    requires
        0 <= value < 64,
    ensures
        alphabet().len() == 64,
        symbol(value) == alphabet()[value],
{
    reveal_strlit("ABCDEFGHIJKLMNOPQRSTUVWXYZabcdefghijklmnopqrstuvwxyz0123456789+/");
}

/// Three bytes are written as four letters, six bits each, from the left, at
/// the place that those before them leave.
pub proof fn law_three_bytes_are_four_letters(data: Seq<u8>, at: int)
    requires
        0 <= at,
        3 * at + 3 <= data.len(),
    ensures
        ({
            let text = encoded(data);
            let (x, y, z) = (data[3 * at], data[3 * at + 1], data[3 * at + 2]);
            &&& text.len() >= 4 * at + 4
            &&& text[4 * at] == alphabet()[x as int / 4]
            &&& text[4 * at + 1] == alphabet()[x as int % 4 * 16 + y as int / 16]
            &&& text[4 * at + 2] == alphabet()[y as int % 16 * 4 + z as int / 64]
            &&& text[4 * at + 3] == alphabet()[z as int % 64]
        }),
    decreases at,
{
    let text = encoded(data);
    let rest = data.skip(3);
    if at == 0 {
        let (x, y, z) = (data[0], data[1], data[2]);
        lemma_cut(x as int, y as int, z as int);
        lemma_alphabet(x as int / 4);
        lemma_alphabet(x as int % 4 * 16 + y as int / 16);
        lemma_alphabet(y as int % 16 * 4 + z as int / 64);
        lemma_alphabet(z as int % 64);
    } else {
        law_three_bytes_are_four_letters(rest, at - 1);
        assert(data[3 * at] == rest[3 * (at - 1)]);
        assert(data[3 * at + 1] == rest[3 * (at - 1) + 1]);
        assert(data[3 * at + 2] == rest[3 * (at - 1) + 2]);
        assert(forall|i: int| 4 <= i < text.len() ==> #[trigger] text[i] == encoded(rest)[i - 4]);
    }
}

/// What is written of a first three bytes stands before what is written of the
/// rest.
proof fn lemma_encoded_skip(data: Seq<u8>)
    requires
        data.len() > 2,
    ensures
        encoded(data) == four(data[0] * 65536 + data[1] * 256 + data[2]) + encoded(data.skip(3)),
{
}

/// Texts joined one by one are joined alike from either side.
proof fn lemma_join_ends(first: Seq<char>, middle: Seq<char>, end: Seq<char>)
    ensures
        first + (middle + end) == (first + middle) + end,
{
    assert(first + (middle + end) =~= (first + middle) + end);
}

/// One byte behind whole threes is two letters, and two `=` fill the four.
pub proof fn law_one_byte_left_is_filled(threes: Seq<u8>, x: u8)
    requires
        threes.len() % 3 == 0,
    ensures
        encoded(threes.push(x)) == encoded(threes) + seq![
            alphabet()[x as int / 4],
            alphabet()[x as int % 4 * 16],
            '=',
            '=',
        ],
    decreases threes.len(),
{
    let data = threes.push(x);
    let end = seq![alphabet()[x as int / 4], alphabet()[x as int % 4 * 16], '=', '='];
    if threes.len() == 0 {
        lemma_cut(x as int, 0, 0);
        lemma_alphabet(x as int / 4);
        lemma_alphabet(x as int % 4 * 16);
        assert(encoded(data) =~= end);
        assert(encoded(threes) + end =~= end);
    } else {
        let rest = threes.skip(3);
        law_one_byte_left_is_filled(rest, x);
        lemma_encoded_skip(data);
        lemma_encoded_skip(threes);
        assert(data.skip(3) =~= rest.push(x));
        lemma_join_ends(
            four(threes[0] * 65536 + threes[1] * 256 + threes[2]),
            encoded(rest),
            end,
        );
    }
}

/// Two bytes behind whole threes are three letters, and one `=` fills the four.
pub proof fn law_two_bytes_left_are_filled(threes: Seq<u8>, x: u8, y: u8)
    requires
        threes.len() % 3 == 0,
    ensures
        encoded(threes.push(x).push(y)) == encoded(threes) + seq![
            alphabet()[x as int / 4],
            alphabet()[x as int % 4 * 16 + y as int / 16],
            alphabet()[y as int % 16 * 4],
            '=',
        ],
    decreases threes.len(),
{
    let data = threes.push(x).push(y);
    let end = seq![
        alphabet()[x as int / 4],
        alphabet()[x as int % 4 * 16 + y as int / 16],
        alphabet()[y as int % 16 * 4],
        '=',
    ];
    if threes.len() == 0 {
        lemma_cut(x as int, y as int, 0);
        lemma_alphabet(x as int / 4);
        lemma_alphabet(x as int % 4 * 16 + y as int / 16);
        lemma_alphabet(y as int % 16 * 4);
        assert(encoded(data) =~= end);
        assert(encoded(threes) + end =~= end);
    } else {
        let rest = threes.skip(3);
        law_two_bytes_left_are_filled(rest, x, y);
        lemma_encoded_skip(data);
        lemma_encoded_skip(threes);
        assert(data.skip(3) =~= rest.push(x).push(y));
        lemma_join_ends(
            four(threes[0] * 65536 + threes[1] * 256 + threes[2]),
            encoded(rest),
            end,
        );
    }
}

/// No bytes are no letters, and every three begun are four.
pub proof fn law_base64_is_four_for_three(data: Seq<u8>)
    ensures
        encoded(data).len() == (data.len() + 2) / 3 * 4,
{
    lemma_encoded_len(data);
}

/// A text is read as the bytes it is the base64 of, and as nothing where it is
/// the base64 of none.
pub proof fn law_base64_is_read_as_what_it_writes(text: Seq<char>, data: Seq<u8>)
    ensures
        decoded(text) == Ok::<Seq<u8>, Malformed>(data) <==> encoded(data) == text,
        text.len() % 4 != 0 ==> decoded(text) == Err::<Seq<u8>, Malformed>(Malformed::Length),
        decoded(text) is Err && text.len() % 4 == 0 ==> decoded(text) == Err::<Seq<u8>, Malformed>(
            Malformed::Symbol,
        ),
{
    lemma_decoded_encoded(data);
    lemma_encoded_decoded(text);
    if let Ok(found) = decoded(text) {
        lemma_encoded_len(found);
    }
}

} // verus!
