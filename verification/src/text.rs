//! Text as the rest of the library handles it: taken apart into characters,
//! put together again, compared, and the numerals that stand in ids and
//! messages.

use vstd::prelude::*;

verus! {

/// `String::push` appends the one character to the end of the text.
pub assume_specification[ String::push ](text: &mut String, letter: char)
    ensures
        final(text)@ == old(text)@.push(letter),
;

/// The characters of `text`, in order.
pub fn letters(text: &str) -> (taken: Vec<char>)
    ensures
        taken@ == text@,
{
    let mut taken: Vec<char> = Vec::new();
    for letter in it: text.chars()
        invariant
            taken@ == it.seq().take(it.index()),
    {
        taken.push(letter);
    }
    taken
}

/// The text that `letters` spells from `from` up to `to`.
pub fn spell(letters: &Vec<char>, from: usize, to: usize) -> (text: String)
    requires
        from <= to <= letters@.len(),
    ensures
        text@ == letters@.subrange(from as int, to as int),
{
    let mut text = String::new();
    let mut at: usize = from;
    while at < to
        invariant
            from <= at <= to <= letters@.len(),
            text@ == letters@.subrange(from as int, at as int),
        decreases to - at,
    {
        text.push(letters[at]);
        at += 1;
    }
    text
}

/// Whether `a` and `b` are the same text.
pub fn same(a: &str, b: &str) -> (alike: bool)
    ensures
        alike == (a@ == b@),
{
    a.to_owned() == b.to_owned()
}

/// `letter`, in lower case where it is an ASCII capital.
pub open spec fn lowered(letter: char) -> char {
    if 'A' as int <= letter as int <= 'Z' as int {
        (letter as int + 32) as char
    } else {
        letter
    }
}

/// `name`, its ASCII capitals in lower case.
pub open spec fn folded(name: Seq<char>) -> Seq<char> {
    name.map_values(|letter: char| lowered(letter))
}

/// `letter`, in lower case where it is an ASCII capital.
fn lower(letter: char) -> (low: char)
    ensures
        low == lowered(letter),
{
    let code: u32 = letter as u32;
    if 65 <= code && code <= 90 {
        (code as u8 + 32) as char
    } else {
        letter
    }
}

/// Whether `a` and `b` are the same name, whichever of their ASCII letters
/// are capitals.
pub fn same_name(a: &str, b: &str) -> (alike: bool)
    ensures
        alike == (folded(a@) == folded(b@)),
{
    let left = letters(a);
    let right = letters(b);
    if left.len() != right.len() {
        assert(folded(a@).len() != folded(b@).len());
        return false;
    }
    let mut at: usize = 0;
    while at < left.len()
        invariant
            left@ == a@,
            right@ == b@,
            left@.len() == right@.len(),
            at <= left@.len(),
            forall|i: int| 0 <= i < at ==> lowered(#[trigger] left@[i]) == lowered(right@[i]),
        decreases left@.len() - at,
    {
        if lower(left[at]) != lower(right[at]) {
            assert(folded(a@)[at as int] != folded(b@)[at as int]);
            return false;
        }
        at += 1;
    }
    assert(folded(a@) =~= folded(b@));
    true
}

/// `text` ends with `ending`.
pub open spec fn ended(text: Seq<char>, ending: Seq<char>) -> bool {
    ending.len() <= text.len() && text.skip(text.len() - ending.len()) == ending
}

/// Whether `text` ends with `ending`.
pub fn ends_with(text: &str, ending: &str) -> (ends: bool)
    ensures
        ends == ended(text@, ending@),
{
    let whole = letters(text);
    let end = letters(ending);
    if end.len() > whole.len() {
        return false;
    }
    let tail = spell(&whole, whole.len() - end.len(), whole.len());
    same(tail.as_str(), ending)
}

/// The digit for `value`, which is below sixteen.
pub open spec fn digit(value: int) -> char {
    if value < 10 {
        (value + '0' as int) as char
    } else {
        (value - 10 + 'a' as int) as char
    }
}

/// The numeral of `number` to the base `base`, from two to sixteen.
pub open spec fn numeral(number: nat, base: nat) -> Seq<char>
    decreases number,
{
    if base < 2 || number < base {
        seq![digit(number as int)]
    } else {
        proof {
            vstd::arithmetic::div_mod::lemma_div_decreases(number as int, base as int);
        }
        numeral(number / base, base).push(digit((number % base) as int))
    }
}

/// The numeral of `number` to the base `base`.
fn write_numeral(number: u64, base: u64) -> (text: String)
    requires
        2 <= base <= 16,
    ensures
        text@ == numeral(number as nat, base as nat),
    decreases number,
{
    let value: u8 = (number % base) as u8;
    let letter = if value < 10 {
        (value + 48) as char
    } else {
        (value + 87) as char
    };
    let mut text = if number < base {
        proof {
            vstd::arithmetic::div_mod::lemma_small_mod(number as nat, base as nat);
        }
        String::new()
    } else {
        proof {
            vstd::arithmetic::div_mod::lemma_div_decreases(number as int, base as int);
        }
        write_numeral(number / base, base)
    };
    text.push(letter);
    text
}

/// `number` in decimal.
pub fn decimal(number: u64) -> (text: String)
    ensures
        text@ == numeral(number as nat, 10),
{
    write_numeral(number, 10)
}

/// `number` in hexadecimal, in lower case.
pub fn hexadecimal(number: u64) -> (text: String)
    ensures
        text@ == numeral(number as nat, 16),
{
    write_numeral(number, 16)
}

/// Different numbers have different numerals.
pub proof fn lemma_numeral_injective(a: nat, b: nat, base: nat)
    requires
        2 <= base <= 16,
        numeral(a, base) == numeral(b, base),
    ensures
        a == b,
    decreases a,
{
    let left = numeral(a, base);
    let right = numeral(b, base);
    lemma_numeral(a, base);
    lemma_numeral(b, base);
    if a < base && b < base {
        assert(left[0] == digit(a as int));
        assert(right[0] == digit(b as int));
    } else if a < base {
        lemma_numeral(b / base, base);
    } else if b < base {
        lemma_numeral(a / base, base);
    } else {
        assert(left.drop_last() =~= numeral(a / base, base));
        assert(right.drop_last() =~= numeral(b / base, base));
        vstd::arithmetic::div_mod::lemma_div_decreases(a as int, base as int);
        vstd::arithmetic::div_mod::lemma_mod_bound(a as int, base as int);
        vstd::arithmetic::div_mod::lemma_mod_bound(b as int, base as int);
        assert(left[left.len() - 1] == digit((a % base) as int));
        assert(right[right.len() - 1] == digit((b % base) as int));
        lemma_numeral_injective(a / base, b / base, base);
        vstd::arithmetic::div_mod::lemma_fundamental_div_mod(a as int, base as int);
        vstd::arithmetic::div_mod::lemma_fundamental_div_mod(b as int, base as int);
    }
}

/// The numeral of a number below a power of the base has no more digits than
/// that power says.
pub proof fn lemma_numeral_len(number: nat, base: nat, most: nat)
    requires
        2 <= base <= 16,
        most > 0,
        number < vstd::arithmetic::power::pow(base as int, most),
    ensures
        numeral(number, base).len() <= most,
    decreases most,
{
    if number >= base {
        let fewer = (most - 1) as nat;
        let power = vstd::arithmetic::power::pow(base as int, fewer);
        reveal(vstd::arithmetic::power::pow);
        if fewer == 0 {
            assert(power == 1);
            assert(base * 1 == base);
        } else {
            assert(number < base * power);
            assert(number / base < power) by (nonlinear_arith)
                requires
                    number < base * power,
                    base > 0,
            ;
            lemma_numeral_len(number / base, base, fewer);
        }
    }
}

/// A numeral is one digit or more, and digits alone: it is ASCII, and stands
/// in JSON as it is.
pub proof fn lemma_numeral(number: nat, base: nat)
    requires
        2 <= base <= 16,
    ensures
        numeral(number, base).len() > 0,
        !numeral(number, base).contains('-'),
        vstd::utf8::is_ascii_chars(numeral(number, base)),
        crate::json::verbatim(numeral(number, base)),
    decreases number,
{
    let text = numeral(number, base);
    if number >= base {
        vstd::arithmetic::div_mod::lemma_div_decreases(number as int, base as int);
        vstd::arithmetic::div_mod::lemma_mod_bound(number as int, base as int);
        lemma_numeral(number / base, base);
        let rest = numeral(number / base, base);
        assert forall|at: int| 0 <= at < text.len() implies text[at] != '-' by {
            if at < rest.len() {
                assert(rest.contains(rest[at]));
            }
        }
    }
}

/// What the digit `letter` is worth, from zero to fifteen; nothing else is a
/// digit, capitals included.
pub open spec fn worth_of(letter: char) -> Option<int> {
    if '0' <= letter <= '9' {
        Some(letter as int - '0' as int)
    } else if 'a' <= letter <= 'f' {
        Some(letter as int - 'a' as int + 10)
    } else {
        None
    }
}

/// What the digits of `text` are worth by their places, to the base `base`.
pub open spec fn worth(text: Seq<char>, base: int) -> int
    decreases text.len(),
{
    if text.len() == 0 {
        0
    } else {
        worth(text.drop_last(), base) * base + worth_of(text.last())->0
    }
}

/// A numeral is worth its number, each of its letters is a digit of the base,
/// and it has no zero in front but where it is zero.
pub proof fn law_numeral_is_worth_its_number(number: nat, base: nat)
    requires
        2 <= base <= 16,
    ensures
        worth(numeral(number, base), base as int) == number,
        forall|at: int|
            0 <= at < numeral(number, base).len() ==> (worth_of(
                #[trigger] numeral(number, base)[at],
            ) matches Some(value) && 0 <= value < base),
        numeral(number, base).len() > 0,
        number > 0 ==> numeral(number, base)[0] != '0',
        number == 0 ==> numeral(number, base) == "0"@,
    decreases number,
{
    let text = numeral(number, base);
    reveal_with_fuel(worth, 2);
    reveal_strlit("0");
    if number < base {
        assert(text.drop_last() =~= Seq::empty());
        assert(text.last() == digit(number as int));
        assert(0 * base == 0) by (nonlinear_arith);
        assert(number == 0 ==> text =~= "0"@);
    } else {
        vstd::arithmetic::div_mod::lemma_div_decreases(number as int, base as int);
        vstd::arithmetic::div_mod::lemma_mod_bound(number as int, base as int);
        vstd::arithmetic::div_mod::lemma_fundamental_div_mod(number as int, base as int);
        let rest = numeral(number / base, base);
        law_numeral_is_worth_its_number(number / base, base);
        assert(text.drop_last() =~= rest);
        assert(text.last() == digit((number % base) as int));
        assert((number / base) * base == base * (number / base)) by (nonlinear_arith);
        assert(number / base > 0) by {
            vstd::arithmetic::div_mod::lemma_div_is_ordered(
                base as int,
                number as int,
                base as int,
            );
            vstd::arithmetic::div_mod::lemma_div_by_self(base as int);
        }
        assert forall|at: int| 0 <= at < text.len() implies (worth_of(
            #[trigger] text[at],
        ) matches Some(value) && 0 <= value < base) by {
            if at < rest.len() {
                assert(text[at] == rest[at]);
            }
        }
    }
}

/// Two letters are one but for an ASCII capital.
pub open spec fn alike(a: char, b: char) -> bool {
    ||| a == b
    ||| 'A' <= a <= 'Z' && b as int == a as int + 32
    ||| 'A' <= b <= 'Z' && a as int == b as int + 32
}

/// Names are the same exactly where they are letter by letter, ASCII capitals
/// apart.
pub proof fn law_names_differ_by_capitals_alone(a: Seq<char>, b: Seq<char>)
    ensures
        folded(a) == folded(b) <==> a.len() == b.len() && forall|at: int|
            0 <= at < a.len() ==> alike(#[trigger] a[at], b[at]),
{
    if folded(a) == folded(b) {
        assert(folded(a).len() == folded(b).len());
        assert forall|at: int| 0 <= at < a.len() implies alike(#[trigger] a[at], b[at]) by {
            assert(folded(a)[at] == folded(b)[at]);
            assert(lowered(a[at]) == lowered(b[at]));
        }
    }
    if a.len() == b.len() && forall|at: int|
        0 <= at < a.len() ==> alike(#[trigger] a[at], b[at]) {
        assert(folded(a) =~= folded(b));
    }
}

/// What stands in front of an ending is any text, and nothing else ends so.
pub proof fn law_text_ends_with_its_ending(text: Seq<char>, stem: Seq<char>, ending: Seq<char>)
    ensures
        ended(stem + ending, ending),
        ended(text, ending) ==> text == text.take(text.len() - ending.len()) + ending,
{
    assert((stem + ending).skip(stem.len() as int) =~= ending);
    if ended(text, ending) {
        let cut = text.len() - ending.len();
        assert(text =~= text.take(cut) + text.skip(cut));
    }
}

} // verus!
