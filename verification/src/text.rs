//! Text: numbers written out in digits, and the words of a line.

use vstd::prelude::*;
use vstd::utf8::is_ascii_chars;

verus! {

/// The character for one digit of a number in a base up to sixteen.
pub open spec fn digit_char(d: nat) -> char {
    if d < 10 {
        (48 + d) as char
    } else {
        (87 + d) as char
    }
}

/// The digits of `n` in the given base, most significant first, without leading zeros.
pub open spec fn numeral(n: nat, base: nat) -> Seq<char>
    decreases n,
{
    if base < 2 || n < base {
        seq![digit_char(n)]
    } else {
        proof {
            assert(n / base < n) by (nonlinear_arith)
                requires
                    n >= base,
                    base >= 2,
            ;
        }
        numeral(n / base, base).push(digit_char(n % base))
    }
}

/// The decimal digits of `n`.
pub open spec fn decimal(n: nat) -> Seq<char> {
    numeral(n, 10)
}

/// The decimal digits of `n`, after a minus sign where it is negative.
pub open spec fn signed_decimal(n: int) -> Seq<char> {
    if n < 0 {
        seq!['-'] + decimal((-n) as nat)
    } else {
        decimal(n as nat)
    }
}

/// The lower-case hexadecimal digits of `n`.
pub open spec fn hexadecimal(n: nat) -> Seq<char> {
    numeral(n, 16)
}

/// The number that one digit stands for.
pub open spec fn digit_value(c: char) -> nat {
    if (c as nat) < 58 {
        (c as nat - 48) as nat
    } else {
        (c as nat - 87) as nat
    }
}

/// The number that a row of digits stands for.
pub open spec fn numeral_value(s: Seq<char>, base: nat) -> nat
    decreases s.len(),
{
    if s.len() == 0 {
        0
    } else {
        numeral_value(s.drop_last(), base) * base + digit_value(s.last())
    }
}

/// A number that was written out reads back as itself.
pub proof fn numeral_reads_back(n: nat, base: nat)
    requires
        2 <= base <= 16,
    ensures
        numeral_value(numeral(n, base), base) == n,
    decreases n,
{
    if n < base {
        let s = numeral(n, base);
        assert(s.drop_last() =~= Seq::<char>::empty());
        assert(numeral_value(s.drop_last(), base) * base == 0) by (nonlinear_arith)
            requires
                numeral_value(s.drop_last(), base) == 0,
        ;
        assert(digit_value(digit_char(n)) == n);
    } else {
        let s = numeral(n, base);
        assert(n / base < n) by (nonlinear_arith)
            requires
                n > 0,
                base >= 2,
        ;
        numeral_reads_back(n / base, base);
        assert(s.drop_last() =~= numeral(n / base, base));
        assert(s.last() == digit_char(n % base));
        assert(n % base < base) by (nonlinear_arith)
            requires
                base > 0,
        ;
        assert(digit_value(digit_char(n % base)) == n % base);
        assert((n / base) * base + n % base == n) by (nonlinear_arith)
            requires
                base > 0,
        ;
    }
}

/// Two numbers that are written alike are the same number.
pub proof fn numeral_is_injective(a: nat, b: nat, base: nat)
    requires
        2 <= base <= 16,
        numeral(a, base) == numeral(b, base),
    ensures
        a == b,
{
    numeral_reads_back(a, base);
    numeral_reads_back(b, base);
}

/// The digits of a number are ASCII characters.
pub proof fn numerals_are_ascii(n: nat, base: nat)
    requires
        2 <= base <= 16,
    ensures
        is_ascii_chars(numeral(n, base)),
    decreases n,
{
    if n >= base {
        assert(n / base < n && n % base < base) by (nonlinear_arith)
            requires
                n >= base,
                base >= 2,
        ;
        numerals_are_ascii(n / base, base);
    }
}

fn digit(d: u64) -> (res: &'static str)
    requires
        d < 16,
    ensures
        res@ == seq![digit_char(d as nat)],
{
    proof {
        reveal_strlit("0");
        reveal_strlit("1");
        reveal_strlit("2");
        reveal_strlit("3");
        reveal_strlit("4");
        reveal_strlit("5");
        reveal_strlit("6");
        reveal_strlit("7");
        reveal_strlit("8");
        reveal_strlit("9");
        reveal_strlit("a");
        reveal_strlit("b");
        reveal_strlit("c");
        reveal_strlit("d");
        reveal_strlit("e");
        reveal_strlit("f");
    }
    match d {
        0 => "0",
        1 => "1",
        2 => "2",
        3 => "3",
        4 => "4",
        5 => "5",
        6 => "6",
        7 => "7",
        8 => "8",
        9 => "9",
        10 => "a",
        11 => "b",
        12 => "c",
        13 => "d",
        14 => "e",
        _ => "f",
    }
}

fn write_numeral(n: u64, base: u64) -> (res: String)
    requires
        2 <= base <= 16,
    ensures
        res@ == numeral(n as nat, base as nat),
    decreases n,
{
    if n < base {
        String::from_str(digit(n))
    } else {
        assert(n / base < n) by (nonlinear_arith)
            requires
                n > 0,
                base >= 2,
        ;
        assert(n % base < base) by (nonlinear_arith)
            requires
                base > 0,
        ;
        let mut res: String = write_numeral(n / base, base);
        res.append(digit(n % base));
        assert(res@ =~= numeral(n as nat, base as nat));
        res
    }
}

/// Writes a number in decimal.
pub fn write_decimal(n: u64) -> (res: String)
    ensures
        res@ == decimal(n as nat),
{
    write_numeral(n, 10)
}

/// Writes a number in hexadecimal, with lower-case letters.
pub fn write_hexadecimal(n: u64) -> (res: String)
    ensures
        res@ == hexadecimal(n as nat),
{
    write_numeral(n, 16)
}

/// Writes a signed number in decimal.
pub fn write_signed_decimal(n: i32) -> (res: String)
    ensures
        res@ == signed_decimal(n as int),
{
    if n < 0 {
        let magnitude: i64 = -(n as i64);
        proof {
            reveal_strlit("-");
        }
        let mut res: String = String::from_str("-");
        res.append(write_decimal(magnitude as u64).as_str());
        assert(res@ =~= signed_decimal(n as int));
        res
    } else {
        write_decimal(n as u64)
    }
}

/// The characters that separate words: those with the Unicode property `White_Space`.
pub open spec fn is_space(c: char) -> bool {
    let n = c as nat;
    ||| 0x9 <= n <= 0xd
    ||| n == 0x20
    ||| n == 0x85
    ||| n == 0xa0
    ||| n == 0x1680
    ||| 0x2000 <= n <= 0x200a
    ||| n == 0x2028
    ||| n == 0x2029
    ||| n == 0x202f
    ||| n == 0x205f
    ||| n == 0x3000
}

/// Tells whether a character separates words.
pub fn separates_words(c: char) -> (res: bool)
    ensures
        res == is_space(c),
{
    let n: u32 = c as u32;
    (0x9 <= n && n <= 0xd) || n == 0x20 || n == 0x85 || n == 0xa0 || n == 0x1680 || (0x2000 <= n
        && n <= 0x200a) || n == 0x2028 || n == 0x2029 || n == 0x202f || n == 0x205f || n == 0x3000
}

/// A word: at least one character, none of which separates words.
pub open spec fn is_word(word: Seq<char>) -> bool {
    &&& word.len() > 0
    &&& forall|i: int| 0 <= i < word.len() ==> !is_space(#[trigger] word[i])
}

/// The word `word` stands in `text` at position `i`, with a separator or an end of the text on
/// either side.
pub open spec fn word_at(text: Seq<char>, word: Seq<char>, i: int) -> bool {
    let j = i + word.len();
    &&& is_word(word)
    &&& 0 <= i
    &&& j <= text.len()
    &&& text.subrange(i, j) == word
    &&& i == 0 || is_space(text[i - 1])
    &&& j == text.len() || is_space(text[j])
}

/// `word` is one of the words of `text`.
pub open spec fn has_word(text: Seq<char>, word: Seq<char>) -> bool {
    exists|i: int| word_at(text, word, i)
}

fn characters(text: &str) -> (res: Vec<char>)
    ensures
        res@ == text@,
{
    let mut res: Vec<char> = Vec::new();
    for c in it: text.chars()
        invariant
            it.seq() == text@,
            res@ == text@.take(it.index() as int),
    {
        res.push(c);
        assert(res@ =~= text@.take(it.index() + 1));
    }
    assert(res@ =~= text@);
    res
}

fn makes_a_word(text: &Vec<char>) -> (res: bool)
    ensures
        res == is_word(text@),
{
    let mut i: usize = 0;
    while i < text.len()
        invariant
            i <= text.len(),
            forall|k: int| 0 <= k < i ==> !is_space(#[trigger] text@[k]),
        decreases text.len() - i,
    {
        if separates_words(text[i]) {
            return false;
        }
        i = i + 1;
    }
    text.len() > 0
}

fn is_word_at(text: &Vec<char>, word: &Vec<char>, i: usize) -> (res: bool)
    requires
        is_word(word@),
        i + word.len() <= text.len(),
    ensures
        res == word_at(text@, word@, i as int),
{
    let j: usize = i + word.len();
    if i > 0 && !separates_words(text[i - 1]) {
        return false;
    }
    if j < text.len() && !separates_words(text[j]) {
        return false;
    }
    let mut k: usize = 0;
    while k < word.len()
        invariant
            k <= word.len(),
            j == i + word.len(),
            j <= text.len(),
            forall|m: int| 0 <= m < k ==> text@[i + m] == #[trigger] word@[m],
        decreases word.len() - k,
    {
        if text[i + k] != word[k] {
            assert(text@.subrange(i as int, j as int)[k as int] != word@[k as int]);
            return false;
        }
        k = k + 1;
    }
    assert(text@.subrange(i as int, j as int) =~= word@);
    true
}

/// Tells whether `word` is one of the words of `text`.
pub fn contains_word(text: &str, word: &str) -> (res: bool)
    ensures
        res == has_word(text@, word@),
{
    let text_chars: Vec<char> = characters(text);
    let word_chars: Vec<char> = characters(word);
    if !makes_a_word(&word_chars) || word_chars.len() > text_chars.len() {
        return false;
    }
    let last: usize = text_chars.len() - word_chars.len();
    let mut i: usize = 0;
    while i < last
        invariant
            i <= last,
            last == text_chars.len() - word_chars.len(),
            text_chars@ == text@,
            word_chars@ == word@,
            is_word(word@),
            forall|k: int| 0 <= k < i ==> !#[trigger] word_at(text@, word@, k),
        decreases last - i,
    {
        if is_word_at(&text_chars, &word_chars, i) {
            return true;
        }
        i = i + 1;
    }
    is_word_at(&text_chars, &word_chars, i)
}

/// The digits are the characters from 0 to 9 and from a to f, in this order.
pub proof fn digits_are_in_order(d: nat, c: char)
    ensures
        d < 10 ==> digit_char(d) as nat == '0' as nat + d,
        10 <= d < 16 ==> digit_char(d) as nat == 'a' as nat + (d - 10),
        '0' <= c <= '9' ==> digit_value(c) == c as nat - '0' as nat,
        'a' <= c <= 'f' ==> digit_value(c) == 10 + (c as nat - 'a' as nat),
{
}

/// A digit at the end of a row counts once, and the digits before it count as often as the
/// base says. A row without digits counts nothing.
pub proof fn digits_count_by_their_place(digits: Seq<char>, last: char, base: nat)
    ensures
        numeral_value(seq![], base) == 0,
        numeral_value(digits.push(last), base) == numeral_value(digits, base) * base + digit_value(
            last,
        ),
{
    assert(digits.push(last).drop_last() =~= digits);
}

/// The character is a digit in the base.
pub open spec fn is_digit(c: char, base: nat) -> bool {
    ||| '0' <= c <= '9' && c as nat - ('0' as nat) < base
    ||| 'a' <= c <= 'f' && 10 + (c as nat - 'a' as nat) < base
}

/// The text is how the number is written: digits alone, that read back as the number, and no
/// zero before others.
pub open spec fn spells(text: Seq<char>, n: nat, base: nat) -> bool {
    &&& text.len() > 0
    &&& forall|i: int| 0 <= i < text.len() ==> is_digit(#[trigger] text[i], base)
    &&& numeral_value(text, base) == n
    &&& text[0] == '0' ==> text.len() == 1
}

/// The text is how the whole number is written, after a minus sign where it is negative.
pub open spec fn spells_signed(text: Seq<char>, n: int) -> bool {
    if n < 0 {
        text.len() > 0 && text[0] == '-' && spells(text.skip(1), (-n) as nat, 10)
    } else {
        spells(text, n as nat, 10)
    }
}

/// A number is written by its digits.
pub proof fn numerals_spell_their_numbers(n: nat, base: nat)
    requires
        2 <= base <= 16,
    ensures
        spells(numeral(n, base), n, base),
        n > 0 ==> numeral(n, base)[0] != '0',
    decreases n,
{
    numeral_reads_back(n, base);
    if n >= base {
        assert(0 < n / base < n && n % base < base) by (nonlinear_arith)
            requires
                n >= base,
                base >= 2,
        ;
        numerals_spell_their_numbers(n / base, base);
        let before = numeral(n / base, base);
        let all = numeral(n, base);
        assert(all == before.push(digit_char(n % base)));
        assert(all[0] == before[0]);
        assert forall|i: int| 0 <= i < all.len() implies is_digit(#[trigger] all[i], base) by {
            if i < before.len() {
                assert(all[i] == before[i]);
            }
        }
    }
}

/// Numbers in decimal and in hexadecimal, with a sign or without, are written by their digits.
pub proof fn numbers_are_spelled(n: nat, signed: int)
    ensures
        spells(decimal(n), n, 10),
        spells(hexadecimal(n), n, 16),
        spells_signed(signed_decimal(signed), signed),
{
    numerals_spell_their_numbers(n, 10);
    numerals_spell_their_numbers(n, 16);
    if signed < 0 {
        let digits = decimal((-signed) as nat);
        numerals_spell_their_numbers((-signed) as nat, 10);
        assert(signed_decimal(signed).skip(1) =~= digits);
    } else {
        numerals_spell_their_numbers(signed as nat, 10);
    }
}

/// There is one way to write a number.
pub proof fn spelling_is_unique(a: Seq<char>, b: Seq<char>, n: nat, base: nat)
    requires
        2 <= base <= 16,
        spells(a, n, base),
        spells(b, n, base),
    ensures
        a == b,
    decreases a.len(),
{
    spelled_numbers_fit(a, n, base);
    spelled_numbers_fit(b, n, base);
    if a.len() == 1 || b.len() == 1 {
        assert(a.len() == 1 && b.len() == 1);
        assert(a[0] == b[0]);
        assert(a =~= b);
    } else {
        let front_a = a.drop_last();
        let front_b = b.drop_last();
        let last_a = digit_value(a.last());
        let last_b = digit_value(b.last());
        let rest_a = numeral_value(front_a, base);
        let rest_b = numeral_value(front_b, base);
        assert(is_digit(a[a.len() - 1], base) && is_digit(b[b.len() - 1], base));
        assert(rest_a == rest_b && last_a == last_b) by (nonlinear_arith)
            requires
                rest_a * base + last_a == rest_b * base + last_b,
                last_a < base,
                last_b < base,
        ;
        assert forall|i: int| 0 <= i < front_a.len() implies is_digit(
            #[trigger] front_a[i],
            base,
        ) by {
            assert(front_a[i] == a[i]);
        }
        assert forall|i: int| 0 <= i < front_b.len() implies is_digit(
            #[trigger] front_b[i],
            base,
        ) by {
            assert(front_b[i] == b[i]);
        }
        spelling_is_unique(front_a, front_b, rest_a, base);
        assert(a =~= front_a.push(a.last()));
        assert(b =~= front_b.push(b.last()));
    }
}

proof fn spelled_numbers_fit(text: Seq<char>, n: nat, base: nat)
    requires
        2 <= base <= 16,
        spells(text, n, base),
    ensures
        text.len() == 1 ==> n < base && n == digit_value(text[0]),
        text.len() > 1 ==> n >= base,
    decreases text.len(),
{
    let front = text.drop_last();
    let rest = numeral_value(front, base);
    assert(is_digit(text[text.len() - 1], base));
    if text.len() == 1 {
        assert(front =~= Seq::<char>::empty());
        assert(rest * base == 0) by (nonlinear_arith)
            requires
                rest == 0,
        ;
    } else {
        assert forall|i: int| 0 <= i < front.len() implies is_digit(#[trigger] front[i], base) by {
            assert(front[i] == text[i]);
        }
        spelled_numbers_fit(front, rest, base);
        assert(is_digit(front[0], base));
        assert(rest > 0);
        assert(rest * base >= base) by (nonlinear_arith)
            requires
                rest > 0,
        ;
    }
}

/// A word has no words in it but itself, and a text without characters has none.
pub proof fn words_are_their_only_words(text: Seq<char>, word: Seq<char>)
    ensures
        is_word(text) && is_word(word) ==> (has_word(text, word) <==> text == word),
        text.len() == 0 ==> !has_word(text, word),
        has_word(text, word) ==> is_word(word),
{
    if is_word(text) && has_word(text, word) {
        let i = choose|i: int| word_at(text, word, i);
        assert(i == 0);
        assert(text.subrange(0, text.len() as int) =~= text);
    }
    if is_word(word) && text == word {
        assert(text.subrange(0, text.len() as int) =~= word);
        assert(word_at(text, word, 0));
    }
}

/// The words of two texts with a separator between them are the words of either.
pub proof fn separated_texts_keep_their_words(
    first: Seq<char>,
    separator: char,
    second: Seq<char>,
    word: Seq<char>,
)
    requires
        is_space(separator),
    ensures
        has_word(first.push(separator) + second, word) <==> has_word(first, word) || has_word(
            second,
            word,
        ),
{
    let text = first.push(separator) + second;
    let start = first.len() as int + 1;
    if has_word(first, word) {
        let i = choose|i: int| word_at(first, word, i);
        let j = i + word.len();
        assert(text.subrange(i, j) =~= first.subrange(i, j));
        assert(i > 0 ==> text[i - 1] == first[i - 1]);
        assert(text[j] == if j == first.len() { separator } else { first[j] });
        assert(word_at(text, word, i));
    }
    if has_word(second, word) {
        let i = choose|i: int| word_at(second, word, i);
        let j = i + word.len();
        assert(text.subrange(start + i, start + j) =~= second.subrange(i, j));
        assert(text[start + i - 1] == if i == 0 { separator } else { second[i - 1] });
        assert(j < second.len() ==> text[start + j] == second[j]);
        assert(word_at(text, word, start + i));
    }
    if has_word(text, word) {
        let i = choose|i: int| word_at(text, word, i);
        let j = i + word.len();
        if j <= first.len() {
            assert(first.subrange(i, j) =~= text.subrange(i, j));
            assert(i > 0 ==> text[i - 1] == first[i - 1]);
            assert(j < first.len() ==> text[j] == first[j]);
            assert(word_at(first, word, i));
        } else if i >= start {
            assert(second.subrange(i - start, j - start) =~= text.subrange(i, j));
            assert(i > start ==> text[i - 1] == second[i - start - 1]);
            assert(j < text.len() ==> text[j] == second[j - start]);
            assert(word_at(second, word, i - start));
        } else {
            let k = first.len() - i;
            assert(text.subrange(i, j)[k] == separator);
            assert(is_space(word[k]));
        }
    }
}

} // verus!
