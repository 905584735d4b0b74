//! Laws of joined lists, decimal numbers and JSON strings.
use crate::json;
use crate::text;
use vstd::prelude::*;

verus! {

/// A list of texts holds, at each place, what the string there holds.
pub proof fn law_texts_are_those_of_the_strings(strings: Seq<String>)
    ensures
        text::texts(strings).len() == strings.len(),
        forall|i: int| 0 <= i < strings.len() ==> #[trigger] text::texts(strings)[i] == strings[i]@,
{
}

/// Nothing stands for no items, an item alone stands for itself, and one more item
/// stands behind the others after a comma and a space.
pub proof fn law_items_are_joined_by_commas(items: Seq<Seq<char>>, item: Seq<char>)
    ensures
        text::joined(seq![]).len() == 0,
        text::joined(seq![item]) == item,
        items.len() > 0 ==> text::joined(items.push(item)) == text::joined(items) + seq![',', ' ']
            + item,
{
    assert(items.push(item).drop_last() =~= items);
    reveal_strlit(", ");
    assert(", "@ =~= seq![',', ' ']);
}

/// The number that a sequence of decimal digits is read as.
pub open spec fn number_read(digits: Seq<char>) -> int
    decreases digits.len(),
{
    if digits.len() == 0 {
        0
    } else {
        10 * number_read(digits.drop_last()) + (digits.last() as int - '0' as int)
    }
}

/// A number is written in digits, without a zero in front but that of zero itself, and
/// is read from them again.
pub proof fn law_decimal_is_read_back(n: nat)
    ensures
        number_read(text::decimal(n)) == n,
        forall|i: int|
            0 <= i < text::decimal(n).len() ==> '0' <= #[trigger] text::decimal(n)[i] <= '9',
        text::decimal(n).len() > 0,
        text::decimal(n)[0] == '0' ==> n == 0,
    decreases n,
{
    let digits = text::decimal(n);
    reveal_with_fuel(number_read, 2);
    if n < 10 {
        assert(digits.drop_last() =~= seq![]);
    } else {
        law_decimal_is_read_back(n / 10);
        assert(digits.drop_last() =~= text::decimal(n / 10));
        assert(digits[0] == text::decimal(n / 10)[0]);
    }
}

/// The value of a hexadecimal digit.
pub open spec fn hex_read(digit: char) -> int {
    if '0' <= digit <= '9' {
        digit as int - '0' as int
    } else {
        digit as int - 'a' as int + 10
    }
}

/// The character that a short escape sequence stands for.
pub open spec fn escape_read(c: char) -> Option<char> {
    if c == '"' || c == '\\' {
        Some(c)
    } else if c == 'b' {
        Some('\u{8}')
    } else if c == 't' {
        Some('\t')
    } else if c == 'n' {
        Some('\n')
    } else if c == 'f' {
        Some('\u{c}')
    } else if c == 'r' {
        Some('\r')
    } else {
        None
    }
}

/// A character in front of a text, where there is one.
pub open spec fn before(c: char, rest: Option<Seq<char>>) -> Option<Seq<char>> {
    match rest {
        Some(rest) => Some(seq![c] + rest),
        None => None,
    }
}

/// What the rest of a JSON string is read as, its opening quote behind: none where a
/// character that JSON wants escaped stands bare, or where the string does not end with
/// the text.
pub open spec fn json_rest_read(text: Seq<char>) -> Option<Seq<char>>
    decreases text.len(),
{
    if text.len() == 0 || (text[0] as int) < 0x20 {
        None
    } else if text[0] == '"' {
        if text.len() == 1 {
            Some(seq![])
        } else {
            None
        }
    } else if text[0] != '\\' {
        before(text[0], json_rest_read(text.skip(1)))
    } else if text.len() >= 6 && text[1] == 'u' {
        let code = 4096 * hex_read(text[2]) + 256 * hex_read(text[3]) + 16 * hex_read(text[4])
            + hex_read(text[5]);
        before(code as char, json_rest_read(text.skip(6)))
    } else if text.len() >= 2 && escape_read(text[1]) is Some {
        before(escape_read(text[1])->0, json_rest_read(text.skip(2)))
    } else {
        None
    }
}

/// What a JSON string is read as.
pub open spec fn json_read(text: Seq<char>) -> Option<Seq<char>> {
    if text.len() > 0 && text[0] == '"' {
        json_rest_read(text.skip(1))
    } else {
        None
    }
}

/// One character's JSON form is read as that character.
proof fn lemma_json_char_is_read(c: char, rest: Seq<char>)
    ensures
        json_rest_read(json::json_char(c) + rest) == before(c, json_rest_read(rest)),
{
    let whole = json::json_char(c) + rest;
    let form = json::json_char(c);
    assert(whole.skip(form.len() as int) =~= rest);
    assert forall|i: int| 0 <= i < form.len() implies whole[i] == form[i] by {}
    if form.len() == 6 {
        assert(whole[0] == '\\' && whole[1] == 'u' && whole[2] == '0' && whole[3] == '0');
        assert(hex_read(whole[4]) == c as int / 16);
        assert(hex_read(whole[5]) == c as int % 16);
    } else if form.len() == 2 {
        assert(whole[0] == '\\');
        assert(whole[1] == form[1]);
    } else {
        assert(whole[0] == c);
    }
}

/// The characters of a text, each in its JSON form, are read as that text.
proof fn lemma_json_chars_are_read(s: Seq<char>)
    ensures
        json_rest_read(json::json_chars(s) + seq!['"']) == Some(s),
    decreases s.len(),
{
    let end = seq!['"'];
    if s.len() == 0 {
        assert(json::json_chars(s) + end =~= end);
        assert(s =~= seq![]);
    } else {
        let rest = s.drop_first();
        lemma_json_chars_are_read(rest);
        lemma_json_char_is_read(s[0], json::json_chars(rest) + end);
        assert(json::json_chars(s) + end =~= json::json_char(s[0]) + (json::json_chars(rest)
            + end));
        assert(s =~= seq![s[0]] + rest);
    }
}

/// The JSON string that stands for a text is read as that text.
pub proof fn law_json_string_is_read_back(s: Seq<char>)
    ensures
        json_read(json::json_string(s)) == Some(s),
{
    lemma_json_chars_are_read(s);
    assert(json::json_string(s).skip(1) =~= json::json_chars(s) + seq!['"']);
}

/// The JSON text of a key is one JSON string, and is read as that key.
pub proof fn law_key_is_read_back(key: &str, text: String)
    requires
        call_ensures(json::key_json, (key,), text),
    ensures
        json_read(text@) == Some(key@),
{
    law_json_string_is_read_back(key@);
}

} // verus!
