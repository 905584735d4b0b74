//! JSON text of document keys.
use vstd::prelude::*;

verus! {

/// The error type of `serde_json`.
#[verifier::external_type_specification]
#[verifier::external_body]
pub struct ExJsonError(serde_json::Error);

/// The lower case hexadecimal digit of a number below sixteen.
pub open spec fn hex_digit(n: int) -> char {
    if n < 10 {
        ('0' as int + n) as char
    } else {
        ('a' as int + (n - 10)) as char
    }
}

/// How one character stands inside a JSON string.
pub open spec fn json_char(c: char) -> Seq<char> {
    if c == '"' || c == '\\' {
        seq!['\\', c]
    } else if c == '\u{8}' {
        seq!['\\', 'b']
    } else if c == '\t' {
        seq!['\\', 't']
    } else if c == '\n' {
        seq!['\\', 'n']
    } else if c == '\u{c}' {
        seq!['\\', 'f']
    } else if c == '\r' {
        seq!['\\', 'r']
    } else if (c as int) < 0x20 {
        seq!['\\', 'u', '0', '0', hex_digit(c as int / 16), hex_digit(c as int % 16)]
    } else {
        seq![c]
    }
}

/// The characters of `s`, each as it stands inside a JSON string.
pub open spec fn json_chars(s: Seq<char>) -> Seq<char>
    decreases s.len(),
{
    if s.len() == 0 {
        seq![]
    } else {
        json_char(s[0]) + json_chars(s.drop_first())
    }
}

/// The JSON string literal that stands for `s`.
pub open spec fn json_string(s: Seq<char>) -> Seq<char> {
    seq!['"'] + json_chars(s) + seq!['"']
}

/// Calls `serde_json::to_string` on a `str`. The contract claims that the call
/// succeeds and gives the text between double quotes, in which a quote, a
/// backslash and each character below U+0020 is escaped (by its short form
/// where JSON has one, else as `\u00` and two lower case hexadecimal digits)
/// and every other character stands as it is.
#[verifier::external_body]
fn serialize_str(value: &str) -> (text: Result<String, serde_json::Error>)
    ensures
        text is Ok,
        text->Ok_0@ == json_string(value@),
{
    serde_json::to_string(value)
}

/// The JSON text of a document key.
pub fn key_json(key: &str) -> (text: String)
    ensures
        text@ == json_string(key@),
{
    serialize_str(key).unwrap()
}

/// No character's JSON form is the beginning of another's.
proof fn lemma_json_char_prefix(c: char, d: char, rest_c: Seq<char>, rest_d: Seq<char>)
    requires
        json_char(c) + rest_c == json_char(d) + rest_d,
    ensures
        c == d,
        rest_c == rest_d,
{
    let whole_c = json_char(c) + rest_c;
    let whole_d = json_char(d) + rest_d;
    assert(whole_c[0] == json_char(c)[0] && whole_d[0] == json_char(d)[0]);
    if whole_c[0] == '\\' {
        assert(whole_c[1] == json_char(c)[1] && whole_d[1] == json_char(d)[1]);
        if whole_c[1] == 'u' {
            assert(whole_c[4] == json_char(c)[4] && whole_d[4] == json_char(d)[4]);
            assert(whole_c[5] == json_char(c)[5] && whole_d[5] == json_char(d)[5]);
        }
    }
    assert(c == d);
    let n = json_char(c).len() as int;
    assert(rest_c =~= whole_c.skip(n));
    assert(rest_d =~= whole_d.skip(n));
}

/// Two texts with the same JSON characters are the same text.
proof fn lemma_json_chars_injective(s: Seq<char>, t: Seq<char>)
    requires
        json_chars(s) == json_chars(t),
    ensures
        s == t,
    decreases s.len(),
{
    if s.len() == 0 || t.len() == 0 {
        if s.len() > 0 {
            assert(json_chars(s).len() > 0);
        }
        if t.len() > 0 {
            assert(json_chars(t).len() > 0);
        }
        assert(s =~= t);
    } else {
        lemma_json_char_prefix(s[0], t[0], json_chars(s.drop_first()), json_chars(t.drop_first()));
        lemma_json_chars_injective(s.drop_first(), t.drop_first());
        assert(s =~= seq![s[0]] + s.drop_first());
        assert(t =~= seq![t[0]] + t.drop_first());
    }
}

/// Different keys have different JSON texts.
pub proof fn lemma_json_string_injective(s: Seq<char>, t: Seq<char>)
    ensures
        json_string(s) == json_string(t) ==> s == t,
{
    if json_string(s) == json_string(t) {
        let n = json_string(s).len() as int;
        assert(json_chars(s) =~= json_string(s).subrange(1, n - 1));
        assert(json_chars(t) =~= json_string(t).subrange(1, n - 1));
        lemma_json_chars_injective(s, t);
    }
}

} // verus!
