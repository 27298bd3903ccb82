//! Compact JSON text.

use crate::text::{
    chars_of, control, decimal, decimal_of, hex_char, is_control_char, text_of, texts, to_hex,
};
use vstd::prelude::*;

verus! {

/// The four hexadecimal digits of a number below 65536.
pub open spec fn four_digits(value: int) -> Seq<char> {
    seq![
        hex_char(value / 4096 % 16),
        hex_char(value / 256 % 16),
        hex_char(value / 16 % 16),
        hex_char(value % 16),
    ]
}

/// How a character is written inside a JSON string.
pub open spec fn escaped_char(c: char) -> Seq<char> {
    if c == '"' {
        seq!['\\', '"']
    } else if c == '\\' {
        seq!['\\', '\\']
    } else if c == '\n' {
        seq!['\\', 'n']
    } else if c == '\r' {
        seq!['\\', 'r']
    } else if c == '\t' {
        seq!['\\', 't']
    } else if is_control_char(c) {
        seq!['\\', 'u'] + four_digits(c as int)
    } else {
        seq![c]
    }
}

/// How a text is written inside a JSON string.
pub open spec fn escaped(text: Seq<char>) -> Seq<char>
    decreases text.len(),
{
    if text.len() == 0 {
        Seq::empty()
    } else {
        escaped(text.drop_last()) + escaped_char(text.last())
    }
}

/// A JSON string: the escaped text in quotation marks.
pub open spec fn quoted(text: Seq<char>) -> Seq<char> {
    "\""@ + escaped(text) + "\""@
}

/// JSON strings separated by commas.
pub open spec fn quoted_list(list: Seq<Seq<char>>) -> Seq<char>
    decreases list.len(),
{
    if list.len() == 0 {
        Seq::empty()
    } else if list.len() == 1 {
        quoted(list[0])
    } else {
        quoted_list(list.drop_last()) + ","@ + quoted(list.last())
    }
}

/// A text that can stand between the quotation marks of a JSON string: it holds
/// no control character, and a quotation mark or backslash only as part of an
/// escape sequence.
pub open spec fn is_string_body(text: Seq<char>) -> bool
    decreases text.len(),
{
    if text.len() == 0 {
        true
    } else if text[0] == '"' || is_control_char(text[0]) {
        false
    } else if text[0] == '\\' {
        text.len() >= 2 && !is_control_char(text[1]) && is_string_body(text.skip(2))
    } else {
        is_string_body(text.drop_first())
    }
}

proof fn lemma_body_append(a: Seq<char>, b: Seq<char>)
    requires
        is_string_body(a),
        is_string_body(b),
    ensures
        is_string_body(a + b),
    decreases a.len(),
{
    if a.len() == 0 {
        assert(a + b =~= b);
    } else if a[0] == '\\' {
        lemma_body_append(a.skip(2), b);
        assert((a + b).skip(2) =~= a.skip(2) + b);
    } else {
        lemma_body_append(a.drop_first(), b);
        assert((a + b).drop_first() =~= a.drop_first() + b);
    }
}

proof fn lemma_escaped_char_body(c: char)
    ensures
        is_string_body(escaped_char(c)),
{
    reveal_with_fuel(is_string_body, 7);
    let text = escaped_char(c);
    if text.len() == 2 {
        assert(text.skip(2) =~= Seq::empty());
    } else if text.len() == 1 {
        assert(text.drop_first() =~= Seq::empty());
    } else {
        let digits = four_digits(c as int);
        assert(text.skip(2) =~= digits);
        assert(digits.drop_first() =~= seq![digits[1], digits[2], digits[3]]);
        assert(digits.drop_first().drop_first() =~= seq![digits[2], digits[3]]);
        assert(digits.drop_first().drop_first().drop_first() =~= seq![digits[3]]);
        assert(digits.drop_first().drop_first().drop_first().drop_first() =~= Seq::empty());
    }
}

/// An escaped text never ends a JSON string early and holds no raw control
/// character.
pub proof fn escaped_text_is_a_string_body(text: Seq<char>)
    ensures
        is_string_body(escaped(text)),
    decreases text.len(),
{
    if text.len() > 0 {
        escaped_text_is_a_string_body(text.drop_last());
        lemma_escaped_char_body(text.last());
        lemma_body_append(escaped(text.drop_last()), escaped_char(text.last()));
    }
}

proof fn lemma_escaped_append(a: Seq<char>, b: Seq<char>)
    ensures
        escaped(a + b) == escaped(a) + escaped(b),
    decreases b.len(),
{
    if b.len() == 0 {
        assert(a + b =~= a);
        assert(escaped(a) + escaped(b) =~= escaped(a));
    } else {
        lemma_escaped_append(a, b.drop_last());
        assert((a + b).drop_last() =~= a + b.drop_last());
        assert((a + b).last() == b.last());
        assert(escaped(a) + escaped(b.drop_last()) + escaped_char(b.last()) =~= escaped(a) + (
        escaped(b.drop_last()) + escaped_char(b.last())));
    }
}

proof fn lemma_four_digits_differ(a: int, b: int)
    requires
        0 <= a < 256,
        0 <= b < 256,
        four_digits(a)[2] == four_digits(b)[2],
        four_digits(a)[3] == four_digits(b)[3],
    ensures
        a == b,
{
    assert(a / 16 < 16 && b / 16 < 16);
    assert(a / 16 == b / 16);
    assert(a % 16 == b % 16);
}

proof fn lemma_escaped_chars_are_no_prefixes(a: char, b: char, x: Seq<char>, y: Seq<char>)
    requires
        escaped_char(a) + x == escaped_char(b) + y,
    ensures
        a == b,
        x == y,
{
    let left = escaped_char(a) + x;
    let right = escaped_char(b) + y;
    assert(left[0] == escaped_char(a)[0]);
    assert(right[0] == escaped_char(b)[0]);
    if escaped_char(a).len() >= 2 {
        assert(left[1] == escaped_char(a)[1]);
    }
    if escaped_char(b).len() >= 2 {
        assert(right[1] == escaped_char(b)[1]);
    }
    if escaped_char(a).len() == 6 && escaped_char(b).len() == 6 {
        assert(left[4] == escaped_char(a)[4] && right[4] == escaped_char(b)[4]);
        assert(left[5] == escaped_char(a)[5] && right[5] == escaped_char(b)[5]);
        assert(escaped_char(a)[4] == four_digits(a as int)[2]);
        assert(escaped_char(a)[5] == four_digits(a as int)[3]);
        assert(escaped_char(b)[4] == four_digits(b as int)[2]);
        assert(escaped_char(b)[5] == four_digits(b as int)[3]);
        lemma_four_digits_differ(a as int, b as int);
    }
    assert(a == b);
    let n = escaped_char(a).len() as int;
    assert(x =~= left.skip(n));
    assert(y =~= right.skip(n));
}

/// Different texts are written differently inside a JSON string.
pub proof fn escaping_loses_nothing(a: Seq<char>, b: Seq<char>)
    requires
        escaped(a) == escaped(b),
    ensures
        a == b,
    decreases a.len(),
{
    if a.len() == 0 {
        if b.len() > 0 {
            assert(escaped_char(b.last()).len() > 0);
        }
        assert(a =~= b);
    } else if b.len() == 0 {
        assert(escaped_char(a.last()).len() > 0);
    } else {
        assert(a =~= seq![a[0]] + a.drop_first());
        assert(b =~= seq![b[0]] + b.drop_first());
        lemma_escaped_append(seq![a[0]], a.drop_first());
        lemma_escaped_append(seq![b[0]], b.drop_first());
        lemma_escaped_single(a[0]);
        lemma_escaped_single(b[0]);
        lemma_escaped_chars_are_no_prefixes(
            a[0],
            b[0],
            escaped(a.drop_first()),
            escaped(b.drop_first()),
        );
        escaping_loses_nothing(a.drop_first(), b.drop_first());
    }
}

proof fn lemma_escaped_single(c: char)
    ensures
        escaped(seq![c]) == escaped_char(c),
{
    assert(seq![c].drop_last() =~= Seq::empty());
    assert(escaped(seq![c].drop_last()) =~= Seq::empty());
    assert(escaped(seq![c]) =~= escaped_char(c));
}

fn push_escaped(out: &mut Vec<char>, c: char)
    ensures
        final(out)@ == old(out)@ + escaped_char(c),
{
    let ghost before = out@;
    if c == '"' {
        out.push('\\');
        out.push('"');
    } else if c == '\\' {
        out.push('\\');
        out.push('\\');
    } else if c == '\n' {
        out.push('\\');
        out.push('n');
    } else if c == '\r' {
        out.push('\\');
        out.push('r');
    } else if c == '\t' {
        out.push('\\');
        out.push('t');
    } else if control(c) {
        let value: u32 = c as u32;
        out.push('\\');
        out.push('u');
        out.push(to_hex(value / 4096 % 16));
        out.push(to_hex(value / 256 % 16));
        out.push(to_hex(value / 16 % 16));
        out.push(to_hex(value % 16));
        assert(out@ =~= before + (seq!['\\', 'u'] + four_digits(c as int)));
        return;
    } else {
        out.push(c);
    }
    assert(out@ =~= before + escaped_char(c));
}

/// Writes a text so that it can stand inside a JSON string.
pub fn json_escape(value: &str) -> (result: String)
    ensures
        result@ == escaped(value@),
{
    let chars = chars_of(value);
    let mut out: Vec<char> = Vec::new();
    let mut i: usize = 0;
    assert(chars@.take(0) =~= Seq::empty());
    while i < chars.len()
        invariant
            i <= chars@.len(),
            out@ == escaped(chars@.take(i as int)),
        decreases chars.len() - i,
    {
        push_escaped(&mut out, chars[i]);
        assert(chars@.take(i + 1).drop_last() =~= chars@.take(i as int));
        assert(chars@.take(i + 1).last() == chars@[i as int]);
        i = i + 1;
    }
    assert(chars@.take(i as int) =~= value@);
    let result = text_of(&out, 0, out.len());
    assert(result@ =~= out@);
    result
}

/// Writes a text as a JSON string.
pub fn json_string(value: &str) -> (result: String)
    ensures
        result@ == quoted(value@),
{
    let mut result = "\"".to_owned();
    let body = json_escape(value);
    result.append(body.as_str());
    result.append("\"");
    result
}

/// Writes a list of texts as JSON strings separated by commas.
pub fn json_strings(list: &Vec<String>) -> (result: String)
    ensures
        result@ == quoted_list(texts(list@)),
{
    let mut result = String::new();
    let mut i: usize = 0;
    let ghost all = texts(list@);
    assert(all.take(0) =~= Seq::empty());
    while i < list.len()
        invariant
            i <= list@.len(),
            all == texts(list@),
            result@ == quoted_list(all.take(i as int)),
        decreases list.len() - i,
    {
        let ghost next = all.take(i + 1);
        assert(next.drop_last() =~= all.take(i as int));
        assert(next.last() == list@[i as int]@);
        if i > 0 {
            result.append(",");
        } else {
            assert(next[0] == list@[0]@);
        }
        let ghost lead = result@;
        let item = json_string(list[i].as_str());
        result.append(item.as_str());
        assert(i == 0 ==> result@ =~= quoted(next[0]));
        i = i + 1;
    }
    assert(all.take(i as int) =~= all);
    result
}

/// A truth value as JSON.
pub open spec fn bool_text(value: bool) -> Seq<char> {
    if value {
        "true"@
    } else {
        "false"@
    }
}

/// A truth value as JSON.
pub fn json_bool(value: bool) -> (text: &'static str)
    ensures
        text@ == bool_text(value),
{
    if value {
        "true"
    } else {
        "false"
    }
}

/// A number as JSON, `null` where there is none.
pub open spec fn optional_number(value: Option<nat>) -> Seq<char> {
    match value {
        Some(number) => decimal_of(number),
        None => "null"@,
    }
}

/// A number as JSON, `null` where there is none.
pub fn optional_u64_json(value: Option<u64>) -> (text: String)
    ensures
        text@ == optional_number(
            match value {
                Some(number) => Some(number as nat),
                None => None,
            },
        ),
{
    match value {
        Some(number) => decimal(number),
        None => "null".to_owned(),
    }
}

/// A truth value as JSON, `null` where there is none.
pub open spec fn optional_bool(value: Option<bool>) -> Seq<char> {
    match value {
        Some(known) => bool_text(known),
        None => "null"@,
    }
}

/// A truth value as JSON, `null` where there is none.
pub fn optional_bool_json(value: Option<bool>) -> (text: &'static str)
    ensures
        text@ == optional_bool(value),
{
    match value {
        Some(known) => json_bool(known),
        None => "null",
    }
}

/// A member of a document: a name in quotes, a colon and a value.
pub open spec fn member(name: Seq<char>, value: Seq<char>) -> Seq<char> {
    "\""@ + name + "\":"@ + value
}

/// The character that an escape means to a reader of the document.
pub open spec fn meaning(escape: Seq<char>) -> Option<char> {
    if escape.len() == 1 && escape[0] != '\\' && escape[0] != '"' {
        Some(escape[0])
    } else if escape.len() == 2 && escape[0] == '\\' {
        match escape[1] {
            '"' => Some('"'),
            '\\' => Some('\\'),
            'n' => Some('\n'),
            'r' => Some('\r'),
            't' => Some('\t'),
            _ => None,
        }
    } else {
        None
    }
}

/// A reader gets back every character as it was: those with an escape of their
/// own by it, and those that need none as they are.
pub proof fn escapes_mean_what_was_written(c: char)
    ensures
        c == '"' || c == '\\' || c == '\n' || c == '\r' || c == '\t' || !is_control_char(c)
            ==> meaning(escaped_char(c)) == Some(c),
{
}

/// A control character without an escape of its own is written by its number, in
/// four hexadecimal digits.
pub proof fn controls_are_written_by_number(c: char)
    requires
        is_control_char(c),
        c != '\n',
        c != '\r',
        c != '\t',
    ensures
        escaped_char(c).len() == 6,
        escaped_char(c)[0] == '\\',
        escaped_char(c)[1] == 'u',
        escaped_char(c)[2] == hex_char(c as int / 4096 % 16),
        escaped_char(c)[3] == hex_char(c as int / 256 % 16),
        escaped_char(c)[4] == hex_char(c as int / 16 % 16),
        escaped_char(c)[5] == hex_char(c as int % 16),
{
}

/// Texts are put in quotes, lists are separated by commas, and what is missing is
/// `null`.
pub proof fn values_are_written_plainly(text: Seq<char>, list: Seq<Seq<char>>, number: nat)
    ensures
        quoted(text) == seq!['"'] + escaped(text) + seq!['"'],
        quoted_list(Seq::empty()) == Seq::<char>::empty(),
        quoted_list(seq![text]) == quoted(text),
        list.len() > 0 ==> quoted_list(list.push(text)) == quoted_list(list) + seq![','] + quoted(
            text,
        ),
        escaped(Seq::empty()) == Seq::<char>::empty(),
        bool_text(true) == "true"@,
        bool_text(false) == "false"@,
        optional_number(None) == "null"@,
        optional_number(Some(number)) == decimal_of(number),
        optional_bool(None) == "null"@,
        optional_bool(Some(true)) == "true"@,
        optional_bool(Some(false)) == "false"@,
{
    reveal_strlit("\"");
    reveal_strlit(",");
    assert("\""@ =~= seq!['"']);
    assert(","@ =~= seq![',']);
    assert(list.push(text).drop_last() =~= list);
    assert(seq![text][0] == text);
}

/// A member without quotes follows what stands before it.
pub proof fn a_member_follows(
    before: Seq<char>,
    literal: Seq<char>,
    name: Seq<char>,
    value: Seq<char>,
)
    requires
        literal == ","@ + "\""@ + name + "\":"@,
    ensures
        before + literal + value == before + ","@ + member(name, value),
{
    assert(before + literal + value =~= before + ","@ + member(name, value));
}

/// A member in quotes, whose closing quote stands at the head of what follows it.
pub proof fn a_quoted_member_follows(
    before: Seq<char>,
    literal: Seq<char>,
    name: Seq<char>,
    value: Seq<char>,
    rest: Seq<char>,
)
    requires
        literal == "\""@ + name + "\":"@ + "\""@,
    ensures
        before + literal + value + ("\""@ + rest) == before + member(
            name,
            "\""@ + value + "\""@,
        ) + rest,
{
    assert(before + literal + value + ("\""@ + rest) =~= before + member(
        name,
        "\""@ + value + "\""@,
    ) + rest);
}

/// A member with a list, whose closing bracket stands at the head of what follows
/// it.
pub proof fn a_listed_member_follows(
    before: Seq<char>,
    literal: Seq<char>,
    name: Seq<char>,
    list: Seq<char>,
    rest: Seq<char>,
)
    requires
        literal == ","@ + "\""@ + name + "\":"@,
    ensures
        before + (literal + "["@) + list + ("]"@ + rest) == before + ","@ + member(
            name,
            "["@ + list + "]"@,
        ) + rest,
{
    assert(before + (literal + "["@) + list + ("]"@ + rest) =~= before + ","@ + member(
        name,
        "["@ + list + "]"@,
    ) + rest);
}

/// A member is its name in quotes, a colon and its value.
pub proof fn members_are_named(name: Seq<char>, value: Seq<char>)
    ensures
        member(name, value) == seq!['"'] + name + seq!['"', ':'] + value,
{
    reveal_strlit("\"");
    reveal_strlit("\":");
    assert("\""@ =~= seq!['"']);
    assert("\":"@ =~= seq!['"', ':']);
}

} // verus!
