//! Character level text handling on which the other modules build.

use crate::path::{a_text_without_separator_is_one_piece, pieces_of_a_join};
use vstd::prelude::*;
use vstd::utf8::{decode_utf8, encode_utf8, valid_utf8};

verus! {

/// The views of a list of strings.
pub open spec fn texts(list: Seq<String>) -> Seq<Seq<char>> {
    list.map_values(|text: String| text@)
}

/// Appends one character to a string.
///
/// Trusted: `String::push` is documented to append the given character to the
/// end of the string.
#[verifier::external_body]
fn push_char(text: &mut String, c: char)
    ensures
        final(text)@ == old(text)@.push(c),
{
    text.push(c)
}

/// The characters of a text, in order.
pub fn chars_of(text: &str) -> (chars: Vec<char>)
    ensures
        chars@ == text@,
{
    let mut chars: Vec<char> = Vec::new();
    for c in it: text.chars()
        invariant
            chars@ == it.seq().take(it.index() as int),
            it.seq() == text@,
    {
        chars.push(c);
    }
    chars
}

/// The text that a range of characters spells.
pub fn text_of(chars: &Vec<char>, from: usize, to: usize) -> (text: String)
    requires
        from <= to <= chars@.len(),
    ensures
        text@ == chars@.subrange(from as int, to as int),
{
    let mut text = String::new();
    let mut i: usize = from;
    while i < to
        invariant
            from <= i <= to <= chars@.len(),
            text@ == chars@.subrange(from as int, i as int),
        decreases to - i,
    {
        push_char(&mut text, chars[i]);
        i = i + 1;
    }
    text
}

/// Whether two texts hold the same characters.
pub fn same(left: &str, right: &str) -> (equal: bool)
    ensures
        equal == (left@ == right@),
{
    let a = chars_of(left);
    let b = chars_of(right);
    if a.len() != b.len() {
        return false;
    }
    let mut i: usize = 0;
    while i < a.len()
        invariant
            i <= a.len() == b.len(),
            a@ == left@,
            b@ == right@,
            forall|k: int| 0 <= k < i ==> a@[k] == b@[k],
        decreases a.len() - i,
    {
        if a[i] != b[i] {
            return false;
        }
        i = i + 1;
    }
    assert(a@ =~= b@);
    true
}

/// Adds a text to the end of a list.
pub fn push_text(list: &mut Vec<String>, text: &str)
    ensures
        texts(final(list)@) == texts(old(list)@).push(text@),
        final(list)@.len() == old(list)@.len() + 1,
{
    list.push(text.to_owned());
    assert(texts(list@) =~= texts(old(list)@).push(text@));
}

/// Adds texts to the end of a list.
pub fn push_texts(list: &mut Vec<String>, more: &[String])
    ensures
        texts(final(list)@) == texts(old(list)@) + texts(more@),
{
    let ghost before = texts(list@);
    let mut i: usize = 0;
    assert(before + texts(more@).take(0) =~= before);
    while i < more.len()
        invariant
            i <= more@.len(),
            texts(list@) == before + texts(more@).take(i as int),
        decreases more.len() - i,
    {
        push_text(list, more[i].as_str());
        assert((before + texts(more@).take(i as int)).push(more@[i as int]@) =~= before + texts(
            more@,
        ).take(i + 1));
        i = i + 1;
    }
    assert(texts(more@).take(i as int) =~= texts(more@));
}

/// A copy of a list of texts.
pub fn copy_texts(list: &Vec<String>) -> (copy: Vec<String>)
    ensures
        texts(copy@) == texts(list@),
{
    let mut copy: Vec<String> = Vec::new();
    push_texts(&mut copy, list.as_slice());
    assert(texts(copy@) =~= texts(list@));
    copy
}

/// Joins two texts.
pub fn join(left: &str, right: &str) -> (text: String)
    ensures
        text@ == left@ + right@,
{
    let mut text = left.to_owned();
    text.append(right);
    text
}

/// The characters with the Unicode property `White_Space`.
pub open spec fn is_white_space(c: char) -> bool {
    ||| '\t' <= c <= '\r'
    ||| c == ' '
    ||| c == '\u{85}'
    ||| c == '\u{A0}'
    ||| c == '\u{1680}'
    ||| '\u{2000}' <= c <= '\u{200A}'
    ||| c == '\u{2028}'
    ||| c == '\u{2029}'
    ||| c == '\u{202F}'
    ||| c == '\u{205F}'
    ||| c == '\u{3000}'
}

/// The characters of the Unicode general category `Cc`.
pub open spec fn is_control_char(c: char) -> bool {
    c <= '\u{1F}' || '\u{7F}' <= c <= '\u{9F}'
}

/// `a` to `z`.
pub open spec fn is_lower(c: char) -> bool {
    'a' <= c <= 'z'
}

/// `A` to `Z`.
pub open spec fn is_upper(c: char) -> bool {
    'A' <= c <= 'Z'
}

/// `0` to `9`.
pub open spec fn is_digit(c: char) -> bool {
    '0' <= c <= '9'
}

/// ASCII letters and digits.
pub open spec fn is_alphanumeric(c: char) -> bool {
    is_lower(c) || is_upper(c) || is_digit(c)
}

/// `0` to `9`, `a` to `f` and `A` to `F`.
pub open spec fn is_hex_digit(c: char) -> bool {
    is_digit(c) || 'a' <= c <= 'f' || 'A' <= c <= 'F'
}

/// Whether a character is white space.
pub fn white_space(c: char) -> (result: bool)
    ensures
        result == is_white_space(c),
{
    ('\t' <= c && c <= '\r') || c == ' ' || c == '\u{85}' || c == '\u{A0}' || c == '\u{1680}' || (
    '\u{2000}' <= c && c <= '\u{200A}') || c == '\u{2028}' || c == '\u{2029}' || c == '\u{202F}' || c
        == '\u{205F}' || c == '\u{3000}'
}

/// Whether a character is a control character.
pub fn control(c: char) -> (result: bool)
    ensures
        result == is_control_char(c),
{
    c <= '\u{1F}' || ('\u{7F}' <= c && c <= '\u{9F}')
}

/// Whether a character is a lower case ASCII letter.
pub fn lower(c: char) -> (result: bool)
    ensures
        result == is_lower(c),
{
    'a' <= c && c <= 'z'
}

/// Whether a character is a decimal digit.
pub fn digit(c: char) -> (result: bool)
    ensures
        result == is_digit(c),
{
    '0' <= c && c <= '9'
}

/// Whether a character is an ASCII letter or digit.
pub fn alphanumeric(c: char) -> (result: bool)
    ensures
        result == is_alphanumeric(c),
{
    lower(c) || ('A' <= c && c <= 'Z') || digit(c)
}

/// Whether a character is a hexadecimal digit.
pub fn hex_digit(c: char) -> (result: bool)
    ensures
        result == is_hex_digit(c),
{
    digit(c) || ('a' <= c && c <= 'f') || ('A' <= c && c <= 'F')
}

/// Whether a test holds of every character of a text.
pub fn all_chars<F: Fn(char) -> bool>(text: &str, test: F) -> (result: bool)
    requires
        forall|c: char| call_requires(test, (c,)),
    ensures
        result ==> forall|i: int|
            0 <= i < text@.len() ==> call_ensures(test, (#[trigger] text@[i],), true),
        !result ==> exists|i: int|
            0 <= i < text@.len() && call_ensures(test, (#[trigger] text@[i],), false),
{
    let chars = chars_of(text);
    let mut i: usize = 0;
    while i < chars.len()
        invariant
            i <= chars@.len(),
            chars@ == text@,
            forall|c: char| call_requires(test, (c,)),
            forall|k: int| 0 <= k < i ==> call_ensures(test, (#[trigger] text@[k],), true),
        decreases chars.len() - i,
    {
        let holds = test(chars[i]);
        assert(call_ensures(test, (text@[i as int],), holds));
        if !holds {
            return false;
        }
        i = i + 1;
    }
    true
}

/// Whether a test holds of some character of a text.
pub fn any_char<F: Fn(char) -> bool>(text: &str, test: F) -> (result: bool)
    requires
        forall|c: char| call_requires(test, (c,)),
    ensures
        !result ==> forall|i: int|
            0 <= i < text@.len() ==> call_ensures(test, (#[trigger] text@[i],), false),
        result ==> exists|i: int|
            0 <= i < text@.len() && call_ensures(test, (#[trigger] text@[i],), true),
{
    let chars = chars_of(text);
    let mut i: usize = 0;
    while i < chars.len()
        invariant
            i <= chars@.len(),
            chars@ == text@,
            forall|c: char| call_requires(test, (c,)),
            forall|k: int| 0 <= k < i ==> call_ensures(test, (#[trigger] text@[k],), false),
        decreases chars.len() - i,
    {
        let holds = test(chars[i]);
        assert(call_ensures(test, (text@[i as int],), holds));
        if holds {
            return true;
        }
        i = i + 1;
    }
    false
}

/// A text holds some white space.
pub open spec fn has_white_space(text: Seq<char>) -> bool {
    exists|i: int| 0 <= i < text.len() && is_white_space(#[trigger] text[i])
}

/// Whether a text holds some white space.
pub fn contains_white_space(text: &str) -> (result: bool)
    ensures
        result == has_white_space(text@),
{
    any_char(text, white_space)
}

/// The length of a text in UTF-8.
pub fn byte_len(text: &str) -> (length: usize)
    ensures
        length == encode_utf8(text@).len(),
{
    text.as_bytes().len()
}

/// Whether a text begins with another one.
pub fn starts_with(text: &str, prefix: &str) -> (result: bool)
    ensures
        result == prefix@.is_prefix_of(text@),
{
    let a = chars_of(text);
    let b = chars_of(prefix);
    if b.len() > a.len() {
        return false;
    }
    let mut i: usize = 0;
    while i < b.len()
        invariant
            i <= b.len() <= a.len(),
            a@ == text@,
            b@ == prefix@,
            forall|k: int| 0 <= k < i ==> a@[k] == b@[k],
        decreases b.len() - i,
    {
        if a[i] != b[i] {
            assert(a@.subrange(0, b@.len() as int)[i as int] != b@[i as int]);
            return false;
        }
        i = i + 1;
    }
    assert(b@ =~= a@.subrange(0, b@.len() as int));
    true
}

/// Whether a text ends with another one.
pub fn ends_with(text: &str, suffix: &str) -> (result: bool)
    ensures
        result == suffix@.is_suffix_of(text@),
{
    let a = chars_of(text);
    let b = chars_of(suffix);
    if b.len() > a.len() {
        return false;
    }
    let start: usize = a.len() - b.len();
    let mut i: usize = 0;
    while i < b.len()
        invariant
            i <= b.len() <= a.len(),
            start == a.len() - b.len(),
            a@ == text@,
            b@ == suffix@,
            forall|k: int| 0 <= k < i ==> a@[start + k] == b@[k],
        decreases b.len() - i,
    {
        if a[start + i] != b[i] {
            assert(a@.subrange(start as int, a@.len() as int)[i as int] != b@[i as int]);
            return false;
        }
        i = i + 1;
    }
    assert(b@ =~= a@.subrange(start as int, a@.len() as int));
    true
}

/// Whether a text holds a character.
pub fn contains_char(text: &str, c: char) -> (result: bool)
    ensures
        result == text@.contains(c),
{
    let chars = chars_of(text);
    let mut i: usize = 0;
    while i < chars.len()
        invariant
            i <= chars@.len(),
            chars@ == text@,
            forall|k: int| 0 <= k < i ==> chars@[k] != c,
        decreases chars.len() - i,
    {
        if chars[i] == c {
            assert(text@[i as int] == c);
            return true;
        }
        i = i + 1;
    }
    false
}

/// A text occurs in another one at position `at`.
pub open spec fn occurs_at(text: Seq<char>, part: Seq<char>, at: int) -> bool {
    0 <= at && at + part.len() <= text.len() && text.subrange(at, at + part.len()) == part
}

/// A text occurs somewhere in another one.
pub open spec fn occurs(text: Seq<char>, part: Seq<char>) -> bool {
    exists|at: int| #[trigger] occurs_at(text, part, at)
}

fn matches_at(text: &Vec<char>, part: &Vec<char>, at: usize) -> (result: bool)
    ensures
        result == occurs_at(text@, part@, at as int),
{
    if part.len() > text.len() || at > text.len() - part.len() {
        return false;
    }
    let mut i: usize = 0;
    while i < part.len()
        invariant
            i <= part@.len(),
            at + part.len() <= text.len(),
            forall|k: int| 0 <= k < i ==> text@[at + k] == part@[k],
        decreases part.len() - i,
    {
        if text[at + i] != part[i] {
            assert(text@.subrange(at as int, at + part@.len())[i as int] != part@[i as int]);
            return false;
        }
        i = i + 1;
    }
    assert(text@.subrange(at as int, at + part@.len()) =~= part@);
    true
}

/// The first position at which a text occurs in another one.
pub fn find(text: &str, part: &str) -> (position: Option<usize>)
    ensures
        match position {
            Some(at) => occurs_at(text@, part@, at as int) && forall|k: int|
                0 <= k < at ==> !#[trigger] occurs_at(text@, part@, k),
            None => !occurs(text@, part@),
        },
{
    let a = chars_of(text);
    let b = chars_of(part);
    if b.len() > a.len() {
        return None;
    }
    let last: usize = a.len() - b.len();
    let mut i: usize = 0;
    loop
        invariant
            i <= last,
            last == a@.len() - b@.len(),
            a@ == text@,
            b@ == part@,
            forall|k: int| 0 <= k < i ==> !#[trigger] occurs_at(text@, part@, k),
        decreases last - i,
    {
        if matches_at(&a, &b, i) {
            return Some(i);
        }
        if i == last {
            return None;
        }
        i = i + 1;
    }
}

/// Whether a text occurs in another one.
pub fn contains(text: &str, part: &str) -> (result: bool)
    ensures
        result == occurs(text@, part@),
{
    find(text, part).is_some()
}

/// A text without the white space at its beginning.
pub open spec fn trimmed_start(text: Seq<char>) -> Seq<char>
    decreases text.len(),
{
    if text.len() > 0 && is_white_space(text[0]) {
        trimmed_start(text.drop_first())
    } else {
        text
    }
}

/// A text without the white space at its end.
pub open spec fn trimmed_end(text: Seq<char>) -> Seq<char>
    decreases text.len(),
{
    if text.len() > 0 && is_white_space(text.last()) {
        trimmed_end(text.drop_last())
    } else {
        text
    }
}

/// A text without the white space at its two ends.
pub open spec fn trimmed(text: Seq<char>) -> Seq<char> {
    trimmed_end(trimmed_start(text))
}

/// Removes the white space at the two ends of a text.
pub fn trim(text: &str) -> (result: String)
    ensures
        result@ == trimmed(text@),
{
    let chars = chars_of(text);
    let mut start: usize = 0;
    assert(chars@.skip(0) =~= text@);
    while start < chars.len() && white_space(chars[start])
        invariant
            start <= chars@.len(),
            trimmed_start(text@) == trimmed_start(chars@.skip(start as int)),
        decreases chars.len() - start,
    {
        assert(chars@.skip(start as int).drop_first() =~= chars@.skip(start + 1));
        start = start + 1;
    }
    let ghost rest = chars@.skip(start as int);
    assert(trimmed_start(text@) == rest);
    let mut end: usize = chars.len();
    assert(chars@.subrange(start as int, end as int) =~= rest);
    while end > start && white_space(chars[end - 1])
        invariant
            start <= end <= chars@.len(),
            trimmed_end(rest) == trimmed_end(chars@.subrange(start as int, end as int)),
        decreases end - start,
    {
        assert(chars@.subrange(start as int, end as int).drop_last() =~= chars@.subrange(
            start as int,
            end - 1,
        ));
        end = end - 1;
    }
    text_of(&chars, start, end)
}

/// Trimming keeps no white space at the ends, and what it removes is white
/// space only.
pub proof fn trimmed_keeps_the_middle(text: Seq<char>)
    ensures
        trimmed(text).len() > 0 ==> !is_white_space(trimmed(text)[0]) && !is_white_space(
            trimmed(text).last(),
        ),
        trimmed(text).len() == 0 <==> forall|i: int|
            0 <= i < text.len() ==> is_white_space(#[trigger] text[i]),
        exists|i: int, j: int|
            0 <= i <= j <= text.len() && trimmed(text) == #[trigger] text.subrange(i, j),
{
    lemma_trimmed_start(text);
    lemma_trimmed_end(trimmed_start(text));
    let i = choose|i: int| 0 <= i <= text.len() && trimmed_start(text) == #[trigger] text.skip(i)
        && forall|k: int| 0 <= k < i ==> is_white_space(#[trigger] text[k]);
    let rest = trimmed_start(text);
    let j = choose|j: int| 0 <= j <= rest.len() && trimmed_end(rest) == #[trigger] rest.take(j)
        && forall|k: int| j <= k < rest.len() ==> is_white_space(#[trigger] rest[k]);
    assert(trimmed(text) =~= text.subrange(i, i + j));
    if trimmed(text).len() == 0 {
        assert forall|k: int| 0 <= k < text.len() implies is_white_space(#[trigger] text[k]) by {
            if k >= i {
                assert(rest[k - i] == text[k]);
            }
        }
    } else {
        assert(trimmed(text)[0] == rest[0]);
        assert(rest[0] == text[i]);
    }
}

proof fn lemma_trimmed_start(text: Seq<char>)
    ensures
        exists|i: int|
            0 <= i <= text.len() && trimmed_start(text) == #[trigger] text.skip(i) && forall|k: int|
                0 <= k < i ==> is_white_space(#[trigger] text[k]),
        trimmed_start(text).len() > 0 ==> !is_white_space(trimmed_start(text)[0]),
    decreases text.len(),
{
    if text.len() > 0 && is_white_space(text[0]) {
        let rest = text.drop_first();
        lemma_trimmed_start(rest);
        let i = choose|i: int|
            0 <= i <= rest.len() && trimmed_start(rest) == #[trigger] rest.skip(i) && forall|k: int|
                0 <= k < i ==> is_white_space(#[trigger] rest[k]);
        assert(rest.skip(i) =~= text.skip(i + 1));
        assert forall|k: int| 0 <= k < i + 1 implies is_white_space(#[trigger] text[k]) by {
            if k > 0 {
                assert(rest[k - 1] == text[k]);
            }
        }
    } else {
        assert(text.skip(0) =~= text);
    }
}

proof fn lemma_trimmed_end(text: Seq<char>)
    ensures
        exists|j: int|
            0 <= j <= text.len() && trimmed_end(text) == #[trigger] text.take(j) && forall|k: int|
                j <= k < text.len() ==> is_white_space(#[trigger] text[k]),
        trimmed_end(text).len() > 0 ==> !is_white_space(trimmed_end(text).last()),
    decreases text.len(),
{
    if text.len() > 0 && is_white_space(text.last()) {
        let rest = text.drop_last();
        lemma_trimmed_end(rest);
        let j = choose|j: int|
            0 <= j <= rest.len() && trimmed_end(rest) == #[trigger] rest.take(j) && forall|k: int|
                j <= k < rest.len() ==> is_white_space(#[trigger] rest[k]);
        assert(rest.take(j) =~= text.take(j));
        assert forall|k: int| j <= k < text.len() implies is_white_space(#[trigger] text[k]) by {
            if k < rest.len() {
                assert(rest[k] == text[k]);
            }
        }
    } else {
        assert(text.take(text.len() as int) =~= text);
    }
}

/// The parts of a text between the occurrences of a character.
pub open spec fn pieces(text: Seq<char>, separator: char) -> Seq<Seq<char>>
    decreases text.len(),
{
    if text.len() == 0 {
        seq![Seq::empty()]
    } else {
        let before = pieces(text.drop_last(), separator);
        if text.last() == separator {
            before.push(Seq::empty())
        } else {
            before.drop_last().push(before.last().push(text.last()))
        }
    }
}

/// Splits a text at every occurrence of a character.
pub fn split(text: &str, separator: char) -> (parts: Vec<String>)
    ensures
        texts(parts@) == pieces(text@, separator),
        parts@.len() >= 1,
{
    let chars = chars_of(text);
    let mut parts: Vec<String> = Vec::new();
    let mut start: usize = 0;
    let mut i: usize = 0;
    assert(chars@.take(0) =~= Seq::empty());
    assert(texts(parts@).push(chars@.subrange(0, 0)) =~= seq![Seq::empty()]);
    while i < chars.len()
        invariant
            start <= i <= chars@.len(),
            chars@ == text@,
            pieces(chars@.take(i as int), separator) == texts(parts@).push(
                chars@.subrange(start as int, i as int),
            ),
        decreases chars.len() - i,
    {
        let ghost here = texts(parts@).push(chars@.subrange(start as int, i as int));
        let ghost next = chars@.take(i + 1);
        assert(next.drop_last() =~= chars@.take(i as int));
        assert(next.last() == chars@[i as int]);
        if chars[i] == separator {
            let part = text_of(&chars, start, i);
            push_text(&mut parts, part.as_str());
            start = i + 1;
            assert(chars@.subrange(i + 1, i + 1) =~= Seq::empty());
        } else {
            assert(here.drop_last() =~= texts(parts@));
            assert(here.last().push(chars@[i as int]) =~= chars@.subrange(start as int, i + 1));
        }
        i = i + 1;
    }
    assert(chars@.take(i as int) =~= text@);
    let part = text_of(&chars, start, i);
    push_text(&mut parts, part.as_str());
    parts
}

/// The part of a text before the first occurrence of a character and the part
/// behind it.
pub open spec fn divided(text: Seq<char>, separator: char) -> Option<(Seq<char>, Seq<char>)>
    decreases text.len(),
{
    if text.len() == 0 {
        None
    } else if text[0] == separator {
        Some((Seq::empty(), text.drop_first()))
    } else {
        match divided(text.drop_first(), separator) {
            Some((before, after)) => Some((seq![text[0]] + before, after)),
            None => None,
        }
    }
}

proof fn lemma_divided(text: Seq<char>, separator: char, at: int)
    requires
        0 <= at <= text.len(),
        forall|k: int| 0 <= k < at ==> text[k] != separator,
        at < text.len() ==> text[at] == separator,
    ensures
        divided(text, separator) == if at < text.len() {
            Some((text.take(at), text.skip(at + 1)))
        } else {
            None
        },
    decreases at,
{
    if at == 0 {
        if text.len() > 0 {
            assert(text.take(0) =~= Seq::empty());
            assert(text.skip(1) =~= text.drop_first());
        }
    } else {
        let rest = text.drop_first();
        assert forall|k: int| 0 <= k < at - 1 implies rest[k] != separator by {
            assert(rest[k] == text[k + 1]);
        }
        lemma_divided(rest, separator, at - 1);
        assert(seq![text[0]] + rest.take(at - 1) =~= text.take(at));
        if at < text.len() {
            assert(rest.skip(at) =~= text.skip(at + 1));
        }
    }
}

/// Splits a text at the first occurrence of a character.
pub fn split_once(text: &str, separator: char) -> (parts: Option<(String, String)>)
    ensures
        match parts {
            Some((before, after)) => divided(text@, separator) == Some((before@, after@)),
            None => divided(text@, separator) is None,
        },
{
    let chars = chars_of(text);
    let mut i: usize = 0;
    while i < chars.len()
        invariant
            i <= chars@.len(),
            chars@ == text@,
            forall|k: int| 0 <= k < i ==> chars@[k] != separator,
        decreases chars.len() - i,
    {
        if chars[i] == separator {
            let before = text_of(&chars, 0, i);
            let after = text_of(&chars, i + 1, chars.len());
            proof {
                lemma_divided(text@, separator, i as int);
                assert(text@.take(i as int) =~= before@);
                assert(text@.skip(i + 1) =~= after@);
            }
            return Some((before, after));
        }
        i = i + 1;
    }
    proof {
        lemma_divided(text@, separator, i as int);
    }
    None
}

/// A line of a text without the carriage return before its line break.
pub open spec fn without_return(line: Seq<char>) -> Seq<char> {
    if line.len() > 0 && line.last() == '\r' {
        line.drop_last()
    } else {
        line
    }
}

/// The lines of a text. A line ends with a line feed, or with a carriage
/// return and a line feed; the last line need not.
pub open spec fn lines_of(text: Seq<char>) -> Seq<Seq<char>> {
    let parts = pieces(text, '\n');
    let ended = parts.drop_last().map_values(|line: Seq<char>| without_return(line));
    if parts.last().len() == 0 {
        ended
    } else {
        ended.push(parts.last())
    }
}

/// The lines of a text.
pub fn lines(text: &str) -> (list: Vec<String>)
    ensures
        texts(list@) == lines_of(text@),
{
    let parts = split(text, '\n');
    let ghost all = pieces(text@, '\n');
    let ghost ended = all.drop_last().map_values(|line: Seq<char>| without_return(line));
    let mut list: Vec<String> = Vec::new();
    let mut i: usize = 0;
    assert(texts(list@) =~= ended.take(0));
    while i < parts.len() - 1
        invariant
            i <= parts@.len() - 1,
            texts(parts@) == all,
            ended == all.drop_last().map_values(|line: Seq<char>| without_return(line)),
            texts(list@) == ended.take(i as int),
        decreases parts.len() - i,
    {
        let chars = chars_of(parts[i].as_str());
        assert(chars@ == all[i as int]);
        assert(ended[i as int] == without_return(all[i as int]));
        assert(ended.take(i + 1) =~= ended.take(i as int).push(ended[i as int]));
        let mut end: usize = chars.len();
        if chars.len() > 0 && chars[chars.len() - 1] == '\r' {
            end = chars.len() - 1;
        }
        let line = text_of(&chars, 0, end);
        assert(line@ =~= without_return(all[i as int]));
        push_text(&mut list, line.as_str());
        i = i + 1;
    }
    assert(ended.take(i as int) =~= ended);
    let last = parts[parts.len() - 1].as_str();
    assert(last@ == all.last());
    if !last.is_empty() {
        push_text(&mut list, last);
    }
    list
}

/// The characters of a text up to the first white space.
pub open spec fn leading_word(text: Seq<char>) -> Seq<char>
    decreases text.len(),
{
    if text.len() == 0 || is_white_space(text[0]) {
        Seq::empty()
    } else {
        seq![text[0]] + leading_word(text.drop_first())
    }
}

/// The first word of a text: the first run of characters that are no white
/// space.
pub open spec fn word_of(text: Seq<char>) -> Option<Seq<char>> {
    let rest = trimmed_start(text);
    if rest.len() == 0 {
        None
    } else {
        Some(leading_word(rest))
    }
}

/// The first word of a text.
pub fn first_word(text: &str) -> (word: Option<String>)
    ensures
        match word {
            Some(found) => word_of(text@) == Some(found@),
            None => word_of(text@) is None,
        },
{
    let chars = chars_of(text);
    let mut start: usize = 0;
    assert(chars@.skip(0) =~= text@);
    while start < chars.len() && white_space(chars[start])
        invariant
            start <= chars@.len(),
            trimmed_start(text@) == trimmed_start(chars@.skip(start as int)),
        decreases chars.len() - start,
    {
        assert(chars@.skip(start as int).drop_first() =~= chars@.skip(start + 1));
        start = start + 1;
    }
    let ghost rest = chars@.skip(start as int);
    if start == chars.len() {
        return None;
    }
    let mut end: usize = start;
    assert(chars@.subrange(start as int, start as int) + leading_word(rest) =~= leading_word(rest));
    while end < chars.len() && !white_space(chars[end])
        invariant
            start <= end <= chars@.len(),
            rest == chars@.skip(start as int),
            leading_word(rest) == chars@.subrange(start as int, end as int) + leading_word(
                chars@.skip(end as int),
            ),
        decreases chars.len() - end,
    {
        let ghost here = chars@.skip(end as int);
        assert(here.drop_first() =~= chars@.skip(end + 1));
        assert(chars@.subrange(start as int, end as int) + (seq![here[0]] + leading_word(
            here.drop_first(),
        )) =~= chars@.subrange(start as int, end + 1) + leading_word(chars@.skip(end + 1)));
        end = end + 1;
    }
    assert(leading_word(rest) =~= chars@.subrange(start as int, end as int));
    Some(text_of(&chars, start, end))
}

/// The character of a decimal digit.
pub open spec fn digit_char(value: int) -> char {
    if value == 0 {
        '0'
    } else if value == 1 {
        '1'
    } else if value == 2 {
        '2'
    } else if value == 3 {
        '3'
    } else if value == 4 {
        '4'
    } else if value == 5 {
        '5'
    } else if value == 6 {
        '6'
    } else if value == 7 {
        '7'
    } else if value == 8 {
        '8'
    } else {
        '9'
    }
}

/// The decimal notation of a number, without leading zeros.
pub open spec fn decimal_of(value: nat) -> Seq<char>
    decreases value,
{
    if value < 10 {
        seq![digit_char(value as int)]
    } else {
        decimal_of(value / 10).push(digit_char((value % 10) as int))
    }
}

/// A decimal notation is made of digits.
pub proof fn decimals_are_digits(value: nat)
    ensures
        is_digits(decimal_of(value)),
    decreases value,
{
    if value >= 10 {
        decimals_are_digits(value / 10);
    }
}

fn to_digit(value: u64) -> (c: char)
    requires
        value < 10,
    ensures
        c == digit_char(value as int),
{
    match value {
        0 => '0',
        1 => '1',
        2 => '2',
        3 => '3',
        4 => '4',
        5 => '5',
        6 => '6',
        7 => '7',
        8 => '8',
        _ => '9',
    }
}

/// The decimal notation of a number.
pub fn decimal(value: u64) -> (text: String)
    ensures
        text@ == decimal_of(value as nat),
    decreases value,
{
    if value < 10 {
        let mut text = String::new();
        push_char(&mut text, to_digit(value));
        assert(text@ =~= seq![digit_char(value as int)]);
        text
    } else {
        let mut text = decimal(value / 10);
        push_char(&mut text, to_digit(value % 10));
        text
    }
}

/// The number that a text of digits denotes.
pub open spec fn number_of(digits: Seq<char>) -> nat
    decreases digits.len(),
{
    if digits.len() == 0 {
        0
    } else {
        (number_of(digits.drop_last()) * 10 + (digits.last() as int - '0' as int)) as nat
    }
}

/// A text that is not empty and holds digits only.
pub open spec fn is_digits(text: Seq<char>) -> bool {
    text.len() > 0 && forall|i: int| 0 <= i < text.len() ==> is_digit(#[trigger] text[i])
}

/// The number that a text denotes: digits, behind an optional plus sign, with a
/// value that is not above the bound.
pub open spec fn parsed_number(text: Seq<char>, bound: nat) -> Option<nat> {
    let digits = if text.len() > 0 && text[0] == '+' {
        text.drop_first()
    } else {
        text
    };
    if is_digits(digits) && number_of(digits) <= bound {
        Some(number_of(digits))
    } else {
        None
    }
}

proof fn lemma_number_grows(digits: Seq<char>, i: int)
    requires
        forall|k: int| 0 <= k < digits.len() ==> is_digit(#[trigger] digits[k]),
        0 <= i <= digits.len(),
    ensures
        number_of(digits.take(i)) <= number_of(digits),
    decreases digits.len(),
{
    if i == digits.len() {
        assert(digits.take(i) =~= digits);
    } else {
        let rest = digits.drop_last();
        assert forall|k: int| 0 <= k < rest.len() implies is_digit(#[trigger] rest[k]) by {
            assert(rest[k] == digits[k]);
        }
        lemma_number_grows(rest, i);
        assert(rest.take(i) =~= digits.take(i));
        assert(is_digit(digits[digits.len() - 1]));
    }
}

/// The value of a decimal digit.
fn digit_value(c: char) -> (value: u64)
    requires
        is_digit(c),
    ensures
        value == c as int - '0' as int,
{
    match c {
        '0' => 0,
        '1' => 1,
        '2' => 2,
        '3' => 3,
        '4' => 4,
        '5' => 5,
        '6' => 6,
        '7' => 7,
        '8' => 8,
        _ => 9,
    }
}

/// Reads a number that is not above a bound.
pub fn parse_number(text: &str, bound: u64) -> (number: Option<u64>)
    ensures
        match number {
            Some(value) => parsed_number(text@, bound as nat) == Some(value as nat),
            None => parsed_number(text@, bound as nat) is None,
        },
{
    let chars = chars_of(text);
    let mut start: usize = 0;
    if chars.len() > 0 && chars[0] == '+' {
        start = 1;
    }
    let ghost digits = chars@.skip(start as int);
    assert(start == 1 ==> digits =~= text@.drop_first());
    assert(start == 0 ==> digits =~= text@);
    if start == chars.len() {
        return None;
    }
    let mut i: usize = start;
    let mut value: u64 = 0;
    assert(digits.take(0) =~= Seq::empty());
    while i < chars.len()
        invariant
            start <= i <= chars@.len(),
            digits == chars@.skip(start as int),
            digits == if text@.len() > 0 && text@[0] == '+' {
                text@.drop_first()
            } else {
                text@
            },
            value == number_of(digits.take(i - start)),
            value <= bound,
            forall|k: int| 0 <= k < i - start ==> is_digit(#[trigger] digits[k]),
        decreases chars.len() - i,
    {
        let c = chars[i];
        assert(digits[i - start] == c);
        if !digit(c) {
            return None;
        }
        let next: u128 = value as u128 * 10 + digit_value(c) as u128;
        proof {
            let longer = digits.take(i + 1 - start);
            assert(longer.drop_last() =~= digits.take(i - start));
            assert(longer.last() == c);
            assert(number_of(longer) == next);
            if next > bound && is_digits(digits) {
                lemma_number_grows(digits, i + 1 - start);
            }
        }
        if next > bound as u128 {
            return None;
        }
        value = next as u64;
        i = i + 1;
    }
    assert(digits.take(i - start) =~= digits);
    Some(value)
}

/// The character of a hexadecimal digit, in lower case.
pub open spec fn hex_char(value: int) -> char {
    if value < 10 {
        digit_char(value)
    } else if value == 10 {
        'a'
    } else if value == 11 {
        'b'
    } else if value == 12 {
        'c'
    } else if value == 13 {
        'd'
    } else if value == 14 {
        'e'
    } else {
        'f'
    }
}

pub(crate) fn to_hex(value: u32) -> (c: char)
    requires
        value < 16,
    ensures
        c == hex_char(value as int),
{
    match value {
        10 => 'a',
        11 => 'b',
        12 => 'c',
        13 => 'd',
        14 => 'e',
        15 => 'f',
        _ => to_digit(value as u64),
    }
}

/// The two hexadecimal digits of a byte.
pub open spec fn byte_hex(byte: u8) -> Seq<char> {
    seq![hex_char(byte as int / 16), hex_char(byte as int % 16)]
}

/// The hexadecimal notation of a list of bytes, two lower case digits each.
pub open spec fn hex_of(bytes: Seq<u8>) -> Seq<char>
    decreases bytes.len(),
{
    if bytes.len() == 0 {
        Seq::empty()
    } else {
        hex_of(bytes.drop_last()) + byte_hex(bytes.last())
    }
}

/// The hexadecimal notation of a list of bytes.
pub fn hex(bytes: &Vec<u8>) -> (text: String)
    ensures
        text@ == hex_of(bytes@),
{
    let mut text = String::new();
    let mut i: usize = 0;
    assert(bytes@.take(0) =~= Seq::empty());
    while i < bytes.len()
        invariant
            i <= bytes@.len(),
            text@ == hex_of(bytes@.take(i as int)),
        decreases bytes.len() - i,
    {
        let ghost before = text@;
        let byte: u32 = bytes[i] as u32;
        push_char(&mut text, to_hex(byte / 16));
        push_char(&mut text, to_hex(byte % 16));
        proof {
            let next = bytes@.take(i + 1);
            assert(next.drop_last() =~= bytes@.take(i as int));
            assert(next.last() == bytes@[i as int]);
            assert(text@ =~= before + byte_hex(bytes@[i as int]));
        }
        i = i + 1;
    }
    assert(bytes@.take(i as int) =~= bytes@);
    text
}

/// A hexadecimal notation has two digits for each byte.
pub proof fn hex_has_two_digits_per_byte(bytes: Seq<u8>)
    ensures
        hex_of(bytes).len() == 2 * bytes.len(),
        forall|i: int|
            0 <= i < hex_of(bytes).len() ==> is_hex_digit(#[trigger] hex_of(bytes)[i])
                && !is_upper(hex_of(bytes)[i]),
    decreases bytes.len(),
{
    if bytes.len() > 0 {
        hex_has_two_digits_per_byte(bytes.drop_last());
    }
}

/// An image reference that ends in a SHA-256 digest: `@sha256:` and 64
/// hexadecimal digits.
pub open spec fn ends_in_digest(image: Seq<char>) -> bool {
    &&& image.len() >= 72
    &&& image.subrange(image.len() - 72, image.len() - 64) == "@sha256:"@
    &&& forall|i: int| image.len() - 64 <= i < image.len() ==> is_hex_digit(#[trigger] image[i])
}

/// Whether an image reference ends in a SHA-256 digest.
pub fn is_digest_reference(image: &str) -> (result: bool)
    ensures
        result == ends_in_digest(image@),
{
    let chars = chars_of(image);
    if chars.len() < 72 {
        return false;
    }
    let marker = text_of(&chars, chars.len() - 72, chars.len() - 64);
    if !same(marker.as_str(), "@sha256:") {
        return false;
    }
    let mut i: usize = chars.len() - 64;
    while i < chars.len()
        invariant
            chars@.len() - 64 <= i <= chars@.len(),
            chars@.len() >= 72,
            chars@ == image@,
            forall|k: int| chars@.len() - 64 <= k < i ==> is_hex_digit(#[trigger] chars@[k]),
        decreases chars.len() - i,
    {
        if !hex_digit(chars[i]) {
            assert(!is_hex_digit(image@[i as int]));
            return false;
        }
        i = i + 1;
    }
    true
}

/// What the `Debug` formatting of a text looks like: the text in quotation
/// marks, with the characters that would not print escaped.
pub uninterp spec fn debug_form(text: Seq<char>) -> Seq<char>;

/// Formats a text for a diagnostic.
///
/// Trusted: the result of formatting a `str` with `{:?}` is a function of the
/// characters of the text alone. What it escapes follows Unicode tables and is
/// left unsaid.
#[verifier::external_body]
pub(crate) fn debug_text(text: &str) -> (result: String)
    ensures
        result@ == debug_form(text@),
{
    format!("{text:?}")
}

/// A character that a diagnostic may show: anything but control characters, of
/// which the line feed alone stays.
pub open spec fn is_shown(c: char) -> bool {
    !is_control_char(c) || c == '\n'
}

/// The characters of a text that a diagnostic may show.
pub open spec fn shown(text: Seq<char>) -> Seq<char>
    decreases text.len(),
{
    if text.len() == 0 {
        Seq::empty()
    } else if is_shown(text.last()) {
        shown(text.drop_last()).push(text.last())
    } else {
        shown(text.drop_last())
    }
}

/// A text that is cut after a number of characters.
pub open spec fn cut(text: Seq<char>, limit: nat) -> Seq<char> {
    if text.len() <= limit {
        text
    } else {
        text.take(limit as int)
    }
}

/// Makes a text fit for a diagnostic: control characters are dropped and what
/// remains is cut after a number of characters.
pub fn bounded_diagnostic(text: &str, limit: usize) -> (result: String)
    ensures
        result@ == cut(shown(text@), limit as nat),
{
    let chars = chars_of(text);
    let mut kept: Vec<char> = Vec::new();
    let mut i: usize = 0;
    assert(chars@.take(0) =~= Seq::empty());
    while i < chars.len()
        invariant
            i <= chars@.len(),
            kept@ == shown(chars@.take(i as int)),
        decreases chars.len() - i,
    {
        let c = chars[i];
        assert(chars@.take(i + 1).drop_last() =~= chars@.take(i as int));
        assert(chars@.take(i + 1).last() == c);
        if !control(c) || c == '\n' {
            kept.push(c);
        }
        i = i + 1;
    }
    assert(chars@.take(i as int) =~= text@);
    if kept.len() <= limit {
        let result = text_of(&kept, 0, kept.len());
        assert(result@ =~= kept@);
        result
    } else {
        let result = text_of(&kept, 0, limit);
        assert(result@ =~= kept@.take(limit as int));
        result
    }
}

/// A diagnostic is bounded and shows no control character but the line feed.
pub proof fn diagnostics_are_bounded(text: Seq<char>, limit: nat)
    ensures
        cut(shown(text), limit).len() <= limit,
        forall|i: int|
            0 <= i < cut(shown(text), limit).len() ==> is_shown(
                #[trigger] cut(shown(text), limit)[i],
            ),
{
    lemma_shown(text);
}

proof fn lemma_shown(text: Seq<char>)
    ensures
        forall|i: int| 0 <= i < shown(text).len() ==> is_shown(#[trigger] shown(text)[i]),
    decreases text.len(),
{
    if text.len() > 0 {
        let rest = text.drop_last();
        lemma_shown(rest);
        assert forall|i: int| 0 <= i < shown(text).len() implies is_shown(
            #[trigger] shown(text)[i],
        ) by {
            if i < shown(rest).len() {
                assert(shown(text)[i] == shown(rest)[i]);
            }
        }
    }
}

/// The last characters of a text, at most a number of them.
pub open spec fn last_chars(text: Seq<char>, limit: nat) -> Seq<char> {
    if text.len() <= limit {
        text
    } else {
        text.skip(text.len() - limit)
    }
}

/// What reading bytes as UTF-8 gives where errors are replaced.
pub uninterp spec fn lossy_form(bytes: Seq<u8>) -> Seq<char>;

/// Reads bytes as UTF-8, with a replacement character for what is not.
///
/// Trusted: the result of `String::from_utf8_lossy` is a function of the bytes
/// alone, and it is the text that the bytes encode where they are UTF-8. How
/// many replacement characters stand for an error is left unsaid.
#[verifier::external_body]
pub(crate) fn lossy_text(bytes: &Vec<u8>) -> (text: String)
    ensures
        text@ == lossy_form(bytes@),
        valid_utf8(bytes@) ==> text@ == decode_utf8(bytes@),
{
    String::from_utf8_lossy(bytes).into_owned()
}

/// Reads bytes as UTF-8.
///
/// Trusted: `String::from_utf8` succeeds exactly on bytes that are UTF-8, with
/// the text that they encode.
#[verifier::external_body]
pub(crate) fn utf8_text(bytes: Vec<u8>) -> (text: Option<String>)
    ensures
        match text {
            Some(found) => valid_utf8(bytes@) && found@ == decode_utf8(bytes@),
            None => !valid_utf8(bytes@),
        },
{
    String::from_utf8(bytes).ok()
}

/// A text that holds hexadecimal digits only.
pub open spec fn all_hex(text: Seq<char>) -> bool {
    forall|i: int| 0 <= i < text.len() ==> is_hex_digit(#[trigger] text[i])
}

/// The decimal notation of a whole number, with a sign where it is negative.
pub open spec fn signed_decimal_of(value: int) -> Seq<char> {
    if value < 0 {
        "-"@ + decimal_of((-value) as nat)
    } else {
        decimal_of(value as nat)
    }
}

/// The decimal notation of a whole number.
pub fn signed_decimal(value: i32) -> (text: String)
    ensures
        text@ == signed_decimal_of(value as int),
{
    let wide: i64 = value as i64;
    if wide < 0 {
        join("-", decimal((-wide) as u64).as_str())
    } else {
        decimal(wide as u64)
    }
}

/// An optional exit code as diagnostics show it.
pub open spec fn exit_code_of(code: Option<i32>) -> Seq<char> {
    match code {
        Some(value) => "Some("@ + signed_decimal_of(value as int) + ")"@,
        None => "None"@,
    }
}

/// Formats an optional exit code for a diagnostic.
pub fn exit_code_text(code: Option<i32>) -> (text: String)
    ensures
        text@ == exit_code_of(code),
{
    match code {
        Some(value) => {
            let mut text = join("Some(", signed_decimal(value).as_str());
            text.append(")");
            text
        },
        None => "None".to_owned(),
    }
}

/// The lower case form of an ASCII letter; any other character is its own.
pub open spec fn lower_of(c: char) -> char {
    if is_upper(c) {
        ((c as u8 + 32) as u8) as char
    } else {
        c
    }
}

/// A text with its ASCII letters in lower case.
pub open spec fn lowered(text: Seq<char>) -> Seq<char> {
    Seq::new(text.len(), |i: int| lower_of(text[i]))
}

/// Puts the ASCII letters of a text in lower case.
pub fn to_lower(text: &str) -> (result: String)
    ensures
        result@ == lowered(text@),
{
    let chars = chars_of(text);
    let mut result = String::new();
    let mut i: usize = 0;
    assert(result@ =~= lowered(text@).take(0));
    while i < chars.len()
        invariant
            i <= chars@.len(),
            chars@ == text@,
            result@ == lowered(text@).take(i as int),
        decreases chars.len() - i,
    {
        let c = chars[i];
        let low: char = if c >= 'A' && c <= 'Z' {
            (c as u8 + 32) as char
        } else {
            c
        };
        push_char(&mut result, low);
        assert(lowered(text@).take(i + 1) =~= lowered(text@).take(i as int).push(low));
        i = i + 1;
    }
    assert(lowered(text@).take(i as int) =~= lowered(text@));
    result
}

/// A text with blanks in place of control characters.
pub open spec fn spaced(text: Seq<char>) -> Seq<char> {
    Seq::new(
        text.len(),
        |i: int|
            if is_control_char(text[i]) {
                ' '
            } else {
                text[i]
            },
    )
}

/// A text on one line, cut behind a number of characters. The cut is marked.
pub open spec fn compact(text: Seq<char>, limit: nat) -> Seq<char> {
    if text.len() > limit {
        trimmed(spaced(text.take(limit as int)).push('\u{2026}'))
    } else {
        trimmed(spaced(text))
    }
}

/// Puts a text on one line and cuts it.
pub fn compact_readout(value: &str, max_chars: usize) -> (result: String)
    ensures
        result@ == compact(value@, max_chars as nat),
{
    let chars = chars_of(value);
    let count: usize = if chars.len() > max_chars {
        max_chars
    } else {
        chars.len()
    };
    let ghost kept = value@.take(count as int);
    let mut result = String::new();
    let mut i: usize = 0;
    assert(result@ =~= spaced(kept).take(0));
    while i < count
        invariant
            i <= count <= chars@.len(),
            chars@ == value@,
            kept == value@.take(count as int),
            result@ == spaced(kept).take(i as int),
        decreases count - i,
    {
        let c: char = if control(chars[i]) {
            ' '
        } else {
            chars[i]
        };
        push_char(&mut result, c);
        assert(spaced(kept).take(i + 1) =~= spaced(kept).take(i as int).push(c));
        i = i + 1;
    }
    assert(spaced(kept).take(i as int) =~= spaced(kept));
    if chars.len() > max_chars {
        push_char(&mut result, '\u{2026}');
    } else {
        assert(kept =~= value@);
    }
    trim(result.as_str())
}

proof fn lemma_trimmed_is_plain(text: Seq<char>)
    requires
        forall|i: int| 0 <= i < text.len() ==> !is_control_char(#[trigger] text[i]),
    ensures
        trimmed(text).len() <= text.len(),
        forall|i: int|
            0 <= i < trimmed(text).len() ==> !is_control_char(#[trigger] trimmed(text)[i]),
{
    trimmed_keeps_the_middle(text);
    let (i, j) = choose|i: int, j: int|
        0 <= i <= j <= text.len() && trimmed(text) == #[trigger] text.subrange(i, j);
    assert forall|k: int| 0 <= k < trimmed(text).len() implies !is_control_char(
        #[trigger] trimmed(text)[k],
    ) by {
        assert(trimmed(text)[k] == text[i + k]);
    }
}

/// A readout is on one line, without control characters, and has a bounded
/// length, with one character more for the mark of a cut.
pub proof fn readouts_are_bounded(text: Seq<char>, limit: nat)
    ensures
        compact(text, limit).len() <= limit + 1,
        forall|i: int|
            0 <= i < compact(text, limit).len() ==> !is_control_char(
                #[trigger] compact(text, limit)[i],
            ),
{
    if text.len() > limit {
        lemma_trimmed_is_plain(spaced(text.take(limit as int)).push('\u{2026}'));
    } else {
        lemma_trimmed_is_plain(spaced(text));
    }
}

/// The characters of an optional text.
pub open spec fn optional_text(value: Option<String>) -> Option<Seq<char>> {
    match value {
        Some(text) => Some(text@),
        None => None,
    }
}

/// An option of a command: the word stands in it, with its value directly behind
/// it.
pub open spec fn gives(argv: Seq<Seq<char>>, option: Seq<char>, value: Seq<char>) -> bool {
    exists|i: int| 0 <= i < argv.len() - 1 && #[trigger] argv[i] == option && argv[i + 1] == value
}

/// A command ends in these words.
pub open spec fn ends_in(argv: Seq<Seq<char>>, words: Seq<Seq<char>>) -> bool {
    argv.len() >= words.len() && argv.skip(argv.len() - words.len()) == words
}

/// What the classes of characters hold, by number.
pub proof fn classes_of_characters(c: char)
    ensures
        (c as int) < 128 ==> (is_white_space(c) <==> (9 <= c as int <= 13 || c as int == 32)),
        is_control_char(c) <==> (c as int <= 31 || 127 <= c as int <= 159),
        is_digit(c) <==> 48 <= c as int <= 57,
        is_upper(c) <==> 65 <= c as int <= 90,
        is_lower(c) <==> 97 <= c as int <= 122,
        is_alphanumeric(c) <==> (is_lower(c) || is_upper(c) || is_digit(c)),
        is_hex_digit(c) <==> (48 <= c as int <= 57 || 97 <= c as int <= 102 || 65 <= c as int
            <= 70),
        is_upper(c) ==> lower_of(c) as int == c as int + 32,
        !is_upper(c) ==> lower_of(c) == c,
{
    if is_upper(c) {
        let byte = c as u8;
        assert(byte as int == c as int);
    }
}

/// A decimal says the number that it was made of, and reading it gives the
/// number back, unless the number is over the bound.
pub proof fn decimals_say_their_number(value: nat, bound: nat)
    ensures
        number_of(decimal_of(value)) == value,
        parsed_number(decimal_of(value), bound) == if value <= bound {
            Some(value)
        } else {
            None
        },
        parsed_number(seq!['+'] + decimal_of(value), bound) == parsed_number(
            decimal_of(value),
            bound,
        ),
        value > 0 ==> decimal_of(value)[0] != '0',
        decimal_of(0) == seq!['0'],
        parsed_number(Seq::empty(), bound) is None,
    decreases value,
{
    decimals_are_digits(value);
    assert(is_digit(decimal_of(value)[0]));
    assert((seq!['+'] + decimal_of(value)).drop_first() =~= decimal_of(value));
    assert(number_of(Seq::empty()) == 0);
    assert(digit_char((value % 10) as int) as int == 48 + value % 10);
    if value < 10 {
        assert(decimal_of(value).drop_last() =~= Seq::empty());
        assert(decimal_of(value).last() == digit_char(value as int));
    } else {
        decimals_say_their_number(value / 10, bound);
        assert(decimal_of(value).drop_last() =~= decimal_of(value / 10));
        assert(decimal_of(value).last() == digit_char((value % 10) as int));
        decimals_are_digits(value / 10);
        assert(decimal_of(value)[0] == decimal_of(value / 10)[0]);
    }
}

/// What is read as a number is made of digits, with at most a sign before them,
/// and is at most the bound. Zeros before a number say nothing.
pub proof fn numbers_are_made_of_digits(text: Seq<char>, bound: nat, i: int)
    ensures
        parsed_number(text, bound) is Some ==> {
            &&& parsed_number(text, bound)->0 <= bound
            &&& text.len() > 0
            &&& 0 <= i < text.len() ==> is_digit(text[i]) || (i == 0 && text[i] == '+')
        },
        is_digits(text) && number_of(text) <= bound ==> parsed_number(text, bound) == Some(
            number_of(text),
        ),
        is_digits(text) ==> number_of(seq!['0'] + text) == number_of(text),
    decreases text.len(),
{
    if parsed_number(text, bound) is Some && 0 <= i < text.len() && text[0] == '+' && i > 0 {
        assert(text.drop_first()[i - 1] == text[i]);
    }
    if is_digits(text) {
        assert(is_digit(text[0]));
        let longer = seq!['0'] + text;
        assert(longer.drop_last() =~= seq!['0'] + text.drop_last());
        assert(longer.last() == text.last());
        if text.len() == 1 {
            assert(text.drop_last() =~= Seq::empty());
            assert(longer.drop_last() =~= seq!['0']);
            assert(seq!['0'].drop_last() =~= Seq::<char>::empty());
            assert(number_of(Seq::empty()) == 0);
            assert(number_of(seq!['0']) == 0);
        } else {
            assert forall|k: int| 0 <= k < text.drop_last().len() implies is_digit(
                #[trigger] text.drop_last()[k],
            ) by {
                assert(text.drop_last()[k] == text[k]);
            }
            numbers_are_made_of_digits(text.drop_last(), bound, 0);
        }
    }
}

/// Every byte is written as two digits to the base of sixteen, the high one first.
pub proof fn hex_says_its_bytes(bytes: Seq<u8>, i: int)
    requires
        0 <= i < bytes.len(),
    ensures
        hex_of(bytes).len() == 2 * bytes.len(),
        hex_of(bytes)[2 * i] == hex_char(bytes[i] as int / 16),
        hex_of(bytes)[2 * i + 1] == hex_char(bytes[i] as int % 16),
        forall|value: int|
            0 <= value < 16 ==> (#[trigger] hex_char(value)) as int == if value < 10 {
                48 + value
            } else {
                87 + value
            },
    decreases bytes.len(),
{
    hex_has_two_digits_per_byte(bytes);
    hex_has_two_digits_per_byte(bytes.drop_last());
    let before = hex_of(bytes.drop_last());
    if i < bytes.len() - 1 {
        hex_says_its_bytes(bytes.drop_last(), i);
        assert(bytes.drop_last()[i] == bytes[i]);
        assert(hex_of(bytes)[2 * i] == before[2 * i]);
        assert(hex_of(bytes)[2 * i + 1] == before[2 * i + 1]);
    } else {
        assert(bytes.last() == bytes[i]);
        assert(hex_of(bytes)[2 * i] == byte_hex(bytes[i])[0]);
        assert(hex_of(bytes)[2 * i + 1] == byte_hex(bytes[i])[1]);
    }
}

/// Trimming drops white space at the ends, all of it and nothing else.
pub proof fn trimming_drops_only_space(text: Seq<char>)
    ensures
        exists|i: int, j: int|
            0 <= i <= j <= text.len() && trimmed(text) == #[trigger] text.subrange(i, j) && (
            forall|k: int| 0 <= k < i || j <= k < text.len() ==> is_white_space(#[trigger] text[k])),
        trimmed(text).len() > 0 ==> !is_white_space(trimmed(text)[0]) && !is_white_space(
            trimmed(text).last(),
        ),
        text.len() > 0 && !is_white_space(text[0]) && !is_white_space(text.last()) ==> trimmed(text)
            == text,
{
    trimmed_keeps_the_middle(text);
    lemma_trimmed_start(text);
    lemma_trimmed_end(trimmed_start(text));
    let i = choose|i: int| 0 <= i <= text.len() && trimmed_start(text) == #[trigger] text.skip(i)
        && forall|k: int| 0 <= k < i ==> is_white_space(#[trigger] text[k]);
    let rest = trimmed_start(text);
    let j = choose|j: int| 0 <= j <= rest.len() && trimmed_end(rest) == #[trigger] rest.take(j)
        && forall|k: int| j <= k < rest.len() ==> is_white_space(#[trigger] rest[k]);
    assert(trimmed(text) =~= text.subrange(i, i + j));
    assert forall|k: int| 0 <= k < i || i + j <= k < text.len() implies is_white_space(
        #[trigger] text[k],
    ) by {
        if k >= i {
            assert(rest[k - i] == text[k]);
        }
    }
}

/// A text is divided at the first separator, and not at all where there is none.
pub proof fn texts_divide_at_the_first_separator(
    before: Seq<char>,
    after: Seq<char>,
    separator: char,
)
    requires
        !before.contains(separator),
    ensures
        divided(before.push(separator) + after, separator) == Some((before, after)),
        divided(before, separator) is None,
{
    let text = before.push(separator) + after;
    assert forall|k: int| 0 <= k < before.len() implies text[k] != separator && before[k]
        != separator by {
        assert(text[k] == before[k]);
        assert(before.contains(before[k]));
    }
    lemma_divided(text, separator, before.len() as int);
    lemma_divided(before, separator, before.len() as int);
    assert(text.take(before.len() as int) =~= before);
    assert(text.skip(before.len() as int + 1) =~= after);
}

/// Every line break ends a line, with the return before it if there is one, and
/// what follows the last break is a line unless it is empty.
pub proof fn line_breaks_end_lines(line: Seq<char>, rest: Seq<char>)
    requires
        !line.contains('\n'),
    ensures
        lines_of(line.push('\n') + rest) == seq![without_return(line)] + lines_of(rest),
        line.len() > 0 ==> lines_of(line) == seq![line],
        lines_of(Seq::empty()) == Seq::<Seq<char>>::empty(),
        without_return(line.push('\r')) == line,
        line.len() > 0 && line.last() != '\r' ==> without_return(line) == line,
{
    let nothing: Seq<char> = Seq::empty();
    a_text_without_separator_is_one_piece(line, '\n');
    a_text_without_separator_is_one_piece(nothing, '\n');
    pieces_of_a_join(line, rest, '\n');
    let parts = pieces(line.push('\n') + rest, '\n');
    let others = pieces(rest, '\n');
    assert(others.len() > 0);
    assert(parts.last() == others.last());
    assert(parts.drop_last() =~= seq![line] + others.drop_last());
    let ended = parts.drop_last().map_values(|line: Seq<char>| without_return(line));
    let others_ended = others.drop_last().map_values(|line: Seq<char>| without_return(line));
    assert(ended =~= seq![without_return(line)] + others_ended);
    assert(lines_of(line.push('\n') + rest) =~= seq![without_return(line)] + lines_of(rest));
    assert(seq![line].drop_last() =~= Seq::<Seq<char>>::empty());
    assert(seq![nothing].drop_last() =~= Seq::<Seq<char>>::empty());
    if line.len() > 0 {
        assert(lines_of(line) =~= seq![line]);
    }
    assert(lines_of(nothing) =~= Seq::<Seq<char>>::empty());
    assert(line.push('\r').drop_last() =~= line);
}

proof fn lemma_leading_word(text: Seq<char>)
    ensures
        leading_word(text).is_prefix_of(text),
        forall|k: int|
            0 <= k < leading_word(text).len() ==> !is_white_space(#[trigger] leading_word(text)[k]),
        leading_word(text).len() < text.len() ==> is_white_space(
            text[leading_word(text).len() as int],
        ),
    decreases text.len(),
{
    if text.len() > 0 && !is_white_space(text[0]) {
        let rest = text.drop_first();
        lemma_leading_word(rest);
        let word = leading_word(text);
        let tail = leading_word(rest);
        assert(word =~= seq![text[0]] + tail);
        assert forall|k: int| 0 <= k < word.len() implies !is_white_space(#[trigger] word[k])
            && word[k] == text[k] by {
            if k > 0 {
                assert(word[k] == tail[k - 1]);
                assert(tail[k - 1] == rest[k - 1]);
            }
        }
        assert(word =~= text.take(word.len() as int));
        if word.len() < text.len() {
            assert(rest[tail.len() as int] == text[word.len() as int]);
        }
    } else {
        assert(text.take(0) =~= Seq::empty());
    }
}

/// The first word of a text comes after nothing but white space, holds none, and
/// goes up to the next white space.
pub proof fn first_words_are_whole(text: Seq<char>)
    ensures
        word_of(text) is None <==> forall|k: int|
            0 <= k < text.len() ==> is_white_space(#[trigger] text[k]),
        word_of(text) matches Some(word) ==> word.len() > 0 && exists|i: int|
            {
                &&& #[trigger] occurs_at(text, word, i)
                &&& forall|k: int| 0 <= k < i ==> is_white_space(#[trigger] text[k])
                &&& forall|k: int| i <= k < i + word.len() ==> !is_white_space(#[trigger] text[k])
                &&& i + word.len() < text.len() ==> is_white_space(text[i + word.len()])
            },
{
    lemma_trimmed_start(text);
    let rest = trimmed_start(text);
    lemma_leading_word(rest);
    let i = choose|i: int| 0 <= i <= text.len() && trimmed_start(text) == #[trigger] text.skip(i)
        && forall|k: int| 0 <= k < i ==> is_white_space(#[trigger] text[k]);
    if rest.len() > 0 {
        let word = leading_word(rest);
        assert(rest[0] == text[i]);
        assert(word.len() > 0) by {
            assert(word == seq![rest[0]] + leading_word(rest.drop_first()));
        }
        assert forall|k: int| 0 <= k < word.len() implies word[k] == text[i + k] by {
            assert(rest[k] == text[i + k]);
        }
        assert(text.subrange(i, i + word.len()) =~= word);
        assert(occurs_at(text, word, i));
        assert forall|k: int| i <= k < i + word.len() implies !is_white_space(
            #[trigger] text[k],
        ) by {
            assert(word[k - i] == text[k]);
        }
        if i + word.len() < text.len() {
            assert(rest[word.len() as int] == text[i + word.len()]);
        }
    } else {
        assert forall|k: int| 0 <= k < text.len() implies is_white_space(#[trigger] text[k]) by {
            assert(text.skip(i).len() == 0);
        }
    }
}

/// Text without control characters is shown as it is, and characters are dropped
/// one by one.
pub proof fn plain_text_is_shown(text: Seq<char>, c: char)
    ensures
        (forall|k: int| 0 <= k < text.len() ==> !is_control_char(#[trigger] text[k])) ==> shown(
            text,
        ) == text,
        shown(text.push('\n')) == shown(text).push('\n'),
        !is_control_char(c) ==> shown(text.push(c)) == shown(text).push(c),
        is_control_char(c) && c != '\n' ==> shown(text.push(c)) == shown(text),
    decreases text.len(),
{
    assert(text.push(c).drop_last() =~= text);
    assert(text.push('\n').drop_last() =~= text);
    if text.len() > 0 {
        let rest = text.drop_last();
        plain_text_is_shown(rest, c);
        if forall|k: int| 0 <= k < text.len() ==> !is_control_char(#[trigger] text[k]) {
            assert forall|k: int| 0 <= k < rest.len() implies !is_control_char(
                #[trigger] rest[k],
            ) by {
                assert(rest[k] == text[k]);
            }
            assert(text.last() == text[text.len() - 1]);
            assert(rest.push(text.last()) =~= text);
        }
    } else {
        assert(text =~= Seq::empty());
    }
}

/// A bounded text is the whole text or as much of it as the bound lets through:
/// its head or, where the end matters, its tail.
pub proof fn bounded_texts_are_as_long_as_they_may(text: Seq<char>, limit: nat)
    ensures
        cut(text, limit).is_prefix_of(text),
        last_chars(text, limit).is_suffix_of(text),
        text.len() <= limit ==> cut(text, limit) == text && last_chars(text, limit) == text,
        text.len() > limit ==> cut(text, limit).len() == limit && last_chars(text, limit).len()
            == limit,
{
    if text.len() <= limit {
        assert(text.take(text.len() as int) =~= text);
        assert(text.skip(0) =~= text);
    } else {
        assert(text.take(limit as int) =~= text.take(cut(text, limit).len() as int));
    }
}

/// Plain words are read out as they are where they are short; a long text is cut
/// and ends in an ellipsis.
pub proof fn readouts_say_the_text(text: Seq<char>, limit: nat)
    requires
        forall|k: int|
            0 <= k < text.len() ==> !is_control_char(#[trigger] text[k]) && !is_white_space(text[k]),
    ensures
        text.len() <= limit ==> compact(text, limit) == text,
        text.len() > limit ==> compact(text, limit) == text.take(limit as int).push('\u{2026}'),
{
    assert(spaced(text) =~= text);
    if text.len() > limit {
        let head = text.take(limit as int);
        assert forall|k: int| 0 <= k < head.len() implies head[k] == text[k] by {
        }
        assert(spaced(head) =~= head);
        trimming_drops_only_space(head.push('\u{2026}'));
        assert(!is_white_space('\u{2026}'));
        if limit > 0 {
            assert(head.push('\u{2026}')[0] == text[0]);
        }
    } else if text.len() > 0 {
        trimming_drops_only_space(text);
    } else {
        assert(trimmed(text) =~= text);
    }
}

/// A control character in a readout is a space.
pub proof fn readouts_stay_on_their_line(text: Seq<char>, i: int)
    requires
        0 <= i < text.len(),
    ensures
        spaced(text).len() == text.len(),
        is_control_char(text[i]) ==> spaced(text)[i] == ' ',
        !is_control_char(text[i]) ==> spaced(text)[i] == text[i],
{
}

/// A reference is pinned by the sixty-four digits of its digest after the name of
/// the function, and by nothing shorter.
pub proof fn digests_have_64_digits(name: Seq<char>, digest: Seq<char>)
    requires
        all_hex(digest),
    ensures
        digest.len() == 64 ==> ends_in_digest(name + "@sha256:"@ + digest),
        digest.len() != 64 && !name.contains('@') ==> !ends_in_digest(
            name + "@sha256:"@ + digest,
        ),
        !name.contains('@') ==> !ends_in_digest(name),
{
    reveal_strlit("@sha256:");
    let image = name + "@sha256:"@ + digest;
    if digest.len() == 64 {
        assert(image.subrange(image.len() - 72, image.len() - 64) =~= "@sha256:"@);
        assert forall|i: int| image.len() - 64 <= i < image.len() implies is_hex_digit(
            #[trigger] image[i],
        ) by {
            assert(image[i] == digest[i - name.len() - 8]);
        }
    }
    if !name.contains('@') {
        if ends_in_digest(name) {
            assert(name.subrange(name.len() - 72, name.len() - 64)[0] == '@');
            assert(name[name.len() - 72] == '@');
        }
        if digest.len() != 64 && ends_in_digest(image) {
            let at = image.len() - 72;
            assert(image.subrange(at, image.len() - 64)[0] == '@');
            assert(image[at] == '@');
            if at < name.len() {
                assert(name[at] == '@');
            } else if at < name.len() + 8 {
                assert(image[at] == "@sha256:"@[at - name.len()]);
            } else {
                assert(image[at] == digest[at - name.len() - 8]);
                assert(is_hex_digit('@'));
            }
        }
    }
}

/// Numbers below zero have a minus before their amount, and a status says whether
/// there is a code.
pub proof fn codes_are_written_out(value: int, code: i32)
    ensures
        value >= 0 ==> signed_decimal_of(value) == decimal_of(value as nat),
        value < 0 ==> signed_decimal_of(value) == seq!['-'] + decimal_of((-value) as nat),
        exit_code_of(None) == "None"@,
        exit_code_of(Some(code)) == "Some("@ + signed_decimal_of(code as int) + ")"@,
{
    reveal_strlit("-");
    assert("-"@ =~= seq!['-']);
}

} // verus!
