//! Big-endian numbers and length-prefixed fields.

use crate::text::texts;
use vstd::prelude::*;
use vstd::utf8::{encode_utf8, encode_utf8_decode_utf8};

verus! {

/// The big-endian notation of a number in a number of bytes.
pub open spec fn big_endian(value: nat, width: nat) -> Seq<u8>
    decreases width,
{
    if width == 0 {
        Seq::empty()
    } else {
        big_endian(value / 256, (width - 1) as nat).push((value % 256) as u8)
    }
}

/// The first number that does not fit in a number of bytes.
pub open spec fn byte_limit(width: nat) -> nat
    decreases width,
{
    if width == 0 {
        1
    } else {
        256 * byte_limit((width - 1) as nat)
    }
}

proof fn lemma_big_endian_length(value: nat, width: nat)
    ensures
        big_endian(value, width).len() == width,
    decreases width,
{
    if width > 0 {
        lemma_big_endian_length(value / 256, (width - 1) as nat);
    }
}

/// Numbers that fit are told apart by their notation.
pub proof fn big_endian_loses_nothing(a: nat, b: nat, width: nat)
    requires
        a < byte_limit(width),
        b < byte_limit(width),
        big_endian(a, width) == big_endian(b, width),
    ensures
        a == b,
    decreases width,
{
    if width > 0 {
        let less = (width - 1) as nat;
        let left = big_endian(a / 256, less);
        let right = big_endian(b / 256, less);
        assert(big_endian(a, width).drop_last() =~= left);
        assert(big_endian(b, width).drop_last() =~= right);
        assert(big_endian(a, width).last() == (a % 256) as u8);
        assert(big_endian(b, width).last() == (b % 256) as u8);
        assert(a / 256 < byte_limit(less) && b / 256 < byte_limit(less));
        big_endian_loses_nothing(a / 256, b / 256, less);
        assert(a % 256 == b % 256);
    }
}

/// Eight bytes hold every number of 64 bits.
pub proof fn eight_bytes_hold_64_bits()
    ensures
        byte_limit(8) == 0x1_0000_0000_0000_0000,
{
    reveal_with_fuel(byte_limit, 9);
}

/// Adds the big-endian notation of a number to a list of bytes.
pub fn push_big_endian(out: &mut Vec<u8>, value: u64, width: u8)
    ensures
        final(out)@ == old(out)@ + big_endian(value as nat, width as nat),
    decreases width,
{
    let ghost before = out@;
    if width > 0 {
        push_big_endian(out, value / 256, width - 1);
        out.push((value % 256) as u8);
    }
    assert(out@ =~= before + big_endian(value as nat, width as nat));
}

/// A field: the length of a text in UTF-8, in eight bytes, and the text.
pub open spec fn field(text: Seq<char>) -> Seq<u8> {
    big_endian(encode_utf8(text).len(), 8) + encode_utf8(text)
}

/// Fields one after the other.
pub open spec fn fields(list: Seq<Seq<char>>) -> Seq<u8>
    decreases list.len(),
{
    if list.len() == 0 {
        Seq::empty()
    } else {
        fields(list.drop_last()) + field(list.last())
    }
}

/// A list: the number of its fields, in eight bytes, and the fields.
pub open spec fn counted_fields(list: Seq<Seq<char>>) -> Seq<u8> {
    big_endian(list.len(), 8) + fields(list)
}

/// A text whose length in UTF-8 fits in 64 bits.
pub open spec fn fits(text: Seq<char>) -> bool {
    encode_utf8(text).len() <= u64::MAX
}

/// A list whose length fits in 64 bits, and so do the lengths of its texts.
pub open spec fn list_fits(list: Seq<Seq<char>>) -> bool {
    list.len() <= u64::MAX && forall|i: int| 0 <= i < list.len() ==> fits(#[trigger] list[i])
}

/// A field ends where its length says, whatever follows.
pub proof fn fields_are_separated(a: Seq<char>, b: Seq<char>, x: Seq<u8>, y: Seq<u8>)
    requires
        fits(a),
        fits(b),
        field(a) + x == field(b) + y,
    ensures
        a == b,
        x == y,
{
    let left = field(a) + x;
    let right = field(b) + y;
    let m = encode_utf8(a).len();
    let n = encode_utf8(b).len();
    lemma_big_endian_length(m, 8);
    lemma_big_endian_length(n, 8);
    eight_bytes_hold_64_bits();
    assert(left.take(8) =~= big_endian(m, 8));
    assert(right.take(8) =~= big_endian(n, 8));
    big_endian_loses_nothing(m, n, 8);
    assert(left.subrange(8, 8 + m as int) =~= encode_utf8(a));
    assert(right.subrange(8, 8 + n as int) =~= encode_utf8(b));
    encode_utf8_decode_utf8(a);
    encode_utf8_decode_utf8(b);
    assert(left.skip(8 + m as int) =~= x);
    assert(right.skip(8 + n as int) =~= y);
}

proof fn lemma_fields_from_front(list: Seq<Seq<char>>)
    requires
        list.len() > 0,
    ensures
        fields(list) == field(list[0]) + fields(list.drop_first()),
    decreases list.len(),
{
    if list.len() == 1 {
        assert(list.drop_last() =~= Seq::empty());
        assert(list.drop_first() =~= Seq::empty());
        assert(fields(list) =~= field(list[0]) + fields(list.drop_first()));
    } else {
        lemma_fields_from_front(list.drop_last());
        assert(list.drop_last().drop_first() =~= list.drop_first().drop_last());
        assert(list.drop_first().last() == list.last());
        assert(fields(list) =~= field(list[0]) + fields(list.drop_first()));
    }
}

proof fn lemma_field_lists_are_separated(
    a: Seq<Seq<char>>,
    b: Seq<Seq<char>>,
    x: Seq<u8>,
    y: Seq<u8>,
)
    requires
        a.len() == b.len(),
        list_fits(a),
        list_fits(b),
        fields(a) + x == fields(b) + y,
    ensures
        a == b,
        x == y,
    decreases a.len(),
{
    if a.len() == 0 {
        assert(a =~= b);
        assert(fields(a) + x =~= x);
        assert(fields(b) + y =~= y);
    } else {
        lemma_fields_from_front(a);
        lemma_fields_from_front(b);
        assert(fits(a[0]) && fits(b[0]));
        let ra = a.drop_first();
        let rb = b.drop_first();
        assert(field(a[0]) + (fields(ra) + x) =~= fields(a) + x);
        assert(field(b[0]) + (fields(rb) + y) =~= fields(b) + y);
        fields_are_separated(a[0], b[0], fields(ra) + x, fields(rb) + y);
        assert forall|i: int| 0 <= i < ra.len() implies fits(#[trigger] ra[i]) by {
            assert(ra[i] == a[i + 1]);
        }
        assert forall|i: int| 0 <= i < rb.len() implies fits(#[trigger] rb[i]) by {
            assert(rb[i] == b[i + 1]);
        }
        lemma_field_lists_are_separated(ra, rb, x, y);
        assert(a =~= seq![a[0]] + ra);
        assert(b =~= seq![b[0]] + rb);
    }
}

/// A counted list ends where its count says, whatever follows.
pub proof fn counted_fields_are_separated(
    a: Seq<Seq<char>>,
    b: Seq<Seq<char>>,
    x: Seq<u8>,
    y: Seq<u8>,
)
    requires
        list_fits(a),
        list_fits(b),
        counted_fields(a) + x == counted_fields(b) + y,
    ensures
        a == b,
        x == y,
{
    let left = counted_fields(a) + x;
    let right = counted_fields(b) + y;
    lemma_big_endian_length(a.len(), 8);
    lemma_big_endian_length(b.len(), 8);
    eight_bytes_hold_64_bits();
    assert(left.take(8) =~= big_endian(a.len(), 8));
    assert(right.take(8) =~= big_endian(b.len(), 8));
    big_endian_loses_nothing(a.len(), b.len(), 8);
    assert(left.skip(8) =~= fields(a) + x);
    assert(right.skip(8) =~= fields(b) + y);
    lemma_field_lists_are_separated(a, b, x, y);
}

/// Adds bytes to the end of a list.
pub fn push_bytes(out: &mut Vec<u8>, more: &[u8])
    ensures
        final(out)@ == old(out)@ + more@,
{
    let ghost before = out@;
    let mut i: usize = 0;
    assert(before + more@.take(0) =~= before);
    while i < more.len()
        invariant
            i <= more@.len(),
            out@ == before + more@.take(i as int),
        decreases more.len() - i,
    {
        out.push(more[i]);
        assert((before + more@.take(i as int)).push(more@[i as int]) =~= before + more@.take(i + 1));
        i = i + 1;
    }
    assert(more@.take(i as int) =~= more@);
}

/// Adds a field to a list of bytes.
pub fn push_field(out: &mut Vec<u8>, text: &str)
    ensures
        final(out)@ == old(out)@ + field(text@),
{
    let ghost before = out@;
    let bytes = text.as_bytes();
    push_big_endian(out, bytes.len() as u64, 8);
    push_bytes(out, bytes);
    assert(out@ =~= before + field(text@));
}

/// Adds a counted list of fields to a list of bytes.
pub fn push_fields(out: &mut Vec<u8>, list: &Vec<String>)
    ensures
        final(out)@ == old(out)@ + counted_fields(texts(list@)),
{
    let ghost before = out@;
    let ghost all = texts(list@);
    push_big_endian(out, list.len() as u64, 8);
    let ghost lead = before + big_endian(all.len(), 8);
    let mut i: usize = 0;
    assert(all.take(0) =~= Seq::empty());
    assert(lead + fields(all.take(0)) =~= lead);
    while i < list.len()
        invariant
            i <= list@.len(),
            all == texts(list@),
            out@ == lead + fields(all.take(i as int)),
        decreases list.len() - i,
    {
        push_field(out, list[i].as_str());
        assert(all.take(i + 1).drop_last() =~= all.take(i as int));
        assert(all.take(i + 1).last() == list@[i as int]@);
        assert(out@ =~= lead + fields(all.take(i + 1)));
        i = i + 1;
    }
    assert(all.take(i as int) =~= all);
    assert(out@ =~= before + counted_fields(all));
}

/// The line that sets the password of an account.
pub open spec fn credentials(username: Seq<char>, password: Seq<u8>) -> Seq<u8> {
    encode_utf8(username) + seq![0x3au8] + password + seq![0x0au8]
}

/// The line names the account, then behind a colon the password, and is closed
/// by a line feed; so it holds one line where neither holds a break, and it says
/// which password is meant.
pub proof fn credentials_name_account_and_password(
    username: Seq<char>,
    password: Seq<u8>,
    other: Seq<u8>,
)
    ensures
        ({
            let line = credentials(username, password);
            let lead = encode_utf8(username).len() as int;
            &&& line.len() == lead + password.len() + 2
            &&& line.take(lead) == encode_utf8(username)
            &&& line[lead] == 58
            &&& line.subrange(lead + 1, line.len() - 1) == password
            &&& line.last() == 10
        }),
        credentials(username, password) == credentials(username, other) ==> password == other,
{
    let line = credentials(username, password);
    let lead = encode_utf8(username).len() as int;
    assert(line.take(lead) =~= encode_utf8(username));
    assert(line.subrange(lead + 1, line.len() - 1) =~= password);
    if credentials(username, password) == credentials(username, other) {
        assert(line.subrange(lead + 1, line.len() - 1) =~= other);
    }
}

/// The byte that counts least comes last, and every byte before it counts for what
/// is left after it.
pub proof fn the_last_byte_counts_least(value: nat, width: nat)
    ensures
        big_endian(value, width).len() == width,
        width > 0 ==> big_endian(value, width).last() as nat == value % 256,
        width > 0 ==> big_endian(value, width).drop_last() == big_endian(
            value / 256,
            (width - 1) as nat,
        ),
    decreases width,
{
    if width > 0 {
        the_last_byte_counts_least(value / 256, (width - 1) as nat);
        assert(big_endian(value, width).drop_last() =~= big_endian(
            value / 256,
            (width - 1) as nat,
        ));
    }
}

} // verus!
