//! The order of texts, and lists that are sorted and free of repetitions.

use crate::text::{chars_of, same, texts};
use vstd::prelude::*;

verus! {

/// Whether one text comes strictly before another: they are compared
/// character by character, and a proper prefix comes first.
pub open spec fn text_before(a: Seq<char>, b: Seq<char>) -> bool
    decreases a.len(),
{
    if b.len() == 0 {
        false
    } else if a.len() == 0 {
        true
    } else if a[0] != b[0] {
        a[0] < b[0]
    } else {
        text_before(a.drop_first(), b.drop_first())
    }
}

/// Every text of the list comes strictly before the ones behind it.
pub open spec fn strictly_sorted(list: Seq<Seq<char>>) -> bool {
    forall|i: int, j: int|
        0 <= i < j < list.len() ==> text_before(#[trigger] list[i], #[trigger] list[j])
}

/// The two lists hold the same texts, whatever their order.
pub open spec fn same_members(a: Seq<Seq<char>>, b: Seq<Seq<char>>) -> bool {
    forall|x: Seq<char>| #[trigger] a.contains(x) <==> b.contains(x)
}

/// A sorted list with one text added at its place, unless it is there already.
pub open spec fn with_member(list: Seq<Seq<char>>, x: Seq<char>) -> Seq<Seq<char>>
    decreases list.len(),
{
    if list.len() == 0 {
        seq![x]
    } else if text_before(x, list.last()) {
        with_member(list.drop_last(), x).push(list.last())
    } else if x == list.last() {
        list
    } else {
        list.push(x)
    }
}

/// The texts of a list in order, each once.
pub open spec fn sorted_unique(list: Seq<Seq<char>>) -> Seq<Seq<char>>
    decreases list.len(),
{
    if list.len() == 0 {
        Seq::empty()
    } else {
        with_member(sorted_unique(list.drop_last()), list.last())
    }
}

/// No text comes before itself.
pub proof fn text_before_is_irreflexive(a: Seq<char>)
    ensures
        !text_before(a, a),
    decreases a.len(),
{
    if a.len() > 0 {
        text_before_is_irreflexive(a.drop_first());
    }
}

/// The order of texts is transitive.
pub proof fn text_before_is_transitive(a: Seq<char>, b: Seq<char>, c: Seq<char>)
    requires
        text_before(a, b),
        text_before(b, c),
    ensures
        text_before(a, c),
    decreases a.len(),
{
    if a.len() > 0 && a[0] == b[0] && b[0] == c[0] {
        text_before_is_transitive(a.drop_first(), b.drop_first(), c.drop_first());
    }
}

/// Of two different texts one comes before the other.
pub proof fn text_before_is_total(a: Seq<char>, b: Seq<char>)
    ensures
        a == b || text_before(a, b) || text_before(b, a),
    decreases a.len(),
{
    if a.len() == 0 || b.len() == 0 {
        if a.len() == 0 && b.len() == 0 {
            assert(a =~= b);
        }
    } else if a[0] == b[0] {
        text_before_is_total(a.drop_first(), b.drop_first());
        if a.drop_first() == b.drop_first() {
            assert(a =~= seq![a[0]] + a.drop_first());
            assert(b =~= seq![b[0]] + b.drop_first());
        }
    }
}

proof fn lemma_with_member(list: Seq<Seq<char>>, x: Seq<char>)
    requires
        strictly_sorted(list),
    ensures
        strictly_sorted(with_member(list, x)),
        forall|y: Seq<char>| #[trigger]
            with_member(list, x).contains(y) <==> list.contains(y) || y == x,
        list.len() <= with_member(list, x).len() <= list.len() + 1,
    decreases list.len(),
{
    let result = with_member(list, x);
    if list.len() == 0 {
        assert(seq![x][0] == x);
    } else if text_before(x, list.last()) {
        let rest = list.drop_last();
        lemma_with_member(rest, x);
        let inner = with_member(rest, x);
        assert(result == inner.push(list.last()));
        assert forall|i: int, j: int| 0 <= i < j < result.len() implies text_before(
            #[trigger] result[i],
            #[trigger] result[j],
        ) by {
            if j == inner.len() {
                assert(inner.contains(inner[i]));
                if inner[i] != x {
                    assert(rest.contains(inner[i]));
                    let k = choose|k: int| 0 <= k < rest.len() && rest[k] == inner[i];
                    assert(text_before(list[k], list[list.len() - 1]));
                }
            } else {
                assert(text_before(inner[i], inner[j]));
            }
        }
        assert forall|y: Seq<char>| #[trigger] result.contains(y) <==> list.contains(y) || y == x by {
            if result.contains(y) {
                let k = choose|k: int| 0 <= k < result.len() && result[k] == y;
                if k < inner.len() {
                    assert(inner[k] == y);
                    assert(inner.contains(y));
                    if y != x {
                        let m = choose|m: int| 0 <= m < rest.len() && rest[m] == y;
                        assert(list[m] == y);
                    }
                } else {
                    assert(list[list.len() - 1] == y);
                }
            }
            if list.contains(y) {
                let k = choose|k: int| 0 <= k < list.len() && list[k] == y;
                if k < rest.len() {
                    assert(rest[k] == y);
                    assert(inner.contains(y));
                    let m = choose|m: int| 0 <= m < inner.len() && inner[m] == y;
                    assert(result[m] == y);
                } else {
                    assert(result[inner.len() as int] == y);
                }
            }
            if y == x {
                assert(inner.contains(x));
                let m = choose|m: int| 0 <= m < inner.len() && inner[m] == x;
                assert(result[m] == y);
            }
        }
    } else if x == list.last() {
        assert(list[list.len() - 1] == x);
    } else {
        text_before_is_total(x, list.last());
        assert forall|i: int, j: int| 0 <= i < j < result.len() implies text_before(
            #[trigger] result[i],
            #[trigger] result[j],
        ) by {
            if j == list.len() {
                if i < list.len() - 1 {
                    assert(text_before(list[i], list[list.len() - 1]));
                    text_before_is_transitive(list[i], list.last(), x);
                }
            } else {
                assert(text_before(list[i], list[j]));
            }
        }
        assert forall|y: Seq<char>| #[trigger] result.contains(y) <==> list.contains(y) || y == x by {
            if list.contains(y) {
                let k = choose|k: int| 0 <= k < list.len() && list[k] == y;
                assert(result[k] == y);
            }
            if y == x {
                assert(result[list.len() as int] == y);
            }
            if result.contains(y) {
                let k = choose|k: int| 0 <= k < result.len() && result[k] == y;
                if k < list.len() {
                    assert(list[k] == y);
                }
            }
        }
    }
}

/// The sorted list holds the texts of the list and no others, in strictly
/// increasing order.
pub proof fn sorted_unique_is_sorted(list: Seq<Seq<char>>)
    ensures
        strictly_sorted(sorted_unique(list)),
        same_members(sorted_unique(list), list),
        sorted_unique(list).len() <= list.len(),
    decreases list.len(),
{
    if list.len() > 0 {
        let rest = list.drop_last();
        sorted_unique_is_sorted(rest);
        lemma_with_member(sorted_unique(rest), list.last());
        let result = sorted_unique(list);
        assert forall|x: Seq<char>| #[trigger] result.contains(x) <==> list.contains(x) by {
            if list.contains(x) {
                let k = choose|k: int| 0 <= k < list.len() && list[k] == x;
                if k < rest.len() {
                    assert(rest[k] == x);
                    assert(sorted_unique(rest).contains(x));
                }
            }
            if result.contains(x) && x != list.last() {
                assert(sorted_unique(rest).contains(x));
                let k = choose|k: int| 0 <= k < rest.len() && rest[k] == x;
                assert(list[k] == x);
            }
            assert(list[list.len() - 1] == list.last());
        }
    }
}

/// A strictly sorted list is settled by its members.
pub proof fn sorted_lists_with_the_same_members_are_equal(a: Seq<Seq<char>>, b: Seq<Seq<char>>)
    requires
        strictly_sorted(a),
        strictly_sorted(b),
        same_members(a, b),
    ensures
        a == b,
    decreases a.len(),
{
    if a.len() == 0 {
        if b.len() > 0 {
            assert(b.contains(b[0]));
            assert(a.contains(b[0]));
        }
        assert(a =~= b);
    } else if b.len() == 0 {
        assert(a.contains(a[0]));
        assert(b.contains(a[0]));
    } else {
        let x = a.last();
        let y = b.last();
        assert(a[a.len() - 1] == x && b[b.len() - 1] == y);
        assert(a.contains(x) && b.contains(y));
        assert(b.contains(x) && a.contains(y));
        let i = choose|i: int| 0 <= i < b.len() && b[i] == x;
        let j = choose|j: int| 0 <= j < a.len() && a[j] == y;
        if x != y {
            assert(text_before(b[i], b[b.len() - 1]));
            assert(text_before(a[j], a[a.len() - 1]));
            text_before_is_transitive(x, y, x);
            text_before_is_irreflexive(x);
        }
        let ra = a.drop_last();
        let rb = b.drop_last();
        assert forall|z: Seq<char>| #[trigger] ra.contains(z) <==> rb.contains(z) by {
            if ra.contains(z) {
                let k = choose|k: int| 0 <= k < ra.len() && ra[k] == z;
                assert(text_before(a[k], a[a.len() - 1]));
                assert(a.contains(z));
                assert(b.contains(z));
                let m = choose|m: int| 0 <= m < b.len() && b[m] == z;
                text_before_is_irreflexive(x);
                assert(rb[m] == z);
            }
            if rb.contains(z) {
                let k = choose|k: int| 0 <= k < rb.len() && rb[k] == z;
                assert(text_before(b[k], b[b.len() - 1]));
                assert(b.contains(z));
                assert(a.contains(z));
                let m = choose|m: int| 0 <= m < a.len() && a[m] == z;
                text_before_is_irreflexive(x);
                assert(ra[m] == z);
            }
        }
        sorted_lists_with_the_same_members_are_equal(ra, rb);
        assert(a =~= ra.push(x));
        assert(b =~= rb.push(x));
    }
}

/// Sorting forgets how often and in which order texts were listed.
pub proof fn sorted_unique_depends_on_members_only(a: Seq<Seq<char>>, b: Seq<Seq<char>>)
    requires
        same_members(a, b),
    ensures
        sorted_unique(a) == sorted_unique(b),
{
    sorted_unique_is_sorted(a);
    sorted_unique_is_sorted(b);
    let sa = sorted_unique(a);
    let sb = sorted_unique(b);
    assert forall|x: Seq<char>| #[trigger] sa.contains(x) <==> sb.contains(x) by {
        assert(sa.contains(x) <==> a.contains(x));
        assert(a.contains(x) <==> b.contains(x));
        assert(sb.contains(x) <==> b.contains(x));
    }
    sorted_lists_with_the_same_members_are_equal(sa, sb);
}

/// Whether one text comes strictly before another.
pub fn comes_before(left: &str, right: &str) -> (before: bool)
    ensures
        before == text_before(left@, right@),
{
    let a = chars_of(left);
    let b = chars_of(right);
    let mut i: usize = 0;
    assert(a@.skip(0) =~= left@ && b@.skip(0) =~= right@);
    while i < a.len() && i < b.len()
        invariant
            i <= a.len(),
            i <= b.len(),
            a@ == left@,
            b@ == right@,
            text_before(left@, right@) == text_before(a@.skip(i as int), b@.skip(i as int)),
        decreases a.len() - i,
    {
        if a[i] != b[i] {
            return a[i] < b[i];
        }
        assert(a@.skip(i as int).drop_first() =~= a@.skip(i + 1));
        assert(b@.skip(i as int).drop_first() =~= b@.skip(i + 1));
        i = i + 1;
    }
    i < b.len()
}

/// Adds a text to a sorted list, unless the list holds it.
fn insert_member(list: &mut Vec<String>, text: &str)
    requires
        strictly_sorted(texts(old(list)@)),
    ensures
        texts(final(list)@) == with_member(texts(old(list)@), text@),
        strictly_sorted(texts(final(list)@)),
{
    let ghost before = texts(list@);
    let mut i: usize = list.len();
    proof {
        lemma_with_member(before, text@);
        assert(before.take(before.len() as int) =~= before);
        assert(before.skip(before.len() as int) =~= Seq::empty());
        assert(with_member(before, text@) =~= with_member(before, text@) + Seq::empty());
    }
    while i > 0 && comes_before(text, list[i - 1].as_str())
        invariant
            i <= list@.len(),
            texts(list@) == before,
            with_member(before, text@) == with_member(before.take(i as int), text@) + before.skip(
                i as int,
            ),
        decreases i,
    {
        proof {
            let head = before.take(i as int);
            assert(head.last() == list@[i - 1]@);
            assert(head.drop_last() =~= before.take(i - 1));
            assert(with_member(head, text@) == with_member(before.take(i - 1), text@).push(
                head.last(),
            ));
            assert(with_member(before.take(i - 1), text@).push(head.last()) + before.skip(i as int)
                =~= with_member(before.take(i - 1), text@) + before.skip(i - 1));
        }
        i = i - 1;
    }
    let ghost head = before.take(i as int);
    if i > 0 && same(list[i - 1].as_str(), text) {
        proof {
            assert(head.last() == list@[i - 1]@);
            text_before_is_irreflexive(text@);
            assert(with_member(head, text@) == head);
            assert(head + before.skip(i as int) =~= before);
        }
        return;
    }
    list.insert(i, text.to_owned());
    proof {
        if i > 0 {
            assert(head.last() == before[i - 1]);
        }
        assert(with_member(head, text@) =~= head.push(text@));
        assert(texts(list@) =~= head.push(text@) + before.skip(i as int));
    }
}

/// The texts of a list in order, each once.
pub fn sort_and_dedup(list: &Vec<String>) -> (sorted: Vec<String>)
    ensures
        texts(sorted@) == sorted_unique(texts(list@)),
        strictly_sorted(texts(sorted@)),
        same_members(texts(sorted@), texts(list@)),
{
    let mut sorted: Vec<String> = Vec::new();
    let mut i: usize = 0;
    assert(texts(list@).take(0) =~= Seq::empty());
    assert(texts(sorted@) =~= Seq::empty());
    while i < list.len()
        invariant
            i <= list@.len(),
            texts(sorted@) == sorted_unique(texts(list@).take(i as int)),
            strictly_sorted(texts(sorted@)),
        decreases list.len() - i,
    {
        insert_member(&mut sorted, list[i].as_str());
        proof {
            let next = texts(list@).take(i + 1);
            assert(next.drop_last() =~= texts(list@).take(i as int));
            assert(next.last() == list@[i as int]@);
        }
        i = i + 1;
    }
    proof {
        assert(texts(list@).take(i as int) =~= texts(list@));
        sorted_unique_is_sorted(texts(list@));
    }
    sorted
}

/// Texts are ordered by their first different character, and a text comes before
/// all that begin with it.
pub proof fn the_first_difference_decides(
    lead: Seq<char>,
    x: char,
    y: char,
    s: Seq<char>,
    t: Seq<char>,
)
    ensures
        x < y ==> text_before(lead.push(x) + s, lead.push(y) + t) && !text_before(
            lead.push(y) + t,
            lead.push(x) + s,
        ),
        text_before(lead, lead.push(x) + s),
    decreases lead.len(),
{
    let a = lead.push(x) + s;
    let b = lead.push(y) + t;
    if lead.len() == 0 {
        assert(a[0] == x && b[0] == y);
    } else {
        let rest = lead.drop_first();
        the_first_difference_decides(rest, x, y, s, t);
        assert(a.drop_first() =~= rest.push(x) + s);
        assert(b.drop_first() =~= rest.push(y) + t);
        assert(a[0] == lead[0] && b[0] == lead[0]);
    }
}

} // verus!
