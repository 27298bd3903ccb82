//! Unix paths as text: their components, prefixes and joins.

use crate::text::{chars_of, pieces, push_text, same, split, texts};
use vstd::prelude::*;

verus! {

/// The pieces of a path that are components: neither empty nor `.`.
pub open spec fn kept(list: Seq<Seq<char>>) -> Seq<Seq<char>>
    decreases list.len(),
{
    if list.len() == 0 {
        Seq::empty()
    } else if list.last() == ""@ || list.last() == "."@ {
        kept(list.drop_last())
    } else {
        kept(list.drop_last()).push(list.last())
    }
}

/// Whether a path starts at the root.
pub open spec fn is_absolute(path: Seq<char>) -> bool {
    path.len() > 0 && path[0] == '/'
}

/// The components of a path. The root is `/`, a leading current directory is
/// `.` and a parent directory is `..`; every other component is a name.
/// Repeated separators and a `.` further on leave no trace.
pub open spec fn components(path: Seq<char>) -> Seq<Seq<char>> {
    let names = kept(pieces(path, '/'));
    if is_absolute(path) {
        seq!["/"@] + names
    } else if pieces(path, '/')[0] == "."@ {
        seq!["."@] + names
    } else {
        names
    }
}

/// A component that names an entry of its parent.
pub open spec fn is_name(component: Seq<char>) -> bool {
    component != "/"@ && component != "."@ && component != ".."@
}

/// A path with another one added to it.
pub open spec fn joined(base: Seq<char>, part: Seq<char>) -> Seq<char> {
    if is_absolute(part) {
        part
    } else if base.len() == 0 || base.last() == '/' {
        base + part
    } else {
        base + "/"@ + part
    }
}

/// Whether a path starts at the root.
pub fn path_is_absolute(path: &str) -> (result: bool)
    ensures
        result == is_absolute(path@),
{
    let chars = chars_of(path);
    chars.len() > 0 && chars[0] == '/'
}

/// The components of a path.
pub fn path_components(path: &str) -> (list: Vec<String>)
    ensures
        texts(list@) == components(path@),
{
    let parts = split(path, '/');
    let mut list: Vec<String> = Vec::new();
    if path_is_absolute(path) {
        push_text(&mut list, "/");
    } else if same(parts[0].as_str(), ".") {
        push_text(&mut list, ".");
    }
    let ghost lead = texts(list@);
    let ghost all = pieces(path@, '/');
    let mut i: usize = 0;
    assert(lead + kept(all.take(0)) =~= lead);
    while i < parts.len()
        invariant
            i <= parts@.len(),
            texts(parts@) == all,
            texts(list@) == lead + kept(all.take(i as int)),
        decreases parts.len() - i,
    {
        assert(all.take(i + 1).drop_last() =~= all.take(i as int));
        assert(all.take(i + 1).last() == parts@[i as int]@);
        let part = parts[i].as_str();
        if !same(part, "") && !same(part, ".") {
            push_text(&mut list, part);
            assert((lead + kept(all.take(i as int))).push(part@) =~= lead + kept(
                all.take(i as int),
            ).push(part@));
        }
        i = i + 1;
    }
    proof {
        assert(all.take(i as int) =~= all);
        assert(texts(parts@)[0] == parts@[0]@);
        assert(Seq::<Seq<char>>::empty().push("/"@) =~= seq!["/"@]);
        assert(Seq::<Seq<char>>::empty() + kept(all) =~= kept(all));
        assert(texts(list@) =~= components(path@));
    }
    list
}

/// The components of a path behind those of a base, if it is below the base.
pub fn strip_base(path: &str, base: &str) -> (rest: Option<Vec<String>>)
    ensures
        match rest {
            Some(list) => components(base@).is_prefix_of(components(path@)) && texts(list@)
                == components(path@).skip(components(base@).len() as int),
            None => !components(base@).is_prefix_of(components(path@)),
        },
{
    let whole = path_components(path);
    let prefix = path_components(base);
    let ghost all = components(path@);
    let ghost lead = components(base@);
    if prefix.len() > whole.len() {
        return None;
    }
    let mut i: usize = 0;
    while i < prefix.len()
        invariant
            i <= prefix@.len() <= whole@.len(),
            texts(whole@) == all,
            texts(prefix@) == lead,
            all == components(path@),
            lead == components(base@),
            forall|k: int| 0 <= k < i ==> all[k] == lead[k],
        decreases prefix.len() - i,
    {
        assert(all[i as int] == whole@[i as int]@ && lead[i as int] == prefix@[i as int]@);
        if !same(whole[i].as_str(), prefix[i].as_str()) {
            assert(all.subrange(0, lead.len() as int)[i as int] != lead[i as int]);
            return None;
        }
        i = i + 1;
    }
    assert(lead =~= all.subrange(0, lead.len() as int));
    let mut list: Vec<String> = Vec::new();
    assert(texts(list@) =~= all.subrange(lead.len() as int, i as int));
    while i < whole.len()
        invariant
            lead.len() <= i <= whole@.len(),
            texts(whole@) == all,
            texts(list@) == all.subrange(lead.len() as int, i as int),
        decreases whole.len() - i,
    {
        push_text(&mut list, whole[i].as_str());
        assert(all.subrange(lead.len() as int, i as int).push(whole@[i as int]@) =~= all.subrange(
            lead.len() as int,
            i + 1,
        ));
        i = i + 1;
    }
    assert(texts(list@) =~= all.skip(lead.len() as int));
    Some(list)
}

/// Joins two paths.
pub fn join_path(base: &str, part: &str) -> (path: String)
    ensures
        path@ == joined(base@, part@),
{
    if path_is_absolute(part) {
        return part.to_owned();
    }
    let chars = chars_of(base);
    let mut path = base.to_owned();
    if chars.len() > 0 && chars[chars.len() - 1] != '/' {
        path.append("/");
    }
    path.append(part);
    path
}

proof fn lemma_pieces_nonempty(text: Seq<char>, separator: char)
    ensures
        pieces(text, separator).len() > 0,
    decreases text.len(),
{
    if text.len() > 0 {
        lemma_pieces_nonempty(text.drop_last(), separator);
    }
}

/// Texts joined by the separator split into the pieces of both.
pub proof fn pieces_of_a_join(a: Seq<char>, b: Seq<char>, separator: char)
    ensures
        pieces(a.push(separator) + b, separator) == pieces(a, separator) + pieces(b, separator),
    decreases b.len(),
{
    let whole = a.push(separator) + b;
    let left = pieces(a, separator);
    if b.len() == 0 {
        assert(whole =~= a.push(separator));
        assert(whole.drop_last() =~= a);
        assert(left.push(Seq::empty()) =~= left + seq![Seq::empty()]);
    } else {
        pieces_of_a_join(a, b.drop_last(), separator);
        lemma_pieces_nonempty(b.drop_last(), separator);
        let right = pieces(b.drop_last(), separator);
        assert(whole.drop_last() =~= a.push(separator) + b.drop_last());
        assert(whole.last() == b.last());
        assert((left + right).last() == right.last());
        assert((left + right).drop_last() =~= left + right.drop_last());
        if b.last() == separator {
            assert((left + right).push(Seq::empty()) =~= left + right.push(Seq::empty()));
        } else {
            let grown = right.last().push(b.last());
            assert((left + right.drop_last()).push(grown) =~= left + right.drop_last().push(grown));
        }
    }
}

proof fn lemma_single_piece(text: Seq<char>, separator: char)
    requires
        !text.contains(separator),
    ensures
        pieces(text, separator) == seq![text],
    decreases text.len(),
{
    if text.len() == 0 {
        assert(text =~= Seq::empty());
    } else {
        let rest = text.drop_last();
        assert(text.last() == text[text.len() - 1]);
        assert forall|c: char| rest.contains(c) implies text.contains(c) by {
            let i = choose|i: int| 0 <= i < rest.len() && rest[i] == c;
            assert(text[i] == c);
        }
        lemma_single_piece(rest, separator);
        assert(pieces(rest, separator).last() == rest);
        assert(pieces(rest, separator).drop_last() =~= Seq::empty());
        assert(rest.push(text.last()) =~= text);
        assert(Seq::empty().push(text) =~= seq![text]);
    }
}

/// A text that does not hold the separator is a single piece.
pub proof fn a_text_without_separator_is_one_piece(text: Seq<char>, separator: char)
    requires
        !text.contains(separator),
    ensures
        pieces(text, separator) == seq![text],
{
    lemma_single_piece(text, separator);
}

proof fn lemma_kept_append(a: Seq<Seq<char>>, b: Seq<Seq<char>>)
    ensures
        kept(a + b) == kept(a) + kept(b),
    decreases b.len(),
{
    if b.len() == 0 {
        assert(a + b =~= a);
        assert(kept(a) + kept(b) =~= kept(a));
    } else {
        lemma_kept_append(a, b.drop_last());
        assert((a + b).drop_last() =~= a + b.drop_last());
        assert((a + b).last() == b.last());
        assert((kept(a) + kept(b.drop_last())).push(b.last()) =~= kept(a) + kept(
            b.drop_last(),
        ).push(b.last()));
    }
}

/// No piece of a text holds the separator.
proof fn lemma_pieces_hold_no_separator(text: Seq<char>, separator: char)
    ensures
        forall|i: int|
            0 <= i < pieces(text, separator).len() ==> !(#[trigger] pieces(text, separator)[i]).contains(
                separator,
            ),
    decreases text.len(),
{
    if text.len() > 0 {
        lemma_pieces_hold_no_separator(text.drop_last(), separator);
        lemma_pieces_nonempty(text.drop_last(), separator);
        let before = pieces(text.drop_last(), separator);
        let all = pieces(text, separator);
        assert forall|i: int| 0 <= i < all.len() implies !(#[trigger] all[i]).contains(
            separator,
        ) by {
            if text.last() == separator {
                if i < before.len() {
                    assert(all[i] == before[i]);
                }
            } else if i < before.len() - 1 {
                assert(all[i] == before[i]);
            } else {
                assert(!before[before.len() - 1].contains(separator));
                let grown = before.last().push(text.last());
                assert(all[i] == grown);
                if grown.contains(separator) {
                    let k = choose|k: int| 0 <= k < grown.len() && grown[k] == separator;
                    if k < before.last().len() {
                        assert(before.last()[k] == separator);
                    }
                }
            }
        }
    }
}

proof fn lemma_kept_members(list: Seq<Seq<char>>)
    ensures
        forall|i: int|
            0 <= i < kept(list).len() ==> list.contains(#[trigger] kept(list)[i]) && kept(list)[i]
                != ""@ && kept(list)[i] != "."@,
    decreases list.len(),
{
    if list.len() > 0 {
        let rest = list.drop_last();
        lemma_kept_members(rest);
        assert forall|i: int| 0 <= i < kept(list).len() implies list.contains(
            #[trigger] kept(list)[i],
        ) && kept(list)[i] != ""@ && kept(list)[i] != "."@ by {
            if i < kept(rest).len() {
                assert(kept(list)[i] == kept(rest)[i]);
                assert(rest.contains(kept(rest)[i]));
                let k = choose|k: int| 0 <= k < rest.len() && rest[k] == kept(rest)[i];
                assert(list[k] == kept(list)[i]);
            } else {
                assert(list[list.len() - 1] == kept(list)[i]);
            }
        }
    }
}

/// A component that names an entry is not empty and holds no separator.
pub proof fn names_hold_no_separator(path: Seq<char>, i: int)
    requires
        0 <= i < components(path).len(),
        is_name(components(path)[i]),
    ensures
        components(path)[i].len() > 0,
        !components(path)[i].contains('/'),
{
    reveal_strlit("");
    let all = pieces(path, '/');
    lemma_pieces_hold_no_separator(path, '/');
    lemma_kept_members(all);
    let names = kept(all);
    let lead = components(path).len() - names.len();
    assert(components(path)[i] == names[i - lead]);
    let k = choose|k: int| 0 <= k < all.len() && all[k] == names[i - lead];
    assert(!all[k].contains('/'));
    assert(names[i - lead] != ""@);
    if names[i - lead].len() == 0 {
        assert(names[i - lead] =~= ""@);
    }
}

/// Joining a name to an absolute path below the root adds it as the last
/// component.
pub proof fn joining_a_name_adds_a_component(base: Seq<char>, name: Seq<char>)
    requires
        is_absolute(base),
        base.last() != '/',
        is_name(name),
        name.len() > 0,
        !name.contains('/'),
    ensures
        components(joined(base, name)) == components(base).push(name),
        is_absolute(joined(base, name)),
        joined(base, name).last() != '/',
{
    reveal_strlit("/");
    reveal_strlit("");
    reveal_strlit(".");
    assert(name[0] != '/');
    let path = joined(base, name);
    assert(path =~= base.push('/') + name);
    pieces_of_a_join(base, name, '/');
    a_text_without_separator_is_one_piece(name, '/');
    lemma_kept_append(pieces(base, '/'), seq![name]);
    assert(seq![name].drop_last() =~= Seq::<Seq<char>>::empty());
    assert(kept(seq![name].drop_last()) =~= Seq::<Seq<char>>::empty());
    assert(seq![name].last() == name);
    assert(kept(seq![name]) =~= seq![name]);
    assert(kept(pieces(path, '/')) =~= kept(pieces(base, '/')).push(name));
    assert(components(path) =~= components(base).push(name));
    assert(path.last() == name.last());
    assert(name[name.len() - 1] != '/');
}

/// A name behind the root is the one component below the root.
pub proof fn components_of_a_child_of_the_root(name: Seq<char>)
    requires
        is_name(name),
        name.len() > 0,
        !name.contains('/'),
    ensures
        components(seq!['/'] + name) == seq!["/"@, name],
{
    reveal_strlit("");
    reveal_strlit(".");
    let path = seq!['/'] + name;
    assert(path =~= Seq::<char>::empty().push('/') + name);
    pieces_of_a_join(Seq::empty(), name, '/');
    a_text_without_separator_is_one_piece(name, '/');
    a_text_without_separator_is_one_piece(Seq::empty(), '/');
    let empty: Seq<char> = Seq::empty();
    assert(""@ =~= empty);
    lemma_kept_append(seq![empty], seq![name]);
    assert(seq![name].drop_last() =~= Seq::<Seq<char>>::empty());
    assert(seq![empty].drop_last() =~= Seq::<Seq<char>>::empty());
    assert(kept(Seq::<Seq<char>>::empty()) =~= Seq::<Seq<char>>::empty());
    assert(seq![name].last() == name && seq![empty].last() == empty);
    assert(kept(seq![name]) =~= seq![name]);
    assert(kept(seq![empty]) =~= Seq::<Seq<char>>::empty());
    assert(kept(pieces(path, '/')) =~= seq![name]);
    assert(components(path) =~= seq!["/"@, name]);
}

/// Different relative paths lead to different places below one directory.
pub proof fn joining_keeps_paths_apart(base: Seq<char>, a: Seq<char>, b: Seq<char>)
    requires
        !is_absolute(a),
        !is_absolute(b),
        a != b,
    ensures
        joined(base, a) != joined(base, b),
{
    reveal_strlit("/");
    let front = if base.len() == 0 || base.last() == '/' {
        base
    } else {
        base + "/"@
    };
    assert(joined(base, a).skip(front.len() as int) =~= a);
    assert(joined(base, b).skip(front.len() as int) =~= b);
}

/// An absolute part stands for itself wherever it is joined, and another part
/// follows the base after a single separator.
pub proof fn joins_have_one_separator(base: Seq<char>, part: Seq<char>)
    ensures
        part.len() > 0 && part[0] == '/' ==> joined(base, part) == part,
        !is_absolute(part) && base.len() > 0 && base.last() != '/' ==> joined(base, part)
            == base.push('/') + part,
        !is_absolute(part) && base.len() > 0 && base.last() == '/' ==> joined(base, part) == base
            + part,
        joined(Seq::empty(), part) == part,
        is_absolute(base) ==> is_absolute(joined(base, part)),
{
    reveal_strlit("/");
    assert("/"@ =~= seq!['/']);
    assert(base + "/"@ =~= base.push('/'));
    assert(Seq::<char>::empty() + part =~= part);
}

/// A separator at the end and a dot say nothing; two dots are a component.
pub proof fn dots_and_repeated_separators_say_nothing(path: Seq<char>)
    requires
        is_absolute(path),
    ensures
        components(path.push('/')) == components(path),
        components(path.push('/').push('.')) == components(path),
        components(path.push('/').push('.').push('.')) == components(path).push(".."@),
        components(seq!['/']) == seq!["/"@],
{
    reveal_strlit("");
    reveal_strlit(".");
    reveal_strlit("..");
    reveal_strlit("/");
    let nothing: Seq<char> = Seq::empty();
    let dot = seq!['.'];
    let dots = seq!['.', '.'];
    assert(""@ =~= nothing);
    assert("."@ =~= dot);
    assert(".."@ =~= dots);
    assert("/"@ =~= seq!['/']);
    assert(dots.len() == 2 && dot.len() == 1);
    assert(path.push('/') =~= path.push('/') + nothing);
    assert(path.push('/').push('.') =~= path.push('/') + dot);
    assert(path.push('/').push('.').push('.') =~= path.push('/') + dots);
    pieces_of_a_join(path, nothing, '/');
    pieces_of_a_join(path, dot, '/');
    pieces_of_a_join(path, dots, '/');
    a_text_without_separator_is_one_piece(nothing, '/');
    a_text_without_separator_is_one_piece(dot, '/');
    a_text_without_separator_is_one_piece(dots, '/');
    let names = pieces(path, '/');
    lemma_kept_append(names, seq![nothing]);
    lemma_kept_append(names, seq![dot]);
    lemma_kept_append(names, seq![dots]);
    assert(seq![nothing].drop_last() =~= Seq::<Seq<char>>::empty());
    assert(seq![dot].drop_last() =~= Seq::<Seq<char>>::empty());
    assert(seq![dots].drop_last() =~= Seq::<Seq<char>>::empty());
    assert(kept(Seq::empty()) =~= Seq::empty());
    assert(kept(seq![nothing]) =~= Seq::empty());
    assert(kept(seq![dot]) =~= Seq::empty());
    assert(kept(seq![dots]) =~= seq![dots]);
    assert(components(path.push('/')) =~= components(path));
    assert(components(path.push('/').push('.')) =~= components(path));
    assert(components(path.push('/').push('.').push('.')) =~= components(path).push(".."@));
    let root = seq!['/'];
    assert(root =~= nothing.push('/') + nothing);
    pieces_of_a_join(nothing, nothing, '/');
    lemma_kept_append(seq![nothing], seq![nothing]);
    assert(components(root) =~= seq!["/"@]);
}

} // verus!
