//! Paths step by step: what a name, a `..`, a `.` and a separator do.
use crate::path_laws::{law_join_adds_components, lemma_pieces_concat, lemma_solid_concat};
use crate::paths::{
    components, ends_in_name, glued, is_below, is_plain_name, is_rooted, is_solid, joined_path,
    law_parent_drops_the_last_component, law_split_undoes_glue, lemma_pieces_nonempty,
    lemma_rooted_pieces, normalized, parent_path, path_of_names, pieces, same_path, settled,
    sibling_path, solid_components, Component, DOT, SEPARATOR,
};
use crate::text::lemma_encode_concat;
use vstd::prelude::*;
use vstd::string::*;
use vstd::utf8::*;

verus! {

proof fn lemma_pieces_of_one(piece: Seq<u8>)
    requires
        !piece.contains(SEPARATOR),
    ensures
        pieces(piece, SEPARATOR) == seq![piece],
{
    law_split_undoes_glue(seq![piece], SEPARATOR);
    assert(glued(seq![piece], SEPARATOR) =~= piece);
}

proof fn lemma_empty_path()
    ensures
        components(Seq::<u8>::empty()) == Seq::<Component>::empty(),
        pieces(Seq::<u8>::empty(), SEPARATOR) == seq![Seq::<u8>::empty()],
{
    let p = pieces(Seq::<u8>::empty(), SEPARATOR);
    assert(p =~= seq![Seq::<u8>::empty()]);
    assert(p.drop_last() =~= Seq::<Seq<u8>>::empty());
    assert(!is_solid(p.last()));
    assert(solid_components(p) == solid_components(p.drop_last()));
    assert(components(Seq::<u8>::empty()) =~= Seq::<Component>::empty());
}

proof fn lemma_one_solid(piece: Seq<u8>)
    requires
        is_solid(piece),
        !piece.contains(SEPARATOR),
    ensures
        !is_rooted(piece),
        solid_components(pieces(piece, SEPARATOR)) == seq![
            if piece == seq![DOT, DOT] {
                Component::Parent
            } else {
                Component::Normal(piece)
            },
        ],
        components(piece) == solid_components(pieces(piece, SEPARATOR)),
{
    lemma_pieces_of_one(piece);
    assert(piece.contains(piece[0]));
    let one = seq![piece];
    assert(one.drop_last() =~= Seq::<Seq<u8>>::empty());
    assert(solid_components(one.drop_last()) =~= Seq::<Component>::empty());
    assert(solid_components(one) =~= seq![
        if piece == seq![DOT, DOT] {
            Component::Parent
        } else {
            Component::Normal(piece)
        },
    ]);
    assert(components(piece) =~= solid_components(one));
}

/// Joining a name to a path, absolute, relative or empty, adds that name as the last
/// component and changes nothing else.
pub proof fn law_join_appends_a_name(base: Seq<u8>, name: Seq<u8>)
    requires
        is_plain_name(name),
    ensures
        components(joined_path(base, name)) == components(base).push(Component::Normal(name)),
        is_rooted(joined_path(base, name)) == is_rooted(base),
{
    lemma_one_solid(name);
    lemma_empty_path();
    if base.len() > 0 {
        law_join_adds_components(base, name);
        assert(components(base) + seq![Component::Normal(name)] =~= components(base).push(
            Component::Normal(name),
        ));
    } else {
        assert(base =~= Seq::<u8>::empty());
        assert(joined_path(base, name) =~= name);
        assert(components(base).push(Component::Normal(name)) =~= seq![Component::Normal(name)]);
    }
}

/// An absolute path is not changed by what it is joined to.
pub proof fn law_absolute_paths_stand_alone(base: Seq<u8>, path: Seq<u8>)
    requires
        is_rooted(path),
    ensures
        joined_path(base, path) == path,
{
}

/// Joining `..` to a path adds the step to the parent, and nothing else.
pub proof fn law_join_appends_a_parent_step(base: Seq<u8>)
    ensures
        components(joined_path(base, seq![DOT, DOT])) == components(base).push(Component::Parent),
        is_rooted(joined_path(base, seq![DOT, DOT])) == is_rooted(base),
{
    let up = seq![DOT, DOT];
    assert(up[0] == DOT && up[1] == DOT);
    assert(up.len() != seq![DOT].len());
    lemma_one_solid(up);
    lemma_empty_path();
    if base.len() > 0 {
        law_join_adds_components(base, up);
        assert(components(base) + seq![Component::Parent] =~= components(base).push(
            Component::Parent,
        ));
    } else {
        assert(base =~= Seq::<u8>::empty());
        assert(joined_path(base, up) =~= up);
        assert(components(base).push(Component::Parent) =~= seq![Component::Parent]);
    }
}

/// A step into a name and back leads nowhere: the normal form is that of the path before.
pub proof fn law_a_step_back_undoes_a_name(base: Seq<u8>, name: Seq<u8>)
    requires
        is_plain_name(name),
    ensures
        normalized(joined_path(joined_path(base, name), seq![DOT, DOT])) == normalized(base),
{
    let inner = joined_path(base, name);
    law_join_appends_a_name(base, name);
    law_join_appends_a_parent_step(inner);
    let comps = components(inner).push(Component::Parent);
    assert(comps.drop_last() =~= components(inner));
    assert(components(inner).drop_last() =~= components(base));
    assert(settled(components(inner)) == settled(components(base)).push(name));
    assert(settled(comps) =~= settled(components(base)));
}

/// Where no name is left to step back from, a step back changes nothing: the root is its
/// own parent.
pub proof fn law_a_step_back_stops_at_the_top(base: Seq<u8>)
    requires
        settled(components(base)).len() == 0,
    ensures
        normalized(joined_path(base, seq![DOT, DOT])) == normalized(base),
        is_rooted(base) ==> normalized(base) == seq![SEPARATOR],
        !is_rooted(base) ==> normalized(base) == Seq::<u8>::empty(),
{
    law_join_appends_a_parent_step(base);
    let comps = components(base).push(Component::Parent);
    assert(comps.drop_last() =~= components(base));
    assert(settled(components(base)) =~= Seq::<Seq<u8>>::empty());
    assert(settled(comps) =~= settled(components(base)));
    assert(glued(Seq::<Seq<u8>>::empty(), SEPARATOR) =~= Seq::<u8>::empty());
    assert(path_of_names(true, Seq::<Seq<u8>>::empty()) =~= seq![SEPARATOR]);
}

/// A step into a name leads to that name below the normal form.
pub proof fn law_a_name_is_a_step_down(base: Seq<u8>, name: Seq<u8>)
    requires
        is_plain_name(name),
    ensures
        settled(components(joined_path(base, name))) == settled(components(base)).push(name),
{
    law_join_appends_a_name(base, name);
    assert(components(base).push(Component::Normal(name)).drop_last() =~= components(base));
}

/// How often separators are repeated, and whether a `.` stands between them, does not
/// matter; neither does a separator at the end.
#[verifier::rlimit(30)]
pub proof fn law_spelling_does_not_matter(front: Seq<u8>, back: Seq<u8>)
    ensures
        components(front.push(SEPARATOR).push(SEPARATOR) + back) == components(
            front.push(SEPARATOR) + back,
        ),
        components(front.push(SEPARATOR).push(DOT).push(SEPARATOR) + back) == components(
            front.push(SEPARATOR) + back,
        ),
        front.len() > 0 ==> components(front.push(SEPARATOR)) == components(front),
{
    let p = pieces(front, SEPARATOR);
    let q = pieces(back, SEPARATOR);
    let none = Seq::<u8>::empty();
    lemma_pieces_nonempty(front, SEPARATOR);
    lemma_empty_path();
    let plain = front.push(SEPARATOR) + back;
    lemma_pieces_concat(front, back, SEPARATOR);
    lemma_rooted_pieces(plain);
    lemma_solid_concat(p, q);

    let doubled = front.push(SEPARATOR).push(SEPARATOR) + back;
    lemma_pieces_concat(front.push(SEPARATOR), back, SEPARATOR);
    lemma_pieces_concat(front, none, SEPARATOR);
    assert(front.push(SEPARATOR) + none =~= front.push(SEPARATOR));
    assert(pieces(front.push(SEPARATOR), SEPARATOR) =~= p + seq![none]);
    lemma_unsolid_between(p, none, q);
    assert(pieces(doubled, SEPARATOR) =~= p + seq![none] + q);
    assert((p + seq![none] + q)[0] == p[0]);
    assert((p + q)[0] == p[0]);
    assert(doubled[0] == plain[0]);
    assert(components(doubled) =~= components(plain));

    let dot = seq![DOT];
    let middle = front.push(SEPARATOR).push(DOT);
    let dotted = middle.push(SEPARATOR) + back;
    lemma_pieces_concat(middle, back, SEPARATOR);
    lemma_pieces_concat(front, dot, SEPARATOR);
    assert(front.push(SEPARATOR) + dot =~= middle);
    assert(!dot.contains(SEPARATOR));
    lemma_pieces_of_one(dot);
    lemma_unsolid_between(p, dot, q);
    assert(pieces(dotted, SEPARATOR) =~= p + seq![dot] + q);
    assert((p + seq![dot] + q)[0] == p[0]);
    assert(dotted[0] == plain[0]);
    assert(components(dotted) =~= components(plain));

    if front.len() > 0 {
        let ended = front.push(SEPARATOR);
        assert(ended[0] == front[0]);
        assert((p + seq![none])[0] == p[0]);
        assert((p + seq![none]).drop_last() =~= p);
        assert((p + seq![none]).last() == none);
        assert(components(ended) =~= components(front));
    }
}

proof fn lemma_unsolid_between(p: Seq<Seq<u8>>, piece: Seq<u8>, q: Seq<Seq<u8>>)
    requires
        !is_solid(piece),
    ensures
        solid_components(p + seq![piece] + q) == solid_components(p) + solid_components(q),
{
    lemma_solid_concat(p + seq![piece], q);
    assert((p + seq![piece]).drop_last() =~= p);
    assert((p + seq![piece]).last() == piece);
}

/// A sibling shares everything but the last name with a path; where the path does not end
/// in a name, it lies directly below.
pub proof fn law_siblings_share_their_parent(path: Seq<u8>, name: Seq<u8>)
    requires
        is_plain_name(name),
    ensures
        ends_in_name(path) ==> components(sibling_path(path, name)) == components(
            path,
        ).drop_last().push(Component::Normal(name)),
        !ends_in_name(path) ==> components(sibling_path(path, name)) == components(path).push(
            Component::Normal(name),
        ),
        is_rooted(path) ==> is_rooted(sibling_path(path, name)),
{
    law_join_appends_a_name(path, name);
    law_parent_drops_the_last_component(path);
    if ends_in_name(path) {
        law_join_appends_a_name(parent_path(path)->0, name);
        if is_rooted(path) {
            crate::path_laws::law_parent_keeps_the_root(path);
        }
    }
}

/// A path lies below another one exactly if its components are those of the other and
/// then some, name by name.
pub proof fn law_below_is_name_by_name(path: Seq<u8>, base: Seq<u8>, rest: Seq<Component>)
    ensures
        components(path) == components(base) + rest ==> is_below(path, base),
        is_below(path, base) ==> components(path) == components(base) + components(path).skip(
            components(base).len() as int,
        ),
        is_below(path, path),
{
    if components(path) == components(base) + rest {
        assert(components(path).take(components(base).len() as int) =~= components(base));
    }
    if is_below(path, base) {
        assert(components(path) =~= components(base) + components(path).skip(
            components(base).len() as int,
        ));
    }
    assert(components(path).take(components(path).len() as int) =~= components(path));
}

/// A text that is a plain name: ASCII without a separator, longer than the two dots.
pub open spec fn is_name_text(text: Seq<char>) -> bool {
    is_ascii_chars(text) && text.len() > 2 && forall|i: int|
        0 <= i < text.len() ==> #[trigger] text[i] != '/'
}

/// Such a text is a plain name as a path.
pub proof fn lemma_name_text(text: Seq<char>)
    requires
        is_name_text(text),
    ensures
        is_plain_name(encode_utf8(text)),
        components(encode_utf8(text)) == seq![Component::Normal(encode_utf8(text))],
{
    is_ascii_chars_encode_utf8(text);
    let name = encode_utf8(text);
    if name.contains(SEPARATOR) {
        let i = choose|i: int| 0 <= i < name.len() && name[i] == SEPARATOR;
        assert(text[i] as u8 == SEPARATOR);
        assert(text[i] == '/');
    }
    assert(name.len() > 2);
    lemma_one_solid(name);
}

/// A text that is a name directly below the root.
pub proof fn lemma_top_text(name: Seq<char>)
    requires
        is_name_text(name),
    ensures
        is_rooted(encode_utf8(seq!['/'] + name)),
        components(encode_utf8(seq!['/'] + name)) == seq![
            Component::Root,
            Component::Normal(encode_utf8(name)),
        ],
{
    let root = seq![SEPARATOR];
    is_ascii_chars_encode_utf8(seq!['/']);
    assert(encode_utf8(seq!['/']) =~= root);
    lemma_encode_concat(seq!['/'], name);
    lemma_name_text(name);
    assert(joined_path(root, encode_utf8(name)) =~= root + encode_utf8(name));
    law_join_appends_a_name(root, encode_utf8(name));
    lemma_empty_path();
    lemma_pieces_concat(Seq::empty(), Seq::empty(), SEPARATOR);
    assert(Seq::<u8>::empty().push(SEPARATOR) + Seq::<u8>::empty() =~= root);
    let none = seq![Seq::<u8>::empty()];
    lemma_solid_concat(none, none);
    assert(none.drop_last() =~= Seq::<Seq<u8>>::empty());
    assert(solid_components(none) =~= Seq::<Component>::empty());
    assert(components(root) =~= seq![Component::Root]);
    assert(seq![Component::Root].push(Component::Normal(encode_utf8(name))) =~= seq![
        Component::Root,
        Component::Normal(encode_utf8(name)),
    ]);
}

/// A text that is a name below another text.
pub proof fn lemma_below_text(base: Seq<char>, name: Seq<char>)
    requires
        is_ascii_chars(base),
        base.len() > 0,
        base.last() != '/',
        is_name_text(name),
    ensures
        is_rooted(encode_utf8(base + seq!['/'] + name)) == is_rooted(encode_utf8(base)),
        components(encode_utf8(base + seq!['/'] + name)) == components(encode_utf8(base)).push(
            Component::Normal(encode_utf8(name)),
        ),
{
    let b = encode_utf8(base);
    is_ascii_chars_encode_utf8(base);
    is_ascii_chars_encode_utf8(seq!['/']);
    assert(encode_utf8(seq!['/']) =~= seq![SEPARATOR]);
    lemma_encode_concat(base, seq!['/']);
    lemma_encode_concat(base + seq!['/'], name);
    lemma_name_text(name);
    lemma_ascii_not_separator(base.last());
    assert(b.last() == base.last() as u8);
    assert(b.push(SEPARATOR) =~= b + seq![SEPARATOR]);
    law_join_appends_a_name(b, encode_utf8(name));
}

proof fn lemma_ascii_not_separator(c: char)
    requires
        c != '/',
        (c as u32) < 128,
    ensures
        c as u8 != SEPARATOR,
{
}

/// Joining keeps both paths as they are spelled: the result starts with the base and ends
/// with the relative path, with at most one separator between them, and none where the base
/// is empty or ends in one.
pub proof fn law_joining_keeps_the_spelling(base: Seq<u8>, path: Seq<u8>)
    requires
        !is_rooted(path),
    ensures
        ({
            let whole = joined_path(base, path);
            let gap = whole.len() - base.len() - path.len();
            &&& whole.len() >= base.len() + path.len()
            &&& whole.take(base.len() as int) == base
            &&& whole.skip(whole.len() - path.len()) == path
            &&& base.len() > 0 && base.last() != SEPARATOR ==> gap == 1 && whole[base.len() as int]
                == SEPARATOR
            &&& base.len() == 0 || base.last() == SEPARATOR ==> gap == 0
        }),
{
    let whole = joined_path(base, path);
    assert(whole.take(base.len() as int) =~= base);
    assert(whole.skip(whole.len() - path.len()) =~= path);
}

/// A normal form is spelled in one way only: its names with single separators between them,
/// behind one separator where it is absolute. Without names it is the root or empty.
pub proof fn law_normal_forms_are_spelled_plainly(path: Seq<u8>)
    ensures
        ({
            let names = settled(components(path));
            &&& names.len() == 0 && is_rooted(path) ==> normalized(path) == seq![SEPARATOR]
            &&& names.len() == 0 && !is_rooted(path) ==> normalized(path) == Seq::<u8>::empty()
            &&& names.len() > 0 && !is_rooted(path) ==> pieces(normalized(path), SEPARATOR) == names
            &&& names.len() > 0 && is_rooted(path) ==> normalized(path)[0] == SEPARATOR && pieces(
                normalized(path).skip(1),
                SEPARATOR,
            ) == names
        }),
{
    let names = settled(components(path));
    crate::paths::law_normal_form_is_plain(path);
    assert(glued(Seq::<Seq<u8>>::empty(), SEPARATOR) =~= Seq::<u8>::empty());
    if names.len() == 0 {
        assert(names =~= Seq::<Seq<u8>>::empty());
        assert(path_of_names(true, names) =~= seq![SEPARATOR]);
    } else {
        assert forall|i: int| 0 <= i < names.len() implies crate::paths::unbroken(
            #[trigger] names[i],
            SEPARATOR,
        ) by {
            assert(is_plain_name(names[i]));
        }
        law_split_undoes_glue(names, SEPARATOR);
        if is_rooted(path) {
            assert(normalized(path).skip(1) =~= glued(names, SEPARATOR));
        }
    }
}

/// Two paths are the same exactly if they have the same components, however they are spelled.
pub proof fn law_same_paths_have_the_same_components(a: Seq<u8>, b: Seq<u8>)
    ensures
        same_path(a, b) <==> components(a) == components(b),
        same_path(a, b) ==> settled(components(a)) == settled(components(b)),
{
}

proof fn lemma_glued_prefix(parts: Seq<Seq<u8>>, count: int)
    requires
        0 < count <= parts.len(),
    ensures
        glued(parts.take(count), SEPARATOR).len() <= glued(parts, SEPARATOR).len(),
        glued(parts, SEPARATOR).take(glued(parts.take(count), SEPARATOR).len() as int) == glued(
            parts.take(count),
            SEPARATOR,
        ),
    decreases parts.len(),
{
    let short = glued(parts.take(count), SEPARATOR);
    if count == parts.len() {
        assert(parts.take(count) =~= parts);
        assert(short.take(short.len() as int) =~= short);
    } else {
        let front = parts.drop_last();
        assert(front.take(count) =~= parts.take(count));
        lemma_glued_prefix(front, count);
        let whole = glued(parts, SEPARATOR);
        assert(whole.take(short.len() as int) =~= glued(front, SEPARATOR).take(short.len() as int));
    }
}

/// A parent is spelled as the path is, up to where it ends.
pub proof fn law_parents_are_spelled_as_their_paths(path: Seq<u8>)
    ensures
        parent_path(path) matches Some(parent) ==> parent.len() <= path.len() && path.take(
            parent.len() as int,
        ) == parent,
{
    let parts = pieces(path, SEPARATOR);
    lemma_pieces_nonempty(path, SEPARATOR);
    crate::paths::lemma_last_solid(parts);
    crate::paths::law_glue_undoes_split(path, SEPARATOR);
    if let Some(parent) = parent_path(path) {
        let last = crate::paths::last_solid(parts);
        if last >= 0 {
            crate::paths::lemma_last_solid(parts.take(last));
            let before = crate::paths::last_solid(parts.take(last));
            if before >= 0 {
                lemma_glued_prefix(parts, before + 1);
            } else if is_rooted(path) {
                assert(path.take(1) =~= seq![SEPARATOR]);
            } else if last > 0 && crate::paths::is_dot(parts[0]) {
                lemma_glued_prefix(parts, 1);
                assert(parts.take(1) =~= seq![parts[0]]);
                assert(glued(parts.take(1), SEPARATOR) =~= seq![DOT]);
            } else {
                assert(path.take(0) =~= Seq::<u8>::empty());
            }
        } else {
            assert(path.take(0) =~= Seq::<u8>::empty());
        }
    }
}

} // verus!
