//! What holds of joining, and of paths that are UTF-8.
use crate::paths::{
    components, glued, is_rooted, joined_path, last_solid, law_parent_drops_the_last_component,
    law_path_of_names_has_those_names, leading_component, name_components, normalized,
    parent_path, path_of_names, pieces, plain_names, settled, solid_components, unbroken,
    Component, DOT, SEPARATOR,
};
use crate::paths::{
    law_normal_form_is_plain, lemma_components_shape, lemma_last_solid, lemma_pieces_extend,
    lemma_pieces_nonempty, lemma_settled_after_root, lemma_solid_names, lemma_solid_none,
};
use crate::text::lemma_encode_concat;
use vstd::prelude::*;
use vstd::utf8::*;

verus! {

/// The parent of an absolute path is absolute.
pub proof fn law_parent_keeps_the_root(path: Seq<u8>)
    requires
        is_rooted(path),
    ensures
        parent_path(path) matches Some(parent) ==> is_rooted(parent),
{
    if let Some(parent) = parent_path(path) {
        law_parent_drops_the_last_component(path);
        lemma_components_shape(path);
        lemma_components_shape(parent);
        lemma_last_solid(pieces(path, SEPARATOR));
        assert(components(path).len() > 1);
        assert(components(parent)[0] == components(path)[0]);
    }
}

/// Splitting at a separator splits what is before it and what is behind it.
pub proof fn lemma_pieces_concat(a: Seq<u8>, b: Seq<u8>, sep: u8)
    ensures
        pieces(a.push(sep) + b, sep) == pieces(a, sep) + pieces(b, sep),
    decreases b.len(),
{
    let head = a.push(sep);
    if b.len() == 0 {
        assert(head + b =~= head);
        assert(head.drop_last() =~= a);
        assert(pieces(b, sep) =~= seq![Seq::<u8>::empty()]);
        assert(pieces(head, sep) =~= pieces(a, sep) + pieces(b, sep));
    } else {
        let front = b.drop_last();
        lemma_pieces_concat(a, front, sep);
        lemma_pieces_nonempty(front, sep);
        assert((head + b).drop_last() =~= head + front);
        assert((head + b).last() == b.last());
        let p = pieces(a, sep);
        let q = pieces(front, sep);
        if b.last() == sep {
            assert((p + q).push(Seq::empty()) =~= p + q.push(Seq::empty()));
        } else {
            assert((p + q).last() == q.last());
            assert((p + q).drop_last().push(q.last().push(b.last())) =~= p + q.drop_last().push(
                q.last().push(b.last()),
            ));
        }
    }
}

pub proof fn lemma_solid_concat(a: Seq<Seq<u8>>, b: Seq<Seq<u8>>)
    ensures
        solid_components(a + b) == solid_components(a) + solid_components(b),
    decreases b.len(),
{
    if b.len() == 0 {
        assert(a + b =~= a);
        assert(solid_components(a) + solid_components(b) =~= solid_components(a));
    } else {
        assert((a + b).drop_last() =~= a + b.drop_last());
        assert((a + b).last() == b.last());
        lemma_solid_concat(a, b.drop_last());
        assert(solid_components(a + b) =~= solid_components(a) + solid_components(b));
    }
}

/// Below a path that is not empty, a relative path adds its components, except for a
/// `.` that it starts with.
pub proof fn law_join_adds_components(base: Seq<u8>, path: Seq<u8>)
    requires
        base.len() > 0,
        !is_rooted(path),
    ensures
        is_rooted(joined_path(base, path)) == is_rooted(base),
        components(joined_path(base, path)) == components(base) + solid_components(
            pieces(path, SEPARATOR),
        ),
{
    let whole = joined_path(base, path);
    lemma_pieces_nonempty(base, SEPARATOR);
    lemma_pieces_nonempty(path, SEPARATOR);
    let q = pieces(path, SEPARATOR);
    if base.last() != SEPARATOR {
        lemma_pieces_concat(base, path, SEPARATOR);
        let p = pieces(base, SEPARATOR);
        assert(pieces(whole, SEPARATOR) == p + q);
        assert((p + q)[0] == p[0]);
        lemma_solid_concat(p, q);
        assert(whole[0] == base[0]);
        assert(components(whole) =~= components(base) + solid_components(q));
    } else {
        let front = base.drop_last();
        assert(front.push(SEPARATOR) =~= base);
        lemma_pieces_concat(front, path, SEPARATOR);
        lemma_pieces_nonempty(front, SEPARATOR);
        let p = pieces(front, SEPARATOR);
        assert(pieces(whole, SEPARATOR) == p + q);
        assert(pieces(base, SEPARATOR) == p.push(Seq::empty()));
        assert((p + q)[0] == p[0]);
        assert(p.push(Seq::<u8>::empty())[0] == p[0]);
        lemma_solid_concat(p, q);
        assert(p.push(Seq::<u8>::empty()).drop_last() =~= p);
        assert(solid_components(pieces(base, SEPARATOR)) == solid_components(p));
        assert(whole[0] == base[0]);
        assert(components(whole) =~= components(base) + solid_components(q));
    }
}

/// A relative path of plain names alone.
pub open spec fn is_plain_relative(path: Seq<u8>) -> bool {
    !is_rooted(path) && forall|i: int|
        0 <= i < components(path).len() ==> #[trigger] components(path)[i] is Normal
}

/// The names of a list of components that are all names.
pub open spec fn names_of(parts: Seq<Component>) -> Seq<Seq<u8>> {
    parts.map_values(|c: Component| c->Normal_0)
}

proof fn lemma_settled_names(parts: Seq<Component>, more: Seq<Component>)
    requires
        forall|i: int| 0 <= i < more.len() ==> #[trigger] more[i] is Normal,
    ensures
        settled(parts + more) == settled(parts) + names_of(more),
    decreases more.len(),
{
    if more.len() == 0 {
        assert(parts + more =~= parts);
        assert(settled(parts) + names_of(more) =~= settled(parts));
    } else {
        let front = more.drop_last();
        assert forall|i: int| 0 <= i < front.len() implies #[trigger] front[i] is Normal by {
            assert(front[i] == more[i]);
        }
        assert(more[more.len() - 1] is Normal);
        lemma_settled_names(parts, front);
        assert((parts + more).drop_last() =~= parts + front);
        assert((parts + more).last() == more.last());
        assert(names_of(more) =~= names_of(front).push(more.last()->Normal_0));
        assert(settled(parts + more) =~= settled(parts) + names_of(more));
    }
}

/// A relative path of plain names, taken from a base, leads to those names below the
/// normal form of the base.
pub proof fn law_plain_relative_paths_stay_below(base: Seq<u8>, path: Seq<u8>)
    requires
        is_plain_relative(path),
    ensures
        is_rooted(normalized(joined_path(base, path))) == is_rooted(base),
        components(normalized(joined_path(base, path))) == components(normalized(base))
            + components(path),
{
    let whole = joined_path(base, path);
    let comps = components(path);
    let names = names_of(comps);
    lemma_components_shape(path);
    assert(leading_component(path) =~= Seq::<Component>::empty()) by {
        if leading_component(path).len() > 0 {
            assert(comps[0] == leading_component(path)[0]);
            assert(comps[0] is Normal);
        }
    }
    assert(comps =~= solid_components(pieces(path, SEPARATOR)));
    if base.len() > 0 {
        law_join_adds_components(base, path);
    } else {
        assert(whole =~= path);
        assert(pieces(base, SEPARATOR) =~= seq![Seq::<u8>::empty()]);
        lemma_solid_none(pieces(base, SEPARATOR));
        assert(components(base) =~= Seq::<Component>::empty());
        assert(components(whole) =~= components(base) + comps);
    }
    lemma_settled_names(components(base), comps);
    law_normal_form_is_plain(whole);
    law_normal_form_is_plain(base);
    let kept = settled(components(base));
    assert(name_components(kept + names) =~= name_components(kept) + comps);
    assert(components(normalized(whole)) =~= components(normalized(base)) + comps);
}

/// A path below itself: `.` leads to the normal form of the base.
pub proof fn law_dot_stays(base: Seq<u8>)
    ensures
        normalized(joined_path(base, seq![DOT])) == normalized(base),
{
    let dot = seq![DOT];
    assert(dot.drop_last() =~= Seq::<u8>::empty());
    assert(pieces(dot, SEPARATOR) =~= seq![seq![DOT]]) by {
        reveal_with_fuel(pieces, 2);
        assert(Seq::<u8>::empty().push(DOT) =~= seq![DOT]);
    }
    lemma_solid_none(pieces(dot, SEPARATOR));
    if base.len() > 0 {
        law_join_adds_components(base, dot);
        assert(components(base) + Seq::<Component>::empty() =~= components(base));
    } else {
        assert(joined_path(base, dot) =~= dot);
        assert(components(dot) =~= seq![Component::Current]);
        assert(pieces(base, SEPARATOR) =~= seq![Seq::<u8>::empty()]);
        lemma_solid_none(pieces(base, SEPARATOR));
        assert(components(base) =~= Seq::<Component>::empty());
        assert(seq![Component::Current].drop_last() =~= Seq::<Component>::empty());
        reveal_with_fuel(settled, 2);
        assert(settled(components(dot)) =~= settled(components(base)));
    }
}

/// A path of names alone, behind the root where it is absolute, keeps its components in its
/// normal form, however it is spelled.
pub proof fn law_names_stay(path: Seq<u8>)
    requires
        forall|i: int|
            0 <= i < components(path).len() ==> (#[trigger] components(path)[i] is Normal
                || components(path)[i] is Root),
    ensures
        components(normalized(path)) == components(path),
{
    let comps = components(path);
    lemma_components_shape(path);
    law_normal_form_is_plain(path);
    let lead = if is_rooted(path) {
        seq![Component::Root]
    } else {
        Seq::<Component>::empty()
    };
    let names = comps.skip(lead.len() as int);
    assert(comps =~= lead + names);
    assert forall|i: int| 0 <= i < names.len() implies #[trigger] names[i] is Normal by {
        assert(names[i] == comps[i + lead.len()]);
    }
    lemma_settled_names(lead, names);
    assert(settled(lead) =~= Seq::<Seq<u8>>::empty());
    assert(settled(comps) =~= names_of(names));
    assert(name_components(names_of(names)) =~= names);
}

/// A path made from plain names is its own normal form.
pub proof fn law_paths_of_names_are_normal(rooted: bool, names: Seq<Seq<u8>>)
    requires
        plain_names(names),
    ensures
        normalized(path_of_names(rooted, names)) == path_of_names(rooted, names),
{
    law_path_of_names_has_those_names(rooted, names);
    lemma_solid_names(names);
    lemma_settled_after_root(names);
    assert(Seq::<Component>::empty() + name_components(names) =~= name_components(names));
}

/// Two pieces of UTF-8 make up UTF-8.
proof fn lemma_utf8_concat(a: Seq<u8>, b: Seq<u8>)
    requires
        valid_utf8(a),
        valid_utf8(b),
    ensures
        valid_utf8(a + b),
{
    decode_utf8_encode_utf8(a);
    decode_utf8_encode_utf8(b);
    lemma_encode_concat(decode_utf8(a), decode_utf8(b));
    encode_utf8_valid_utf8(decode_utf8(a) + decode_utf8(b));
}

proof fn lemma_utf8_byte(b: u8)
    requires
        b < 128,
    ensures
        valid_utf8(seq![b]),
{
    let c = b as char;
    is_ascii_chars_encode_utf8(seq![c]);
    assert(encode_utf8(seq![c]) =~= seq![b]);
    encode_utf8_valid_utf8(seq![c]);
}

/// The bytes of a character beyond ASCII are beyond ASCII, too.
proof fn lemma_wide_scalar(c: u32)
    requires
        c >= 128,
    ensures
        forall|i: int| 0 <= i < encode_scalar(c).len() ==> #[trigger] encode_scalar(c)[i] >= 128,
{
    assert(last_continuation_byte(c) >= 128) by {
        assert((0x80u8 | ((c & 0x3F) as u8)) >= 128) by (bit_vector);
    }
    assert(second_last_continuation_byte(c) >= 128) by {
        assert((0x80u8 | (((c >> 6) & 0x3F) as u8)) >= 128) by (bit_vector);
    }
    assert(third_last_continuation_byte(c) >= 128) by {
        assert((0x80u8 | (((c >> 12) & 0x3F) as u8)) >= 128) by (bit_vector);
    }
    assert(leading_byte_width_2(c) >= 128) by {
        assert((0xC0u8 | (((c >> 6) & 0x1F) as u8)) >= 128) by (bit_vector);
    }
    assert(leading_byte_width_3(c) >= 128) by {
        assert((0xE0u8 | (((c >> 12) & 0x0F) as u8)) >= 128) by (bit_vector);
    }
    assert(leading_byte_width_4(c) >= 128) by {
        assert((0xF0u8 | (((c >> 18) & 0x07) as u8)) >= 128) by (bit_vector);
    }
}

/// The encoding of a character holds a byte of ASCII only where it is that byte.
proof fn lemma_char_bytes(c: char, b: u8)
    requires
        b < 128,
    ensures
        c as u32 == b as u32 ==> encode_utf8(seq![c]) == seq![b],
        c as u32 != b as u32 ==> unbroken(encode_utf8(seq![c]), b),
{
    let bytes = encode_utf8(seq![c]);
    if (c as u32) < 128 {
        assert(is_ascii_chars(seq![c]));
        is_ascii_chars_encode_utf8(seq![c]);
        assert(bytes =~= seq![c as u8]);
        if c as u32 != b as u32 {
            assert(bytes[0] != b);
        }
    } else {
        lemma_wide_scalar(c as u32);
        assert(seq![c].drop_first() =~= Seq::<char>::empty());
        assert(encode_utf8(Seq::<char>::empty()) =~= Seq::<u8>::empty());
        assert(bytes =~= encode_scalar(c as u32));
    }
}

/// All pieces are UTF-8.
pub open spec fn all_utf8(parts: Seq<Seq<u8>>) -> bool {
    forall|i: int| 0 <= i < parts.len() ==> valid_utf8(#[trigger] parts[i])
}

/// Splitting a text at a byte of ASCII gives pieces that are UTF-8.
proof fn lemma_pieces_utf8(text: Seq<char>, sep: u8)
    requires
        sep < 128,
    ensures
        all_utf8(pieces(encode_utf8(text), sep)),
    decreases text.len(),
{
    if text.len() == 0 {
        assert(encode_utf8(text) =~= Seq::<u8>::empty());
        encode_utf8_valid_utf8(Seq::<char>::empty());
        assert(encode_utf8(Seq::<char>::empty()) =~= Seq::<u8>::empty());
    } else {
        let front = text.drop_last();
        let c = text.last();
        lemma_pieces_utf8(front, sep);
        assert(front + seq![c] =~= text);
        lemma_encode_concat(front, seq![c]);
        let head = encode_utf8(front);
        let tail = encode_utf8(seq![c]);
        let p = pieces(head, sep);
        lemma_pieces_nonempty(head, sep);
        encode_utf8_valid_utf8(seq![c]);
        encode_utf8_valid_utf8(Seq::<char>::empty());
        assert(encode_utf8(Seq::<char>::empty()) =~= Seq::<u8>::empty());
        lemma_char_bytes(c, sep);
        if c as u32 == sep as u32 {
            assert((head + tail).drop_last() =~= head);
            let q = p.push(Seq::<u8>::empty());
            assert(pieces(encode_utf8(text), sep) == q);
            assert forall|i: int| 0 <= i < q.len() implies valid_utf8(#[trigger] q[i]) by {
                if i < p.len() {
                    assert(q[i] == p[i]);
                }
            }
        } else {
            lemma_pieces_extend(head, tail, sep);
            let q = p.drop_last().push(p.last() + tail);
            assert(valid_utf8(p[p.len() - 1]));
            lemma_utf8_concat(p.last(), tail);
            assert forall|i: int| 0 <= i < q.len() implies valid_utf8(#[trigger] q[i]) by {
                if i < p.len() - 1 {
                    assert(q[i] == p[i]);
                }
            }
        }
    }
}

proof fn lemma_glued_utf8(parts: Seq<Seq<u8>>, sep: u8)
    requires
        sep < 128,
        all_utf8(parts),
    ensures
        valid_utf8(glued(parts, sep)),
    decreases parts.len(),
{
    if parts.len() == 0 {
        encode_utf8_valid_utf8(Seq::<char>::empty());
        assert(encode_utf8(Seq::<char>::empty()) =~= glued(parts, sep));
    } else if parts.len() > 1 {
        let front = parts.drop_last();
        assert forall|i: int| 0 <= i < front.len() implies valid_utf8(#[trigger] front[i]) by {
            assert(front[i] == parts[i]);
        }
        lemma_glued_utf8(front, sep);
        lemma_utf8_byte(sep);
        lemma_utf8_concat(glued(front, sep), seq![sep]);
        assert(glued(front, sep).push(sep) =~= glued(front, sep) + seq![sep]);
        assert(valid_utf8(parts[parts.len() - 1]));
        lemma_utf8_concat(glued(front, sep).push(sep), parts.last());
    } else {
        assert(valid_utf8(parts[0]));
    }
}

/// Joining paths that are UTF-8 gives UTF-8.
pub proof fn law_join_keeps_utf8(base: Seq<u8>, path: Seq<u8>)
    requires
        valid_utf8(base),
        valid_utf8(path),
    ensures
        valid_utf8(joined_path(base, path)),
{
    lemma_utf8_byte(SEPARATOR);
    lemma_utf8_concat(base, seq![SEPARATOR]);
    assert(base.push(SEPARATOR) =~= base + seq![SEPARATOR]);
    lemma_utf8_concat(base.push(SEPARATOR), path);
    lemma_utf8_concat(base, path);
}

/// The parent of a path that is UTF-8 is UTF-8.
pub proof fn law_parent_keeps_utf8(path: Seq<u8>)
    requires
        valid_utf8(path),
    ensures
        parent_path(path) matches Some(parent) ==> valid_utf8(parent),
{
    decode_utf8_encode_utf8(path);
    lemma_pieces_utf8(decode_utf8(path), SEPARATOR);
    let parts = pieces(path, SEPARATOR);
    lemma_last_solid(parts);
    let last = last_solid(parts);
    lemma_utf8_byte(SEPARATOR);
    lemma_utf8_byte(DOT);
    encode_utf8_valid_utf8(Seq::<char>::empty());
    assert(encode_utf8(Seq::<char>::empty()) =~= Seq::<u8>::empty());
    if last >= 0 {
        lemma_last_solid(parts.take(last));
        let before = last_solid(parts.take(last));
        if before >= 0 {
            let kept = parts.take(before + 1);
            assert forall|i: int| 0 <= i < kept.len() implies valid_utf8(#[trigger] kept[i]) by {
                assert(kept[i] == parts[i]);
            }
            lemma_glued_utf8(kept, SEPARATOR);
        }
    }
}

proof fn lemma_solid_utf8(parts: Seq<Seq<u8>>)
    requires
        all_utf8(parts),
    ensures
        forall|i: int|
            0 <= i < solid_components(parts).len() ==> (#[trigger] solid_components(
                parts,
            )[i] matches Component::Normal(name) ==> valid_utf8(name)),
    decreases parts.len(),
{
    if parts.len() > 0 {
        let front = parts.drop_last();
        assert forall|i: int| 0 <= i < front.len() implies valid_utf8(#[trigger] front[i]) by {
            assert(front[i] == parts[i]);
        }
        assert(valid_utf8(parts[parts.len() - 1]));
        lemma_solid_utf8(front);
    }
}

proof fn lemma_settled_utf8(comps: Seq<Component>)
    requires
        forall|i: int|
            0 <= i < comps.len() ==> (#[trigger] comps[i] matches Component::Normal(name)
                ==> valid_utf8(name)),
    ensures
        all_utf8(settled(comps)),
    decreases comps.len(),
{
    if comps.len() > 0 {
        let front = comps.drop_last();
        assert forall|i: int| 0 <= i < front.len() implies (#[trigger] front[i] matches
            Component::Normal(name) ==> valid_utf8(name)) by {
            assert(front[i] == comps[i]);
        }
        assert(comps[comps.len() - 1] matches Component::Normal(name) ==> valid_utf8(name));
        lemma_settled_utf8(front);
    }
}

/// The normal form of a path that is UTF-8 is UTF-8.
pub proof fn law_normal_form_keeps_utf8(path: Seq<u8>)
    requires
        valid_utf8(path),
    ensures
        valid_utf8(normalized(path)),
{
    decode_utf8_encode_utf8(path);
    lemma_pieces_utf8(decode_utf8(path), SEPARATOR);
    let parts = pieces(path, SEPARATOR);
    lemma_solid_utf8(parts);
    let comps = components(path);
    let lead = leading_component(path);
    assert forall|i: int| 0 <= i < comps.len() implies (#[trigger] comps[i] matches
        Component::Normal(name) ==> valid_utf8(name)) by {
        if i >= lead.len() {
            assert(comps[i] == solid_components(parts)[i - lead.len()]);
        }
    }
    lemma_settled_utf8(comps);
    let names = settled(comps);
    lemma_glued_utf8(names, SEPARATOR);
    lemma_utf8_byte(SEPARATOR);
    lemma_utf8_concat(seq![SEPARATOR], glued(names, SEPARATOR));
}

} // verus!
