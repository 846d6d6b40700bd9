//! Unix paths: their components, joining, parents and normal form.
use crate::os_text::{opt_bytes, OsText};
use crate::text::bytes_eq;
use vstd::prelude::*;
use vstd::slice::slice_to_vec;

verus! {

/// The byte that separates the components of a path.
pub const SEPARATOR: u8 = 47;

/// The byte that stands alone for the current directory, and twice for the parent.
pub const DOT: u8 = 46;

/// The pieces between the occurrences of a byte.
pub open spec fn pieces(bytes: Seq<u8>, sep: u8) -> Seq<Seq<u8>>
    decreases bytes.len(),
{
    if bytes.len() == 0 {
        seq![Seq::empty()]
    } else {
        let before = pieces(bytes.drop_last(), sep);
        if bytes.last() == sep {
            before.push(Seq::empty())
        } else {
            before.drop_last().push(before.last().push(bytes.last()))
        }
    }
}

/// The views of a list of byte vectors.
pub open spec fn vec_views(list: Seq<Vec<u8>>) -> Seq<Seq<u8>> {
    list.map_values(|v: Vec<u8>| v@)
}

/// Splits a byte string at each occurrence of a byte.
pub fn split(bytes: &[u8], sep: u8) -> (out: Vec<Vec<u8>>)
    ensures
        vec_views(out@) == pieces(bytes@, sep),
        out@.len() > 0,
{
    let mut done: Vec<Vec<u8>> = Vec::new();
    let mut open: Vec<u8> = Vec::new();
    for i in 0..bytes.len()
        invariant
            vec_views(done@).push(open@) == pieces(bytes@.take(i as int), sep),
    {
        let ghost before = vec_views(done@);
        proof {
            assert(bytes@.take(i + 1).drop_last() =~= bytes@.take(i as int));
            assert(before.push(open@).drop_last() =~= before);
        }
        if bytes[i] == sep {
            let ghost closed = open@;
            done.push(open);
            proof {
                assert(vec_views(done@) =~= before.push(closed));
            }
            open = Vec::new();
        } else {
            open.push(bytes[i]);
        }
    }
    let ghost before = vec_views(done@);
    let ghost last = open@;
    done.push(open);
    proof {
        assert(bytes@.take(bytes@.len() as int) =~= bytes@);
        assert(vec_views(done@) =~= before.push(last));
    }
    done
}

/// The pieces of a list with a separator byte between each two neighbours.
pub open spec fn glued(parts: Seq<Seq<u8>>, sep: u8) -> Seq<u8>
    decreases parts.len(),
{
    if parts.len() == 0 {
        Seq::empty()
    } else if parts.len() == 1 {
        parts[0]
    } else {
        glued(parts.drop_last(), sep).push(sep) + parts.last()
    }
}

/// Puts the first `count` pieces together with a separator byte.
fn glue(parts: &Vec<Vec<u8>>, count: usize, sep: u8) -> (out: Vec<u8>)
    requires
        count <= parts@.len(),
    ensures
        out@ == glued(vec_views(parts@).take(count as int), sep),
{
    let mut out: Vec<u8> = Vec::new();
    for i in 0..count
        invariant
            count <= parts@.len(),
            out@ == glued(vec_views(parts@).take(i as int), sep),
    {
        proof {
            assert(vec_views(parts@).take(i + 1).drop_last() =~= vec_views(parts@).take(i as int));
        }
        if i > 0 {
            out.push(sep);
        }
        append_bytes(&mut out, parts[i].as_slice());
        assert(out@ =~= glued(vec_views(parts@).take(i + 1), sep));
    }
    out
}

fn append_bytes(out: &mut Vec<u8>, tail: &[u8])
    ensures
        final(out)@ == old(out)@ + tail@,
{
    for i in 0..tail.len()
        invariant
            out@ == old(out)@ + tail@.take(i as int),
    {
        proof {
            assert(tail@.take(i + 1) =~= tail@.take(i as int).push(tail@[i as int]));
        }
        out.push(tail[i]);
    }
    proof {
        assert(tail@.take(tail@.len() as int) =~= tail@);
    }
}

/// One component of a path.
pub enum Component {
    /// The leading separator of an absolute path.
    Root,
    /// A `.` that starts a relative path.
    Current,
    /// A `..`.
    Parent,
    /// A name.
    Normal(Seq<u8>),
}

/// The piece `.`.
pub open spec fn is_dot(piece: Seq<u8>) -> bool {
    piece == seq![DOT]
}

/// The piece `..`.
pub open spec fn is_dot_dot(piece: Seq<u8>) -> bool {
    piece == seq![DOT, DOT]
}

/// A piece that is a component wherever it stands: neither empty nor `.`.
pub open spec fn is_solid(piece: Seq<u8>) -> bool {
    piece.len() > 0 && !is_dot(piece)
}

/// The component of a solid piece.
pub open spec fn solid_component(piece: Seq<u8>) -> Component {
    if is_dot_dot(piece) {
        Component::Parent
    } else {
        Component::Normal(piece)
    }
}

/// The components of the solid pieces of a list.
pub open spec fn solid_components(parts: Seq<Seq<u8>>) -> Seq<Component>
    decreases parts.len(),
{
    if parts.len() == 0 {
        Seq::empty()
    } else if is_solid(parts.last()) {
        solid_components(parts.drop_last()).push(solid_component(parts.last()))
    } else {
        solid_components(parts.drop_last())
    }
}

/// An absolute path: one that starts with a separator.
pub open spec fn is_rooted(path: Seq<u8>) -> bool {
    path.len() > 0 && path[0] == SEPARATOR
}

/// What stands before the solid pieces: the root of an absolute path, or the `.`
/// that starts a relative one.
pub open spec fn leading_component(path: Seq<u8>) -> Seq<Component> {
    if is_rooted(path) {
        seq![Component::Root]
    } else if is_dot(pieces(path, SEPARATOR)[0]) {
        seq![Component::Current]
    } else {
        Seq::empty()
    }
}

/// The components of a path. Repeated separators, a trailing separator and a `.`
/// anywhere but at the start of a relative path add none.
pub open spec fn components(path: Seq<u8>) -> Seq<Component> {
    leading_component(path) + solid_components(pieces(path, SEPARATOR))
}

/// One component of a path, as a value.
pub enum PathPart {
    Root,
    Current,
    Parent,
    Normal(Vec<u8>),
}

impl View for PathPart {
    type V = Component;

    open spec fn view(&self) -> Component {
        match self {
            PathPart::Root => Component::Root,
            PathPart::Current => Component::Current,
            PathPart::Parent => Component::Parent,
            PathPart::Normal(name) => Component::Normal(name@),
        }
    }
}

/// The views of a list of components.
pub open spec fn part_views(list: Seq<PathPart>) -> Seq<Component> {
    list.map_values(|p: PathPart| p@)
}

fn piece_is_dot(piece: &Vec<u8>) -> (yes: bool)
    ensures
        yes == is_dot(piece@),
{
    let yes = piece.len() == 1 && piece[0] == DOT;
    proof {
        if yes {
            assert(piece@ =~= seq![DOT]);
        }
    }
    yes
}

fn piece_is_dot_dot(piece: &Vec<u8>) -> (yes: bool)
    ensures
        yes == is_dot_dot(piece@),
{
    let yes = piece.len() == 2 && piece[0] == DOT && piece[1] == DOT;
    proof {
        if yes {
            assert(piece@ =~= seq![DOT, DOT]);
        }
    }
    yes
}

fn piece_is_solid(piece: &Vec<u8>) -> (yes: bool)
    ensures
        yes == is_solid(piece@),
{
    piece.len() > 0 && !piece_is_dot(piece)
}

impl OsText {
    /// Whether the path is absolute.
    pub fn is_absolute(&self) -> (yes: bool)
        ensures
            yes == is_rooted(self@),
    {
        self.bytes.len() > 0 && self.bytes[0] == SEPARATOR
    }

    /// The components of the path.
    pub fn parts(&self) -> (out: Vec<PathPart>)
        ensures
            part_views(out@) == components(self@),
    {
        let parts = split(self.bytes.as_slice(), SEPARATOR);
        let ghost all = pieces(self@, SEPARATOR);
        let mut out: Vec<PathPart> = Vec::new();
        assert(all[0] == parts@[0]@);
        if self.is_absolute() {
            out.push(PathPart::Root);
        } else if piece_is_dot(&parts[0]) {
            out.push(PathPart::Current);
        }
        let ghost lead = leading_component(self@);
        assert(part_views(out@) =~= lead + solid_components(all.take(0)));
        for i in 0..parts.len()
            invariant
                vec_views(parts@) == all,
                part_views(out@) == lead + solid_components(all.take(i as int)),
        {
            let ghost before = part_views(out@);
            proof {
                assert(all.take(i + 1).drop_last() =~= all.take(i as int));
                assert(all[i as int] == parts@[i as int]@);
            }
            if piece_is_solid(&parts[i]) {
                if piece_is_dot_dot(&parts[i]) {
                    out.push(PathPart::Parent);
                } else {
                    out.push(PathPart::Normal(slice_to_vec(parts[i].as_slice())));
                }
                assert(part_views(out@) =~= before.push(solid_component(all[i as int])));
                assert(part_views(out@) =~= lead + solid_components(all.take(i + 1)));
            }
        }
        proof {
            assert(all.take(all.len() as int) =~= all);
        }
        out
    }
}

/// A path below another one: an absolute path stands alone, and a relative one is
/// appended after a separator.
pub open spec fn joined_path(base: Seq<u8>, path: Seq<u8>) -> Seq<u8> {
    if is_rooted(path) {
        path
    } else if base.len() > 0 && base.last() != SEPARATOR {
        base.push(SEPARATOR) + path
    } else {
        base + path
    }
}

/// The index of the last solid piece, or -1 where there is none.
pub open spec fn last_solid(parts: Seq<Seq<u8>>) -> int
    decreases parts.len(),
{
    if parts.len() == 0 {
        -1
    } else if is_solid(parts.last()) {
        parts.len() - 1
    } else {
        last_solid(parts.drop_last())
    }
}

/// A path without its last component and without the separators that precede it;
/// the root and the empty path have no parent.
pub open spec fn parent_path(path: Seq<u8>) -> Option<Seq<u8>> {
    let parts = pieces(path, SEPARATOR);
    let last = last_solid(parts);
    if last < 0 {
        if !is_rooted(path) && is_dot(parts[0]) {
            Some(Seq::empty())
        } else {
            None
        }
    } else {
        let before = last_solid(parts.take(last));
        if before >= 0 {
            Some(glued(parts.take(before + 1), SEPARATOR))
        } else if is_rooted(path) {
            Some(seq![SEPARATOR])
        } else if last > 0 && is_dot(parts[0]) {
            Some(seq![DOT])
        } else {
            Some(Seq::empty())
        }
    }
}

/// Whether the last component is a name.
pub open spec fn ends_in_name(path: Seq<u8>) -> bool {
    components(path).len() > 0 && components(path).last() is Normal
}

/// A path with its last name replaced, or with a name appended where the last
/// component is none.
pub open spec fn sibling_path(path: Seq<u8>, name: Seq<u8>) -> Seq<u8> {
    if ends_in_name(path) {
        joined_path(parent_path(path)->0, name)
    } else {
        joined_path(path, name)
    }
}

/// Whether the components of `base` start those of `path`.
pub open spec fn is_below(path: Seq<u8>, base: Seq<u8>) -> bool {
    components(base).len() <= components(path).len() && components(path).take(
        components(base).len() as int,
    ) == components(base)
}

/// Two ways to write one path: the components agree.
pub open spec fn same_path(a: Seq<u8>, b: Seq<u8>) -> bool {
    components(a) == components(b)
}

/// The names that are left when each `..` has removed the name before it.
pub open spec fn settled(parts: Seq<Component>) -> Seq<Seq<u8>>
    decreases parts.len(),
{
    if parts.len() == 0 {
        Seq::empty()
    } else {
        let before = settled(parts.drop_last());
        match parts.last() {
            Component::Root => Seq::empty(),
            Component::Current => before,
            Component::Parent => if before.len() > 0 {
                before.drop_last()
            } else {
                before
            },
            Component::Normal(name) => before.push(name),
        }
    }
}

/// A path from names alone.
pub open spec fn path_of_names(rooted: bool, names: Seq<Seq<u8>>) -> Seq<u8> {
    if rooted {
        seq![SEPARATOR] + glued(names, SEPARATOR)
    } else {
        glued(names, SEPARATOR)
    }
}

/// The normal form of a path: no `.`, no `..`, single separators between names.
pub open spec fn normalized(path: Seq<u8>) -> Seq<u8> {
    path_of_names(is_rooted(path), settled(components(path)))
}

fn part_eq(a: &PathPart, b: &PathPart) -> (same: bool)
    ensures
        same == (a@ == b@),
{
    match (a, b) {
        (PathPart::Root, PathPart::Root) => true,
        (PathPart::Current, PathPart::Current) => true,
        (PathPart::Parent, PathPart::Parent) => true,
        (PathPart::Normal(x), PathPart::Normal(y)) => bytes_eq(x.as_slice(), y.as_slice()),
        _ => false,
    }
}

/// The index behind the last solid piece among the first `count`, or 0.
fn behind_last_solid(parts: &Vec<Vec<u8>>, count: usize) -> (behind: usize)
    requires
        count <= parts@.len(),
    ensures
        behind == last_solid(vec_views(parts@).take(count as int)) + 1,
        behind <= count,
        behind > 0 ==> is_solid(parts@[behind - 1]@),
    decreases count,
{
    if count == 0 {
        0
    } else {
        proof {
            assert(vec_views(parts@).take(count as int).drop_last() =~= vec_views(parts@).take(
                count - 1,
            ));
        }
        if piece_is_solid(&parts[count - 1]) {
            count
        } else {
            behind_last_solid(parts, count - 1)
        }
    }
}

/// The last solid piece gives the last component.
pub proof fn lemma_last_solid(parts: Seq<Seq<u8>>)
    ensures
        -1 <= last_solid(parts) < parts.len(),
        last_solid(parts) < 0 <==> solid_components(parts).len() == 0,
        last_solid(parts) >= 0 ==> {
            &&& is_solid(parts[last_solid(parts)])
            &&& solid_components(parts) == solid_components(parts.take(last_solid(parts))).push(
                solid_component(parts[last_solid(parts)]),
            )
        },
        last_solid(parts) < 0 ==> forall|i: int|
            0 <= i < parts.len() ==> !is_solid(#[trigger] parts[i]),
    decreases parts.len(),
{
    if parts.len() > 0 {
        if is_solid(parts.last()) {
            assert(parts.take(parts.len() - 1) =~= parts.drop_last());
        } else {
            lemma_last_solid(parts.drop_last());
            let at = last_solid(parts.drop_last());
            if at >= 0 {
                assert(parts.drop_last().take(at) =~= parts.take(at));
            } else {
                assert forall|i: int| 0 <= i < parts.len() implies !is_solid(
                    #[trigger] parts[i],
                ) by {
                    if i < parts.len() - 1 {
                        assert(parts.drop_last()[i] == parts[i]);
                    }
                }
            }
        }
    }
}

impl OsText {
    /// The path `path`, taken from `self` where it is relative.
    pub fn join(&self, path: &OsText) -> (out: OsText)
        ensures
            out@ == joined_path(self@, path@),
    {
        if path.is_absolute() {
            return path.clone();
        }
        let mut out: Vec<u8> = slice_to_vec(self.bytes.as_slice());
        if out.len() > 0 && out[out.len() - 1] != SEPARATOR {
            out.push(SEPARATOR);
        }
        append_bytes(&mut out, path.bytes.as_slice());
        OsText { bytes: out }
    }

    /// The path without its last component.
    pub fn parent(&self) -> (out: Option<OsText>)
        ensures
            opt_bytes(out) == parent_path(self@),
    {
        let parts = split(self.bytes.as_slice(), SEPARATOR);
        let ghost all = pieces(self@, SEPARATOR);
        proof {
            assert(all.take(all.len() as int) =~= all);
            assert(all[0] == parts@[0]@);
        }
        let count: usize = parts.len();
        let last: usize = behind_last_solid(&parts, count);
        if last == 0 {
            if !self.is_absolute() && piece_is_dot(&parts[0]) {
                return Some(OsText { bytes: Vec::new() });
            }
            return None;
        }
        let before: usize = behind_last_solid(&parts, last - 1);
        if before > 0 {
            return Some(OsText { bytes: glue(&parts, before, SEPARATOR) });
        }
        let mut out: Vec<u8> = Vec::new();
        if self.is_absolute() {
            out.push(SEPARATOR);
            assert(out@ =~= seq![SEPARATOR]);
        } else if last > 1 && piece_is_dot(&parts[0]) {
            out.push(DOT);
            assert(out@ =~= seq![DOT]);
        }
        Some(OsText { bytes: out })
    }

    /// The path with its last name replaced by `name`.
    pub fn with_file_name(&self, name: &OsText) -> (out: OsText)
        ensures
            out@ == sibling_path(self@, name@),
    {
        let parts = self.parts();
        let ghost comps = components(self@);
        proof {
            lemma_last_solid(pieces(self@, SEPARATOR));
            if comps.len() > 0 {
                assert(comps.last() == parts@.last()@);
            }
        }
        let mut named = false;
        if parts.len() > 0 {
            named = match &parts[parts.len() - 1] {
                PathPart::Normal(_) => true,
                _ => false,
            };
        }
        if named {
            match self.parent() {
                Some(parent) => parent.join(name),
                None => {
                    assert(false);
                    self.join(name)
                },
            }
        } else {
            self.join(name)
        }
    }

    /// Whether the path lies at or below `base`, component by component.
    pub fn starts_with(&self, base: &OsText) -> (yes: bool)
        ensures
            yes == is_below(self@, base@),
    {
        let own = self.parts();
        let wanted = base.parts();
        if wanted.len() > own.len() {
            return false;
        }
        let ghost a = components(self@);
        let ghost b = components(base@);
        for i in 0..wanted.len()
            invariant
                wanted@.len() <= own@.len(),
                part_views(own@) == a,
                part_views(wanted@) == b,
                a == components(self@),
                b == components(base@),
                forall|j: int| 0 <= j < i ==> a[j] == b[j],
        {
            assert(a[i as int] == own@[i as int]@);
            assert(b[i as int] == wanted@[i as int]@);
            if !part_eq(&own[i], &wanted[i]) {
                proof {
                    assert(a.take(b.len() as int)[i as int] == a[i as int]);
                }
                return false;
            }
        }
        proof {
            assert(a.take(b.len() as int) =~= b);
        }
        true
    }

    /// Whether both write the same path.
    pub fn same_as(&self, other: &OsText) -> (yes: bool)
        ensures
            yes == same_path(self@, other@),
    {
        proof {
            let a = components(self@);
            let b = components(other@);
            assert(a.take(a.len() as int) =~= a);
            assert(b.take(b.len() as int) =~= b);
            if a.len() == b.len() {
                assert(a.take(b.len() as int) =~= a);
            }
        }
        self.starts_with(other) && other.starts_with(self)
    }
}

/// Brings a path into its normal form.
pub fn normalize_path(path: &OsText) -> (out: OsText)
    ensures
        out@ == normalized(path@),
{
    let parts = path.parts();
    let ghost comps = components(path@);
    let mut names: Vec<Vec<u8>> = Vec::new();
    assert(vec_views(names@) =~= settled(comps.take(0)));
    for i in 0..parts.len()
        invariant
            part_views(parts@) == comps,
            vec_views(names@) == settled(comps.take(i as int)),
    {
        let ghost before = vec_views(names@);
        proof {
            assert(comps.take(i + 1).drop_last() =~= comps.take(i as int));
            assert(comps[i as int] == parts@[i as int]@);
        }
        match &parts[i] {
            PathPart::Root => {
                names = Vec::new();
                assert(vec_views(names@) =~= Seq::<Seq<u8>>::empty());
            },
            PathPart::Current => {},
            PathPart::Parent => {
                if names.len() > 0 {
                    names.pop();
                    assert(vec_views(names@) =~= before.drop_last());
                }
            },
            PathPart::Normal(name) => {
                names.push(slice_to_vec(name.as_slice()));
                assert(vec_views(names@) =~= before.push(name@));
            },
        }
    }
    proof {
        assert(comps.take(comps.len() as int) =~= comps);
        assert(vec_views(names@).take(names@.len() as int) =~= vec_views(names@));
    }
    let mut out: Vec<u8> = Vec::new();
    if path.is_absolute() {
        out.push(SEPARATOR);
        assert(out@ =~= seq![SEPARATOR]);
    }
    let body = glue(&names, names.len(), SEPARATOR);
    let ghost lead = out@;
    append_bytes(&mut out, body.as_slice());
    proof {
        if !is_rooted(path@) {
            assert(lead + body@ =~= body@);
        }
    }
    OsText { bytes: out }
}

/// A piece between separators that holds no separator.
pub open spec fn unbroken(piece: Seq<u8>, sep: u8) -> bool {
    !piece.contains(sep)
}

/// There is at least one piece.
pub proof fn lemma_pieces_nonempty(bytes: Seq<u8>, sep: u8)
    ensures
        pieces(bytes, sep).len() > 0,
    decreases bytes.len(),
{
    if bytes.len() > 0 {
        lemma_pieces_nonempty(bytes.drop_last(), sep);
    }
}

/// Appending bytes without a separator extends the last piece.
pub proof fn lemma_pieces_extend(bytes: Seq<u8>, tail: Seq<u8>, sep: u8)
    requires
        unbroken(tail, sep),
    ensures
        pieces(bytes + tail, sep) == pieces(bytes, sep).drop_last().push(
            pieces(bytes, sep).last() + tail,
        ),
    decreases tail.len(),
{
    lemma_pieces_nonempty(bytes, sep);
    let p = pieces(bytes, sep);
    if tail.len() == 0 {
        assert(bytes + tail =~= bytes);
        assert(p.last() + tail =~= p.last());
        assert(p.drop_last().push(p.last()) =~= p);
    } else {
        let short = tail.drop_last();
        assert(unbroken(short, sep)) by {
            if short.contains(sep) {
                let i = choose|i: int| 0 <= i < short.len() && short[i] == sep;
                assert(tail[i] == sep);
            }
        }
        lemma_pieces_extend(bytes, short, sep);
        assert((bytes + tail).drop_last() =~= bytes + short);
        assert(tail.contains(tail.last()));
        assert((bytes + tail).last() == tail.last());
        let q = pieces(bytes + short, sep);
        assert(q.drop_last() =~= p.drop_last());
        assert((p.last() + short).push(tail.last()) =~= p.last() + tail);
    }
}

/// Pieces that hold no separator are found again in what they were put together
/// to.
pub proof fn law_split_undoes_glue(parts: Seq<Seq<u8>>, sep: u8)
    requires
        parts.len() > 0,
        forall|i: int| 0 <= i < parts.len() ==> unbroken(#[trigger] parts[i], sep),
    ensures
        pieces(glued(parts, sep), sep) == parts,
    decreases parts.len(),
{
    if parts.len() == 1 {
        lemma_pieces_extend(Seq::empty(), parts[0], sep);
        assert(Seq::<u8>::empty() + parts[0] =~= parts[0]);
        assert(pieces(Seq::<u8>::empty(), sep) =~= seq![Seq::<u8>::empty()]);
        assert(pieces(parts[0], sep) =~= parts);
    } else {
        let front = parts.drop_last();
        assert forall|i: int| 0 <= i < front.len() implies unbroken(#[trigger] front[i], sep) by {
            assert(front[i] == parts[i]);
        }
        law_split_undoes_glue(front, sep);
        let head = glued(front, sep);
        assert(head.push(sep).drop_last() =~= head);
        assert(unbroken(parts[parts.len() - 1], sep));
        lemma_pieces_extend(head.push(sep), parts.last(), sep);
        assert(pieces(head.push(sep), sep) == front.push(Seq::empty()));
        assert(front.push(Seq::<u8>::empty()).drop_last() =~= front);
        assert(Seq::<u8>::empty() + parts.last() =~= parts.last());
        assert(front.push(parts.last()) =~= parts);
    }
}

/// Putting the pieces together again gives back what was split, and no piece holds
/// a separator.
pub proof fn law_glue_undoes_split(bytes: Seq<u8>, sep: u8)
    ensures
        pieces(bytes, sep).len() > 0,
        glued(pieces(bytes, sep), sep) == bytes,
        forall|i: int|
            0 <= i < pieces(bytes, sep).len() ==> unbroken(#[trigger] pieces(bytes, sep)[i], sep),
    decreases bytes.len(),
{
    let p = pieces(bytes, sep);
    if bytes.len() == 0 {
        assert(bytes =~= Seq::<u8>::empty());
    } else {
        let front = bytes.drop_last();
        let q = pieces(front, sep);
        law_glue_undoes_split(front, sep);
        if bytes.last() == sep {
            assert(p.drop_last() =~= q);
            assert(p.last() =~= Seq::<u8>::empty());
            assert(glued(p, sep) =~= glued(q, sep).push(sep));
            assert(front.push(sep) =~= bytes);
            assert forall|i: int| 0 <= i < p.len() implies unbroken(#[trigger] p[i], sep) by {
                if i < q.len() {
                    assert(p[i] == q[i]);
                }
            }
        } else {
            assert(p.drop_last() =~= q.drop_last());
            assert(p.last() == q.last().push(bytes.last()));
            assert(glued(p, sep) =~= glued(q, sep).push(bytes.last()));
            assert(front.push(bytes.last()) =~= bytes);
            assert forall|i: int| 0 <= i < p.len() implies unbroken(#[trigger] p[i], sep) by {
                if i < q.len() - 1 {
                    assert(p[i] == q[i]);
                } else {
                    assert(unbroken(q[q.len() - 1], sep));
                    let old_last = q.last();
                    if p[i].contains(sep) {
                        let j = choose|j: int| 0 <= j < p[i].len() && p[i][j] == sep;
                        if j < old_last.len() {
                            assert(old_last[j] == sep);
                        }
                    }
                }
            }
        }
    }
}

/// A path is absolute exactly if its first piece is empty and not its only one.
pub proof fn lemma_rooted_pieces(path: Seq<u8>)
    ensures
        is_rooted(path) <==> pieces(path, SEPARATOR).len() > 1 && pieces(path, SEPARATOR)[0].len()
            == 0,
        path.len() == 0 <==> pieces(path, SEPARATOR) == seq![Seq::<u8>::empty()],
    decreases path.len(),
{
    lemma_pieces_nonempty(path, SEPARATOR);
    if path.len() > 0 {
        let front = path.drop_last();
        lemma_rooted_pieces(front);
        lemma_pieces_nonempty(front, SEPARATOR);
        let p = pieces(path, SEPARATOR);
        let q = pieces(front, SEPARATOR);
        if front.len() == 0 {
            assert(path[0] == path.last());
            if path.last() != SEPARATOR {
                assert(p[0].len() == 1);
            } else {
                assert(p.len() == 2);
            }
        } else {
            assert(path[0] == front[0]);
            if path.last() == SEPARATOR {
                assert(p[0] == q[0]);
                assert(p.len() > 1);
                if q.len() == 1 && q[0].len() == 0 {
                    assert(q =~= seq![Seq::<u8>::empty()]);
                }
            } else if q.len() == 1 {
                assert(p[0].len() > 0);
            } else {
                assert(p[0] == q[0]);
            }
        }
    } else {
        assert(pieces(path, SEPARATOR) =~= seq![Seq::<u8>::empty()]);
    }
}

/// Dropping what follows the last solid piece keeps the components.
proof fn lemma_solid_prefix(parts: Seq<Seq<u8>>)
    ensures
        solid_components(parts) == solid_components(parts.take(last_solid(parts) + 1)),
    decreases parts.len(),
{
    lemma_last_solid(parts);
    if parts.len() == 0 {
        assert(parts.take(0) =~= parts);
    } else if is_solid(parts.last()) {
        assert(parts.take(parts.len() as int) =~= parts);
    } else {
        lemma_solid_prefix(parts.drop_last());
        lemma_last_solid(parts.drop_last());
        let n = last_solid(parts) + 1;
        assert(parts.drop_last().take(n) =~= parts.take(n));
    }
}

/// A path has no parent exactly if it has no component or its last component is
/// the root; otherwise the parent has all components but the last.
pub proof fn law_parent_drops_the_last_component(path: Seq<u8>)
    ensures
        match parent_path(path) {
            Some(parent) => components(path).len() > 0 && components(parent) == components(
                path,
            ).drop_last(),
            None => components(path).len() == 0 || components(path).last() is Root,
        },
{
    let parts = pieces(path, SEPARATOR);
    lemma_pieces_nonempty(path, SEPARATOR);
    lemma_last_solid(parts);
    lemma_rooted_pieces(path);
    law_glue_undoes_split(path, SEPARATOR);
    let last = last_solid(parts);
    let whole = components(path);
    if last < 0 {
        assert(whole =~= leading_component(path));
        if !is_rooted(path) && is_dot(parts[0]) {
            assert(pieces(Seq::<u8>::empty(), SEPARATOR)[0].len() == 0);
            assert(solid_components(pieces(Seq::<u8>::empty(), SEPARATOR)).len() == 0) by {
                reveal_with_fuel(solid_components, 2);
            }
            assert(components(Seq::<u8>::empty()) =~= whole.drop_last());
        }
    } else {
        let head = parts.take(last);
        let rest = solid_components(head);
        assert(whole =~= (leading_component(path) + rest).push(solid_component(parts[last])));
        assert(whole.drop_last() =~= leading_component(path) + rest);
        lemma_last_solid(head);
        lemma_solid_prefix(head);
        let before = last_solid(head);
        if before >= 0 {
            let kept = parts.take(before + 1);
            assert(head.take(before + 1) =~= kept);
            assert forall|i: int| 0 <= i < kept.len() implies unbroken(
                #[trigger] kept[i],
                SEPARATOR,
            ) by {
                assert(kept[i] == parts[i]);
            }
            law_split_undoes_glue(kept, SEPARATOR);
            let parent = glued(kept, SEPARATOR);
            lemma_rooted_pieces(parent);
            assert(kept[0] == parts[0]);
            assert(head[before] == parts[before]);
            assert(components(parent) =~= whole.drop_last());
        } else {
            assert(rest =~= Seq::<Component>::empty());
            if is_rooted(path) {
                let parent = seq![SEPARATOR];
                assert(parent.drop_last() =~= Seq::<u8>::empty());
                assert(pieces(parent, SEPARATOR) =~= seq![Seq::<u8>::empty(), Seq::empty()]) by {
                    reveal_with_fuel(pieces, 2);
                }
                lemma_solid_none(pieces(parent, SEPARATOR));
                assert(components(parent) =~= whole.drop_last());
            } else if last > 0 && is_dot(parts[0]) {
                let parent = seq![DOT];
                assert(parent.drop_last() =~= Seq::<u8>::empty());
                assert(pieces(parent, SEPARATOR) =~= seq![seq![DOT]]) by {
                    reveal_with_fuel(pieces, 2);
                    assert(Seq::<u8>::empty().push(DOT) =~= seq![DOT]);
                }
                lemma_solid_none(pieces(parent, SEPARATOR));
                assert(components(parent) =~= whole.drop_last());
            } else {
                let parent = Seq::<u8>::empty();
                assert(pieces(parent, SEPARATOR) =~= seq![Seq::<u8>::empty()]);
                lemma_solid_none(pieces(parent, SEPARATOR));
                assert(components(parent) =~= whole.drop_last());
            }
        }
    }
}

/// Without a solid piece there is no component.
pub proof fn lemma_solid_none(parts: Seq<Seq<u8>>)
    requires
        forall|i: int| 0 <= i < parts.len() ==> !is_solid(#[trigger] parts[i]),
    ensures
        solid_components(parts) == Seq::<Component>::empty(),
    decreases parts.len(),
{
    if parts.len() > 0 {
        let front = parts.drop_last();
        assert forall|i: int| 0 <= i < front.len() implies !is_solid(#[trigger] front[i]) by {
            assert(front[i] == parts[i]);
        }
        assert(!is_solid(parts[parts.len() - 1]));
        lemma_solid_none(front);
    }
}

/// A plain name: not empty, neither `.` nor `..`, without a separator.
pub open spec fn is_plain_name(piece: Seq<u8>) -> bool {
    is_solid(piece) && !is_dot_dot(piece) && unbroken(piece, SEPARATOR)
}

/// A list of plain names.
pub open spec fn plain_names(names: Seq<Seq<u8>>) -> bool {
    forall|i: int| 0 <= i < names.len() ==> is_plain_name(#[trigger] names[i])
}

/// The components of a list of names.
pub open spec fn name_components(names: Seq<Seq<u8>>) -> Seq<Component> {
    names.map_values(|n: Seq<u8>| Component::Normal(n))
}

/// The components of a path hold plain names only, and the root or a `.` only at
/// the start.
pub proof fn lemma_components_shape(path: Seq<u8>)
    ensures
        forall|i: int|
            0 <= i < components(path).len() ==> match #[trigger] components(path)[i] {
                Component::Root => i == 0 && is_rooted(path),
                Component::Current => i == 0 && !is_rooted(path),
                Component::Parent => true,
                Component::Normal(name) => is_plain_name(name),
            },
        is_rooted(path) ==> components(path).len() > 0 && components(path)[0] is Root,
{
    let parts = pieces(path, SEPARATOR);
    law_glue_undoes_split(path, SEPARATOR);
    lemma_solid_shape(parts);
    let lead = leading_component(path);
    let solid = solid_components(parts);
    assert forall|i: int| 0 <= i < components(path).len() implies match #[trigger] components(
        path,
    )[i] {
        Component::Root => i == 0 && is_rooted(path),
        Component::Current => i == 0 && !is_rooted(path),
        Component::Parent => true,
        Component::Normal(name) => is_plain_name(name),
    } by {
        if i >= lead.len() {
            assert(components(path)[i] == solid[i - lead.len()]);
        }
    }
}

proof fn lemma_solid_shape(parts: Seq<Seq<u8>>)
    requires
        forall|i: int| 0 <= i < parts.len() ==> unbroken(#[trigger] parts[i], SEPARATOR),
    ensures
        forall|i: int|
            0 <= i < solid_components(parts).len() ==> match #[trigger] solid_components(
                parts,
            )[i] {
                Component::Root => false,
                Component::Current => false,
                Component::Parent => true,
                Component::Normal(name) => is_plain_name(name),
            },
    decreases parts.len(),
{
    if parts.len() > 0 {
        let front = parts.drop_last();
        assert forall|i: int| 0 <= i < front.len() implies unbroken(
            #[trigger] front[i],
            SEPARATOR,
        ) by {
            assert(front[i] == parts[i]);
        }
        assert(unbroken(parts[parts.len() - 1], SEPARATOR));
        lemma_solid_shape(front);
    }
}

proof fn lemma_settled_plain(comps: Seq<Component>)
    requires
        forall|i: int|
            0 <= i < comps.len() ==> (#[trigger] comps[i] matches Component::Normal(name)
                ==> is_plain_name(name)),
    ensures
        plain_names(settled(comps)),
    decreases comps.len(),
{
    if comps.len() > 0 {
        let front = comps.drop_last();
        assert forall|i: int| 0 <= i < front.len() implies (#[trigger] front[i] matches
            Component::Normal(name) ==> is_plain_name(name)) by {
            assert(front[i] == comps[i]);
        }
        assert(comps[comps.len() - 1] matches Component::Normal(name) ==> is_plain_name(name));
        lemma_settled_plain(front);
    }
}

/// Plain names are their own components, and settle to themselves.
pub proof fn lemma_solid_names(names: Seq<Seq<u8>>)
    requires
        plain_names(names),
    ensures
        solid_components(names) == name_components(names),
        settled(name_components(names)) == names,
    decreases names.len(),
{
    if names.len() > 0 {
        let front = names.drop_last();
        assert(plain_names(front)) by {
            assert forall|i: int| 0 <= i < front.len() implies is_plain_name(
                #[trigger] front[i],
            ) by {
                assert(front[i] == names[i]);
            }
        }
        assert(is_plain_name(names[names.len() - 1]));
        lemma_solid_names(front);
        assert(name_components(names).drop_last() =~= name_components(front));
        assert(solid_components(names) =~= name_components(names));
        assert(front.push(names.last()) =~= names);
    } else {
        assert(solid_components(names) =~= name_components(names));
        assert(settled(name_components(names)) =~= names);
    }
}

proof fn lemma_glue_prepend(first: Seq<u8>, names: Seq<Seq<u8>>, sep: u8)
    requires
        names.len() > 0,
    ensures
        glued(seq![first] + names, sep) == first.push(sep) + glued(names, sep),
    decreases names.len(),
{
    let all = seq![first] + names;
    assert(all.last() == names.last());
    if names.len() == 1 {
        assert(all.drop_last() =~= seq![first]);
        assert(glued(all.drop_last(), sep) == first);
        assert(glued(all, sep) =~= first.push(sep) + glued(names, sep));
    } else {
        assert(all.drop_last() =~= seq![first] + names.drop_last());
        lemma_glue_prepend(first, names.drop_last(), sep);
        assert(glued(all, sep) =~= first.push(sep) + glued(names, sep));
    }
}

/// The components of a path made from plain names are those names, after the root
/// where the path is absolute.
pub proof fn law_path_of_names_has_those_names(rooted: bool, names: Seq<Seq<u8>>)
    requires
        plain_names(names),
    ensures
        is_rooted(path_of_names(rooted, names)) == rooted,
        components(path_of_names(rooted, names)) == (if rooted {
            seq![Component::Root]
        } else {
            Seq::empty()
        }) + name_components(names),
{
    lemma_solid_names(names);
    let path = path_of_names(rooted, names);
    assert forall|i: int| 0 <= i < names.len() implies unbroken(#[trigger] names[i], SEPARATOR) by {
        assert(is_plain_name(names[i]));
    }
    if names.len() == 0 {
        assert(name_components(names) =~= Seq::<Component>::empty());
        if rooted {
            assert(path =~= seq![SEPARATOR]);
            assert(path.drop_last() =~= Seq::<u8>::empty());
            assert(pieces(path, SEPARATOR) =~= seq![Seq::<u8>::empty(), Seq::empty()]) by {
                reveal_with_fuel(pieces, 2);
            }
        } else {
            assert(path =~= Seq::<u8>::empty());
            assert(pieces(path, SEPARATOR) =~= seq![Seq::<u8>::empty()]);
        }
        lemma_solid_none(pieces(path, SEPARATOR));
        assert(components(path) =~= leading_component(path));
    } else if rooted {
        let all = seq![Seq::<u8>::empty()] + names;
        lemma_glue_prepend(Seq::empty(), names, SEPARATOR);
        assert(Seq::<u8>::empty().push(SEPARATOR) =~= seq![SEPARATOR]);
        assert(path =~= glued(all, SEPARATOR));
        assert forall|i: int| 0 <= i < all.len() implies unbroken(#[trigger] all[i], SEPARATOR) by {
            if i > 0 {
                assert(all[i] == names[i - 1]);
            }
        }
        law_split_undoes_glue(all, SEPARATOR);
        lemma_solid_skip_first(all);
        assert(all.drop_first() =~= names);
        assert(components(path) =~= seq![Component::Root] + name_components(names));
    } else {
        law_split_undoes_glue(names, SEPARATOR);
        lemma_rooted_pieces(path);
        assert(is_plain_name(names[0]));
        assert(components(path) =~= Seq::<Component>::empty() + name_components(names));
    }
}

proof fn lemma_solid_skip_first(parts: Seq<Seq<u8>>)
    requires
        parts.len() > 0,
        !is_solid(parts[0]),
    ensures
        solid_components(parts) == solid_components(parts.drop_first()),
    decreases parts.len(),
{
    if parts.len() == 1 {
        assert(parts.drop_first() =~= Seq::<Seq<u8>>::empty());
        assert(parts.drop_last() =~= Seq::<Seq<u8>>::empty());
    } else {
        lemma_solid_skip_first(parts.drop_last());
        assert(parts.drop_last().drop_first() =~= parts.drop_first().drop_last());
        assert(parts.drop_first().last() == parts.last());
    }
}

/// A normal form is absolute exactly if the path is, and after the root it has
/// plain names only: no `.` and no `..`.
pub proof fn law_normal_form_is_plain(path: Seq<u8>)
    ensures
        is_rooted(normalized(path)) == is_rooted(path),
        plain_names(settled(components(path))),
        components(normalized(path)) == (if is_rooted(path) {
            seq![Component::Root]
        } else {
            Seq::empty()
        }) + name_components(settled(components(path))),
{
    lemma_components_shape(path);
    lemma_settled_plain(components(path));
    law_path_of_names_has_those_names(is_rooted(path), settled(components(path)));
}

/// The root takes no part in settling names.
pub proof fn lemma_settled_after_root(names: Seq<Seq<u8>>)
    ensures
        settled(seq![Component::Root] + name_components(names)) == settled(
            name_components(names),
        ),
    decreases names.len(),
{
    let all = seq![Component::Root] + name_components(names);
    if names.len() == 0 {
        assert(name_components(names) =~= Seq::<Component>::empty());
        assert(all.last() is Root);
    } else {
        lemma_settled_after_root(names.drop_last());
        assert(name_components(names).drop_last() =~= name_components(names.drop_last()));
        assert(all.drop_last() =~= seq![Component::Root] + name_components(names.drop_last()));
        assert(all.last() == name_components(names).last());
    }
}

/// Normalizing a normal form changes nothing.
pub proof fn law_normalize_is_idempotent(path: Seq<u8>)
    ensures
        normalized(normalized(path)) == normalized(path),
{
    law_normal_form_is_plain(path);
    let names = settled(components(path));
    lemma_solid_names(names);
    lemma_settled_after_root(names);
    assert(Seq::<Component>::empty() + name_components(names) =~= name_components(names));
}

/// What is joined to an absolute path is absolute.
pub proof fn law_join_keeps_the_root(base: Seq<u8>, path: Seq<u8>)
    requires
        is_rooted(base),
    ensures
        is_rooted(joined_path(base, path)),
{
}

} // verus!
