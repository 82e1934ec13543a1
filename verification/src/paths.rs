//! Paths as the standard library reads them: a root, a leading `.`, then
//! the named pieces between separators. Repeated separators, `.` pieces
//! and a trailing separator name no component.
use vstd::prelude::*;
use crate::security::{is_separator, plain_file_name};

verus! {

/// The pieces of `p` between separators, in order. A path without a
/// separator is one piece; an empty path is one empty piece.
pub open spec fn split_path(p: Seq<char>) -> Seq<Seq<char>>
    decreases p.len(),
{
    if p.len() == 0 {
        seq![Seq::<char>::empty()]
    } else {
        let init = split_path(p.drop_last());
        if is_separator(p.last()) {
            init.push(Seq::<char>::empty())
        } else {
            init.drop_last().push(init.last().push(p.last()))
        }
    }
}

/// Whether a piece names a component: the empty piece and `.` do not.
pub open spec fn names_component(piece: Seq<char>) -> bool {
    piece.len() > 0 && piece != seq!['.']
}

/// The pieces that name components, in order (`..` among them).
pub open spec fn named_pieces(pieces: Seq<Seq<char>>) -> Seq<Seq<char>>
    decreases pieces.len(),
{
    if pieces.len() == 0 {
        Seq::empty()
    } else {
        let rest = named_pieces(pieces.drop_last());
        if names_component(pieces.last()) {
            rest.push(pieces.last())
        } else {
            rest
        }
    }
}

/// Whether `p` starts at the root.
pub open spec fn starts_at_root(p: Seq<char>) -> bool {
    p.len() > 0 && is_separator(p[0])
}

/// Whether `p` starts with a `.` piece, which a relative path keeps as a
/// component of its own.
pub open spec fn starts_at_current(p: Seq<char>) -> bool {
    !starts_at_root(p) && p.len() > 0 && p[0] == '.' && (p.len() == 1 || is_separator(p[1]))
}

/// The components of a path: whether it has a root, whether it starts with
/// `.`, and the names of the rest.
pub struct PathShape {
    pub rooted: bool,
    pub current: bool,
    pub parts: Seq<Seq<char>>,
}

/// The components of `p`.
pub open spec fn path_shape(p: Seq<char>) -> PathShape {
    PathShape { rooted: starts_at_root(p), current: starts_at_current(p), parts: named_pieces(split_path(p)) }
}

/// The components of a path without its last named one.
pub open spec fn without_last_part(shape: PathShape) -> PathShape {
    PathShape { rooted: shape.rooted, current: shape.current, parts: shape.parts.drop_last() }
}

/// The components of a path with one more named component, `name`.
pub open spec fn with_part(shape: PathShape, name: Seq<char>) -> PathShape {
    PathShape { rooted: shape.rooted, current: shape.current, parts: shape.parts.push(name) }
}

/// Whether every platform reads `p` alike: no `\`, no `:`, and not two
/// leading separators, so no Windows prefix and only `/` as separator.
pub open spec fn portable_path(p: Seq<char>) -> bool {
    &&& forall|i: int| 0 <= i < p.len() ==> #[trigger] p[i] != '\\' && p[i] != ':'
    &&& !(p.len() >= 2 && p[0] == '/' && p[1] == '/')
}

/// Whether `name` is one plain component on every platform: not empty,
/// neither `.` nor `..`, without separator or `:`.
pub open spec fn plain_segment(name: Seq<char>) -> bool {
    &&& name.len() > 0
    &&& name != seq!['.']
    &&& name != seq!['.', '.']
    &&& forall|i: int| 0 <= i < name.len() ==> !is_separator(#[trigger] name[i]) && name[i] != ':'
}

/// Whether `p` ends in a plain file name.
pub open spec fn ends_in_plain_name(p: Seq<char>) -> bool {
    exists|start: int| #[trigger] plain_file_name(p, start)
}

/// Where the last dot of `name` is; -1 where it has none.
pub open spec fn last_dot(name: Seq<char>) -> int
    decreases name.len(),
{
    if name.len() == 0 {
        -1
    } else if name.last() == '.' {
        name.len() - 1
    } else {
        last_dot(name.drop_last())
    }
}

/// A file name without its extension: what comes before its last dot,
/// unless that dot starts the name or there is none.
pub open spec fn file_stem_of(name: Seq<char>) -> Seq<char> {
    if last_dot(name) > 0 {
        name.take(last_dot(name))
    } else {
        name
    }
}

/// The last dot of a name is in it.
pub proof fn lemma_last_dot_bounds(name: Seq<char>)
    ensures
        -1 <= last_dot(name) < name.len(),
    decreases name.len(),
{
    if name.len() > 0 {
        lemma_last_dot_bounds(name.drop_last());
    }
}

/// A path always has at least one piece.
pub proof fn lemma_split_nonempty(p: Seq<char>)
    ensures
        split_path(p).len() >= 1,
    decreases p.len(),
{
    if p.len() > 0 {
        lemma_split_nonempty(p.drop_last());
    }
}

/// Characters without a separator only lengthen the last piece.
pub proof fn lemma_split_append(x: Seq<char>, seg: Seq<char>)
    requires
        forall|i: int| 0 <= i < seg.len() ==> !is_separator(#[trigger] seg[i]),
    ensures
        split_path(x + seg) == split_path(x).drop_last().push(split_path(x).last() + seg),
    decreases seg.len(),
{
    lemma_split_nonempty(x);
    if seg.len() == 0 {
        assert(x + seg =~= x);
        assert(split_path(x).last() + seg =~= split_path(x).last());
        assert(split_path(x).drop_last().push(split_path(x).last()) =~= split_path(x));
    } else {
        let shorter = seg.drop_last();
        assert forall|i: int| 0 <= i < shorter.len() implies !is_separator(#[trigger] shorter[i]) by {
            assert(shorter[i] == seg[i]);
        }
        lemma_split_append(x, shorter);
        assert((x + seg).drop_last() =~= x + shorter);
        assert((x + seg).last() == seg.last());
        assert(!is_separator(seg[seg.len() - 1]));
        let init = split_path(x + shorter);
        assert(init.drop_last() =~= split_path(x).drop_last());
        assert(init.last() == split_path(x).last() + shorter);
        assert((split_path(x).last() + shorter).push(seg.last()) =~= split_path(x).last() + seg);
    }
}

/// A piece that names no component adds none.
pub proof fn lemma_named_pieces_push(pieces: Seq<Seq<char>>, piece: Seq<char>)
    ensures
        named_pieces(pieces.push(piece)) == if names_component(piece) {
            named_pieces(pieces).push(piece)
        } else {
            named_pieces(pieces)
        },
{
    assert(pieces.push(piece).drop_last() =~= pieces);
}

/// A path that is empty or ends in a separator has an empty last piece.
pub proof fn lemma_split_ends_empty(x: Seq<char>)
    requires
        x.len() == 0 || is_separator(x.last()),
    ensures
        split_path(x).len() >= 1,
        split_path(x).last() == Seq::<char>::empty(),
        named_pieces(split_path(x)) == named_pieces(split_path(x).drop_last()),
{
    lemma_split_nonempty(x);
    assert(split_path(x) =~= split_path(x).drop_last().push(Seq::<char>::empty()));
    lemma_named_pieces_push(split_path(x).drop_last(), Seq::<char>::empty());
}

/// The last named component of a path that ends in a plain file name is
/// that name.
pub proof fn lemma_plain_name_is_last_part(p: Seq<char>, start: int)
    requires
        plain_file_name(p, start),
    ensures
        path_shape(p).parts.len() >= 1,
        path_shape(p).parts.last() == p.skip(start),
        path_shape(p).parts.drop_last() == named_pieces(split_path(p.take(start))),
{
    let x = p.take(start);
    let name = p.skip(start);
    assert(p =~= x + name);
    assert(start == 0 || x.last() == p[start - 1]);
    lemma_split_ends_empty(x);
    assert forall|i: int| 0 <= i < name.len() implies !is_separator(#[trigger] name[i]) by {
        assert(name[i] == p[start + i]);
    }
    lemma_split_append(x, name);
    let pieces = split_path(x).drop_last();
    assert(Seq::<char>::empty() + name =~= name);
    assert(split_path(p) == pieces.push(name));
    assert(name =~= p.subrange(start, p.len() as int));
    lemma_named_pieces_push(pieces, name);
}

/// Joining a plain component to a portable path adds that component: the
/// path is taken as it is where it is empty or ends in `/`, and otherwise
/// a separator comes between.
pub proof fn lemma_join_adds_part(base: Seq<char>, name: Seq<char>, joined: Seq<char>)
    requires
        portable_path(base),
        plain_segment(name),
        (base.len() == 0 || base.last() == '/') ==> joined == base + name,
        !(base.len() == 0 || base.last() == '/') ==> joined == base.push(joined[base.len() as int]) + name
            && is_separator(joined[base.len() as int]),
    ensures
        path_shape(joined) == with_part(path_shape(base), name),
{
    assert forall|i: int| 0 <= i < name.len() implies !is_separator(#[trigger] name[i]) by {}
    assert(names_component(name));
    if base.len() == 0 || base.last() == '/' {
        lemma_split_ends_empty(base);
        lemma_split_append(base, name);
        assert(Seq::<char>::empty() + name =~= name);
        lemma_named_pieces_push(split_path(base).drop_last(), name);
        if base.len() == 0 {
            assert(joined =~= name);
            assert(!is_separator(name[0]));
            assert(name.len() == 1 ==> name =~= seq![name[0]]);
            assert(name.len() > 1 ==> !is_separator(name[1]));
        } else {
            assert(joined[0] == base[0]);
            assert(base.len() > 1 ==> joined[1] == base[1]);
            assert(base.len() == 1 ==> is_separator(base[0]));
        }
    } else {
        let c = joined[base.len() as int];
        let with_sep = base.push(c);
        assert(with_sep.drop_last() =~= base);
        assert(split_path(with_sep) == split_path(base).push(Seq::<char>::empty()));
        lemma_split_append(with_sep, name);
        assert(split_path(base).push(Seq::<char>::empty()).drop_last() =~= split_path(base));
        assert(Seq::<char>::empty() + name =~= name);
        lemma_named_pieces_push(split_path(base), name);
        assert(joined[0] == base[0]);
        assert(base.len() > 1 ==> joined[1] == base[1]);
        assert(base.len() == 1 ==> joined[1] == c);
    }
}

} // verus!
