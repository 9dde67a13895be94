//! Paths as sequences of components, and the order of paths: component by
//! component, as the order of `std::path::Path` on Unix.

use vstd::prelude::*;
use crate::text::{
    chars_of, chars_precede, lemma_precedes_antisymmetric, lemma_precedes_total,
    lemma_precedes_transitive, precedes,
};

verus! {

/// A component of a path.
pub enum Piece {
    /// The root directory: the path begins with a separator.
    Root,
    /// The current directory: the path begins with `.` as a whole name.
    Current,
    /// The parent directory: the name `..`.
    Parent,
    /// Any other name.
    Name(Seq<char>),
}

/// A component of a path, as a value that can be computed with.
#[derive(Debug, Clone, PartialEq, Eq)]
pub enum Component {
    Root,
    Current,
    Parent,
    Name(Vec<char>),
}

impl View for Component {
    type V = Piece;

    open spec fn view(&self) -> Piece {
        match *self {
            Component::Root => Piece::Root,
            Component::Current => Piece::Current,
            Component::Parent => Piece::Parent,
            Component::Name(name) => Piece::Name(name@),
        }
    }
}

/// The views of the components.
pub open spec fn piece_views(parts: Seq<Component>) -> Seq<Piece> {
    parts.map_values(|part: Component| part@)
}

/// The runs of characters between the separators `/` of a path. There is
/// one run more than there are separators; a run may be empty.
pub open spec fn fields(path: Seq<char>) -> Seq<Seq<char>>
    decreases path.len(),
{
    if path.len() == 0 {
        seq![Seq::empty()]
    } else if path.last() == '/' {
        fields(path.drop_last()).push(Seq::empty())
    } else {
        let before = fields(path.drop_last());
        before.drop_last().push(before.last().push(path.last()))
    }
}

/// The component that a run between separators stands for, if any: an
/// empty run and the name `.` stand for none, `..` for the parent
/// directory, any other run for itself.
pub open spec fn piece_of(field: Seq<char>) -> Option<Piece> {
    if field.len() == 0 || field == seq!['.'] {
        None
    } else if field == seq!['.', '.'] {
        Some(Piece::Parent)
    } else {
        Some(Piece::Name(field))
    }
}

/// The components that the runs stand for, in their order.
pub open spec fn named_pieces(runs: Seq<Seq<char>>) -> Seq<Piece>
    decreases runs.len(),
{
    if runs.len() == 0 {
        Seq::empty()
    } else {
        match piece_of(runs.last()) {
            Some(piece) => named_pieces(runs.drop_last()).push(piece),
            None => named_pieces(runs.drop_last()),
        }
    }
}

/// What a path begins with, before its names: the root directory where it
/// begins with a separator, the current directory where it begins with the
/// name `.`, nothing otherwise.
pub open spec fn head_pieces(path: Seq<char>) -> Seq<Piece> {
    if path.len() > 0 && path[0] == '/' {
        seq![Piece::Root]
    } else if path.len() > 0 && path[0] == '.' && (path.len() == 1 || path[1] == '/') {
        seq![Piece::Current]
    } else {
        Seq::empty()
    }
}

/// The components of a path. Repeated and trailing separators count for
/// nothing, and neither does the name `.` but at the beginning of a path
/// that does not begin at the root.
pub open spec fn pieces_of(path: Seq<char>) -> Seq<Piece> {
    head_pieces(path) + named_pieces(fields(path))
}

impl Piece {
    /// The place of the kind of component among the kinds: the root
    /// directory first, then the current directory, the parent directory,
    /// and names last.
    pub open spec fn rank(self) -> int {
        match self {
            Piece::Root => 0,
            Piece::Current => 1,
            Piece::Parent => 2,
            Piece::Name(_) => 3,
        }
    }
}

/// Whether the component `p` comes before `q` or is `q`: by kind, and
/// between two names in the order of a dictionary whose alphabet is the
/// code points.
pub open spec fn piece_precedes(p: Piece, q: Piece) -> bool {
    if p.rank() != q.rank() {
        p.rank() < q.rank()
    } else {
        match (p, q) {
            (Piece::Name(x), Piece::Name(y)) => precedes(x, y),
            _ => true,
        }
    }
}

/// Whether the components `a` come before the components `b`, or are `b`:
/// `a` is the beginning of `b`, or has the earlier component where the two
/// first differ.
pub open spec fn pieces_precede(a: Seq<Piece>, b: Seq<Piece>) -> bool
    decreases a.len(),
{
    if a.len() == 0 {
        true
    } else if b.len() == 0 {
        false
    } else if a[0] != b[0] {
        piece_precedes(a[0], b[0])
    } else {
        pieces_precede(a.drop_first(), b.drop_first())
    }
}

/// Whether the path `a` comes before the path `b`, or has the components
/// of `b`.
pub open spec fn path_precedes(a: Seq<char>, b: Seq<char>) -> bool {
    pieces_precede(pieces_of(a), pieces_of(b))
}

/// Of two components, one precedes the other.
pub proof fn lemma_piece_total(p: Piece, q: Piece)
    ensures
        piece_precedes(p, q) || piece_precedes(q, p),
{
    if let (Piece::Name(x), Piece::Name(y)) = (p, q) {
        lemma_precedes_total(x, y);
    }
}

/// Two components that precede each other are the same component.
pub proof fn lemma_piece_antisymmetric(p: Piece, q: Piece)
    requires
        piece_precedes(p, q),
        piece_precedes(q, p),
    ensures
        p == q,
{
    if let (Piece::Name(x), Piece::Name(y)) = (p, q) {
        lemma_precedes_antisymmetric(x, y);
    }
}

/// What precedes a component also precedes what that component precedes.
pub proof fn lemma_piece_transitive(p: Piece, q: Piece, r: Piece)
    requires
        piece_precedes(p, q),
        piece_precedes(q, r),
    ensures
        piece_precedes(p, r),
{
    if let (Piece::Name(x), Piece::Name(y), Piece::Name(z)) = (p, q, r) {
        lemma_precedes_transitive(x, y, z);
    }
}

/// Of two sequences of components, one precedes the other.
pub proof fn lemma_pieces_total(a: Seq<Piece>, b: Seq<Piece>)
    ensures
        pieces_precede(a, b) || pieces_precede(b, a),
    decreases a.len(),
{
    if a.len() > 0 && b.len() > 0 {
        if a[0] == b[0] {
            lemma_pieces_total(a.drop_first(), b.drop_first());
        } else {
            lemma_piece_total(a[0], b[0]);
        }
    }
}

/// What precedes a sequence of components also precedes what that sequence
/// precedes.
pub proof fn lemma_pieces_transitive(a: Seq<Piece>, b: Seq<Piece>, c: Seq<Piece>)
    requires
        pieces_precede(a, b),
        pieces_precede(b, c),
    ensures
        pieces_precede(a, c),
    decreases a.len(),
{
    if a.len() > 0 && b.len() > 0 && c.len() > 0 {
        if a[0] == b[0] && b[0] == c[0] {
            lemma_pieces_transitive(a.drop_first(), b.drop_first(), c.drop_first());
        } else if a[0] != b[0] && b[0] != c[0] {
            lemma_piece_transitive(a[0], b[0], c[0]);
            if a[0] == c[0] {
                lemma_piece_antisymmetric(a[0], b[0]);
            }
        }
    }
}

/// Whether two texts are the same, character by character.
fn chars_equal(a: &Vec<char>, b: &Vec<char>) -> (same: bool)
    ensures
        same == (a@ == b@),
{
    if a.len() != b.len() {
        return false;
    }
    let mut i: usize = 0;
    while i < a.len()
        invariant
            a.len() == b.len(),
            i <= a.len(),
            forall|k: int| 0 <= k < i ==> a@[k] == b@[k],
        decreases a.len() - i,
    {
        if a[i] != b[i] {
            return false;
        }
        i += 1;
    }
    assert(a@ =~= b@);
    true
}

/// Adds to `parts` the component that the run `field` stands for, if any.
fn push_piece(parts: &mut Vec<Component>, field: Vec<char>)
    ensures
        piece_views(final(parts)@) == (match piece_of(field@) {
            Some(piece) => piece_views(old(parts)@).push(piece),
            None => piece_views(old(parts)@),
        }),
{
    let ghost before = parts@;
    if field.len() == 0 {
    } else if field.len() == 1 && field[0] == '.' {
        assert(field@ =~= seq!['.']);
    } else if field.len() == 2 && field[0] == '.' && field[1] == '.' {
        assert(field@ =~= seq!['.', '.']);
        parts.push(Component::Parent);
        assert(piece_views(parts@) =~= piece_views(before).push(Piece::Parent));
    } else {
        assert(field@ != seq!['.']) by {
            if field@ == seq!['.'] {
                assert(seq!['.'].len() == 1 && seq!['.'][0] == '.');
            }
        }
        assert(field@ != seq!['.', '.']) by {
            if field@ == seq!['.', '.'] {
                assert(seq!['.', '.'].len() == 2 && seq!['.', '.'][0] == '.' && seq![
                    '.',
                    '.',
                ][1] == '.');
            }
        }
        let ghost name = field@;
        parts.push(Component::Name(field));
        assert(piece_views(parts@) =~= piece_views(before).push(Piece::Name(name)));
    }
}

/// The components of a path.
pub fn components_of(path: &Vec<char>) -> (parts: Vec<Component>)
    ensures
        piece_views(parts@) == pieces_of(path@),
{
    let mut parts: Vec<Component> = Vec::new();
    if path.len() > 0 && path[0] == '/' {
        parts.push(Component::Root);
    } else if path.len() > 0 && path[0] == '.' && (path.len() == 1 || path[1] == '/') {
        parts.push(Component::Current);
    }
    assert(piece_views(parts@) =~= head_pieces(path@));
    let mut field: Vec<char> = Vec::new();
    let mut i: usize = 0;
    assert(path@.subrange(0, 0) =~= Seq::<char>::empty());
    assert(fields(path@.subrange(0, 0)).drop_last() =~= Seq::<Seq<char>>::empty());
    assert(piece_views(parts@) =~= head_pieces(path@) + named_pieces(
        fields(path@.subrange(0, 0)).drop_last(),
    ));
    while i < path.len()
        invariant
            i <= path.len(),
            fields(path@.subrange(0, i as int)).len() >= 1,
            field@ == fields(path@.subrange(0, i as int)).last(),
            piece_views(parts@) == head_pieces(path@) + named_pieces(
                fields(path@.subrange(0, i as int)).drop_last(),
            ),
        decreases path.len() - i,
    {
        let c = path[i];
        let ghost upto = path@.subrange(0, i as int);
        let ghost next = path@.subrange(0, i + 1);
        assert(next.drop_last() =~= upto);
        assert(next.last() == c);
        if c == '/' {
            proof {
                let runs = fields(upto);
                assert(fields(next) == runs.push(Seq::empty()));
                assert(fields(next).drop_last() =~= runs);
                assert(runs.last() == field@);
                match piece_of(field@) {
                    Some(piece) => {
                        assert((head_pieces(path@) + named_pieces(runs.drop_last())).push(piece)
                            =~= head_pieces(path@) + named_pieces(runs));
                    },
                    None => {},
                }
            }
            push_piece(&mut parts, field);
            field = Vec::new();
        } else {
            proof {
                let runs = fields(upto);
                assert(fields(next) == runs.drop_last().push(runs.last().push(c)));
                assert(fields(next).drop_last() =~= runs.drop_last());
            }
            field.push(c);
        }
        i += 1;
    }
    assert(path@.subrange(0, i as int) =~= path@);
    proof {
        let runs = fields(path@);
        match piece_of(field@) {
            Some(piece) => {
                assert((head_pieces(path@) + named_pieces(runs.drop_last())).push(piece)
                    =~= head_pieces(path@) + named_pieces(runs));
            },
            None => {},
        }
    }
    push_piece(&mut parts, field);
    parts
}

/// Whether two components are the same.
fn same_component(p: &Component, q: &Component) -> (same: bool)
    ensures
        same == (p@ == q@),
{
    match (p, q) {
        (Component::Root, Component::Root) => true,
        (Component::Current, Component::Current) => true,
        (Component::Parent, Component::Parent) => true,
        (Component::Name(x), Component::Name(y)) => chars_equal(x, y),
        _ => false,
    }
}

/// The place of the kind of component among the kinds.
fn rank_of(p: &Component) -> (rank: u8)
    ensures
        rank == p@.rank(),
{
    match p {
        Component::Root => 0,
        Component::Current => 1,
        Component::Parent => 2,
        Component::Name(_) => 3,
    }
}

/// Whether the component `p` comes before `q` or is `q`.
fn component_precedes(p: &Component, q: &Component) -> (yes: bool)
    ensures
        yes == piece_precedes(p@, q@),
{
    match (p, q) {
        (Component::Name(x), Component::Name(y)) => chars_precede(x, y),
        _ => rank_of(p) <= rank_of(q),
    }
}

/// Whether the components `a` come before the components `b`, or are `b`.
pub fn components_precede(a: &Vec<Component>, b: &Vec<Component>) -> (yes: bool)
    ensures
        yes == pieces_precede(piece_views(a@), piece_views(b@)),
{
    let ghost pa = piece_views(a@);
    let ghost pb = piece_views(b@);
    let mut i: usize = 0;
    assert(pa.subrange(0, pa.len() as int) =~= pa);
    assert(pb.subrange(0, pb.len() as int) =~= pb);
    while i < a.len() && i < b.len()
        invariant
            i <= a.len(),
            i <= b.len(),
            pa == piece_views(a@),
            pb == piece_views(b@),
            pieces_precede(pa, pb) == pieces_precede(
                pa.subrange(i as int, pa.len() as int),
                pb.subrange(i as int, pb.len() as int),
            ),
        decreases a.len() - i,
    {
        let ghost rest_a = pa.subrange(i as int, pa.len() as int);
        let ghost rest_b = pb.subrange(i as int, pb.len() as int);
        assert(rest_a[0] == a@[i as int]@ && rest_b[0] == b@[i as int]@);
        if !same_component(&a[i], &b[i]) {
            return component_precedes(&a[i], &b[i]);
        }
        assert(rest_a.drop_first() =~= pa.subrange(i + 1, pa.len() as int));
        assert(rest_b.drop_first() =~= pb.subrange(i + 1, pb.len() as int));
        i += 1;
    }
    i == a.len()
}

/// Whether the path `a` comes before the path `b`, or has the components
/// of `b`.
pub fn str_path_precedes(a: &str, b: &str) -> (yes: bool)
    ensures
        yes == path_precedes(a@, b@),
{
    let a_parts = components_of(&chars_of(a));
    let b_parts = components_of(&chars_of(b));
    components_precede(&a_parts, &b_parts)
}

} // verus!
