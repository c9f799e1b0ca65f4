//! A closed circuit of vertices with circular indexing and neighbor queries.

use vstd::prelude::*;
use vstd::arithmetic::div_mod::{
    lemma_fundamental_div_mod, lemma_fundamental_div_mod_converse, lemma_mod_bound,
    lemma_mod_multiples_vanish, lemma_small_mod,
};
use glam::Vec2;

verus! {

/// glam's 2D vector of single-precision coordinates. The library stores and
/// hands vertices around as opaque values; all coordinate arithmetic happens
/// inside glam.
#[verifier::external_type_specification]
#[verifier::external_body]
pub struct ExVec2(Vec2);

/// The rotational direction in which an outline's vertices are listed.
pub enum VerticesOrder {
    CounterClockwise,
    Clockwise,
}

/// Circular index resolution: the position in a ring of `n` vertices that an
/// arbitrary signed index `i` names. Spec `%` is Euclidean, so the result is
/// always in `[0, n)`, whichever sign `i` has.
pub open spec fn wrap(i: int, n: int) -> int {
    i % n
}

/// Represent closed circuit of vertices.
///
/// The circuit is closed implicitly: the vertex after the last is the first
/// and the vertex before the first is the last; no duplicate closing vertex is
/// stored. Correct geometric queries further assume the caller listed the
/// vertices so that the interior lies on the left of each edge (that is,
/// counter-clockwise for an outer boundary); this convention is not checked.
pub struct Outline {
    vertices: Vec<Vec2>,
}

impl View for Outline {
    type V = Seq<Vec2>;

    closed spec fn view(&self) -> Seq<Vec2> {
        self.vertices@
    }
}

/// The vertex order that construction stores for a given input order and tag:
/// the input itself for `CounterClockwise`, the reversed input for `Clockwise`.
pub open spec fn stored_order(vertices: Seq<Vec2>, order: VerticesOrder) -> Seq<Vec2> {
    match order {
        VerticesOrder::CounterClockwise => vertices,
        VerticesOrder::Clockwise => vertices.reverse(),
    }
}

impl Outline {
    /// The vertex that circular index `i` resolves to.
    pub open spec fn vertex(self, i: int) -> Vec2 {
        self@[wrap(i, self@.len() as int)]
    }

    /// Creates a new outline from `vertices`, listed in the direction `order`.
    ///
    /// A clockwise input is reversed before storing, so every outline built
    /// here lists its vertices counter-clockwise — walking from each vertex to
    /// the next keeps the interior on the left — whichever direction the
    /// caller supplied.
    pub fn new(vertices: Vec<Vec2>, order: VerticesOrder) -> (outline: Self)
        ensures
            outline@ == stored_order(vertices@, order),
    {
        match order {
            VerticesOrder::CounterClockwise => Outline { vertices },
            VerticesOrder::Clockwise => {
                let mut remaining = vertices;
                let mut reversed: Vec<Vec2> = Vec::new();
                let ghost input = remaining@;
                while remaining.len() > 0
                    invariant
                        remaining@ == input.subrange(0, remaining@.len() as int),
                        reversed@.len() + remaining@.len() == input.len(),
                        forall|k: int| 0 <= k < reversed@.len()
                            ==> reversed@[k] == input[input.len() - 1 - k],
                    decreases remaining@.len(),
                {
                    let vertex = remaining.pop().unwrap();
                    reversed.push(vertex);
                }
                proof {
                    assert(reversed@ =~= input.reverse());
                }
                Outline { vertices: reversed }
            },
        }
    }

    /// Tuple of (`i-1`, `i`, `i+1`) vertices;
    /// * `i` - index of vertex. May be negative;
    pub fn prev_that_next(&self, i: isize) -> (triple: (Vec2, Vec2, Vec2))
        requires
            self@.len() > 0,
        ensures
            triple.0 == self.vertex(i - 1),
            triple.1 == self.vertex(i as int),
            triple.2 == self.vertex(i + 1),
    {
        let n = self.vertices.len();
        let k = wrap_index(i, n);
        let before = if k == 0 { n - 1 } else { k - 1 };
        let after = if k == n - 1 { 0 } else { k + 1 };
        proof {
            lemma_wrap_adjacent(i as int, n as int);
        }
        (self.vertices[before], self.vertices[k], self.vertices[after])
    }

    /// The pair of neighbor vectors at vertex `i`: the vector from the vertex
    /// toward its predecessor and the vector from it toward its successor.
    pub open spec fn neighbor_vectors(self, i: int) -> (Vec2, Vec2) {
        (sub_of(self.vertex(i - 1), self.vertex(i)), sub_of(self.vertex(i + 1), self.vertex(i)))
    }

    /// Tuple of vectors to previous and to next vertex for `i`-th vertex;
    /// * `i` - index of vertex. May be negative;
    pub fn to_neighbors(&self, i: isize) -> (vectors: (Vec2, Vec2))
        requires
            self@.len() > 0,
        ensures
            vectors == self.neighbor_vectors(i as int),
    {
        let (prev, that, next) = self.prev_that_next(i);
        (vec2_sub(prev, that), vec2_sub(next, that))
    }

    /// Number of stored vertices.
    pub fn len(&self) -> (n: usize)
        ensures
            n == self@.len(),
    {
        self.vertices.len()
    }

    /// The vertex at circular index `i`.
    /// * `i` - index of vertex. May be negative or beyond the length: every
    ///   integer resolves to exactly one stored vertex.
    pub fn at(&self, i: isize) -> (vertex: Vec2)
        requires
            self@.len() > 0,
        ensures
            vertex == self.vertex(i as int),
    {
        let k = wrap_index(i, self.vertices.len());
        self.vertices[k]
    }
}

/// The componentwise difference `a - b` of two vectors, as glam computes it on
/// their single-precision coordinates: a function of the two operands alone.
pub uninterp spec fn sub_of(a: Vec2, b: Vec2) -> Vec2;

/// Relies on glam's `Sub` for `Vec2`: `a - b` is the componentwise difference
/// of the coordinates, determined by the two operands alone.
#[verifier::external_body]
fn vec2_sub(a: Vec2, b: Vec2) -> (r: Vec2)
    ensures
        r == sub_of(a, b),
{
    a - b
}

/// Floor-modulo of a signed index by a positive length, computed with unsigned
/// remainders only: for a negative index `i`, `wrap(i, n) == n - 1 - ((-i - 1) % n)`.
fn wrap_index(i: isize, n: usize) -> (k: usize)
    requires
        n > 0,
    ensures
        k == wrap(i as int, n as int),
{
    if i >= 0 {
        (i as usize) % n
    } else {
        let j = (-(i + 1)) as usize;
        let m = j % n;
        proof {
            lemma_wrap_negative(i as int, n as int);
        }
        n - 1 - m
    }
}

/// For a negative index, floor-modulo is the length minus one, minus the
/// unsigned remainder of the index's one's complement.
proof fn lemma_wrap_negative(i: int, n: int)
    requires
        n > 0,
        i < 0,
    ensures
        0 <= (-i - 1) % n < n,
        wrap(i, n) == n - 1 - ((-i - 1) % n),
{
    let j = -i - 1;
    lemma_mod_bound(j, n);
    lemma_fundamental_div_mod(j, n);
    let q = j / n;
    let r = j % n;
    assert(i == (-q - 1) * n + (n - 1 - r)) by (nonlinear_arith)
        requires
            i == -j - 1,
            j == n * q + r,
    ;
    lemma_fundamental_div_mod_converse(i, n, -q - 1, n - 1 - r);
}

/// Stepping a circular index one back or one forward steps the resolved
/// position one back or one forward on the ring, wrapping at its ends.
proof fn lemma_wrap_adjacent(i: int, n: int)
    requires
        n > 0,
    ensures
        0 <= wrap(i, n) < n,
        wrap(i - 1, n) == if wrap(i, n) == 0 { n - 1 } else { wrap(i, n) - 1 },
        wrap(i + 1, n) == if wrap(i, n) == n - 1 { 0 } else { wrap(i, n) + 1 },
{
    lemma_mod_bound(i, n);
    lemma_fundamental_div_mod(i, n);
    let q = i / n;
    let k = i % n;
    if k == 0 {
        assert(i - 1 == (q - 1) * n + (n - 1)) by (nonlinear_arith)
            requires
                i == n * q + k,
                k == 0,
        ;
        lemma_fundamental_div_mod_converse(i - 1, n, q - 1, n - 1);
    } else {
        assert(i - 1 == q * n + (k - 1)) by (nonlinear_arith)
            requires
                i == n * q + k,
        ;
        lemma_fundamental_div_mod_converse(i - 1, n, q, k - 1);
    }
    if k == n - 1 {
        assert(i + 1 == (q + 1) * n + 0) by (nonlinear_arith)
            requires
                i == n * q + k,
                k == n - 1,
        ;
        lemma_fundamental_div_mod_converse(i + 1, n, q + 1, 0);
    } else {
        assert(i + 1 == q * n + (k + 1)) by (nonlinear_arith)
            requires
                i == n * q + k,
        ;
        lemma_fundamental_div_mod_converse(i + 1, n, q, k + 1);
    }
}

/// Circular indexing is periodic: shifting any index by the outline's length,
/// in either direction, resolves to the same vertex, and an index resolves to
/// the same vertex as its own floor-modulo residue.
pub proof fn lemma_vertex_periodic(outline: Outline, i: int)
    requires
        outline@.len() > 0,
    ensures
        outline.vertex(i + outline@.len()) == outline.vertex(i),
        outline.vertex(i - outline@.len()) == outline.vertex(i),
        outline.vertex(wrap(i, outline@.len() as int)) == outline.vertex(i),
{
    let n = outline@.len() as int;
    lemma_mod_bound(i, n);
    lemma_mod_multiples_vanish(1, i, n);
    lemma_mod_multiples_vanish(-1, i, n);
    assert(i + n == n * 1 + i);
    assert(i - n == n * -1 + i);
    lemma_small_mod((i % n) as nat, n as nat);
}

/// Winding normalization: building an outline counter-clockwise from a
/// sequence stores the same vertex order as building it clockwise from the
/// reversed sequence.
pub proof fn lemma_winding_normalization(vertices: Seq<Vec2>)
    ensures
        stored_order(vertices, VerticesOrder::CounterClockwise)
            == stored_order(vertices.reverse(), VerticesOrder::Clockwise),
{
    assert(vertices.reverse().reverse() =~= vertices);
}

/// On a two-vertex outline, circular indices alternate between the two stored
/// positions, so the predecessor and the successor of any vertex are the same
/// point and both neighbor vectors at it are equal.
pub proof fn lemma_two_vertex_neighbors(outline: Outline, i: int)
    requires
        outline@.len() == 2,
    ensures
        wrap(i + 1, 2) == 1 - wrap(i, 2),
        outline.vertex(i - 1) == outline.vertex(i + 1),
        outline.neighbor_vectors(i).0 == outline.neighbor_vectors(i).1,
{
    lemma_wrap_adjacent(i, 2);
}

} // verus!
