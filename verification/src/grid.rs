//! The layout of one noise field: chunks, gradient vertices and pixels.

use vstd::prelude::*;

verus! {

/// One component of the vector that leads from a pixel to a corner of its
/// chunk.
///
/// The sign is kept apart from the magnitude, so that a component of no
/// length still tells on which side of the chunk the corner lies.
#[derive(Clone, Copy, Debug, PartialEq, Eq)]
pub struct Offset {
    /// Whether the component points against its axis.
    pub negative: bool,
    /// Length of the component in pixels.
    pub magnitude: usize,
}

impl View for Offset {
    type V = int;

    open spec fn view(&self) -> int {
        if self.negative {
            -(self.magnitude as int)
        } else {
            self.magnitude as int
        }
    }
}

/// One corner of the chunk around a pixel.
#[derive(Clone, Copy, Debug, PartialEq, Eq)]
pub struct Corner {
    /// Place of the corner's gradient in the order in which gradients are
    /// drawn.
    pub vertex: usize,
    /// From the pixel to the corner, along the first axis.
    pub dx: Offset,
    /// From the pixel to the corner, along the second axis.
    pub dy: Offset,
}

/// Everything about one pixel that the blend of its four corner gradients
/// needs.
#[derive(Clone, Copy, Debug, PartialEq, Eq)]
pub struct Stencil {
    /// Corner with the lower coordinate on both axes.
    pub top_left: Corner,
    /// Corner one chunk further along the first axis.
    pub top_right: Corner,
    /// Corner one chunk further along the second axis.
    pub bottom_left: Corner,
    /// Corner one chunk further along both axes.
    pub bottom_right: Corner,
    /// How far into its chunk the pixel lies along the first axis.
    pub local_x: usize,
    /// How far into its chunk the pixel lies along the second axis.
    pub local_y: usize,
}

/// Whether the extents and the number of vertices of a field with this
/// layout can be held in machine words.
///
/// The vertices are one more than the chunks along each axis; their number
/// is written multiplied out.
pub open spec fn layout_fits(chunks_x: nat, chunks_y: nat, chunk_size: nat) -> bool {
    &&& chunks_x * chunk_size <= usize::MAX
    &&& chunks_y * chunk_size <= usize::MAX
    &&& chunks_x * chunks_y + chunks_x + chunks_y + 1 <= usize::MAX
}

/// What a field description stands for.
pub struct FieldModel {
    /// Chunks along the first axis.
    pub chunks_x: nat,
    /// Chunks along the second axis.
    pub chunks_y: nat,
    /// Pixels along one side of a chunk.
    pub chunk_size: nat,
    /// Seed of the stream that the vertex gradients are drawn from.
    pub seed: u64,
}

impl FieldModel {
    /// Pixels along the first axis.
    pub open spec fn width(self) -> nat {
        self.chunks_x * self.chunk_size
    }

    /// Pixels along the second axis.
    pub open spec fn height(self) -> nat {
        self.chunks_y * self.chunk_size
    }

    /// Gradient vertices: one at every corner of every chunk, which is one
    /// more than the chunks along each axis, here multiplied out.
    pub open spec fn vertex_count(self) -> nat {
        self.chunks_x * self.chunks_y + self.chunks_x + self.chunks_y + 1
    }

    /// Whether the field's extents and its number of vertices can be held in
    /// machine words.
    pub open spec fn representable(self) -> bool {
        layout_fits(self.chunks_x, self.chunks_y, self.chunk_size)
    }

    /// Whether `(x, y)` is a pixel of the field.
    pub open spec fn contains(self, x: nat, y: nat) -> bool {
        x < self.width() && y < self.height()
    }

    /// Place of the vertex `(vx, vy)` in the order in which gradients are
    /// drawn. The first axis is the slow one: every step along it passes the
    /// vertices that one line along the second axis holds, which are one
    /// more than the chunks along that axis.
    pub open spec fn vertex_index(self, vx: nat, vy: nat) -> nat {
        vx * self.chunks_y + vx + vy
    }

    /// The corner of the chunk around `(x, y)` on the given sides.
    ///
    /// A corner on the near side lies at or before the pixel, as far back
    /// as the pixel lies into the chunk. A corner on the far side lies
    /// beyond the pixel by what is left of the chunk.
    pub open spec fn corner(self, x: nat, y: nat, far_x: bool, far_y: bool) -> Corner {
        let vx = x / self.chunk_size + if far_x { 1nat } else { 0nat };
        let vy = y / self.chunk_size + if far_y { 1nat } else { 0nat };
        let a = x % self.chunk_size;
        let b = y % self.chunk_size;
        Corner {
            vertex: self.vertex_index(vx, vy) as usize,
            dx: Offset {
                negative: !far_x,
                magnitude: (if far_x { self.chunk_size - a } else { a as int }) as usize,
            },
            dy: Offset {
                negative: !far_y,
                magnitude: (if far_y { self.chunk_size - b } else { b as int }) as usize,
            },
        }
    }

    /// The four corners around the pixel `(x, y)` and the pixel's place in
    /// its chunk.
    pub open spec fn stencil(self, x: nat, y: nat) -> Stencil {
        Stencil {
            top_left: self.corner(x, y, false, false),
            top_right: self.corner(x, y, true, false),
            bottom_left: self.corner(x, y, false, true),
            bottom_right: self.corner(x, y, true, true),
            local_x: (x % self.chunk_size) as usize,
            local_y: (y % self.chunk_size) as usize,
        }
    }

    /// The vertices form a grid with one line more than there are chunks
    /// along each axis, and they are counted line by line.
    pub proof fn lemma_vertex_grid(self, vx: nat, vy: nat)
        ensures
            self.vertex_count() == (self.chunks_x + 1) * (self.chunks_y + 1),
            self.vertex_index(vx, vy) == vx * (self.chunks_y + 1) + vy,
    {
        assert(self.chunks_x * self.chunks_y + self.chunks_x + self.chunks_y + 1 == (self.chunks_x
            + 1) * (self.chunks_y + 1)) by (nonlinear_arith);
        assert(vx * self.chunks_y + vx == vx * (self.chunks_y + 1)) by (nonlinear_arith);
    }

    /// A vertex of the field has its place among the field's gradients.
    pub proof fn lemma_vertex_index_in_range(self, vx: nat, vy: nat)
        requires
            vx <= self.chunks_x,
            vy <= self.chunks_y,
        ensures
            self.vertex_index(vx, vy) < self.vertex_count(),
    {
        assert(vx * self.chunks_y + vx + vy < self.chunks_x * self.chunks_y + self.chunks_x
            + self.chunks_y + 1) by (nonlinear_arith)
            requires
                vx <= self.chunks_x,
                vy <= self.chunks_y,
        ;
    }

    /// No two vertices of the field share a place among its gradients.
    pub proof fn lemma_vertex_index_injective(self, vx: nat, vy: nat, wx: nat, wy: nat)
        requires
            vy <= self.chunks_y,
            wy <= self.chunks_y,
            self.vertex_index(vx, vy) == self.vertex_index(wx, wy),
        ensures
            vx == wx,
            vy == wy,
    {
        let row = self.chunks_y + 1;
        self.lemma_vertex_grid(vx, vy);
        self.lemma_vertex_grid(wx, wy);
        assert(vx == wx) by (nonlinear_arith)
            requires
                vy < row,
                wy < row,
                vx * row + vy == wx * row + wy,
        ;
    }

    /// A pixel of the field lies in one of the field's chunks.
    pub proof fn lemma_pixel_in_chunk(self, x: nat, y: nat)
        requires
            self.contains(x, y),
        ensures
            self.chunk_size > 0,
            x / self.chunk_size < self.chunks_x,
            y / self.chunk_size < self.chunks_y,
            x % self.chunk_size < self.chunk_size,
            y % self.chunk_size < self.chunk_size,
    {
        let size = self.chunk_size;
        assert(size > 0) by (nonlinear_arith)
            requires
                x < self.chunks_x * size,
        ;
        assert(x / size < self.chunks_x) by (nonlinear_arith)
            requires
                x < self.chunks_x * size,
                size > 0,
        ;
        assert(y / size < self.chunks_y) by (nonlinear_arith)
            requires
                y < self.chunks_y * size,
                size > 0,
        ;
    }

    /// Around a pixel of a field that fits in machine words, every corner is
    /// a vertex of the field, and its offsets are what leads from the pixel
    /// to the place of that vertex, one chunk side for every chunk before
    /// it.
    pub proof fn lemma_corner_geometry(self, x: nat, y: nat, far_x: bool, far_y: bool)
        requires
            self.representable(),
            self.contains(x, y),
        ensures
            ({
                let corner = self.corner(x, y, far_x, far_y);
                let vx = x / self.chunk_size + if far_x { 1nat } else { 0nat };
                let vy = y / self.chunk_size + if far_y { 1nat } else { 0nat };
                &&& vx <= self.chunks_x
                &&& vy <= self.chunks_y
                &&& corner.vertex == self.vertex_index(vx, vy)
                &&& corner.vertex < self.vertex_count()
                &&& corner.dx@ == vx * self.chunk_size - x
                &&& corner.dy@ == vy * self.chunk_size - y
            }),
    {
        let size = self.chunk_size;
        let vx = x / size + if far_x { 1nat } else { 0nat };
        let vy = y / size + if far_y { 1nat } else { 0nat };
        self.lemma_pixel_in_chunk(x, y);
        self.lemma_vertex_index_in_range(vx, vy);
        assert(x == (x / size) * size + x % size && (x / size + 1) * size == (x / size) * size
            + size) by (nonlinear_arith)
            requires
                size > 0,
        ;
        assert(y == (y / size) * size + y % size && (y / size + 1) * size == (y / size) * size
            + size) by (nonlinear_arith)
            requires
                size > 0,
        ;
        assert(size <= usize::MAX) by (nonlinear_arith)
            requires
                self.chunks_x * size <= usize::MAX,
                x < self.chunks_x * size,
        ;
    }
}

/// The description of a noise field: its chunk layout and the seed of its
/// gradients.
#[derive(Clone, Copy, Debug, PartialEq, Eq)]
pub struct Perlin {
    chunks_x: usize,
    chunks_y: usize,
    chunk_size: usize,
    seed: u64,
}

impl View for Perlin {
    type V = FieldModel;

    closed spec fn view(&self) -> FieldModel {
        FieldModel {
            chunks_x: self.chunks_x as nat,
            chunks_y: self.chunks_y as nat,
            chunk_size: self.chunk_size as nat,
            seed: self.seed,
        }
    }
}

/// The field that the four numbers describe.
pub open spec fn field_of(chunks_x: usize, chunks_y: usize, chunk_size: usize, seed: u64) -> FieldModel {
    FieldModel {
        chunks_x: chunks_x as nat,
        chunks_y: chunks_y as nat,
        chunk_size: chunk_size as nat,
        seed,
    }
}

impl Perlin {
    #[verifier::type_invariant]
    spec fn inv(self) -> bool {
        self@.representable()
    }

    /// Two descriptions that stand for the same field are the same
    /// description.
    pub proof fn lemma_same_view_same_field(self, other: Perlin)
        requires
            self@ == other@,
        ensures
            self == other,
    {
    }

    /// Whether a field of this layout can be described: its extents and its
    /// number of vertices must fit in machine words.
    pub fn fits(chunks_x: usize, chunks_y: usize, chunk_size: usize) -> (ok: bool)
        ensures
            ok == layout_fits(chunks_x as nat, chunks_y as nat, chunk_size as nat),
    {
        let width: Option<usize> = chunks_x.checked_mul(chunk_size);
        let height: Option<usize> = chunks_y.checked_mul(chunk_size);
        let vertices: Option<usize> = match (chunks_x.checked_add(1), chunks_y.checked_add(1)) {
            (Some(across), Some(down)) => across.checked_mul(down),
            _ => None,
        };
        proof {
            assert(chunks_x * chunks_y + chunks_x + chunks_y + 1 == (chunks_x + 1) * (chunks_y
                + 1)) by (nonlinear_arith);
            if chunks_x + 1 > usize::MAX || chunks_y + 1 > usize::MAX {
                assert((chunks_x + 1) * (chunks_y + 1) > usize::MAX) by (nonlinear_arith)
                    requires
                        chunks_x + 1 > usize::MAX || chunks_y + 1 > usize::MAX,
                        chunks_x >= 0,
                        chunks_y >= 0,
                ;
            }
        }
        width.is_some() && height.is_some() && vertices.is_some()
    }

    /// Describes the field of `chunks_x` by `chunks_y` chunks of side
    /// `chunk_size` whose gradients come from `seed`.
    pub fn new(chunks_x: usize, chunks_y: usize, chunk_size: usize, seed: u64) -> (field: Perlin)
        requires
            layout_fits(chunks_x as nat, chunks_y as nat, chunk_size as nat),
        ensures
            field@ == field_of(chunks_x, chunks_y, chunk_size, seed),
    {
        Perlin { chunks_x, chunks_y, chunk_size, seed }
    }

    /// Pixels along the first axis.
    pub fn get_width(&self) -> (width: usize)
        ensures
            width == self@.width(),
    {
        proof {
            use_type_invariant(self);
        }
        self.chunks_x * self.chunk_size
    }

    /// Pixels along the second axis.
    pub fn get_height(&self) -> (height: usize)
        ensures
            height == self@.height(),
    {
        proof {
            use_type_invariant(self);
        }
        self.chunks_y * self.chunk_size
    }

    /// Chunks along the first axis.
    pub fn get_chunks_x(&self) -> (chunks: usize)
        ensures
            chunks == self@.chunks_x,
    {
        self.chunks_x
    }

    /// Chunks along the second axis.
    pub fn get_chunks_y(&self) -> (chunks: usize)
        ensures
            chunks == self@.chunks_y,
    {
        self.chunks_y
    }

    /// Pixels along one side of a chunk.
    pub fn get_chunk_size(&self) -> (size: usize)
        ensures
            size == self@.chunk_size,
    {
        self.chunk_size
    }

    /// Seed of the stream that the vertex gradients are drawn from.
    pub fn get_seed(&self) -> (seed: u64)
        ensures
            seed == self@.seed,
    {
        self.seed
    }

    /// Number of gradient vertices, which is the number of gradients to draw.
    pub fn get_vertex_count(&self) -> (count: usize)
        ensures
            count == self@.vertex_count(),
    {
        proof {
            use_type_invariant(self);
            assert(self.chunks_x * self.chunks_y >= 0) by (nonlinear_arith);
        }
        self.chunks_x * self.chunks_y + self.chunks_x + self.chunks_y + 1
    }

    /// The corner on the given sides of the chunk around a pixel of the
    /// field.
    fn corner(&self, x: usize, y: usize, far_x: bool, far_y: bool) -> (corner: Corner)
        requires
            self@.contains(x as nat, y as nat),
        ensures
            corner == self@.corner(x as nat, y as nat, far_x, far_y),
            corner.vertex < self@.vertex_count(),
    {
        proof {
            use_type_invariant(self);
            self@.lemma_pixel_in_chunk(x as nat, y as nat);
        }
        let a: usize = x % self.chunk_size;
        let b: usize = y % self.chunk_size;
        let vx: usize = if far_x { x / self.chunk_size + 1 } else { x / self.chunk_size };
        let vy: usize = if far_y { y / self.chunk_size + 1 } else { y / self.chunk_size };
        proof {
            self@.lemma_vertex_index_in_range(vx as nat, vy as nat);
            assert(vx * self.chunks_y >= 0) by (nonlinear_arith);
        }
        Corner {
            vertex: vx * self.chunks_y + vx + vy,
            dx: Offset { negative: !far_x, magnitude: if far_x { self.chunk_size - a } else { a } },
            dy: Offset { negative: !far_y, magnitude: if far_y { self.chunk_size - b } else { b } },
        }
    }

    /// The stencil of the pixel `(x, y)`, if the field has such a pixel.
    pub fn stencil(&self, x: usize, y: usize) -> (found: Option<Stencil>)
        ensures
            found == if self@.contains(x as nat, y as nat) {
                Some(self@.stencil(x as nat, y as nat))
            } else {
                None
            },
    {
        if x >= self.get_width() || y >= self.get_height() {
            return None;
        }
        Some(
            Stencil {
                top_left: self.corner(x, y, false, false),
                top_right: self.corner(x, y, true, false),
                bottom_left: self.corner(x, y, false, true),
                bottom_right: self.corner(x, y, true, true),
                local_x: x % self.chunk_size,
                local_y: y % self.chunk_size,
            },
        )
    }
}

} // verus!
