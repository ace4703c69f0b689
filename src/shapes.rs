//! The render quad: four corners and two triangles that cover the render
//! target. Positions are whole numbers in clip space; the renderer turns them
//! into 32-bit floats when it uploads the mesh.
use vstd::prelude::*;

verus! {

/// One corner of the quad: its position and its texture coordinate.
#[derive(Clone, Copy, Debug)]
pub struct Vertex {
    pub position: [i32; 3],
    pub tex_coords: [u32; 2],
}

/// Vertices and triangle indices of a mesh.
pub struct ShapePoints {
    pub vertices: Vec<Vertex>,
    pub indices: Vec<u16>,
}

/// A rectangle given by its centre and its half extents.
#[derive(Clone, Copy, Debug, PartialEq, Eq, Structural)]
pub struct Rectangle {
    pub x: i32,
    pub y: i32,
    pub w: i32,
    pub h: i32,
}

/// The corners of the rectangle centred on `(x, y)` with half extents `w` and
/// `h`, in the order bottom left, bottom right, top right, top left.
pub open spec fn quad_vertices(x: int, y: int, w: int, h: int) -> Seq<(int, int, nat, nat)> {
    seq![(x - w, y - h, 0, 1), (x + w, y - h, 1, 1), (x + w, y + h, 1, 0), (x - w, y + h, 0, 0)]
}

/// The two triangles of the quad, as indices into its corners.
pub open spec fn quad_indices() -> Seq<u16> {
    seq![0, 1, 3, 1, 2, 3]
}

/// The model of a vertex: position in the plane and texture coordinate.
pub open spec fn vertex_model(v: Vertex) -> (int, int, nat, nat) {
    (v.position[0] as int, v.position[1] as int, v.tex_coords[0] as nat, v.tex_coords[1] as nat)
}

/// Twice the signed area of the triangle `a b c`; positive when it turns
/// counter-clockwise.
pub open spec fn turn(a: (int, int, nat, nat), b: (int, int, nat, nat), c: (int, int, nat, nat)) -> int {
    (b.0 - a.0) * (c.1 - a.1) - (b.1 - a.1) * (c.0 - a.0)
}

/// The mesh is the quad of `(x, y, w, h)`, in the plane `z = 0`.
pub open spec fn is_quad(p: ShapePoints, x: int, y: int, w: int, h: int) -> bool {
    &&& p.vertices@.map_values(|v: Vertex| vertex_model(v)) == quad_vertices(x, y, w, h)
    &&& forall|i: int| 0 <= i < p.vertices@.len() ==> p.vertices@[i].position[2] == 0
    &&& p.indices@ == quad_indices()
}

/// The quad that every fragment draws with: centred on the origin, with unit
/// half extents, so that it covers the whole render target.
pub open spec fn is_default_quad(p: ShapePoints) -> bool {
    is_quad(p, 0, 0, 1, 1)
}

/// The coordinates of `(x, y, w, h)` stay within `i32`.
pub open spec fn fits(x: int, y: int, w: int, h: int) -> bool {
    i32::MIN <= x - w && x + w <= i32::MAX && i32::MIN <= x + w && x - w <= i32::MAX && i32::MIN
        <= y - h && y + h <= i32::MAX && i32::MIN <= y + h && y - h <= i32::MAX
}

impl Rectangle {
    /// The mesh of the rectangle centred on `(x, y)` with half extents `w`
    /// and `h`.
    pub fn new(x: i32, y: i32, w: i32, h: i32) -> (r: ShapePoints)
        requires
            fits(x as int, y as int, w as int, h as int),
        ensures
            is_quad(r, x as int, y as int, w as int, h as int),
    {
        Rectangle::xywh_into_shape_points(Rectangle { x, y, w, h })
    }

    /// The full-target quad.
    pub fn default() -> (r: ShapePoints)
        ensures
            is_default_quad(r),
    {
        Rectangle::new(0, 0, 1, 1)
    }

    /// The four corners and two triangles of `rect`.
    pub fn xywh_into_shape_points(rect: Rectangle) -> (r: ShapePoints)
        requires
            fits(rect.x as int, rect.y as int, rect.w as int, rect.h as int),
        ensures
            is_quad(r, rect.x as int, rect.y as int, rect.w as int, rect.h as int),
    {
        let left_edge = rect.x - rect.w;
        let right_edge = rect.x + rect.w;
        let bottom_edge = rect.y - rect.h;
        let top_edge = rect.y + rect.h;
        let vertices = vec![
            Vertex { position: [left_edge, bottom_edge, 0], tex_coords: [0, 1] },
            Vertex { position: [right_edge, bottom_edge, 0], tex_coords: [1, 1] },
            Vertex { position: [right_edge, top_edge, 0], tex_coords: [1, 0] },
            Vertex { position: [left_edge, top_edge, 0], tex_coords: [0, 0] },
        ];
        let indices: Vec<u16> = vec![0, 1, 3, 1, 2, 3];
        let r = ShapePoints { vertices, indices };
        assert(r.vertices@.map_values(|v: Vertex| vertex_model(v)) =~= quad_vertices(
            rect.x as int,
            rect.y as int,
            rect.w as int,
            rect.h as int,
        ));
        assert(r.indices@ =~= quad_indices());
        r
    }
}

/// A quad has four corners and six indices, which form two counter-clockwise
/// triangles whenever its extents are positive, and its texture coordinates
/// are the four corners of the unit square, whatever its position and size.
pub proof fn lemma_quad_geometry(p: ShapePoints, x: int, y: int, w: int, h: int)
    requires
        is_quad(p, x, y, w, h),
        w > 0,
        h > 0,
    ensures
        p.vertices@.len() == 4,
        p.indices@.len() == 6,
        forall|i: int| 0 <= i < 6 ==> p.indices@[i] < 4,
        ({
            let v = quad_vertices(x, y, w, h);
            &&& turn(v[0], v[1], v[3]) > 0
            &&& turn(v[1], v[2], v[3]) > 0
        }),
        forall|i: int|
            0 <= i < 4 ==> {
                let m = vertex_model(#[trigger] p.vertices@[i]);
                m.2 <= 1 && m.3 <= 1
            },
        vertex_model(p.vertices@[0]).2 != vertex_model(p.vertices@[2]).2,
        vertex_model(p.vertices@[0]).3 != vertex_model(p.vertices@[2]).3,
{
    let ms = p.vertices@.map_values(|v: Vertex| vertex_model(v));
    assert(ms.len() == 4);
    assert(ms[0] == vertex_model(p.vertices@[0]));
    assert(ms[1] == vertex_model(p.vertices@[1]));
    assert(ms[2] == vertex_model(p.vertices@[2]));
    assert(ms[3] == vertex_model(p.vertices@[3]));
    let v = quad_vertices(x, y, w, h);
    assert(turn(v[0], v[1], v[3]) == 4 * w * h) by (nonlinear_arith)
        requires
            v[0] == (x - w, y - h, 0nat, 1nat),
            v[1] == (x + w, y - h, 1nat, 1nat),
            v[3] == (x - w, y + h, 0nat, 0nat),
    ;
    assert(turn(v[1], v[2], v[3]) == 4 * w * h) by (nonlinear_arith)
        requires
            v[1] == (x + w, y - h, 1nat, 1nat),
            v[2] == (x + w, y + h, 1nat, 0nat),
            v[3] == (x - w, y + h, 0nat, 0nat),
    ;
    assert(4 * w * h > 0) by (nonlinear_arith)
        requires
            w > 0,
            h > 0,
    ;
}

} // verus!
