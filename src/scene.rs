//! The scene registry's entries and how each collider shape is drawn.
use vstd::prelude::*;
use crate::geometry::{Vec2, WORLD_LIMIT};
use crate::interaction::BodyRef;
use crate::palette::Color;

verus! {

/// A manipulable body of the scene and the color it is drawn in.
#[derive(Clone, Copy, Debug, PartialEq, Eq, Structural)]
pub struct PhysicsObject {
    pub body: BodyRef,
    pub color: Color,
}

/// A collider shape, in world steps and in the body's own frame.
pub enum Shape {
    Ball { radius: i64 },
    Cuboid { half_width: i64, half_height: i64 },
    /// The hull's points, in order.
    ConvexPolygon { points: Vec<Vec2> },
    /// A shape that the sandbox does not draw.
    Unsupported,
}

impl Shape {
    pub open spec fn wf(&self) -> bool {
        match self {
            Shape::Cuboid { half_width, half_height } => -WORLD_LIMIT <= *half_width <= WORLD_LIMIT
                && -WORLD_LIMIT <= *half_height <= WORLD_LIMIT,
            Shape::ConvexPolygon { points } => points@.len() > 0,
            _ => true,
        }
    }
}

/// A drawing primitive, in world steps.
#[derive(Clone, Copy, Debug, PartialEq, Eq, Structural)]
pub enum DrawCommand {
    Circle { x: i64, y: i64, radius: i64 },
    Rect { x: i64, y: i64, width: i64, height: i64 },
    BeginPath,
    MoveTo { x: i64, y: i64 },
    LineTo { x: i64, y: i64 },
    Fill,
}

pub open spec fn line_to(p: Vec2) -> DrawCommand {
    DrawCommand::LineTo { x: p.x, y: p.y }
}

/// The closed path of a polygon: a move to its first point, a line to each
/// further point, a line back to the first, then a fill.
pub open spec fn polygon_path(points: Seq<Vec2>) -> Seq<DrawCommand> {
    seq![DrawCommand::BeginPath, DrawCommand::MoveTo { x: points[0].x, y: points[0].y }]
        + points.subrange(1, points.len() as int).map_values(
        |p: Vec2| line_to(p),
    ) + seq![DrawCommand::LineTo { x: points[0].x, y: points[0].y }, DrawCommand::Fill]
}

/// The primitives that draw a shape, centred on the body's origin; none for
/// a shape that is not drawn.
pub open spec fn outline_of(shape: &Shape) -> Option<Seq<DrawCommand>> {
    match shape {
        Shape::Ball { radius } => Some(seq![DrawCommand::Circle { x: 0, y: 0, radius: *radius }]),
        Shape::Cuboid { half_width, half_height } => Some(
            seq![
                DrawCommand::Rect {
                    x: (-*half_width) as i64,
                    y: (-*half_height) as i64,
                    width: (2 * *half_width) as i64,
                    height: (2 * *half_height) as i64,
                },
            ],
        ),
        Shape::ConvexPolygon { points } => Some(polygon_path(points@)),
        Shape::Unsupported => None,
    }
}

pub fn shape_outline(shape: &Shape) -> (r: Option<Vec<DrawCommand>>)
    requires
        shape.wf(),
    ensures
        match r {
            Some(v) => outline_of(shape) == Some(v@),
            None => outline_of(shape) is None,
        },
{
    match shape {
        Shape::Ball { radius } => Some(vec![DrawCommand::Circle { x: 0, y: 0, radius: *radius }]),
        Shape::Cuboid { half_width, half_height } => {
            let hw = *half_width;
            let hh = *half_height;
            let rect = DrawCommand::Rect { x: -hw, y: -hh, width: 2 * hw, height: 2 * hh };
            Some(vec![rect])
        },
        Shape::ConvexPolygon { points } => {
            let first = points[0];
            let mut out: Vec<DrawCommand> = Vec::new();
            out.push(DrawCommand::BeginPath);
            out.push(DrawCommand::MoveTo { x: first.x, y: first.y });
            let mut i: usize = 1;
            while i < points.len()
                invariant
                    1 <= i <= points@.len(),
                    out@ == seq![DrawCommand::BeginPath, DrawCommand::MoveTo { x: first.x, y: first.y }]
                        + points@.subrange(1, i as int).map_values(|q: Vec2| line_to(q)),
                decreases points@.len() - i,
            {
                let p = points[i];
                proof {
                    assert(points@.subrange(1, i + 1) =~= points@.subrange(1, i as int).push(p));
                    assert(points@.subrange(1, i + 1).map_values(|q: Vec2| line_to(q)) =~= points@.subrange(
                        1,
                        i as int,
                    ).map_values(|q: Vec2| line_to(q)).push(line_to(p)));
                }
                let ghost before = out@;
                out.push(DrawCommand::LineTo { x: p.x, y: p.y });
                proof {
                    assert(out@ == before.push(line_to(p)));
                    assert(out@ =~= seq![
                        DrawCommand::BeginPath,
                        DrawCommand::MoveTo { x: first.x, y: first.y },
                    ] + points@.subrange(1, i + 1).map_values(|q: Vec2| line_to(q)));
                }
                i = i + 1;
            }
            out.push(DrawCommand::LineTo { x: first.x, y: first.y });
            out.push(DrawCommand::Fill);
            proof {
                assert(out@ =~= polygon_path(points@));
            }
            Some(out)
        },
        Shape::Unsupported => None,
    }
}

/// The shape of a body of the startup scene, in world steps.
#[derive(Clone, Copy, Debug, PartialEq, Eq, Structural)]
pub enum BodyShape {
    Ball { radius: i64 },
    Box { half_width: i64, half_height: i64 },
    /// A regular polygon: `sides` corners at distance `size` from the centre.
    RegularPolygon { sides: u8, size: i64 },
}

/// A body of the startup scene: where it starts, its shape, whether it is
/// kinematic, and its color when fixed (else one is drawn from the palette).
#[derive(Clone, Copy, Debug, PartialEq, Eq, Structural)]
pub struct BodySpec {
    pub position: Vec2,
    pub shape: BodyShape,
    pub kinematic: bool,
    pub color: Option<Color>,
}

/// Number of bodies in the startup scene.
pub const SCENE_SIZE: u32 = 22;


/// The startup scene, by index: the kinematic floor; a three-by-three stack
/// of boxes; four planks; five triangles; three balls.
pub open spec fn scene_entry(k: int) -> BodySpec {
    if k == 0 {
        BodySpec {
            position: Vec2 { x: 500_000_000, y: 1_500_000_000 },
            shape: BodyShape::Box { half_width: 4_000_000_000, half_height: 20_000_000 },
            kinematic: true,
            color: Some(Color { r: 222, g: 175, b: 166 }),
        }
    } else if k < 10 {
        let i = (k - 1) / 3;
        let j = (k - 1) % 3;
        BodySpec {
            position: Vec2 {
                x: (800_000_000 + i * 210_000_000) as i64,
                y: (1_480_000_000 - j * 210_000_000) as i64,
            },
            shape: BodyShape::Box { half_width: 100_000_000, half_height: 100_000_000 },
            kinematic: false,
            color: None,
        }
    } else if k < 14 {
        BodySpec {
            position: Vec2 { x: 1_800_000_000, y: ((k - 10) * 200_000_000) as i64 },
            shape: BodyShape::Box { half_width: 300_000_000, half_height: 50_000_000 },
            kinematic: false,
            color: None,
        }
    } else if k < 19 {
        BodySpec {
            position: Vec2 { x: 2_000_000_000, y: 500_000_000 },
            shape: BodyShape::RegularPolygon { sides: 3, size: 120_000_000 },
            kinematic: false,
            color: None,
        }
    } else {
        BodySpec {
            position: Vec2 { x: 400_000_000, y: 500_000_000 },
            shape: BodyShape::Ball { radius: 100_000_000 },
            kinematic: false,
            color: None,
        }
    }
}

fn scene_body(k: u32) -> (r: BodySpec)
    requires
        k < SCENE_SIZE,
    ensures
        r == scene_entry(k as int),
{
    if k == 0 {
        BodySpec {
            position: Vec2 { x: 500_000_000, y: 1_500_000_000 },
            shape: BodyShape::Box { half_width: 4_000_000_000, half_height: 20_000_000 },
            kinematic: true,
            color: Some(Color { r: 222, g: 175, b: 166 }),
        }
    } else if k < 10 {
        let i = ((k - 1) / 3) as i64;
        let j = ((k - 1) % 3) as i64;
        BodySpec {
            position: Vec2 { x: 800_000_000 + i * 210_000_000, y: 1_480_000_000 - j * 210_000_000 },
            shape: BodyShape::Box { half_width: 100_000_000, half_height: 100_000_000 },
            kinematic: false,
            color: None,
        }
    } else if k < 14 {
        BodySpec {
            position: Vec2 { x: 1_800_000_000, y: (k - 10) as i64 * 200_000_000 },
            shape: BodyShape::Box { half_width: 300_000_000, half_height: 50_000_000 },
            kinematic: false,
            color: None,
        }
    } else if k < 19 {
        BodySpec {
            position: Vec2 { x: 2_000_000_000, y: 500_000_000 },
            shape: BodyShape::RegularPolygon { sides: 3, size: 120_000_000 },
            kinematic: false,
            color: None,
        }
    } else {
        BodySpec {
            position: Vec2 { x: 400_000_000, y: 500_000_000 },
            shape: BodyShape::Ball { radius: 100_000_000 },
            kinematic: false,
            color: None,
        }
    }
}

/// The bodies of the startup scene, in the order in which they are created.
pub fn scene_layout() -> (r: Vec<BodySpec>)
    ensures
        r@ == Seq::new(SCENE_SIZE as nat, |k: int| scene_entry(k)),
{
    let mut out: Vec<BodySpec> = Vec::new();
    let mut k: u32 = 0;
    while k < SCENE_SIZE
        invariant
            k <= SCENE_SIZE,
            out@ == Seq::new(k as nat, |n: int| scene_entry(n)),
        decreases SCENE_SIZE - k,
    {
        out.push(scene_body(k));
        proof {
            assert(out@ =~= Seq::new((k + 1) as nat, |n: int| scene_entry(n)));
        }
        k = k + 1;
    }
    out
}

} // verus!
