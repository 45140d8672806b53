use pointer_physics::geometry::Vec2;
use pointer_physics::interaction::BodyRef;
use pointer_physics::palette::{palette_entry, Color, Palette, PALETTE_SIZE};
use pointer_physics::scene::{scene_layout, shape_outline, BodyShape, DrawCommand, PhysicsObject, Shape};

#[test]
fn palette_draws_stay_in_palette_and_vary() {
    let mut palette = Palette::new(19);
    let all: Vec<Color> = (0..PALETTE_SIZE).map(palette_entry).collect();
    let mut seen = Vec::new();
    for _ in 0..64 {
        let c = palette.next_color();
        assert!(all.contains(&c));
        if !seen.contains(&c) {
            seen.push(c);
        }
    }
    assert!(seen.len() > 1);
    assert_eq!(palette_entry(1), Color { r: 240, g: 64, b: 23 });
}

#[test]
fn same_seed_same_colors() {
    let mut a = Palette::new(7);
    let mut b = Palette::new(7);
    for _ in 0..10 {
        assert_eq!(a.next_color(), b.next_color());
    }
}

#[test]
fn explicit_color_does_not_advance_generator() {
    let mut a = Palette::new(19);
    let mut b = Palette::new(19);
    let floor = Color { r: 222, g: 175, b: 166 };
    assert_eq!(a.color_or_next(Some(floor)), floor);
    assert_eq!(a.color_or_next(None), b.next_color());
    let obj = PhysicsObject { body: BodyRef { index: 0, generation: 1 }, color: floor };
    assert_eq!(obj.color, floor);
}

#[test]
fn outlines_of_each_shape() {
    assert_eq!(
        shape_outline(&Shape::Ball { radius: 7 }),
        Some(vec![DrawCommand::Circle { x: 0, y: 0, radius: 7 }])
    );
    assert_eq!(
        shape_outline(&Shape::Cuboid { half_width: 3, half_height: 2 }),
        Some(vec![DrawCommand::Rect { x: -3, y: -2, width: 6, height: 4 }])
    );
    let points = vec![Vec2 { x: 0, y: 1 }, Vec2 { x: 1, y: 0 }, Vec2 { x: -1, y: 0 }];
    assert_eq!(
        shape_outline(&Shape::ConvexPolygon { points }),
        Some(vec![
            DrawCommand::BeginPath,
            DrawCommand::MoveTo { x: 0, y: 1 },
            DrawCommand::LineTo { x: 1, y: 0 },
            DrawCommand::LineTo { x: -1, y: 0 },
            DrawCommand::LineTo { x: 0, y: 1 },
            DrawCommand::Fill,
        ])
    );
    assert_eq!(shape_outline(&Shape::Unsupported), None);
}

#[test]
fn startup_scene_composition() {
    let scene = scene_layout();
    assert_eq!(scene.len(), 22);
    assert!(scene[0].kinematic);
    assert_eq!(scene[0].color, Some(Color { r: 222, g: 175, b: 166 }));
    assert_eq!(scene[0].position, Vec2 { x: 500_000_000, y: 1_500_000_000 });
    assert_eq!(scene.iter().filter(|b| b.kinematic).count(), 1);
    assert_eq!(scene[1].position, Vec2 { x: 800_000_000, y: 1_480_000_000 });
    assert_eq!(scene[9].position, Vec2 { x: 1_220_000_000, y: 1_060_000_000 });
    assert_eq!(scene[13].position, Vec2 { x: 1_800_000_000, y: 600_000_000 });
    assert_eq!(scene[14].shape, BodyShape::RegularPolygon { sides: 3, size: 120_000_000 });
    assert_eq!(scene[21].shape, BodyShape::Ball { radius: 100_000_000 });
    assert!(scene[1..].iter().all(|b| b.color.is_none()));
}
