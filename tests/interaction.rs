use pointer_physics::geometry::{to_screen, to_world, world_point, Vec2};
use pointer_physics::interaction::{
    BodyCommand, BodyKind, BodyRef, Hit, Interaction, PRESSED_ALPHA, PRESSED_RADIUS,
    RELEASED_ALPHA, RELEASED_RADIUS,
};
use pointer_physics::palette::{palette_entry, Palette, PALETTE_SIZE};

fn body(index: u32) -> BodyRef {
    BodyRef { index, generation: 0 }
}

fn hit_at(b: BodyRef, kind: BodyKind, x: i64, y: i64, is_inside: bool) -> Hit {
    Hit { body: b, kind, body_position: Vec2 { x, y }, is_inside }
}

fn joined(player: u32) -> (Interaction, Palette) {
    let mut palette = Palette::new(19);
    let mut it = Interaction::new();
    it.player_joined(player, &mut palette);
    (it, palette)
}

#[test]
fn grab_suspends_gravity_and_release_restores_it() {
    let (mut it, _) = joined(1);
    let b = body(3);
    let down = it.pointer_down(1, 0, 100, 200, Some(hit_at(b, BodyKind::Dynamic, 0, 0, true)));
    assert_eq!(
        down,
        vec![
            BodyCommand::SetGravityScale { body: b, scale: 0 },
            BodyCommand::SetAngularVelocity { body: b, value: 0 },
            BodyCommand::SetAngularDamping { body: b, damping: 99 },
        ]
    );
    for k in 0..5 {
        it.pointer_move(1, 0, 100 + k * 1000, 200);
        assert_eq!(it.pointer(1, 0).unwrap().held_body, Some(b));
        let tick = it.fixed_update();
        assert_eq!(tick.len(), 1);
        assert!(matches!(tick[0], BodyCommand::SetTranslation { .. }));
    }
    let up = it.pointer_up(1, 0, true);
    assert_eq!(up.len(), 3);
    assert_eq!(up[1], BodyCommand::SetGravityScale { body: b, scale: 1 });
    assert_eq!(up[2], BodyCommand::SetAngularDamping { body: b, damping: 20 });
    assert_eq!(it.pointer(1, 0).unwrap().held_body, None);
    assert!(it.fixed_update().is_empty());
}

#[test]
fn press_outside_every_body_grabs_nothing() {
    let (mut it, _) = joined(1);
    let none = it.pointer_down(1, 0, 5000, 5000, None);
    assert!(none.is_empty());
    let st = it.pointer(1, 0).unwrap();
    assert_eq!(st.held_body, None);
    assert!(st.is_pressed);
    assert!(st.should_render);
    let outside = it.pointer_down(1, 1, 5000, 5000, Some(hit_at(body(2), BodyKind::Dynamic, 0, 0, false)));
    assert!(outside.is_empty());
    assert_eq!(it.pointer(1, 1).unwrap().held_body, None);
    assert!(it.fixed_update().is_empty());
}

#[test]
fn kinematic_floor_is_never_grabbed() {
    let (mut it, _) = joined(1);
    for inside in [true, false] {
        let cmds = it.pointer_down(1, 0, 0, 0, Some(hit_at(body(0), BodyKind::Kinematic, 0, 0, inside)));
        assert!(cmds.is_empty());
        assert_eq!(it.pointer(1, 0).unwrap().held_body, None);
    }
}

#[test]
fn release_velocity_is_scaled_displacement() {
    let (mut it, _) = joined(1);
    let b = body(5);
    it.pointer_move(1, 0, 0, 0);
    it.pointer_down(1, 0, 0, 0, Some(hit_at(b, BodyKind::Dynamic, 0, 0, true)));
    // Four pixels are a hundredth of a world unit.
    it.pointer_move(1, 0, 4000, 0);
    let up = it.pointer_up(1, 0, false);
    // A hundredth of a unit per tick, times 30, is 0.3 units.
    assert_eq!(
        up[0],
        BodyCommand::SetLinearVelocity { body: b, velocity: Vec2 { x: 300_000_000, y: 0 } }
    );
}

#[test]
fn release_velocity_uses_last_two_positions() {
    let (mut it, _) = joined(2);
    let b = body(8);
    it.pointer_down(2, 4, 1000, 1000, Some(hit_at(b, BodyKind::Dynamic, 0, 0, true)));
    it.pointer_move(2, 4, 3000, 1000);
    it.pointer_move(2, 4, 2000, 3000);
    let up = it.pointer_up(2, 4, true);
    let vx = (to_world(2000) - to_world(3000)) * 30;
    let vy = (to_world(3000) - to_world(1000)) * 30;
    assert_eq!(up[0], BodyCommand::SetLinearVelocity { body: b, velocity: Vec2 { x: vx, y: vy } });
}

#[test]
fn player_left_purges_every_pointer() {
    let mut palette = Palette::new(19);
    let mut it = Interaction::new();
    it.player_joined(1, &mut palette);
    it.player_joined(2, &mut palette);
    let b = body(4);
    let c = body(6);
    it.pointer_down(1, 0, 0, 0, Some(hit_at(b, BodyKind::Dynamic, 0, 0, true)));
    it.pointer_down(1, 1, 0, 0, Some(hit_at(b, BodyKind::Dynamic, 0, 0, true)));
    it.pointer_down(2, 0, 0, 0, Some(hit_at(c, BodyKind::Dynamic, 0, 0, true)));
    assert_eq!(it.fixed_update().len(), 3);
    it.player_left(1);
    assert!(it.pointer(1, 0).is_none());
    assert!(it.pointer(1, 1).is_none());
    assert!(it.player_color(1).is_none());
    let tick = it.fixed_update();
    assert_eq!(tick, vec![BodyCommand::SetTranslation { body: c, position: Vec2 { x: 0, y: 0 } }]);
    assert!(it.pointer_down(1, 0, 0, 0, Some(hit_at(b, BodyKind::Dynamic, 0, 0, true))).is_empty());
    it.pointer_move(1, 0, 10, 10);
    assert!(it.pointer_up(1, 0, true).is_empty());
    assert!(it.pointer(1, 0).is_none());
    assert_eq!(it.fixed_update().len(), 1);
}

#[test]
fn second_release_changes_nothing() {
    let (mut it, _) = joined(1);
    let b = body(1);
    it.pointer_down(1, 0, 0, 0, Some(hit_at(b, BodyKind::Dynamic, 0, 0, true)));
    it.pointer_move(1, 0, 1000, 0);
    assert_eq!(it.pointer_up(1, 0, false).len(), 3);
    let after_first = it.pointer(1, 0).unwrap();
    assert!(it.pointer_up(1, 0, false).is_empty());
    assert_eq!(it.pointer(1, 0).unwrap(), after_first);
}

#[test]
fn unknown_player_is_ignored() {
    let mut it = Interaction::new();
    assert!(it.pointer_down(9, 0, 0, 0, Some(hit_at(body(1), BodyKind::Dynamic, 0, 0, true))).is_empty());
    it.pointer_move(9, 0, 10, 10);
    assert!(it.pointer_up(9, 0, true).is_empty());
    assert!(it.pointer(9, 0).is_none());
    assert!(it.pointer_indicators().is_empty());
}

#[test]
fn pointer_created_by_move_starts_idle_at_origin() {
    let (mut it, _) = joined(1);
    it.pointer_move(1, 3, 400, -800);
    let st = it.pointer(1, 3).unwrap();
    assert_eq!(st.previous_cursor_position, Vec2 { x: 0, y: 0 });
    assert_eq!(st.cursor_position, world_point(400, -800));
    assert!(!st.is_pressed);
    assert!(!st.should_render);
    assert_eq!(Some(st.assigned_color), it.player_color(1));
}

#[test]
fn grab_offset_keeps_body_off_centre() {
    let (mut it, _) = joined(1);
    let b = body(2);
    // Body at world (0.5, 0.5); press 40 px left of it.
    it.pointer_down(1, 0, 184_000, 200_000, Some(hit_at(b, BodyKind::Dynamic, 500_000_000, 500_000_000, true)));
    assert_eq!(it.pointer(1, 0).unwrap().grab_offset, Vec2 { x: 40_000_000, y: 0 });
    it.pointer_move(1, 0, 0, 0);
    assert_eq!(
        it.fixed_update(),
        vec![BodyCommand::SetTranslation { body: b, position: Vec2 { x: 40_000_000, y: 0 } }]
    );
}

#[test]
fn indicators_follow_press_and_pointer_kind() {
    let (mut it, _) = joined(1);
    let color = it.player_color(1).unwrap();
    it.pointer_down(1, 0, 1234, -5678, None);
    it.pointer_down(1, 1, 10, 20, None);
    let shown = it.pointer_indicators();
    assert_eq!(shown.len(), 2);
    assert_eq!((shown[0].x, shown[0].y), (1234, -5678));
    assert_eq!(shown[0].radius, PRESSED_RADIUS);
    assert_eq!(shown[0].alpha, PRESSED_ALPHA);
    assert_eq!(shown[0].color, color);
    it.pointer_up(1, 0, true);
    it.pointer_up(1, 1, false);
    let shown = it.pointer_indicators();
    assert_eq!(shown.len(), 1);
    assert_eq!(shown[0].radius, RELEASED_RADIUS);
    assert_eq!(shown[0].alpha, RELEASED_ALPHA);
    assert_eq!(PRESSED_RADIUS, 8000);
    assert_eq!(RELEASED_RADIUS, 12000);
}

#[test]
fn screen_world_round_trip() {
    for s in [0, 1, -1, 2500, -2501, 400_000, i32::MAX, i32::MIN] {
        assert_eq!(to_screen(to_world(s)), s as i64);
    }
    assert_eq!(to_world(400_000), 1_000_000_000);
    assert_eq!(to_screen(-1), -1);
    assert_eq!(to_screen(2499), 0);
    assert_eq!(to_screen(-2500), -1);
    assert_eq!(to_screen(-2501), -2);
}

#[test]
fn drag_box_from_centre_scenario() {
    let mut palette = Palette::new(19);
    let mut it = Interaction::new();
    it.player_joined(1, &mut palette);
    let expected = Palette::new(19).next_color();
    assert_eq!(it.player_color(1), Some(expected));
    assert!((0..PALETTE_SIZE).any(|i| palette_entry(i) == expected));

    // The first box of the stack sits at world (0.8, 1.48): screen (320, 592) px.
    let b = body(1);
    let centre = Vec2 { x: 800_000_000, y: 1_480_000_000 };
    let cmds = it.pointer_down(1, 0, 320_000, 592_000, Some(Hit { body: b, kind: BodyKind::Dynamic, body_position: centre, is_inside: true }));
    assert_eq!(cmds.len(), 3);
    assert_eq!(it.pointer(1, 0).unwrap().grab_offset, Vec2 { x: 0, y: 0 });
    it.pointer_move(1, 0, 340_000, 576_000);
    it.pointer_move(1, 0, 360_000, 560_000);
    let end = world_point(360_000, 560_000);
    assert_eq!(it.fixed_update(), vec![BodyCommand::SetTranslation { body: b, position: end }]);
    let up = it.pointer_up(1, 0, true);
    match up[0] {
        BodyCommand::SetLinearVelocity { body: vb, velocity } => {
            assert_eq!(vb, b);
            assert!(velocity.x > 0);
            assert!(velocity.y < 0);
        }
        _ => panic!("expected a velocity first"),
    }
}
