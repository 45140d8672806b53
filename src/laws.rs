//! Properties that hold across sequences of pointer events.
use vstd::prelude::*;
use crate::interaction::{
    BodyCommand, BodyKind, BodyRef, Hit, Model, PointerEntry, PointerState, down_commands, lemma_update_pointer_wf,
    grabs, moved, not_of, pressed, released, spec_player_left, spec_pointer_up, hit_in_world, spec_pointer_down, spec_pointer_move, tick_command, tick_commands, up_commands,
    with_pointer, FREE_GRAVITY_SCALE, HELD_GRAVITY_SCALE,
};

verus! {

/// The last gravity scale that a command list gives a body, if any.
pub open spec fn gravity_scale_set(cmds: Seq<BodyCommand>, b: BodyRef) -> Option<i64>
    decreases cmds.len(),
{
    if cmds.len() == 0 {
        None
    } else {
        match cmds.last() {
            BodyCommand::SetGravityScale { body, scale } => if body == b {
                Some(scale)
            } else {
                gravity_scale_set(cmds.drop_last(), b)
            },
            _ => gravity_scale_set(cmds.drop_last(), b),
        }
    }
}

/// The model after a pointer has moved through the given screen positions.
pub open spec fn after_moves(m: Model, player: u32, id: u32, moves: Seq<(i32, i32)>) -> Model
    decreases moves.len(),
{
    if moves.len() == 0 {
        m
    } else {
        let last = moves.last();
        spec_pointer_move(after_moves(m, player, id, moves.drop_last()), player, id, last.0, last.1)
    }
}

proof fn lemma_move_keeps_hold(m: Model, player: u32, id: u32, x: i32, y: i32)
    requires
        m.wf(),
        m.colors.contains_key(player),
    ensures
        spec_pointer_move(m, player, id, x, y).wf(),
        spec_pointer_move(m, player, id, x, y).colors == m.colors,
        m.held(player, id) is Some ==> spec_pointer_move(m, player, id, x, y).held(player, id)
            == m.held(player, id),
{
    let f = |st: PointerState| moved(st, crate::geometry::world_point_of(x, y));
    lemma_update_pointer_wf(m, player, id, f);
}

proof fn lemma_moves_keep_hold(m: Model, player: u32, id: u32, moves: Seq<(i32, i32)>)
    requires
        m.wf(),
        m.colors.contains_key(player),
    ensures
        after_moves(m, player, id, moves).wf(),
        after_moves(m, player, id, moves).colors == m.colors,
        m.held(player, id) is Some ==> after_moves(m, player, id, moves).held(player, id) == m.held(
            player,
            id,
        ),
    decreases moves.len(),
{
    if moves.len() > 0 {
        lemma_moves_keep_hold(m, player, id, moves.drop_last());
        let last = moves.last();
        lemma_move_keeps_hold(after_moves(m, player, id, moves.drop_last()), player, id, last.0, last.1);
    }
}

proof fn lemma_ticks_leave_gravity(ps: Seq<PointerEntry>, b: BodyRef)
    ensures
        gravity_scale_set(tick_commands(ps), b) is None,
    decreases ps.len(),
{
    if ps.len() > 0 {
        lemma_ticks_leave_gravity(ps.drop_last(), b);
        let prefix = tick_commands(ps.drop_last());
        let t = tick_command(ps.last());
        if t.len() > 0 {
            assert((prefix + t).drop_last() =~= prefix);
        } else {
            assert(prefix + t =~= prefix);
        }
    }
}

/// A grab by a connected player's pointer suspends the body's gravity; the
/// hold lasts through any number of moves, during which neither the moves
/// nor the fixed ticks touch the gravity scale; the release restores it.
pub proof fn lemma_hold_suspends_gravity(
    m: Model,
    player: u32,
    id: u32,
    x: i32,
    y: i32,
    hit: Hit,
    moves: Seq<(i32, i32)>,
    is_mouse: bool,
)
    requires
        m.wf(),
        m.colors.contains_key(player),
        hit.kind == BodyKind::Dynamic,
        hit.is_inside,
        hit.body_position.in_world(),
    ensures
        gravity_scale_set(down_commands(m, player, Some(hit)), hit.body) == Some(
            HELD_GRAVITY_SCALE,
        ),
        forall|k: int|
            0 <= k <= moves.len() ==> #[trigger] after_moves(
                spec_pointer_down(m, player, id, x, y, Some(hit)),
                player,
                id,
                moves.take(k),
            ).held(player, id) == Some(hit.body),
        forall|ps: Seq<PointerEntry>| #[trigger] gravity_scale_set(tick_commands(ps), hit.body) is None,
        gravity_scale_set(
            up_commands(
                after_moves(spec_pointer_down(m, player, id, x, y, Some(hit)), player, id, moves),
                player,
                id,
            ),
            hit.body,
        ) == Some(FREE_GRAVITY_SCALE),
{
    let p = crate::geometry::world_point_of(x, y);
    let f = |st: PointerState| pressed(st, p, Some(hit));
    lemma_update_pointer_wf(m, player, id, f);
    let m1 = spec_pointer_down(m, player, id, x, y, Some(hit));
    assert(m1.held(player, id) == Some(hit.body));
    let cmds = down_commands(m, player, Some(hit));
    assert(cmds.drop_last().drop_last() =~= seq![cmds[0]]);
    assert(gravity_scale_set(seq![cmds[0]], hit.body) == Some(HELD_GRAVITY_SCALE));
    assert(gravity_scale_set(cmds.drop_last(), hit.body) == Some(HELD_GRAVITY_SCALE));
    assert forall|k: int| 0 <= k <= moves.len() implies #[trigger] after_moves(
        m1,
        player,
        id,
        moves.take(k),
    ).held(player, id) == Some(hit.body) by {
        lemma_moves_keep_hold(m1, player, id, moves.take(k));
    }
    assert forall|ps: Seq<PointerEntry>| #[trigger]
        gravity_scale_set(tick_commands(ps), hit.body) is None by {
        lemma_ticks_leave_gravity(ps, hit.body);
    }
    lemma_moves_keep_hold(m1, player, id, moves);
    let m2 = after_moves(m1, player, id, moves);
    let up = up_commands(m2, player, id);
    assert(up.drop_last() =~= seq![up[0], up[1]]);
    assert(seq![up[0], up[1]].drop_last() =~= seq![up[0]]);
    assert(gravity_scale_set(up.drop_last(), hit.body) == Some(FREE_GRAVITY_SCALE));
}

proof fn lemma_down_without_grab(m: Model, player: u32, id: u32, x: i32, y: i32, hit: Option<Hit>)
    requires
        m.wf(),
        hit_in_world(hit),
        !grabs(hit),
    ensures
        down_commands(m, player, hit) == Seq::<BodyCommand>::empty(),
        spec_pointer_down(m, player, id, x, y, hit).held(player, id) == m.held(player, id),
        spec_pointer_down(m, player, id, x, y, hit).wf(),
{
    assert(down_commands(m, player, hit) =~= Seq::<BodyCommand>::empty());
    if m.colors.contains_key(player) {
        let p = crate::geometry::world_point_of(x, y);
        let f = |st: PointerState| pressed(st, p, hit);
        lemma_update_pointer_wf(m, player, id, f);
        let ps = with_pointer(m.pointers, player, id, m.colors[player]);
        let i = crate::interaction::pointer_index(ps, player, id);
        if crate::interaction::has_pointer(m.pointers, player, id) {
            assert(ps == m.pointers);
        } else {
            let n = m.pointers.len() as int;
            assert(crate::interaction::is_key(ps[n], player, id));
            crate::interaction::lemma_index_unique(ps, player, id, n);
            assert(ps[i].state.held_body is None);
        }
    }
}

/// A press whose point lies outside every dynamic body's shape starts no
/// hold and commands no body.
pub proof fn lemma_miss_grabs_nothing(m: Model, player: u32, id: u32, x: i32, y: i32, hit: Option<Hit>)
    requires
        m.wf(),
        hit_in_world(hit),
        hit is None || !hit->Some_0.is_inside,
    ensures
        down_commands(m, player, hit) == Seq::<BodyCommand>::empty(),
        spec_pointer_down(m, player, id, x, y, hit).held(player, id) == m.held(player, id),
{
    lemma_down_without_grab(m, player, id, x, y, hit);
}

/// A press on a kinematic body, such as the floor, starts no hold, whether
/// or not the point lies inside it.
pub proof fn lemma_kinematic_never_held(m: Model, player: u32, id: u32, x: i32, y: i32, hit: Hit)
    requires
        m.wf(),
        hit.kind == BodyKind::Kinematic,
        hit.body_position.in_world(),
    ensures
        down_commands(m, player, Some(hit)) == Seq::<BodyCommand>::empty(),
        spec_pointer_down(m, player, id, x, y, Some(hit)).held(player, id) == m.held(player, id),
{
    lemma_down_without_grab(m, player, id, x, y, Some(hit));
}

/// Once a player has left, none of its pointers remains, no fixed tick
/// drives a body for it, and its later pointer events change nothing.
pub proof fn lemma_left_player_is_gone(m: Model, player: u32)
    requires
        m.wf(),
    ensures
        forall|i: int|
            0 <= i < spec_player_left(m, player).pointers.len() ==> (#[trigger] spec_player_left(
                m,
                player,
            ).pointers[i]).player != player,
        tick_commands(spec_player_left(m, player).pointers) == tick_commands(
            m.pointers.filter(not_of(player)),
        ),
        forall|id: u32, x: i32, y: i32, hit: Option<Hit>|
            #[trigger] spec_pointer_down(spec_player_left(m, player), player, id, x, y, hit)
                == spec_player_left(m, player) && down_commands(
                spec_player_left(m, player),
                player,
                hit,
            ) == Seq::<BodyCommand>::empty(),
        forall|id: u32, x: i32, y: i32|
            #[trigger] spec_pointer_move(spec_player_left(m, player), player, id, x, y)
                == spec_player_left(m, player),
        forall|id: u32, is_mouse: bool|
            #[trigger] spec_pointer_up(spec_player_left(m, player), player, id, is_mouse)
                == spec_player_left(m, player) && up_commands(
                spec_player_left(m, player),
                player,
                id,
            ) == Seq::<BodyCommand>::empty(),
{
    let left = spec_player_left(m, player);
    assert forall|i: int| 0 <= i < left.pointers.len() implies (#[trigger] left.pointers[i]).player
        != player by {
        m.pointers.lemma_filter_pred(not_of(player), i);
    }
    assert forall|id: u32, x: i32, y: i32, hit: Option<Hit>|
        #[trigger] spec_pointer_down(left, player, id, x, y, hit) == left && down_commands(
            left,
            player,
            hit,
        ) == Seq::<BodyCommand>::empty() by {
        assert(down_commands(left, player, hit) =~= Seq::<BodyCommand>::empty());
    }
    assert forall|id: u32, is_mouse: bool|
        #[trigger] spec_pointer_up(left, player, id, is_mouse) == left && up_commands(
            left,
            player,
            id,
        ) == Seq::<BodyCommand>::empty() by {
        assert(up_commands(left, player, id) =~= Seq::<BodyCommand>::empty());
    }
}

/// A second release of a released pointer changes nothing and commands no
/// body.
pub proof fn lemma_release_twice(m: Model, player: u32, id: u32, is_mouse: bool)
    requires
        m.wf(),
    ensures
        spec_pointer_up(spec_pointer_up(m, player, id, is_mouse), player, id, is_mouse)
            == spec_pointer_up(m, player, id, is_mouse),
        up_commands(spec_pointer_up(m, player, id, is_mouse), player, id)
            == Seq::<BodyCommand>::empty(),
{
    let m1 = spec_pointer_up(m, player, id, is_mouse);
    if m.colors.contains_key(player) {
        let f = |st: PointerState| released(st, is_mouse);
        lemma_update_pointer_wf(m, player, id, f);
        lemma_update_pointer_wf(m1, player, id, f);
        let i = crate::interaction::pointer_index(m1.pointers, player, id);
        assert(with_pointer(m1.pointers, player, id, m1.colors[player]) == m1.pointers);
        assert(spec_pointer_up(m1, player, id, is_mouse).pointers =~= m1.pointers);
        assert(up_commands(m1, player, id) =~= Seq::<BodyCommand>::empty());
    } else {
        assert(up_commands(m1, player, id) =~= Seq::<BodyCommand>::empty());
    }
}

} // verus!
