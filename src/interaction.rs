//! The pointer interaction state machine.
//!
//! Each (player, pointer) pair has a [`PointerState`], created on its first
//! event. A pointer is idle or holds a body. Events update the states and
//! return the [`BodyCommand`]s that the caller applies to the physics world.
use vstd::prelude::*;
use std::collections::HashMap;
use crate::geometry::{Vec2, world_point, world_point_of, to_screen, screen_of, screen_reach, WORLD_LIMIT};
use crate::palette::{Color, Palette, in_palette};

verus! {

broadcast use vstd::std_specs::hash::group_hash_axioms;

/// Gravity scale of a body while it is held.
pub const HELD_GRAVITY_SCALE: i64 = 0;

/// Gravity scale of a body once it is released.
pub const FREE_GRAVITY_SCALE: i64 = 1;

/// Angular damping, in hundredths, of a body while it is held.
pub const HELD_ANGULAR_DAMPING: i64 = 99;

/// Angular damping, in hundredths, of a body once it is released.
pub const FREE_ANGULAR_DAMPING: i64 = 20;

/// Turns the cursor's displacement over one tick into a release velocity.
pub const RELEASE_VELOCITY_SCALE: i64 = 30;

/// A body of the physics world, as an arena index with its generation.
#[derive(Clone, Copy, Debug, PartialEq, Eq, Structural)]
pub struct BodyRef {
    pub index: u32,
    pub generation: u32,
}

#[derive(Clone, Copy, Debug, PartialEq, Eq, Structural)]
pub enum BodyKind {
    Dynamic,
    Kinematic,
}

/// The answer of the physics world's point query: the nearest body to the
/// point, and whether the point lies inside its shape.
#[derive(Clone, Copy, Debug, PartialEq, Eq, Structural)]
pub struct Hit {
    pub body: BodyRef,
    pub kind: BodyKind,
    pub body_position: Vec2,
    pub is_inside: bool,
}

/// An override that the caller applies to a body of the physics world.
#[derive(Clone, Copy, Debug, PartialEq, Eq, Structural)]
pub enum BodyCommand {
    SetTranslation { body: BodyRef, position: Vec2 },
    SetLinearVelocity { body: BodyRef, velocity: Vec2 },
    SetGravityScale { body: BodyRef, scale: i64 },
    SetAngularVelocity { body: BodyRef, value: i64 },
    /// Damping in hundredths.
    SetAngularDamping { body: BodyRef, damping: i64 },
}

#[derive(Clone, Copy, Debug, PartialEq, Eq, Structural)]
pub struct PointerState {
    pub held_body: Option<BodyRef>,
    pub cursor_position: Vec2,
    pub previous_cursor_position: Vec2,
    pub grab_offset: Vec2,
    pub is_pressed: bool,
    pub should_render: bool,
    pub assigned_color: Color,
}

#[derive(Clone, Copy, Debug, PartialEq, Eq, Structural)]
pub struct PointerEntry {
    pub player: u32,
    pub pointer_id: u32,
    pub state: PointerState,
}

/// Largest magnitude of a grab offset.
pub open spec fn offset_reach() -> int {
    WORLD_LIMIT + screen_reach()
}

impl PointerState {
    pub open spec fn wf(self) -> bool {
        &&& self.held_body is Some ==> self.is_pressed
        &&& self.cursor_position.within(screen_reach())
        &&& self.previous_cursor_position.within(screen_reach())
        &&& self.grab_offset.within(offset_reach())
    }
}

/// What the interaction layer knows: each connected player's color, and the
/// pointer states in the order in which they were created.
pub struct Model {
    pub colors: Map<u32, Color>,
    pub pointers: Seq<PointerEntry>,
}

pub open spec fn is_key(e: PointerEntry, player: u32, id: u32) -> bool {
    e.player == player && e.pointer_id == id
}

pub open spec fn has_pointer(ps: Seq<PointerEntry>, player: u32, id: u32) -> bool {
    exists|i: int| 0 <= i < ps.len() && is_key(#[trigger] ps[i], player, id)
}

pub open spec fn pointer_index(ps: Seq<PointerEntry>, player: u32, id: u32) -> int {
    choose|i: int| 0 <= i < ps.len() && is_key(#[trigger] ps[i], player, id)
}

pub open spec fn unique_keys(ps: Seq<PointerEntry>) -> bool {
    forall|i: int, j: int|
        0 <= i < ps.len() && 0 <= j < ps.len() && i != j ==> !is_key(
            #[trigger] ps[i],
            #[trigger] ps[j].player,
            ps[j].pointer_id,
        )
}

impl Model {
    pub open spec fn wf(self) -> bool {
        &&& unique_keys(self.pointers)
        &&& forall|i: int|
            0 <= i < self.pointers.len() ==> self.colors.contains_key(
                #[trigger] self.pointers[i].player,
            )
        &&& forall|i: int| 0 <= i < self.pointers.len() ==> (#[trigger] self.pointers[i]).state.wf()
    }

    /// The state of a pointer, where it exists.
    pub open spec fn pointer(self, player: u32, id: u32) -> Option<PointerState> {
        if has_pointer(self.pointers, player, id) {
            Some(self.pointers[pointer_index(self.pointers, player, id)].state)
        } else {
            None
        }
    }

    /// The state of a pointer, or the one it is created with.
    pub open spec fn current_or_fresh(self, player: u32, id: u32) -> PointerState {
        match self.pointer(player, id) {
            Some(st) => st,
            None => fresh_pointer(self.colors[player]),
        }
    }

    /// Every pointer but the given one is as in `other`.
    pub open spec fn others_as(self, other: Model, player: u32, id: u32) -> bool {
        forall|p: u32, q: u32|
            !(p == player && q == id) ==> #[trigger] self.pointer(p, q) == other.pointer(p, q)
    }

    /// The body that a pointer holds.
    pub open spec fn held(self, player: u32, id: u32) -> Option<BodyRef> {
        match self.pointer(player, id) {
            Some(st) => st.held_body,
            None => None,
        }
    }
}

/// A pointer state as it is created: idle, at the origin, and not shown.
pub open spec fn fresh_pointer(color: Color) -> PointerState {
    PointerState {
        held_body: None,
        cursor_position: Vec2 { x: 0, y: 0 },
        previous_cursor_position: Vec2 { x: 0, y: 0 },
        grab_offset: Vec2 { x: 0, y: 0 },
        is_pressed: false,
        should_render: false,
        assigned_color: color,
    }
}

/// The pointer list, with an entry for the pair created if it had none.
pub open spec fn with_pointer(ps: Seq<PointerEntry>, player: u32, id: u32, color: Color) -> Seq<
    PointerEntry,
> {
    if has_pointer(ps, player, id) {
        ps
    } else {
        ps.push(PointerEntry { player, pointer_id: id, state: fresh_pointer(color) })
    }
}

/// Applies `f` to the state of the pair's pointer, creating it first if needed.
pub open spec fn update_pointer(
    m: Model,
    player: u32,
    id: u32,
    f: spec_fn(PointerState) -> PointerState,
) -> Model {
    let ps = with_pointer(m.pointers, player, id, m.colors[player]);
    let i = pointer_index(ps, player, id);
    Model { pointers: ps.update(i, PointerEntry { state: f(ps[i].state), ..ps[i] }), ..m }
}

pub open spec fn moved(st: PointerState, p: Vec2) -> PointerState {
    PointerState { previous_cursor_position: st.cursor_position, cursor_position: p, ..st }
}

pub open spec fn spec_pointer_move(m: Model, player: u32, id: u32, x: i32, y: i32) -> Model {
    if m.colors.contains_key(player) {
        update_pointer(m, player, id, |st: PointerState| moved(st, world_point_of(x, y)))
    } else {
        m
    }
}

/// Whether a query answer starts a hold: only a dynamic body, and only when
/// the point lies inside its shape.
pub open spec fn grabs(hit: Option<Hit>) -> bool {
    match hit {
        Some(h) => h.kind == BodyKind::Dynamic && h.is_inside,
        None => false,
    }
}

/// A query answer whose body position the interaction layer accepts.
pub open spec fn hit_in_world(hit: Option<Hit>) -> bool {
    match hit {
        Some(h) => h.body_position.in_world(),
        None => true,
    }
}

pub open spec fn pressed(st: PointerState, p: Vec2, hit: Option<Hit>) -> PointerState {
    let base = PointerState { should_render: true, is_pressed: true, cursor_position: p, ..st };
    if grabs(hit) {
        let h = hit->Some_0;
        PointerState {
            held_body: Some(h.body),
            grab_offset: Vec2 {
                x: (h.body_position.x - p.x) as i64,
                y: (h.body_position.y - p.y) as i64,
            },
            ..base
        }
    } else {
        base
    }
}

/// The overrides that make a grabbed body track the cursor: no gravity, no
/// spin, high angular damping.
pub open spec fn grab_commands(hit: Option<Hit>) -> Seq<BodyCommand> {
    if grabs(hit) {
        let b = hit->Some_0.body;
        seq![
            BodyCommand::SetGravityScale { body: b, scale: HELD_GRAVITY_SCALE },
            BodyCommand::SetAngularVelocity { body: b, value: 0 },
            BodyCommand::SetAngularDamping { body: b, damping: HELD_ANGULAR_DAMPING },
        ]
    } else {
        seq![]
    }
}

pub open spec fn spec_pointer_down(
    m: Model,
    player: u32,
    id: u32,
    x: i32,
    y: i32,
    hit: Option<Hit>,
) -> Model {
    if m.colors.contains_key(player) {
        update_pointer(m, player, id, |st: PointerState| pressed(st, world_point_of(x, y), hit))
    } else {
        m
    }
}

pub open spec fn down_commands(m: Model, player: u32, hit: Option<Hit>) -> Seq<BodyCommand> {
    if m.colors.contains_key(player) {
        grab_commands(hit)
    } else {
        seq![]
    }
}

/// The cursor's last displacement, scaled to a velocity.
pub open spec fn release_velocity(st: PointerState) -> Vec2 {
    Vec2 {
        x: ((st.cursor_position.x - st.previous_cursor_position.x) * RELEASE_VELOCITY_SCALE) as i64,
        y: ((st.cursor_position.y - st.previous_cursor_position.y) * RELEASE_VELOCITY_SCALE) as i64,
    }
}

pub open spec fn released(st: PointerState, is_mouse: bool) -> PointerState {
    PointerState { should_render: is_mouse, is_pressed: false, held_body: None, ..st }
}

/// The overrides that hand a released body back to the simulation.
pub open spec fn release_commands(st: PointerState) -> Seq<BodyCommand> {
    match st.held_body {
        Some(b) => seq![
            BodyCommand::SetLinearVelocity { body: b, velocity: release_velocity(st) },
            BodyCommand::SetGravityScale { body: b, scale: FREE_GRAVITY_SCALE },
            BodyCommand::SetAngularDamping { body: b, damping: FREE_ANGULAR_DAMPING },
        ],
        None => seq![],
    }
}

pub open spec fn spec_pointer_up(m: Model, player: u32, id: u32, is_mouse: bool) -> Model {
    if m.colors.contains_key(player) {
        update_pointer(m, player, id, |st: PointerState| released(st, is_mouse))
    } else {
        m
    }
}

pub open spec fn up_commands(m: Model, player: u32, id: u32) -> Seq<BodyCommand> {
    match m.pointer(player, id) {
        Some(st) => if m.colors.contains_key(player) {
            release_commands(st)
        } else {
            seq![]
        },
        None => seq![],
    }
}

pub open spec fn spec_player_joined(m: Model, player: u32, color: Color) -> Model {
    Model { colors: m.colors.insert(player, color), ..m }
}

pub open spec fn not_of(player: u32) -> spec_fn(PointerEntry) -> bool {
    |e: PointerEntry| e.player != player
}

pub open spec fn spec_player_left(m: Model, player: u32) -> Model {
    Model { colors: m.colors.remove(player), pointers: m.pointers.filter(not_of(player)) }
}

/// Where a holding pointer drives its body: the cursor plus the grab offset.
pub open spec fn tick_command(e: PointerEntry) -> Seq<BodyCommand> {
    match e.state.held_body {
        Some(b) => seq![
            BodyCommand::SetTranslation {
                body: b,
                position: Vec2 {
                    x: (e.state.cursor_position.x + e.state.grab_offset.x) as i64,
                    y: (e.state.cursor_position.y + e.state.grab_offset.y) as i64,
                },
            },
        ],
        None => seq![],
    }
}

/// The translations of one fixed tick, one per holding pointer, in order.
pub open spec fn tick_commands(ps: Seq<PointerEntry>) -> Seq<BodyCommand>
    decreases ps.len(),
{
    if ps.len() == 0 {
        seq![]
    } else {
        tick_commands(ps.drop_last()) + tick_command(ps.last())
    }
}

/// The cursor indicator of a pointer, in screen steps.
#[derive(Clone, Copy, Debug, PartialEq, Eq, Structural)]
pub struct Indicator {
    pub x: i64,
    pub y: i64,
    pub radius: i64,
    pub alpha: u8,
    pub color: Color,
}

/// Radius of a pressed pointer's indicator, in screen steps.
pub const PRESSED_RADIUS: i64 = 8000;

/// Radius of a released pointer's indicator, in screen steps.
pub const RELEASED_RADIUS: i64 = 12000;

pub const PRESSED_ALPHA: u8 = 255;

pub const RELEASED_ALPHA: u8 = 150;

pub open spec fn indicator_of(st: PointerState) -> Seq<Indicator> {
    if st.should_render {
        seq![
            Indicator {
                x: screen_of(st.cursor_position.x as int) as i64,
                y: screen_of(st.cursor_position.y as int) as i64,
                radius: if st.is_pressed {
                    PRESSED_RADIUS
                } else {
                    RELEASED_RADIUS
                },
                alpha: if st.is_pressed {
                    PRESSED_ALPHA
                } else {
                    RELEASED_ALPHA
                },
                color: st.assigned_color,
            },
        ]
    } else {
        seq![]
    }
}

/// The indicators to draw, one per shown pointer, in order.
pub open spec fn indicators(ps: Seq<PointerEntry>) -> Seq<Indicator>
    decreases ps.len(),
{
    if ps.len() == 0 {
        seq![]
    } else {
        indicators(ps.drop_last()) + indicator_of(ps.last().state)
    }
}

proof fn lemma_filter_step(ps: Seq<PointerEntry>, f: spec_fn(PointerEntry) -> bool, i: int)
    requires
        0 <= i < ps.len(),
    ensures
        ps.take(i + 1).filter(f) == (if f(ps[i]) {
            ps.take(i).filter(f).push(ps[i])
        } else {
            ps.take(i).filter(f)
        }),
{
    reveal(Seq::filter);
    assert(ps.take(i + 1).drop_last() =~= ps.take(i));
}

/// Updating one pointer sets its state from its current (or fresh) one and
/// leaves every other pointer alone.
pub(crate) proof fn lemma_update_pointer(
    m: Model,
    player: u32,
    id: u32,
    f: spec_fn(PointerState) -> PointerState,
)
    requires
        m.wf(),
        m.colors.contains_key(player),
        forall|st: PointerState| st.wf() ==> (#[trigger] f(st)).wf(),
    ensures
        update_pointer(m, player, id, f).wf(),
        update_pointer(m, player, id, f).colors == m.colors,
        update_pointer(m, player, id, f).pointer(player, id) == Some(
            f(m.current_or_fresh(player, id)),
        ),
        update_pointer(m, player, id, f).others_as(m, player, id),
{
    lemma_update_pointer_wf(m, player, id, f);
    let ps = with_pointer(m.pointers, player, id, m.colors[player]);
    let i = pointer_index(ps, player, id);
    let r = update_pointer(m, player, id, f);
    if !has_pointer(m.pointers, player, id) {
        let n = m.pointers.len() as int;
        assert(is_key(ps[n], player, id));
        lemma_index_unique(ps, player, id, n);
    }
    assert forall|p: u32, q: u32| !(p == player && q == id) implies #[trigger] r.pointer(p, q)
        == m.pointer(p, q) by {
        if has_pointer(m.pointers, p, q) {
            let j = pointer_index(m.pointers, p, q);
            assert(is_key(m.pointers[j], p, q));
            assert(is_key(r.pointers[j], p, q));
            lemma_index_unique(r.pointers, p, q, j);
        } else if has_pointer(r.pointers, p, q) {
            let j = pointer_index(r.pointers, p, q);
            assert(is_key(ps[j], p, q));
            if j < m.pointers.len() {
                assert(is_key(m.pointers[j], p, q));
            }
        }
    }
}

pub(crate) proof fn lemma_index_unique(ps: Seq<PointerEntry>, player: u32, id: u32, i: int)
    requires
        unique_keys(ps),
        0 <= i < ps.len(),
        is_key(ps[i], player, id),
    ensures
        has_pointer(ps, player, id),
        pointer_index(ps, player, id) == i,
{
    let j = pointer_index(ps, player, id);
    assert(0 <= j < ps.len() && is_key(ps[j], player, id));
    if j != i {
        assert(!is_key(ps[i], ps[j].player, ps[j].pointer_id));
    }
}

/// Updating a pointer in place keeps the model well formed when the new
/// state is.
pub(crate) proof fn lemma_update_pointer_wf(
    m: Model,
    player: u32,
    id: u32,
    f: spec_fn(PointerState) -> PointerState,
)
    requires
        m.wf(),
        m.colors.contains_key(player),
        forall|st: PointerState| st.wf() ==> (#[trigger] f(st)).wf(),
    ensures
        update_pointer(m, player, id, f).wf(),
        has_pointer(update_pointer(m, player, id, f).pointers, player, id),
        update_pointer(m, player, id, f).pointer(player, id) == Some(
            f(with_pointer(m.pointers, player, id, m.colors[player])[pointer_index(
                with_pointer(m.pointers, player, id, m.colors[player]),
                player,
                id,
            )].state),
        ),
        update_pointer(m, player, id, f).colors == m.colors,
{
    let ps = with_pointer(m.pointers, player, id, m.colors[player]);
    if !has_pointer(m.pointers, player, id) {
        let n = m.pointers.len() as int;
        assert(is_key(ps[n], player, id));
        lemma_index_unique(ps, player, id, n);
    }
    assert(has_pointer(ps, player, id));
    let i = pointer_index(ps, player, id);
    let r = update_pointer(m, player, id, f);
    assert(is_key(r.pointers[i], player, id));
    lemma_index_unique(r.pointers, player, id, i);
}

pub struct Interaction {
    colors: HashMap<u32, Color>,
    pointers: Vec<PointerEntry>,
}

impl View for Interaction {
    type V = Model;

    closed spec fn view(&self) -> Model {
        Model { colors: self.colors@, pointers: self.pointers@ }
    }
}

impl Interaction {
    pub fn new() -> (r: Interaction)
        ensures
            r@.colors == Map::<u32, Color>::empty(),
            r@.pointers == Seq::<PointerEntry>::empty(),
            r@.wf(),
    {
        Interaction { colors: HashMap::new(), pointers: Vec::new() }
    }

    fn find(&self, player: u32, id: u32) -> (r: Option<usize>)
        ensures
            match r {
                Some(i) => i < self@.pointers.len() && is_key(self@.pointers[i as int], player, id),
                None => !has_pointer(self@.pointers, player, id),
            },
    {
        let mut i: usize = 0;
        while i < self.pointers.len()
            invariant
                0 <= i <= self.pointers.len(),
                forall|j: int| 0 <= j < i ==> !is_key(#[trigger] self@.pointers[j], player, id),
            decreases self.pointers.len() - i,
        {
            let e = self.pointers[i];
            if e.player == player && e.pointer_id == id {
                return Some(i);
            }
            i = i + 1;
        }
        None
    }

    /// Index of the pair's pointer, created first if it had none.
    fn ensure_pointer(&mut self, player: u32, id: u32, color: Color) -> (r: usize)
        requires
            old(self)@.wf(),
        ensures
            final(self)@.colors == old(self)@.colors,
            final(self)@.pointers == with_pointer(old(self)@.pointers, player, id, color),
            r < final(self)@.pointers.len(),
            r == pointer_index(final(self)@.pointers, player, id),
            has_pointer(final(self)@.pointers, player, id),
            unique_keys(final(self)@.pointers),
    {
        match self.find(player, id) {
            Some(i) => {
                proof {
                    lemma_index_unique(self@.pointers, player, id, i as int);
                }
                i
            },
            None => {
                let e = PointerEntry {
                    player,
                    pointer_id: id,
                    state: PointerState {
                        held_body: None,
                        cursor_position: Vec2::zero(),
                        previous_cursor_position: Vec2::zero(),
                        grab_offset: Vec2::zero(),
                        is_pressed: false,
                        should_render: false,
                        assigned_color: color,
                    },
                };
                self.pointers.push(e);
                let n = self.pointers.len() - 1;
                proof {
                    assert(self@.pointers =~= with_pointer(old(self)@.pointers, player, id, color));
                    lemma_index_unique(self@.pointers, player, id, n as int);
                }
                n
            },
        }
    }

    /// Records where a pointer is. Held bodies follow on the next fixed tick.
    pub fn pointer_move(&mut self, player: u32, id: u32, x: i32, y: i32)
        requires
            old(self)@.wf(),
        ensures
            final(self)@ == spec_pointer_move(old(self)@, player, id, x, y),
            final(self)@.wf(),
            old(self)@.colors.contains_key(player) ==> final(self)@.pointer(player, id) == Some(
                moved(old(self)@.current_or_fresh(player, id), world_point_of(x, y)),
            ),
            final(self)@.others_as(old(self)@, player, id),
    {
        let color = match self.colors.get(&player) {
            Some(c) => *c,
            None => {
                return;
            },
        };
        let i = self.ensure_pointer(player, id, color);
        let mut e = self.pointers[i];
        let p = world_point(x, y);
        e.state.previous_cursor_position = e.state.cursor_position;
        e.state.cursor_position = p;
        self.pointers.set(i, e);
        proof {
            let f = |st: PointerState| moved(st, world_point_of(x, y));
            lemma_update_pointer(old(self)@, player, id, f);
            assert(self@.pointers =~= update_pointer(old(self)@, player, id, f).pointers);
        }
    }
    /// Presses a pointer. `hit` is the physics world's answer to the point
    /// query at the pointer's world position, among dynamic bodies.
    pub fn pointer_down(&mut self, player: u32, id: u32, x: i32, y: i32, hit: Option<Hit>) -> (r:
        Vec<BodyCommand>)
        requires
            old(self)@.wf(),
            hit_in_world(hit),
        ensures
            final(self)@ == spec_pointer_down(old(self)@, player, id, x, y, hit),
            r@ == down_commands(old(self)@, player, hit),
            final(self)@.wf(),
            old(self)@.colors.contains_key(player) ==> final(self)@.pointer(player, id) == Some(
                pressed(old(self)@.current_or_fresh(player, id), world_point_of(x, y), hit),
            ),
            final(self)@.others_as(old(self)@, player, id),
    {
        let color = match self.colors.get(&player) {
            Some(c) => *c,
            None => {
                return Vec::new();
            },
        };
        let i = self.ensure_pointer(player, id, color);
        let mut e = self.pointers[i];
        let p = world_point(x, y);
        e.state.should_render = true;
        e.state.is_pressed = true;
        e.state.cursor_position = p;
        let mut cmds: Vec<BodyCommand> = Vec::new();
        if let Some(h) = hit {
            if h.is_inside && h.kind == BodyKind::Dynamic {
                e.state.held_body = Some(h.body);
                e.state.grab_offset = h.body_position.sub(p);
                cmds.push(BodyCommand::SetGravityScale { body: h.body, scale: HELD_GRAVITY_SCALE });
                cmds.push(BodyCommand::SetAngularVelocity { body: h.body, value: 0 });
                cmds.push(
                    BodyCommand::SetAngularDamping { body: h.body, damping: HELD_ANGULAR_DAMPING },
                );
            }
        }
        self.pointers.set(i, e);
        proof {
            let f = |st: PointerState| pressed(st, world_point_of(x, y), hit);
            lemma_update_pointer(old(self)@, player, id, f);
            assert(self@.pointers =~= update_pointer(old(self)@, player, id, f).pointers);
            assert(cmds@ =~= down_commands(old(self)@, player, hit));
        }
        cmds
    }

    /// Releases a pointer. A held body is handed back to the simulation with
    /// the cursor's last displacement as its velocity.
    pub fn pointer_up(&mut self, player: u32, id: u32, is_mouse: bool) -> (r: Vec<BodyCommand>)
        requires
            old(self)@.wf(),
        ensures
            final(self)@ == spec_pointer_up(old(self)@, player, id, is_mouse),
            r@ == up_commands(old(self)@, player, id),
            final(self)@.wf(),
            old(self)@.colors.contains_key(player) ==> final(self)@.pointer(player, id) == Some(
                released(old(self)@.current_or_fresh(player, id), is_mouse),
            ),
            final(self)@.others_as(old(self)@, player, id),
    {
        let color = match self.colors.get(&player) {
            Some(c) => *c,
            None => {
                return Vec::new();
            },
        };
        let ghost existed = has_pointer(self@.pointers, player, id);
        let i = self.ensure_pointer(player, id, color);
        let mut e = self.pointers[i];
        proof {
            if existed {
                let j = pointer_index(old(self)@.pointers, player, id);
                lemma_index_unique(old(self)@.pointers, player, id, j);
            }
            assert(e.state.wf());
        }
        let mut cmds: Vec<BodyCommand> = Vec::new();
        if let Some(b) = e.state.held_body {
            let cur = e.state.cursor_position;
            let prev = e.state.previous_cursor_position;
            proof {
                let k = 0x8000_0000 * 2500;
                assert(-2 * k * 30 <= (cur.x - prev.x) * 30 <= 2 * k * 30) by (nonlinear_arith)
                    requires
                        -2 * k <= cur.x - prev.x <= 2 * k,
                ;
                assert(-2 * k * 30 <= (cur.y - prev.y) * 30 <= 2 * k * 30) by (nonlinear_arith)
                    requires
                        -2 * k <= cur.y - prev.y <= 2 * k,
                ;
            }
            let velocity = cur.sub(prev).scale(RELEASE_VELOCITY_SCALE);
            cmds.push(BodyCommand::SetLinearVelocity { body: b, velocity });
            cmds.push(BodyCommand::SetGravityScale { body: b, scale: FREE_GRAVITY_SCALE });
            cmds.push(BodyCommand::SetAngularDamping { body: b, damping: FREE_ANGULAR_DAMPING });
        }
        e.state.should_render = is_mouse;
        e.state.is_pressed = false;
        e.state.held_body = None;
        self.pointers.set(i, e);
        proof {
            let f = |st: PointerState| released(st, is_mouse);
            lemma_update_pointer(old(self)@, player, id, f);
            assert(self@.pointers =~= update_pointer(old(self)@, player, id, f).pointers);
            assert(cmds@ =~= up_commands(old(self)@, player, id));
        }
        cmds
    }
    /// Registers a player with a color drawn from the palette.
    pub fn player_joined(&mut self, player: u32, palette: &mut Palette)
        requires
            old(self)@.wf(),
        ensures
            final(self)@.colors.contains_key(player),
            in_palette(final(self)@.colors[player]),
            final(self)@ == spec_player_joined(old(self)@, player, final(self)@.colors[player]),
            final(self)@.wf(),
    {
        let c = palette.next_color();
        self.colors.insert(player, c);
        proof {
            assert(self@.colors =~= old(self)@.colors.insert(player, c));
        }
    }

    /// Forgets a player: its color and every one of its pointers. A body
    /// that one of them held is left as it was last commanded.
    pub fn player_left(&mut self, player: u32)
        requires
            old(self)@.wf(),
        ensures
            final(self)@ == spec_player_left(old(self)@, player),
            final(self)@.wf(),
    {
        self.colors.remove(&player);
        let ghost ps = self@.pointers;
        let ghost f = not_of(player);
        let mut kept: Vec<PointerEntry> = Vec::new();
        let mut i: usize = 0;
        while i < self.pointers.len()
            invariant
                self@.pointers == ps,
                self@.colors == old(self)@.colors.remove(player),
                old(self)@.wf(),
                ps == old(self)@.pointers,
                f == not_of(player),
                0 <= i <= ps.len(),
                kept@ == ps.take(i as int).filter(f),
                unique_keys(kept@),
                forall|k: int|
                    0 <= k < kept@.len() ==> exists|j: int|
                        0 <= j < i && #[trigger] kept@[k] == ps[j],
                forall|k: int| 0 <= k < kept@.len() ==> (#[trigger] kept@[k]).player != player,
            decreases ps.len() - i,
        {
            let e = self.pointers[i];
            proof {
                lemma_filter_step(ps, f, i as int);
            }
            if e.player != player {
                proof {
                    assert forall|k: int| 0 <= k < kept@.len() implies !is_key(
                        #[trigger] kept@[k],
                        e.player,
                        e.pointer_id,
                    ) by {
                        let j = choose|j: int| 0 <= j < i && kept@[k] == ps[j];
                        assert(!is_key(ps[j], ps[i as int].player, ps[i as int].pointer_id));
                    }
                }
                let ghost before = kept@;
                kept.push(e);
                proof {
                    assert forall|k: int| 0 <= k < kept@.len() implies exists|j: int|
                        0 <= j < i + 1 && #[trigger] kept@[k] == ps[j] by {
                        if k < kept@.len() - 1 {
                            assert(kept@[k] == before[k]);
                            let j = choose|j: int| 0 <= j < i && before[k] == ps[j];
                            assert(kept@[k] == ps[j]);
                        } else {
                            assert(kept@[k] == ps[i as int]);
                        }
                    }
                }
            }
            i = i + 1;
        }
        proof {
            assert(ps.take(ps.len() as int) =~= ps);
            assert forall|k: int| 0 <= k < kept@.len() implies #[trigger] kept@[k].state.wf()
                && self@.colors.contains_key(kept@[k].player) by {
                let j = choose|j: int| 0 <= j < ps.len() && kept@[k] == ps[j];
                assert(ps[j].state.wf());
                assert(old(self)@.colors.contains_key(ps[j].player));
            }
        }
        self.pointers = kept;
    }

    /// The translations that drive the held bodies on a fixed tick. The
    /// caller applies them and then steps the physics world once.
    pub fn fixed_update(&self) -> (r: Vec<BodyCommand>)
        requires
            self@.wf(),
        ensures
            r@ == tick_commands(self@.pointers),
    {
        let mut cmds: Vec<BodyCommand> = Vec::new();
        let mut i: usize = 0;
        while i < self.pointers.len()
            invariant
                self@.wf(),
                0 <= i <= self@.pointers.len(),
                cmds@ == tick_commands(self@.pointers.take(i as int)),
            decreases self@.pointers.len() - i,
        {
            let e = self.pointers[i];
            proof {
                assert(self@.pointers.take(i + 1).drop_last() =~= self@.pointers.take(i as int));
                assert(e.state.wf());
            }
            if let Some(b) = e.state.held_body {
                let position = e.state.cursor_position.add(e.state.grab_offset);
                cmds.push(BodyCommand::SetTranslation { body: b, position });
            }
            proof {
                assert(cmds@ =~= tick_commands(self@.pointers.take(i + 1)));
            }
            i = i + 1;
        }
        proof {
            assert(self@.pointers.take(self@.pointers.len() as int) =~= self@.pointers);
        }
        cmds
    }

    /// The cursor indicators to draw, after the scene.
    pub fn pointer_indicators(&self) -> (r: Vec<Indicator>)
        ensures
            r@ == indicators(self@.pointers),
    {
        let mut out: Vec<Indicator> = Vec::new();
        let mut i: usize = 0;
        while i < self.pointers.len()
            invariant
                0 <= i <= self@.pointers.len(),
                out@ == indicators(self@.pointers.take(i as int)),
            decreases self@.pointers.len() - i,
        {
            let st = self.pointers[i].state;
            proof {
                assert(self@.pointers.take(i + 1).drop_last() =~= self@.pointers.take(i as int));
            }
            if st.should_render {
                let (radius, alpha) = if st.is_pressed {
                    (PRESSED_RADIUS, PRESSED_ALPHA)
                } else {
                    (RELEASED_RADIUS, RELEASED_ALPHA)
                };
                out.push(
                    Indicator {
                        x: to_screen(st.cursor_position.x),
                        y: to_screen(st.cursor_position.y),
                        radius,
                        alpha,
                        color: st.assigned_color,
                    },
                );
            }
            proof {
                assert(out@ =~= indicators(self@.pointers.take(i + 1)));
            }
            i = i + 1;
        }
        proof {
            assert(self@.pointers.take(self@.pointers.len() as int) =~= self@.pointers);
        }
        out
    }

    /// The color of a connected player.
    pub fn player_color(&self, player: u32) -> (r: Option<Color>)
        ensures
            r == (if self@.colors.contains_key(player) {
                Some(self@.colors[player])
            } else {
                None
            }),
    {
        match self.colors.get(&player) {
            Some(c) => Some(*c),
            None => None,
        }
    }

    /// The state of a pointer, where it exists.
    pub fn pointer(&self, player: u32, id: u32) -> (r: Option<PointerState>)
        requires
            self@.wf(),
        ensures
            r == self@.pointer(player, id),
    {
        match self.find(player, id) {
            Some(i) => {
                proof {
                    lemma_index_unique(self@.pointers, player, id, i as int);
                }
                Some(self.pointers[i].state)
            },
            None => None,
        }
    }
}

} // verus!
