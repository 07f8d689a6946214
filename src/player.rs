//! The player: movement with axis-separated collision resolution, the
//! jump and fall state machine, and the record of its own positions.
use vstd::prelude::*;
use crate::geometry::{Vec3, UNIT, COORD_LIMIT, bounded_by, scaled, scale_to};
use crate::history::{TickHistory, window_after, elapsed, elapsed_exec, DURATION_PER_TICK};
use crate::weapon::{BULLETS_BEFORE_RELOAD, after_reload};

verus! {

/// Horizontal distance covered in one tick when sprinting.
pub const MOVE_SPEED: i64 = 500;
/// Horizontal distance per tick when crouched.
pub const CROUCH_SPEED: i64 = 150;
/// Horizontal distance per tick when walking.
pub const WALKING_SPEED: i64 = 250;
/// Upward speed at the start of a jump.
pub const JUMP_VELOCITY: i64 = 600;
/// Added to the (downward-positive) vertical velocity each tick.
pub const GRAVITY: i64 = 35;
/// Half extent of the player's box along x and z.
pub const PLAYER_HALF_WIDTH: i64 = 500;
/// Half extent of the player's box along y; also the eye height above ground.
pub const PLAYER_HALF_HEIGHT: i64 = 5000;
/// Gap kept under a ceiling that stopped a rising player.
pub const CEILING_GAP: i64 = 1;

/// The contact reported between the level and the player's box: the height
/// of the contact point on the obstacle and on the player's box.
#[derive(Clone, Copy, Debug, PartialEq, Eq, Structural)]
pub struct Contact {
    pub obstacle_y: i64,
    pub player_y: i64,
}

/// The movement intents of one tick.
#[derive(Clone, Copy, Debug, PartialEq, Eq, Structural)]
pub struct MoveInput {
    pub walk_toggle: bool,
    pub jump: bool,
    pub forward: bool,
    pub back: bool,
    pub left: bool,
    pub right: bool,
    /// Manual reload.
    pub reload: bool,
}

/// Contact heights within the coordinate limit.
pub open spec fn contact_in_bounds(c: Option<Contact>) -> bool {
    match c {
        Some(c) => -COORD_LIMIT <= c.obstacle_y <= COORD_LIMIT && -COORD_LIMIT <= c.player_y
            <= COORD_LIMIT,
        None => true,
    }
}

pub open spec fn vec_add(a: Vec3, b: Vec3) -> Vec3 {
    Vec3 { x: (a.x + b.x) as i64, y: (a.y + b.y) as i64, z: (a.z + b.z) as i64 }
}

pub open spec fn vec_sub(a: Vec3, b: Vec3) -> Vec3 {
    Vec3 { x: (a.x - b.x) as i64, y: (a.y - b.y) as i64, z: (a.z - b.z) as i64 }
}

/// Some direction intent is pressed.
pub open spec fn any_direction(input: MoveInput) -> bool {
    input.forward || input.back || input.left || input.right
}

/// Sum of the pressed intents: forward and back along `front`, left and
/// right along `right`.
pub open spec fn intent_sum(front: Vec3, right: Vec3, input: MoveInput) -> Vec3 {
    let zero = Vec3 { x: 0, y: 0, z: 0 };
    let f = if input.forward { front } else { zero };
    let b = if input.back { vec_sub(f, front) } else { f };
    let l = if input.left { vec_sub(b, right) } else { b };
    if input.right { vec_add(l, right) } else { l }
}

/// The timestamp kept when an episode of movement may begin at `now`.
pub open spec fn started_at(t: Option<u64>, now: u64) -> Option<u64> {
    if t is None {
        Some(now)
    } else {
        t
    }
}

/// `v` moved to height `y`.
pub open spec fn with_y(v: Vec3, y: int) -> Vec3 {
    Vec3 { x: v.x, y: y as i64, z: v.z }
}

/// A press starts a jump only from the ground and not crouched.
pub open spec fn starts_jump(p: Player, pressed: bool) -> bool {
    pressed && !p.crouched && p.jump is None
}

/// The jump trigger: a jump starts only from the ground and not crouched.
pub open spec fn after_jump_press(p: Player, pressed: bool, now: u64) -> Player {
    if starts_jump(p, pressed) {
        Player {
            jump: Some(-JUMP_VELOCITY as i64),
            last_move_timestamp: started_at(p.last_move_timestamp, now),
            ..p
        }
    } else {
        p
    }
}

/// The contact shows the player resting on top of an obstacle.
pub open spec fn on_top(p: Player, c: Option<Contact>, just_jumped: bool) -> bool {
    match c {
        Some(c) => !just_jumped && p.position.y > c.player_y,
        None => false,
    }
}

/// A grounded player with nothing under it above the ground starts to fall.
pub open spec fn after_fall_check(p: Player, c: Option<Contact>, just_jumped: bool, now: u64) -> Player {
    if p.position.y > PLAYER_HALF_HEIGHT && !on_top(p, c, just_jumped) && p.jump is None {
        Player { jump: Some(0), last_move_timestamp: started_at(p.last_move_timestamp, now), ..p }
    } else {
        p
    }
}

/// One tick of vertical motion given the contact at the current position.
/// A player resting on an obstacle lands on it; one at or below standing
/// height with nothing in contact lands on the ground; one below an
/// obstacle it touches stops rising just under it; any other airborne
/// player moves by its vertical speed, to which gravity is added. Also
/// tells whether the player rests on an obstacle.
pub open spec fn vertical_step(p: Player, c: Option<Contact>, just_jumped: bool, now: u64) -> (Player, bool) {
    let y_int = on_top(p, c, just_jumped);
    let q = after_fall_check(p, c, just_jumped, now);
    match q.jump {
        None => (q, y_int),
        Some(v) => if y_int {
            (
                Player {
                    position: with_y(q.position, c.unwrap().obstacle_y + PLAYER_HALF_HEIGHT),
                    jump: None,
                    ..q
                },
                true,
            )
        } else if !just_jumped && q.position.y <= PLAYER_HALF_HEIGHT && c is None {
            (Player { position: with_y(q.position, PLAYER_HALF_HEIGHT as int), jump: None, ..q }, false)
        } else if c is Some && q.position.y <= c.unwrap().player_y {
            (
                Player {
                    position: with_y(q.position, c.unwrap().obstacle_y - PLAYER_HALF_HEIGHT - CEILING_GAP),
                    jump: Some(GRAVITY),
                    ..q
                },
                false,
            )
        } else {
            (Player { position: with_y(q.position, q.position.y - v), jump: Some((v + GRAVITY) as i64), ..q }, false)
        },
    }
}

/// Axis-separated sliding: each horizontal axis moves to the candidate
/// unless its probe collided; resting on an obstacle frees both axes.
pub open spec fn horizontal_step(p: Player, cand: Vec3, y_int: bool, x_hit: bool, z_hit: bool) -> Player {
    Player {
        position: Vec3 {
            x: if y_int || !x_hit { cand.x } else { p.position.x },
            y: p.position.y,
            z: if y_int || !z_hit { cand.z } else { p.position.z },
        },
        ..p
    }
}

/// The movement timestamp after a tick: set when movement starts, cleared
/// once the player is still and grounded.
pub open spec fn motion_timestamp(p: Player, moved: bool, now: u64) -> Option<u64> {
    if moved && p.last_move_timestamp is None {
        Some(now)
    } else if !moved && p.jump is None {
        None
    } else {
        p.last_move_timestamp
    }
}

/// The player after the walking toggle of `input`.
pub open spec fn after_toggle(p: Player, input: MoveInput) -> Player {
    if input.walk_toggle {
        Player { walking: !p.walking, ..p }
    } else {
        p
    }
}

/// The player after the walking toggle and the jump trigger of `input`.
pub open spec fn after_intents(p: Player, input: MoveInput, now: u64) -> Player {
    after_jump_press(after_toggle(p, input), input.jump, now)
}

/// The player after the vertical phase, and whether it rests on an obstacle.
pub open spec fn vertical_phase(p: Player, input: MoveInput, now: u64, c: Option<Contact>) -> (Player, bool) {
    vertical_step(after_intents(p, input, now), c, starts_jump(after_toggle(p, input), input.jump), now)
}

/// Where the x axis is probed: candidate x at the height after the vertical phase.
pub open spec fn x_probe(p: Player, input: MoveInput, now: u64, c: Option<Contact>) -> Vec3 {
    let v = vertical_phase(p, input, now, c).0.position;
    Vec3 { x: after_intents(p, input, now).candidate(input).x, y: v.y, z: v.z }
}

/// Where the z axis is probed: candidate z at the height after the vertical phase.
pub open spec fn z_probe(p: Player, input: MoveInput, now: u64, c: Option<Contact>) -> Vec3 {
    let v = vertical_phase(p, input, now, c).0.position;
    Vec3 { x: v.x, y: v.y, z: after_intents(p, input, now).candidate(input).z }
}

/// One whole movement tick, given the three collision answers.
pub open spec fn movement_step(
    p: Player,
    input: MoveInput,
    now: u64,
    c: Option<Contact>,
    x_hit: bool,
    z_hit: bool,
) -> Player {
    let (q, y_int) = vertical_phase(p, input, now, c);
    let h = horizontal_step(q, after_intents(p, input, now).candidate(input), y_int, x_hit, z_hit);
    let r = if input.reload { after_reload(h, now) } else { h };
    Player { last_move_timestamp: motion_timestamp(r, any_direction(input), now), ..r }
}

/// Axis-separated sliding: over a whole movement tick, an axis whose probe
/// found no collision ends at the candidate coordinate; an axis whose probe
/// collided keeps the previous coordinate unless the player rests on an
/// obstacle.
pub proof fn lemma_axis_sliding(p: Player, input: MoveInput, now: u64, c: Option<Contact>, x_hit: bool, z_hit: bool)
    ensures
        ({
            let r = movement_step(p, input, now, c, x_hit, z_hit);
            let cand = after_intents(p, input, now).candidate(input);
            let on_obstacle = vertical_phase(p, input, now, c).1;
            &&& !x_hit ==> r.position.x == cand.x
            &&& !z_hit ==> r.position.z == cand.z
            &&& x_hit && !on_obstacle ==> r.position.x == p.position.x
            &&& z_hit && !on_obstacle ==> r.position.z == p.position.z
        }),
{
}

/// Pressing jump while airborne changes nothing: the tick goes exactly as
/// it would without the press.
pub proof fn lemma_jump_press_airborne(p: Player, input: MoveInput, now: u64, c: Option<Contact>, x_hit: bool, z_hit: bool)
    requires
        p.jump is Some,
    ensures
        movement_step(p, input, now, c, x_hit, z_hit) == movement_step(
            p,
            MoveInput { jump: false, ..input },
            now,
            c,
            x_hit,
            z_hit,
        ),
{
    let quiet = MoveInput { jump: false, ..input };
    assert(after_intents(p, input, now) == after_intents(p, quiet, now));
    assert(intent_sum(
        scaled(Vec3 { x: p.front.x, y: 0, z: p.front.z }, UNIT as int),
        p.right,
        input,
    ) == intent_sum(scaled(Vec3 { x: p.front.x, y: 0, z: p.front.z }, UNIT as int), p.right, quiet));
}

/// Only the first press starts a jump: from the ground and standing, a
/// press gives the upward jump speed, and a second press keeps that state.
pub proof fn lemma_jump_first_press(p: Player, now: u64, later: u64)
    requires
        p.jump is None,
        !p.crouched,
    ensures
        after_jump_press(p, true, now).jump == Some(-JUMP_VELOCITY as i64),
        after_jump_press(after_jump_press(p, true, now), true, later) == after_jump_press(p, true, now),
{
}

/// Landing puts the player's centre exactly half its height above the
/// contact: above the obstacle's contact point when it lands on one, above
/// the ground (height zero) otherwise.
pub proof fn lemma_landing_height(p: Player, c: Option<Contact>, just_jumped: bool, now: u64)
    requires
        p.in_bounds(),
        contact_in_bounds(c),
        after_fall_check(p, c, just_jumped, now).jump is Some,
        vertical_step(p, c, just_jumped, now).0.jump is None,
    ensures
        ({
            let (r, on_obstacle) = vertical_step(p, c, just_jumped, now);
            &&& on_obstacle ==> c is Some && r.position.y == c.unwrap().obstacle_y + PLAYER_HALF_HEIGHT
            &&& !on_obstacle ==> c is None && r.position.y == PLAYER_HALF_HEIGHT
        }),
{
}

/// A player's pose, movement state, weapon state and recorded positions.
pub struct Player {
    pub crouched: bool,
    /// Toggled, not held.
    pub walking: bool,
    /// Vertical velocity, positive downward; present exactly while airborne.
    pub jump: Option<i64>,
    pub front: Vec3,
    pub right: Vec3,
    pub up: Vec3,
    pub position: Vec3,
    pub last_bullet_timestamp: Option<u64>,
    /// Start of the current episode of continuous movement or flight.
    pub last_move_timestamp: Option<u64>,
    pub bullets_since_last_reload: u8,
    pub last_reload_timestamp: Option<u64>,
    pub ticks: TickHistory,
    pub last_tick_timestamp: u64,
    pub killed: bool,
}

impl Player {
    /// Well-formed: unit-length directions, ammunition and history bounded.
    pub open spec fn wf(&self) -> bool {
        &&& bounded_by(self.front, UNIT as int)
        &&& bounded_by(self.right, UNIT as int)
        &&& self.bullets_since_last_reload <= BULLETS_BEFORE_RELOAD
        &&& self.ticks.wf()
    }

    /// Position and vertical speed are small enough for one more tick.
    pub open spec fn in_bounds(&self) -> bool {
        &&& bounded_by(self.position, COORD_LIMIT as int)
        &&& match self.jump {
            Some(v) => -COORD_LIMIT <= v <= COORD_LIMIT,
            None => true,
        }
    }

    pub open spec fn speed(&self) -> i64 {
        if self.crouched {
            CROUCH_SPEED
        } else if self.walking {
            WALKING_SPEED
        } else {
            MOVE_SPEED
        }
    }

    /// Where the intents of `input` would take the player this tick.
    pub open spec fn candidate(&self, input: MoveInput) -> Vec3 {
        let flat = scaled(Vec3 { x: self.front.x, y: 0, z: self.front.z }, UNIT as int);
        vec_add(self.position, scaled(intent_sum(flat, self.right, input), self.speed() as int))
    }

    /// A new player standing at `position`, looking along +x.
    pub fn new(position: Vec3, now: u64) -> (r: Player)
        ensures
            r.wf(),
            r.position == position,
            r.jump is None,
            !r.crouched && !r.walking && !r.killed,
            r.front == (Vec3 { x: UNIT, y: 0, z: 0 }),
            r.right == (Vec3 { x: 0, y: 0, z: UNIT }),
            r.up == (Vec3 { x: 0, y: UNIT, z: 0 }),
            r.bullets_since_last_reload == 0,
            r.last_bullet_timestamp is None,
            r.last_move_timestamp is None,
            r.last_reload_timestamp is None,
            r.ticks@.len() == 0,
            r.last_tick_timestamp == now,
    {
        Player {
            crouched: false,
            walking: false,
            jump: None,
            front: Vec3 { x: UNIT, y: 0, z: 0 },
            right: Vec3 { x: 0, y: 0, z: UNIT },
            up: Vec3 { x: 0, y: UNIT, z: 0 },
            position,
            last_bullet_timestamp: None,
            last_move_timestamp: None,
            bullets_since_last_reload: 0,
            last_reload_timestamp: None,
            ticks: TickHistory::new(),
            last_tick_timestamp: now,
            killed: false,
        }
    }

    /// Applies the jump input; returns whether a jump started.
    pub fn press_jump(&mut self, pressed: bool, now: u64) -> (just_jumped: bool)
        ensures
            just_jumped == starts_jump(*old(self), pressed),
            *final(self) == after_jump_press(*old(self), pressed, now),
    {
        let just_jumped = pressed && !self.crouched && self.jump.is_none();
        if just_jumped {
            self.jump = Some(-JUMP_VELOCITY);
            if self.last_move_timestamp.is_none() {
                self.last_move_timestamp = Some(now);
            }
        }
        just_jumped
    }

    /// Vertical resolution against the contact found at the current
    /// position; returns whether the player rests on an obstacle.
    pub fn resolve_vertical(&mut self, contact: Option<Contact>, just_jumped: bool, now: u64) -> (on_obstacle: bool)
        requires
            old(self).in_bounds(),
            contact_in_bounds(contact),
        ensures
            (*final(self), on_obstacle) == vertical_step(*old(self), contact, just_jumped, now),
    {
        let y_intersection = match contact {
            Some(c) => !just_jumped && self.position.y > c.player_y,
            None => false,
        };
        if self.position.y > PLAYER_HALF_HEIGHT && !y_intersection && self.jump.is_none() {
            self.jump = Some(0);
            if self.last_move_timestamp.is_none() {
                self.last_move_timestamp = Some(now);
            }
        }
        match self.jump {
            None => {},
            Some(v) => {
                if y_intersection {
                    let c = contact.unwrap();
                    self.position.y = c.obstacle_y + PLAYER_HALF_HEIGHT;
                    self.jump = None;
                } else if !just_jumped && self.position.y <= PLAYER_HALF_HEIGHT && contact.is_none() {
                    self.position.y = PLAYER_HALF_HEIGHT;
                    self.jump = None;
                } else {
                    let mut speed = v;
                    match contact {
                        Some(c) => {
                            if self.position.y <= c.player_y {
                                speed = 0;
                                self.position.y = c.obstacle_y - PLAYER_HALF_HEIGHT - CEILING_GAP;
                            }
                        },
                        None => {},
                    }
                    self.position.y = self.position.y - speed;
                    self.jump = Some(speed + GRAVITY);
                }
            },
        }
        y_intersection
    }

    /// Horizontal resolution: moves each axis to `candidate` unless its
    /// probe collided, or both when resting on an obstacle.
    pub fn resolve_horizontal(&mut self, candidate: Vec3, on_obstacle: bool, x_hit: bool, z_hit: bool)
        ensures
            *final(self) == horizontal_step(*old(self), candidate, on_obstacle, x_hit, z_hit),
            !x_hit ==> final(self).position.x == candidate.x,
            !z_hit ==> final(self).position.z == candidate.z,
            x_hit && !on_obstacle ==> final(self).position.x == old(self).position.x,
            z_hit && !on_obstacle ==> final(self).position.z == old(self).position.z,
            final(self).position.y == old(self).position.y,
    {
        if on_obstacle || !x_hit {
            self.position.x = candidate.x;
        }
        if on_obstacle || !z_hit {
            self.position.z = candidate.z;
        }
    }

    /// Ends a movement tick: starts or clears the movement episode.
    pub fn note_motion(&mut self, moved: bool, now: u64)
        ensures
            *final(self) == (Player {
                last_move_timestamp: motion_timestamp(*old(self), moved, now),
                ..*old(self)
            }),
    {
        if moved && self.last_move_timestamp.is_none() {
            self.last_move_timestamp = Some(now);
        } else if !moved && self.jump.is_none() {
            self.last_move_timestamp = None;
        }
    }

    /// One movement tick. `contact_at` answers where the player's box,
    /// centred at a point, touches the level, and with which contact. A
    /// reload intent reloads the weapon at `now`. Returns whether any
    /// direction intent was pressed.
    pub fn movement<F: Fn(Vec3) -> Option<Contact>>(&mut self, input: &MoveInput, now: u64, contact_at: F) -> (moved: bool)
        requires
            old(self).wf(),
            old(self).in_bounds(),
            forall|p: Vec3| call_requires(contact_at, (p,)),
            forall|p: Vec3, c: Option<Contact>| call_ensures(contact_at, (p,), c) ==> contact_in_bounds(c),
        ensures
            moved == any_direction(*input),
            final(self).wf(),
            exists|c: Option<Contact>, xc: Option<Contact>, zc: Option<Contact>|
                call_ensures(contact_at, (old(self).position,), c)
                && call_ensures(contact_at, (x_probe(*old(self), *input, now, c),), xc)
                && call_ensures(contact_at, (z_probe(*old(self), *input, now, c),), zc)
                && *final(self) == movement_step(*old(self), *input, now, c, xc is Some, zc is Some),
    {
        let ghost start = *self;
        if input.walk_toggle {
            self.walking = !self.walking;
        }
        let just_jumped = self.press_jump(input.jump, now);
        let ghost intents = *self;
        assert(intents == after_intents(start, *input, now));
        let candidate = self.candidate_position(input);
        let moved = input.forward || input.back || input.left || input.right;
        let contact = contact_at(self.position);
        let on_obstacle = self.resolve_vertical(contact, just_jumped, now);
        assert((*self, on_obstacle) == vertical_phase(start, *input, now, contact));
        let x_at = Vec3 { x: candidate.x, y: self.position.y, z: self.position.z };
        let z_at = Vec3 { x: self.position.x, y: self.position.y, z: candidate.z };
        assert(x_at == x_probe(start, *input, now, contact));
        assert(z_at == z_probe(start, *input, now, contact));
        let x_contact = contact_at(x_at);
        let z_contact = contact_at(z_at);
        self.resolve_horizontal(candidate, on_obstacle, x_contact.is_some(), z_contact.is_some());
        if input.reload {
            self.reload(now);
        }
        self.note_motion(moved, now);
        assert(*self == movement_step(start, *input, now, contact, x_contact is Some, z_contact is Some));
        assert(call_ensures(contact_at, (start.position,), contact));
        moved
    }

    /// Records the position in the player's own window once a tick has
    /// passed since the last record; returns whether it did, in which case
    /// the position is due to be broadcast.
    pub fn record_tick(&mut self, now: u64) -> (due: bool)
        requires
            old(self).wf(),
        ensures
            final(self).wf(),
            due == (elapsed(old(self).last_tick_timestamp, now) >= DURATION_PER_TICK),
            due ==> final(self).ticks@ == window_after(old(self).ticks@, Some(old(self).position))
                && final(self).last_tick_timestamp == now,
            !due ==> *final(self) == *old(self),
            final(self).position == old(self).position,
    {
        if elapsed_exec(self.last_tick_timestamp, now) >= DURATION_PER_TICK {
            self.last_tick_timestamp = now;
            let p = self.position;
            self.ticks.record(Some(p));
            true
        } else {
            false
        }
    }

    /// Tells whether `in_bounds` holds.
    pub fn within_limits(&self) -> (r: bool)
        ensures
            r == self.in_bounds(),
    {
        let p = self.position;
        let coords = -COORD_LIMIT <= p.x && p.x <= COORD_LIMIT && -COORD_LIMIT <= p.y && p.y
            <= COORD_LIMIT && -COORD_LIMIT <= p.z && p.z <= COORD_LIMIT;
        match self.jump {
            Some(v) => coords && -COORD_LIMIT <= v && v <= COORD_LIMIT,
            None => coords,
        }
    }

    /// The position the pressed intents lead to, before collisions: the
    /// intents summed, scaled to the current speed.
    pub fn candidate_position(&self, input: &MoveInput) -> (r: Vec3)
        requires
            self.wf(),
            self.in_bounds(),
        ensures
            r == self.candidate(*input),
            bounded_by(r, COORD_LIMIT + 2 * UNIT),
    {
        let flat = scale_to(Vec3 { x: self.front.x, y: 0, z: self.front.z }, UNIT);
        let zero = Vec3 { x: 0, y: 0, z: 0 };
        let mut sum = if input.forward { flat } else { zero };
        if input.back {
            sum = Vec3 { x: sum.x - flat.x, y: sum.y - flat.y, z: sum.z - flat.z };
        }
        if input.left {
            sum = Vec3 { x: sum.x - self.right.x, y: sum.y - self.right.y, z: sum.z - self.right.z };
        }
        if input.right {
            sum = Vec3 { x: sum.x + self.right.x, y: sum.y + self.right.y, z: sum.z + self.right.z };
        }
        proof {
            assert(sum == intent_sum(flat, self.right, *input));
        }
        let speed = if self.crouched {
            CROUCH_SPEED
        } else if self.walking {
            WALKING_SPEED
        } else {
            MOVE_SPEED
        };
        let d = scale_to(sum, speed);
        Vec3 { x: self.position.x + d.x, y: self.position.y + d.y, z: self.position.z + d.z }
    }
}

} // verus!
