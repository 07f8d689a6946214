//! The weapon: magazine and reload, shot timing, accuracy spread, and the
//! hit-scan against the peers' recorded positions.
use vstd::prelude::*;
use rand::Rng;
use rand::rngs::StdRng;
use crate::geometry::{Ray, Vec3, UNIT, bounded_by, trunc_div};
use crate::player::{Contact, MoveInput, Player, any_direction, movement_step};
use crate::registry::{Registry, hits_marked};
use crate::history::{elapsed, elapsed_exec};

verus! {

/// Shots in a full magazine.
pub const BULLETS_BEFORE_RELOAD: u8 = 30;
/// Minimum time between two shots, in nanoseconds.
pub const BULLET_INTERVAL: u64 = 100_000_000;
/// Time a reload takes, in nanoseconds.
pub const RELOAD_DURATION: u64 = 2_000_000_000;
/// Continuous movement after which the spread is at its widest, in nanoseconds.
pub const BULLET_SPREAD_PERIOD: u64 = 10_000_000_000;
/// Largest random offset of a direction component, about a tenth of pi.
pub const BULLET_SPREAD: i64 = 3_142;
/// The spread level that stands for full spread.
pub const SPREAD_SCALE: u64 = 1_000_000;

/// A shot: the ray it was fired along and when it was fired.
#[derive(Clone, Copy, Debug, PartialEq, Eq, Structural)]
pub struct Bullet {
    pub ray: Ray,
    pub born: u64,
}

/// rand's standard generator, carried through without looking inside.
#[verifier::external_type_specification]
#[verifier::external_body]
pub struct ExStdRng(StdRng);

/// Relies on rand's `Rng::random_range` over a half-open integer range: a
/// value in `[-bound, bound)`; the range is not empty, so it does not panic.
#[verifier::external_body]
fn random_offset(rng: &mut StdRng, bound: i64) -> (r: i64)
    requires
        bound > 0,
    ensures
        -bound <= r < bound,
{
    rng.random_range(-bound..bound)
}

/// Every rule that lets a shot go: trigger held, a round left, no reload
/// under way, and the interval since the last shot passed.
pub open spec fn fire_allowed(p: Player, trigger: bool, now: u64) -> bool {
    &&& trigger
    &&& p.bullets_since_last_reload < BULLETS_BEFORE_RELOAD
    &&& match p.last_reload_timestamp {
        Some(t) => elapsed(t, now) > RELOAD_DURATION,
        None => true,
    }
    &&& match p.last_bullet_timestamp {
        Some(t) => elapsed(t, now) > BULLET_INTERVAL,
        None => true,
    }
}

/// The share of the spread period spent moving since `last_move`, in
/// parts of `SPREAD_SCALE`, at most full spread.
pub open spec fn spread_level_at(last_move: Option<u64>, now: u64) -> int {
    match last_move {
        Some(t) => {
            let l = elapsed(t, now) * SPREAD_SCALE / (BULLET_SPREAD_PERIOD as int);
            if l >= SPREAD_SCALE {
                SPREAD_SCALE as int
            } else {
                l
            }
        },
        None => 0,
    }
}

/// A shot is inaccurate when the player stands up and moves or flies.
pub open spec fn inaccurate(p: Player, moved: bool) -> bool {
    !p.crouched && (p.jump is Some || moved)
}

/// Offsets that `random_offset` may draw.
pub open spec fn offsets_in_range(o: Vec3) -> bool {
    -BULLET_SPREAD <= o.x < BULLET_SPREAD && -BULLET_SPREAD <= o.y < BULLET_SPREAD && -BULLET_SPREAD
        <= o.z < BULLET_SPREAD
}

/// One component of the shot direction.
pub open spec fn spread_component(front: i64, offset: i64, inaccurate: bool, level: int) -> i64 {
    if inaccurate {
        (front + trunc_div(offset * level, SPREAD_SCALE as int)) as i64
    } else {
        front
    }
}

/// The direction of a shot: the view direction, and for an inaccurate shot
/// the random offsets scaled by the spread level.
pub open spec fn shot_direction(p: Player, moved: bool, now: u64, o: Vec3) -> Vec3 {
    let bad = inaccurate(p, moved);
    let level = spread_level_at(p.last_move_timestamp, now);
    Vec3 {
        x: spread_component(p.front.x, o.x, bad, level),
        y: spread_component(p.front.y, o.y, bad, level),
        z: spread_component(p.front.z, o.z, bad, level),
    }
}

/// The player after a shot at `now`.
pub open spec fn after_shot(p: Player, now: u64) -> Player {
    Player {
        bullets_since_last_reload: (p.bullets_since_last_reload + 1) as u8,
        last_bullet_timestamp: Some(now),
        ..p
    }
}

/// The player after a reload started at `now`.
pub open spec fn after_reload(p: Player, now: u64) -> Player {
    Player { bullets_since_last_reload: 0, last_reload_timestamp: Some(now), ..p }
}

/// The spread level always lies between none and full spread.
pub proof fn lemma_spread_clamped(last_move: Option<u64>, now: u64)
    ensures
        0 <= spread_level_at(last_move, now) <= SPREAD_SCALE,
{
    if let Some(t) = last_move {
        assert(0 <= elapsed(t, now) * SPREAD_SCALE / (BULLET_SPREAD_PERIOD as int)) by (nonlinear_arith)
            requires
                0 <= elapsed(t, now),
        ;
    }
}

/// Within one episode of movement the spread level never decreases.
pub proof fn lemma_spread_monotone(t: u64, now: u64, later: u64)
    requires
        now <= later,
    ensures
        spread_level_at(Some(t), now) <= spread_level_at(Some(t), later),
{
    let a = elapsed(t, now) * SPREAD_SCALE;
    let b = elapsed(t, later) * SPREAD_SCALE;
    assert(a <= b) by (nonlinear_arith)
        requires
            a == elapsed(t, now) * SPREAD_SCALE,
            b == elapsed(t, later) * SPREAD_SCALE,
            elapsed(t, now) <= elapsed(t, later),
    ;
    assert(a / (BULLET_SPREAD_PERIOD as int) <= b / (BULLET_SPREAD_PERIOD as int)) by (nonlinear_arith)
        requires
            a <= b,
    ;
}

/// A tick that moves, or ends airborne, keeps the episode that had begun,
/// so the spread keeps growing from the same start.
pub proof fn lemma_spread_episode_kept(
    p: Player,
    input: MoveInput,
    now: u64,
    c: Option<Contact>,
    x_hit: bool,
    z_hit: bool,
    t: u64,
)
    requires
        p.last_move_timestamp == Some(t),
        any_direction(input) || movement_step(p, input, now, c, x_hit, z_hit).jump is Some,
    ensures
        movement_step(p, input, now, c, x_hit, z_hit).last_move_timestamp == Some(t),
{
}

/// A tick that ends still and grounded resets the spread to none.
pub proof fn lemma_spread_resets(
    p: Player,
    input: MoveInput,
    now: u64,
    c: Option<Contact>,
    x_hit: bool,
    z_hit: bool,
    later: u64,
)
    requires
        !any_direction(input),
        movement_step(p, input, now, c, x_hit, z_hit).jump is None,
    ensures
        spread_level_at(movement_step(p, input, now, c, x_hit, z_hit).last_move_timestamp, later) == 0,
{
}

/// The magazine bound: an empty magazine refuses every shot, and a shot
/// that goes keeps the count within the magazine.
pub proof fn lemma_magazine_bound(p: Player, trigger: bool, now: u64)
    requires
        p.wf(),
    ensures
        p.bullets_since_last_reload == BULLETS_BEFORE_RELOAD ==> !fire_allowed(p, trigger, now),
        fire_allowed(p, trigger, now) ==> after_shot(p, now).wf(),
{
}

/// A reload pressed during a movement tick refills the magazine at that
/// tick's time.
pub proof fn lemma_reload_in_tick(
    p: Player,
    input: MoveInput,
    now: u64,
    c: Option<Contact>,
    x_hit: bool,
    z_hit: bool,
)
    requires
        input.reload,
    ensures
        movement_step(p, input, now, c, x_hit, z_hit).bullets_since_last_reload == 0,
        movement_step(p, input, now, c, x_hit, z_hit).last_reload_timestamp == Some(now),
{
}

/// A reload refills the magazine, and no shot goes until the whole reload
/// duration has passed.
pub proof fn lemma_reload_waits(p: Player, started: u64, trigger: bool, now: u64)
    ensures
        after_reload(p, started).bullets_since_last_reload == 0,
        fire_allowed(after_reload(p, started), trigger, now) ==> now > started + RELOAD_DURATION,
{
}

fn spread_component_exec(front: i64, offset: i64, inaccurate: bool, level: u64) -> (r: i64)
    requires
        -UNIT <= front <= UNIT,
        -BULLET_SPREAD <= offset <= BULLET_SPREAD,
        level <= SPREAD_SCALE,
    ensures
        r == spread_component(front, offset, inaccurate, level as int),
        -UNIT - BULLET_SPREAD <= r <= UNIT + BULLET_SPREAD,
{
    if inaccurate {
        let l = level as i64;
        assert(-BULLET_SPREAD * SPREAD_SCALE <= offset * l <= BULLET_SPREAD * SPREAD_SCALE) by (nonlinear_arith)
            requires
                -BULLET_SPREAD <= offset <= BULLET_SPREAD,
                0 <= l <= SPREAD_SCALE,
        ;
        let m = offset * l;
        let d: i64 = if m >= 0 {
            m / (SPREAD_SCALE as i64)
        } else {
            -((-m) / (SPREAD_SCALE as i64))
        };
        assert(-BULLET_SPREAD <= d <= BULLET_SPREAD);
        front + d
    } else {
        front
    }
}

impl Player {
    /// Whether a shot may go at `now`.
    pub fn can_fire(&self, trigger: bool, now: u64) -> (r: bool)
        ensures
            r == fire_allowed(*self, trigger, now),
    {
        let reloaded = match self.last_reload_timestamp {
            Some(t) => elapsed_exec(t, now) > RELOAD_DURATION,
            None => true,
        };
        let rested = match self.last_bullet_timestamp {
            Some(t) => elapsed_exec(t, now) > BULLET_INTERVAL,
            None => true,
        };
        trigger && self.bullets_since_last_reload < BULLETS_BEFORE_RELOAD && reloaded && rested
    }

    /// Manual reload: the magazine is full again once the reload duration
    /// has passed.
    pub fn reload(&mut self, now: u64)
        ensures
            *final(self) == after_reload(*old(self), now),
    {
        self.bullets_since_last_reload = 0;
        self.last_reload_timestamp = Some(now);
    }

    /// The spread level at `now`, in parts of `SPREAD_SCALE`.
    pub fn spread_level(&self, now: u64) -> (r: u64)
        ensures
            r == spread_level_at(self.last_move_timestamp, now),
            r <= SPREAD_SCALE,
    {
        match self.last_move_timestamp {
            Some(t) => {
                let e = elapsed_exec(t, now);
                if e >= BULLET_SPREAD_PERIOD {
                    assert(e * SPREAD_SCALE / (BULLET_SPREAD_PERIOD as int) >= SPREAD_SCALE) by (nonlinear_arith)
                        requires
                            e >= BULLET_SPREAD_PERIOD,
                    ;
                    SPREAD_SCALE
                } else {
                    assert(e * SPREAD_SCALE < BULLET_SPREAD_PERIOD * SPREAD_SCALE) by (nonlinear_arith)
                        requires
                            e < BULLET_SPREAD_PERIOD,
                    ;
                    assert(e * SPREAD_SCALE / (BULLET_SPREAD_PERIOD as int) < SPREAD_SCALE) by (nonlinear_arith)
                        requires
                            e < BULLET_SPREAD_PERIOD,
                    ;
                    e * SPREAD_SCALE / BULLET_SPREAD_PERIOD
                }
            },
            None => 0,
        }
    }

    /// Whether a shot now would be inaccurate.
    pub fn is_inaccurate(&self, moved: bool) -> (r: bool)
        ensures
            r == inaccurate(*self, moved),
    {
        !self.crouched && (self.jump.is_some() || moved)
    }

    /// The direction of a shot with the random offsets `offsets`.
    pub fn aim(&self, moved: bool, now: u64, offsets: Vec3) -> (r: Vec3)
        requires
            self.wf(),
            offsets_in_range(offsets),
        ensures
            r == shot_direction(*self, moved, now, offsets),
            bounded_by(r, UNIT + BULLET_SPREAD),
    {
        let bad = self.is_inaccurate(moved);
        let level = self.spread_level(now);
        Vec3 {
            x: spread_component_exec(self.front.x, offsets.x, bad, level),
            y: spread_component_exec(self.front.y, offsets.y, bad, level),
            z: spread_component_exec(self.front.z, offsets.z, bad, level),
        }
    }

    /// Fires if the rules allow it: uses a round, draws the spread offsets,
    /// and marks killed every peer that `hit` finds along the shot at some
    /// sample of its window. Returns the shot, or `None` when no shot went.
    pub fn bullets<H: Fn(Ray, Vec3) -> bool>(
        &mut self,
        peers: &mut Registry,
        trigger: bool,
        moved: bool,
        now: u64,
        rng: &mut StdRng,
        hit: H,
    ) -> (r: Option<Bullet>)
        requires
            old(self).wf(),
            old(peers).wf(),
            forall|q: Ray, p: Vec3| call_requires(hit, (q, p)),
        ensures
            final(self).wf(),
            final(peers).wf(),
            !fire_allowed(*old(self), trigger, now) ==> r is None && *final(self) == *old(self)
                && final(peers)@ == old(peers)@ && *final(rng) == *old(rng),
            fire_allowed(*old(self), trigger, now) ==> {
                &&& *final(self) == after_shot(*old(self), now)
                &&& r is Some
                &&& r.unwrap().born == now
                &&& r.unwrap().ray.origin == old(self).position
                &&& exists|o: Vec3| offsets_in_range(o) && r.unwrap().ray.direction == shot_direction(*old(self), moved, now, o)
                &&& hits_marked(old(peers)@, final(peers)@, r.unwrap().ray, hit)
            },
    {
        if !self.can_fire(trigger, now) {
            return None;
        }
        let ghost start = *self;
        let offsets = Vec3 {
            x: random_offset(rng, BULLET_SPREAD),
            y: random_offset(rng, BULLET_SPREAD),
            z: random_offset(rng, BULLET_SPREAD),
        };
        let direction = self.aim(moved, now, offsets);
        let ray = Ray { origin: self.position, direction };
        self.bullets_since_last_reload = self.bullets_since_last_reload + 1;
        self.last_bullet_timestamp = Some(now);
        peers.mark_hits(ray, hit);
        assert(offsets_in_range(offsets) && ray.direction == shot_direction(start, moved, now, offsets));
        Some(Bullet { ray, born: now })
    }
}

} // verus!
