//! The simulation world: players, pickups, the spawn timer and the cameras.
//!
//! All geometry is fixed-point (see [`crate::fixed`]): a joystick axis of
//! `1000` means full deflection, a speed of `100` means one hundred world
//! units per second, and positions are milli-units. `tick` advances the
//! world by a whole number of milliseconds and never fails.

use vstd::prelude::*;
use crate::fixed::{Vec2, clamped, clamp_i64, MAX_COORD};
use crate::camera::Camera2d;
use crate::collision::resolve_collisions;

verus! {

/// Full deflection of a joystick axis.
pub const JOY_MAX: i64 = 1000;

/// Largest admissible player speed, in world units per second.
pub const MAX_SPEED: i64 = 1_000_000;

/// Largest admissible collision radius, in milli-units.
pub const MAX_RADIUS: i64 = 1_000_000;

/// Largest single tick duration, in milliseconds.
pub const MAX_DT_MS: u64 = 1_000_000_000;

/// Collision radius given to a new player, in milli-units (10 units).
pub const PLAYER_RADIUS: i64 = 10_000;

/// Speed given to a new player, in world units per second.
pub const PLAYER_SPEED: i64 = 100;

/// Score value carried by every spawned pickup.
pub const PICKUP_VALUE: u64 = 1;

/// Half-side of the square pickups spawn in, in milli-units (100 units).
pub const SPAWN_HALF: i64 = 100_000;

/// A stable index into the player list; players are never removed.
#[derive(Debug, Clone, Copy, PartialEq, Eq, Structural)]
pub struct PlayerId(pub usize);

/// One joystick axis change for one player.
pub struct InputEvent {
    pub id: PlayerId,
    pub input: Input,
}

/// A joystick axis value in milli-deflection; it is clamped to
/// `[-JOY_MAX, JOY_MAX]` when applied.
pub enum Input {
    X(i64),
    Y(i64),
}

#[derive(Debug, Clone, Copy, PartialEq, Eq, Structural)]
pub struct Player {
    /// Collision radius, milli-units.
    pub size: i64,
    /// Position, milli-units.
    pub position: Vec2,
    /// Total score; never decreases.
    pub score: u64,
    /// Current input intent, each axis in `[-JOY_MAX, JOY_MAX]`.
    pub joystick: Vec2,
    /// Movement speed at full deflection, world units per second.
    pub speed: i64,
}

#[derive(Debug, Clone, Copy, PartialEq, Eq, Structural)]
pub struct Pickup {
    /// Position, milli-units.
    pub position: Vec2,
    /// Score awarded to the player that collects it.
    pub value: u64,
}

/// Why a world could not be constructed.
#[derive(Debug, Clone, Copy, PartialEq, Eq, Structural)]
pub enum GameError {
    /// The spawn interval was zero; spawning would never terminate a tick.
    ZeroSpawnInterval,
}

pub open spec fn wf_player(p: Player) -> bool {
    &&& p.position.in_world()
    &&& -JOY_MAX <= p.joystick.x <= JOY_MAX
    &&& -JOY_MAX <= p.joystick.y <= JOY_MAX
    &&& 0 <= p.speed <= MAX_SPEED
    &&& 0 <= p.size <= MAX_RADIUS
}

pub open spec fn wf_pickup(q: Pickup) -> bool {
    q.position.in_world()
}

/// Sum of all player scores.
pub open spec fn sum_scores(s: Seq<Player>) -> nat
    decreases s.len(),
{
    if s.len() == 0 {
        0
    } else {
        (sum_scores(s.drop_last()) + s.last().score) as nat
    }
}

/// Sum of all pickup values.
pub open spec fn sum_values(s: Seq<Pickup>) -> nat
    decreases s.len(),
{
    if s.len() == 0 {
        0
    } else {
        (sum_values(s.drop_last()) + s.last().value) as nat
    }
}

pub proof fn lemma_sum_scores_push(s: Seq<Player>, p: Player)
    ensures
        sum_scores(s.push(p)) == sum_scores(s) + p.score,
{
    assert(s.push(p).drop_last() =~= s);
}

pub proof fn lemma_sum_values_push(s: Seq<Pickup>, q: Pickup)
    ensures
        sum_values(s.push(q)) == sum_values(s) + q.value,
{
    assert(s.push(q).drop_last() =~= s);
}

/// Value sums split over concatenation.
pub proof fn lemma_sum_values_add(a: Seq<Pickup>, b: Seq<Pickup>)
    ensures
        sum_values(a + b) == sum_values(a) + sum_values(b),
    decreases b.len(),
{
    if b.len() == 0 {
        assert(a + b =~= a);
    } else {
        assert((a + b).drop_last() =~= a + b.drop_last());
        lemma_sum_values_add(a, b.drop_last());
    }
}

/// Replacing one player changes the score sum by the score difference.
pub proof fn lemma_sum_scores_update(s: Seq<Player>, i: int, p: Player)
    requires
        0 <= i < s.len(),
    ensures
        sum_scores(s.update(i, p)) + s[i].score == sum_scores(s) + p.score,
    decreases s.len(),
{
    if i == s.len() - 1 {
        assert(s.update(i, p).drop_last() =~= s.drop_last());
    } else {
        assert(s.update(i, p).drop_last() =~= s.drop_last().update(i, p));
        lemma_sum_scores_update(s.drop_last(), i, p);
    }
}

/// Replacing one pickup changes the value sum by the value difference.
pub proof fn lemma_sum_values_update(s: Seq<Pickup>, i: int, q: Pickup)
    requires
        0 <= i < s.len(),
    ensures
        sum_values(s.update(i, q)) + s[i].value == sum_values(s) + q.value,
    decreases s.len(),
{
    if i == s.len() - 1 {
        assert(s.update(i, q).drop_last() =~= s.drop_last());
    } else {
        assert(s.update(i, q).drop_last() =~= s.drop_last().update(i, q));
        lemma_sum_values_update(s.drop_last(), i, q);
    }
}

/// Score sums ignore everything but scores.
pub proof fn lemma_sum_scores_same(a: Seq<Player>, b: Seq<Player>)
    requires
        a.len() == b.len(),
        forall|i: int| 0 <= i < a.len() ==> a[i].score == #[trigger] b[i].score,
    ensures
        sum_scores(a) == sum_scores(b),
    decreases a.len(),
{
    if a.len() > 0 {
        lemma_sum_scores_same(a.drop_last(), b.drop_last());
    }
}

/// Division by the fixed-point scale that matches Rust's truncating `/`.
pub open spec fn div_milli(p: int) -> int {
    if p >= 0 {
        p / 1000
    } else {
        -((-p) / 1000)
    }
}

/// One axis of first-order integration: the position moves by
/// `joystick * speed * dt` milli-units per 1000 milliseconds, then is
/// clamped into the world.
pub open spec fn moved_axis(pos: int, joy: int, speed: int, dt: int) -> int {
    clamped(pos + div_milli(joy * speed * dt), -MAX_COORD as int, MAX_COORD as int)
}

/// A player after one integration step: `velocity = joystick * speed`,
/// `position += velocity * dt`; everything else is unchanged.
pub open spec fn integrated(p: Player, dt: int) -> Player {
    Player {
        position: Vec2 {
            x: moved_axis(p.position.x as int, p.joystick.x as int, p.speed as int, dt) as i64,
            y: moved_axis(p.position.y as int, p.joystick.y as int, p.speed as int, dt) as i64,
        },
        ..p
    }
}

/// Every player after one integration step.
pub open spec fn integrated_seq(s: Seq<Player>, dt: int) -> Seq<Player> {
    Seq::new(s.len(), |i: int| integrated(s[i], dt))
}

/// What holds of every pickup the spawn phase creates: the fixed value, and
/// a position inside the spawn square.
pub open spec fn spawn_ok(q: Pickup) -> bool {
    &&& q.value == PICKUP_VALUE
    &&& -SPAWN_HALF <= q.position.x < SPAWN_HALF
    &&& -SPAWN_HALF <= q.position.y < SPAWN_HALF
}

/// `mid` is `base` with `n` spawned pickups appended.
pub open spec fn spawned_suffix_ok(mid: Seq<Pickup>, base: Seq<Pickup>, n: int) -> bool {
    &&& mid.len() == base.len() + n
    &&& mid.take(base.len() as int) == base
    &&& forall|k: int| base.len() <= k < mid.len() ==> spawn_ok(#[trigger] mid[k])
}

/// One axis of integration, executable.
fn move_axis(pos: i64, joy: i64, speed: i64, dt: u64) -> (r: i64)
    requires
        -MAX_COORD <= pos <= MAX_COORD,
        -JOY_MAX <= joy <= JOY_MAX,
        0 <= speed <= MAX_SPEED,
        dt <= MAX_DT_MS,
    ensures
        r == moved_axis(pos as int, joy as int, speed as int, dt as int),
        -MAX_COORD <= r <= MAX_COORD,
{
    proof {
        assert(-1_000_000_000 <= joy * speed <= 1_000_000_000) by (nonlinear_arith)
            requires
                -1000 <= joy <= 1000,
                0 <= speed <= 1_000_000,
        ;
    }
    let v: i64 = joy * speed;
    let dti: i64 = dt as i64;
    proof {
        assert(-1_000_000_000_000_000_000 <= v * dti <= 1_000_000_000_000_000_000)
            by (nonlinear_arith)
            requires
                -1_000_000_000 <= v <= 1_000_000_000,
                0 <= dti <= 1_000_000_000,
        ;
    }
    let prod: i64 = v * dti;
    let d: i64 = if prod >= 0 {
        prod / 1000
    } else {
        -((-prod) / 1000)
    };
    clamp_i64(pos + d, -MAX_COORD, MAX_COORD)
}

/// Integrate every player by `dt` milliseconds.
fn integrate_players(players: &mut Vec<Player>, dt: u64)
    requires
        forall|i: int| 0 <= i < old(players)@.len() ==> wf_player(#[trigger] old(players)@[i]),
        dt <= MAX_DT_MS,
    ensures
        final(players)@ == integrated_seq(old(players)@, dt as int),
        forall|i: int| 0 <= i < final(players)@.len() ==> wf_player(#[trigger] final(players)@[i]),
{
    let ghost p0 = old(players)@;
    let n = players.len();
    let mut i: usize = 0;
    while i < n
        invariant
            n == p0.len(),
            i <= n,
            players@.len() == n,
            forall|k: int| 0 <= k < p0.len() ==> wf_player(#[trigger] p0[k]),
            forall|k: int| 0 <= k < i ==> players@[k] == integrated(p0[k], dt as int),
            forall|k: int| i <= k < n ==> players@[k] == p0[k],
            dt <= MAX_DT_MS,
        decreases n - i,
    {
        let p = players[i];
        proof {
            assert(p == p0[i as int]);
            assert(wf_player(p0[i as int]));
        }
        let np = Player {
            position: Vec2 {
                x: move_axis(p.position.x, p.joystick.x, p.speed, dt),
                y: move_axis(p.position.y, p.joystick.y, p.speed, dt),
            },
            ..p
        };
        players[i] = np;
        i += 1;
    }
    proof {
        assert(players@ =~= integrated_seq(p0, dt as int));
        assert forall|k: int| 0 <= k < players@.len() implies wf_player(#[trigger] players@[k]) by {
            assert(players@[k] == integrated(p0[k], dt as int));
        }
    }
}

/// Conservation: in a well-formed world the score already awarded, plus the
/// value still waiting on the field, never exceeds the total value of the
/// pickups ever spawned; in particular no pickup's value is ever credited
/// twice. `tick`, and every other method, preserves well-formedness, so
/// this holds at every step.
pub proof fn lemma_conservation(g: Game)
    requires
        g.wf(),
    ensures
        sum_scores(g.players@) + sum_values(g.pickups@) <= g.spawned_value@,
        sum_scores(g.players@) <= g.spawned_value@,
{
}

/// The world.
pub struct Game {
    pub players: Vec<Player>,
    pub pickups: Vec<Pickup>,
    pub camera: Camera2d,
    pub ui_camera: Camera2d,
    /// Spawn interval, milliseconds; always positive.
    pub pickup_timer: u64,
    /// Time owed to the spawn phase, milliseconds; below `pickup_timer`
    /// whenever a tick is not in progress.
    pub pickup_accumulator: u64,
    /// Total value of every pickup ever spawned.
    pub spawned_value: Ghost<nat>,
}

impl Game {
    /// Well-formedness: bounded players and pickups, a positive spawn
    /// interval with its accumulator strictly below it, bounded cameras, and
    /// conservation: score already awarded plus value still on the field
    /// never exceeds the value ever spawned.
    pub open spec fn wf(self) -> bool {
        &&& forall|i: int| 0 <= i < self.players@.len() ==> wf_player(#[trigger] self.players@[i])
        &&& forall|j: int| 0 <= j < self.pickups@.len() ==> wf_pickup(#[trigger] self.pickups@[j])
        &&& 0 < self.pickup_timer
        &&& self.pickup_accumulator < self.pickup_timer
        &&& sum_scores(self.players@) + sum_values(self.pickups@) <= self.spawned_value@
        &&& self.camera.wf()
        &&& self.ui_camera.wf()
    }

    /// An empty world. Rejects a zero spawn interval: the spawn loop of a
    /// tick would otherwise never terminate.
    pub fn new(pickup_timer: u64) -> (r: Result<Game, GameError>)
        ensures
            pickup_timer > 0 <==> r is Ok,
            pickup_timer == 0 <==> r == Result::<Game, GameError>::Err(GameError::ZeroSpawnInterval),
            r matches Ok(g) ==> {
                &&& g.wf()
                &&& g.players@.len() == 0
                &&& g.pickups@.len() == 0
                &&& g.pickup_timer == pickup_timer
                &&& g.pickup_accumulator == 0
                &&& g.spawned_value@ == 0
                &&& g.camera == (Camera2d { width: 1000, height: 1000, position: Vec2 { x: 0, y: 0 } })
                &&& g.ui_camera == (Camera2d { width: 1000, height: 1000, position: Vec2 { x: 0, y: 0 } })
            },
    {
        if pickup_timer == 0 {
            return Err(GameError::ZeroSpawnInterval);
        }
        Ok(Game {
            players: Vec::new(),
            pickups: Vec::new(),
            camera: Camera2d::new(1000, 1000, Vec2::zero()),
            ui_camera: Camera2d::new(1000, 1000, Vec2::zero()),
            pickup_timer,
            pickup_accumulator: 0,
            spawned_value: Ghost(0nat),
        })
    }

    /// The player a new player starts as.
    pub open spec fn fresh_player() -> Player {
        Player {
            size: PLAYER_RADIUS,
            position: Vec2 { x: 0, y: 0 },
            score: 0,
            joystick: Vec2 { x: 0, y: 0 },
            speed: PLAYER_SPEED,
        }
    }

    /// Append a new player at the origin and hand back its stable id.
    pub fn spawn_player(&mut self) -> (id: PlayerId)
        requires
            old(self).wf(),
        ensures
            final(self).wf(),
            id.0 == old(self).players@.len(),
            final(self).players@ == old(self).players@.push(Game::fresh_player()),
            final(self).pickups == old(self).pickups,
            final(self).camera == old(self).camera,
            final(self).ui_camera == old(self).ui_camera,
            final(self).pickup_timer == old(self).pickup_timer,
            final(self).pickup_accumulator == old(self).pickup_accumulator,
            final(self).spawned_value == old(self).spawned_value,
    {
        let id = PlayerId(self.players.len());
        self.players.push(Player {
            size: PLAYER_RADIUS,
            position: Vec2::zero(),
            joystick: Vec2::zero(),
            score: 0,
            speed: PLAYER_SPEED,
        });
        proof {
            lemma_sum_scores_push(old(self).players@, Game::fresh_player());
        }
        id
    }

    /// The player `event.id` refers to, with the named joystick axis set to
    /// the clamped value and everything else unchanged.
    pub open spec fn with_input(p: Player, input: Input) -> Player {
        match input {
            Input::X(v) => Player {
                joystick: Vec2 { x: clamped(v as int, -JOY_MAX as int, JOY_MAX as int) as i64, y: p.joystick.y },
                ..p
            },
            Input::Y(v) => Player {
                joystick: Vec2 { x: p.joystick.x, y: clamped(v as int, -JOY_MAX as int, JOY_MAX as int) as i64 },
                ..p
            },
        }
    }

    /// Apply one joystick axis change. The axis is clamped to
    /// `[-JOY_MAX, JOY_MAX]`; position, score, speed and size are untouched.
    pub fn handle_input(&mut self, event: InputEvent)
        requires
            old(self).wf(),
            event.id.0 < old(self).players@.len(),
        ensures
            final(self).wf(),
            final(self).players@ == old(self).players@.update(
                event.id.0 as int,
                Game::with_input(old(self).players@[event.id.0 as int], event.input),
            ),
            final(self).pickups == old(self).pickups,
            final(self).camera == old(self).camera,
            final(self).ui_camera == old(self).ui_camera,
            final(self).pickup_timer == old(self).pickup_timer,
            final(self).pickup_accumulator == old(self).pickup_accumulator,
            final(self).spawned_value == old(self).spawned_value,
    {
        let i = event.id.0;
        let p = self.players[i];
        let np = match event.input {
            Input::X(v) => Player {
                joystick: Vec2 { x: clamp_i64(v, -JOY_MAX, JOY_MAX), y: p.joystick.y },
                ..p
            },
            Input::Y(v) => Player {
                joystick: Vec2 { x: p.joystick.x, y: clamp_i64(v, -JOY_MAX, JOY_MAX) },
                ..p
            },
        };
        proof {
            lemma_sum_scores_update(self.players@, i as int, np);
        }
        self.players[i] = np;
    }

    /// Recompute both cameras for a new frame size: the world camera keeps
    /// half the frame as its extents, the UI camera takes the full frame
    /// with its vertical axis flipped and its centre moved so the origin
    /// sits at the conventional screen corner.
    pub fn resize(&mut self, width: u32, height: u32)
        requires
            old(self).wf(),
        ensures
            final(self).wf(),
            final(self).camera.width == width as int * 500,
            final(self).camera.height == height as int * 500,
            final(self).camera.position == old(self).camera.position,
            final(self).ui_camera.width == width as int * 1000,
            final(self).ui_camera.height == -(height as int) * 1000,
            final(self).ui_camera.position.x == width as int * 250,
            final(self).ui_camera.position.y == height as int * 250,
            final(self).players == old(self).players,
            final(self).pickups == old(self).pickups,
            final(self).pickup_timer == old(self).pickup_timer,
            final(self).pickup_accumulator == old(self).pickup_accumulator,
            final(self).spawned_value == old(self).spawned_value,
    {
        let w = width as i64;
        let h = height as i64;
        self.camera.width = w * 500;
        self.camera.height = h * 500;
        self.ui_camera.width = w * 1000;
        self.ui_camera.height = -(h * 1000);
        self.ui_camera.position.x = w * 250;
        self.ui_camera.position.y = h * 250;
    }

    /// Spawn phase: while at least one player exists, the elapsed time is
    /// added to the accumulator, and one pickup is spawned for every whole
    /// spawn interval it now holds. With no players the whole phase is
    /// skipped, so an idle period never produces a burst of pickups later.
    fn handle_spawn(&mut self, dt: u64)
        requires
            old(self).wf(),
            dt <= MAX_DT_MS,
        ensures
            final(self).wf(),
            final(self).players == old(self).players,
            final(self).camera == old(self).camera,
            final(self).ui_camera == old(self).ui_camera,
            final(self).pickup_timer == old(self).pickup_timer,
            old(self).players@.len() == 0 ==> {
                &&& final(self).pickups == old(self).pickups
                &&& final(self).pickup_accumulator == old(self).pickup_accumulator
                &&& final(self).spawned_value == old(self).spawned_value
            },
            old(self).players@.len() > 0 ==> {
                let total = old(self).pickup_accumulator + dt;
                let n = total / old(self).pickup_timer as int;
                &&& final(self).pickup_accumulator == total % old(self).pickup_timer as int
                &&& spawned_suffix_ok(final(self).pickups@, old(self).pickups@, n)
                &&& final(self).spawned_value@ == old(self).spawned_value@ + n * PICKUP_VALUE
            },
    {
        if self.players.len() == 0 {
            return ;
        }
        let ghost g0 = *old(self);
        let ghost total0: int = g0.pickup_accumulator + dt;
        let ghost qs0 = g0.pickups@;
        let timer: u64 = self.pickup_timer;
        let mut total: u128 = self.pickup_accumulator as u128 + dt as u128;
        while total >= timer as u128
            invariant
                0 < timer,
                timer == g0.pickup_timer,
                self.players == g0.players,
                self.camera == g0.camera,
                self.ui_camera == g0.ui_camera,
                self.pickup_timer == g0.pickup_timer,
                self.pickup_accumulator == g0.pickup_accumulator,
                self.pickups@.len() >= qs0.len(),
                self.pickups@.take(qs0.len() as int) == qs0,
                forall|k: int|
                    qs0.len() <= k < self.pickups@.len() ==> spawn_ok(#[trigger] self.pickups@[k]),
                forall|k: int| 0 <= k < self.pickups@.len() ==> wf_pickup(#[trigger] self.pickups@[k]),
                forall|k: int| 0 <= k < self.players@.len() ==> wf_player(#[trigger] self.players@[k]),
                total + (self.pickups@.len() - qs0.len()) * timer == total0,
                self.spawned_value@ == g0.spawned_value@ + (self.pickups@.len() - qs0.len())
                    * PICKUP_VALUE,
                sum_scores(self.players@) + sum_values(self.pickups@) <= self.spawned_value@,
            decreases total,
        {
            total = total - timer as u128;
            let rx = crate::rng::random_below(200_000);
            let ry = crate::rng::random_below(200_000);
            let q = Pickup {
                position: Vec2 { x: rx as i64 - SPAWN_HALF, y: ry as i64 - SPAWN_HALF },
                value: PICKUP_VALUE,
            };
            proof {
                lemma_sum_values_push(self.pickups@, q);
                assert(self.pickups@.push(q).take(qs0.len() as int) =~= self.pickups@.take(
                    qs0.len() as int,
                ));
                let k: int = self.pickups@.len() - qs0.len();
                assert((k + 1) * timer == k * timer + timer) by (nonlinear_arith);
                assert((k + 1) * PICKUP_VALUE == k * PICKUP_VALUE + PICKUP_VALUE)
                    by (nonlinear_arith);
            }
            self.pickups.push(q);
            self.spawned_value = Ghost((self.spawned_value@ + PICKUP_VALUE) as nat);
        }
        proof {
            assert(total < timer as u128);
            let k: int = self.pickups@.len() - qs0.len();
            vstd::arithmetic::div_mod::lemma_fundamental_div_mod_converse(
                total0,
                timer as int,
                k,
                total as int,
            );
        }
        self.pickup_accumulator = total as u64;
    }

    /// Physics phase: integrate every player, then resolve collisions.
    fn handle_physics(&mut self, dt: u64)
        requires
            old(self).wf(),
            dt <= MAX_DT_MS,
        ensures
            final(self).wf(),
            final(self).camera == old(self).camera,
            final(self).ui_camera == old(self).ui_camera,
            final(self).pickup_timer == old(self).pickup_timer,
            final(self).pickup_accumulator == old(self).pickup_accumulator,
            final(self).spawned_value == old(self).spawned_value,
            final(self).players@.len() == old(self).players@.len(),
            forall|i: int|
                0 <= i < old(self).players@.len() ==> final(self).players@[i]
                    == crate::collision::credit(
                    integrated_seq(old(self).players@, dt as int),
                    old(self).pickups@,
                    i,
                ),
            final(self).pickups@ == crate::collision::removal_state(
                integrated_seq(old(self).players@, dt as int),
                old(self).pickups@,
                0,
            ),
            final(self).pickups@.to_multiset() == crate::collision::survivors(
                integrated_seq(old(self).players@, dt as int),
                old(self).pickups@,
            ).to_multiset(),
            final(self).pickups@.len() == crate::collision::survivors(
                integrated_seq(old(self).players@, dt as int),
                old(self).pickups@,
            ).len(),
            old(self).players@.len() == 0 ==> final(self).pickups@ == old(self).pickups@,
    {
        integrate_players(&mut self.players, dt);
        let ghost moved = self.players@;
        resolve_collisions(&mut self.players, &mut self.pickups);
        proof {
            lemma_sum_scores_same(old(self).players@, moved);
            if old(self).players@.len() == 0 {
                assert forall|j: int| 0 <= j < old(self).pickups@.len() implies crate::collision::winner_of(
                    moved,
                    old(self).pickups@[j],
                ) is None by {
                    assert(forall|i: int| !crate::collision::is_winner(
                        moved,
                        old(self).pickups@[j],
                        i,
                    ));
                }
            }
        }
    }

    /// Advance the simulation by `dt` milliseconds: spawn due pickups,
    /// integrate every player's position, then resolve collisions
    /// deterministically. A total state transition: it never fails.
    pub fn tick(&mut self, dt: u64)
        requires
            old(self).wf(),
            dt <= MAX_DT_MS,
        ensures
            final(self).wf(),
            final(self).camera == old(self).camera,
            final(self).ui_camera == old(self).ui_camera,
            final(self).pickup_timer == old(self).pickup_timer,
            final(self).players@.len() == old(self).players@.len(),
            forall|i: int|
                0 <= i < old(self).players@.len() ==> final(self).players@[i].score >= old(
                    self,
                ).players@[i].score,
            old(self).players@.len() == 0 ==> {
                &&& final(self).players@ == old(self).players@
                &&& final(self).pickups@ == old(self).pickups@
                &&& final(self).pickup_accumulator == old(self).pickup_accumulator
                &&& final(self).spawned_value@ == old(self).spawned_value@
            },
            old(self).players@.len() > 0 ==> Game::tick_post(*old(self), *final(self), dt as int),
    {
        self.handle_spawn(dt);
        let ghost mid = *self;
        self.handle_physics(dt);
        proof {
            let pre = *old(self);
            let dti = dt as int;
            if pre.players@.len() > 0 {
                let total = pre.pickup_accumulator + dti;
                let n = total / pre.pickup_timer as int;
                assert(mid.players@ == pre.players@);
                assert(spawned_suffix_ok(mid.pickups@, pre.pickups@, n));
                assert(Game::tick_resolution(pre, *self, mid.pickups@, dti));
            } else {
                assert(self.players@ =~= pre.players@);
            }
            assert forall|i: int| 0 <= i < pre.players@.len() implies self.players@[i].score >= pre.players@[i].score by {
                if pre.players@.len() > 0 {
                    assert(self.players@[i] == crate::collision::credit(
                        integrated_seq(mid.players@, dti),
                        mid.pickups@,
                        i,
                    ));
                    assert(integrated_seq(mid.players@, dti)[i].score == pre.players@[i].score);
                }
            }
        }
    }

    /// After the spawn phase appended pickups to make `mid`, the physics
    /// phase left `post` as the deterministic resolution of the integrated
    /// players against `mid`.
    pub open spec fn tick_resolution(pre: Game, post: Game, mid: Seq<Pickup>, dt: int) -> bool {
        let moved = integrated_seq(pre.players@, dt);
        &&& post.players@.len() == pre.players@.len()
        &&& forall|i: int|
            0 <= i < pre.players@.len() ==> post.players@[i] == crate::collision::credit(
                moved,
                mid,
                i,
            )
        &&& post.pickups@ == crate::collision::removal_state(moved, mid, 0)
        &&& post.pickups@.to_multiset() == crate::collision::survivors(moved, mid).to_multiset()
        &&& post.pickups@.len() == crate::collision::survivors(moved, mid).len()
    }

    /// Everything one tick guarantees when at least one player exists: the
    /// accumulator keeps exactly the remainder of the elapsed time, the
    /// spawn ledger grows by the spawned value, and the players and pickups
    /// are the deterministic resolution of the integrated players against
    /// the old pickups plus some spawned suffix.
    pub open spec fn tick_post(pre: Game, post: Game, dt: int) -> bool {
        let total = pre.pickup_accumulator + dt;
        let n = total / pre.pickup_timer as int;
        &&& post.pickup_accumulator == total % pre.pickup_timer as int
        &&& post.spawned_value@ == pre.spawned_value@ + n * PICKUP_VALUE
        &&& exists|mid: Seq<Pickup>|
            {
                &&& #[trigger] spawned_suffix_ok(mid, pre.pickups@, n)
                &&& Game::tick_resolution(pre, post, mid, dt)
            }
    }

    /// Read-only view of the player list.
    pub fn players(&self) -> (r: &Vec<Player>)
        ensures
            r == &self.players,
    {
        &self.players
    }

    /// Read-only view of the live pickups.
    pub fn pickups(&self) -> (r: &Vec<Pickup>)
        ensures
            r == &self.pickups,
    {
        &self.pickups
    }

    /// The camera world geometry is drawn with.
    pub fn active_camera(&self) -> (r: &Camera2d)
        ensures
            r == &self.camera,
    {
        &self.camera
    }

    /// The camera screen-space overlays are drawn with.
    pub fn ui_camera(&self) -> (r: &Camera2d)
        ensures
            r == &self.ui_camera,
    {
        &self.ui_camera
    }
}

} // verus!
