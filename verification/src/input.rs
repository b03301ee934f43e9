//! Input shaping: the gamepad dead zone, the keyboard axis pairs, and the
//! per-session mapping from input sources to players.
//!
//! Devices are identified here by a plain session-scoped key; the
//! application layer translates its windowing or gamepad handles into such
//! keys. A previously unseen source is not an error: the caller spawns a
//! player for it and records the pair.

use vstd::prelude::*;
use crate::game::{PlayerId, JOY_MAX};

verus! {

/// Gamepad deflections strictly inside this bound snap to zero,
/// in milli-deflection (a tenth of full).
pub const DEAD_ZONE: i64 = 100;

/// The dead zone: small deflections become exactly zero.
pub open spec fn dead_zoned(v: int) -> int {
    if -DEAD_ZONE < v < DEAD_ZONE {
        0
    } else {
        v
    }
}

/// Apply the dead zone to a raw gamepad axis value.
pub fn dead_zone(v: i64) -> (r: i64)
    ensures
        r == dead_zoned(v as int),
{
    if -DEAD_ZONE < v && v < DEAD_ZONE {
        0
    } else {
        v
    }
}

/// One of the four directional keys.
#[derive(Debug, Clone, Copy, PartialEq, Eq, Structural)]
pub enum DirKey {
    Up,
    Left,
    Down,
    Right,
}

/// The pressed state of the four directional keys. Opposing keys combine
/// into one joystick axis: full positive while only the positive key is
/// down, full negative while only the negative one is, zero otherwise.
#[derive(Debug, Clone, Copy, PartialEq, Eq, Structural)]
pub struct KeyAxes {
    pub up: bool,
    pub left: bool,
    pub down: bool,
    pub right: bool,
}

/// A key's contribution to its axis: full deflection while pressed.
pub open spec fn key_amount(pressed: bool) -> int {
    if pressed {
        JOY_MAX as int
    } else {
        0
    }
}

impl KeyAxes {
    /// All keys released.
    pub fn new() -> (k: KeyAxes)
        ensures
            !k.up && !k.left && !k.down && !k.right,
    {
        KeyAxes { up: false, left: false, down: false, right: false }
    }

    /// Record one key's new state; the other keys keep theirs.
    pub fn set(&mut self, key: DirKey, pressed: bool)
        ensures
            final(self).up == (if key == DirKey::Up { pressed } else { old(self).up }),
            final(self).left == (if key == DirKey::Left { pressed } else { old(self).left }),
            final(self).down == (if key == DirKey::Down { pressed } else { old(self).down }),
            final(self).right == (if key == DirKey::Right { pressed } else { old(self).right }),
    {
        match key {
            DirKey::Up => self.up = pressed,
            DirKey::Left => self.left = pressed,
            DirKey::Down => self.down = pressed,
            DirKey::Right => self.right = pressed,
        }
    }

    /// The horizontal axis: right minus left.
    pub fn axis_x(&self) -> (r: i64)
        ensures
            r == key_amount(self.right) - key_amount(self.left),
    {
        let r: i64 = if self.right {
            JOY_MAX
        } else {
            0
        };
        let l: i64 = if self.left {
            JOY_MAX
        } else {
            0
        };
        r - l
    }

    /// The vertical axis: up minus down.
    pub fn axis_y(&self) -> (r: i64)
        ensures
            r == key_amount(self.up) - key_amount(self.down),
    {
        let u: i64 = if self.up {
            JOY_MAX
        } else {
            0
        };
        let d: i64 = if self.down {
            JOY_MAX
        } else {
            0
        };
        u - d
    }
}

/// The session's mapping from input-source keys to players.
pub struct DeviceMap {
    /// Bound pairs; every source key appears at most once.
    pub entries: Vec<(u64, PlayerId)>,
}

impl DeviceMap {
    /// Every source key appears at most once.
    pub open spec fn wf(self) -> bool {
        forall|i: int, j: int|
            0 <= i < j < self.entries@.len() ==> (#[trigger] self.entries@[i]).0 != (
            #[trigger] self.entries@[j]).0
    }

    /// An empty mapping.
    pub fn new() -> (m: DeviceMap)
        ensures
            m.wf(),
            m.entries@.len() == 0,
    {
        DeviceMap { entries: Vec::new() }
    }

    /// The player bound to `key`, if the source was seen before.
    pub fn lookup(&self, key: u64) -> (r: Option<PlayerId>)
        ensures
            match r {
                Some(p) => exists|i: int|
                    0 <= i < self.entries@.len() && #[trigger] self.entries@[i] == (key, p),
                None => forall|i: int|
                    0 <= i < self.entries@.len() ==> (#[trigger] self.entries@[i]).0 != key,
            },
    {
        let n = self.entries.len();
        let mut i: usize = 0;
        while i < n
            invariant
                n == self.entries@.len(),
                i <= n,
                forall|k: int| 0 <= k < i ==> (#[trigger] self.entries@[k]).0 != key,
            decreases n - i,
        {
            let (k, p) = self.entries[i];
            if k == key {
                proof {
                    assert(self.entries@[i as int] == (key, p));
                }
                return Some(p);
            }
            i += 1;
        }
        None
    }

    /// Bind a newly seen source to its freshly spawned player.
    pub fn insert(&mut self, key: u64, player: PlayerId)
        requires
            old(self).wf(),
            forall|i: int|
                0 <= i < old(self).entries@.len() ==> (#[trigger] old(self).entries@[i]).0 != key,
        ensures
            final(self).wf(),
            final(self).entries@ == old(self).entries@.push((key, player)),
    {
        self.entries.push((key, player));
    }
}

} // verus!
