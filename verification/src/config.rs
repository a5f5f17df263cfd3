//! Tuning constants of the simulation.

use vstd::prelude::*;

verus! {

/// A time in milliseconds since the session began. The clock of a session
/// counts in 32 bits; a timestamp is wide enough to hold any time of the
/// clock and a delay after it.
pub type Timestamp = u64;

/// The time that lies `delay` milliseconds after `now`.
pub fn later(now: u32, delay: u32) -> (at: Timestamp)
    ensures
        at == now + delay,
{
    now as u64 + delay as u64
}

/// Milliseconds between two updates of the player.
pub const PLAYER_UPDATE_MS: u32 = 50;

/// Milliseconds between two updates of a rat.
pub const RAT_UPDATE_MS: u32 = 100;

/// Milliseconds between two updates of a baby rat.
pub const BRAT_UPDATE_MS: u32 = 75;

/// Milliseconds between two updates of a factory.
pub const FACTORY_UPDATE_MS: u32 = 250;

/// Milliseconds between two updates of a bullet.
pub const BULLET_UPDATE_MS: u32 = 10;

/// Milliseconds between two shots while a firing key is held.
pub const PLAYER_FIRE_RATE_MS: u32 = 125;

/// Points for a rat.
pub const RAT_KILL: usize = 50;

/// Points for a baby rat.
pub const BRAT_KILL: usize = 25;

/// Points for a factory.
pub const FACTORY_KILL: usize = 250;

/// Seconds between two waves of rats.
pub const RAT_SPAWN_SECONDS: u64 = 20;

/// Seconds between two waves of baby rats.
pub const BRAT_SPAWN_SECONDS: u64 = 45;

/// Rats that one wave asks of a factory, in halves: five halves are two
/// and a half rats.
pub const HALF_RATS_PER_FACTORY: usize = 5;

/// Frames that the screen flashes for after a factory or the player blew up.
pub const SUPER_BOOM_FRAMES: usize = 60;

/// Update cycles a bullet lives through before it can hurt the player.
///
/// A player who runs in the direction of fire can share a cell with a
/// fresh bullet for a moment; without the grace period that would count
/// as a hit. A bullet that has wrapped round a sparse maze is older than
/// this and does hurt.
pub const BULLET_HARMLESS_LIFETIME: u32 = 10;

/// Squared radius within which an enemy notices the player.
pub const DETECTION_RADIUS_SQUARED: u32 = 625;

/// Squared radius of the blast round an exploding player.
pub const PLAYER_BLAST_RADIUS_SQUARED: u32 = 100;

/// Squared distance that a new factory keeps from the player's start.
pub const FACTORY_PLAYER_GAP_SQUARED: u32 = 225;

/// Squared distance that a new factory keeps from other factories.
pub const FACTORY_GAP_SQUARED: u32 = 25;

/// Placement attempts that seeding the factories may spend.
pub const FACTORY_PLACEMENT_ATTEMPTS: u32 = 100_000;

} // verus!
