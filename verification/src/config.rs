//! Startup configuration of the companion.
//!
//! The configuration is an explicit value built once at startup and passed
//! by reference into the components that need it. Reading and writing it on
//! disk is plumbing that lives outside this crate.

use vstd::prelude::*;
use crate::vec2::Vec2;

verus! {

/// How the buddy's window position is advanced each frame.
#[derive(Clone, Copy, PartialEq, Eq, Structural, Debug)]
pub enum Behavior {
    /// Easing toward wander or follow targets.
    Normal,
    /// Constant-velocity reflection off the monitor's edges.
    Dvd,
}

/// The closed set of buddy kinds.
#[derive(Clone, Copy, PartialEq, Eq, Structural, Debug)]
pub enum BuddyType {
    Funfriend,
}

/// Window sizing, in whole pixels. A zero size means "use the default".
#[derive(Clone, Copy, PartialEq, Eq, Structural, Debug)]
pub struct WindowSettings {
    pub size: Vec2,
}

/// Sound levels, in thousandths of full volume.
#[derive(Clone, Copy, PartialEq, Eq, Structural, Debug)]
pub struct SoundSettings {
    pub master_volume_permille: u32,
}

/// Which buddy to spawn and how it moves.
#[derive(Clone, Copy, PartialEq, Eq, Structural, Debug)]
pub struct BuddySettings {
    pub buddy_type: BuddyType,
    pub behavior: Behavior,
    /// Speed of DVD-bounce motion, in pixels per second.
    pub speed: u64,
}

#[derive(Clone, Copy, PartialEq, Eq, Structural, Debug)]
pub struct Config {
    pub window: WindowSettings,
    pub sound: SoundSettings,
    pub buddy: BuddySettings,
}

impl Default for WindowSettings {
    fn default() -> (r: WindowSettings)
        ensures
            r.size == (Vec2 { x: 75i64, y: 75i64 }),
    {
        WindowSettings { size: Vec2 { x: 75, y: 75 } }
    }
}

impl Default for SoundSettings {
    fn default() -> (r: SoundSettings)
        ensures
            r.master_volume_permille == 1000,
    {
        SoundSettings { master_volume_permille: 1000 }
    }
}

impl Default for BuddySettings {
    fn default() -> (r: BuddySettings)
        ensures
            r.buddy_type == BuddyType::Funfriend,
            r.behavior == Behavior::Normal,
            r.speed == 50,
    {
        BuddySettings { buddy_type: BuddyType::Funfriend, behavior: Behavior::Normal, speed: 50 }
    }
}

impl Default for Config {
    fn default() -> (r: Config)
        ensures
            r.window.size == (Vec2 { x: 75i64, y: 75i64 }),
            r.sound.master_volume_permille == 1000,
            r.buddy.buddy_type == BuddyType::Funfriend,
            r.buddy.behavior == Behavior::Normal,
            r.buddy.speed == 50,
    {
        Config {
            window: WindowSettings::default(),
            sound: SoundSettings::default(),
            buddy: BuddySettings::default(),
        }
    }
}

} // verus!
