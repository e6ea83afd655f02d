//! The rule of the football scene that is not physics: what a touch of the
//! ball does. The ball's motion is floating-point work of the application.

use vstd::prelude::*;

verus! {

/// Gentle touches a carrier makes before it shoots.
pub const SHOOT_CHARGE_AFTER_TOUCHES: u32 = 3;

/// What happens when a pet touches the ball.
#[derive(Clone, Copy, PartialEq, Eq, Structural, Debug)]
pub enum TouchKind {
    /// A nudge ahead of the pet; the run goes on.
    Dribble,
    /// A full-power strike down the pet's travel direction.
    Shoot,
    /// A pet without possession knocks the ball away.
    Tackle,
}

pub open spec fn spec_touch(toucher: usize, possession: Option<usize>, dribble_touches: u32, lucky_shot: bool) -> TouchKind {
    if possession matches Some(c) && c != toucher {
        TouchKind::Tackle
    } else if dribble_touches + 1 >= SHOOT_CHARGE_AFTER_TOUCHES || lucky_shot {
        TouchKind::Shoot
    } else {
        TouchKind::Dribble
    }
}

/// A touch by another pet than the carrier tackles; the carrier (or anyone
/// touching a loose ball) shoots once charged by enough gentle touches, or
/// when the random early-shot draw (`lucky_shot`) came up, else dribbles.
pub fn classify_touch(toucher: usize, possession: Option<usize>, dribble_touches: u32, lucky_shot: bool) -> (r: TouchKind)
    requires
        dribble_touches < u32::MAX,
    ensures
        r == spec_touch(toucher, possession, dribble_touches, lucky_shot),
{
    match possession {
        Some(c) => {
            if c != toucher {
                return TouchKind::Tackle;
            }
        },
        None => {},
    }
    if dribble_touches + 1 >= SHOOT_CHARGE_AFTER_TOUCHES || lucky_shot {
        TouchKind::Shoot
    } else {
        TouchKind::Dribble
    }
}

/// Only the carrier keeps the ball: whoever else touches it tackles.
pub proof fn law_other_pets_tackle(toucher: usize, carrier: usize, dribble_touches: u32, lucky_shot: bool)
    requires
        toucher != carrier,
    ensures
        spec_touch(toucher, Some(carrier), dribble_touches, lucky_shot) == TouchKind::Tackle,
{
}

} // verus!
