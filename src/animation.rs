//! Which animation clip an actor plays.
use vstd::prelude::*;
use crate::model::{PlayerAction, PlayerStances};

verus! {

/// The clips that every actor's animation set must contain.
#[derive(Clone, Copy, Debug, PartialEq, Eq, Structural, Hash)]
pub enum AnimClip {
    Idle,
    RunStandard,
    IdleSwordAndShield,
    RunSwordAndShield,
    AttackSwordAndShieldSlash,
}

/// An attack overrides everything; otherwise the combat stance picks the
/// sword-and-shield pair and every other stance the unarmed pair, each split
/// by whether the actor moves.
pub open spec fn clip_for(stance: PlayerStances, action: PlayerAction, moving: bool) -> AnimClip {
    if action == PlayerAction::Attack {
        AnimClip::AttackSwordAndShieldSlash
    } else if stance == PlayerStances::Combat {
        if moving { AnimClip::RunSwordAndShield } else { AnimClip::IdleSwordAndShield }
    } else {
        if moving { AnimClip::RunStandard } else { AnimClip::Idle }
    }
}

pub fn select_clip(stance: PlayerStances, action: &PlayerAction, moving: bool) -> (r: AnimClip)
    ensures
        r == clip_for(stance, *action, moving),
{
    match action {
        PlayerAction::Attack => AnimClip::AttackSwordAndShieldSlash,
        _ => match stance {
            PlayerStances::Combat => if moving {
                AnimClip::RunSwordAndShield
            } else {
                AnimClip::IdleSwordAndShield
            },
            _ => if moving {
                AnimClip::RunStandard
            } else {
                AnimClip::Idle
            },
        },
    }
}

/// The clip to start when `wanted` should play and `playing` is on: none when
/// it already plays, so that a clip is never restarted.
pub open spec fn clip_to_start(playing: Option<AnimClip>, wanted: AnimClip) -> Option<AnimClip> {
    if playing == Some(wanted) { None } else { Some(wanted) }
}

pub fn play_animation(playing: &mut Option<AnimClip>, wanted: AnimClip) -> (r: Option<AnimClip>)
    ensures
        r == clip_to_start(*old(playing), wanted),
        *final(playing) == Some(wanted),
{
    let same = match playing {
        Some(c) => *c == wanted,
        None => false,
    };
    *playing = Some(wanted);
    if same {
        None
    } else {
        Some(wanted)
    }
}

} // verus!
