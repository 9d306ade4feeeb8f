//! Per-frame motion rules: which camera axes the pressed keys select, the
//! stance and attack edges, and linear interpolation towards remote snapshots.
use vstd::prelude::*;
use vstd::arithmetic::div_mod::{lemma_div_by_multiple, lemma_div_is_ordered, lemma_div_pos_is_pos};
use crate::model::{PlayerAction, PlayerStances, StdbVector3};

verus! {

/// Interpolation progress that completes a window: one second in microseconds.
pub const PROGRESS_FULL: u32 = 1_000_000;

/// The keys that steer the controlled actor this frame.
#[derive(Clone, Copy, Debug, PartialEq, Eq, Structural, Default)]
pub struct InputState {
    pub forward: bool,
    pub back: bool,
    pub left: bool,
    pub right: bool,
    /// Jump is held.
    pub jump: bool,
    /// Jump went down this frame.
    pub jump_just_pressed: bool,
    /// The stance key went down this frame.
    pub stance_just_pressed: bool,
    /// The attack key went down this frame.
    pub attack_just_pressed: bool,
}

/// The camera-relative axes that make up this frame's movement vector.
#[derive(Clone, Copy, Debug, PartialEq, Eq, Structural)]
pub enum InputVector {
    ForwardRight,
    ForwardLeft,
    BackLeft,
    BackRight,
    Forward,
    Back,
    Left,
    Right,
    /// Straight up: a jump started with no direction key held.
    Up,
    Still,
}

/// Diagonal pairs win over single keys, in the order forward-right,
/// forward-left, back-left, back-right; then forward, back, left, right; then a
/// fresh jump.
pub open spec fn input_vector_spec(i: InputState) -> InputVector {
    if i.forward && i.right {
        InputVector::ForwardRight
    } else if i.forward && i.left {
        InputVector::ForwardLeft
    } else if i.back && i.left {
        InputVector::BackLeft
    } else if i.back && i.right {
        InputVector::BackRight
    } else if i.forward {
        InputVector::Forward
    } else if i.back {
        InputVector::Back
    } else if i.left {
        InputVector::Left
    } else if i.right {
        InputVector::Right
    } else if i.jump_just_pressed {
        InputVector::Up
    } else {
        InputVector::Still
    }
}

/// Selects the camera axes to combine for the pressed keys.
pub fn get_input_vector(input: &InputState) -> (r: InputVector)
    ensures
        r == input_vector_spec(*input),
{
    if input.forward && input.right {
        InputVector::ForwardRight
    } else if input.forward && input.left {
        InputVector::ForwardLeft
    } else if input.back && input.left {
        InputVector::BackLeft
    } else if input.back && input.right {
        InputVector::BackRight
    } else if input.forward {
        InputVector::Forward
    } else if input.back {
        InputVector::Back
    } else if input.left {
        InputVector::Left
    } else if input.right {
        InputVector::Right
    } else if input.jump_just_pressed {
        InputVector::Up
    } else {
        InputVector::Still
    }
}

/// The stance key flips between out-of-combat and combat; other stances stay.
pub open spec fn stance_after(stance: PlayerStances, pressed: bool) -> PlayerStances {
    if !pressed {
        stance
    } else {
        match stance {
            PlayerStances::NonCombat => PlayerStances::Combat,
            PlayerStances::Combat => PlayerStances::NonCombat,
            _ => stance,
        }
    }
}

pub fn handle_stance_change(stance: PlayerStances, pressed: bool) -> (r: PlayerStances)
    ensures
        r == stance_after(stance, pressed),
{
    if !pressed {
        stance
    } else {
        match stance {
            PlayerStances::NonCombat => PlayerStances::Combat,
            PlayerStances::Combat => PlayerStances::NonCombat,
            _ => stance,
        }
    }
}

/// An attack edge starts an attack only from the idle action; any other
/// action is kept until something else resets it.
pub open spec fn action_after(action: PlayerAction, pressed: bool) -> PlayerAction {
    if pressed && action == PlayerAction::NoAction {
        PlayerAction::Attack
    } else {
        action
    }
}

pub fn handle_attack(action: &PlayerAction, pressed: bool) -> (r: PlayerAction)
    ensures
        r == action_after(*action, pressed),
{
    if pressed && action.is_none() {
        PlayerAction::Attack
    } else {
        action.clone()
    }
}

/// Starting idle, an attack edge attacks; a second edge while attacking changes
/// nothing; only a reset to the idle action lets the next edge attack again.
pub proof fn lemma_attack_state_machine(other: PlayerAction)
    requires
        other != PlayerAction::NoAction,
    ensures
        action_after(PlayerAction::NoAction, true) == PlayerAction::Attack,
        action_after(PlayerAction::Attack, true) == PlayerAction::Attack,
        action_after(other, true) == other,
        action_after(action_after(PlayerAction::NoAction, true), true) == PlayerAction::Attack,
        action_after(PlayerAction::NoAction, false) == PlayerAction::NoAction,
{
}

/// Adds two coordinates, stopping at the edge of the representable world.
pub open spec fn saturating(v: int) -> i32 {
    if v > i32::MAX {
        i32::MAX
    } else if v < i32::MIN {
        i32::MIN
    } else {
        v as i32
    }
}

pub fn add_coordinate(a: i32, b: i32) -> (r: i32)
    ensures
        r == saturating(a + b),
{
    let s: i64 = a as i64 + b as i64;
    if s > i32::MAX as i64 {
        i32::MAX
    } else if s < i32::MIN as i64 {
        i32::MIN
    } else {
        s as i32
    }
}

/// The point at fraction `p / PROGRESS_FULL` of the way from `a` to `b`,
/// rounded towards `a`.
pub open spec fn lerp_axis(a: int, b: int, p: int) -> int {
    if a <= b {
        a + (b - a) * p / (PROGRESS_FULL as int)
    } else {
        a - (a - b) * p / (PROGRESS_FULL as int)
    }
}

pub open spec fn lerp(a: StdbVector3, b: StdbVector3, p: int) -> StdbVector3 {
    StdbVector3 {
        x: lerp_axis(a.x as int, b.x as int, p) as i32,
        y: lerp_axis(a.y as int, b.y as int, p) as i32,
        z: lerp_axis(a.z as int, b.z as int, p) as i32,
    }
}

proof fn lemma_scaled_part(d: int, p: int)
    requires
        0 <= d,
        0 <= p <= PROGRESS_FULL,
    ensures
        0 <= d * p / (PROGRESS_FULL as int) <= d,
        p == 0 ==> d * p / (PROGRESS_FULL as int) == 0,
        p == PROGRESS_FULL ==> d * p / (PROGRESS_FULL as int) == d,
{
    let f = PROGRESS_FULL as int;
    assert(0 <= d * p <= d * f) by (nonlinear_arith)
        requires
            0 <= d,
            0 <= p <= f,
    ;
    lemma_div_pos_is_pos(d * p, f);
    lemma_div_is_ordered(d * p, d * f, f);
    lemma_div_by_multiple(d, f);
    if p == 0 {
        assert(d * p == 0) by (nonlinear_arith)
            requires
                p == 0,
        ;
    }
}

/// The interpolated point lies between the end points, and the window's ends
/// are hit exactly.
pub proof fn lemma_lerp_axis(a: int, b: int, p: int)
    requires
        0 <= p <= PROGRESS_FULL,
    ensures
        a <= b ==> a <= lerp_axis(a, b, p) <= b,
        b < a ==> b <= lerp_axis(a, b, p) <= a,
        p == 0 ==> lerp_axis(a, b, p) == a,
        p == PROGRESS_FULL ==> lerp_axis(a, b, p) == b,
{
    if a <= b {
        lemma_scaled_part(b - a, p);
    } else {
        lemma_scaled_part(a - b, p);
    }
}

pub fn lerp_coordinate(a: i32, b: i32, p: u32) -> (r: i32)
    requires
        p <= PROGRESS_FULL,
    ensures
        r == lerp_axis(a as int, b as int, p as int),
{
    proof {
        lemma_lerp_axis(a as int, b as int, p as int);
        let d = if a <= b { b - a } else { a - b };
        assert(0 <= d * p <= 0x1_0000_0000 * 1_000_000) by (nonlinear_arith)
            requires
                0 <= d < 0x1_0000_0000,
                0 <= p <= 1_000_000,
        ;
    }
    if a <= b {
        let d: i64 = b as i64 - a as i64;
        let part: i64 = d * (p as i64) / (PROGRESS_FULL as i64);
        (a as i64 + part) as i32
    } else {
        let d: i64 = a as i64 - b as i64;
        let part: i64 = d * (p as i64) / (PROGRESS_FULL as i64);
        (a as i64 - part) as i32
    }
}

/// One interpolation window: from `start` towards `target_position`, with
/// `progress` microseconds of the one-second window elapsed.
#[derive(Clone, Copy, Debug, PartialEq, Eq, Structural)]
pub struct InterpolatedTransform {
    pub start: StdbVector3,
    pub target_position: StdbVector3,
    pub progress: u32,
}

/// The window after `dt` more microseconds; progress stops at the window's end.
pub open spec fn advanced(w: InterpolatedTransform, dt: int) -> InterpolatedTransform {
    InterpolatedTransform {
        progress: if w.progress + dt >= PROGRESS_FULL { PROGRESS_FULL } else { (w.progress + dt) as u32 },
        ..w
    }
}

/// The sum of the frame lengths `dts`.
pub open spec fn total(dts: Seq<int>) -> int
    decreases dts.len(),
{
    if dts.len() == 0 {
        0
    } else {
        total(dts.drop_last()) + dts.last()
    }
}

/// The window after frames of the lengths `dts`, in order.
pub open spec fn advanced_all(w: InterpolatedTransform, dts: Seq<int>) -> InterpolatedTransform
    decreases dts.len(),
{
    if dts.len() == 0 {
        w
    } else {
        advanced(advanced_all(w, dts.drop_last()), dts.last())
    }
}

impl InterpolatedTransform {
    pub open spec fn wf(&self) -> bool {
        self.progress <= PROGRESS_FULL
    }

    /// The rendered point of the window.
    pub open spec fn rendered(&self) -> StdbVector3 {
        lerp(self.start, self.target_position, self.progress as int)
    }

    /// A finished window resting at `position`.
    pub fn at_rest(position: StdbVector3) -> (r: InterpolatedTransform)
        ensures
            r == (InterpolatedTransform { start: position, target_position: position, progress: PROGRESS_FULL }),
            r.wf(),
    {
        InterpolatedTransform { start: position, target_position: position, progress: PROGRESS_FULL }
    }

    /// A new window from the currently rendered point towards `target`.
    pub fn retarget(from: StdbVector3, target: StdbVector3) -> (r: InterpolatedTransform)
        ensures
            r == (InterpolatedTransform { start: from, target_position: target, progress: 0 }),
            r.wf(),
    {
        InterpolatedTransform { start: from, target_position: target, progress: 0 }
    }

    /// Advances the window by `dt` microseconds and returns the point to render.
    pub fn advance(&mut self, dt: u32) -> (r: StdbVector3)
        requires
            old(self).wf(),
        ensures
            *final(self) == advanced(*old(self), dt as int),
            final(self).wf(),
            r == final(self).rendered(),
    {
        let sum: u64 = self.progress as u64 + dt as u64;
        self.progress = if sum >= PROGRESS_FULL as u64 {
            PROGRESS_FULL
        } else {
            sum as u32
        };
        StdbVector3 {
            x: lerp_coordinate(self.start.x, self.target_position.x, self.progress),
            y: lerp_coordinate(self.start.y, self.target_position.y, self.progress),
            z: lerp_coordinate(self.start.z, self.target_position.z, self.progress),
        }
    }
}

proof fn lemma_progress_after_frames(w: InterpolatedTransform, dts: Seq<int>)
    requires
        w.progress == 0,
        forall|k: int| 0 <= k < dts.len() ==> 0 <= #[trigger] dts[k],
    ensures
        advanced_all(w, dts).progress == if total(dts) >= PROGRESS_FULL { PROGRESS_FULL as int } else { total(dts) },
        total(dts) >= 0,
        advanced_all(w, dts).start == w.start,
        advanced_all(w, dts).target_position == w.target_position,
    decreases dts.len(),
{
    if dts.len() > 0 {
        let d = dts.drop_last();
        assert forall|k: int| 0 <= k < d.len() implies 0 <= #[trigger] d[k] by {
            assert(d[k] == dts[k]);
        }
        assert(0 <= dts[dts.len() - 1]);
        lemma_progress_after_frames(w, d);
    }
}

/// A fresh window stepped by frames of any non-negative lengths that add up
/// to exactly the whole window renders exactly the target: no residual drift.
pub proof fn lemma_frames_reach_target(w: InterpolatedTransform, dts: Seq<int>)
    requires
        w.progress == 0,
        forall|k: int| 0 <= k < dts.len() ==> 0 <= #[trigger] dts[k],
        total(dts) == PROGRESS_FULL,
    ensures
        advanced_all(w, dts).progress == PROGRESS_FULL,
        advanced_all(w, dts).rendered() == w.target_position,
{
    lemma_progress_after_frames(w, dts);
    let t = w.target_position;
    lemma_lerp_axis(w.start.x as int, t.x as int, PROGRESS_FULL as int);
    lemma_lerp_axis(w.start.y as int, t.y as int, PROGRESS_FULL as int);
    lemma_lerp_axis(w.start.z as int, t.z as int, PROGRESS_FULL as int);
}

} // verus!
