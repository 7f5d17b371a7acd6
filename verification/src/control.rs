//! Controller: converts the detected rail offset into a decision and, gated
//! by the external motor state, into at most one command per frame.  Moves
//! are bounded by a per-session quota; the save-position command goes out
//! at most once per idle session.
//!
//! A session is a contiguous stretch during which the motor is idle; it
//! ends when the motor becomes active again.  While the motor drives, the
//! quota refills and nothing is emitted.  When the motor has been idle for
//! longer than the staleness cutoff, auto-move switches off and, if at
//! least one move of the quota was spent and some quota is left, the
//! current position is saved once.

use vstd::prelude::*;

verus! {

/// Move quota per session.
pub const MOVE_QUOTA: u32 = 32;

/// Rail centres this close, in pixels, count as aligned.
pub const RAIL_MAX_ERR: u32 = 1;

/// The motor counts as stale after this many milliseconds without motion.
pub const STALE_MS: u64 = 9000;

/// What the motor-status files say this frame: whether the motor is
/// driving now, and how long ago it last moved (nothing when the
/// timestamp file could not be read).
#[derive(Clone, Copy, Debug, PartialEq, Eq, Structural)]
pub struct MotorStatus {
    pub is_moving: bool,
    pub idle_ms: Option<u64>,
}

impl MotorStatus {
    /// The motor has been idle past the staleness cutoff.
    pub open spec fn stale_spec(&self) -> bool {
        match self.idle_ms {
            Some(ms) => ms > STALE_MS,
            None => false,
        }
    }

    pub fn is_stale(&self) -> (b: bool)
        ensures
            b == self.stale_spec(),
    {
        match self.idle_ms {
            Some(ms) => ms > STALE_MS,
            None => false,
        }
    }
}

/// What one frame's rail offset asks for.
#[derive(Clone, Copy, Debug, PartialEq, Eq, Structural)]
pub enum Decision {
    Aligned,
    MoveLeft,
    MoveRight,
    Unknown,
}

/// A command for the motor daemon.
#[derive(Clone, Copy, Debug, PartialEq, Eq, Structural)]
pub enum Command {
    MoveLeft,
    MoveRight,
    SavePosition,
}

impl Command {
    /// The decimal key codes the motor daemon understands, comma-separated.
    pub fn codes(&self) -> (s: &'static str)
        ensures
            self is MoveLeft ==> s@ == "114"@,
            self is MoveRight ==> s@ == "115"@,
            self is SavePosition ==> s@ == "113,14"@,
    {
        match self {
            Command::MoveLeft => "114",
            Command::MoveRight => "115",
            Command::SavePosition => "113,14",
        }
    }
}

/// The decision for a pair of rail centres: aligned within the tolerance,
/// move towards the layout rail, or unknown when either rail is missing.
pub open spec fn decide_spec(table_x: Option<u32>, layout_x: Option<u32>) -> Decision {
    match (table_x, layout_x) {
        (Some(t), Some(l)) => {
            let diff = t as int - l as int;
            if -(RAIL_MAX_ERR as int) <= diff <= RAIL_MAX_ERR as int {
                Decision::Aligned
            } else if diff < 0 {
                Decision::MoveLeft
            } else {
                Decision::MoveRight
            }
        },
        _ => Decision::Unknown,
    }
}

/// Decides from the two detected rail centres.
pub fn decide(table_x: Option<u32>, layout_x: Option<u32>) -> (d: Decision)
    ensures
        d == decide_spec(table_x, layout_x),
{
    match (table_x, layout_x) {
        (Some(t), Some(l)) => {
            let diff: i64 = t as i64 - l as i64;
            if diff >= -(RAIL_MAX_ERR as i64) && diff <= RAIL_MAX_ERR as i64 {
                Decision::Aligned
            } else if diff < 0 {
                Decision::MoveLeft
            } else {
                Decision::MoveRight
            }
        },
        _ => Decision::Unknown,
    }
}

/// Where the controller stands relative to the motor.
#[derive(Clone, Copy, Debug, PartialEq, Eq, Structural)]
pub enum MotorMode {
    /// Nothing observed yet.
    Start,
    /// The motor is driving.
    Busy,
    /// The motor is idle and auto-move is permitted.
    IdleActive,
    /// The motor has been idle past the cutoff; auto-move is off.
    IdleStale,
}

/// The controller's per-session state.
#[derive(Clone, Copy, Debug, PartialEq, Eq, Structural)]
pub struct ControllerState {
    pub mode: MotorMode,
    pub remaining_moves: u32,
    pub saved_this_session: bool,
}

/// What the controller sees on one frame.
#[derive(Clone, Copy, Debug, PartialEq, Eq, Structural)]
pub struct TickInput {
    pub moving: bool,
    pub stale: bool,
    pub decision: Decision,
}

impl ControllerState {
    /// The move quota never exceeds its refill value.
    pub open spec fn wf(&self) -> bool {
        self.remaining_moves <= MOVE_QUOTA
    }

    /// The state before the first frame.
    pub fn initial() -> (st: ControllerState)
        ensures
            st == (ControllerState {
                mode: MotorMode::Start,
                remaining_moves: MOVE_QUOTA,
                saved_this_session: false,
            }),
    {
        ControllerState {
            mode: MotorMode::Start,
            remaining_moves: MOVE_QUOTA,
            saved_this_session: false,
        }
    }

    /// Advances the controller by one frame.
    pub fn step(&self, status: &MotorStatus, decision: Decision) -> (out: (
        ControllerState,
        Option<Command>,
    ))
        ensures
            out == step_spec(
                *self,
                TickInput { moving: status.is_moving, stale: status.stale_spec(), decision },
            ),
    {
        if status.is_moving {
            (
                ControllerState {
                    mode: MotorMode::Busy,
                    remaining_moves: MOVE_QUOTA,
                    saved_this_session: true,
                },
                None,
            )
        } else if status.is_stale() {
            let emit = matches!(self.mode, MotorMode::IdleActive) && !self.saved_this_session
                && self.remaining_moves > 1;
            (
                ControllerState {
                    mode: MotorMode::IdleStale,
                    remaining_moves: MOVE_QUOTA,
                    saved_this_session: true,
                },
                if emit {
                    Some(Command::SavePosition)
                } else {
                    None
                },
            )
        } else {
            let saved = match self.mode {
                MotorMode::Busy | MotorMode::Start => false,
                _ => self.saved_this_session,
            };
            let wants_move = matches!(decision, Decision::MoveLeft | Decision::MoveRight);
            if wants_move && self.remaining_moves >= 1 {
                (
                    ControllerState {
                        mode: MotorMode::IdleActive,
                        remaining_moves: self.remaining_moves - 1,
                        saved_this_session: saved,
                    },
                    Some(
                        if matches!(decision, Decision::MoveLeft) {
                            Command::MoveLeft
                        } else {
                            Command::MoveRight
                        },
                    ),
                )
            } else {
                (
                    ControllerState {
                        mode: MotorMode::IdleActive,
                        remaining_moves: self.remaining_moves,
                        saved_this_session: saved,
                    },
                    None,
                )
            }
        }
    }
}

/// One frame of the controller state machine.
///
/// While the motor drives: quota refilled, nothing emitted, and the save
/// is marked done so that a session that never went active cannot save.
/// On a stale frame: auto-move off, quota refilled, and the save command
/// emitted exactly when the controller was active, had not saved yet, and
/// still had quota beyond the last move.  On an idle frame within the
/// cutoff: a move command for a move decision while quota remains, each
/// one spending one move of the quota.
pub open spec fn step_spec(st: ControllerState, inp: TickInput) -> (ControllerState, Option<
    Command,
>) {
    if inp.moving {
        (
            ControllerState {
                mode: MotorMode::Busy,
                remaining_moves: MOVE_QUOTA,
                saved_this_session: true,
            },
            None,
        )
    } else if inp.stale {
        let emit = st.mode is IdleActive && !st.saved_this_session && st.remaining_moves > 1;
        (
            ControllerState {
                mode: MotorMode::IdleStale,
                remaining_moves: MOVE_QUOTA,
                saved_this_session: true,
            },
            if emit {
                Some(Command::SavePosition)
            } else {
                None
            },
        )
    } else {
        let saved = if st.mode is Busy || st.mode is Start {
            false
        } else {
            st.saved_this_session
        };
        let wants_move = inp.decision is MoveLeft || inp.decision is MoveRight;
        if wants_move && st.remaining_moves >= 1 {
            (
                ControllerState {
                    mode: MotorMode::IdleActive,
                    remaining_moves: (st.remaining_moves - 1) as u32,
                    saved_this_session: saved,
                },
                Some(
                    if inp.decision is MoveLeft {
                        Command::MoveLeft
                    } else {
                        Command::MoveRight
                    },
                ),
            )
        } else {
            (
                ControllerState {
                    mode: MotorMode::IdleActive,
                    remaining_moves: st.remaining_moves,
                    saved_this_session: saved,
                },
                None,
            )
        }
    }
}

/// How many commands of any kind a run of frames emits.
pub open spec fn count_commands(st: ControllerState, inputs: Seq<TickInput>) -> nat
    decreases inputs.len(),
{
    if inputs.len() == 0 {
        0nat
    } else {
        (if step_spec(st, inputs[0]).1 is Some {
            1nat
        } else {
            0nat
        }) + count_commands(step_spec(st, inputs[0]).0, inputs.drop_first())
    }
}

/// How many save-position commands a run of frames emits.
pub open spec fn count_saves(st: ControllerState, inputs: Seq<TickInput>) -> nat
    decreases inputs.len(),
{
    if inputs.len() == 0 {
        0nat
    } else {
        (if step_spec(st, inputs[0]).1 == Some(Command::SavePosition) {
            1nat
        } else {
            0nat
        }) + count_saves(step_spec(st, inputs[0]).0, inputs.drop_first())
    }
}

/// Once the controller stands stale, a run of stale idle frames emits
/// nothing more: the save fires only on the transition into staleness.
proof fn lemma_stale_run_silent(st: ControllerState, inputs: Seq<TickInput>)
    requires
        st.mode is IdleStale,
        forall|i: int| 0 <= i < inputs.len() ==> !(#[trigger] inputs[i]).moving && inputs[i].stale,
    ensures
        count_commands(st, inputs) == 0,
    decreases inputs.len(),
{
    if inputs.len() > 0 {
        let st2 = step_spec(st, inputs[0]).0;
        let rest = inputs.drop_first();
        assert forall|i: int|
            0 <= i < rest.len() implies !(#[trigger] rest[i]).moving && rest[i].stale by {
            assert(rest[i] == inputs[i + 1]);
        }
        lemma_stale_run_silent(st2, rest);
    }
}

/// Over any idle session in which staleness can only set in and never
/// clear -- while the motor is idle its last-motion timestamp only ages --
/// the controller emits at most its remaining move quota in commands, and
/// so never more than its 32-command refill: once stale, the one possible
/// save replaces at least two unspent moves, and nothing follows it.
pub proof fn lemma_move_quota(st: ControllerState, inputs: Seq<TickInput>)
    requires
        st.wf(),
        forall|i: int| 0 <= i < inputs.len() ==> !(#[trigger] inputs[i]).moving,
        forall|i: int, j: int|
            #![trigger inputs[i], inputs[j]]
            0 <= i <= j < inputs.len() && inputs[i].stale ==> inputs[j].stale,
    ensures
        count_commands(st, inputs) <= st.remaining_moves <= MOVE_QUOTA,
    decreases inputs.len(),
{
    if inputs.len() > 0 {
        let st2 = step_spec(st, inputs[0]).0;
        let rest = inputs.drop_first();
        assert forall|i: int| 0 <= i < rest.len() implies !(#[trigger] rest[i]).moving by {
            assert(rest[i] == inputs[i + 1]);
        }
        if inputs[0].stale {
            assert forall|i: int|
                0 <= i < rest.len() implies !(#[trigger] rest[i]).moving && rest[i].stale by {
                assert(rest[i] == inputs[i + 1]);
                assert(inputs[0].stale);
            }
            lemma_stale_run_silent(st2, rest);
        } else {
            assert forall|i: int, j: int|
                #![trigger rest[i], rest[j]]
                0 <= i <= j < rest.len() && rest[i].stale implies rest[j].stale by {
                assert(rest[i] == inputs[i + 1]);
                assert(rest[j] == inputs[j + 1]);
            }
            lemma_move_quota(st2, rest);
        }
    }
}

/// How many saves a session may still emit from a given state: none once
/// the session has already saved, at most one otherwise.
pub open spec fn saves_left(st: ControllerState) -> nat {
    if (st.mode is IdleActive || st.mode is IdleStale) && st.saved_this_session {
        0nat
    } else {
        1nat
    }
}

proof fn lemma_save_bound(st: ControllerState, inputs: Seq<TickInput>)
    requires
        forall|i: int| 0 <= i < inputs.len() ==> !(#[trigger] inputs[i]).moving,
    ensures
        count_saves(st, inputs) <= saves_left(st),
    decreases inputs.len(),
{
    if inputs.len() > 0 {
        let st2 = step_spec(st, inputs[0]).0;
        let rest = inputs.drop_first();
        assert forall|i: int| 0 <= i < rest.len() implies !(#[trigger] rest[i]).moving by {
            assert(rest[i] == inputs[i + 1]);
        }
        lemma_save_bound(st2, rest);
    }
}

/// The save-position command goes out at most once per idle session: over
/// any run of frames that starts right after the motor was seen driving
/// and in which the motor stays idle, at most one save is emitted.
pub proof fn lemma_save_once_per_session(st: ControllerState, inputs: Seq<TickInput>)
    requires
        st.mode is Busy,
        forall|i: int| 0 <= i < inputs.len() ==> !(#[trigger] inputs[i]).moving,
    ensures
        count_saves(st, inputs) <= 1,
{
    lemma_save_bound(st, inputs);
}

} // verus!
