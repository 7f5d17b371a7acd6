use camera_display::control::{
    Command, ControllerState, Decision, MOVE_QUOTA, MotorMode, MotorStatus, decide,
};

fn idle() -> MotorStatus {
    MotorStatus { is_moving: false, idle_ms: Some(1000) }
}

fn stale() -> MotorStatus {
    MotorStatus { is_moving: false, idle_ms: Some(9001) }
}

fn busy() -> MotorStatus {
    MotorStatus { is_moving: true, idle_ms: Some(0) }
}

#[test]
fn decide_aligned_within_one_pixel() {
    assert_eq!(decide(Some(200), Some(200)), Decision::Aligned);
    assert_eq!(decide(Some(201), Some(200)), Decision::Aligned);
    assert_eq!(decide(Some(199), Some(200)), Decision::Aligned);
    assert_eq!(decide(Some(195), Some(200)), Decision::MoveLeft);
    assert_eq!(decide(Some(205), Some(200)), Decision::MoveRight);
    assert_eq!(decide(None, Some(200)), Decision::Unknown);
    assert_eq!(decide(Some(200), None), Decision::Unknown);
    assert_eq!(decide(None, None), Decision::Unknown);
}

#[test]
fn command_codes() {
    assert_eq!(Command::MoveLeft.codes(), "114");
    assert_eq!(Command::MoveRight.codes(), "115");
    assert_eq!(Command::SavePosition.codes(), "113,14");
}

#[test]
fn aligned_rails_emit_nothing() {
    let st = ControllerState::initial();
    let (st1, cmd) = st.step(&idle(), Decision::Aligned);
    assert_eq!(cmd, None);
    assert_eq!(st1.remaining_moves, MOVE_QUOTA);
    assert_eq!(st1.mode, MotorMode::IdleActive);
}

#[test]
fn table_left_of_layout_moves_left() {
    // diff = 195 - 200 = -5: one move-left per frame, quota spent one by
    // one.
    let st = ControllerState::initial();
    let d = decide(Some(195), Some(200));
    let (st1, cmd) = st.step(&idle(), d);
    assert_eq!(cmd, Some(Command::MoveLeft));
    assert_eq!(st1.remaining_moves, MOVE_QUOTA - 1);
    let (st2, cmd2) = st1.step(&idle(), d);
    assert_eq!(cmd2, Some(Command::MoveLeft));
    assert_eq!(st2.remaining_moves, MOVE_QUOTA - 2);
}

#[test]
fn table_right_of_layout_moves_right() {
    let st = ControllerState::initial();
    let (_, cmd) = st.step(&idle(), decide(Some(210), Some(200)));
    assert_eq!(cmd, Some(Command::MoveRight));
}

#[test]
fn motor_busy_blocks_commands_and_refills_quota() {
    let mut st = ControllerState::initial();
    for _ in 0..5 {
        let (n, _) = st.step(&idle(), Decision::MoveLeft);
        st = n;
    }
    assert_eq!(st.remaining_moves, MOVE_QUOTA - 5);
    let (st1, cmd) = st.step(&busy(), Decision::MoveLeft);
    assert_eq!(cmd, None);
    assert_eq!(st1.remaining_moves, MOVE_QUOTA);
    assert_eq!(st1.mode, MotorMode::Busy);
    assert!(st1.saved_this_session);
}

#[test]
fn exhausted_quota_emits_nothing() {
    let mut st = ControllerState::initial();
    st.remaining_moves = 0;
    st.mode = MotorMode::IdleActive;
    let (st1, cmd) = st.step(&idle(), decide(Some(190), Some(200)));
    assert_eq!(cmd, None);
    assert_eq!(st1.remaining_moves, 0);
    assert_eq!(st1.mode, MotorMode::IdleActive);
}

#[test]
fn at_most_quota_moves_while_idle() {
    let mut st = ControllerState::initial();
    let mut emitted = 0;
    for _ in 0..40 {
        let (n, cmd) = st.step(&idle(), Decision::MoveLeft);
        st = n;
        if cmd.is_some() {
            emitted += 1;
        }
    }
    assert_eq!(emitted, MOVE_QUOTA);
}

#[test]
fn session_save_after_going_stale() {
    // One correction, then the motor sits idle past the cutoff: exactly
    // one save-position command, and none on later frames.
    let st = ControllerState::initial();
    let (st, _) = st.step(&busy(), Decision::Unknown);
    let (st, cmd) = st.step(&idle(), Decision::MoveLeft);
    assert_eq!(cmd, Some(Command::MoveLeft));
    let (st, cmd) = st.step(&stale(), Decision::Unknown);
    assert_eq!(cmd, Some(Command::SavePosition));
    assert!(st.saved_this_session);
    let (st, cmd) = st.step(&stale(), Decision::Unknown);
    assert_eq!(cmd, None);
    let (st, cmd) = st.step(&idle(), Decision::Aligned);
    assert_eq!(cmd, None);
    let (_, cmd) = st.step(&stale(), Decision::Unknown);
    assert_eq!(cmd, None, "no second save in the same idle session");
}

#[test]
fn no_save_without_a_correction_session() {
    // Busy straight to stale: the session never went active, nothing to
    // save.
    let st = ControllerState::initial();
    let (st, _) = st.step(&busy(), Decision::Unknown);
    let (_, cmd) = st.step(&stale(), Decision::Unknown);
    assert_eq!(cmd, None);
}

#[test]
fn stale_turns_auto_move_off() {
    let st = ControllerState::initial();
    let (st, _) = st.step(&stale(), Decision::Unknown);
    assert_eq!(st.mode, MotorMode::IdleStale);
    assert_eq!(st.remaining_moves, MOVE_QUOTA);
}

#[test]
fn unreadable_mtime_is_not_stale() {
    let status = MotorStatus { is_moving: false, idle_ms: None };
    assert!(!status.is_stale());
    let status = MotorStatus { is_moving: false, idle_ms: Some(9000) };
    assert!(!status.is_stale());
    let status = MotorStatus { is_moving: false, idle_ms: Some(9001) };
    assert!(status.is_stale());
}
