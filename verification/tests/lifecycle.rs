use bevy_magicleap_one::app_state::{
    loop_continues, registered_callback, runner_action, state_after_event, state_set_by,
    LifecycleCallback, LifecycleEvent, MagicLeapOneAppState, RunnerAction,
};

#[test]
fn callbacks_store_their_states() {
    assert_eq!(state_set_by(LifecycleCallback::OnStopped), MagicLeapOneAppState::Stopped);
    assert_eq!(state_set_by(LifecycleCallback::OnPaused), MagicLeapOneAppState::Paused);
    assert_eq!(state_set_by(LifecycleCallback::OnResumed), MagicLeapOneAppState::Running);
    assert_eq!(state_set_by(LifecycleCallback::OnUnloadResources), MagicLeapOneAppState::Running);
    assert_eq!(state_set_by(LifecycleCallback::OnNewInitarg), MagicLeapOneAppState::Running);
    assert_eq!(state_set_by(LifecycleCallback::OnDeviceActive), MagicLeapOneAppState::Running);
    assert_eq!(state_set_by(LifecycleCallback::OnDeviceReality), MagicLeapOneAppState::Running);
    assert_eq!(state_set_by(LifecycleCallback::OnDeviceStandby), MagicLeapOneAppState::Standby);
    assert_eq!(state_set_by(LifecycleCallback::OnFocusLost), MagicLeapOneAppState::LostFocus);
    assert_eq!(state_set_by(LifecycleCallback::OnFocusGained), MagicLeapOneAppState::Running);
}

#[test]
fn pause_slot_holds_the_resume_callback() {
    assert_eq!(registered_callback(LifecycleEvent::Pause), LifecycleCallback::OnResumed);
    assert_eq!(registered_callback(LifecycleEvent::Resume), LifecycleCallback::OnResumed);
    assert_eq!(registered_callback(LifecycleEvent::Stop), LifecycleCallback::OnStopped);
    assert_eq!(state_after_event(LifecycleEvent::Pause), MagicLeapOneAppState::Running);
}

#[test]
fn events_lead_to_states() {
    assert_eq!(state_after_event(LifecycleEvent::Stop), MagicLeapOneAppState::Stopped);
    assert_eq!(state_after_event(LifecycleEvent::DeviceStandby), MagicLeapOneAppState::Standby);
    assert_eq!(state_after_event(LifecycleEvent::FocusLost), MagicLeapOneAppState::LostFocus);
    assert_eq!(state_after_event(LifecycleEvent::FocusGained), MagicLeapOneAppState::Running);
    assert_eq!(state_after_event(LifecycleEvent::UnloadResources), MagicLeapOneAppState::Running);
    assert_eq!(state_after_event(LifecycleEvent::NewInitarg), MagicLeapOneAppState::Running);
    assert_eq!(state_after_event(LifecycleEvent::DeviceActive), MagicLeapOneAppState::Running);
    assert_eq!(state_after_event(LifecycleEvent::DeviceReality), MagicLeapOneAppState::Running);
}

#[test]
fn no_event_leaves_the_app_paused() {
    let events = [
        LifecycleEvent::Stop,
        LifecycleEvent::Pause,
        LifecycleEvent::Resume,
        LifecycleEvent::UnloadResources,
        LifecycleEvent::NewInitarg,
        LifecycleEvent::DeviceActive,
        LifecycleEvent::DeviceReality,
        LifecycleEvent::DeviceStandby,
        LifecycleEvent::FocusLost,
        LifecycleEvent::FocusGained,
    ];
    for event in events {
        assert_ne!(state_after_event(event), MagicLeapOneAppState::Paused);
    }
}

#[test]
fn runner_updates_only_when_running() {
    assert_eq!(runner_action(false, MagicLeapOneAppState::Running), RunnerAction::Update);
    assert_eq!(runner_action(false, MagicLeapOneAppState::Paused), RunnerAction::Skip);
    assert_eq!(runner_action(false, MagicLeapOneAppState::LostFocus), RunnerAction::Skip);
    assert_eq!(runner_action(false, MagicLeapOneAppState::Standby), RunnerAction::Skip);
    assert_eq!(runner_action(false, MagicLeapOneAppState::Stopped), RunnerAction::SendExitAndStop);
}

#[test]
fn runner_stops_on_requested_exit() {
    for state in [
        MagicLeapOneAppState::Stopped,
        MagicLeapOneAppState::Paused,
        MagicLeapOneAppState::Running,
        MagicLeapOneAppState::LostFocus,
        MagicLeapOneAppState::Standby,
    ] {
        assert_eq!(runner_action(true, state), RunnerAction::Stop);
        assert!(!loop_continues(runner_action(true, state)));
    }
}

#[test]
fn loop_goes_on_after_skip_and_update() {
    assert!(loop_continues(RunnerAction::Skip));
    assert!(loop_continues(RunnerAction::Update));
    assert!(!loop_continues(RunnerAction::Stop));
    assert!(!loop_continues(RunnerAction::SendExitAndStop));
}
