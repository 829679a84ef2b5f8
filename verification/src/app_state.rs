use vstd::prelude::*;

verus! {

/// The lifecycle state of the application as the device reports it.
#[derive(Debug, Clone, Copy, PartialEq, Eq, Structural)]
pub enum MagicLeapOneAppState {
    Stopped,
    Paused,
    Running,
    LostFocus,
    Standby,
}

/// The callbacks the application hands to the device's lifecycle service.
#[derive(Debug, Clone, Copy, PartialEq, Eq, Structural)]
pub enum LifecycleCallback {
    OnStopped,
    OnPaused,
    OnResumed,
    OnUnloadResources,
    OnNewInitarg,
    OnDeviceActive,
    OnDeviceReality,
    OnDeviceStandby,
    OnFocusLost,
    OnFocusGained,
}

/// The slots of the device's lifecycle callback table, one per event it reports.
#[derive(Debug, Clone, Copy, PartialEq, Eq, Structural)]
pub enum LifecycleEvent {
    Stop,
    Pause,
    Resume,
    UnloadResources,
    NewInitarg,
    DeviceActive,
    DeviceReality,
    DeviceStandby,
    FocusLost,
    FocusGained,
}

/// The state that a callback stores when the device invokes it.
pub open spec fn spec_state_set_by(callback: LifecycleCallback) -> MagicLeapOneAppState {
    match callback {
        LifecycleCallback::OnStopped => MagicLeapOneAppState::Stopped,
        LifecycleCallback::OnPaused => MagicLeapOneAppState::Paused,
        LifecycleCallback::OnDeviceStandby => MagicLeapOneAppState::Standby,
        LifecycleCallback::OnFocusLost => MagicLeapOneAppState::LostFocus,
        _ => MagicLeapOneAppState::Running,
    }
}

/// The callback registered in each slot of the lifecycle table at start-up.
/// The pause slot holds the resume callback.
pub open spec fn spec_registered_callback(event: LifecycleEvent) -> LifecycleCallback {
    match event {
        LifecycleEvent::Stop => LifecycleCallback::OnStopped,
        LifecycleEvent::Pause => LifecycleCallback::OnResumed,
        LifecycleEvent::Resume => LifecycleCallback::OnResumed,
        LifecycleEvent::UnloadResources => LifecycleCallback::OnUnloadResources,
        LifecycleEvent::NewInitarg => LifecycleCallback::OnNewInitarg,
        LifecycleEvent::DeviceActive => LifecycleCallback::OnDeviceActive,
        LifecycleEvent::DeviceReality => LifecycleCallback::OnDeviceReality,
        LifecycleEvent::DeviceStandby => LifecycleCallback::OnDeviceStandby,
        LifecycleEvent::FocusLost => LifecycleCallback::OnFocusLost,
        LifecycleEvent::FocusGained => LifecycleCallback::OnFocusGained,
    }
}

/// The state that the application is in after the device reports `event`.
pub open spec fn spec_state_after_event(event: LifecycleEvent) -> MagicLeapOneAppState {
    spec_state_set_by(spec_registered_callback(event))
}

/// The state a lifecycle callback stores, whatever the state was before.
pub fn state_set_by(callback: LifecycleCallback) -> (state: MagicLeapOneAppState)
    ensures
        state == spec_state_set_by(callback),
{
    match callback {
        LifecycleCallback::OnStopped => MagicLeapOneAppState::Stopped,
        LifecycleCallback::OnPaused => MagicLeapOneAppState::Paused,
        LifecycleCallback::OnResumed => MagicLeapOneAppState::Running,
        LifecycleCallback::OnUnloadResources => MagicLeapOneAppState::Running,
        LifecycleCallback::OnNewInitarg => MagicLeapOneAppState::Running,
        LifecycleCallback::OnDeviceActive => MagicLeapOneAppState::Running,
        LifecycleCallback::OnDeviceReality => MagicLeapOneAppState::Running,
        LifecycleCallback::OnDeviceStandby => MagicLeapOneAppState::Standby,
        LifecycleCallback::OnFocusLost => MagicLeapOneAppState::LostFocus,
        LifecycleCallback::OnFocusGained => MagicLeapOneAppState::Running,
    }
}

/// The callback that start-up registers for `event` in the lifecycle table.
pub fn registered_callback(event: LifecycleEvent) -> (callback: LifecycleCallback)
    ensures
        callback == spec_registered_callback(event),
{
    match event {
        LifecycleEvent::Stop => LifecycleCallback::OnStopped,
        LifecycleEvent::Pause => LifecycleCallback::OnResumed,
        LifecycleEvent::Resume => LifecycleCallback::OnResumed,
        LifecycleEvent::UnloadResources => LifecycleCallback::OnUnloadResources,
        LifecycleEvent::NewInitarg => LifecycleCallback::OnNewInitarg,
        LifecycleEvent::DeviceActive => LifecycleCallback::OnDeviceActive,
        LifecycleEvent::DeviceReality => LifecycleCallback::OnDeviceReality,
        LifecycleEvent::DeviceStandby => LifecycleCallback::OnDeviceStandby,
        LifecycleEvent::FocusLost => LifecycleCallback::OnFocusLost,
        LifecycleEvent::FocusGained => LifecycleCallback::OnFocusGained,
    }
}

/// The state the application is in once the device has reported `event`
/// and the registered callback has run.
pub fn state_after_event(event: LifecycleEvent) -> (state: MagicLeapOneAppState)
    ensures
        state == spec_state_after_event(event),
{
    state_set_by(registered_callback(event))
}

/// What the frame loop does in one turn.
#[derive(Debug, Clone, Copy, PartialEq, Eq, Structural)]
pub enum RunnerAction {
    /// An exit was already requested: leave the loop.
    Stop,
    /// The device stopped the application: request an exit, then leave the loop.
    SendExitAndStop,
    /// The application is not in the foreground: run no update this turn.
    Skip,
    /// Run one update of the application.
    Update,
}

/// The decision of the frame loop for one turn.
pub open spec fn spec_runner_action(exit_requested: bool, state: MagicLeapOneAppState) -> RunnerAction {
    if exit_requested {
        RunnerAction::Stop
    } else {
        match state {
            MagicLeapOneAppState::Stopped => RunnerAction::SendExitAndStop,
            MagicLeapOneAppState::Running => RunnerAction::Update,
            _ => RunnerAction::Skip,
        }
    }
}

/// Whether the frame loop goes on after `action`.
pub open spec fn spec_loop_continues(action: RunnerAction) -> bool {
    action == RunnerAction::Skip || action == RunnerAction::Update
}

/// Decides one turn of the frame loop from whether an exit event was read
/// and from the current lifecycle state.
pub fn runner_action(exit_requested: bool, state: MagicLeapOneAppState) -> (action: RunnerAction)
    ensures
        action == spec_runner_action(exit_requested, state),
{
    if exit_requested {
        return RunnerAction::Stop;
    }
    match state {
        MagicLeapOneAppState::Stopped => RunnerAction::SendExitAndStop,
        MagicLeapOneAppState::Paused => RunnerAction::Skip,
        MagicLeapOneAppState::Running => RunnerAction::Update,
        MagicLeapOneAppState::LostFocus => RunnerAction::Skip,
        MagicLeapOneAppState::Standby => RunnerAction::Skip,
    }
}

/// Whether the frame loop goes on after `action`.
pub fn loop_continues(action: RunnerAction) -> (goes_on: bool)
    ensures
        goes_on == spec_loop_continues(action),
{
    match action {
        RunnerAction::Stop => false,
        RunnerAction::SendExitAndStop => false,
        RunnerAction::Skip => true,
        RunnerAction::Update => true,
    }
}

/// The application is updated in a turn exactly when no exit was requested
/// and the device reports it running; the loop ends exactly when an exit was
/// requested or the device stopped the application; an exit is requested by
/// the loop itself only when the device stopped the application.
pub proof fn lemma_runner_turn(exit_requested: bool, state: MagicLeapOneAppState)
    ensures
        (spec_runner_action(exit_requested, state) == RunnerAction::Update) <==> (!exit_requested
            && state == MagicLeapOneAppState::Running),
        !spec_loop_continues(spec_runner_action(exit_requested, state)) <==> (exit_requested
            || state == MagicLeapOneAppState::Stopped),
        (spec_runner_action(exit_requested, state) == RunnerAction::SendExitAndStop) <==> (
        !exit_requested && state == MagicLeapOneAppState::Stopped),
{
}

/// Each lifecycle event leaves the application running, except a stop,
/// a standby and a loss of focus, which leave it stopped, in standby and
/// unfocused; no event leaves it paused.
pub proof fn lemma_event_outcomes(event: LifecycleEvent)
    ensures
        spec_state_after_event(event) == MagicLeapOneAppState::Stopped <==> event
            == LifecycleEvent::Stop,
        spec_state_after_event(event) == MagicLeapOneAppState::Standby <==> event
            == LifecycleEvent::DeviceStandby,
        spec_state_after_event(event) == MagicLeapOneAppState::LostFocus <==> event
            == LifecycleEvent::FocusLost,
        spec_state_after_event(event) != MagicLeapOneAppState::Paused,
{
}

/// The device event whose handling a callback is named for.
pub open spec fn spec_named_event(callback: LifecycleCallback) -> LifecycleEvent {
    match callback {
        LifecycleCallback::OnStopped => LifecycleEvent::Stop,
        LifecycleCallback::OnPaused => LifecycleEvent::Pause,
        LifecycleCallback::OnResumed => LifecycleEvent::Resume,
        LifecycleCallback::OnUnloadResources => LifecycleEvent::UnloadResources,
        LifecycleCallback::OnNewInitarg => LifecycleEvent::NewInitarg,
        LifecycleCallback::OnDeviceActive => LifecycleEvent::DeviceActive,
        LifecycleCallback::OnDeviceReality => LifecycleEvent::DeviceReality,
        LifecycleCallback::OnDeviceStandby => LifecycleEvent::DeviceStandby,
        LifecycleCallback::OnFocusLost => LifecycleEvent::FocusLost,
        LifecycleCallback::OnFocusGained => LifecycleEvent::FocusGained,
    }
}

/// Every slot of the lifecycle table holds the callback named for its own
/// event, except the pause slot, which holds the resume callback; so two
/// slots share a callback only where they are the pause and resume slots,
/// and the pause callback is registered nowhere.
pub proof fn lemma_each_slot_holds_its_own_callback(event: LifecycleEvent, other: LifecycleEvent)
    ensures
        event != LifecycleEvent::Pause ==> spec_named_event(spec_registered_callback(event))
            == event,
        spec_registered_callback(LifecycleEvent::Pause) == LifecycleCallback::OnResumed,
        spec_registered_callback(event) != LifecycleCallback::OnPaused,
        event != other && spec_registered_callback(event) == spec_registered_callback(other)
            ==> (event == LifecycleEvent::Pause && other == LifecycleEvent::Resume) || (event
            == LifecycleEvent::Resume && other == LifecycleEvent::Pause),
{
}

} // verus!
