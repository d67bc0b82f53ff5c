use config_crap::reloadable::{channel_poll_step, update_poll_of, ChangePoll, ChannelOutput, ChannelStatus};
use config_crap::reloadable::{
    poll_ready_step, reload_step, FactoryCall, FactoryReady, InternalState, PollEvent, PollStep,
    ReloadEvent, ReloadStep, ReloadableServiceError, ServicePoll, UpdatePoll,
};

#[test]
fn state_queries() {
    let mut s: InternalState<u8> = InternalState::Normal(3);
    assert!(s.is_normal());
    assert!(!s.is_finished());
    *s.as_normal().unwrap() = 4;
    assert!(matches!(s, InternalState::Normal(4)));
    let mut u: InternalState<u8> = InternalState::Uninitialized;
    assert!(u.is_uninitialized());
    assert!(u.as_normal().is_none());
}

#[test]
fn errors() {
    let e: ReloadableServiceError<u8> = ReloadableServiceError::service_stopped();
    assert!(e.is_stopped());
    assert_eq!(e.into_inner(), None);
    let e: ReloadableServiceError<u8> = ReloadableServiceError::from(7);
    assert!(!e.is_stopped());
    assert_eq!(e.into_inner(), Some(7));
}

#[test]
fn ready_service_is_checked_then_polled() {
    let mut s: InternalState<u8> = InternalState::Normal(1);
    assert_eq!(poll_ready_step(&mut s, PollEvent::Start), PollStep::CheckUpdates);
    assert_eq!(poll_ready_step(&mut s, PollEvent::Updates { poll: UpdatePoll::Pending, waited: false }), PollStep::PollService);
    assert_eq!(poll_ready_step(&mut s, PollEvent::Service(ServicePoll::Ready)), PollStep::ReturnReady);
}

#[test]
fn newer_service_replaces_the_current_one() {
    let mut s: InternalState<u8> = InternalState::Normal(1);
    assert_eq!(poll_ready_step(&mut s, PollEvent::Updates { poll: UpdatePoll::Ready(2), waited: false }), PollStep::PollService);
    assert!(matches!(s, InternalState::Normal(2)));
}

#[test]
fn failing_service_waits_for_updates() {
    let mut s: InternalState<u8> = InternalState::Normal(1);
    assert_eq!(poll_ready_step(&mut s, PollEvent::Service(ServicePoll::Failed)), PollStep::WaitForUpdates);
    assert!(s.is_uninitialized());
    assert_eq!(poll_ready_step(&mut s, PollEvent::Updates { poll: UpdatePoll::Pending, waited: true }), PollStep::ReturnPending);
    assert_eq!(poll_ready_step(&mut s, PollEvent::Updates { poll: UpdatePoll::Ready(5), waited: true }), PollStep::CheckUpdates);
    assert!(matches!(s, InternalState::Normal(5)));
}

#[test]
fn closed_channel_stops_for_good() {
    let mut s: InternalState<u8> = InternalState::Uninitialized;
    assert_eq!(poll_ready_step(&mut s, PollEvent::Updates { poll: UpdatePoll::Closed, waited: true }), PollStep::ReturnStopped);
    assert!(s.is_finished());
    assert_eq!(poll_ready_step(&mut s, PollEvent::Start), PollStep::ReturnStopped);
    assert_eq!(poll_ready_step(&mut s, PollEvent::Updates { poll: UpdatePoll::Ready(1), waited: true }), PollStep::ReturnStopped);
    assert!(s.is_finished());
}

#[test]
fn stale_service_waits() {
    let mut s: InternalState<u8> = InternalState::Normal(1);
    assert_eq!(poll_ready_step(&mut s, PollEvent::Updates { poll: UpdatePoll::Failed, waited: false }), PollStep::WaitForUpdates);
    assert!(s.is_uninitialized());
}

#[test]
fn reload_steps() {
    assert!(matches!(reload_step::<u8, u8>(ReloadEvent::Start { same_config: true }), ReloadStep::Done));
    assert!(matches!(reload_step::<u8, u8>(ReloadEvent::Start { same_config: false }), ReloadStep::MarkStale));
    assert!(matches!(reload_step::<u8, u8>(ReloadEvent::Factory(FactoryReady::Pending)), ReloadStep::ReadyCallPublishLater));
    assert!(matches!(reload_step::<u8, u8>(ReloadEvent::Factory(FactoryReady::Ready)), ReloadStep::Call));
    assert!(matches!(reload_step::<u8, u8>(ReloadEvent::Factory(FactoryReady::Failed(3))), ReloadStep::Fail(3)));
    assert!(matches!(reload_step::<u8, u8>(ReloadEvent::Called(FactoryCall::Made(9))), ReloadStep::Publish(9)));
    assert!(matches!(reload_step::<u8, u8>(ReloadEvent::Called(FactoryCall::Pending)), ReloadStep::AwaitPublishLater));
    assert!(matches!(reload_step::<u8, u8>(ReloadEvent::Called(FactoryCall::Failed(2))), ReloadStep::Fail(2)));
}

#[test]
fn channel_stream_steps() {
    let mut st = ChannelStatus::Fine;
    assert!(matches!(channel_poll_step::<u8>(&mut st, ChangePoll::Pending), ChannelOutput::Pending));
    assert!(matches!(channel_poll_step(&mut st, ChangePoll::Changed(Ok(4u8))), ChannelOutput::Item(Ok(4))));
    assert_eq!(st, ChannelStatus::Fine);
    assert!(matches!(channel_poll_step::<u8>(&mut st, ChangePoll::Closed), ChannelOutput::End));
    assert_eq!(st, ChannelStatus::Terminated);
    assert!(matches!(channel_poll_step(&mut st, ChangePoll::Changed(Ok(5u8))), ChannelOutput::End));
    assert!(matches!(update_poll_of::<u8>(ChannelOutput::Item(Err(()))), UpdatePoll::Failed));
    assert!(matches!(update_poll_of(ChannelOutput::Item(Ok(1u8))), UpdatePoll::Ready(1)));
    assert!(matches!(update_poll_of::<u8>(ChannelOutput::End), UpdatePoll::Closed));
}
