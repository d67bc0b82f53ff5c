//! The decisions of a service handle whose service can be replaced while
//! it runs: a channel publishes new services (or that the current one is
//! stale), and readiness is polled through the newest one. The polling and
//! the waiting are done by the caller, which feeds what it observed back
//! into the step functions here.

use vstd::prelude::*;

verus! {

/// The state of a handle.
#[derive(Clone, Debug)]
pub enum InternalState<S> {
    /// No usable service yet; waiting for the channel.
    Uninitialized,
    /// A service that should work.
    Normal(S),
    /// The channel is closed; no service will come.
    Finished,
}

impl<S> InternalState<S> {
    /// The current service, if there is one.
    pub fn as_normal(&mut self) -> (r: Option<&mut S>)
        ensures
            *old(self) is Normal <==> r is Some,
            r matches Some(s) ==> *s == (*old(self))->Normal_0,
            r matches Some(s) ==> *final(self) == InternalState::Normal(*final(s)),
            r is None ==> *final(self) == *old(self),
    {
        match self {
            InternalState::Normal(s) => Some(s),
            _ => None,
        }
    }

    /// Whether there is no service yet.
    pub fn is_uninitialized(&self) -> (r: bool)
        ensures
            r == (self is Uninitialized),
    {
        match self {
            InternalState::Uninitialized => true,
            _ => false,
        }
    }

    /// Whether the channel is closed.
    pub fn is_finished(&self) -> (r: bool)
        ensures
            r == (self is Finished),
    {
        match self {
            InternalState::Finished => true,
            _ => false,
        }
    }

    /// Whether there is a service.
    pub fn is_normal(&self) -> (r: bool)
        ensures
            r == (self is Normal),
    {
        match self {
            InternalState::Normal(_) => true,
            _ => false,
        }
    }
}

/// The error of a handle: the channel is closed, or the service failed.
#[derive(Clone, Debug, PartialEq, Eq)]
pub enum ReloadableServiceError<E> {
    Stopped,
    /// The service failed.
    Service(E),
}

impl<E> ReloadableServiceError<E> {
    /// The error for a closed channel.
    pub fn service_stopped() -> (r: Self)
        ensures
            r is Stopped,
    {
        ReloadableServiceError::Stopped
    }

    /// Whether the channel is closed.
    pub fn is_stopped(&self) -> (r: bool)
        ensures
            r == (self is Stopped),
    {
        match self {
            ReloadableServiceError::Stopped => true,
            _ => false,
        }
    }

    /// The service's error, if that is what this is.
    pub fn into_inner(self) -> (r: Option<E>)
        ensures
            match self {
                ReloadableServiceError::Service(e) => r == Some(e),
                ReloadableServiceError::Stopped => r is None,
            },
    {
        match self {
            ReloadableServiceError::Service(e) => Some(e),
            _ => None,
        }
    }
}

impl<E> From<E> for ReloadableServiceError<E> {
    fn from(err: E) -> (r: Self) {
        ReloadableServiceError::Service(err)
    }
}

impl<E> vstd::std_specs::convert::FromSpecImpl<E> for ReloadableServiceError<E> {
    open spec fn obeys_from_spec() -> bool {
        true
    }

    open spec fn from_spec(err: E) -> Self {
        ReloadableServiceError::Service(err)
    }
}

// ---------------------------------------------------------------------
// Polling for readiness

/// What the channel of services reported when polled.
#[derive(Clone, Debug)]
pub enum UpdatePoll<S> {
    /// Nothing new.
    Pending,
    /// The channel is closed.
    Closed,
    /// The current service is stale and no new one is ready.
    Failed,
    /// A new service.
    Ready(S),
}

/// What the current service reported when polled for readiness.
#[derive(Clone, Copy, Debug, PartialEq, Eq, Structural)]
pub enum ServicePoll {
    Pending,
    Ready,
    Failed,
}

/// What the caller observed since the last step.
#[derive(Clone, Debug)]
pub enum PollEvent<S> {
    /// A poll for readiness begins.
    Start,
    /// The channel was polled; `waited` tells whether the caller's context
    /// was registered (so that it is woken on the next update) or a no-op
    /// waker was used.
    Updates { poll: UpdatePoll<S>, waited: bool },
    /// The current service was polled for readiness.
    Service(ServicePoll),
}

/// What the caller does next.
#[derive(Clone, Copy, Debug, PartialEq, Eq, Structural)]
pub enum PollStep {
    /// Poll the channel with a no-op waker, to pick up a newer service
    /// without waiting for one.
    CheckUpdates,
    /// Poll the channel with the caller's context.
    WaitForUpdates,
    /// Poll the current service for readiness.
    PollService,
    /// Report that the handle is not ready yet.
    ReturnPending,
    /// Report that the handle is ready.
    ReturnReady,
    /// Report that the handle has stopped.
    ReturnStopped,
}

/// What to do from a state when the loop starts over.
pub open spec fn restart_step<S>(s: InternalState<S>) -> PollStep {
    match s {
        InternalState::Normal(_) => PollStep::CheckUpdates,
        InternalState::Finished => PollStep::ReturnStopped,
        InternalState::Uninitialized => PollStep::WaitForUpdates,
    }
}

/// One step of polling for readiness: the new state and what to do next.
pub open spec fn poll_step<S>(s: InternalState<S>, e: PollEvent<S>) -> (InternalState<S>, PollStep) {
    if s is Finished {
        (s, PollStep::ReturnStopped)
    } else {
        match e {
            PollEvent::Start => (s, restart_step(s)),
            PollEvent::Updates { poll, waited } => match poll {
                UpdatePoll::Pending => if waited {
                    (s, PollStep::ReturnPending)
                } else if s is Normal {
                    (s, PollStep::PollService)
                } else {
                    (s, restart_step(s))
                },
                UpdatePoll::Closed => (InternalState::Finished, PollStep::ReturnStopped),
                UpdatePoll::Failed => (InternalState::Uninitialized, PollStep::WaitForUpdates),
                UpdatePoll::Ready(n) => if waited {
                    (InternalState::Normal(n), PollStep::CheckUpdates)
                } else {
                    (InternalState::Normal(n), PollStep::PollService)
                },
            },
            PollEvent::Service(p) => match p {
                ServicePoll::Pending => (s, PollStep::ReturnPending),
                ServicePoll::Ready => if s is Normal {
                    (s, PollStep::ReturnReady)
                } else {
                    (s, restart_step(s))
                },
                ServicePoll::Failed => (InternalState::Uninitialized, PollStep::WaitForUpdates),
            },
        }
    }
}

/// Advances the readiness poll by one observation and says what to do
/// next.
///
/// A handle with a service first checks the channel for a newer one
/// without waiting, then polls the service: it is ready when the service
/// is; a failing service makes it wait for the channel. A handle without a
/// service waits for the channel. A closed channel stops the handle for
/// good.
pub fn poll_ready_step<S>(status: &mut InternalState<S>, event: PollEvent<S>) -> (r: PollStep)
    ensures
        (*final(status), r) == poll_step(*old(status), event),
{
    if status.is_finished() {
        return PollStep::ReturnStopped;
    }
    match event {
        PollEvent::Start => {
            if status.is_normal() {
                PollStep::CheckUpdates
            } else {
                PollStep::WaitForUpdates
            }
        },
        PollEvent::Updates { poll, waited } => match poll {
            UpdatePoll::Pending => {
                if waited {
                    PollStep::ReturnPending
                } else if status.is_normal() {
                    PollStep::PollService
                } else {
                    PollStep::WaitForUpdates
                }
            },
            UpdatePoll::Closed => {
                *status = InternalState::Finished;
                PollStep::ReturnStopped
            },
            UpdatePoll::Failed => {
                *status = InternalState::Uninitialized;
                PollStep::WaitForUpdates
            },
            UpdatePoll::Ready(n) => {
                *status = InternalState::Normal(n);
                if waited {
                    PollStep::CheckUpdates
                } else {
                    PollStep::PollService
                }
            },
        },
        PollEvent::Service(p) => match p {
            ServicePoll::Pending => PollStep::ReturnPending,
            ServicePoll::Ready => {
                if status.is_normal() {
                    PollStep::ReturnReady
                } else {
                    PollStep::WaitForUpdates
                }
            },
            ServicePoll::Failed => {
                *status = InternalState::Uninitialized;
                PollStep::WaitForUpdates
            },
        },
    }
}

/// A handle reports ready, or asks to poll the service, only while it has
/// a service; it reports stopped exactly when it is finished; and once
/// finished it stays finished.
pub proof fn law_poll_step<S>(s: InternalState<S>, e: PollEvent<S>)
    ensures
        poll_step(s, e).1 == PollStep::ReturnReady ==> poll_step(s, e).0 is Normal,
        poll_step(s, e).1 == PollStep::PollService ==> poll_step(s, e).0 is Normal,
        (poll_step(s, e).1 == PollStep::ReturnStopped) == (poll_step(s, e).0 is Finished),
        s is Finished ==> poll_step(s, e).0 is Finished,
{
}

// ---------------------------------------------------------------------
// Reloading

/// Whether the service factory was ready when polled.
#[derive(Clone, Debug)]
pub enum FactoryReady<E> {
    Pending,
    Ready,
    Failed(E),
}

/// What one poll of the factory's call gave.
#[derive(Clone, Debug)]
pub enum FactoryCall<M, E> {
    Pending,
    Made(M),
    Failed(E),
}

/// What the caller observed since the last reload step.
#[derive(Clone, Debug)]
pub enum ReloadEvent<M, E> {
    /// A reload is asked for; tells whether the new configuration equals
    /// the current one.
    Start { same_config: bool },
    /// The factory was polled for readiness.
    Factory(FactoryReady<E>),
    /// The factory's call was polled once.
    Called(FactoryCall<M, E>),
}

/// What the caller does next in a reload.
#[derive(Clone, Debug)]
pub enum ReloadStep<M, E> {
    /// Finish now, successfully.
    Done,
    /// Finish now with the factory's error.
    Fail(E),
    /// Keep the new configuration, tell the handles that their service is
    /// stale, and poll the factory for readiness.
    MarkStale,
    /// Finish in the background: wait for the factory, call it, publish
    /// the service.
    ReadyCallPublishLater,
    /// Call the factory with the new configuration and poll the call once.
    Call,
    /// Publish the new service to the handles, then finish successfully.
    Publish(M),
    /// Finish in the background: await the call, publish the service.
    AwaitPublishLater,
}

/// One step of a reload.
pub open spec fn reload_spec<M, E>(e: ReloadEvent<M, E>) -> ReloadStep<M, E> {
    match e {
        ReloadEvent::Start { same_config } => if same_config {
            ReloadStep::Done
        } else {
            ReloadStep::MarkStale
        },
        ReloadEvent::Factory(f) => match f {
            FactoryReady::Pending => ReloadStep::ReadyCallPublishLater,
            FactoryReady::Ready => ReloadStep::Call,
            FactoryReady::Failed(err) => ReloadStep::Fail(err),
        },
        ReloadEvent::Called(c) => match c {
            FactoryCall::Pending => ReloadStep::AwaitPublishLater,
            FactoryCall::Made(m) => ReloadStep::Publish(m),
            FactoryCall::Failed(err) => ReloadStep::Fail(err),
        },
    }
}

/// Decides the next step of a reload: an unchanged configuration finishes
/// at once; otherwise the handles are told their service is stale, and the
/// factory is asked for a new service, which is published when it is made.
/// Whatever cannot finish without waiting is finished in the background.
pub fn reload_step<M, E>(event: ReloadEvent<M, E>) -> (r: ReloadStep<M, E>)
    ensures
        r == reload_spec(event),
{
    match event {
        ReloadEvent::Start { same_config } => {
            if same_config {
                ReloadStep::Done
            } else {
                ReloadStep::MarkStale
            }
        },
        ReloadEvent::Factory(f) => match f {
            FactoryReady::Pending => ReloadStep::ReadyCallPublishLater,
            FactoryReady::Ready => ReloadStep::Call,
            FactoryReady::Failed(err) => ReloadStep::Fail(err),
        },
        ReloadEvent::Called(c) => match c {
            FactoryCall::Pending => ReloadStep::AwaitPublishLater,
            FactoryCall::Made(m) => ReloadStep::Publish(m),
            FactoryCall::Failed(err) => ReloadStep::Fail(err),
        },
    }
}

/// A service is published only when the factory made it, and an unchanged
/// configuration neither marks the service stale nor calls the factory.
pub proof fn law_reload_step<M, E>(e: ReloadEvent<M, E>)
    ensures
        reload_spec(e) is Publish ==> e matches ReloadEvent::Called(FactoryCall::Made(_)),
        e matches ReloadEvent::Start { same_config: true } ==> reload_spec(e) is Done,
{
}

// ---------------------------------------------------------------------
// The channel of services

/// Whether the channel still delivers updates.
#[derive(Clone, Copy, Debug, PartialEq, Eq, Structural)]
pub enum ChannelStatus {
    /// Waiting for the next update.
    Fine,
    /// The sending side is gone.
    Terminated,
}

/// What waiting for the next update gave when polled.
#[derive(Debug)]
pub enum ChangePoll<S> {
    Pending,
    /// The sending side is gone.
    Closed,
    /// The current value: a service, or `Err(())` for a stale one.
    Changed(Result<S, ()>),
}

/// What the channel yields when polled.
#[derive(Debug)]
pub enum ChannelOutput<S> {
    Pending,
    /// The stream has ended.
    End,
    /// An update; the channel then waits for the next one.
    Item(Result<S, ()>),
}

/// One poll of the channel as a stream: a terminated channel ends at once
/// (without waiting); otherwise the wait is polled, and a closed sender
/// terminates the channel.
pub fn channel_poll_step<S>(status: &mut ChannelStatus, poll: ChangePoll<S>) -> (r: ChannelOutput<S>)
    ensures
        *old(status) == ChannelStatus::Terminated ==> *final(status) == ChannelStatus::Terminated
            && r is End,
        *old(status) == ChannelStatus::Fine ==> match poll {
            ChangePoll::Pending => *final(status) == ChannelStatus::Fine && r is Pending,
            ChangePoll::Closed => *final(status) == ChannelStatus::Terminated && r is End,
            ChangePoll::Changed(x) => *final(status) == ChannelStatus::Fine && r == ChannelOutput::Item(x),
        },
{
    if *status == ChannelStatus::Terminated {
        return ChannelOutput::End;
    }
    match poll {
        ChangePoll::Pending => ChannelOutput::Pending,
        ChangePoll::Closed => {
            *status = ChannelStatus::Terminated;
            ChannelOutput::End
        },
        ChangePoll::Changed(x) => ChannelOutput::Item(x),
    }
}

/// How a handle reads what the channel yields: an update with a service is
/// a new service, a stale update is a failure, the end is a closed channel.
pub fn update_poll_of<S>(out: ChannelOutput<S>) -> (r: UpdatePoll<S>)
    ensures
        match out {
            ChannelOutput::Pending => r is Pending,
            ChannelOutput::End => r is Closed,
            ChannelOutput::Item(Ok(s)) => r == UpdatePoll::Ready(s),
            ChannelOutput::Item(Err(())) => r is Failed,
        },
{
    match out {
        ChannelOutput::Pending => UpdatePoll::Pending,
        ChannelOutput::End => UpdatePoll::Closed,
        ChannelOutput::Item(Ok(s)) => UpdatePoll::Ready(s),
        ChannelOutput::Item(Err(())) => UpdatePoll::Failed,
    }
}

/// The handle reports ready only when its service reported ready, and a
/// service that is still pending always makes it report pending, keeping
/// its state. A failing service makes it wait for a new one; a closed
/// channel stops it; a new service from the channel replaces the current
/// one.
pub proof fn law_poll_ready_follows_service<S>(s: InternalState<S>, e: PollEvent<S>)
    ensures
        poll_step(s, e).1 == PollStep::ReturnReady ==> (e matches PollEvent::Service(p) && p
            == ServicePoll::Ready) && s is Normal,
        !(s is Finished) && (e matches PollEvent::Service(p) && p == ServicePoll::Pending) ==> poll_step(
            s,
            e,
        ) == (s, PollStep::ReturnPending),
        !(s is Finished) && (e matches PollEvent::Service(p) && p == ServicePoll::Ready)
            && s is Normal ==> poll_step(s, e) == (s, PollStep::ReturnReady),
        !(s is Finished) && (e matches PollEvent::Service(p) && p == ServicePoll::Failed) ==> poll_step(
            s,
            e,
        ) == (InternalState::<S>::Uninitialized, PollStep::WaitForUpdates),
        !(s is Finished) && (e matches PollEvent::Updates { poll: UpdatePoll::Closed, .. })
            ==> poll_step(s, e).0 is Finished,
        e matches PollEvent::Updates { poll: UpdatePoll::Ready(n), .. } ==> (!(s is Finished)
            ==> poll_step(s, e).0 == InternalState::Normal(n)),
        poll_step(s, e).1 == PollStep::ReturnPending ==> poll_step(s, e).0 == s,
{
}

} // verus!
