//! The life of a reaction handler.

use vstd::prelude::*;

verus! {

/// What a handler is doing.
#[derive(Clone, Copy, Debug, PartialEq, Eq, Structural)]
pub enum ReactionHandlerStatus {
    Uninitialized,
    Running,
    Paused,
    Stopped,
    Error,
}

/// What a handler is told to do.
#[derive(Clone, Copy, Debug, PartialEq, Eq, Structural)]
pub enum HandlerRequest {
    Init,
    Start,
    Pause,
    Stop,
}

/// The status after a request, or why it is refused.
pub open spec fn after_request(status: ReactionHandlerStatus, request: HandlerRequest) -> Result<
    ReactionHandlerStatus,
    Seq<char>,
> {
    match status {
        ReactionHandlerStatus::Error => Err("Handler in Error state"@),
        ReactionHandlerStatus::Uninitialized => match request {
            HandlerRequest::Init => Ok(ReactionHandlerStatus::Paused),
            HandlerRequest::Start => Err("Can't Start Handler, Handler Uninitialized"@),
            HandlerRequest::Pause => Err("Can't Pause Handler, Handler Uninitialized"@),
            HandlerRequest::Stop => Err(
                "Handler not initialized, current status: Uninitialized"@,
            ),
        },
        ReactionHandlerStatus::Running => match request {
            HandlerRequest::Init => Err("Can't Init Handler, Handler currently Running"@),
            HandlerRequest::Start => Ok(ReactionHandlerStatus::Running),
            HandlerRequest::Pause => Ok(ReactionHandlerStatus::Paused),
            HandlerRequest::Stop => Ok(ReactionHandlerStatus::Stopped),
        },
        ReactionHandlerStatus::Paused => match request {
            HandlerRequest::Init => Err("Can't Init Handler, Handler currently Paused"@),
            HandlerRequest::Start => Ok(ReactionHandlerStatus::Running),
            HandlerRequest::Pause => Ok(ReactionHandlerStatus::Paused),
            HandlerRequest::Stop => Ok(ReactionHandlerStatus::Stopped),
        },
        ReactionHandlerStatus::Stopped => match request {
            HandlerRequest::Init => Err("Can't Init Handler, Handler currently Stopped"@),
            HandlerRequest::Start => Err("Can't Start Handler, Handler already Stopped"@),
            HandlerRequest::Pause => Err("Can't Pause Handler, Handler already Stopped"@),
            HandlerRequest::Stop => Ok(ReactionHandlerStatus::Stopped),
        },
    }
}

/// What a handler does while it waits to be started.
#[derive(Clone, Copy, Debug, PartialEq, Eq, Structural)]
pub enum WaitStep {
    /// Receive output.
    Serve,
    /// Wait to be notified.
    Wait,
    /// Give up.
    Exit,
    /// Look again in a while.
    LookAgain,
}

impl ReactionHandlerStatus {
    /// Takes a request. Where it is granted, says whether it changed the status, in which
    /// case those who wait for it are to be notified.
    pub fn request(&mut self, request: HandlerRequest) -> (r: Result<bool, String>)
        ensures
            match r {
                Ok(changed) => after_request(*old(self), request) == Ok::<
                    ReactionHandlerStatus,
                    Seq<char>,
                >(*final(self)) && changed == (*final(self) != *old(self)),
                Err(error) => after_request(*old(self), request) == Err::<
                    ReactionHandlerStatus,
                    Seq<char>,
                >(error@) && *final(self) == *old(self),
            },
    {
        let next = match *self {
            ReactionHandlerStatus::Error => {
                return Err("Handler in Error state".to_owned());
            },
            ReactionHandlerStatus::Uninitialized => match request {
                HandlerRequest::Init => ReactionHandlerStatus::Paused,
                HandlerRequest::Start => {
                    return Err("Can't Start Handler, Handler Uninitialized".to_owned());
                },
                HandlerRequest::Pause => {
                    return Err("Can't Pause Handler, Handler Uninitialized".to_owned());
                },
                HandlerRequest::Stop => {
                    return Err(
                        "Handler not initialized, current status: Uninitialized".to_owned(),
                    );
                },
            },
            ReactionHandlerStatus::Running => match request {
                HandlerRequest::Init => {
                    return Err("Can't Init Handler, Handler currently Running".to_owned());
                },
                HandlerRequest::Start => ReactionHandlerStatus::Running,
                HandlerRequest::Pause => ReactionHandlerStatus::Paused,
                HandlerRequest::Stop => ReactionHandlerStatus::Stopped,
            },
            ReactionHandlerStatus::Paused => match request {
                HandlerRequest::Init => {
                    return Err("Can't Init Handler, Handler currently Paused".to_owned());
                },
                HandlerRequest::Start => ReactionHandlerStatus::Running,
                HandlerRequest::Pause => ReactionHandlerStatus::Paused,
                HandlerRequest::Stop => ReactionHandlerStatus::Stopped,
            },
            ReactionHandlerStatus::Stopped => match request {
                HandlerRequest::Init => {
                    return Err("Can't Init Handler, Handler currently Stopped".to_owned());
                },
                HandlerRequest::Start => {
                    return Err("Can't Start Handler, Handler already Stopped".to_owned());
                },
                HandlerRequest::Pause => {
                    return Err("Can't Pause Handler, Handler already Stopped".to_owned());
                },
                HandlerRequest::Stop => ReactionHandlerStatus::Stopped,
            },
        };
        let changed = next != *self;
        *self = next;
        Ok(changed)
    }

    /// What a handler does while it waits to be started.
    pub fn wait_step(&self) -> (r: WaitStep)
        ensures
            r == (match *self {
                ReactionHandlerStatus::Running => WaitStep::Serve,
                ReactionHandlerStatus::Paused => WaitStep::Wait,
                ReactionHandlerStatus::Stopped => WaitStep::Exit,
                _ => WaitStep::LookAgain,
            }),
    {
        match self {
            ReactionHandlerStatus::Running => WaitStep::Serve,
            ReactionHandlerStatus::Paused => WaitStep::Wait,
            ReactionHandlerStatus::Stopped => WaitStep::Exit,
            _ => WaitStep::LookAgain,
        }
    }
}

/// A stopped handler stays stopped, and a handler in error stays so, whatever is asked of it.
pub proof fn lemma_stopped_handlers_stay_stopped(
    status: ReactionHandlerStatus,
    request: HandlerRequest,
)
    requires
        status == ReactionHandlerStatus::Stopped || status == ReactionHandlerStatus::Error,
    ensures
        after_request(status, request) is Err || after_request(status, request) == Ok::<
            ReactionHandlerStatus,
            Seq<char>,
        >(status),
{
}

/// Starting, pausing and stopping twice is the same as once.
pub proof fn lemma_requests_repeat(status: ReactionHandlerStatus, request: HandlerRequest)
    requires
        request != HandlerRequest::Init,
        after_request(status, request) is Ok,
    ensures
        after_request(after_request(status, request)->Ok_0, request) == after_request(
            status,
            request,
        ),
{
}

} // verus!
