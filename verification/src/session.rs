//! A session: a running application, and who is attached to it.

pub mod handle;
pub mod reactor;
pub mod video;

use vstd::prelude::*;
use crate::control::{AudioStreamParams, ControlMessage, DisplayParams, VideoStreamParams};
use crate::server::protocol::Gamepad;

verus! {

/// How long a session has to accept an attachment, in seconds.
pub const ATTACH_TIMEOUT: u64 = 10;

pub struct Session {
    pub id: u64,
    pub display_params: DisplayParams,
    pub application_id: String,
    /// When the session was launched, in seconds.
    pub started: u64,
    /// Since when nobody is attached, in nanoseconds.
    pub detached_since: Option<u64>,
    pub permanent_gamepads: Vec<Gamepad>,
    /// The session broke, and waits to be cleaned up.
    pub defunct: bool,
    pub operator_attachment_id: Option<u64>,
    pub bug_report_dir: Option<String>,
}

#[derive(Debug, Clone, Copy, PartialEq, Eq, Structural)]
pub enum SessionError {
    Defunct,
    CompositorDied,
    AlreadyHasOperator,
    AttachmentRejected,
}

/// What became of an attachment that was handed to the session.
#[derive(Debug, Clone, Copy, PartialEq, Eq, Structural)]
pub enum AttachOutcome {
    /// The session is gone.
    Undelivered,
    /// The session did not accept it in time.
    TimedOut,
    Accepted,
}

/// What an attachment comes to, and the message that withdraws it, if it has to
/// be.
pub open spec fn attach_result(id: u64, outcome: AttachOutcome) -> (
    Result<(), SessionError>,
    Option<ControlMessage>,
) {
    match outcome {
        AttachOutcome::Undelivered => (Err(SessionError::CompositorDied), None),
        AttachOutcome::TimedOut => (
            Err(SessionError::AttachmentRejected),
            Some(ControlMessage::Detach(id)),
        ),
        AttachOutcome::Accepted => (Ok(()), None),
    }
}

impl Session {
    /// A session that was told to change its display.
    pub open spec fn updated(self, display_params: DisplayParams, delivered: bool) -> (
        Session,
        Result<(), SessionError>,
    ) {
        if delivered {
            (Session { display_params, ..self }, Ok(()))
        } else {
            (Session { defunct: true, ..self }, Err(SessionError::CompositorDied))
        }
    }

    /// A session that its operator left, and what it is told.
    pub open spec fn left(self, attachment_id: u64, now: u64) -> (
        Session,
        Result<ControlMessage, SessionError>,
    ) {
        if self.defunct {
            (self, Err(SessionError::Defunct))
        } else {
            (
                Session { operator_attachment_id: None, detached_since: Some(now), ..self },
                Ok(ControlMessage::Detach(attachment_id)),
            )
        }
    }

    /// A session that was told something.
    pub open spec fn told(self, delivered: bool) -> (Session, Result<(), SessionError>) {
        if delivered {
            (self, Ok(()))
        } else {
            (Session { defunct: true, ..self }, Err(SessionError::CompositorDied))
        }
    }

    /// A session that was just launched.
    pub fn new(
        id: u64,
        application_id: String,
        display_params: DisplayParams,
        permanent_gamepads: Vec<Gamepad>,
        bug_report_dir: Option<String>,
        started: u64,
    ) -> (session: Session)
        ensures
            session == (Session {
                id,
                display_params,
                application_id,
                started,
                detached_since: None,
                permanent_gamepads,
                defunct: false,
                operator_attachment_id: None,
                bug_report_dir,
            }),
    {
        Session {
            id,
            display_params,
            application_id,
            started,
            detached_since: None,
            permanent_gamepads,
            defunct: false,
            operator_attachment_id: None,
            bug_report_dir,
        }
    }

    /// The message that changes the display, unless the session is broken.
    pub fn begin_update(&self, display_params: DisplayParams) -> (message: Result<
        ControlMessage,
        SessionError,
    >)
        ensures
            message == if self.defunct {
                Err::<ControlMessage, SessionError>(SessionError::Defunct)
            } else {
                Ok(ControlMessage::UpdateDisplayParams(display_params))
            },
    {
        if self.defunct {
            Err(SessionError::Defunct)
        } else {
            Ok(ControlMessage::UpdateDisplayParams(display_params))
        }
    }

    /// Records whether the message was delivered. If it was not, the session
    /// is broken.
    pub fn finish_update(&mut self, display_params: DisplayParams, delivered: bool) -> (result:
        Result<(), SessionError>)
        ensures
            (*final(self), result) == old(self).updated(display_params, delivered),
    {
        if delivered {
            self.display_params = display_params;
            Ok(())
        } else {
            self.defunct = true;
            Err(SessionError::CompositorDied)
        }
    }

    /// The message that attaches an operator. A session has at most one.
    pub fn begin_attach(
        &self,
        id: u64,
        video_params: VideoStreamParams,
        audio_params: AudioStreamParams,
    ) -> (message: Result<ControlMessage, SessionError>)
        ensures
            message == if self.defunct {
                Err::<ControlMessage, SessionError>(SessionError::Defunct)
            } else if self.operator_attachment_id is Some {
                Err(SessionError::AlreadyHasOperator)
            } else {
                Ok(ControlMessage::Attach { id, video_params, audio_params })
            },
    {
        if self.defunct {
            Err(SessionError::Defunct)
        } else if self.operator_attachment_id.is_some() {
            Err(SessionError::AlreadyHasOperator)
        } else {
            Ok(ControlMessage::Attach { id, video_params, audio_params })
        }
    }

    /// Records what became of an attachment. One that timed out is withdrawn
    /// with the message that is returned.
    pub fn finish_attach(&mut self, id: u64, outcome: AttachOutcome) -> (result: (
        Result<(), SessionError>,
        Option<ControlMessage>,
    ))
        ensures
            *final(self) == crate::server::attachment::after_attach(*old(self), id, outcome),
            result == attach_result(id, outcome),
    {
        match outcome {
            AttachOutcome::Undelivered => {
                self.defunct = true;
                (Err(SessionError::CompositorDied), None)
            },
            AttachOutcome::TimedOut => (
                Err(SessionError::AttachmentRejected),
                Some(ControlMessage::Detach(id)),
            ),
            AttachOutcome::Accepted => {
                self.operator_attachment_id = Some(id);
                self.detached_since = None;
                (Ok(()), None)
            },
        }
    }

    /// Detaches the operator, and returns the message that says so.
    pub fn begin_detach(&mut self, attachment_id: u64, now: u64) -> (message: Result<
        ControlMessage,
        SessionError,
    >)
        ensures
            (*final(self), message) == old(self).left(attachment_id, now),
    {
        if self.defunct {
            return Err(SessionError::Defunct);
        }
        self.operator_attachment_id = None;
        self.detached_since = Some(now);
        Ok(ControlMessage::Detach(attachment_id))
    }

    /// Records whether the message was delivered.
    pub fn finish_detach(&mut self, delivered: bool) -> (result: Result<(), SessionError>)
        ensures
            (*final(self), result) == old(self).told(delivered),
    {
        if delivered {
            Ok(())
        } else {
            self.defunct = true;
            Err(SessionError::CompositorDied)
        }
    }

    /// A session can be streamed in the resolution of its display, with a
    /// codec that the device supports.
    pub fn supports_stream(&self, params: VideoStreamParams, codec_supported: bool) -> (supported:
        bool)
        ensures
            supported == (params.width == self.display_params.width && params.height
                == self.display_params.height && codec_supported),
    {
        if params.width != self.display_params.width || params.height != self.display_params.height {
            return false;
        }
        codec_supported
    }

    /// Whether a session has been left alone for longer than it is allowed.
    pub open spec fn spec_timed_out(self, now: u64, timeout: Option<u64>) -> bool {
        &&& self.detached_since is Some
        &&& timeout is Some
        &&& now - self.detached_since->0 > timeout->0
    }

    pub fn timed_out(&self, now: u64, timeout: Option<u64>) -> (timed_out: bool)
        ensures
            timed_out == self.spec_timed_out(now, timeout),
    {
        match (self.detached_since, timeout) {
            (Some(since), Some(timeout)) => now > since && now - since > timeout,
            _ => false,
        }
    }
}

/// A session that can be streamed to a client needs no scaling.
pub proof fn supported_stream_is_not_scaled(session: Session, params: VideoStreamParams)
    requires
        params.width == session.display_params.width,
        params.height == session.display_params.height,
        params.width > 0,
        params.height > 0,
    ensures
        crate::server::attachment::scales_to(session.display_params, params),
        session.display_params.height / params.height == 1,
{
    let h = params.height as int;
    assert(h % h == 0 && h / h == 1) by (nonlinear_arith)
        requires
            h > 0,
    ;
    assert(params.width * 1 == params.width);
}

/// How the thread of a session ended.
#[derive(Debug, Clone, Copy, PartialEq, Eq, Structural)]
pub enum ThreadEnd {
    Finished,
    Failed,
    Panicked,
}

/// Why a session was not launched, or not stopped.
#[derive(Debug, Clone, Copy, PartialEq, Eq, Structural)]
pub enum ThreadError {
    CommandNotFound,
    ExitedUnexpectedly,
    Failed,
    Panicked,
    ChannelFull,
}

/// What the launch of a session came to. `in_path` says whether its command
/// can be found; `end` is how its thread ended, if it did so before the
/// session was ready.
pub fn launch_result(in_path: bool, end: Option<ThreadEnd>) -> (result: Result<(), ThreadError>)
    ensures
        result == if !in_path {
            Err::<(), ThreadError>(ThreadError::CommandNotFound)
        } else {
            match end {
                None => Ok(()),
                Some(ThreadEnd::Finished) => Err(ThreadError::ExitedUnexpectedly),
                Some(ThreadEnd::Failed) => Err(ThreadError::Failed),
                Some(ThreadEnd::Panicked) => Err(ThreadError::Panicked),
            }
        },
{
    if !in_path {
        return Err(ThreadError::CommandNotFound);
    }
    match end {
        None => Ok(()),
        Some(ThreadEnd::Finished) => Err(ThreadError::ExitedUnexpectedly),
        Some(ThreadEnd::Failed) => Err(ThreadError::Failed),
        Some(ThreadEnd::Panicked) => Err(ThreadError::Panicked),
    }
}

/// What the end of a session came to. `channel_full` says that the session
/// could not be told to stop; one that is gone need not be told.
pub fn stop_result(channel_full: bool, end: ThreadEnd) -> (result: Result<(), ThreadError>)
    ensures
        result == if channel_full {
            Err::<(), ThreadError>(ThreadError::ChannelFull)
        } else {
            match end {
                ThreadEnd::Finished => Ok(()),
                ThreadEnd::Failed => Err(ThreadError::Failed),
                ThreadEnd::Panicked => Err(ThreadError::Panicked),
            }
        },
{
    if channel_full {
        return Err(ThreadError::ChannelFull);
    }
    match end {
        ThreadEnd::Finished => Ok(()),
        ThreadEnd::Failed => Err(ThreadError::Failed),
        ThreadEnd::Panicked => Err(ThreadError::Panicked),
    }
}

/// A session that cannot be told something is broken, and otherwise works on; a
/// new display takes effect only if the session was told of it.
pub proof fn silent_session_is_broken(
    session: Session,
    display_params: DisplayParams,
    delivered: bool,
)
    ensures
        ({
            let (after, result) = session.updated(display_params, delivered);
            &&& result is Ok <==> delivered
            &&& delivered ==> after.display_params == display_params && after.defunct
                == session.defunct
            &&& !delivered ==> after.defunct && after.display_params == session.display_params
            &&& !delivered ==> result == Err::<(), SessionError>(SessionError::CompositorDied)
            &&& after.id == session.id && after.operator_attachment_id
                == session.operator_attachment_id && after.detached_since == session.detached_since
        }),
        session.told(delivered).1 is Ok <==> delivered,
        delivered ==> session.told(delivered).0 == session,
        !delivered ==> session.told(delivered).0.defunct,
{
}

/// A session that works is told who left, and waits from then on.
pub proof fn operator_leaves_once(session: Session, attachment_id: u64, now: u64)
    ensures
        ({
            let (after, message) = session.left(attachment_id, now);
            &&& message is Ok <==> !session.defunct
            &&& !session.defunct ==> message == Ok::<ControlMessage, SessionError>(
                ControlMessage::Detach(attachment_id),
            )
            &&& !session.defunct ==> after.operator_attachment_id is None && after.detached_since
                == Some(now)
            &&& session.defunct ==> after == session
            &&& after.id == session.id && after.display_params == session.display_params
                && after.defunct == session.defunct
        }),
{
}

/// An attachment succeeds if it is accepted in time; one that comes too late is
/// withdrawn, so that the session does not wait for a client that gave up.
pub proof fn late_attachment_is_withdrawn(id: u64, outcome: AttachOutcome)
    ensures
        attach_result(id, outcome).0 is Ok <==> outcome is Accepted,
        attach_result(id, outcome).1 is Some <==> outcome is TimedOut,
        attach_result(id, outcome).1 matches Some(message) ==> message == ControlMessage::Detach(
            id,
        ),
        attach_result(id, outcome).0 matches Err(err) ==> (err == SessionError::CompositorDied
            <==> outcome is Undelivered),
{
}

/// A session that works and is free can be attached to, with the parameters of
/// the client.
pub proof fn free_session_can_be_attached(
    session: &Session,
    id: u64,
    video_params: VideoStreamParams,
    audio_params: AudioStreamParams,
    message: Result<ControlMessage, SessionError>,
)
    requires
        call_ensures(Session::begin_attach, (session, id, video_params, audio_params), message),
    ensures
        message is Ok <==> !session.defunct && session.operator_attachment_id is None,
        message matches Ok(ControlMessage::Attach { id: i, video_params: v, audio_params: a }) ==> i
            == id && v == video_params && a == audio_params,
        message is Ok ==> message->Ok_0 is Attach,
        message matches Err(err) ==> (err == SessionError::Defunct <==> session.defunct),
{
}

/// A session is left alone for too long once more time has passed than it is
/// allowed; one that has somebody, or no limit, never is.
pub proof fn timeout_needs_absence(session: Session, now: u64, later: u64, timeout: Option<u64>)
    requires
        now <= later,
    ensures
        session.detached_since is None ==> !session.spec_timed_out(now, timeout),
        timeout is None ==> !session.spec_timed_out(now, timeout),
        session.spec_timed_out(now, timeout) ==> session.spec_timed_out(later, timeout),
        session.detached_since is Some && timeout is Some ==> (session.spec_timed_out(now, timeout)
            <==> now > session.detached_since->0 + timeout->0),
{
}

/// A session is launched if its command is found and it has not ended when it is
/// ready; an end before that is always an error, and says how it came.
pub proof fn launch_fails_for_a_reason(
    in_path: bool,
    end: Option<ThreadEnd>,
    result: Result<(), ThreadError>,
)
    requires
        call_ensures(launch_result, (in_path, end), result),
    ensures
        result is Ok <==> in_path && end is None,
        result == Err::<(), ThreadError>(ThreadError::CommandNotFound) <==> !in_path,
        in_path ==> (result == Err::<(), ThreadError>(ThreadError::ExitedUnexpectedly) <==> end
            == Some(ThreadEnd::Finished)),
        in_path ==> (result == Err::<(), ThreadError>(ThreadError::Panicked) <==> end == Some(
            ThreadEnd::Panicked,
        )),
{
}

/// A session stops well if it could be told and finished.
pub proof fn stop_fails_for_a_reason(
    channel_full: bool,
    end: ThreadEnd,
    result: Result<(), ThreadError>,
)
    requires
        call_ensures(stop_result, (channel_full, end), result),
    ensures
        result is Ok <==> !channel_full && end is Finished,
        result == Err::<(), ThreadError>(ThreadError::ChannelFull) <==> channel_full,
        !channel_full ==> (result == Err::<(), ThreadError>(ThreadError::Panicked) <==> end
            is Panicked),
{
}

/// A new session is whole, nobody is attached to it, and it is what it was asked to
/// be.
pub proof fn new_session_is_free(
    id: u64,
    application_id: String,
    display_params: DisplayParams,
    permanent_gamepads: Vec<Gamepad>,
    bug_report_dir: Option<String>,
    started: u64,
    session: Session,
)
    requires
        call_ensures(
            Session::new,
            (id, application_id, display_params, permanent_gamepads, bug_report_dir, started),
            session,
        ),
    ensures
        session.id == id,
        session.application_id == application_id,
        session.display_params == display_params,
        session.permanent_gamepads == permanent_gamepads,
        session.bug_report_dir == bug_report_dir,
        session.started == started,
        session.detached_since is None,
        session.operator_attachment_id is None,
        !session.defunct,
{
}

/// A session can be streamed in the size of its display, with a codec that is
/// supported. A stream of another width or another height is refused.
pub proof fn streams_have_the_size_of_the_display(
    session: &Session,
    params: VideoStreamParams,
    codec_supported: bool,
    supported: bool,
)
    requires
        call_ensures(Session::supports_stream, (session, params, codec_supported), supported),
    ensures
        supported ==> codec_supported,
        params.width != session.display_params.width ==> !supported,
        params.height != session.display_params.height ==> !supported,
        codec_supported && params.width == session.display_params.width && params.height
            == session.display_params.height ==> supported,
{
}

/// The compositor is sent just the parameters that were asked for; that of a broken
/// session is sent nothing.
pub proof fn broken_session_is_not_updated(
    session: &Session,
    display_params: DisplayParams,
    message: Result<ControlMessage, SessionError>,
)
    requires
        call_ensures(Session::begin_update, (session, display_params), message),
    ensures
        message is Err <==> session.defunct,
        message matches Err(err) ==> err is Defunct,
        message matches Ok(sent) ==> (sent matches ControlMessage::UpdateDisplayParams(params)
            && params == display_params),
{
}

} // verus!
