//! Requests that are answered with one message.

use vstd::prelude::*;
use bytes::Bytes;
use crate::bytes_ext::{bytes_len, bytes_split_to};
use crate::control::{ControlMessage, DisplayParams};
use crate::server::attachment::generate_streaming_res;
use crate::codec::VideoCodec;
use crate::config::MAX_IMAGE_SIZE;
use crate::server::protocol::{
    server_error, ErrorCode, Gamepad, ServerError, Size, VirtualDisplayParameters,
};
use crate::server::validation::{validate_display_params, validation_error, ValidationError};
use crate::session::Session;
use crate::state::ServerState;
use crate::text::decimal_text;

verus! {

/// The first message of a stream.
#[derive(Debug, Clone, Copy, PartialEq, Eq, Structural)]
pub enum InitialMessage {
    ListApplications,
    FetchApplicationImage,
    LaunchSession,
    ListSessions,
    UpdateSession,
    EndSession,
    Attach,
    /// Any other message.
    Other,
}

/// How a stream goes on after its first message.
#[derive(Debug, Clone, Copy, PartialEq, Eq, Structural)]
pub enum Route {
    /// One response, then the stream is closed.
    Roundtrip,
    /// The stream stays open.
    Attachment,
}

/// Decides how a stream goes on. One that does not begin with a request is
/// an error.
pub fn dispatch(initial: InitialMessage) -> (route: Result<Route, ServerError>)
    ensures
        match initial {
            InitialMessage::Other => route matches Err(err) && err@
                == crate::server::protocol::ServerErrorView(
                ErrorCode::ErrorProtocolUnexpectedMessage,
                None,
            ),
            InitialMessage::Attach => route == Ok::<Route, ServerError>(Route::Attachment),
            _ => route == Ok::<Route, ServerError>(Route::Roundtrip),
        },
{
    match initial {
        InitialMessage::Attach => Ok(Route::Attachment),
        InitialMessage::Other => Err(
            ServerError(ErrorCode::ErrorProtocolUnexpectedMessage, None),
        ),
        _ => Ok(Route::Roundtrip),
    }
}

/// An application, as clients see it.
pub struct Application {
    pub id: String,
    pub description: Option<String>,
    /// The folder that it is shown in.
    pub path: Vec<String>,
    /// The file with its image.
    pub header_image: Option<String>,
}

/// Formats of images that the server has.
#[derive(Debug, Clone, Copy, PartialEq, Eq, Structural)]
pub enum ImageFormat {
    Header,
}

/// An application in the answer to a client.
pub struct ListedApplication {
    pub id: String,
    pub description: String,
    pub folder: Vec<String>,
    pub images_available: Vec<ImageFormat>,
}

/// A description that is missing is listed as an empty text.
pub open spec fn lists(listed: ListedApplication, app: Application) -> bool {
    &&& listed.id@ == app.id@
    &&& listed.description@ == match app.description {
        Some(text) => text@,
        None => Seq::empty(),
    }
    &&& listed.folder@ == app.path@
    &&& listed.images_available@ == if app.header_image is Some {
        seq![ImageFormat::Header]
    } else {
        Seq::empty()
    }
}

fn copy_texts(texts: &Vec<String>) -> (copy: Vec<String>)
    ensures
        copy@ == texts@,
{
    let mut copy: Vec<String> = Vec::new();
    let mut i: usize = 0;
    while i < texts.len()
        invariant
            i <= texts@.len(),
            copy@ == texts@.take(i as int),
        decreases texts.len() - i,
    {
        copy.push(texts[i].clone());
        assert(texts@.take(i + 1) =~= texts@.take(i as int).push(texts@[i as int]));
        i += 1;
    }
    assert(texts@.take(i as int) =~= texts@);
    copy
}

/// Lists every application.
pub fn list_applications(apps: &Vec<Application>) -> (list: Vec<ListedApplication>)
    ensures
        list@.len() == apps@.len(),
        forall|i: int| 0 <= i < apps@.len() ==> lists(#[trigger] list@[i], apps@[i]),
{
    let mut list: Vec<ListedApplication> = Vec::new();
    let mut i: usize = 0;
    while i < apps.len()
        invariant
            i <= apps@.len(),
            list@.len() == i,
            forall|j: int| 0 <= j < i ==> lists(#[trigger] list@[j], apps@[j]),
        decreases apps.len() - i,
    {
        let app = &apps[i];
        let mut images: Vec<ImageFormat> = Vec::new();
        if app.header_image.is_some() {
            images.push(ImageFormat::Header);
        }
        let listed = ListedApplication {
            id: app.id.clone(),
            description: match &app.description {
                Some(text) => text.clone(),
                None => String::new(),
            },
            folder: copy_texts(&app.path),
            images_available: images,
        };
        assert(lists(listed, apps@[i as int]));
        list.push(listed);
        i += 1;
    }
    list
}

/// The first application with an id.
pub open spec fn is_application(apps: Seq<Application>, id: Seq<char>, i: int) -> bool {
    &&& 0 <= i < apps.len()
    &&& apps[i].id@ == id
    &&& forall|j: int| 0 <= j < i ==> (#[trigger] apps[j]).id@ != id
}

pub open spec fn has_application(apps: Seq<Application>, id: Seq<char>) -> bool {
    exists|i: int| 0 <= i < apps.len() && (#[trigger] apps[i]).id@ == id
}

fn find_application(apps: &Vec<Application>, id: &String) -> (found: Option<usize>)
    ensures
        match found {
            Some(i) => is_application(apps@, id@, i as int) && has_application(apps@, id@),
            None => !has_application(apps@, id@),
        },
{
    let mut i: usize = 0;
    while i < apps.len()
        invariant
            i <= apps@.len(),
            forall|j: int| 0 <= j < i ==> (#[trigger] apps@[j]).id@ != id@,
        decreases apps.len() - i,
    {
        if apps[i].id == *id {
            return Some(i);
        }
        i += 1;
    }
    None
}

/// Finds the file with the image that a client asks for. `format` is what the
/// client's number stands for, if it stands for a format.
pub fn fetch_img(apps: &Vec<Application>, format: Option<ImageFormat>, application_id: &String) -> (
result: Result<String, ServerError>)
    ensures
        format is None ==> (result matches Err(err) && err@
            == crate::server::protocol::ServerErrorView(
            ErrorCode::ErrorProtocol,
            Some("unknown application image type"@),
        )),
        format is Some && !has_application(apps@, application_id@) ==> (result matches Err(err)
            && err@ == crate::server::protocol::ServerErrorView(
            ErrorCode::ErrorApplicationNotFound,
            Some("application not found"@),
        )),
        format is Some ==> forall|i: int|
            #![trigger apps@[i]]
            is_application(apps@, application_id@, i) ==> match apps@[i].header_image {
                Some(path) => result matches Ok(p) && p@ == path@,
                None => result matches Err(err) && err@ == crate::server::protocol::ServerErrorView(
                    ErrorCode::ErrorApplicationNotFound,
                    Some("image not found"@),
                ),
            },
{
    if format.is_none() {
        return Err(server_error(ErrorCode::ErrorProtocol, "unknown application image type"));
    }
    let i: usize = match find_application(apps, application_id) {
        Some(i) => i,
        None => {
            return Err(server_error(ErrorCode::ErrorApplicationNotFound, "application not found"));
        },
    };
    match &apps[i].header_image {
        Some(path) => Ok(path.clone()),
        None => Err(server_error(ErrorCode::ErrorApplicationNotFound, "image not found")),
    }
}

#[derive(Debug, Clone, Copy, PartialEq, Eq, Structural)]
pub enum ReadError {
    TooBig,
    Empty,
}

/// What a file holds, unless it is empty or has more than `max_size` bytes.
/// `data` is the beginning of the file, up to one byte more than that.
pub fn read_file(data: Bytes, max_size: u64) -> (result: Result<Bytes, ReadError>)
    ensures
        match result {
            Ok(bytes) => crate::bytes_ext::contents(bytes) == crate::bytes_ext::contents(data)
                && 0 < crate::bytes_ext::contents(data).len() <= max_size,
            Err(ReadError::TooBig) => crate::bytes_ext::contents(data).len() > max_size,
            Err(ReadError::Empty) => crate::bytes_ext::contents(data).len() == 0,
        },
{
    let len: usize = bytes_len(&data);
    if len as u64 > max_size {
        return Err(ReadError::TooBig);
    }
    if len == 0 {
        return Err(ReadError::Empty);
    }
    let mut rest = data;
    let head = bytes_split_to(&mut rest, len);
    assert(crate::bytes_ext::contents(head) =~= crate::bytes_ext::contents(data));
    Ok(head)
}

/// The image for a client, from the beginning of its file, if the file could
/// be read.
pub fn image_response(data: Option<Bytes>) -> (result: Result<Bytes, ServerError>)
    ensures
        match data {
            Some(data) if 0 < crate::bytes_ext::contents(data).len()
                <= crate::config::MAX_IMAGE_SIZE => result matches Ok(image)
                && crate::bytes_ext::contents(image) == crate::bytes_ext::contents(data),
            _ => result matches Err(err) && err@ == crate::server::protocol::ServerErrorView(
                ErrorCode::ErrorServer,
                Some("failed to load image"@),
            ),
        },
{
    if let Some(data) = data {
        if let Ok(image) = read_file(data, MAX_IMAGE_SIZE) {
            return Ok(image);
        }
    }
    Err(server_error(ErrorCode::ErrorServer, "failed to load image"))
}

/// A session that is about to be launched.
pub struct Launch {
    pub seq: usize,
    pub id: u64,
    pub display_params: DisplayParams,
    pub permanent_gamepads: Vec<Gamepad>,
}

/// The first gamepad that is turned down.
pub open spec fn first_bad_gamepad(gamepads: Seq<Result<Gamepad, ValidationError>>, i: int) -> bool {
    &&& 0 <= i < gamepads.len()
    &&& gamepads[i] is Err
    &&& forall|j: int| 0 <= j < i ==> (#[trigger] gamepads[j]) is Ok
}

/// Why a session is not launched, if anything stands against it.
pub open spec fn launch_failure(
    sessions: Map<u64, Session>,
    apps: Seq<Application>,
    display_params: Option<VirtualDisplayParameters>,
    application_id: Seq<char>,
    gamepads: Seq<Result<Gamepad, ValidationError>>,
    single_session: bool,
    err: crate::server::protocol::ServerErrorView,
) -> bool {
    let checked = crate::server::validation::valid_display_params(display_params);
    if checked is Err {
        err == crate::server::validation::validation_failure(checked->Err_0, false)
    } else if single_session && sessions.dom() != Set::<u64>::empty() {
        err == crate::server::protocol::ServerErrorView(
            ErrorCode::ErrorServer,
            Some("only one session allowed if actively debugging"@),
        )
    } else if !has_application(apps, application_id) {
        err == crate::server::protocol::ServerErrorView(
            ErrorCode::ErrorSessionLaunchFailed,
            Some("application not found"@),
        )
    } else {
        exists|i: int| #[trigger]
            first_bad_gamepad(gamepads, i) && err == crate::server::validation::validation_failure(
                gamepads[i]->Err_0@,
                false,
            )
    }
}

/// A session can be launched.
pub open spec fn can_launch(
    sessions: Map<u64, Session>,
    apps: Seq<Application>,
    display_params: Option<VirtualDisplayParameters>,
    application_id: Seq<char>,
    gamepads: Seq<Result<Gamepad, ValidationError>>,
    single_session: bool,
) -> bool {
    &&& crate::server::validation::valid_display_params(display_params) is Ok
    &&& single_session ==> sessions.dom() == Set::<u64>::empty()
    &&& has_application(apps, application_id)
    &&& forall|i: int| 0 <= i < gamepads.len() ==> (#[trigger] gamepads[i]) is Ok
}

/// Checks a request for a session, and gives the session its number and its
/// id. `gamepads` holds what the check of each gamepad came to.
/// `single_session` is set where only one session can run at a time.
pub fn begin_launch(
    state: &mut ServerState,
    apps: &Vec<Application>,
    display_params: Option<VirtualDisplayParameters>,
    application_id: &String,
    gamepads: Vec<Result<Gamepad, ValidationError>>,
    single_session: bool,
) -> (result: Result<Launch, ServerError>)
    requires
        old(state).session_seq < usize::MAX,
    ensures
        final(state).sessions@ == old(state).sessions@,
        result is Ok <==> can_launch(
            old(state).sessions@,
            apps@,
            display_params,
            application_id@,
            gamepads@,
            single_session,
        ),
        match result {
            Ok(launch) => {
                &&& launch.seq == old(state).session_seq
                &&& ServerState::gives_out(*old(state), *final(state), launch.id)
                &&& final(state).session_seq == old(state).session_seq + 1
                &&& launch.display_params
                    == crate::server::validation::valid_display_params(display_params)->Ok_0
                &&& launch.permanent_gamepads@.len() == gamepads@.len()
                &&& forall|i: int|
                    0 <= i < gamepads@.len() ==> gamepads@[i] == Ok::<Gamepad, ValidationError>(
                        #[trigger] launch.permanent_gamepads@[i],
                    )
            },
            Err(err) => {
                &&& final(state).session_seq == old(state).session_seq
                &&& final(state).id_generator == old(state).id_generator
                &&& launch_failure(
                    old(state).sessions@,
                    apps@,
                    display_params,
                    application_id@,
                    gamepads@,
                    single_session,
                    err@,
                )
            },
        },
{
    let display = match validate_display_params(display_params) {
        Ok(display) => display,
        Err(err) => {
            return Err(validation_error(err, false));
        },
    };
    if single_session {
        let ids = state.sessions.ids();
        if ids.len() > 0 {
            assert(ids@.to_set().contains(ids@[0]));
            return Err(
                server_error(
                    ErrorCode::ErrorServer,
                    "only one session allowed if actively debugging",
                ),
            );
        }
        assert(ids@.to_set() =~= Set::<u64>::empty());
    }
    if find_application(apps, application_id).is_none() {
        return Err(server_error(ErrorCode::ErrorSessionLaunchFailed, "application not found"));
    }
    let mut rest = gamepads;
    let mut permanent_gamepads: Vec<Gamepad> = Vec::new();
    assert(gamepads@.skip(0) =~= gamepads@);
    while rest.len() > 0
        invariant
            permanent_gamepads@.len() + rest@.len() == gamepads@.len(),
            rest@ == gamepads@.skip(permanent_gamepads@.len() as int),
            forall|i: int|
                0 <= i < permanent_gamepads@.len() ==> gamepads@[i] == Ok::<
                    Gamepad,
                    ValidationError,
                >(#[trigger] permanent_gamepads@[i]),
            *state == *old(state),
            crate::server::validation::valid_display_params(display_params) is Ok,
            single_session ==> old(state).sessions@.dom() == Set::<u64>::empty(),
            has_application(apps@, application_id@),
        decreases rest.len(),
    {
        let ghost n = permanent_gamepads@.len() as int;
        let gamepad = rest.remove(0);
        assert(gamepad == gamepads@[n]);
        assert(rest@ =~= gamepads@.skip(n + 1));
        match gamepad {
            Ok(gamepad) => {
                permanent_gamepads.push(gamepad);
            },
            Err(err) => {
                proof {
                    assert forall|j: int| 0 <= j < n implies (#[trigger] gamepads@[j]) is Ok by {
                        assert(gamepads@[j] == Ok::<Gamepad, ValidationError>(
                            permanent_gamepads@[j],
                        ));
                    }
                    assert(first_bad_gamepad(gamepads@, n));
                }
                return Err(validation_error(err, false));
            },
        }
    }
    let (seq, id): (usize, u64) = state.generate_session_id();
    assert forall|i: int| 0 <= i < gamepads@.len() implies (#[trigger] gamepads@[i]) is Ok by {
        assert(gamepads@[i] == Ok::<Gamepad, ValidationError>(permanent_gamepads@[i]));
    }
    Ok(Launch { seq, id, display_params: display, permanent_gamepads })
}

/// A number, with a zero in front of it if it has a single digit.
pub open spec fn two_digits(n: nat) -> Seq<char> {
    if n < 10 {
        "0"@ + crate::text::decimal(n)
    } else {
        crate::text::decimal(n)
    }
}

fn two_digit_text(n: u64) -> (text: String)
    ensures
        text@ == two_digits(n as nat),
{
    if n < 10 {
        let mut text = "0".to_owned();
        text.append(decimal_text(n).as_str());
        text
    } else {
        decimal_text(n)
    }
}

/// The directory with the bug reports of a session.
pub fn session_report_dir(seq: usize, id: u64) -> (name: String)
    ensures
        name@ == "session-"@ + two_digits(seq as nat) + "-"@ + crate::text::decimal(id as nat),
{
    let mut name = "session-".to_owned();
    name.append(two_digit_text(seq as u64).as_str());
    name.append("-");
    name.append(decimal_text(id).as_str());
    name
}

/// The file that the video of an attachment is kept in. Each stream has its
/// own, with the codec as its extension.
pub fn attachment_report_file(stream_seq: u64, attachment_id: u64, codec: VideoCodec) -> (name:
    String)
    ensures
        name@ == "attachment-"@ + two_digits(stream_seq as nat) + "-"@ + crate::text::decimal(
            attachment_id as nat,
        ) + match codec {
            VideoCodec::H264 => ".h264"@,
            VideoCodec::H265 => ".h265"@,
            VideoCodec::Av1 => ".av1"@,
        },
{
    let mut name = "attachment-".to_owned();
    name.append(two_digit_text(stream_seq).as_str());
    name.append("-");
    name.append(decimal_text(attachment_id).as_str());
    match codec {
        VideoCodec::H264 => name.append(".h264"),
        VideoCodec::H265 => name.append(".h265"),
        VideoCodec::Av1 => name.append(".av1"),
    }
    name
}

/// The answer to a client that launched a session.
pub struct SessionLaunched {
    pub id: u64,
    pub supported_streaming_resolutions: Vec<Size>,
}

/// Files a session that was launched; `None` stands for one that was not.
pub fn finish_launch(state: &mut ServerState, launched: Option<Session>) -> (result: Result<
    SessionLaunched,
    ServerError,
>)
    requires
        old(state).wf(),
    ensures
        final(state).wf(),
        final(state).session_seq == old(state).session_seq,
        final(state).id_generator == old(state).id_generator,
        match launched {
            Some(session) => {
                &&& final(state).sessions@ == old(state).sessions@.insert(session.id, session)
                &&& result matches Ok(answer) && answer.id == session.id
                    && answer.supported_streaming_resolutions@
                    == crate::server::attachment::streaming_resolutions(session.display_params)
            },
            None => {
                &&& final(state).sessions@ == old(state).sessions@
                &&& result matches Err(err) && err@ == crate::server::protocol::ServerErrorView(
                    ErrorCode::ErrorSessionLaunchFailed,
                    None,
                )
            },
        },
{
    match launched {
        Some(session) => {
            let id: u64 = session.id;
            let supported_streaming_resolutions = generate_streaming_res(&session.display_params);
            state.sessions.insert(id, session);
            Ok(SessionLaunched { id, supported_streaming_resolutions })
        },
        None => Err(ServerError(ErrorCode::ErrorSessionLaunchFailed, None)),
    }
}

/// A session in the answer to a client.
pub struct ListedSession {
    pub application_id: String,
    pub session_id: u64,
    pub session_start: u64,
    pub display_params: VirtualDisplayParameters,
    pub supported_streaming_resolutions: Vec<Size>,
    pub permanent_gamepads: Vec<Gamepad>,
}

pub open spec fn lists_session(listed: ListedSession, session: Session) -> bool {
    &&& listed.application_id@ == session.application_id@
    &&& listed.session_id == session.id
    &&& listed.session_start == session.started
    &&& listed.display_params == crate::server::protocol::display_message(session.display_params)
    &&& listed.supported_streaming_resolutions@
        == crate::server::attachment::streaming_resolutions(session.display_params)
    &&& listed.permanent_gamepads@ == session.permanent_gamepads@
}

fn copy_gamepads(gamepads: &Vec<Gamepad>) -> (copy: Vec<Gamepad>)
    ensures
        copy@ == gamepads@,
{
    let mut copy: Vec<Gamepad> = Vec::new();
    let mut i: usize = 0;
    while i < gamepads.len()
        invariant
            i <= gamepads@.len(),
            copy@ == gamepads@.take(i as int),
        decreases gamepads.len() - i,
    {
        copy.push(gamepads[i]);
        assert(gamepads@.take(i + 1) =~= gamepads@.take(i as int).push(gamepads@[i as int]));
        i += 1;
    }
    assert(gamepads@.take(i as int) =~= gamepads@);
    copy
}

/// Lists every session once, in no particular order.
pub fn list_sessions(state: &ServerState) -> (list: Vec<ListedSession>)
    requires
        state.wf(),
    ensures
        forall|i: int|
            0 <= i < list@.len() ==> state.sessions@.contains_key((#[trigger] list@[i]).session_id)
                && lists_session(list@[i], state.sessions@[list@[i].session_id]),
        forall|i: int, j: int|
            0 <= i < j < list@.len() ==> (#[trigger] list@[i]).session_id != (
            #[trigger] list@[j]).session_id,
        forall|id: u64| #[trigger]
            state.sessions@.contains_key(id) ==> exists|i: int|
                0 <= i < list@.len() && (#[trigger] list@[i]).session_id == id,
{
    let ids = state.sessions.ids();
    let mut list: Vec<ListedSession> = Vec::new();
    let mut i: usize = 0;
    while i < ids.len()
        invariant
            i <= ids@.len(),
            state.wf(),
            ids@.no_duplicates(),
            ids@.to_set() == state.sessions@.dom(),
            list@.len() == i,
            forall|j: int|
                0 <= j < i ==> (#[trigger] list@[j]).session_id == ids@[j]
                    && state.sessions@.contains_key(ids@[j]) && lists_session(
                    list@[j],
                    state.sessions@[ids@[j]],
                ),
        decreases ids.len() - i,
    {
        let id: u64 = ids[i];
        assert(ids@.to_set().contains(ids@[i as int]));
        if let Some(session) = state.sessions.get(id) {
            assert(state.sessions@.contains_key(id));
            let listed = ListedSession {
                application_id: session.application_id.clone(),
                session_id: session.id,
                session_start: session.started,
                display_params: VirtualDisplayParameters::from_display(session.display_params),
                supported_streaming_resolutions: generate_streaming_res(&session.display_params),
                permanent_gamepads: copy_gamepads(&session.permanent_gamepads),
            };
            assert(lists_session(listed, *session));
            list.push(listed);
        }
        i += 1;
    }
    proof {
        assert forall|id: u64| #[trigger] state.sessions@.contains_key(id) implies exists|i: int|
            0 <= i < list@.len() && (#[trigger] list@[i]).session_id == id by {
            assert(ids@.to_set().contains(id));
            let j = choose|j: int| 0 <= j < ids@.len() && ids@[j] == id;
            assert(list@[j].session_id == id);
        }
    }
    list
}

/// What has to be done for a client that changes a display.
#[derive(Debug, Clone, Copy, PartialEq, Eq, Structural)]
pub enum Update {
    /// The display has these parameters already.
    Unchanged,
    Send { display_params: DisplayParams, message: ControlMessage },
}

pub open spec fn update_failure() -> crate::server::protocol::ServerErrorView {
    crate::server::protocol::ServerErrorView(
        ErrorCode::ErrorServer,
        Some("failed to update display params"@),
    )
}

/// Checks a request to change the display of a session.
pub fn begin_update_session(
    state: &ServerState,
    session_id: u64,
    display_params: Option<VirtualDisplayParameters>,
) -> (result: Result<Update, ServerError>)
    ensures
        ({
            let checked = crate::server::validation::valid_display_params(display_params);
            let session = state.sessions@[session_id];
            if checked is Err {
                result matches Err(err) && err@ == crate::server::validation::validation_failure(
                    checked->Err_0,
                    false,
                )
            } else if !state.sessions@.contains_key(session_id) {
                result matches Err(err) && err@ == crate::server::protocol::ServerErrorView(
                    ErrorCode::ErrorSessionNotFound,
                    None,
                )
            } else if session.display_params == checked->Ok_0 {
                result == Ok::<Update, ServerError>(Update::Unchanged)
            } else if session.defunct {
                result matches Err(err) && err@ == update_failure()
            } else {
                result == Ok::<Update, ServerError>(
                    Update::Send {
                        display_params: checked->Ok_0,
                        message: ControlMessage::UpdateDisplayParams(checked->Ok_0),
                    },
                )
            }
        }),
{
    let display = match validate_display_params(display_params) {
        Ok(display) => display,
        Err(err) => {
            return Err(validation_error(err, false));
        },
    };
    match state.sessions.get(session_id) {
        None => Err(ServerError(ErrorCode::ErrorSessionNotFound, None)),
        Some(session) => {
            if session.display_params == display {
                return Ok(Update::Unchanged);
            }
            match session.begin_update(display) {
                Ok(message) => Ok(Update::Send { display_params: display, message }),
                Err(_) => Err(
                    server_error(ErrorCode::ErrorServer, "failed to update display params"),
                ),
            }
        },
    }
}

/// Records whether the session was told of its new display. A session that
/// could not be told is broken.
pub fn finish_update_session(
    state: &mut ServerState,
    session_id: u64,
    display_params: DisplayParams,
    delivered: bool,
) -> (result: Result<(), ServerError>)
    requires
        old(state).wf(),
        old(state).sessions@.contains_key(session_id),
    ensures
        final(state).wf(),
        final(state).session_seq == old(state).session_seq,
        final(state).id_generator == old(state).id_generator,
        final(state).sessions@ == old(state).sessions@.insert(
            session_id,
            old(state).sessions@[session_id].updated(display_params, delivered).0,
        ),
        result is Ok <==> delivered,
        result matches Err(err) ==> err@ == update_failure(),
{
    if let Some(session) = state.sessions.get_mut(session_id) {
        if session.finish_update(display_params, delivered).is_ok() {
            return Ok(());
        }
    }
    Err(server_error(ErrorCode::ErrorServer, "failed to update display params"))
}

/// Takes a session out, to be stopped.
pub fn end_session(state: &mut ServerState, session_id: u64) -> (result: Result<
    Session,
    ServerError,
>)
    requires
        old(state).wf(),
    ensures
        final(state).wf(),
        final(state).session_seq == old(state).session_seq,
        final(state).id_generator == old(state).id_generator,
        final(state).sessions@ == old(state).sessions@.remove(session_id),
        match result {
            Ok(session) => old(state).sessions@.contains_key(session_id) && session == old(
                state).sessions@[session_id],
            Err(err) => !old(state).sessions@.contains_key(session_id) && err@
                == crate::server::protocol::ServerErrorView(ErrorCode::ErrorSessionNotFound, None),
        },
{
    match state.sessions.remove(session_id) {
        Some(session) => Ok(session),
        None => Err(ServerError(ErrorCode::ErrorSessionNotFound, None)),
    }
}

/// Only an attachment keeps its stream open; every other request gets one answer,
/// and what is no request an error.
pub proof fn attachments_stay_open(initial: InitialMessage, route: Result<Route, ServerError>)
    requires
        call_ensures(dispatch, (initial,), route),
    ensures
        route is Ok <==> !(initial is Other),
        route matches Ok(r) ==> (r == Route::Attachment <==> initial is Attach),
        route matches Err(err) ==> err@.0 == ErrorCode::ErrorProtocolUnexpectedMessage,
{
}

/// An application is listed under its own id, with its own description and
/// folder; an image can be asked for if and only if it has one.
pub proof fn application_is_listed_as_it_is(listed: ListedApplication, app: Application)
    requires
        lists(listed, app),
    ensures
        listed.id@ == app.id@,
        app.description matches Some(text) ==> listed.description@ == text@,
        app.description is None ==> listed.description@.len() == 0,
        listed.folder@ == app.path@,
        listed.images_available@.contains(ImageFormat::Header) <==> app.header_image is Some,
        listed.images_available@.len() <= 1,
{
    if app.header_image is Some {
        assert(listed.images_available@[0] == ImageFormat::Header);
    }
}

/// A session is listed as it is: its application, its start, its gamepads, and
/// its display, which can be streamed in its own size.
pub proof fn session_is_listed_as_it_is(listed: ListedSession, session: Session)
    requires
        lists_session(listed, session),
    ensures
        listed.session_id == session.id,
        listed.application_id@ == session.application_id@,
        listed.session_start == session.started,
        listed.permanent_gamepads@ == session.permanent_gamepads@,
        listed.display_params.resolution matches Some(size) && size.width
            == session.display_params.width && size.height == session.display_params.height,
        listed.display_params.framerate_hz == session.display_params.framerate,
        listed.display_params.ui_scale matches Some(scale) && scale.numerator
            == session.display_params.ui_scale.0 && scale.denominator
            == session.display_params.ui_scale.1,
        listed.supported_streaming_resolutions@.len() == 1,
        listed.supported_streaming_resolutions@[0].width == session.display_params.width,
        listed.supported_streaming_resolutions@[0].height == session.display_params.height,
{
}

/// A session is told of a new display if it exists, works, and has another one;
/// what it is told is what the client asked for.
pub proof fn changed_display_is_sent(
    state: &ServerState,
    session_id: u64,
    display_params: Option<VirtualDisplayParameters>,
    result: Result<Update, ServerError>,
)
    requires
        call_ensures(begin_update_session, (state, session_id, display_params), result),
    ensures
        result matches Ok(Update::Send { display_params: told, message }) ==> {
            &&& message == ControlMessage::UpdateDisplayParams(told)
            &&& crate::server::validation::valid_display_params(display_params) == Ok::<
                DisplayParams,
                crate::server::validation::ValidationErrorView,
            >(told)
            &&& told != state.sessions@[session_id].display_params
            &&& state.sessions@.contains_key(session_id) && !state.sessions@[session_id].defunct
        },
        result == Ok::<Update, ServerError>(Update::Unchanged) ==> state.sessions@.contains_key(
            session_id,
        ) && crate::server::validation::valid_display_params(display_params) == Ok::<
            DisplayParams,
            crate::server::validation::ValidationErrorView,
        >(state.sessions@[session_id].display_params),
        (result matches Err(err) && err@.0 == ErrorCode::ErrorSessionNotFound)
            ==> !state.sessions@.contains_key(session_id),
        crate::server::validation::valid_display_params(display_params) is Ok
            && state.sessions@.contains_key(session_id) && !state.sessions@[session_id].defunct
            ==> result is Ok,
{
}

/// A launch fails for the first thing that stands against it, and exactly if
/// something does.
pub proof fn launch_fails_only_with_cause(
    sessions: Map<u64, Session>,
    apps: Seq<Application>,
    display_params: Option<VirtualDisplayParameters>,
    application_id: Seq<char>,
    gamepads: Seq<Result<Gamepad, ValidationError>>,
    single_session: bool,
    err: crate::server::protocol::ServerErrorView,
)
    requires
        launch_failure(
            sessions,
            apps,
            display_params,
            application_id,
            gamepads,
            single_session,
            err,
        ),
    ensures
        !can_launch(sessions, apps, display_params, application_id, gamepads, single_session),
        err.0 == ErrorCode::ErrorSessionLaunchFailed ==> !has_application(apps, application_id)
            && crate::server::validation::valid_display_params(display_params) is Ok,
        err.0 == ErrorCode::ErrorServer ==> single_session && sessions.dom() != Set::<u64>::empty(),
{
    if crate::server::validation::valid_display_params(display_params) is Ok && !(single_session
        && sessions.dom() != Set::<u64>::empty()) && has_application(apps, application_id) {
        let i = choose|i: int| #[trigger]
            first_bad_gamepad(gamepads, i) && err == crate::server::validation::validation_failure(
                gamepads[i]->Err_0@,
                false,
            );
        assert(gamepads[i] is Err);
    }
}

/// A number below a hundred is written with two digits, which stand for it; a
/// greater one is written as it is.
pub proof fn numbers_have_two_digits(n: nat)
    ensures
        crate::text::parsed(two_digits(n), n) == Some(n),
        n < 100 ==> two_digits(n).len() == 2,
        n >= 100 ==> two_digits(n) == crate::text::decimal(n),
{
    crate::text::lemma_decimal_digits(n);
    let digits = two_digits(n);
    if n < 10 {
        reveal_strlit("0");
        assert("0"@ =~= seq!['0']);
        assert(digits =~= seq!['0', crate::text::digit_char(n)]);
        assert(digits.drop_last() =~= seq!['0']);
        assert(seq!['0'].drop_last() =~= Seq::<char>::empty());
        assert(crate::text::digits_value(Seq::<char>::empty()) == 0);
        assert(crate::text::digits_value(seq!['0']) == 0);
        assert(digits.last() as nat == 48 + n);
        assert(crate::text::digits_value(digits) == n);
    } else {
        assert(crate::text::is_digit(digits[0]));
        assert(crate::text::decimal(n / 10).len() >= 1);
        if n < 100 {
            assert(crate::text::decimal(n / 10).len() == 1);
        }
    }
    assert(crate::text::unsigned_digits(digits) == digits);
}

} // verus!
