//! The X server that runs beside a session: where it listens, how it is
//! started, and when it is ready.

use vstd::prelude::*;
use crate::text::decimal_text;

verus! {

/// The directory with the sockets of X servers.
pub const CANONICAL_DISPLAY_PATH: &'static str = "/tmp/.X11-unix";

/// The number of an X display.
#[derive(Debug, Clone, Copy, PartialEq, Eq, Structural)]
pub struct DisplaySocket(pub u32);

/// What became of an attempt to claim a display.
#[derive(Debug, Clone, Copy, PartialEq, Eq, Structural)]
pub enum BindOutcome {
    Bound,
    InUse,
    Failed,
}

/// How the search for a display goes on.
#[derive(Debug, Clone, Copy, PartialEq, Eq, Structural)]
pub enum Pick {
    Found(DisplaySocket),
    TryNext(DisplaySocket),
    Failed,
}

impl DisplaySocket {
    /// The display that the search starts with.
    pub fn first() -> (display: DisplaySocket)
        ensures
            display == DisplaySocket(1),
    {
        DisplaySocket(1)
    }

    /// Goes on with the next display where this one is in use.
    pub fn pick_unused(self, outcome: BindOutcome) -> (pick: Pick)
        requires
            self.0 < u32::MAX,
        ensures
            pick == match outcome {
                BindOutcome::Bound => Pick::Found(self),
                BindOutcome::InUse => Pick::TryNext(DisplaySocket((self.0 + 1) as u32)),
                BindOutcome::Failed => Pick::Failed,
            },
    {
        match outcome {
            BindOutcome::Bound => Pick::Found(self),
            BindOutcome::InUse => Pick::TryNext(DisplaySocket(self.0 + 1)),
            BindOutcome::Failed => Pick::Failed,
        }
    }

    /// The name of the display.
    pub fn display(&self) -> (name: String)
        ensures
            name@ == ":"@ + crate::text::decimal(self.0 as nat),
    {
        let mut name = ":".to_owned();
        name.append(decimal_text(self.0 as u64).as_str());
        name
    }

    /// Where applications find the socket.
    pub open spec fn path(self) -> Seq<char> {
        CANONICAL_DISPLAY_PATH@ + "/X"@ + crate::text::decimal(self.0 as nat)
    }

    pub fn inner_path(&self) -> (path: String)
        ensures
            path@ == self.path(),
    {
        let mut path = CANONICAL_DISPLAY_PATH.to_owned();
        path.append("/X");
        path.append(decimal_text(self.0 as u64).as_str());
        path
    }

    /// Where the socket is, below the directory of the session.
    pub fn extern_path(&self) -> (path: String)
        ensures
            path@ == self.path().skip(1),
    {
        let mut path = "tmp/.X11-unix".to_owned();
        path.append("/X");
        path.append(decimal_text(self.0 as u64).as_str());
        proof {
            reveal_strlit("tmp/.X11-unix");
            reveal_strlit("/tmp/.X11-unix");
        }
        assert(CANONICAL_DISPLAY_PATH@.skip(1) =~= "tmp/.X11-unix"@);
        assert(path@ =~= self.path().skip(1));
        path
    }
}

/// Different displays have different sockets.
pub proof fn display_paths_differ(a: DisplaySocket, b: DisplaySocket)
    requires
        a != b,
    ensures
        a.path() != b.path(),
{
    let prefix = CANONICAL_DISPLAY_PATH@ + "/X"@;
    let da = crate::text::decimal(a.0 as nat);
    let db = crate::text::decimal(b.0 as nat);
    if a.path() == b.path() {
        assert(a.path().skip(prefix.len() as int) =~= da);
        assert(b.path().skip(prefix.len() as int) =~= db);
        crate::text::decimal_is_injective(a.0 as nat, b.0 as nat);
    }
}

/// The arguments of the X server, with the descriptors that it inherits.
pub open spec fn server_args(exe: Seq<char>, wm: u32, displayfd: u32, listenfd: u32) -> Seq<
    Seq<char>,
> {
    seq![
        exe,
        "-verbose"@,
        "-rootless"@,
        "-terminate"@,
        "-force-xrandr-emulation"@,
        "-wm"@,
        crate::text::decimal(wm as nat),
        "-displayfd"@,
        crate::text::decimal(displayfd as nat),
        "-listenfd"@,
        crate::text::decimal(listenfd as nat),
    ]
}

pub open spec fn arg_views(args: Seq<String>) -> Seq<Seq<char>> {
    args.map_values(|s: String| s@)
}

pub fn xwayland_args(exe: String, wm: u32, displayfd: u32, listenfd: u32) -> (args: Vec<String>)
    ensures
        arg_views(args@) == server_args(exe@, wm, displayfd, listenfd),
{
    let mut args: Vec<String> = Vec::new();
    args.push(exe);
    args.push("-verbose".to_owned());
    args.push("-rootless".to_owned());
    args.push("-terminate".to_owned());
    args.push("-force-xrandr-emulation".to_owned());
    args.push("-wm".to_owned());
    args.push(decimal_text(wm as u64));
    args.push("-displayfd".to_owned());
    args.push(decimal_text(displayfd as u64));
    args.push("-listenfd".to_owned());
    args.push(decimal_text(listenfd as u64));
    assert(arg_views(args@) =~= server_args(exe@, wm, displayfd, listenfd));
    args
}

/// The state of the X server.
pub struct XWayland {
    pub display_socket: DisplaySocket,
    /// The connection of the window manager was not handed out yet.
    pub has_xwm_socket: bool,
}

#[derive(Debug, Clone, Copy, PartialEq, Eq, Structural)]
pub enum ReadyError {
    AlreadyReady,
    ReadFailed,
}

/// What came out of the pipe on which the server says that it is ready.
pub enum PipeRead {
    Data(Vec<u8>),
    WouldBlock,
    Failed,
}

impl XWayland {
    pub fn new(display_socket: DisplaySocket) -> (xwayland: XWayland)
        ensures
            xwayland == (XWayland { display_socket, has_xwm_socket: true }),
    {
        XWayland { display_socket, has_xwm_socket: true }
    }

    /// The server is ready once it has written a line. The connection is
    /// handed out then, and only once.
    pub fn poll_ready(&mut self, read: PipeRead) -> (ready: Result<bool, ReadyError>)
        ensures
            is_polled(*old(self), read, *final(self), ready),
    {
        if !self.has_xwm_socket {
            return Err(ReadyError::AlreadyReady);
        }
        match read {
            PipeRead::Data(data) => {
                if has_newline(&data) {
                    self.has_xwm_socket = false;
                    Ok(true)
                } else {
                    Ok(false)
                }
            },
            PipeRead::WouldBlock => Ok(false),
            PipeRead::Failed => Err(ReadyError::ReadFailed),
        }
    }
}

fn has_newline(data: &Vec<u8>) -> (found: bool)
    ensures
        found == data@.contains(10u8),
{
    let mut i: usize = 0;
    while i < data.len()
        invariant
            i <= data@.len(),
            forall|j: int| 0 <= j < i ==> data@[j] != 10u8,
        decreases data.len() - i,
    {
        if data[i] == 10 {
            assert(data@[i as int] == 10u8);
            return true;
        }
        i += 1;
    }
    false
}

/// The search for a display goes on while displays are in use, and ends with the
/// first that is not.
pub proof fn displays_are_tried_in_order(display: DisplaySocket, outcome: BindOutcome, pick: Pick)
    requires
        display.0 < u32::MAX,
        call_ensures(DisplaySocket::pick_unused, (display, outcome), pick),
    ensures
        pick matches Pick::Found(found) ==> found == display && outcome is Bound,
        pick matches Pick::TryNext(next) ==> next.0 == display.0 + 1 && outcome is InUse,
        pick is Failed <==> outcome is Failed,
{
}

/// The X server gets each of its descriptors under the option for it.
pub proof fn server_gets_its_descriptors(exe: Seq<char>, wm: u32, displayfd: u32, listenfd: u32)
    ensures
        ({
            let args = server_args(exe, wm, displayfd, listenfd);
            &&& args[0] == exe
            &&& args[5] == "-wm"@ && args[6] == crate::text::decimal(wm as nat)
            &&& args[7] == "-displayfd"@ && args[8] == crate::text::decimal(displayfd as nat)
            &&& args[9] == "-listenfd"@ && args[10] == crate::text::decimal(listenfd as nat)
            &&& args.len() == 11
        }),
{
}

/// What a look at the pipe of the server comes to.
pub open spec fn is_polled(
    before: XWayland,
    read: PipeRead,
    after: XWayland,
    ready: Result<bool, ReadyError>,
) -> bool {
    &&& after.display_socket == before.display_socket
    &&& !before.has_xwm_socket ==> ready == Err::<bool, ReadyError>(ReadyError::AlreadyReady)
        && !after.has_xwm_socket
    &&& before.has_xwm_socket ==> match read {
        PipeRead::Data(data) => ready == Ok::<bool, ReadyError>(data@.contains(10u8))
            && after.has_xwm_socket == !data@.contains(10u8),
        PipeRead::WouldBlock => ready == Ok::<bool, ReadyError>(false) && after.has_xwm_socket,
        PipeRead::Failed => ready == Err::<bool, ReadyError>(ReadyError::ReadFailed)
            && after.has_xwm_socket,
    }
}

/// The connection is handed out at most once: just when the server is ready it is
/// gone, and then every look is an error.
pub proof fn connection_is_handed_out_once(
    before: XWayland,
    read: PipeRead,
    after: XWayland,
    ready: Result<bool, ReadyError>,
    next_read: PipeRead,
    later: XWayland,
    again: Result<bool, ReadyError>,
)
    requires
        is_polled(before, read, after, ready),
        is_polled(after, next_read, later, again),
    ensures
        ready == Ok::<bool, ReadyError>(true) <==> before.has_xwm_socket && !after.has_xwm_socket,
        ready == Ok::<bool, ReadyError>(true) ==> again is Err && (read matches PipeRead::Data(data)
            && data@.contains(10u8)),
        !before.has_xwm_socket ==> ready is Err && again is Err,
        later.display_socket == before.display_socket,
{
}

} // verus!
