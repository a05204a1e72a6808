//! The container that an application runs in.

use vstd::prelude::*;
use crate::compositor::xwayland::DisplaySocket;
use crate::text::decimal_text;

verus! {

/// A process ended with a status that is not zero.
#[derive(Debug, Clone, Copy, PartialEq, Eq, Structural)]
pub struct ExitFailure {
    pub status: u32,
}

/// What a process that ended came to. One that did not exit by itself has no
/// status, and did not fail.
pub fn check_exit(status: Option<u32>) -> (result: Result<(), ExitFailure>)
    ensures
        result == match status {
            Some(status) if status != 0 => Err::<(), ExitFailure>(ExitFailure { status }),
            _ => Ok(()),
        },
{
    match status {
        Some(status) => if status != 0 {
            Err(ExitFailure { status })
        } else {
            Ok(())
        },
        None => Ok(()),
    }
}

impl ExitFailure {
    pub fn message(&self) -> (text: String)
        ensures
            text@ == "child process exited with status: "@ + crate::text::decimal(
                self.status as nat,
            ),
    {
        let mut text = "child process exited with status: ".to_owned();
        text.append(decimal_text(self.status as u64).as_str());
        text
    }
}

/// `rand::thread_rng`, `rand::Rng::gen`: a random number. Nothing is stated of
/// it.
#[verifier::external_body]
fn random_number() -> (number: u64) {
    rand::Rng::gen(&mut rand::thread_rng())
}

/// The name of a Wayland socket with a number.
pub open spec fn numbered_socket(id: u64) -> Seq<char> {
    "magic-mirror-"@ + crate::text::decimal(id as nat)
}

/// The name of the Wayland socket of a session, from its number.
pub fn socket_name(id: u64) -> (name: String)
    ensures
        name@ == numbered_socket(id),
{
    let mut name = "magic-mirror-".to_owned();
    name.append(decimal_text(id).as_str());
    name
}

/// A name for the Wayland socket of a session, with a random number.
pub fn gen_socket_name() -> (name: String)
    ensures
        exists|id: u64| name@ == #[trigger] numbered_socket(id),
{
    let id: u64 = random_number();
    let name = socket_name(id);
    assert(name@ == numbered_socket(id));
    name
}

/// Sockets with different numbers have different names.
pub proof fn socket_names_differ(a: u64, b: u64)
    requires
        numbered_socket(a) == numbered_socket(b),
    ensures
        a == b,
{
    let prefix = "magic-mirror-"@;
    assert(numbered_socket(a).skip(prefix.len() as int) =~= crate::text::decimal(a as nat));
    assert(numbered_socket(b).skip(prefix.len() as int) =~= crate::text::decimal(b as nat));
    crate::text::decimal_is_injective(a as nat, b as nat);
}

/// The log of what an application writes.
pub fn child_log_name(pid: u32) -> (name: String)
    ensures
        name@ == "child-"@ + crate::text::decimal(pid as nat) + ".log"@,
{
    let mut name = "child-".to_owned();
    name.append(decimal_text(pid as u64).as_str());
    name.append(".log");
    name
}

pub open spec fn env_views(env: Seq<(String, String)>) -> Seq<(Seq<char>, Seq<char>)> {
    env.map_values(|e: (String, String)| (e.0@, e.1@))
}

/// What the environment of an application is set to, in the order given: what
/// is configured for it, then where it finds its displays. It shall not find
/// the audio server of the machine.
pub open spec fn session_env(
    env: Seq<(String, String)>,
    socket: Seq<char>,
    x11_display: Option<DisplaySocket>,
) -> Seq<(Seq<char>, Seq<char>)> {
    env_views(env) + seq![("WAYLAND_DISPLAY"@, socket)] + (match x11_display {
        Some(display) => seq![
            ("DISPLAY"@, ":"@ + crate::text::decimal(display.0 as nat)),
        ],
        None => Seq::empty(),
    }) + seq![("PIPEWIRE_REMOTE"@, "(null)"@)]
}

pub fn container_env(
    env: &Vec<(String, String)>,
    socket: &String,
    x11_display: Option<DisplaySocket>,
) -> (result: Vec<(String, String)>)
    ensures
        env_views(result@) == session_env(env@, socket@, x11_display),
{
    let mut result: Vec<(String, String)> = Vec::new();
    let mut i: usize = 0;
    while i < env.len()
        invariant
            i <= env@.len(),
            env_views(result@) == env_views(env@.take(i as int)),
        decreases env.len() - i,
    {
        let ghost before = result@;
        result.push((env[i].0.clone(), env[i].1.clone()));
        assert(env_views(result@) =~= env_views(before).push((env@[i as int].0@, env@[i as int].1@)));
        assert(env_views(env@.take(i + 1)) =~= env_views(env@.take(i as int)).push(
            (env@[i as int].0@, env@[i as int].1@),
        ));
        i += 1;
    }
    assert(env@.take(i as int) =~= env@);
    result.push(("WAYLAND_DISPLAY".to_owned(), socket.clone()));
    if let Some(display) = x11_display {
        result.push(("DISPLAY".to_owned(), display.display()));
    }
    result.push(("PIPEWIRE_REMOTE".to_owned(), "(null)".to_owned()));
    assert(env_views(result@) =~= session_env(env@, socket@, x11_display));
    result
}

/// A process fails if and only if it exits with a status other than zero, and
/// then with that status.
pub proof fn nonzero_status_is_failure(status: Option<u32>, result: Result<(), ExitFailure>)
    requires
        call_ensures(check_exit, (status,), result),
    ensures
        result is Err <==> status is Some && status->0 != 0,
        result matches Err(failure) ==> status == Some(failure.status),
{
}

/// An application has what is configured for it, finds its own displays, and does
/// not find the machine's audio server.
pub proof fn application_finds_its_displays(
    env: Seq<(String, String)>,
    socket: Seq<char>,
    x11_display: Option<DisplaySocket>,
    i: int,
)
    ensures
        ({
            let set = session_env(env, socket, x11_display);
            &&& 0 <= i < env.len() ==> set[i].0 == env[i].0@ && set[i].1 == env[i].1@
            &&& set[env.len() as int] == ("WAYLAND_DISPLAY"@, socket)
            &&& x11_display matches Some(display) ==> set[env.len() as int + 1] == (
                "DISPLAY"@,
                ":"@ + crate::text::decimal(display.0 as nat),
            )
            &&& set.last() == ("PIPEWIRE_REMOTE"@, "(null)"@)
            &&& set.len() == env.len() + (if x11_display is Some { 3int } else { 2 })
        }),
{
}

} // verus!
