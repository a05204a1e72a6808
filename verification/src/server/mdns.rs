//! How the server is announced on the local network.

use vstd::prelude::*;
use crate::net::{IpAddr, SocketAddr};
use crate::text::{chars_of, take_run, Stop};

verus! {

/// The kind of service that is announced.
pub const SERVICE_TYPE: &'static str = "_magic-mirror._udp.local.";

/// What a text is in upper case.
pub uninterp spec fn uppercase(text: Seq<char>) -> Seq<char>;

/// `str::to_uppercase`: the text in upper case, as Unicode has it.
#[verifier::external_body]
fn to_uppercase(text: &str) -> (upper: String)
    ensures
        upper@ == uppercase(text@),
{
    text.to_uppercase()
}

#[derive(Debug, Clone, Copy, PartialEq, Eq, Structural)]
pub enum HostnameError {
    Empty,
    /// The name is one of another domain.
    Qualified,
}

pub open spec fn is_local(name: Seq<char>) -> bool {
    name.len() >= 6 && name.skip(name.len() - 6) == ".local"@
}

/// The name of a machine on the local network.
pub open spec fn local_name(nodename: Seq<char>) -> Result<Seq<char>, HostnameError> {
    if nodename.len() == 0 {
        Err(HostnameError::Empty)
    } else if is_local(nodename) {
        Ok(nodename + "."@)
    } else if nodename.contains('.') {
        Err(HostnameError::Qualified)
    } else {
        Ok(nodename + ".local."@)
    }
}

fn ends_in_local(chars: &Vec<char>) -> (local: bool)
    ensures
        local == is_local(chars@),
{
    proof {
        reveal_strlit(".local");
    }
    let n: usize = chars.len();
    if n < 6 {
        return false;
    }
    let suffix = chars_of(".local");
    let mut i: usize = 0;
    while i < 6
        invariant
            i <= 6 <= n == chars@.len(),
            suffix@ == ".local"@,
            suffix@.len() == 6,
            forall|j: int| 0 <= j < i ==> chars@[n - 6 + j] == #[trigger] suffix@[j],
        decreases 6 - i,
    {
        if chars[n - 6 + i] != suffix[i] {
            assert(chars@.skip(n - 6)[i as int] != suffix@[i as int]);
            return false;
        }
        i += 1;
    }
    assert(chars@.skip(n - 6) =~= suffix@);
    true
}

/// The name that the machine has on the local network.
pub fn mdns_hostname(nodename: &str) -> (name: Result<String, HostnameError>)
    ensures
        match (name, local_name(nodename@)) {
            (Ok(name), Ok(expected)) => name@ == expected,
            (Err(err), Err(expected)) => err == expected,
            _ => false,
        },
{
    let chars = chars_of(nodename);
    if chars.len() == 0 {
        return Err(HostnameError::Empty);
    }
    let mut name = nodename.to_owned();
    if ends_in_local(&chars) {
        name.append(".");
        return Ok(name);
    }
    assert(chars@.skip(0) =~= chars@);
    let before_dot = take_run(&chars, 0, Stop::At('.'));
    proof {
        crate::text::lemma_run_len(chars@, Stop::At('.'));
    }
    if before_dot.len() < chars.len() {
        assert(chars@[before_dot@.len() as int] == '.');
        return Err(HostnameError::Qualified);
    }
    name.append(".local.");
    Ok(name)
}

/// A name up to its first dot.
pub open spec fn first_label(name: Seq<char>) -> Seq<char> {
    name.take(crate::text::run_len(name, Stop::At('.')) as int)
}

/// The name that a service is shown with: that of its machine, in upper case.
pub fn mdns_instance_name(hostname: &str) -> (name: Result<String, HostnameError>)
    ensures
        match name {
            Ok(name) => hostname@.len() > 0 && name@ == uppercase(first_label(hostname@)),
            Err(err) => hostname@.len() == 0 && err == HostnameError::Empty,
        },
{
    let chars = chars_of(hostname);
    if chars.len() == 0 {
        return Err(HostnameError::Empty);
    }
    assert(chars@.skip(0) =~= chars@);
    let label = take_run(&chars, 0, Stop::At('.'));
    proof {
        crate::text::lemma_run_len(chars@, Stop::At('.'));
    }
    let text = hostname.substring_char(0, label.len());
    assert(text@ =~= first_label(hostname@));
    Ok(to_uppercase(text))
}

/// What is announced.
pub struct ServicePlan {
    pub hostname: String,
    pub instance_name: String,
    /// The address; without one, those of the machine are announced as they
    /// come and go.
    pub ip: Option<IpAddr>,
    pub addr_auto: bool,
    pub port: u16,
}

/// Plans the announcement of a server. Names that are not given are made from
/// that of the machine.
pub fn plan_service(
    addr: SocketAddr,
    hostname: Option<&str>,
    instance_name: Option<&str>,
    nodename: &str,
) -> (plan: Result<ServicePlan, HostnameError>)
    ensures
        ({
            let host: Result<Seq<char>, HostnameError> = match hostname {
                Some(name) => Ok(name@),
                None => local_name(nodename@),
            };
            match plan {
                Ok(plan) => {
                    &&& host matches Ok(expected) && plan.hostname@ == expected
                    &&& match instance_name {
                        Some(name) => plan.instance_name@ == name@,
                        None => plan.hostname@.len() > 0 && plan.instance_name@ == uppercase(
                            first_label(plan.hostname@),
                        ),
                    }
                    &&& plan.addr_auto == addr.ip.spec_is_unspecified()
                    &&& plan.ip == if plan.addr_auto {
                        None
                    } else {
                        Some(addr.ip)
                    }
                    &&& plan.port == addr.port
                },
                Err(err) => match host {
                    Err(expected) => err == expected,
                    Ok(name) => instance_name is None && name.len() == 0 && err
                        == HostnameError::Empty,
                },
            }
        }),
{
    let hostname = match hostname {
        Some(name) => name.to_owned(),
        None => match mdns_hostname(nodename) {
            Ok(name) => name,
            Err(err) => {
                return Err(err);
            },
        },
    };
    let instance_name = match instance_name {
        Some(name) => name.to_owned(),
        None => match mdns_instance_name(hostname.as_str()) {
            Ok(name) => name,
            Err(err) => {
                return Err(err);
            },
        },
    };
    let addr_auto = addr.ip.is_unspecified();
    let ip: Option<IpAddr> = if addr_auto {
        None
    } else {
        Some(addr.ip)
    };
    Ok(ServicePlan { hostname, instance_name, ip, addr_auto, port: addr.port })
}

/// How the service is taken back: it is withdrawn, then the daemon is stopped.
#[derive(Debug, Clone, Copy, PartialEq, Eq, Structural)]
pub enum Teardown {
    Unregister,
    Shutdown,
    Finished,
}

/// What the daemon answered.
#[derive(Debug, Clone, Copy, PartialEq, Eq, Structural)]
pub enum DaemonReply {
    Accepted,
    /// It is busy, and has to be asked again.
    Again,
    Failed,
}

impl Teardown {
    /// Goes on after a reply; a failure ends it.
    pub fn next(self, reply: DaemonReply) -> (next: Teardown)
        ensures
            next == match (self, reply) {
                (Teardown::Finished, _) => Teardown::Finished,
                (_, DaemonReply::Again) => self,
                (_, DaemonReply::Failed) => Teardown::Finished,
                (Teardown::Unregister, DaemonReply::Accepted) => Teardown::Shutdown,
                (Teardown::Shutdown, DaemonReply::Accepted) => Teardown::Finished,
            },
    {
        match (self, reply) {
            (Teardown::Finished, _) => Teardown::Finished,
            (_, DaemonReply::Again) => self,
            (_, DaemonReply::Failed) => Teardown::Finished,
            (Teardown::Unregister, DaemonReply::Accepted) => Teardown::Shutdown,
            (Teardown::Shutdown, DaemonReply::Accepted) => Teardown::Finished,
        }
    }
}

/// Every name that a machine is announced under is one of the local network.
pub proof fn announced_name_is_local(nodename: Seq<char>)
    requires
        local_name(nodename) is Ok,
    ensures
        ({
            let name = local_name(nodename)->Ok_0;
            &&& name.len() >= 7
            &&& name.skip(name.len() - 7) == ".local."@
        }),
{
    reveal_strlit(".local");
    reveal_strlit(".local.");
    reveal_strlit(".");
    let name = local_name(nodename)->Ok_0;
    if is_local(nodename) {
        let suffix = nodename.skip(nodename.len() - 6);
        assert forall|i: int| 0 <= i < 7 implies name.skip(name.len() - 7)[i] == ".local."@[i] by {
            if i < 6 {
                assert(suffix[i] == nodename[nodename.len() - 6 + i]);
                assert(".local"@[i] == ".local."@[i]);
            }
        }
        assert(name.skip(name.len() - 7) =~= ".local."@);
    } else {
        assert(name.skip(name.len() - 7) =~= ".local."@);
    }
}

/// The first label of a name is what stands before its first dot.
pub proof fn first_label_has_no_dot(name: Seq<char>)
    ensures
        !first_label(name).contains('.'),
        first_label(name).len() <= name.len(),
        first_label(name) == name.take(first_label(name).len() as int),
        first_label(name).len() < name.len() ==> name[first_label(name).len() as int] == '.',
{
    crate::text::lemma_run_len(name, Stop::At('.'));
    assert(first_label(name) =~= name.take(first_label(name).len() as int));
}

/// A name of the machine is used as it is, with the local domain where it has
/// none; a name of another domain is refused.
pub proof fn local_name_begins_with_machine(nodename: Seq<char>)
    ensures
        local_name(nodename) matches Ok(name) ==> nodename.len() > 0 && name.take(
            nodename.len() as int,
        ) == nodename,
        nodename.len() > 0 && !nodename.contains('.') ==> local_name(nodename) is Ok,
        is_local(nodename) ==> local_name(nodename) is Ok,
        nodename.contains('.') && !is_local(nodename) ==> local_name(nodename) == Err::<
            Seq<char>,
            HostnameError,
        >(HostnameError::Qualified),
        nodename.len() == 0 ==> local_name(nodename) == Err::<Seq<char>, HostnameError>(
            HostnameError::Empty,
        ),
{
    if let Ok(name) = local_name(nodename) {
        assert(name.take(nodename.len() as int) =~= nodename);
    }
}

/// The service is withdrawn before the daemon is stopped; a daemon that is busy
/// is asked again, and one that fails is left alone.
pub proof fn service_is_withdrawn_first(state: Teardown, reply: DaemonReply, next: Teardown)
    requires
        call_ensures(Teardown::next, (state, reply), next),
    ensures
        state is Unregister && reply is Accepted ==> next is Shutdown,
        state is Shutdown && reply is Accepted ==> next is Finished,
        !(state is Finished) && reply is Again ==> next == state,
        reply is Failed ==> next is Finished,
        state is Finished ==> next is Finished,
        !(next is Unregister) || state is Unregister,
{
}

/// A server is announced under the name and on the port that it has, with its
/// own address, or with all of the machine's if it listens on all.
pub proof fn service_is_announced_as_it_is(
    addr: SocketAddr,
    hostname: Option<&str>,
    instance_name: Option<&str>,
    nodename: &str,
    plan: Result<ServicePlan, HostnameError>,
)
    requires
        call_ensures(plan_service, (addr, hostname, instance_name, nodename), plan),
    ensures
        plan matches Ok(service) ==> {
            &&& service.port == addr.port
            &&& service.ip is None <==> addr.ip.spec_is_unspecified()
            &&& service.ip matches Some(ip) ==> ip == addr.ip
            &&& service.addr_auto <==> service.ip is None
            &&& hostname matches Some(name) ==> service.hostname@ == name@
            &&& instance_name matches Some(name) ==> service.instance_name@ == name@
            &&& hostname is None ==> local_name(nodename@) == Ok::<Seq<char>, HostnameError>(
                service.hostname@,
            )
        },
{
}

} // verus!
