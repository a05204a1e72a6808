//! What has to hold of a machine before the server is started on it.

use vstd::prelude::*;
use crate::text::{chars_of, decimal_text, parse_unsigned, spells, take_first_word, take_run, Stop};

verus! {

/// The kernel that a release names: the first two numbers of its first word.
pub open spec fn kernel_version(release: Seq<char>) -> Option<(u32, u32)> {
    let word = crate::text::first_word(release);
    let dot = crate::text::run_len(word, Stop::At('.'));
    if dot >= word.len() {
        None
    } else {
        let rest = word.skip(dot as int + 1);
        let major = crate::text::parsed(word.take(dot as int), u32::MAX as nat);
        let minor = crate::text::parsed(
            rest.take(crate::text::run_len(rest, Stop::At('.')) as int),
            u32::MAX as nat,
        );
        match (major, minor) {
            (Some(major), Some(minor)) => Some((major as u32, minor as u32)),
            _ => None,
        }
    }
}

/// Reads the version of the kernel off its release.
pub fn linux_version(release: &str) -> (version: Option<(u32, u32)>)
    ensures
        version == kernel_version(release@),
{
    let chars = chars_of(release);
    let word = take_first_word(&chars);
    assert(word@.skip(0) =~= word@);
    let major = take_run(&word, 0, Stop::At('.'));
    if major.len() >= word.len() {
        return None;
    }
    let minor = take_run(&word, major.len() + 1, Stop::At('.'));
    match (
        parse_unsigned(&major, u32::MAX as u64),
        parse_unsigned(&minor, u32::MAX as u64),
    ) {
        (Some(major), Some(minor)) => Some((major as u32, minor as u32)),
        _ => None,
    }
}

/// A driver of a GPU.
pub enum DriverVersion {
    MesaRadv { major: u32, minor: u32, patch: u32 },
    NvidiaProprietary { major: u32, minor: u32 },
    Other(String),
}

/// Why the server is not started.
#[derive(Debug, Clone, Copy, PartialEq, Eq, Structural)]
pub enum PreflightError {
    KernelTooOld { major: u32, minor: u32 },
    MesaTooOld { major: u32, minor: u32, patch: u32 },
    NvidiaTooOld { major: u32, minor: u32 },
}

/// What the administrator is warned of.
#[derive(Debug, Clone, Copy, PartialEq, Eq, Structural)]
pub enum Warning {
    UnknownKernel,
    UnsupportedDriver,
    UserNamespacesRestricted,
}

pub open spec fn old_mesa(major: u32, minor: u32) -> bool {
    major < 24 || (major == 24 && minor < 3)
}

/// What stands against starting the server, if anything does.
pub open spec fn flaw(kernel: Option<(u32, u32)>, driver: DriverVersion) -> Option<PreflightError> {
    match (kernel, driver) {
        (Some((major, minor)), _) if major < 6 => Some(
            PreflightError::KernelTooOld { major, minor },
        ),
        (_, driver) => match driver {
            DriverVersion::MesaRadv { major, minor, patch } if old_mesa(major, minor) => Some(
                PreflightError::MesaTooOld { major, minor, patch },
            ),
            DriverVersion::NvidiaProprietary { major, minor } if major < 565 => Some(
                PreflightError::NvidiaTooOld { major, minor },
            ),
            _ => None,
        },
    }
}

pub open spec fn warnings(
    kernel: Option<(u32, u32)>,
    driver: DriverVersion,
    restricted: bool,
) -> Seq<Warning> {
    (if kernel is None {
        seq![Warning::UnknownKernel]
    } else {
        Seq::empty()
    }) + (if driver is Other {
        seq![Warning::UnsupportedDriver]
    } else {
        Seq::empty()
    }) + (if restricted {
        seq![Warning::UserNamespacesRestricted]
    } else {
        Seq::empty()
    })
}

/// Checks the kernel and the driver. `restricted` says that containers without
/// privileges are restricted. Returns what to warn of.
pub fn preflight_checks(
    kernel: Option<(u32, u32)>,
    driver: &DriverVersion,
    restricted: bool,
) -> (result: Result<Vec<Warning>, PreflightError>)
    ensures
        match result {
            Ok(list) => flaw(kernel, *driver) is None && list@ == warnings(
                kernel,
                *driver,
                restricted,
            ),
            Err(err) => flaw(kernel, *driver) == Some(err),
        },
{
    let mut list: Vec<Warning> = Vec::new();
    match kernel {
        Some((major, minor)) => {
            if major < 6 {
                return Err(PreflightError::KernelTooOld { major, minor });
            }
        },
        None => {
            list.push(Warning::UnknownKernel);
        },
    }
    match driver {
        DriverVersion::MesaRadv { major, minor, patch } => {
            if *major < 24 || (*major == 24 && *minor < 3) {
                return Err(
                    PreflightError::MesaTooOld { major: *major, minor: *minor, patch: *patch },
                );
            }
        },
        DriverVersion::NvidiaProprietary { major, minor } => {
            if *major < 565 {
                return Err(PreflightError::NvidiaTooOld { major: *major, minor: *minor });
            }
        },
        DriverVersion::Other(_) => {
            list.push(Warning::UnsupportedDriver);
        },
    }
    if restricted {
        list.push(Warning::UserNamespacesRestricted);
    }
    assert(list@ =~= warnings(kernel, *driver, restricted));
    Ok(list)
}

impl PreflightError {
    pub open spec fn text(self) -> Seq<char> {
        match self {
            PreflightError::KernelTooOld { major, minor } => "kernel version "@
                + crate::text::decimal(major as nat) + "."@ + crate::text::decimal(minor as nat)
                + " is too low; 6.x required"@,
            PreflightError::MesaTooOld { major, minor, patch } => "mesa >= 24.3 required, have "@
                + crate::text::decimal(major as nat) + "."@ + crate::text::decimal(minor as nat)
                + "."@ + crate::text::decimal(patch as nat),
            PreflightError::NvidiaTooOld { major, minor } =>
                "driver version >= 565.x required, have "@ + crate::text::decimal(major as nat)
                + "."@ + crate::text::decimal(minor as nat),
        }
    }

    pub fn message(&self) -> (message: String)
        ensures
            message@ == self.text(),
    {
        match self {
            PreflightError::KernelTooOld { major, minor } => {
                let mut text = "kernel version ".to_owned();
                text.append(decimal_text(*major as u64).as_str());
                text.append(".");
                text.append(decimal_text(*minor as u64).as_str());
                text.append(" is too low; 6.x required");
                text
            },
            PreflightError::MesaTooOld { major, minor, patch } => {
                let mut text = "mesa >= 24.3 required, have ".to_owned();
                text.append(decimal_text(*major as u64).as_str());
                text.append(".");
                text.append(decimal_text(*minor as u64).as_str());
                text.append(".");
                text.append(decimal_text(*patch as u64).as_str());
                text
            },
            PreflightError::NvidiaTooOld { major, minor } => {
                let mut text = "driver version >= 565.x required, have ".to_owned();
                text.append(decimal_text(*major as u64).as_str());
                text.append(".");
                text.append(decimal_text(*minor as u64).as_str());
                text
            },
        }
    }
}

/// A setting of the kernel is on: it holds a one, and white space.
pub open spec fn setting_is_on(content: Seq<char>) -> bool {
    let rest = crate::text::without_leading_space(content);
    &&& crate::text::first_word(content) == "1"@
    &&& crate::text::without_leading_space(rest.skip(1)).len() == 0
}

/// Whether a setting is on; one that cannot be read is off.
pub fn sysctl(content: Option<&str>) -> (on: bool)
    ensures
        on == (content is Some && setting_is_on(content->0@)),
{
    let chars = match content {
        Some(content) => chars_of(content),
        None => {
            return false;
        },
    };
    let word = take_first_word(&chars);
    if !spells(&word, "1") {
        return false;
    }
    proof {
        reveal_strlit("1");
        crate::text::lemma_run_len(chars@, Stop::AtNoSpace);
        crate::text::lemma_run_len(crate::text::without_leading_space(chars@), Stop::AtSpace);
        assert(chars@.skip(0) =~= chars@);
    }
    let spaces = take_run(&chars, 0, Stop::AtNoSpace);
    let ghost rest = crate::text::without_leading_space(chars@);
    assert(word@.len() == 1);
    assert(rest.len() == chars@.len() - spaces@.len());
    assert(rest.len() >= 1);
    let total: usize = chars.len();
    let after: usize = spaces.len() + 1;
    assert(rest.skip(1) =~= chars@.skip(after as int));
    let more = take_run(&chars, after, Stop::AtNoSpace);
    after + more.len() == total
}

/// The server starts on a kernel from 6 on, with Mesa from 24.3 on or a driver of
/// NVIDIA from 565 on. What cannot be told is not held against a machine.
pub proof fn old_machines_are_refused(kernel: Option<(u32, u32)>, driver: DriverVersion)
    ensures
        ({
            let found = flaw(kernel, driver);
            let old_kernel = kernel matches Some((major, _)) && major < 6;
            let old_driver = match driver {
                DriverVersion::MesaRadv { major, minor, .. } => major * 1_0000_0000_0000 + minor
                    < 24 * 1_0000_0000_0000 + 3,
                DriverVersion::NvidiaProprietary { major, .. } => major < 565,
                DriverVersion::Other(_) => false,
            };
            &&& found is Some <==> old_kernel || old_driver
            &&& found matches Some(PreflightError::KernelTooOld { major, minor }) ==> kernel
                == Some((major, minor)) && old_kernel
            &&& old_kernel ==> (found matches Some(PreflightError::KernelTooOld { .. }))
            &&& found matches Some(PreflightError::MesaTooOld { major, minor, patch }) ==> driver
                == (DriverVersion::MesaRadv { major, minor, patch })
            &&& found matches Some(PreflightError::NvidiaTooOld { major, minor }) ==> driver == (
            DriverVersion::NvidiaProprietary { major, minor })
        }),
{
}

/// The administrator is warned of each thing that may go wrong, and of no other.
pub proof fn warnings_have_causes(
    kernel: Option<(u32, u32)>,
    driver: DriverVersion,
    restricted: bool,
)
    ensures
        warnings(kernel, driver, restricted).contains(Warning::UnknownKernel) <==> kernel is None,
        warnings(kernel, driver, restricted).contains(Warning::UnsupportedDriver) <==> driver
            is Other,
        warnings(kernel, driver, restricted).contains(Warning::UserNamespacesRestricted)
            <==> restricted,
{
    let list = warnings(kernel, driver, restricted);
    let second: int = if kernel is None {
        1
    } else {
        0
    };
    let third: int = if driver is Other {
        second + 1
    } else {
        second
    };
    if kernel is None {
        assert(list[0] == Warning::UnknownKernel);
    }
    if driver is Other {
        assert(list[second] == Warning::UnsupportedDriver);
    }
    if restricted {
        assert(list[third] == Warning::UserNamespacesRestricted);
    }
}

/// A release that begins with two numbers and a dot between them has them as its
/// version, whatever follows after another dot or a space.
pub proof fn release_begins_with_version(major: u32, minor: u32, tail: Seq<char>)
    requires
        tail.len() == 0 || tail[0] == '.' || crate::text::is_space(tail[0]),
    ensures
        kernel_version(
            crate::text::decimal(major as nat) + seq!['.'] + crate::text::decimal(minor as nat)
                + tail,
        ) == Some((major, minor)),
{
    let first = crate::text::decimal(major as nat);
    let second = crate::text::decimal(minor as nat);
    let numbers = first + seq!['.'] + second;
    let release = numbers + tail;
    crate::text::lemma_decimal_digits(major as nat);
    crate::text::lemma_decimal_digits(minor as nat);
    crate::text::written_number_is_read(major as nat, u32::MAX as nat);
    crate::text::written_number_is_read(minor as nat, u32::MAX as nat);
    assert forall|i: int| 0 <= i < numbers.len() implies !crate::text::is_space(
        #[trigger] release[i],
    ) by {
        if i < first.len() {
            assert(crate::text::is_digit(first[i]));
        } else if i > first.len() {
            assert(crate::text::is_digit(second[i - first.len() - 1]));
        }
    }
    assert(!crate::text::is_space(release[0]));
    crate::text::lemma_run_ends(release, Stop::AtNoSpace, 0);
    assert(crate::text::without_leading_space(release) =~= release);
    crate::text::lemma_run_len(release, Stop::AtSpace);
    let end = crate::text::run_len(release, Stop::AtSpace) as int;
    assert(end >= numbers.len()) by {
        if end < numbers.len() {
            assert(!crate::text::is_space(release[end]));
        }
    }
    let word = release.take(end);
    assert forall|i: int| 0 <= i < first.len() implies !crate::text::stops(
        Stop::At('.'),
        #[trigger] word[i],
    ) by {
        assert(word[i] == first[i]);
        assert(crate::text::is_digit(first[i]));
    }
    crate::text::lemma_run_ends(word, Stop::At('.'), first.len() as int);
    assert(word.take(first.len() as int) =~= first);
    let rest = word.skip(first.len() as int + 1);
    assert forall|i: int| 0 <= i < second.len() implies !crate::text::stops(
        Stop::At('.'),
        #[trigger] rest[i],
    ) by {
        assert(rest[i] == second[i]);
        assert(crate::text::is_digit(second[i]));
    }
    if second.len() < rest.len() {
        assert(rest[second.len() as int] == tail[0]);
        assert(release[numbers.len() as int] == tail[0]);
    }
    crate::text::lemma_run_ends(rest, Stop::At('.'), second.len() as int);
    assert(rest.take(second.len() as int) =~= second);
}

/// A setting is on if it is a one, on a line of its own.
pub proof fn one_is_on(end: char)
    requires
        crate::text::is_space(end),
    ensures
        setting_is_on(seq!['1']),
        setting_is_on(seq!['1', end]),
        !setting_is_on(seq!['0', end]),
        !setting_is_on(Seq::empty()),
{
    reveal_strlit("1");
    assert("1"@ =~= seq!['1']);
    let bare = seq!['1'];
    let line = seq!['1', end];
    let off = seq!['0', end];
    let empty = Seq::<char>::empty();
    crate::text::lemma_run_ends(bare, Stop::AtNoSpace, 0);
    assert(crate::text::without_leading_space(bare) =~= bare);
    crate::text::lemma_run_ends(bare, Stop::AtSpace, 1);
    assert(crate::text::first_word(bare) =~= bare);
    assert(bare.skip(1) =~= empty);
    crate::text::lemma_run_ends(empty, Stop::AtNoSpace, 0);
    crate::text::lemma_run_ends(line, Stop::AtNoSpace, 0);
    assert(crate::text::without_leading_space(line) =~= line);
    crate::text::lemma_run_ends(line, Stop::AtSpace, 1);
    assert(crate::text::first_word(line) =~= bare);
    assert(line.skip(1) =~= seq![end]);
    crate::text::lemma_run_ends(seq![end], Stop::AtNoSpace, 1);
    crate::text::lemma_run_ends(off, Stop::AtNoSpace, 0);
    assert(crate::text::without_leading_space(off) =~= off);
    crate::text::lemma_run_ends(off, Stop::AtSpace, 1);
    assert(crate::text::first_word(off)[0] == '0');
    assert(crate::text::without_leading_space(empty) =~= empty);
    assert(crate::text::first_word(empty).len() == 0);
}

} // verus!
