//! Installing the daemon as a systemd service: the order of the steps, the
//! checks that stop it, and the unit file it writes.
use vstd::prelude::*;

use crate::text::{chars_of, is_space, is_unicode_space, owned, push_text};

verus! {

/// Where the binary is installed.
pub fn install_bin_path() -> (r: &'static str)
    ensures
        r@ == "/usr/local/bin/feathertail"@,
{
    "/usr/local/bin/feathertail"
}

/// Where the configuration is installed.
pub fn install_config_path() -> (r: &'static str)
    ensures
        r@ == "/etc/feathertail/feathertail.toml"@,
{
    "/etc/feathertail/feathertail.toml"
}

/// The directory of the installed configuration.
pub fn install_config_dir() -> (r: &'static str)
    ensures
        r@ == "/etc/feathertail"@,
{
    "/etc/feathertail"
}

/// Where the unit file is written.
pub fn service_path() -> (r: &'static str)
    ensures
        r@ == "/etc/systemd/system/feathertail.service"@,
{
    "/etc/systemd/system/feathertail.service"
}

/// The steps of an installation, in order.
#[derive(Debug, Clone, Copy, PartialEq, Eq, Structural)]
pub enum InstallStep {
    CheckRoot,
    CheckProxmoxHost,
    InstallBinary,
    InstallConfig,
    WriteUnit,
    ReloadUnits,
    EnableService,
}

/// Why an installation stopped.
#[derive(Debug)]
pub enum InstallError {
    NotRoot,
    NotProxmoxHost,
    StepFailed(String),
}

/// What to do next.
#[derive(Debug)]
pub enum InstallProgress {
    Run(InstallStep),
    Finished(Result<(), InstallError>),
}

/// The step after `s` when it succeeded; `None` after the last.
pub open spec fn step_after(s: InstallStep) -> Option<InstallStep> {
    match s {
        InstallStep::CheckRoot => Some(InstallStep::CheckProxmoxHost),
        InstallStep::CheckProxmoxHost => Some(InstallStep::InstallBinary),
        InstallStep::InstallBinary => Some(InstallStep::InstallConfig),
        InstallStep::InstallConfig => Some(InstallStep::WriteUnit),
        InstallStep::WriteUnit => Some(InstallStep::ReloadUnits),
        InstallStep::ReloadUnits => Some(InstallStep::EnableService),
        InstallStep::EnableService => None,
    }
}

/// The installation as a sequence of steps. Given the step last run and
/// its outcome (`Ok(answer)`, the answer mattering only for the two
/// checks), says what to do next: start with the root check, stop when
/// not root, stop when the host is not a Proxmox host, stop on the first
/// failed step, and finish once the service is enabled.
pub fn install_service(last: Option<(InstallStep, Result<bool, String>)>) -> (r: InstallProgress)
    ensures
        match last {
            None => r == InstallProgress::Run(InstallStep::CheckRoot),
            Some((step, Err(m))) => r == InstallProgress::Finished(
                Err(InstallError::StepFailed(m)),
            ),
            Some((step, Ok(answer))) => if step == InstallStep::CheckRoot && !answer {
                r == InstallProgress::Finished(Err(InstallError::NotRoot))
            } else if step == InstallStep::CheckProxmoxHost && !answer {
                r == InstallProgress::Finished(Err(InstallError::NotProxmoxHost))
            } else {
                match step_after(step) {
                    Some(next) => r == InstallProgress::Run(next),
                    None => r == InstallProgress::Finished(Ok(())),
                }
            },
        },
{
    match last {
        None => InstallProgress::Run(InstallStep::CheckRoot),
        Some((_, Err(m))) => InstallProgress::Finished(Err(InstallError::StepFailed(m))),
        Some((step, Ok(answer))) => match step {
            InstallStep::CheckRoot => match ensure_root(answer) {
                Ok(()) => InstallProgress::Run(InstallStep::CheckProxmoxHost),
                Err(e) => InstallProgress::Finished(Err(e)),
            },
            InstallStep::CheckProxmoxHost => if answer {
                InstallProgress::Run(InstallStep::InstallBinary)
            } else {
                InstallProgress::Finished(Err(InstallError::NotProxmoxHost))
            },
            InstallStep::InstallBinary => InstallProgress::Run(InstallStep::InstallConfig),
            InstallStep::InstallConfig => InstallProgress::Run(InstallStep::WriteUnit),
            InstallStep::WriteUnit => InstallProgress::Run(InstallStep::ReloadUnits),
            InstallStep::ReloadUnits => InstallProgress::Run(InstallStep::EnableService),
            InstallStep::EnableService => InstallProgress::Finished(Ok(())),
        },
    }
}

/// The output of `id -u` names the root user: once trimmed, it is `0`.
pub open spec fn is_root_uid_text(s: Seq<char>) -> bool {
    exists|k: int|
        0 <= k < s.len() && s[k] == '0' && forall|j: int|
            0 <= j < s.len() && j != k ==> is_unicode_space(#[trigger] s[j])
}

/// Whether the output of `id -u` names the root user.
pub fn is_root_uid(output: &str) -> (r: bool)
    ensures
        r == is_root_uid_text(output@),
{
    let cs = chars_of(output);
    let mut zero: Option<usize> = None;
    let mut i: usize = 0;
    while i < cs.len()
        invariant
            0 <= i <= cs.len(),
            cs@ == output@,
            match zero {
                None => forall|j: int| 0 <= j < i ==> is_unicode_space(#[trigger] cs@[j]),
                Some(k) => k < i && cs@[k as int] == '0' && forall|j: int|
                    0 <= j < i && j != k ==> is_unicode_space(#[trigger] cs@[j]),
            },
        decreases cs.len() - i,
    {
        if !is_space(cs[i]) {
            if cs[i] == '0' && zero.is_none() {
                zero = Some(i);
            } else {
                proof {
                    assert forall|k: int|
                        0 <= k < output@.len() && output@[k] == '0' implies !(forall|j: int|
                        0 <= j < output@.len() && j != k ==> is_unicode_space(
                            #[trigger] output@[j],
                        )) by {
                        if k != i {
                            assert(!is_unicode_space(output@[i as int]));
                        } else {
                            let z = zero->0;
                            assert(z != k);
                            assert(output@[z as int] == '0');
                            assert(!is_unicode_space('0')) by {
                                assert(('0' as u32) == 48);
                            }
                        }
                    }
                }
                return false;
            }
        }
        i = i + 1;
    }
    match zero {
        Some(k) => {
            assert(output@[k as int] == '0');
            true
        },
        None => {
            proof {
                assert forall|k: int| 0 <= k < output@.len() implies output@[k] != '0' by {
                    assert(is_unicode_space(output@[k]));
                    assert(('0' as u32) == 48);
                }
            }
            false
        },
    }
}

/// The words of `words` separated by single spaces.
pub open spec fn space_joined(words: Seq<Seq<char>>) -> Seq<char>
    decreases words.len(),
{
    if words.len() == 0 {
        Seq::empty()
    } else if words.len() == 1 {
        words[0]
    } else {
        space_joined(words.drop_last()) + " "@ + words.last()
    }
}

/// The texts of a list of strings.
pub open spec fn word_texts(v: Seq<&str>) -> Seq<Seq<char>> {
    v.map_values(|s: &str| s@)
}

/// The message of a failed `systemctl` run: `systemctl {args} failed: {stderr}`.
pub fn systemctl_failure(args: &Vec<&str>, stderr: &str) -> (r: String)
    ensures
        r@ == "systemctl "@ + space_joined(word_texts(args@)) + " failed: "@ + stderr@,
{
    let mut s = owned("systemctl ");
    let ghost start = s@;
    let mut i: usize = 0;
    while i < args.len()
        invariant
            0 <= i <= args.len(),
            start == "systemctl "@,
            s@ == start + space_joined(word_texts(args@.take(i as int))),
        decreases args.len() - i,
    {
        let ghost before = s@;
        if i > 0 {
            push_text(&mut s, " ");
        }
        push_text(&mut s, args[i]);
        proof {
            let t = args@.take((i + 1) as int);
            assert(word_texts(t).drop_last() =~= word_texts(args@.take(i as int)));
            assert(word_texts(t).last() == args@[i as int]@);
            if i == 0 {
                assert(word_texts(args@.take(0)) =~= Seq::<Seq<char>>::empty());
                assert(s@ =~= start + space_joined(word_texts(t)));
            } else {
                assert(s@ =~= start + space_joined(word_texts(t)));
            }
        }
        i = i + 1;
    }
    assert(args@.take(args@.len() as int) =~= args@);
    push_text(&mut s, " failed: ");
    push_text(&mut s, stderr);
    s
}

/// Before the binary is replaced, a running service is stopped, so that
/// the copy does not meet a busy executable: only when a binary is already
/// installed and the service is active.
pub fn must_stop_service(binary_installed: bool, service_active: bool) -> (r: bool)
    ensures
        r == (binary_installed && service_active),
{
    binary_installed && service_active
}

/// Installation needs root.
pub fn ensure_root(is_root: bool) -> (r: Result<(), InstallError>)
    ensures
        is_root ==> r is Ok,
        !is_root ==> r == Err::<(), InstallError>(InstallError::NotRoot),
{
    if is_root {
        Ok(())
    } else {
        Err(InstallError::NotRoot)
    }
}

impl InstallError {
    /// The message of the error.
    pub fn message(&self) -> (r: String)
        ensures
            match self {
                InstallError::NotRoot => r@ == "service-install must be run as root"@,
                InstallError::NotProxmoxHost => r@ == "FeatherTail agent only runs on proxmox hosts"@,
                InstallError::StepFailed(m) => r@ == m@,
            },
    {
        match self {
            InstallError::NotRoot => owned("service-install must be run as root"),
            InstallError::NotProxmoxHost => owned("FeatherTail agent only runs on proxmox hosts"),
            InstallError::StepFailed(m) => m.clone(),
        }
    }
}

/// The unit file that runs `exec_path --config config_path` as root,
/// restarting on failure.
pub open spec fn unit_text(exec_path: Seq<char>, config_path: Seq<char>) -> Seq<char> {
    "[Unit]\nDescription=FeatherTail DHCP + Proxmox Agent\nAfter=network-online.target\nWants=network-online.target\n\n[Service]\nType=simple\nExecStart="@
        + exec_path + " --config "@ + config_path
        + "\nRestart=on-failure\nRestartSec=2\nTimeoutStartSec=20\nTimeoutStopSec=12\nKillMode=mixed\nUser=root\nWorkingDirectory=/\n\n[Install]\nWantedBy=multi-user.target\n"@
}

/// The systemd unit file for the daemon.
pub fn systemd_unit(exec_path: &str, config_path: &str) -> (r: String)
    ensures
        r@ == unit_text(exec_path@, config_path@),
{
    let mut s = owned(
        "[Unit]\nDescription=FeatherTail DHCP + Proxmox Agent\nAfter=network-online.target\nWants=network-online.target\n\n[Service]\nType=simple\nExecStart=",
    );
    push_text(&mut s, exec_path);
    push_text(&mut s, " --config ");
    push_text(&mut s, config_path);
    push_text(
        &mut s,
        "\nRestart=on-failure\nRestartSec=2\nTimeoutStartSec=20\nTimeoutStopSec=12\nKillMode=mixed\nUser=root\nWorkingDirectory=/\n\n[Install]\nWantedBy=multi-user.target\n",
    );
    s
}

/// On start, an installed unit is rewritten (and systemd reloaded) only
/// when running as root, from the installed binary, with the unit present.
pub fn refresh_managed_service_on_start(is_root: bool, running_installed_binary: bool, unit_exists: bool) -> (r: bool)
    ensures
        r == (is_root && running_installed_binary && unit_exists),
{
    is_root && running_installed_binary && unit_exists
}

} // verus!
