//! The plan of `pup install ssi linux`: what it would do on the remote host.
use vstd::prelude::*;

use crate::text::{concat2, decimal, owned, u64_to_string};

verus! {

/// The target of a Linux single-step-instrumentation install.
pub struct LinuxSsiPlan {
    pub host: String,
    pub user: String,
    pub key: Option<String>,
    pub port: u16,
}

/// The steps of the install, one line each, after the target line.
pub open spec fn ssi_steps() -> Seq<Seq<char>> {
    seq![
        "#"@,
        "# 1. Open an SSH session via russh client."@,
        "# 2. Detect distro family by reading /etc/os-release ($ID + $ID_LIKE)."@,
        "# 3. Configure Datadog package repo for the host:"@,
        "#      - Debian/Ubuntu → add apt repo signed by"@,
        "#        keys.datadoghq.com/DATADOG_APT_KEY_CURRENT.public"@,
        "#      - RHEL/CentOS/Amazon/Rocky/Alma → write /etc/yum.repos.d/datadog.repo"@,
        "# 4. Install signed packages: datadog-agent (+ datadog-signing-keys on apt)."@,
        "# 5. Download the `datadog-installer` binary from the OCI registry"@,
        "#      (gcr.io/datadoghq/installer-package), verify its SHA-256 against a"@,
        "#      pinned manifest, and execute it locally on the remote host."@,
        "# 6. Run `datadog-installer setup` to install apm-inject + language"@,
        "#      libraries and to write /etc/ld.so.preload."@,
        "# 7. Patch /etc/datadog-agent/datadog.yaml with DD_API_KEY + DD_SITE."@,
        "# 8. Restart the agent and confirm `datadog-agent status` is healthy."@,
        "#"@,
        "# None of these steps run today — this command is scaffolding so the pup team"@,
        "# can review the shape before the implementation lands. See docs/INSTALL.md."@,
    ]
}

/// The target line: `user@host:port`, then the key in use.
pub open spec fn target_line(p: LinuxSsiPlan) -> Seq<char> {
    "# Target: "@ + p.user@ + "@"@ + p.host@ + ":"@ + decimal(p.port as int) + match p.key {
        Some(k) => "  (key: "@ + k@ + ")"@,
        None => "  (key: SSH agent / default identity)"@,
    }
}

/// The printed plan, line by line.
pub open spec fn plan_text(p: LinuxSsiPlan) -> Seq<Seq<char>> {
    seq!["# Planned `pup install ssi linux` steps"@, "#"@, target_line(p)] + ssi_steps()
}

/// The refusal of an install that is not a dry run.
pub open spec fn not_executable_message(p: LinuxSsiPlan) -> Seq<char> {
    "`pup install ssi linux` is scaffolded but not yet executable in this build. Re-run with --dry-run to see the planned steps for "@
        + p.user@ + "@"@ + p.host@ + ":"@ + decimal(p.port as int)
        + ", or track the follow-up implementation work in docs/INSTALL.md."@
}

fn step_lines() -> (r: Vec<String>)
    ensures
        r@.map_values(|s: String| s@) == ssi_steps(),
{
    let mut r: Vec<String> = Vec::new();
    r.push(owned("#"));
    r.push(owned("# 1. Open an SSH session via russh client."));
    r.push(owned("# 2. Detect distro family by reading /etc/os-release ($ID + $ID_LIKE)."));
    r.push(owned("# 3. Configure Datadog package repo for the host:"));
    r.push(owned("#      - Debian/Ubuntu → add apt repo signed by"));
    r.push(owned("#        keys.datadoghq.com/DATADOG_APT_KEY_CURRENT.public"));
    r.push(owned("#      - RHEL/CentOS/Amazon/Rocky/Alma → write /etc/yum.repos.d/datadog.repo"));
    r.push(owned("# 4. Install signed packages: datadog-agent (+ datadog-signing-keys on apt)."));
    r.push(owned("# 5. Download the `datadog-installer` binary from the OCI registry"));
    r.push(owned("#      (gcr.io/datadoghq/installer-package), verify its SHA-256 against a"));
    r.push(owned("#      pinned manifest, and execute it locally on the remote host."));
    r.push(owned("# 6. Run `datadog-installer setup` to install apm-inject + language"));
    r.push(owned("#      libraries and to write /etc/ld.so.preload."));
    r.push(owned("# 7. Patch /etc/datadog-agent/datadog.yaml with DD_API_KEY + DD_SITE."));
    r.push(owned("# 8. Restart the agent and confirm `datadog-agent status` is healthy."));
    r.push(owned("#"));
    r.push(owned("# None of these steps run today — this command is scaffolding so the pup team"));
    r.push(owned("# can review the shape before the implementation lands. See docs/INSTALL.md."));
    assert(r@.map_values(|s: String| s@) =~= ssi_steps());
    r
}

/// `user@host:port`.
fn user_host_port(p: &LinuxSsiPlan) -> (r: String)
    ensures
        r@ == p.user@ + "@"@ + p.host@ + ":"@ + decimal(p.port as int),
{
    let a = concat2(p.user.as_str(), "@");
    let b = concat2(a.as_str(), p.host.as_str());
    let c = concat2(b.as_str(), ":");
    let port = u64_to_string(p.port as u64);
    concat2(c.as_str(), port.as_str())
}

impl LinuxSsiPlan {
    /// The lines the dry run prints (see [`plan_text`]).
    pub fn print(&self) -> (r: Vec<String>)
        ensures
            r@.map_values(|s: String| s@) == plan_text(*self),
    {
        let head = concat2("# Target: ", user_host_port(self).as_str());
        let key = match &self.key {
            Some(k) => {
                let a = concat2("  (key: ", k.as_str());
                concat2(a.as_str(), ")")
            },
            None => owned("  (key: SSH agent / default identity)"),
        };
        let target = concat2(head.as_str(), key.as_str());
        assert(target@ =~= target_line(*self));
        let mut r: Vec<String> = Vec::new();
        r.push(owned("# Planned `pup install ssi linux` steps"));
        r.push(owned("#"));
        r.push(target);
        let steps = step_lines();
        let ghost prefix = r@.map_values(|s: String| s@);
        let mut i: usize = 0;
        while i < steps.len()
            invariant
                i <= steps@.len(),
                steps@.map_values(|s: String| s@) == ssi_steps(),
                prefix.len() == 3,
                r@.map_values(|s: String| s@) == prefix + ssi_steps().take(i as int),
            decreases steps@.len() - i,
        {
            assert(ssi_steps()[i as int] == steps@[i as int]@);
            let ghost before = r@;
            r.push(steps[i].clone());
            assert(r@.map_values(|s: String| s@) =~= before.map_values(|s: String| s@).push(steps@[i as int]@));
            assert(ssi_steps().take(i + 1) =~= ssi_steps().take(i as int).push(steps@[i as int]@));
            assert(r@.map_values(|s: String| s@) =~= prefix + ssi_steps().take(i + 1));
            i += 1;
        }
        assert(ssi_steps().take(steps@.len() as int) =~= ssi_steps());
        assert(prefix =~= seq!["# Planned `pup install ssi linux` steps"@, "#"@, target_line(*self)]);
        r
    }
}

/// The plan for the given target.
pub open spec fn plan_of(host: String, user: String, key: Option<String>, port: u16) -> LinuxSsiPlan {
    LinuxSsiPlan { host, user, key, port }
}

/// Installs single-step instrumentation on a remote Linux host: a dry run
/// gives the plan's lines; otherwise the install is refused, since it is not
/// yet executable.
pub fn ssi_linux(host: String, user: String, key: Option<String>, port: u16, dry_run: bool) -> (r:
    Result<Vec<String>, String>)
    ensures
        dry_run ==> (r matches Ok(lines) && lines@.map_values(|s: String| s@) == plan_text(
            plan_of(host, user, key, port),
        )),
        !dry_run ==> (r matches Err(e) && e@ == not_executable_message(
            plan_of(host, user, key, port),
        )),
{
    let plan = LinuxSsiPlan { host, user, key, port };
    if dry_run {
        return Ok(plan.print());
    }
    let a = concat2(
        "`pup install ssi linux` is scaffolded but not yet executable in this build. Re-run with --dry-run to see the planned steps for ",
        user_host_port(&plan).as_str(),
    );
    Err(concat2(a.as_str(), ", or track the follow-up implementation work in docs/INSTALL.md."))
}

} // verus!
