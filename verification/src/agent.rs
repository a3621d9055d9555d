//! The update agent: the deploy/rollback lifecycle of an ostree-based system.
//!
//! Signature verification is enforced by the ostree *remote*. The agent
//! additionally **fails closed**: it refuses to pull or deploy from a remote that
//! is not configured to verify signatures, unless told otherwise. This holds of the
//! configured remote, and of the one that the tracked refspec names.

use crate::error::{ErrorView, UpdateError};
use crate::exchange;
use crate::exchange::{Phase, PhaseView, Reply, ReplyView, Request, RequestView, Step, StepView};
use crate::path;
use crate::path::{join_path, repo_of};
use crate::remote;
use crate::remote::{refspec_remote, remote_config_verifies, split_refspec};
use crate::status;
use crate::status::{parse_booted_checksum, parse_booted_origin, parse_prior_checksum};
use crate::text;
use crate::text::{cat, cat3, command, same, trim_of};
use vstd::prelude::*;

verus! {

/// Runtime configuration for the update agent.
#[derive(Debug, Clone)]
pub struct UpdateConfig {
    /// Sysroot to operate on (`/` on a running system).
    pub sysroot: String,
    /// Stateroot / OS name (`ostree admin --os`).
    pub os: String,
    /// ostree remote name to pull from.
    pub remote: String,
    /// Channel ref to track, e.g. `buckos/x86_64/stable`. When `None`, the
    /// agent tracks the refspec the booted deployment was created from.
    pub branch: Option<String>,
    /// `ostree` binary to invoke.
    pub ostree_bin: String,
    /// Allow operating against a remote that does not verify signatures.
    pub allow_insecure: bool,
}

/// An [`UpdateConfig`] over texts.
pub struct ConfigView {
    pub sysroot: Seq<char>,
    pub os: Seq<char>,
    pub remote: Seq<char>,
    pub branch: Option<Seq<char>>,
    pub ostree_bin: Seq<char>,
    pub allow_insecure: bool,
}

impl View for UpdateConfig {
    type V = ConfigView;

    open spec fn view(&self) -> ConfigView {
        ConfigView {
            sysroot: self.sysroot@,
            os: self.os@,
            remote: self.remote@,
            branch: match self.branch {
                Some(b) => Some(b@),
                None => None,
            },
            ostree_bin: self.ostree_bin@,
            allow_insecure: self.allow_insecure,
        }
    }
}

/// The `ostree` binary that the environment names, or `ostree`.
pub open spec fn chosen_bin(from_env: Option<String>) -> Seq<char> {
    match from_env {
        Some(bin) => bin@,
        None => "ostree"@,
    }
}

impl UpdateConfig {
    /// The configuration of a running system. `ostree_env` is the value of
    /// `BUCKOS_OSTREE`, where that is set.
    pub fn default(ostree_env: Option<String>) -> (c: UpdateConfig)
        ensures
            c@ == (ConfigView {
                sysroot: "/"@,
                os: "buckos"@,
                remote: "buckos"@,
                branch: None,
                ostree_bin: chosen_bin(ostree_env),
                allow_insecure: false,
            }),
    {
        UpdateConfig {
            sysroot: "/".to_string(),
            os: "buckos".to_string(),
            remote: "buckos".to_string(),
            branch: None,
            ostree_bin: match ostree_env {
                Some(bin) => bin,
                None => "ostree".to_string(),
            },
            allow_insecure: false,
        }
    }

    /// This configuration with another `ostree` binary, if one is given.
    pub fn with_ostree(self, bin: Option<String>) -> (c: UpdateConfig)
        ensures
            c@ == (ConfigView {
                ostree_bin: match bin {
                    Some(b) => b@,
                    None => self@.ostree_bin,
                },
                ..self@
            }),
    {
        let mut c = self;
        match bin {
            Some(b) => {
                c.ostree_bin = b;
            },
            None => {},
        }
        c
    }
}

/// Outcome of a `check`.
#[derive(Debug, Clone, PartialEq, Eq)]
pub enum CheckResult {
    /// The booted commit already matches the channel tip.
    UpToDate { commit: String },
    /// A newer commit is available on the channel.
    UpdateAvailable { current: String, candidate: String },
}

/// A [`CheckResult`] over texts.
pub enum CheckView {
    UpToDate { commit: Seq<char> },
    UpdateAvailable { current: Seq<char>, candidate: Seq<char> },
}

impl View for CheckResult {
    type V = CheckView;

    open spec fn view(&self) -> CheckView {
        match *self {
            CheckResult::UpToDate { commit } => CheckView::UpToDate { commit: commit@ },
            CheckResult::UpdateAvailable { current, candidate } => CheckView::UpdateAvailable {
                current: current@,
                candidate: candidate@,
            },
        }
    }
}

/// The next step of an operation whose part stands at `p`, where `f` says how it
/// goes on from the part's value and the position of the replies that are left.
pub open spec fn after<T, U>(p: PhaseView<T>, f: spec_fn(T, int) -> StepView<U>) -> StepView<U> {
    match p {
        PhaseView::Ask(r) => StepView::Ask(r),
        PhaseView::Fail(e) => StepView::Done(Err(e)),
        PhaseView::Pass { value, next } => f(value, next),
    }
}

/// The next step of an operation that is over once its last part passes.
pub open spec fn finish(p: PhaseView<()>) -> StepView<()> {
    after(p, |v: (), next: int| StepView::Done(Ok(())))
}

/// `--sysroot=<sysroot>`.
pub open spec fn sysroot_arg(c: ConfigView) -> Seq<char> {
    "--sysroot="@ + c.sysroot
}

/// `--repo=<repository of the sysroot>`.
pub open spec fn repo_arg(c: ConfigView) -> Seq<char> {
    "--repo="@ + path::repo(c.sysroot)
}

/// `--os=<os>`.
pub open spec fn os_arg(c: ConfigView) -> Seq<char> {
    "--os="@ + c.os
}

/// `admin <sub> --sysroot=... <rest>` for `<sub> <rest>`.
pub open spec fn admin_args(c: ConfigView, args: Seq<Seq<char>>) -> Seq<Seq<char>> {
    if args.len() > 0 {
        seq!["admin"@, args[0], sysroot_arg(c)] + args.skip(1)
    } else {
        seq!["admin"@, sysroot_arg(c)]
    }
}

/// `ostree <args>`, collecting its output.
pub open spec fn capture_phase(
    c: ConfigView,
    args: Seq<Seq<char>>,
    h: Seq<ReplyView>,
    at: int,
) -> PhaseView<Seq<char>> {
    if at >= h.len() {
        PhaseView::Ask(RequestView::Capture { program: c.ostree_bin, args })
    } else {
        match exchange::captured(c.ostree_bin, args, h[at]) {
            Ok(out) => PhaseView::Pass { value: out, next: at + 1 },
            Err(e) => PhaseView::Fail(e),
        }
    }
}

/// `ostree <args>` with live progress.
pub open spec fn inherit_phase(
    c: ConfigView,
    args: Seq<Seq<char>>,
    h: Seq<ReplyView>,
    at: int,
) -> PhaseView<()> {
    if at >= h.len() {
        PhaseView::Ask(RequestView::Inherit { program: c.ostree_bin, args })
    } else {
        match exchange::inherited(c.ostree_bin, args, h[at]) {
            Ok(()) => PhaseView::Pass { value: (), next: at + 1 },
            Err(e) => PhaseView::Fail(e),
        }
    }
}

/// `ostree admin status`, collecting its output.
pub open spec fn status_phase(c: ConfigView, h: Seq<ReplyView>, at: int) -> PhaseView<Seq<char>> {
    capture_phase(c, admin_args(c, seq!["status"@]), h, at)
}

/// The refspec that the agent tracks: the configured branch, or the booted
/// deployment's origin.
pub open spec fn refspec_phase(c: ConfigView, h: Seq<ReplyView>, at: int) -> PhaseView<Seq<char>> {
    match c.branch {
        Some(b) => PhaseView::Pass { value: c.remote + ":"@ + b, next: at },
        None => match status_phase(c, h, at) {
            PhaseView::Pass { value, next } => match status::booted_origin(text::lines(value)) {
                Some(origin) => PhaseView::Pass { value: origin, next },
                None => PhaseView::Fail(ErrorView::UnknownRefspec),
            },
            p => p,
        },
    }
}

/// The checksum of the booted deployment.
pub open spec fn booted_phase(c: ConfigView, h: Seq<ReplyView>, at: int) -> PhaseView<Seq<char>> {
    match status_phase(c, h, at) {
        PhaseView::Pass { value, next } => match status::booted_checksum(status::listed(value)) {
            Some(checksum) => PhaseView::Pass { value: checksum, next },
            None => PhaseView::Fail(ErrorView::UnknownBootedCommit),
        },
        p => p,
    }
}

/// The files that may configure a remote: the repository's own configuration, and
/// `etc/ostree/remotes.d/<remote>.conf`.
pub open spec fn config_paths(c: ConfigView, remote: Seq<char>) -> Seq<Seq<char>> {
    seq![
        path::join(path::repo(c.sysroot), "config"@),
        path::join(c.sysroot, "etc/ostree/remotes.d"@) + "/"@ + remote + ".conf"@,
    ]
}

/// Whether a reply is the text of a configuration that demands signatures for the
/// remote.
pub open spec fn reply_verifies(remote: Seq<char>, reply: ReplyView) -> bool {
    match exchange::file_text(reply) {
        Some(config) => remote::config_verifies(config, remote),
        None => false,
    }
}

/// Whether one of the files demands signatures for the remote. They are read in
/// order, up to the first that does.
pub open spec fn verifies_phase(
    remote: Seq<char>,
    paths: Seq<Seq<char>>,
    h: Seq<ReplyView>,
    at: int,
) -> PhaseView<bool>
    decreases paths.len(),
{
    if paths.len() == 0 {
        PhaseView::Pass { value: false, next: at }
    } else if at >= h.len() {
        PhaseView::Ask(RequestView::ReadFile { path: paths[0] })
    } else if reply_verifies(remote, h[at]) {
        PhaseView::Pass { value: true, next: at + 1 }
    } else {
        verifies_phase(remote, paths.drop_first(), h, at + 1)
    }
}

/// The trust requirement for one remote: it passes where the remote verifies
/// signatures, and refuses the remote otherwise.
pub open spec fn remote_phase(
    c: ConfigView,
    remote: Seq<char>,
    h: Seq<ReplyView>,
    at: int,
) -> PhaseView<()> {
    match verifies_phase(remote, config_paths(c, remote), h, at) {
        PhaseView::Ask(r) => PhaseView::Ask(r),
        PhaseView::Fail(e) => PhaseView::Fail(e),
        PhaseView::Pass { value, next } => if value {
            PhaseView::Pass { value: (), next }
        } else {
            PhaseView::Fail(ErrorView::UnverifiedRemote { remote })
        },
    }
}

/// The trust requirement of every operation that brings in content: it passes where
/// the configured remote verifies signatures, or where insecure operation is
/// allowed.
pub open spec fn trust_phase(c: ConfigView, h: Seq<ReplyView>) -> PhaseView<()> {
    if c.allow_insecure {
        PhaseView::Pass { value: (), next: 0 }
    } else {
        remote_phase(c, c.remote, h, 0)
    }
}

/// The trust requirement for the remote that the tracked refspec names, where that
/// is another than the configured one.
pub open spec fn source_phase(
    c: ConfigView,
    refspec: Seq<char>,
    h: Seq<ReplyView>,
    at: int,
) -> PhaseView<()> {
    match remote::source_remote(refspec) {
        Some(r) => if c.allow_insecure || r == c.remote {
            PhaseView::Pass { value: (), next: at }
        } else {
            remote_phase(c, r, h, at)
        },
        None => PhaseView::Pass { value: (), next: at },
    }
}

/// A tracked refspec taken apart, or the error for a malformed one.
pub open spec fn split_phase(refspec: Seq<char>, at: int) -> PhaseView<(Seq<char>, Seq<char>)> {
    match remote::refspec_parts(refspec) {
        Some(parts) => PhaseView::Pass { value: parts, next: at },
        None => PhaseView::Fail(ErrorView::MalformedRefspec { refspec }),
    }
}

/// `pull --commit-metadata-only <remote> <branch>`.
pub open spec fn metadata_args(
    c: ConfigView,
    remote: Seq<char>,
    branch: Seq<char>,
) -> Seq<Seq<char>> {
    seq![repo_arg(c), "pull"@, "--commit-metadata-only"@, remote, branch]
}

/// `rev-parse <refspec>`.
pub open spec fn rev_parse_args(c: ConfigView, refspec: Seq<char>) -> Seq<Seq<char>> {
    seq![repo_arg(c), "rev-parse"@, refspec]
}

/// `pull <remote> <branch>`.
pub open spec fn pull_args(c: ConfigView, remote: Seq<char>, branch: Seq<char>) -> Seq<Seq<char>> {
    seq![repo_arg(c), "pull"@, remote, branch]
}

/// `admin deploy --sysroot=... --os=... <target>`.
pub open spec fn deploy_args(c: ConfigView, target: Seq<char>) -> Seq<Seq<char>> {
    admin_args(c, seq!["deploy"@, os_arg(c), target])
}

/// What a candidate commit means for a booted one.
pub open spec fn verdict(current: Seq<char>, candidate: Seq<char>) -> CheckView {
    if candidate == current {
        CheckView::UpToDate { commit: current }
    } else {
        CheckView::UpdateAvailable { current, candidate }
    }
}

/// `systemctl reboot`.
pub open spec fn reboot_request() -> RequestView {
    RequestView::Inherit { program: "systemctl"@, args: seq!["reboot"@] }
}

impl Request {
    /// Whether this is the request to reboot.
    pub fn is_reboot(&self) -> (b: bool)
        ensures
            b == (self@ == reboot_request()),
    {
        match self {
            Request::Inherit { program, args } => {
                proof {
                    let v = text::texts(args@);
                    if args@.len() == 1 && args@[0]@ == "reboot"@ {
                        assert(v =~= seq!["reboot"@]);
                    }
                    if v == seq!["reboot"@] {
                        assert(v.len() == 1);
                        assert(v[0] == args@[0]@);
                    }
                }
                same(program, "systemctl") && args.len() == 1 && same(&args[0], "reboot")
            },
            _ => false,
        }
    }
}

/// What became of the reboot command.
pub open spec fn rebooted(reply: ReplyView) -> Result<(), ErrorView> {
    match reply {
        ReplyView::Exited { success, status, .. } => if success {
            Ok(())
        } else {
            Err(ErrorView::RebootFailed { status })
        },
        _ => Err(ErrorView::RebootNotInvoked { reason: exchange::failure_reason(reply) }),
    }
}

/// `status`: show the deployments.
pub open spec fn status_step(c: ConfigView, h: Seq<ReplyView>) -> StepView<()> {
    finish(inherit_phase(c, admin_args(c, seq!["status"@]), h, 0))
}

/// `cleanup`: prune old commits.
pub open spec fn cleanup_step(c: ConfigView, h: Seq<ReplyView>) -> StepView<()> {
    finish(inherit_phase(c, admin_args(c, seq!["cleanup"@]), h, 0))
}

/// `check`: once the remote is trusted, fetch the commit metadata of the tracked
/// ref, resolve it, and hold it against the booted commit.
pub open spec fn check_step(c: ConfigView, h: Seq<ReplyView>) -> StepView<CheckView> {
    after(
        trust_phase(c, h),
        |v: (), at: int|
            after(
                refspec_phase(c, h, at),
                |refspec: Seq<char>, at: int|
                    after(
                        split_phase(refspec, at),
                        |parts: (Seq<char>, Seq<char>), at: int|
                            after(
                                source_phase(c, refspec, h, at),
                                |v: (), at: int| fetch_step(c, refspec, parts, h, at),
                            ),
                    ),
            ),
    )
}

/// The part of `check` that fetches and compares.
pub open spec fn fetch_step(
    c: ConfigView,
    refspec: Seq<char>,
    parts: (Seq<char>, Seq<char>),
    h: Seq<ReplyView>,
    at: int,
) -> StepView<CheckView> {
    after(
        capture_phase(c, metadata_args(c, parts.0, parts.1), h, at),
        |out: Seq<char>, at: int|
            after(
                capture_phase(c, rev_parse_args(c, refspec), h, at),
                |out: Seq<char>, at: int|
                    after(
                        booted_phase(c, h, at),
                        |current: Seq<char>, at: int|
                            StepView::Done(Ok(verdict(current, text::trim(out)))),
                    ),
            ),
    )
}

/// `pull`: once the remote is trusted, pull the tracked ref.
pub open spec fn pull_step(c: ConfigView, h: Seq<ReplyView>) -> StepView<()> {
    after(
        trust_phase(c, h),
        |v: (), at: int|
            after(
                refspec_phase(c, h, at),
                |refspec: Seq<char>, at: int|
                    after(
                        split_phase(refspec, at),
                        |parts: (Seq<char>, Seq<char>), at: int|
                            after(
                                source_phase(c, refspec, h, at),
                                |v: (), at: int|
                                    finish(inherit_phase(c, pull_args(c, parts.0, parts.1), h, at)),
                            ),
                    ),
            ),
    )
}

/// The last part of `deploy`: reboot, if asked to.
pub open spec fn reboot_step(reboot: bool, h: Seq<ReplyView>, at: int) -> StepView<()> {
    if !reboot {
        StepView::Done(Ok(()))
    } else if at >= h.len() {
        StepView::Ask(reboot_request())
    } else {
        StepView::Done(rebooted(h[at]))
    }
}

/// `deploy`: once the remote is trusted, deploy the tracked ref, and reboot if asked to.
pub open spec fn deploy_step(c: ConfigView, reboot: bool, h: Seq<ReplyView>) -> StepView<()> {
    after(
        trust_phase(c, h),
        |v: (), at: int|
            after(
                refspec_phase(c, h, at),
                |refspec: Seq<char>, at: int|
                    after(
                        source_phase(c, refspec, h, at),
                        |v: (), at: int|
                            after(
                                inherit_phase(c, deploy_args(c, refspec), h, at),
                                |v: (), at: int| reboot_step(reboot, h, at),
                            ),
                    ),
            ),
    )
}

/// `rollback`: deploy the commit listed immediately after the booted one.
pub open spec fn rollback_step(c: ConfigView, h: Seq<ReplyView>) -> StepView<()> {
    after(
        status_phase(c, h, 0),
        |out: Seq<char>, at: int|
            match status::prior_checksum(status::listed(out)) {
                Some(prior) => finish(inherit_phase(c, deploy_args(c, prior), h, at)),
                None => StepView::Done(Err(ErrorView::NoPreviousDeployment)),
            },
    )
}

/// Driver around the `ostree` CLI.
pub struct Ostree {
    cfg: UpdateConfig,
}

impl View for Ostree {
    type V = ConfigView;

    closed spec fn view(&self) -> ConfigView {
        self.cfg@
    }
}

/// A command line of one word.
fn args1(a: &str) -> (v: Vec<String>)
    ensures
        text::texts(v@) == seq![a@],
{
    let v = command(&[a]);
    assert(text::texts(v@) =~= seq![a@]);
    v
}

impl Ostree {
    /// A driver for this configuration.
    pub fn new(cfg: UpdateConfig) -> (o: Ostree)
        ensures
            o@ == cfg@,
    {
        Ostree { cfg }
    }

    fn repo_path(&self) -> (r: String)
        ensures
            r@ == path::repo(self@.sysroot),
    {
        repo_of(&self.cfg.sysroot)
    }

    fn sysroot_arg(&self) -> (r: String)
        ensures
            r@ == sysroot_arg(self@),
    {
        cat("--sysroot=", &self.cfg.sysroot)
    }

    fn repo_arg(&self) -> (r: String)
        ensures
            r@ == repo_arg(self@),
    {
        cat("--repo=", &self.repo_path())
    }

    /// Run `ostree <args>`, capturing stdout; errors carry stderr.
    fn capture(&self, args: Vec<String>, replies: &[Reply], at: usize) -> (p: Phase<String>)
        ensures
            p@ == capture_phase(
                self@,
                text::texts(args@),
                exchange::history(replies@),
                at as int,
            ),
    {
        if at >= replies.len() {
            return Phase::Ask(Request::Capture { program: self.cfg.ostree_bin.clone(), args });
        }
        assert(exchange::history(replies@)[at as int] == replies@[at as int]@);
        match replies[at].captured(&self.cfg.ostree_bin, args) {
            Ok(out) => Phase::Pass { value: out, next: at + 1 },
            Err(e) => Phase::Fail(e),
        }
    }

    /// Run `ostree <args>` with inherited stdio (live progress); error on
    /// non-zero exit.
    fn inherit(&self, args: Vec<String>, replies: &[Reply], at: usize) -> (p: Phase<()>)
        ensures
            p@ == inherit_phase(
                self@,
                text::texts(args@),
                exchange::history(replies@),
                at as int,
            ),
    {
        if at >= replies.len() {
            return Phase::Ask(Request::Inherit { program: self.cfg.ostree_bin.clone(), args });
        }
        assert(exchange::history(replies@)[at as int] == replies@[at as int]@);
        match replies[at].inherited(&self.cfg.ostree_bin, args) {
            Ok(()) => Phase::Pass { value: (), next: at + 1 },
            Err(e) => Phase::Fail(e),
        }
    }

    /// Build `["admin", <sub>, "--sysroot=...", <rest>...]` from `[<sub>, <rest>...]`.
    fn admin_args(&self, args: Vec<String>) -> (full: Vec<String>)
        ensures
            text::texts(full@) == admin_args(self@, text::texts(args@)),
    {
        let ghost goal = admin_args(self@, text::texts(args@));
        let mut full: Vec<String> = Vec::new();
        full.push("admin".to_string());
        if args.len() > 0 {
            full.push(args[0].clone());
            full.push(self.sysroot_arg());
            let mut i: usize = 1;
            assert(text::texts(full@) =~= goal.take(3));
            while i < args.len()
                invariant
                    1 <= i <= args.len(),
                    goal == admin_args(self@, text::texts(args@)),
                    text::texts(full@) == goal.take(i as int + 2),
                decreases args.len() - i,
            {
                let ghost before = text::texts(full@);
                full.push(args[i].clone());
                assert(text::texts(full@) =~= before.push(args@[i as int]@));
                assert(goal[i as int + 2] == args@[i as int]@);
                i = i + 1;
                assert(text::texts(full@) =~= goal.take(i as int + 2));
            }
        } else {
            full.push(self.sysroot_arg());
        }
        assert(text::texts(full@) =~= goal);
        full
    }

    /// `ostree admin <sub> --sysroot=... <rest>` capturing stdout.
    fn admin_capture(&self, args: Vec<String>, replies: &[Reply], at: usize) -> (p: Phase<String>)
        ensures
            p@ == capture_phase(
                self@,
                admin_args(self@, text::texts(args@)),
                exchange::history(replies@),
                at as int,
            ),
    {
        self.capture(self.admin_args(args), replies, at)
    }

    /// `ostree admin <sub> --sysroot=... <rest>` with live stdio.
    fn admin_inherit(&self, args: Vec<String>, replies: &[Reply], at: usize) -> (p: Phase<()>)
        ensures
            p@ == inherit_phase(
                self@,
                admin_args(self@, text::texts(args@)),
                exchange::history(replies@),
                at as int,
            ),
    {
        self.inherit(self.admin_args(args), replies, at)
    }

    /// Show current and pending deployments (`ostree admin status`).
    pub fn status(&self, replies: &[Reply]) -> (step: Step<()>)
        ensures
            step@ == status_step(self@, exchange::history(replies@)),
    {
        match self.admin_inherit(args1("status"), replies, 0) {
            Phase::Ask(r) => Step::Ask(r),
            Phase::Fail(e) => Step::Done(Err(e)),
            Phase::Pass { .. } => Step::Done(Ok(())),
        }
    }

    /// The refspec the agent tracks: explicit `--branch`, else the booted
    /// deployment's origin.
    fn refspec(&self, replies: &[Reply], at: usize) -> (p: Phase<String>)
        ensures
            p@ == refspec_phase(self@, exchange::history(replies@), at as int),
    {
        match &self.cfg.branch {
            Some(b) => Phase::Pass { value: cat3(&self.cfg.remote, ":", b), next: at },
            None => match self.admin_capture(args1("status"), replies, at) {
                Phase::Pass { value, next } => match parse_booted_origin(&value) {
                    Some(origin) => Phase::Pass { value: origin, next },
                    None => Phase::Fail(UpdateError::UnknownRefspec),
                },
                p => p,
            },
        }
    }

    fn booted_checksum(&self, replies: &[Reply], at: usize) -> (p: Phase<String>)
        ensures
            p@ == booted_phase(self@, exchange::history(replies@), at as int),
    {
        match self.admin_capture(args1("status"), replies, at) {
            Phase::Pass { value, next } => match parse_booted_checksum(&value) {
                Some(checksum) => Phase::Pass { value: checksum, next },
                None => Phase::Fail(UpdateError::UnknownBootedCommit),
            },
            p => p,
        }
    }

    /// True if the remote is configured to verify commit signatures. Reads the
    /// repo config and `/etc/ostree/remotes.d/<remote>.conf`.
    fn remote_verifies(&self, remote: &str, replies: &[Reply], first: usize) -> (p: Phase<bool>)
        ensures
            p@ == verifies_phase(
                remote@,
                config_paths(self@, remote@),
                exchange::history(replies@),
                first as int,
            ),
    {
        let ghost h = exchange::history(replies@);
        let ghost all = config_paths(self@, remote@);
        let mut candidates: Vec<String> = Vec::new();
        candidates.push(join_path(&self.repo_path(), "config"));
        let dir = join_path(&self.cfg.sysroot, "etc/ostree/remotes.d");
        candidates.push(cat3(&dir, "/", remote).concat(".conf"));
        assert(text::texts(candidates@) =~= all);
        let mut at: usize = first;
        let mut i: usize = 0;
        assert(all.skip(0) =~= all);
        while i < candidates.len()
            invariant
                i <= candidates.len(),
                h == exchange::history(replies@),
                all == text::texts(candidates@),
                verifies_phase(remote@, all, h, first as int) == verifies_phase(
                    remote@,
                    all.skip(i as int),
                    h,
                    at as int,
                ),
                all == config_paths(self@, remote@),
            decreases candidates.len() - i,
        {
            let ghost left = all.skip(i as int);
            assert(left[0] == candidates@[i as int]@);
            if at >= replies.len() {
                return Phase::Ask(Request::ReadFile { path: candidates[i].clone() });
            }
            assert(h[at as int] == replies@[at as int]@);
            match &replies[at] {
                Reply::Text { text } => {
                    if remote_config_verifies(text, remote) {
                        return Phase::Pass { value: true, next: at + 1 };
                    }
                },
                _ => {},
            }
            assert(left.drop_first() =~= all.skip(i as int + 1));
            at = at + 1;
            i = i + 1;
        }
        Phase::Pass { value: false, next: at }
    }

    /// The trust requirement for one remote.
    fn trust_remote(&self, remote: &str, replies: &[Reply], at: usize) -> (p: Phase<()>)
        ensures
            p@ == remote_phase(self@, remote@, exchange::history(replies@), at as int),
    {
        match self.remote_verifies(remote, replies, at) {
            Phase::Ask(r) => Phase::Ask(r),
            Phase::Fail(e) => Phase::Fail(e),
            Phase::Pass { value, next } => {
                if value {
                    Phase::Pass { value: (), next }
                } else {
                    Phase::Fail(UpdateError::UnverifiedRemote { remote: remote.to_string() })
                }
            },
        }
    }

    /// The trust requirement for the configured remote.
    fn trust(&self, replies: &[Reply]) -> (p: Phase<()>)
        ensures
            p@ == trust_phase(self@, exchange::history(replies@)),
    {
        if self.cfg.allow_insecure {
            return Phase::Pass { value: (), next: 0 };
        }
        self.trust_remote(&self.cfg.remote, replies, 0)
    }

    /// The trust requirement for the remote that a refspec names, where that is
    /// another than the configured one.
    fn trust_source(&self, refspec: &str, replies: &[Reply], at: usize) -> (p: Phase<()>)
        ensures
            p@ == source_phase(self@, refspec@, exchange::history(replies@), at as int),
    {
        match refspec_remote(refspec) {
            Some(r) => {
                if self.cfg.allow_insecure || same(&r, &self.cfg.remote) {
                    Phase::Pass { value: (), next: at }
                } else {
                    self.trust_remote(&r, replies, at)
                }
            },
            None => Phase::Pass { value: (), next: at },
        }
    }

    /// Refuse to proceed unless the remote cryptographically verifies commits,
    /// unless insecure operation is allowed.
    pub fn ensure_trusted(&self, replies: &[Reply]) -> (step: Step<()>)
        ensures
            step@ == finish(trust_phase(self@, exchange::history(replies@))),
    {
        match self.trust(replies) {
            Phase::Ask(r) => Step::Ask(r),
            Phase::Fail(e) => Step::Done(Err(e)),
            Phase::Pass { .. } => Step::Done(Ok(())),
        }
    }

    /// Check the channel for a newer commit without deploying. Fetches only the
    /// commit metadata (cheap, still signature-verified) and compares.
    pub fn check(&self, replies: &[Reply]) -> (step: Step<CheckResult>)
        ensures
            step@ == check_step(self@, exchange::history(replies@)),
    {
        let at = match self.trust(replies) {
            Phase::Ask(r) => return Step::Ask(r),
            Phase::Fail(e) => return Step::Done(Err(e)),
            Phase::Pass { next, .. } => next,
        };
        let (refspec, at) = match self.refspec(replies, at) {
            Phase::Ask(r) => return Step::Ask(r),
            Phase::Fail(e) => return Step::Done(Err(e)),
            Phase::Pass { value, next } => (value, next),
        };
        let (remote, branch) = match split_refspec(&refspec) {
            Ok(parts) => parts,
            Err(e) => return Step::Done(Err(e)),
        };
        let at = match self.trust_source(&refspec, replies, at) {
            Phase::Ask(r) => return Step::Ask(r),
            Phase::Fail(e) => return Step::Done(Err(e)),
            Phase::Pass { next, .. } => next,
        };
        let repo = self.repo_arg();
        let args = command(
            &[repo.as_str(), "pull", "--commit-metadata-only", remote.as_str(), branch.as_str()],
        );
        assert(text::texts(args@) =~= metadata_args(self@, remote@, branch@));
        let at = match self.capture(args, replies, at) {
            Phase::Ask(r) => return Step::Ask(r),
            Phase::Fail(e) => return Step::Done(Err(e)),
            Phase::Pass { next, .. } => next,
        };
        let args = command(&[repo.as_str(), "rev-parse", refspec.as_str()]);
        assert(text::texts(args@) =~= rev_parse_args(self@, refspec@));
        let (out, at) = match self.capture(args, replies, at) {
            Phase::Ask(r) => return Step::Ask(r),
            Phase::Fail(e) => return Step::Done(Err(e)),
            Phase::Pass { value, next } => (value, next),
        };
        let candidate = trim_of(&out);
        let current = match self.booted_checksum(replies, at) {
            Phase::Ask(r) => return Step::Ask(r),
            Phase::Fail(e) => return Step::Done(Err(e)),
            Phase::Pass { value, .. } => value,
        };
        if same(&candidate, &current) {
            Step::Done(Ok(CheckResult::UpToDate { commit: current }))
        } else {
            Step::Done(Ok(CheckResult::UpdateAvailable { current, candidate }))
        }
    }

    /// Pull the latest commit on the tracked ref (verified by the remote).
    pub fn pull(&self, replies: &[Reply]) -> (step: Step<()>)
        ensures
            step@ == pull_step(self@, exchange::history(replies@)),
    {
        let at = match self.trust(replies) {
            Phase::Ask(r) => return Step::Ask(r),
            Phase::Fail(e) => return Step::Done(Err(e)),
            Phase::Pass { next, .. } => next,
        };
        let (refspec, at) = match self.refspec(replies, at) {
            Phase::Ask(r) => return Step::Ask(r),
            Phase::Fail(e) => return Step::Done(Err(e)),
            Phase::Pass { value, next } => (value, next),
        };
        let (remote, branch) = match split_refspec(&refspec) {
            Ok(parts) => parts,
            Err(e) => return Step::Done(Err(e)),
        };
        let at = match self.trust_source(&refspec, replies, at) {
            Phase::Ask(r) => return Step::Ask(r),
            Phase::Fail(e) => return Step::Done(Err(e)),
            Phase::Pass { next, .. } => next,
        };
        let repo = self.repo_arg();
        let args = command(&[repo.as_str(), "pull", remote.as_str(), branch.as_str()]);
        assert(text::texts(args@) =~= pull_args(self@, remote@, branch@));
        match self.inherit(args, replies, at) {
            Phase::Ask(r) => Step::Ask(r),
            Phase::Fail(e) => Step::Done(Err(e)),
            Phase::Pass { .. } => Step::Done(Ok(())),
        }
    }

    /// Deploy a refspec or commit onto the configured stateroot.
    fn deploy_target(&self, target: String, replies: &[Reply], at: usize) -> (p: Phase<()>)
        ensures
            p@ == inherit_phase(
                self@,
                deploy_args(self@, target@),
                exchange::history(replies@),
                at as int,
            ),
    {
        let os = cat("--os=", &self.cfg.os);
        let args = command(&["deploy", os.as_str(), target.as_str()]);
        assert(text::texts(args@) =~= seq!["deploy"@, os_arg(self@), target@]);
        self.admin_inherit(args, replies, at)
    }

    /// Deploy the tracked ref's tip; optionally reboot into it.
    pub fn deploy(&self, reboot: bool, replies: &[Reply]) -> (step: Step<()>)
        ensures
            step@ == deploy_step(self@, reboot, exchange::history(replies@)),
    {
        let at = match self.trust(replies) {
            Phase::Ask(r) => return Step::Ask(r),
            Phase::Fail(e) => return Step::Done(Err(e)),
            Phase::Pass { next, .. } => next,
        };
        let (refspec, at) = match self.refspec(replies, at) {
            Phase::Ask(r) => return Step::Ask(r),
            Phase::Fail(e) => return Step::Done(Err(e)),
            Phase::Pass { value, next } => (value, next),
        };
        let at = match self.trust_source(&refspec, replies, at) {
            Phase::Ask(r) => return Step::Ask(r),
            Phase::Fail(e) => return Step::Done(Err(e)),
            Phase::Pass { next, .. } => next,
        };
        let at = match self.deploy_target(refspec, replies, at) {
            Phase::Ask(r) => return Step::Ask(r),
            Phase::Fail(e) => return Step::Done(Err(e)),
            Phase::Pass { next, .. } => next,
        };
        if !reboot {
            return Step::Done(Ok(()));
        }
        if at >= replies.len() {
            return Step::Ask(
                Request::Inherit { program: "systemctl".to_string(), args: args1("reboot") },
            );
        }
        assert(exchange::history(replies@)[at as int] == replies@[at as int]@);
        match &replies[at] {
            Reply::Exited { success, status, .. } => {
                if *success {
                    Step::Done(Ok(()))
                } else {
                    Step::Done(Err(UpdateError::RebootFailed { status: status.clone() }))
                }
            },
            reply => Step::Done(
                Err(UpdateError::RebootNotInvoked { reason: reply.failure_reason() }),
            ),
        }
    }

    /// Roll back to the previous deployment (re-deploy the commit immediately
    /// after the booted one; it is already local and was verified when pulled).
    pub fn rollback(&self, replies: &[Reply]) -> (step: Step<()>)
        ensures
            step@ == rollback_step(self@, exchange::history(replies@)),
    {
        let (out, at) = match self.admin_capture(args1("status"), replies, 0) {
            Phase::Ask(r) => return Step::Ask(r),
            Phase::Fail(e) => return Step::Done(Err(e)),
            Phase::Pass { value, next } => (value, next),
        };
        let prior = match parse_prior_checksum(&out) {
            Some(prior) => prior,
            None => return Step::Done(Err(UpdateError::NoPreviousDeployment)),
        };
        match self.deploy_target(prior, replies, at) {
            Phase::Ask(r) => Step::Ask(r),
            Phase::Fail(e) => Step::Done(Err(e)),
            Phase::Pass { .. } => Step::Done(Ok(())),
        }
    }

    /// Prune old, undeployed commits (`ostree admin cleanup`).
    pub fn cleanup(&self, replies: &[Reply]) -> (step: Step<()>)
        ensures
            step@ == cleanup_step(self@, exchange::history(replies@)),
    {
        match self.admin_inherit(args1("cleanup"), replies, 0) {
            Phase::Ask(r) => Step::Ask(r),
            Phase::Fail(e) => Step::Done(Err(e)),
            Phase::Pass { .. } => Step::Done(Ok(())),
        }
    }
}

} // verus!
