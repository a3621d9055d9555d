//! Install-time ostree operations.
//!
//! Deploys a **signed** ostree image onto a freshly partitioned and mounted
//! target: the system is laid down by pulling a release commit instead of
//! building a root file system from source. The remote is **always** created with
//! signature verification enabled, so the very first pull is verified.

use crate::error::{ErrorView, UpdateError};
use crate::exchange;
use crate::exchange::{Reply, ReplyView, Request, RequestView, Step, StepView};
use crate::path;
use crate::path::repo_of;
use crate::remote::SIGN_VERIFY;
use crate::text;
use crate::text::{cat, cat3, command, trim_of};
use vstd::prelude::*;

verus! {

/// Remote-config key carrying an inline ed25519 public key (base64). Inline
/// (vs a file) keeps the key in `<repo>/config`, so it is valid both at install
/// time and after the system boots: no path that only exists under the target.
pub const ED25519_KEY: &'static str = "verification-ed25519-key";

/// Parameters for deploying a signed ostree image onto a target sysroot.
#[derive(Debug, Clone)]
pub struct ImageInstall {
    /// Mounted target sysroot (e.g. `/mnt`).
    pub target: String,
    /// Stateroot / OS name.
    pub os: String,
    /// ostree remote name.
    pub remote: String,
    /// Channel base URL (e.g. `https://repo.buckos.org/ostree`).
    pub url: String,
    /// Channel ref to deploy (e.g. `buckos/x86_64/stable`).
    pub branch: String,
    /// ed25519 public key (base64) the remote must verify against. `None`
    /// leaves verification on but unkeyed, which makes `pull` fail closed until
    /// a key is provided: content is never silently pulled unverified.
    pub pubkey: Option<String>,
    /// Kernel arguments for the deployment (e.g. `["rw"]`).
    pub kargs: Vec<String>,
    /// `ostree` binary to invoke.
    pub ostree_bin: String,
}

/// An [`ImageInstall`] over texts.
pub struct InstallView {
    pub target: Seq<char>,
    pub os: Seq<char>,
    pub remote: Seq<char>,
    pub url: Seq<char>,
    pub branch: Seq<char>,
    pub pubkey: Option<Seq<char>>,
    pub kargs: Seq<Seq<char>>,
    pub ostree_bin: Seq<char>,
}

impl View for ImageInstall {
    type V = InstallView;

    open spec fn view(&self) -> InstallView {
        InstallView {
            target: self.target@,
            os: self.os@,
            remote: self.remote@,
            url: self.url@,
            branch: self.branch@,
            pubkey: match self.pubkey {
                Some(key) => Some(key@),
                None => None,
            },
            kargs: text::texts(self.kargs@),
            ostree_bin: self.ostree_bin@,
        }
    }
}

/// `--set=sign-verify=true`.
pub open spec fn verify_flag() -> Seq<char> {
    "--set="@ + SIGN_VERIFY@ + "=true"@
}

/// `--set=verification-ed25519-key=<key>`.
pub open spec fn key_flag(key: Seq<char>) -> Seq<char> {
    "--set="@ + ED25519_KEY@ + "="@ + text::trim(key)
}

/// `admin init-fs --modern <target>`.
pub open spec fn init_fs_line(target: Seq<char>) -> Seq<Seq<char>> {
    seq!["admin"@, "init-fs"@, "--modern"@, target]
}

/// `admin stateroot-init --sysroot=<target> <os>`.
pub open spec fn stateroot_init_line(target: Seq<char>, os: Seq<char>) -> Seq<Seq<char>> {
    seq!["admin"@, "stateroot-init"@, "--sysroot="@ + target, os]
}

/// `--repo=<repo> remote add --if-not-exists <flags> <remote> <url>`.
pub open spec fn remote_add_line(
    repo: Seq<char>,
    remote: Seq<char>,
    url: Seq<char>,
    pubkey: Option<Seq<char>>,
) -> Seq<Seq<char>> {
    let flags = match pubkey {
        Some(key) => seq![verify_flag(), key_flag(key)],
        None => seq![verify_flag()],
    };
    seq!["--repo="@ + repo, "remote"@, "add"@, "--if-not-exists"@] + flags + seq![remote, url]
}

/// `--repo=<repo> pull <remote> <branch>`.
pub open spec fn pull_line(
    repo: Seq<char>,
    remote: Seq<char>,
    branch: Seq<char>,
) -> Seq<Seq<char>> {
    seq!["--repo="@ + repo, "pull"@, remote, branch]
}

/// `admin deploy --sysroot=<target> --os=<os> --karg=<karg>... <refspec>`.
pub open spec fn deploy_line(
    target: Seq<char>,
    os: Seq<char>,
    refspec: Seq<char>,
    kargs: Seq<Seq<char>>,
) -> Seq<Seq<char>> {
    seq!["admin"@, "deploy"@, "--sysroot="@ + target, "--os="@ + os] + kargs.map_values(
        |k: Seq<char>| "--karg="@ + k,
    ) + seq![refspec]
}

/// The refspec that is installed.
pub open spec fn install_refspec(i: InstallView) -> Seq<char> {
    i.remote + ":"@ + i.branch
}

/// A live `ostree` run of an installation.
pub open spec fn ostree_request(i: InstallView, args: Seq<Seq<char>>) -> RequestView {
    RequestView::Inherit { program: i.ostree_bin, args }
}

/// A progress line.
pub open spec fn log_request(line: Seq<char>) -> RequestView {
    RequestView::Log { line }
}

/// Everything an installation does, in order: initialise the file system, add the
/// verified remote, pull, initialise the stateroot, deploy.
pub open spec fn plan(i: InstallView) -> Seq<RequestView> {
    let repo = path::repo(i.target);
    seq![
        log_request("Initializing ostree sysroot"@),
        ostree_request(i, init_fs_line(i.target)),
        log_request("Adding signature-verified remote '"@ + i.remote + "'"@),
        ostree_request(i, remote_add_line(repo, i.remote, i.url, i.pubkey)),
        log_request("Pulling "@ + install_refspec(i) + " (signature-verified)"@),
        ostree_request(i, pull_line(repo, i.remote, i.branch)),
        log_request("Initializing stateroot '"@ + i.os + "'"@),
        ostree_request(i, stateroot_init_line(i.target, i.os)),
        log_request("Deploying initial commit"@),
        ostree_request(i, deploy_line(i.target, i.os, install_refspec(i), i.kargs)),
    ]
}

/// The error that a reply to a request means, if it means one. Progress lines
/// cannot fail.
pub open spec fn request_error(request: RequestView, reply: ReplyView) -> Option<ErrorView> {
    match request {
        RequestView::Inherit { program, args } => match exchange::inherited(program, args, reply) {
            Ok(()) => None,
            Err(e) => Some(e),
        },
        _ => None,
    }
}

/// Where the work through `requests` stands, from position `k` on: at the first
/// request without a reply, or at the first that failed, or at the end.
pub open spec fn work_step(
    requests: Seq<RequestView>,
    h: Seq<ReplyView>,
    k: int,
) -> StepView<()>
    decreases requests.len() - k,
{
    if k >= requests.len() {
        StepView::Done(Ok(()))
    } else if k >= h.len() {
        StepView::Ask(requests[k])
    } else {
        match request_error(requests[k], h[k]) {
            Some(e) => StepView::Done(Err(e)),
            None => work_step(requests, h, k + 1),
        }
    }
}

/// An installation: its plan, worked through in order.
pub open spec fn install_step(i: InstallView, h: Seq<ReplyView>) -> StepView<()> {
    work_step(plan(i), h, 0)
}

/// The requests over texts.
pub open spec fn requests_of(v: Seq<Request>) -> Seq<RequestView> {
    v.map_values(|r: Request| r@)
}

impl ImageInstall {
    fn repo(&self) -> (r: String)
        ensures
            r@ == path::repo(self@.target),
    {
        repo_of(&self.target)
    }

    fn refspec(&self) -> (r: String)
        ensures
            r@ == install_refspec(self@),
    {
        cat3(&self.remote, ":", &self.branch)
    }

    /// A live run of `ostree <args>`.
    fn run_ostree(&self, args: Vec<String>) -> (r: Request)
        ensures
            r@ == ostree_request(self@, text::texts(args@)),
    {
        Request::Inherit { program: self.ostree_bin.clone(), args }
    }

    /// Everything the installation does, in order.
    fn requests(&self) -> (v: Vec<Request>)
        ensures
            requests_of(v@) == plan(self@),
    {
        let repo = self.repo();
        let refspec = self.refspec();
        let mut v: Vec<Request> = Vec::new();
        v.push(Request::Log { line: "Initializing ostree sysroot".to_string() });
        v.push(self.run_ostree(init_fs_args(&self.target)));
        v.push(
            Request::Log { line: cat3("Adding signature-verified remote '", &self.remote, "'") },
        );
        v.push(
            self.run_ostree(
                remote_add_args(
                    &repo,
                    &self.remote,
                    &self.url,
                    match &self.pubkey {
                        Some(key) => Some(key.as_str()),
                        None => None,
                    },
                ),
            ),
        );
        v.push(Request::Log { line: cat3("Pulling ", &refspec, " (signature-verified)") });
        v.push(self.run_ostree(pull_args(&repo, &self.remote, &self.branch)));
        v.push(Request::Log { line: cat3("Initializing stateroot '", &self.os, "'") });
        v.push(self.run_ostree(stateroot_init_args(&self.target, &self.os)));
        v.push(Request::Log { line: "Deploying initial commit".to_string() });
        v.push(
            self.run_ostree(deploy_args(&self.target, &self.os, &refspec, self.kargs.as_slice())),
        );
        assert(requests_of(v@) =~= plan(self@));
        v
    }

    /// init-fs, add verified remote, pull (verified), stateroot-init, deploy. The
    /// progress lines come as requests of their own.
    pub fn run(&self, replies: &[Reply]) -> (step: Step<()>)
        ensures
            step@ == install_step(self@, exchange::history(replies@)),
    {
        let mut requests = self.requests();
        let ghost all = plan(self@);
        let ghost h = exchange::history(replies@);
        let mut k: usize = 0;
        while k < requests.len()
            invariant
                k <= requests.len(),
                all == requests_of(requests@),
                h == exchange::history(replies@),
                work_step(all, h, 0) == work_step(all, h, k as int),
                all == plan(self@),
            decreases requests.len() - k,
        {
            assert(all[k as int] == requests@[k as int]@);
            if k >= replies.len() {
                return Step::Ask(requests.swap_remove(k));
            }
            assert(h[k as int] == replies@[k as int]@);
            match run_error(&requests[k], &replies[k]) {
                Some(e) => return Step::Done(Err(e)),
                None => {},
            }
            k = k + 1;
        }
        Step::Done(Ok(()))
    }
}

/// The error that a reply to a request means, if it means one.
fn run_error(request: &Request, reply: &Reply) -> (r: Option<UpdateError>)
    ensures
        match r {
            Some(e) => request_error(request@, reply@) == Some(e@),
            None => request_error(request@, reply@) is None,
        },
{
    match request {
        Request::Inherit { program, args } => match reply.inherited(program, copied(args)) {
            Ok(()) => None,
            Err(e) => Some(e),
        },
        _ => None,
    }
}

/// A copy of some texts.
fn copied(v: &Vec<String>) -> (r: Vec<String>)
    ensures
        text::texts(r@) == text::texts(v@),
{
    let mut r: Vec<String> = Vec::new();
    let mut i: usize = 0;
    while i < v.len()
        invariant
            i <= v.len(),
            r@ == v@.take(i as int),
        decreases v.len() - i,
    {
        r.push(v[i].clone());
        i = i + 1;
        assert(r@ =~= v@.take(i as int));
    }
    assert(v@.take(i as int) =~= v@);
    r
}

/// Initialise the file system of a target.
pub fn init_fs_args(target: &str) -> (v: Vec<String>)
    ensures
        text::texts(v@) == init_fs_line(target@),
{
    let v = command(&["admin", "init-fs", "--modern", target]);
    assert(text::texts(v@) =~= init_fs_line(target@));
    v
}

/// Initialise a stateroot on a target.
pub fn stateroot_init_args(target: &str, os: &str) -> (v: Vec<String>)
    ensures
        text::texts(v@) == stateroot_init_line(target@, os@),
{
    let sysroot = cat("--sysroot=", target);
    let v = command(&["admin", "stateroot-init", sysroot.as_str(), os]);
    assert(text::texts(v@) =~= stateroot_init_line(target@, os@));
    v
}

/// Add a remote. Always sets `sign-verify=true`; adds the inline ed25519 key when
/// provided.
pub fn remote_add_args(repo: &str, remote: &str, url: &str, pubkey: Option<&str>) -> (v: Vec<
    String,
>)
    ensures
        text::texts(v@) == remote_add_line(
            repo@,
            remote@,
            url@,
            match pubkey {
                Some(key) => Some(key@),
                None => None,
            },
        ),
{
    let repo_arg = cat("--repo=", repo);
    let verify = cat3("--set=", SIGN_VERIFY, "=true");
    match pubkey {
        Some(key) => {
            let set_key = cat3("--set=", ED25519_KEY, "=").concat(&trim_of(key));
            let v = command(
                &[
                    repo_arg.as_str(),
                    "remote",
                    "add",
                    "--if-not-exists",
                    verify.as_str(),
                    set_key.as_str(),
                    remote,
                    url,
                ],
            );
            assert(text::texts(v@) =~= remote_add_line(repo@, remote@, url@, Some(key@)));
            v
        },
        None => {
            let v = command(
                &[
                    repo_arg.as_str(),
                    "remote",
                    "add",
                    "--if-not-exists",
                    verify.as_str(),
                    remote,
                    url,
                ],
            );
            assert(text::texts(v@) =~= remote_add_line(repo@, remote@, url@, None));
            v
        },
    }
}

/// Pull a branch from a remote.
pub fn pull_args(repo: &str, remote: &str, branch: &str) -> (v: Vec<String>)
    ensures
        text::texts(v@) == pull_line(repo@, remote@, branch@),
{
    let repo_arg = cat("--repo=", repo);
    let v = command(&[repo_arg.as_str(), "pull", remote, branch]);
    assert(text::texts(v@) =~= pull_line(repo@, remote@, branch@));
    v
}

/// Deploy a refspec onto a target, with kernel arguments.
pub fn deploy_args(target: &str, os: &str, refspec: &str, kargs: &[String]) -> (v: Vec<String>)
    ensures
        text::texts(v@) == deploy_line(target@, os@, refspec@, text::texts(kargs@)),
{
    let ghost goal = deploy_line(target@, os@, refspec@, text::texts(kargs@));
    let sysroot = cat("--sysroot=", target);
    let os_arg = cat("--os=", os);
    let mut v = command(&["admin", "deploy", sysroot.as_str(), os_arg.as_str()]);
    let mut i: usize = 0;
    assert(text::texts(v@) =~= goal.take(4));
    while i < kargs.len()
        invariant
            i <= kargs.len(),
            goal == deploy_line(target@, os@, refspec@, text::texts(kargs@)),
            text::texts(v@) == goal.take(i as int + 4),
        decreases kargs.len() - i,
    {
        let ghost before = text::texts(v@);
        v.push(cat("--karg=", &kargs[i]));
        assert(text::texts(v@) =~= before.push("--karg="@ + kargs@[i as int]@));
        assert(goal[i as int + 4] == "--karg="@ + kargs@[i as int]@);
        i = i + 1;
        assert(text::texts(v@) =~= goal.take(i as int + 4));
    }
    let ghost before = text::texts(v@);
    v.push(refspec.to_string());
    assert(text::texts(v@) =~= before.push(refspec@));
    assert(text::texts(v@) =~= goal);
    v
}

} // verus!
