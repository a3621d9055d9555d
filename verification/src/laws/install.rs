//! What an installation does, and in which order.

use crate::exchange;
use crate::exchange::{ReplyView, RequestView, StepView};
use crate::install;
use crate::install::InstallView;
use crate::path;
use crate::text;
use vstd::prelude::*;

verus! {

/// A remote is never created without verification: whatever the parameters, the
/// command that adds it sets `sign-verify=true`.
pub proof fn law_remote_add_always_verifies(
    repo: Seq<char>,
    remote: Seq<char>,
    url: Seq<char>,
    pubkey: Option<Seq<char>>,
)
    ensures
        install::remote_add_line(repo, remote, url, pubkey).contains("--set=sign-verify=true"@),
        install::remote_add_line(repo, remote, url, pubkey)[4] == "--set=sign-verify=true"@,
{
    reveal_strlit("--set=");
    reveal_strlit("sign-verify");
    reveal_strlit("=true");
    reveal_strlit("--set=sign-verify=true");
    assert(install::verify_flag() =~= "--set=sign-verify=true"@);
    let line = install::remote_add_line(repo, remote, url, pubkey);
    assert(line[4] == install::verify_flag());
}

/// A key is set exactly where one is given: with a key, its trimmed text follows
/// `sign-verify=true`; without one, no flag that names a verification key precedes
/// the remote and its URL.
pub proof fn law_remote_add_carries_the_key(
    repo: Seq<char>,
    remote: Seq<char>,
    url: Seq<char>,
    pubkey: Option<Seq<char>>,
)
    ensures
        ({
            let line = install::remote_add_line(repo, remote, url, pubkey);
            let n = line.len() as int;
            &&& line[n - 2] == remote
            &&& line[n - 1] == url
            &&& match pubkey {
                Some(key) => n == 8 && line[5] == "--set=verification-ed25519-key="@ + text::trim(
                    key,
                ),
                None => n == 7 && forall|i: int|
                    0 <= i < n - 2 ==> !text::starts_with(
                        #[trigger] line[i],
                        "--set=verification-"@,
                    ),
            }
        }),
{
    reveal_strlit("--set=");
    reveal_strlit("sign-verify");
    reveal_strlit("=true");
    reveal_strlit("verification-ed25519-key");
    reveal_strlit("=");
    reveal_strlit("--set=verification-ed25519-key=");
    reveal_strlit("--set=verification-");
    reveal_strlit("--repo=");
    reveal_strlit("remote");
    reveal_strlit("add");
    reveal_strlit("--if-not-exists");
    let line = install::remote_add_line(repo, remote, url, pubkey);
    let p = "--set=verification-"@;
    match pubkey {
        Some(key) => {
            assert(line[5] =~= "--set=verification-ed25519-key="@ + text::trim(key));
        },
        None => {
            assert forall|i: int| 0 <= i < line.len() - 2 implies !text::starts_with(
                #[trigger] line[i],
                p,
            ) by {
                if text::starts_with(line[i], p) {
                    assert(line[i].take(p.len() as int)[0] == p[0]);
                    assert(line[i].take(p.len() as int)[2] == p[2]);
                    assert(line[i].take(p.len() as int)[6] == p[6]);
                    if i == 0 {
                        assert(line[0][2] == "--repo="@[2]);
                    } else if i == 4 {
                        assert(line[4] == install::verify_flag());
                        assert(line[4][6] == "sign-verify"@[0]);
                    }
                }
            }
        },
    }
}

/// The deploy command passes every kernel argument, in order, and the refspec last.
pub proof fn law_deploy_passes_kargs_and_refspec_last(
    target: Seq<char>,
    os: Seq<char>,
    refspec: Seq<char>,
    kargs: Seq<Seq<char>>,
)
    ensures
        ({
            let line = install::deploy_line(target, os, refspec, kargs);
            &&& line.len() == kargs.len() + 5
            &&& line[3] == "--os="@ + os
            &&& forall|j: int|
                0 <= j < kargs.len() ==> #[trigger] line[j + 4] == "--karg="@ + kargs[j]
            &&& line.last() == refspec
        }),
{
}

proof fn lemma_work_reached(
    requests: Seq<RequestView>,
    h: Seq<ReplyView>,
    k: int,
)
    requires
        0 <= k <= requests.len(),
    ensures
        match install::work_step(requests, h, k) {
            StepView::Ask(r) => k <= h.len() ==> {
                &&& h.len() < requests.len()
                &&& r == requests[h.len() as int]
                &&& forall|j: int|
                    k <= j < h.len() ==> install::request_error(
                        #[trigger] requests[j],
                        h[j],
                    ) is None
            },
            StepView::Done(Ok(())) => h.len() >= requests.len() || k == requests.len(),
            StepView::Done(Err(e)) => exists|j: int|
                k <= j < h.len() && j < requests.len() && install::request_error(
                    #[trigger] requests[j],
                    h[j],
                ) == Some(e),
        },
    decreases requests.len() - k,
{
    if k < requests.len() && k < h.len() {
        if install::request_error(requests[k], h[k]) is None {
            lemma_work_reached(requests, h, k + 1);
        }
    }
}

/// An installation asks for one thing after the other, in the order of its plan,
/// and goes on only while no command failed.
pub proof fn law_install_follows_the_plan(i: InstallView, h: Seq<ReplyView>, r: RequestView)
    requires
        install::install_step(i, h) == StepView::<()>::Ask(r),
    ensures
        h.len() < install::plan(i).len(),
        r == install::plan(i)[h.len() as int],
        forall|j: int|
            0 <= j < h.len() ==> install::request_error(
                #[trigger] install::plan(i)[j],
                h[j],
            ) is None,
{
    lemma_work_reached(install::plan(i), h, 0);
}

/// The first four requests of an installation run nothing but the initialisation
/// of the file system and the addition of the remote; what comes later comes after
/// that addition succeeded.
proof fn lemma_remote_comes_first(i: InstallView, h: Seq<ReplyView>, args: Seq<Seq<char>>)
    requires
        install::install_step(i, h) == StepView::<()>::Ask(install::ostree_request(i, args)),
    ensures
        h.len() < 4 ==> args == install::init_fs_line(i.target) || args == install::remote_add_line(
            path::repo(i.target),
            i.remote,
            i.url,
            i.pubkey,
        ),
        h.len() >= 4 ==> remote_was_added(i, h),
{
    law_install_follows_the_plan(i, h, install::ostree_request(i, args));
    if h.len() >= 4 {
        assert(install::request_error(install::plan(i)[3], h[3]) is None);
    }
}

/// Whether the fourth request, the addition of the verified remote, succeeded.
pub open spec fn remote_was_added(i: InstallView, h: Seq<ReplyView>) -> bool {
    &&& h.len() >= 4
    &&& install::plan(i)[3] == install::ostree_request(
        i,
        install::remote_add_line(path::repo(i.target), i.remote, i.url, i.pubkey),
    )
    &&& h[3] matches ReplyView::Exited { success, .. } && success
}

/// The very first pull is verified: it is asked for only after the remote was
/// added, by the command that always turns verification on.
pub proof fn law_pull_only_after_the_verified_remote(i: InstallView, h: Seq<ReplyView>)
    requires
        install::install_step(i, h) == StepView::<()>::Ask(
            install::ostree_request(
                i,
                install::pull_line(path::repo(i.target), i.remote, i.branch),
            ),
        ),
    ensures
        remote_was_added(i, h),
{
    let args = install::pull_line(path::repo(i.target), i.remote, i.branch);
    lemma_remote_comes_first(i, h, args);
    reveal_strlit("--repo=");
    reveal_strlit("admin");
    let add = install::remote_add_line(path::repo(i.target), i.remote, i.url, i.pubkey);
    assert(add.len() >= 7);
    assert(args.len() == 4);
    assert(args[0][0] == '-');
    assert(install::init_fs_line(i.target)[0][0] == 'a');
}

/// Nothing is deployed before that either.
pub proof fn law_deploy_only_after_the_verified_remote(i: InstallView, h: Seq<ReplyView>)
    requires
        install::install_step(i, h) == StepView::<()>::Ask(
            install::ostree_request(
                i,
                install::deploy_line(i.target, i.os, install::install_refspec(i), i.kargs),
            ),
        ),
    ensures
        remote_was_added(i, h),
{
    let args = install::deploy_line(i.target, i.os, install::install_refspec(i), i.kargs);
    lemma_remote_comes_first(i, h, args);
    reveal_strlit("--repo=");
    reveal_strlit("admin");
    let add = install::remote_add_line(path::repo(i.target), i.remote, i.url, i.pubkey);
    assert(args.len() >= 5);
    assert(install::init_fs_line(i.target).len() == 4);
    assert(add[0][0] == '-');
    assert(args[0][0] == 'a');
}

proof fn lemma_work_goes_on(requests: Seq<RequestView>, h: Seq<ReplyView>, k: int)
    requires
        0 <= k <= requests.len(),
        k <= h.len(),
        forall|j: int|
            k <= j < h.len() && j < requests.len() ==> install::request_error(
                #[trigger] requests[j],
                h[j],
            ) is None,
    ensures
        h.len() < requests.len() ==> install::work_step(requests, h, k) == StepView::<()>::Ask(
            requests[h.len() as int],
        ),
        h.len() >= requests.len() ==> install::work_step(requests, h, k) == StepView::<()>::Done(
            Ok(()),
        ),
    decreases requests.len() - k,
{
    if k < requests.len() && k < h.len() {
        lemma_work_goes_on(requests, h, k + 1);
    }
}

/// Whether a reply says that a program ended with success.
pub open spec fn succeeded(reply: ReplyView) -> bool {
    reply matches ReplyView::Exited { success, .. } && success
}

/// Whether every command among the first `k` requests of an installation succeeded.
/// Progress lines and commands take turns.
pub open spec fn went_well(h: Seq<ReplyView>, k: int) -> bool {
    forall|j: int| 0 <= j < k && j < h.len() && j % 2 == 1 ==> succeeded(#[trigger] h[j])
}

/// A live `ostree` run with these arguments.
pub open spec fn runs(i: InstallView, args: Seq<Seq<char>>) -> StepView<()> {
    StepView::Ask(RequestView::Inherit { program: i.ostree_bin, args })
}

/// A progress line.
pub open spec fn says(line: Seq<char>) -> StepView<()> {
    StepView::Ask(RequestView::Log { line })
}

/// As long as every command succeeds, an installation initialises the file system,
/// adds the verified remote, pulls the branch from it, initialises the stateroot and
/// deploys what was pulled, whatever its parameters: this very command each time, in
/// this order, and each announced first. Then it is over.
pub proof fn law_install_in_order(i: InstallView, h: Seq<ReplyView>)
    requires
        went_well(h, 10),
    ensures
        ({
            let step = install::install_step(i, h);
            let repo = "--repo="@ + path::repo(i.target);
            let sysroot = "--sysroot="@ + i.target;
            let refspec = i.remote + ":"@ + i.branch;
            &&& h.len() == 0 ==> step == says("Initializing ostree sysroot"@)
            &&& h.len() == 1 ==> step == runs(
                i,
                seq!["admin"@, "init-fs"@, "--modern"@, i.target],
            )
            &&& h.len() == 2 ==> step == says(
                "Adding signature-verified remote '"@ + i.remote + "'"@,
            )
            &&& h.len() == 3 ==> step == runs(
                i,
                match i.pubkey {
                    Some(key) => seq![
                        repo,
                        "remote"@,
                        "add"@,
                        "--if-not-exists"@,
                        "--set=sign-verify=true"@,
                        "--set=verification-ed25519-key="@ + text::trim(key),
                        i.remote,
                        i.url,
                    ],
                    None => seq![
                        repo,
                        "remote"@,
                        "add"@,
                        "--if-not-exists"@,
                        "--set=sign-verify=true"@,
                        i.remote,
                        i.url,
                    ],
                },
            )
            &&& h.len() == 4 ==> step == says("Pulling "@ + refspec + " (signature-verified)"@)
            &&& h.len() == 5 ==> step == runs(i, seq![repo, "pull"@, i.remote, i.branch])
            &&& h.len() == 6 ==> step == says("Initializing stateroot '"@ + i.os + "'"@)
            &&& h.len() == 7 ==> step == runs(i, seq!["admin"@, "stateroot-init"@, sysroot, i.os])
            &&& h.len() == 8 ==> step == says("Deploying initial commit"@)
            &&& h.len() == 9 ==> step == runs(
                i,
                seq!["admin"@, "deploy"@, sysroot, "--os="@ + i.os] + Seq::new(
                    i.kargs.len(),
                    |k: int| "--karg="@ + i.kargs[k],
                ) + seq![refspec],
            )
            &&& h.len() >= 10 ==> step == StepView::<()>::Done(Ok(()))
        }),
{
    let plan = install::plan(i);
    assert forall|j: int| 0 <= j < h.len() && j < plan.len() implies install::request_error(
        #[trigger] plan[j],
        h[j],
    ) is None by {
        if j % 2 == 1 {
            assert(succeeded(h[j]));
        }
    }
    lemma_work_goes_on(plan, h, 0);
    let repo = path::repo(i.target);
    law_remote_add_always_verifies(repo, i.remote, i.url, i.pubkey);
    law_remote_add_carries_the_key(repo, i.remote, i.url, i.pubkey);
    let add = install::remote_add_line(repo, i.remote, i.url, i.pubkey);
    match i.pubkey {
        Some(key) => {
            assert(add =~= seq![
                "--repo="@ + repo,
                "remote"@,
                "add"@,
                "--if-not-exists"@,
                "--set=sign-verify=true"@,
                "--set=verification-ed25519-key="@ + text::trim(key),
                i.remote,
                i.url,
            ]);
        },
        None => {
            assert(add =~= seq![
                "--repo="@ + repo,
                "remote"@,
                "add"@,
                "--if-not-exists"@,
                "--set=sign-verify=true"@,
                i.remote,
                i.url,
            ]);
        },
    }
    assert(i.kargs.map_values(|k: Seq<char>| "--karg="@ + k) =~= Seq::new(
        i.kargs.len(),
        |k: int| "--karg="@ + i.kargs[k],
    ));
}

/// The first command of an installation that does not succeed ends it, with the error
/// for that command, whatever came in later; progress lines never do.
pub proof fn law_install_stops_at_the_first_failure(
    i: InstallView,
    h: Seq<ReplyView>,
    program: Seq<char>,
    args: Seq<Seq<char>>,
    reply: ReplyView,
    more: Seq<ReplyView>,
)
    requires
        install::install_step(i, h) == StepView::<()>::Ask(
            RequestView::Inherit { program, args },
        ),
    ensures
        exchange::inherited(program, args, reply) matches Err(e) ==> install::install_step(
            i,
            h.push(reply) + more,
        ) == StepView::<()>::Done(Err(e)),
        succeeded(reply) ==> !(install::install_step(i, h.push(reply)) matches StepView::Done(
            Err(_),
        )),
{
    law_install_follows_the_plan(i, h, RequestView::Inherit { program, args });
    let plan = install::plan(i);
    let all = h.push(reply) + more;
    lemma_work_fails_at(plan, all, 0, h.len() as int);
    lemma_work_fails_at(plan, h.push(reply), 0, h.len() as int);
    if succeeded(reply) {
        lemma_work_goes_on(plan, h.push(reply), 0);
    }
}

proof fn lemma_work_fails_at(requests: Seq<RequestView>, h: Seq<ReplyView>, k: int, at: int)
    requires
        0 <= k <= at < requests.len(),
        at < h.len(),
        forall|j: int|
            k <= j < at ==> install::request_error(#[trigger] requests[j], h[j]) is None,
    ensures
        install::request_error(requests[at], h[at]) matches Some(e) ==> install::work_step(
            requests,
            h,
            k,
        ) == StepView::<()>::Done(Err(e)),
    decreases at - k,
{
    if k < at {
        lemma_work_fails_at(requests, h, k + 1, at);
    }
}

/// Nothing is deployed before it was pulled: whatever the parameters, an installation
/// asks for the deployment only after it asked for the pull of the very branch from
/// the very remote and then for the stateroot, and both succeeded.
pub proof fn law_deploy_only_after_pull_and_stateroot(
    i: InstallView,
    h: Seq<ReplyView>,
    args: Seq<Seq<char>>,
)
    requires
        install::install_step(i, h) == runs(i, args),
        args.len() > 1,
        args[1] == "deploy"@,
    ensures
        h.len() == 9,
        install::install_step(i, h.take(3)) == runs(
            i,
            install::remote_add_line(path::repo(i.target), i.remote, i.url, i.pubkey),
        ),
        succeeded(h[3]),
        install::install_step(i, h.take(5)) == runs(
            i,
            seq!["--repo="@ + path::repo(i.target), "pull"@, i.remote, i.branch],
        ),
        succeeded(h[5]),
        install::install_step(i, h.take(7)) == runs(
            i,
            seq!["admin"@, "stateroot-init"@, "--sysroot="@ + i.target, i.os],
        ),
        succeeded(h[7]),
{
    let plan = install::plan(i);
    law_install_follows_the_plan(i, h, RequestView::Inherit { program: i.ostree_bin, args });
    reveal_strlit("deploy");
    reveal_strlit("init-fs");
    reveal_strlit("remote");
    reveal_strlit("pull");
    reveal_strlit("stateroot-init");
    let n = h.len() as int;
    assert("deploy"@.len() == 6 && "init-fs"@.len() == 7 && "pull"@.len() == 4);
    assert("stateroot-init"@.len() == 14);
    assert("remote"@[0] == 'r' && "deploy"@[0] == 'd');
    assert(plan[n] is Inherit);
    assert(n == 9);
    assert forall|j: int| 0 <= j < h.len() && j % 2 == 1 implies succeeded(#[trigger] h[j]) by {
        assert(install::request_error(plan[j], h[j]) is None);
    }
    assert forall|k: int| 0 <= k <= n implies went_well(#[trigger] h.take(k), 10) by {
        assert forall|j: int| 0 <= j < 10 && j < h.take(k).len() && j % 2 == 1 implies succeeded(
            #[trigger] h.take(k)[j],
        ) by {
            assert(h.take(k)[j] == h[j]);
        }
    }
    assert(went_well(h.take(5), 10) && went_well(h.take(7), 10));
    law_install_in_order(i, h.take(5));
    law_install_in_order(i, h.take(7));
    assert forall|j: int| 0 <= j < 3 implies install::request_error(
        #[trigger] plan[j],
        h.take(3)[j],
    ) is None by {
        assert(h.take(3)[j] == h[j]);
    }
    lemma_work_goes_on(plan, h.take(3), 0);
}

/// An installation ends with success only after every command of its plan
/// succeeded, and with an error only after one failed.
pub proof fn law_install_result(i: InstallView, h: Seq<ReplyView>)
    ensures
        h.len() >= 10 ==> install::install_step(i, h) is Done,
        install::install_step(i, h) == StepView::<()>::Done(Ok(())) ==> h.len() >= 10 && forall|
            j: int,
        |
            0 <= j < 10 ==> install::request_error(#[trigger] install::plan(i)[j], h[j]) is None,
        install::install_step(i, h) matches StepView::Done(Err(e)) ==> exists|j: int|
            0 <= j < h.len() && j < 10 && install::request_error(
                #[trigger] install::plan(i)[j],
                h[j],
            ) == Some(e),
{
    lemma_work_reached(install::plan(i), h, 0);
    lemma_work_done(install::plan(i), h, 0);
}

proof fn lemma_work_done(requests: Seq<RequestView>, h: Seq<ReplyView>, k: int)
    requires
        0 <= k <= requests.len(),
    ensures
        install::work_step(requests, h, k) == StepView::<()>::Done(Ok(())) ==> forall|j: int|
            k <= j < requests.len() ==> install::request_error(#[trigger] requests[j], h[j]) is None,
    decreases requests.len() - k,
{
    if k < requests.len() && k < h.len() {
        if install::request_error(requests[k], h[k]) is None {
            lemma_work_done(requests, h, k + 1);
        }
    }
}

proof fn lemma_work_final(
    requests: Seq<RequestView>,
    h: Seq<ReplyView>,
    more: Seq<ReplyView>,
    k: int,
)
    requires
        0 <= k <= requests.len(),
        install::work_step(requests, h, k) is Done,
    ensures
        install::work_step(requests, h + more, k) == install::work_step(requests, h, k),
    decreases requests.len() - k,
{
    if k < requests.len() && k < h.len() {
        assert((h + more)[k] == h[k]);
        if install::request_error(requests[k], h[k]) is None {
            lemma_work_final(requests, h, more, k + 1);
        }
    }
}

/// The result of an installation is final: after a failure nothing more is done,
/// whatever comes in.
pub proof fn law_install_result_is_final(i: InstallView, h: Seq<ReplyView>, more: Seq<ReplyView>)
    requires
        install::install_step(i, h) is Done,
    ensures
        install::install_step(i, h + more) == install::install_step(i, h),
{
    lemma_work_final(install::plan(i), h, more, 0);
}

} // verus!
