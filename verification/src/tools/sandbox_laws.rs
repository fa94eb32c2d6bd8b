//! What paths lead to, what a policy lets a command touch, and how the end of a command is taken.

use crate::text::trimmed;
use crate::tools::kernel_ops::{KernelOp, KernelOpsPolicyView};
use crate::tools::path::{
    climbed, ended_parts, is_absolute, is_part, last_start, path_parts, starts_with, with_part,
};
use crate::tools::sandbox::{
    access_of, ascii_lower, default_policy, filesystem_checked, holds_phrase, normal_parts,
    phrase_at, request_checked, scoped_parts, status_classified, workspace_policy,
    FilesystemAccess, FilesystemPolicyView, IdentityIsolation, NetworkAccess, SandboxErrorView,
    SandboxPolicyView, SandboxRequestView, SandboxStatusView,
};
use crate::tools::windows_fake::fake_output;
use vstd::prelude::*;

verus! {

proof fn lemma_last(path: Seq<char>, part: Seq<char>)
    requires
        !part.contains('/'),
    ensures
        last_start(path.push('/') + part) == path.len() + 1,
        ended_parts(path.push('/') + part) == path_parts(path),
    decreases part.len(),
{
    let whole = path.push('/') + part;
    if part.len() == 0 {
        assert(whole =~= path.push('/'));
        assert(whole.drop_last() =~= path);
    } else {
        let init = part.drop_last();
        assert(!init.contains('/')) by {
            if init.contains('/') {
                let i = choose|i: int| 0 <= i < init.len() && init[i] == '/';
                assert(part[i] == '/');
            }
        }
        lemma_last(path, init);
        assert(whole.drop_last() =~= path.push('/') + init);
        assert(whole.last() == part.last());
        assert(part.contains(part[part.len() - 1]));
    }
}

/// The components of a path that goes on behind a slash: those of the path, and the one behind, unless
/// it is empty or a dot.
pub proof fn law_path_goes_on_behind_a_slash(path: Seq<char>, part: Seq<char>)
    requires
        !part.contains('/'),
    ensures
        part.len() > 0 && part != seq!['.'] ==> path_parts(path.push('/') + part) == path_parts(
            path,
        ).push(part),
        part.len() == 0 || part == seq!['.'] ==> path_parts(path.push('/') + part) == path_parts(
            path,
        ),
        path_parts(part) == if part.len() > 0 && part != seq!['.'] {
            seq![part]
        } else {
            seq![]
        },
{
    reveal_strlit(".");
    assert("."@ =~= seq!['.']);
    lemma_last(path, part);
    let whole = path.push('/') + part;
    assert(whole.skip(path.len() as int + 1) =~= part);
    lemma_alone(part);
    assert(part.skip(0) =~= part);
    assert(Seq::<Seq<char>>::empty().push(part) =~= seq![part]);
}

proof fn lemma_alone(part: Seq<char>)
    requires
        !part.contains('/'),
    ensures
        last_start(part) == 0,
        ended_parts(part) == Seq::<Seq<char>>::empty(),
    decreases part.len(),
{
    if part.len() > 0 {
        let init = part.drop_last();
        assert(!init.contains('/')) by {
            if init.contains('/') {
                let i = choose|i: int| 0 <= i < init.len() && init[i] == '/';
                assert(part[i] == '/');
            }
        }
        lemma_alone(init);
        assert(part.contains(part[part.len() - 1]));
    }
}

/// A path leads one level down with a name, one level up with two dots, and stays with one dot or
/// nothing; above the root there is nothing, and such a path is refused.
pub proof fn law_path_leads_up_and_down(path: Seq<char>, name: Seq<char>)
    requires
        is_absolute(path),
        !name.contains('/'),
    ensures
        normal_parts(path) matches Ok(parts) ==> {
            let next = normal_parts(path.push('/') + name);
            if name.len() == 0 || name == seq!['.'] {
                next == Ok::<Seq<Seq<char>>, SandboxErrorView>(parts)
            } else if name == seq!['.', '.'] {
                if parts.len() == 0 {
                    next is Err
                } else {
                    next == Ok::<Seq<Seq<char>>, SandboxErrorView>(parts.drop_last())
                }
            } else {
                next == Ok::<Seq<Seq<char>>, SandboxErrorView>(parts.push(name))
            }
        },
        normal_parts(path) is Err ==> normal_parts(path.push('/') + name) is Err,
{
    reveal_strlit("..");
    assert(".."@ =~= seq!['.', '.']);
    law_path_goes_on_behind_a_slash(path, name);
    let whole = path.push('/') + name;
    assert(whole[0] == path[0]);
    let parts = path_parts(path);
    assert(parts.push(name).drop_last() =~= parts);
    assert(seq!['.', '.'].len() != seq!['.'].len());
}

/// A path must begin at the root, and the root has no components.
pub proof fn law_paths_begin_at_the_root(path: Seq<char>)
    ensures
        path.len() == 0 || path[0] != '/' ==> normal_parts(path) is Err,
        normal_parts(seq!['/']) == Ok::<Seq<Seq<char>>, SandboxErrorView>(seq![]),
{
    let none = Seq::<char>::empty();
    assert(!none.contains('/'));
    law_path_goes_on_behind_a_slash(none, none);
    assert(none.push('/') + none =~= seq!['/']);
}

proof fn lemma_parts_are_parts(path: Seq<char>)
    ensures
        forall|i: int| 0 <= i < path_parts(path).len() ==> is_part(#[trigger] path_parts(path)[i]),
        forall|i: int| 0 <= i < ended_parts(path).len() ==> is_part(#[trigger] ended_parts(path)[i]),
        0 <= last_start(path) <= path.len(),
        !path.skip(last_start(path)).contains('/'),
    decreases path.len(),
{
    if path.len() > 0 {
        let init = path.drop_last();
        lemma_parts_are_parts(init);
        let tail = path.skip(last_start(path));
        if path.last() == '/' {
            assert(tail.len() == 0);
            assert(ended_parts(path) == path_parts(init));
        } else {
            assert(ended_parts(path) == ended_parts(init));
            assert(tail =~= init.skip(last_start(init)).push(path.last()));
            if tail.contains('/') {
                let i = choose|i: int| 0 <= i < tail.len() && tail[i] == '/';
                if i < tail.len() - 1 {
                    assert(init.skip(last_start(init))[i] == '/');
                }
            }
        }
        let ended = ended_parts(path);
        assert forall|i: int| 0 <= i < ended.len() implies is_part(#[trigger] ended[i]) by {
            if path.last() == '/' {
                assert(is_part(path_parts(init)[i]));
            } else {
                assert(is_part(ended_parts(init)[i]));
            }
        }
        let parts = path_parts(path);
        assert(parts == with_part(ended, tail));
        assert forall|i: int| 0 <= i < parts.len() implies is_part(#[trigger] parts[i]) by {
            if i < ended.len() {
                assert(parts[i] == ended[i]);
            } else {
                assert(parts[i] == tail);
            }
        }
    }
}

proof fn lemma_climbed(parts: Seq<Seq<char>>)
    requires
        forall|i: int| 0 <= i < parts.len() ==> is_part(#[trigger] parts[i]),
    ensures
        climbed(parts) matches Some(done) ==> forall|i: int|
            0 <= i < done.len() ==> is_part(#[trigger] done[i]) && done[i] != ".."@,
    decreases parts.len(),
{
    if parts.len() > 0 {
        let init = parts.drop_last();
        assert forall|i: int| 0 <= i < init.len() implies is_part(#[trigger] init[i]) by {
            assert(init[i] == parts[i]);
        }
        lemma_climbed(init);
        assert(is_part(parts[parts.len() - 1]));
    }
}

/// The components that a path leads through are names: none is empty, a dot or two dots, and none
/// holds a slash.
pub proof fn law_components_are_names(path: Seq<char>)
    ensures
        normal_parts(path) matches Ok(parts) ==> forall|i: int|
            #![trigger parts[i]]
            0 <= i < parts.len() ==> parts[i].len() > 0 && parts[i] != seq!['.'] && parts[i]
                != seq!['.', '.'] && !parts[i].contains('/'),
{
    reveal_strlit(".");
    reveal_strlit("..");
    assert("."@ =~= seq!['.']);
    assert(".."@ =~= seq!['.', '.']);
    lemma_parts_are_parts(path);
    lemma_climbed(path_parts(path));
}

/// A place lies at or below another one.
pub open spec fn lies_in(place: Seq<Seq<char>>, base: Seq<Seq<char>>) -> bool {
    exists|rest: Seq<Seq<char>>| #[trigger] (base + rest) == place
}

proof fn lemma_lies_in(place: Seq<Seq<char>>, base: Seq<Seq<char>>)
    ensures
        starts_with(place, base) <==> lies_in(place, base),
{
    if starts_with(place, base) {
        let rest = place.skip(base.len() as int);
        assert(base + rest =~= place);
    }
    if lies_in(place, base) {
        let rest = choose|rest: Seq<Seq<char>>| #[trigger] (base + rest) == place;
        assert(place.take(base.len() as int) =~= base);
    }
}

/// A workspace can be scoped where what is visible of it lies in it, and the components of both are
/// kept.
pub proof fn law_visible_part_lies_in_the_workspace(base: Seq<char>, visible: Seq<char>)
    ensures
        match scoped_parts(base, visible) {
            Ok((outer, inner)) => normal_parts(base) == Ok::<Seq<Seq<char>>, SandboxErrorView>(
                outer,
            ) && normal_parts(visible) == Ok::<Seq<Seq<char>>, SandboxErrorView>(inner) && lies_in(
                inner,
                outer,
            ),
            Err(_) => normal_parts(base) is Err || normal_parts(visible) is Err || !lies_in(
                normal_parts(visible)->Ok_0,
                normal_parts(base)->Ok_0,
            ),
        },
{
    if normal_parts(base) is Ok && normal_parts(visible) is Ok {
        lemma_lies_in(normal_parts(visible)->Ok_0, normal_parts(base)->Ok_0);
    }
}

/// A command can do with a path what the policy says: nothing without a filesystem, everything with
/// that of the host, and in a workspace what it was given where the path lies in the visible part,
/// nothing in the rest of the workspace, and no more than read elsewhere.
pub proof fn law_access_is_decided_by_the_place(policy: FilesystemPolicyView, path: Seq<char>)
    requires
        normal_parts(path) is Ok,
        filesystem_checked(policy) is Ok,
    ensures
        ({
            let place = normal_parts(path)->Ok_0;
            access_of(policy, path) == Ok::<FilesystemAccess, SandboxErrorView>(
                match policy {
                    FilesystemPolicyView::Isolated => FilesystemAccess::Denied,
                    FilesystemPolicyView::Host => FilesystemAccess::ReadWrite,
                    FilesystemPolicyView::WorkspaceScoped { base, visible, access } => if lies_in(
                        place,
                        path_parts(visible),
                    ) {
                        access
                    } else if lies_in(place, path_parts(base)) {
                        FilesystemAccess::Denied
                    } else {
                        FilesystemAccess::ReadOnly
                    },
                },
            )
        }),
{
    if policy is WorkspaceScoped {
        let place = normal_parts(path)->Ok_0;
        lemma_lies_in(place, path_parts(policy->WorkspaceScoped_visible));
        lemma_lies_in(place, path_parts(policy->WorkspaceScoped_base));
    }
}

/// A request is valid where it names a program, works in an absolute directory, and what is visible
/// of its workspace, if it has one, lies in it.
pub proof fn law_request_is_valid(request: SandboxRequestView)
    ensures
        request_checked(request) is Ok <==> {
            &&& request.program.len() > 0
            &&& request.cwd.len() > 0 && request.cwd[0] == '/'
            &&& request.policy.filesystem.requested matches FilesystemPolicyView::WorkspaceScoped {
                base,
                visible,
                access,
            } ==> scoped_parts(base, visible) is Ok
        },
        request_checked(request) matches Err(error) ==> error is InvalidRequest,
{
}

/// Unless more is asked for, a command has no filesystem and no network, may make no operation of the
/// kernel and ends with all that it started; a workspace adds its directory with the given access,
/// and the given network.
pub proof fn law_commands_are_isolated_unless_asked(
    host_path: Seq<char>,
    access: FilesystemAccess,
    network: NetworkAccess,
)
    ensures
        default_policy().filesystem.requested is Isolated,
        default_policy().network.requested == NetworkAccess::Isolated,
        default_policy().identity.requested == IdentityIsolation::Unprivileged,
        default_policy().process.requested.terminate_descendants,
        default_policy().kernel_ops.requested matches KernelOpsPolicyView::DenyList {
            denied,
            violation,
        } && forall|op: KernelOp| #[trigger] denied.contains(op),
        workspace_policy(host_path, access, network).filesystem.requested
            == (FilesystemPolicyView::WorkspaceScoped {
            base: host_path,
            visible: host_path,
            access,
        }),
        workspace_policy(host_path, access, network).network.requested == network,
        workspace_policy(host_path, access, network).process == default_policy().process,
        workspace_policy(host_path, access, network).identity == default_policy().identity,
        workspace_policy(host_path, access, network).kernel_ops == default_policy().kernel_ops,
{
}

/// A letter is another one in lower case, or the same character.
pub open spec fn is_letter_of(c: char, lower: char) -> bool {
    if 'A' <= c && c <= 'Z' {
        lower == (c as u32 + 32) as char
    } else {
        c == lower
    }
}

/// A message holds a phrase, in letters of either case.
pub open spec fn complains(message: Seq<char>, phrase: Seq<char>) -> bool {
    exists|part: Seq<char>, at: int|
        0 <= at <= message.len() - phrase.len() && part.len() == phrase.len() && part
            == #[trigger] message.subrange(at, at + part.len()) && forall|i: int|
            0 <= i < phrase.len() ==> is_letter_of(#[trigger] part[i], phrase[i])
}

proof fn lemma_complains(message: Seq<char>, phrase: Seq<char>)
    ensures
        holds_phrase(message, phrase) <==> complains(message, phrase),
{
    if holds_phrase(message, phrase) {
        let at = choose|at: int| phrase_at(message, phrase, at);
        let part = message.subrange(at, at + phrase.len());
        assert(part.len() == phrase.len());
        assert(part == message.subrange(at, at + part.len()));
        assert forall|i: int| 0 <= i < phrase.len() implies is_letter_of(
            #[trigger] part[i],
            phrase[i],
        ) by {
            assert(ascii_lower(message[at + i]) == phrase[i]);
        }
    }
    if complains(message, phrase) {
        let (part, at) = choose|part: Seq<char>, at: int|
            0 <= at <= message.len() - phrase.len() && part.len() == phrase.len() && part
                == #[trigger] message.subrange(at, at + part.len()) && forall|i: int|
                0 <= i < phrase.len() ==> is_letter_of(#[trigger] part[i], phrase[i]);
        assert forall|i: int| 0 <= i < phrase.len() implies ascii_lower(message[at + i])
            == #[trigger] phrase[i] by {
            assert(is_letter_of(part[i], phrase[i]));
            assert(part[i] == message[at + i]);
        }
        assert(phrase_at(message, phrase, at));
    }
}

/// A command that ran to its end and complains of permissions violated the policy, and the reason is
/// what it said. Any other end stays what it was.
pub proof fn law_complaint_is_a_violation(status: SandboxStatusView, message: Seq<char>)
    ensures
        status_classified(status, message) == if status is Exited && (complains(
            message,
            "operation not permitted"@,
        ) || complains(message, "permission denied"@)) {
            SandboxStatusView::PolicyViolation { reason: trimmed(message) }
        } else {
            status
        },
{
    lemma_complains(message, "operation not permitted"@);
    lemma_complains(message, "permission denied"@);
}

/// What a command wrote and how it exited is told as it is, and one that was cancelled wrote nothing.
pub proof fn law_output_is_told_as_it_is(
    policy: SandboxPolicyView,
    ended: Option<(i32, Seq<u8>, Seq<u8>)>,
    duration: nat,
)
    ensures
        ({
            let output = fake_output(policy, ended, duration);
            &&& output.duration == duration
            &&& !output.stdout_truncated && !output.stderr_truncated
            &&& match ended {
                Some((code, stdout, stderr)) => output.status == (SandboxStatusView::Exited { code })
                    && output.stdout == stdout && output.stderr == stderr,
                None => output.status is Cancelled && output.stdout.len() == 0
                    && output.stderr.len() == 0,
            }
        }),
{
}

} // verus!
