use vstd::prelude::*;

verus! {

/// The step a build run is at. Every non-terminal step is one engine call;
/// the run moves strictly forward and stops at the first failure.
#[derive(PartialEq, Eq, Structural, Clone, Copy, Debug)]
pub enum Phase {
    /// Build the builder image.
    BuildImage,
    /// Start the long-lived container from the image.
    StartContainer,
    /// Run the install command inside the container.
    Install,
    /// Create the license directory inside the container.
    MakeLicenseDir,
    /// Copy the license file of the given index into the license directory.
    PlaceLicense(usize),
    /// Create the local output directory.
    PrepareOutput,
    /// Copy the changed files out of the container into the output directory.
    Package,
    /// Every step succeeded.
    Done,
    /// A step failed, or the run was cancelled.
    Failed,
}

/// The run has ended.
pub open spec fn is_terminal(p: Phase) -> bool {
    p is Done || p is Failed
}

/// A license step names one of the `n` license files.
pub open spec fn phase_in_range(p: Phase, n: nat) -> bool {
    p matches Phase::PlaceLicense(i) ==> i < n
}

/// The step that follows `p` once its engine call has succeeded (`ok`) or
/// failed, for a run with `n` license files. A terminal step stays put.
pub open spec fn spec_next(p: Phase, ok: bool, n: nat) -> Phase {
    if is_terminal(p) {
        p
    } else if !ok {
        Phase::Failed
    } else {
        match p {
            Phase::BuildImage => Phase::StartContainer,
            Phase::StartContainer => Phase::Install,
            Phase::Install => Phase::MakeLicenseDir,
            Phase::MakeLicenseDir => if n > 0 {
                Phase::PlaceLicense(0)
            } else {
                Phase::PrepareOutput
            },
            Phase::PlaceLicense(i) => if i + 1 < n {
                Phase::PlaceLicense((i + 1) as usize)
            } else {
                Phase::PrepareOutput
            },
            Phase::PrepareOutput => Phase::Package,
            Phase::Package => Phase::Done,
            _ => p,
        }
    }
}

/// The position of a step in the run's order.
pub open spec fn rank(p: Phase, n: nat) -> int {
    match p {
        Phase::BuildImage => 0,
        Phase::StartContainer => 1,
        Phase::Install => 2,
        Phase::MakeLicenseDir => 3,
        Phase::PlaceLicense(i) => 4 + i,
        Phase::PrepareOutput => 4 + n as int,
        Phase::Package => 5 + n as int,
        Phase::Done => 6 + n as int,
        Phase::Failed => 7 + n as int,
    }
}

/// The engine calls a run issues from step `p` when the calls' outcomes are
/// `outcomes` (true for success), one step per call, in order.
pub open spec fn spec_trace(p: Phase, outcomes: Seq<bool>, n: nat) -> Seq<Phase>
    decreases outcomes.len(),
{
    if is_terminal(p) || outcomes.len() == 0 {
        Seq::empty()
    } else {
        seq![p] + spec_trace(spec_next(p, outcomes[0], n), outcomes.drop_first(), n)
    }
}

/// The step a run reaches from `p` when its calls' outcomes are `outcomes`.
pub open spec fn spec_final(p: Phase, outcomes: Seq<bool>, n: nat) -> Phase
    decreases outcomes.len(),
{
    if is_terminal(p) || outcomes.len() == 0 {
        p
    } else {
        spec_final(spec_next(p, outcomes[0], n), outcomes.drop_first(), n)
    }
}

/// A successful step moves exactly one place forward.
proof fn lemma_next_advances(p: Phase, n: nat)
    requires
        !is_terminal(p),
        phase_in_range(p, n),
        n < usize::MAX,
    ensures
        phase_in_range(spec_next(p, true, n), n),
        rank(spec_next(p, true, n), n) == rank(p, n) + 1,
        spec_next(p, true, n) is Failed == false,
{
}

/// The i-th call of a run from `p` is the step of rank `rank(p) + i`: calls
/// are issued strictly in the run's order, none twice.
pub proof fn lemma_trace_in_order(p: Phase, outcomes: Seq<bool>, n: nat)
    requires
        phase_in_range(p, n),
        n < usize::MAX,
    ensures
        forall|i: int|
            0 <= i < spec_trace(p, outcomes, n).len() ==> rank(
                #[trigger] spec_trace(p, outcomes, n)[i],
                n,
            ) == rank(p, n) + i && !is_terminal(spec_trace(p, outcomes, n)[i]) && phase_in_range(
                spec_trace(p, outcomes, n)[i],
                n,
            ),
        forall|i: int| 0 <= i && i + 1 < spec_trace(p, outcomes, n).len() ==> #[trigger] outcomes[i],
        spec_trace(p, outcomes, n).len() <= outcomes.len(),
    decreases outcomes.len(),
{
    if !is_terminal(p) && outcomes.len() > 0 {
        let q = spec_next(p, outcomes[0], n);
        let t = spec_trace(p, outcomes, n);
        let rest = spec_trace(q, outcomes.drop_first(), n);
        if outcomes[0] {
            lemma_next_advances(p, n);
            lemma_trace_in_order(q, outcomes.drop_first(), n);
        } else {
            assert(rest.len() == 0);
        }
        assert(t == seq![p] + rest);
        assert forall|i: int| 0 <= i && i + 1 < t.len() implies #[trigger] outcomes[i] by {
            if i > 0 {
                assert(outcomes.drop_first()[i - 1] == outcomes[i]);
            }
        }
    }
}

/// A run whose image build fails issues no further call: no command is run,
/// nothing is packaged, and the run ends failed.
pub proof fn lemma_image_failure_stops(outcomes: Seq<bool>, n: nat)
    requires
        outcomes.len() > 0,
        !outcomes[0],
    ensures
        spec_trace(Phase::BuildImage, outcomes, n) == seq![Phase::BuildImage],
        spec_final(Phase::BuildImage, outcomes, n) == Phase::Failed,
{
    let rest = outcomes.drop_first();
    assert(spec_trace(Phase::Failed, rest, n) == Seq::<Phase>::empty());
    assert(spec_final(Phase::Failed, rest, n) == Phase::Failed);
    assert(seq![Phase::BuildImage] + Seq::<Phase>::empty() =~= seq![Phase::BuildImage]);
}

/// A run whose install command fails ends failed right there: the license
/// directory is never created and nothing is packaged.
pub proof fn lemma_install_failure_stops(outcomes: Seq<bool>, n: nat)
    requires
        outcomes.len() >= 3,
        outcomes[0],
        outcomes[1],
        !outcomes[2],
    ensures
        spec_trace(Phase::BuildImage, outcomes, n) == seq![
            Phase::BuildImage,
            Phase::StartContainer,
            Phase::Install,
        ],
        spec_final(Phase::BuildImage, outcomes, n) == Phase::Failed,
{
    let o1 = outcomes.drop_first();
    let o2 = o1.drop_first();
    let o3 = o2.drop_first();
    assert(o1[0] == outcomes[1]);
    assert(o2[0] == outcomes[2]);
    assert(spec_trace(Phase::Failed, o3, n) == Seq::<Phase>::empty());
    assert(spec_final(Phase::Failed, o3, n) == Phase::Failed);
    assert(spec_final(Phase::Install, o2, n) == Phase::Failed);
    assert(spec_final(Phase::StartContainer, o1, n) == Phase::Failed);
    assert(spec_trace(Phase::Install, o2, n) =~= seq![Phase::Install]);
    assert(spec_trace(Phase::StartContainer, o1, n) =~= seq![
        Phase::StartContainer,
        Phase::Install,
    ]);
    assert(spec_trace(Phase::BuildImage, outcomes, n) =~= seq![
        Phase::BuildImage,
        Phase::StartContainer,
        Phase::Install,
    ]);
}

/// From any step, a run whose every call succeeds reaches `Done` after exactly
/// as many calls as steps remain.
proof fn lemma_all_ok_from(p: Phase, outcomes: Seq<bool>, n: nat)
    requires
        !is_terminal(p),
        phase_in_range(p, n),
        n < usize::MAX,
        outcomes.len() == rank(Phase::Done, n) - rank(p, n),
        forall|i: int| 0 <= i < outcomes.len() ==> outcomes[i],
    ensures
        spec_final(p, outcomes, n) == Phase::Done,
        spec_trace(p, outcomes, n).len() == outcomes.len(),
    decreases outcomes.len(),
{
    lemma_next_advances(p, n);
    let q = spec_next(p, true, n);
    let rest = outcomes.drop_first();
    assert(outcomes[0]);
    assert(spec_trace(p, outcomes, n) == seq![p] + spec_trace(q, rest, n));
    assert(spec_final(p, outcomes, n) == spec_final(q, rest, n));
    if q is Done {
        assert(rest.len() == 0);
    } else {
        assert forall|i: int| 0 <= i < rest.len() implies rest[i] by {
            assert(rest[i] == outcomes[i + 1]);
        }
        lemma_all_ok_from(q, rest, n);
    }
}

/// A run whose every call succeeds reaches `Done`, after building the image,
/// starting the container, installing, creating the license directory,
/// placing each of the `n` license files, preparing the output directory and
/// packaging, in that order.
pub proof fn lemma_all_ok_reaches_done(outcomes: Seq<bool>, n: nat)
    requires
        n < usize::MAX,
        outcomes.len() == n + 6,
        forall|i: int| 0 <= i < outcomes.len() ==> outcomes[i],
    ensures
        spec_final(Phase::BuildImage, outcomes, n) == Phase::Done,
        spec_trace(Phase::BuildImage, outcomes, n).len() == n + 6,
        spec_trace(Phase::BuildImage, outcomes, n)[n + 4 as int] == Phase::PrepareOutput,
        spec_trace(Phase::BuildImage, outcomes, n)[n + 5 as int] == Phase::Package,
        forall|i: int|
            0 <= i < n ==> #[trigger] spec_trace(Phase::BuildImage, outcomes, n)[4 + i]
                == Phase::PlaceLicense(i as usize),
{
    lemma_all_ok_from(Phase::BuildImage, outcomes, n);
    lemma_trace_in_order(Phase::BuildImage, outcomes, n);
    let t = spec_trace(Phase::BuildImage, outcomes, n);
    assert(rank(t[n + 4 as int], n) == n + 4);
    assert(rank(t[n + 5 as int], n) == n + 5);
    assert forall|i: int| 0 <= i < n implies #[trigger] t[4 + i] == Phase::PlaceLicense(i as usize) by {
        assert(rank(t[4 + i], n) == 4 + i);
    }
}

/// The license directory is created after the install command has run and
/// succeeded, and before any license file is copied.
pub proof fn lemma_license_dir_order(outcomes: Seq<bool>, n: nat)
    requires
        n < usize::MAX,
    ensures
        forall|i: int|
            0 <= i < spec_trace(Phase::BuildImage, outcomes, n).len() && (#[trigger] spec_trace(
                Phase::BuildImage,
                outcomes,
                n,
            )[i]) is MakeLicenseDir ==> i == 3 && spec_trace(Phase::BuildImage, outcomes, n)[2]
                is Install && outcomes[2],
        forall|i: int, j: int|
            0 <= i < spec_trace(Phase::BuildImage, outcomes, n).len() && 0 <= j < spec_trace(
                Phase::BuildImage,
                outcomes,
                n,
            ).len() && (#[trigger] spec_trace(Phase::BuildImage, outcomes, n)[i]) is MakeLicenseDir
                && (#[trigger] spec_trace(Phase::BuildImage, outcomes, n)[j]) is PlaceLicense ==> i
                < j,
{
    lemma_trace_in_order(Phase::BuildImage, outcomes, n);
    let t = spec_trace(Phase::BuildImage, outcomes, n);
    assert forall|i: int| 0 <= i < t.len() && (#[trigger] t[i]) is MakeLicenseDir implies i == 3
        && t[2] is Install && outcomes[2] by {
        assert(rank(t[i], n) == i);
        assert(rank(t[2], n) == 2);
    }
    assert forall|i: int, j: int|
        0 <= i < t.len() && 0 <= j < t.len() && (#[trigger] t[i]) is MakeLicenseDir
            && (#[trigger] t[j]) is PlaceLicense implies i < j by {
        assert(rank(t[i], n) == i);
        assert(rank(t[j], n) == j);
    }
}

} // verus!
