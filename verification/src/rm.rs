//! The `rm` command: clear containers away.

use vstd::prelude::*;
use crate::plan::{
    command_fails, is_tolerated, push_release, release_spec, step_views, Step, StepView,
};
use crate::text::{views, Text};

verus! {

/// The arguments of `rm`.
#[derive(Debug)]
pub struct RmArgs {
    /// The names of the containers to remove.
    pub containers: Vec<String>,
}

/// The steps of `rm`: those that clear away the first container, then those
/// for the second, and so on.
pub open spec fn rm_steps(names: Seq<Text>) -> Seq<StepView>
    decreases names.len(),
{
    if names.len() == 0 {
        Seq::empty()
    } else {
        rm_steps(names.drop_last()) + release_spec(names.last())
    }
}

/// The position of the step that removes the directory of container `k`.
pub open spec fn removal_at(k: int) -> int {
    4 * k + 3
}

/// Where the steps of container `k` stand among the steps of `rm`: its three
/// unmounts from position `4 * k` on, and then the removal of its directory.
pub proof fn lemma_rm_steps_at(names: Seq<Text>, k: int)
    requires
        0 <= k < names.len(),
    ensures
        rm_steps(names).len() == 4 * names.len(),
        rm_steps(names).subrange(4 * k, 4 * k + 4) == release_spec(names[k]),
    decreases names.len(),
{
    let front = names.drop_last();
    lemma_rm_steps_len(names);
    lemma_rm_steps_len(front);
    if k < front.len() {
        lemma_rm_steps_at(front, k);
        assert(rm_steps(names).subrange(4 * k, 4 * k + 4) =~= rm_steps(front).subrange(
            4 * k,
            4 * k + 4,
        ));
    } else {
        assert(rm_steps(names).subrange(4 * k, 4 * k + 4) =~= release_spec(names[k]));
    }
}

/// `rm` takes four steps for each container.
pub proof fn lemma_rm_steps_len(names: Seq<Text>)
    ensures
        rm_steps(names).len() == 4 * names.len(),
    decreases names.len(),
{
    if names.len() > 0 {
        lemma_rm_steps_len(names.drop_last());
    }
}

/// `rm` fails exactly where the directory of one of the containers cannot
/// be removed. No failed unmount makes it fail, so a container whose
/// overlay is unmounted already is removed without complaint; and a
/// directory that is still in use is not passed over in silence.
pub proof fn lemma_rm_fails_on_removal(names: Seq<Text>, failed: Seq<bool>)
    requires
        failed.len() == 4 * names.len(),
    ensures
        command_fails(rm_steps(names), failed) <==> exists|k: int|
            0 <= k < names.len() && failed[#[trigger] removal_at(k)],
{
    let steps = rm_steps(names);
    lemma_rm_steps_len(names);
    if command_fails(steps, failed) {
        let i = choose|i: int|
            0 <= i < steps.len() && i < failed.len() && #[trigger] failed[i] && !is_tolerated(
                steps[i],
            );
        let k = i / 4;
        lemma_rm_steps_at(names, k);
        assert(steps[i] == steps.subrange(4 * k, 4 * k + 4)[i - 4 * k]);
        assert(i == removal_at(k));
    }
    if exists|k: int| 0 <= k < names.len() && failed[#[trigger] removal_at(k)] {
        let k = choose|k: int| 0 <= k < names.len() && failed[#[trigger] removal_at(k)];
        lemma_rm_steps_at(names, k);
        let i = removal_at(k);
        assert(steps[i] == steps.subrange(4 * k, 4 * k + 4)[3]);
        assert(failed[i] && !is_tolerated(steps[i]));
    }
}

impl RmArgs {
    /// The steps of `rm` for the containers named: for each of them its
    /// mount points are unmounted and its directory is removed. The command
    /// goes on where an unmount fails, and fails where a directory cannot be
    /// removed.
    pub fn run(self) -> (r: Vec<Step>)
        ensures
            step_views(r@) == rm_steps(views(self.containers@)),
            r@.len() == 4 * self.containers@.len(),
            forall|i: int| 0 <= i < r@.len() ==> (is_tolerated(#[trigger] r@[i]@) <==> i % 4 != 3),
    {
        let mut steps: Vec<Step> = Vec::new();
        let n = self.containers.len();
        let mut i: usize = 0;
        let ghost names = views(self.containers@);
        assert(names.take(0) =~= Seq::<Text>::empty());
        assert(step_views(steps@) =~= Seq::<StepView>::empty());
        while i < n
            invariant
                i <= n,
                n == self.containers@.len(),
                names == views(self.containers@),
                step_views(steps@) == rm_steps(names.take(i as int)),
            decreases n - i,
        {
            proof {
                assert(names.take(i + 1).drop_last() =~= names.take(i as int));
                assert(names.take(i + 1).last() == self.containers@[i as int]@);
            }
            push_release(&mut steps, self.containers[i].as_str());
            i += 1;
        }
        proof {
            assert(names.take(n as int) =~= names);
            lemma_rm_steps_len(names);
            assert forall|i: int| 0 <= i < steps@.len() implies (is_tolerated(
                #[trigger] steps@[i]@,
            ) <==> i % 4 != 3) by {
                let k = i / 4;
                lemma_rm_steps_at(names, k);
                assert(step_views(steps@)[i] == steps@[i]@);
                assert(rm_steps(names)[i] == rm_steps(names).subrange(4 * k, 4 * k + 4)[i - 4
                    * k]);
            }
        }
        steps
    }
}

} // verus!
