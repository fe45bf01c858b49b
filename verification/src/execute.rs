//! Carrying out a plan: which command each action sends, and the record of
//! how each action ended.

use crate::docker::{
    arg_texts, container_ids, custom_network_ids, image_ids, prune_flag, volume_names, Docker,
};
use crate::plan::PurgeAction;
use crate::resources::{Container, Image, Network, Volume};
use crate::usage::{space_freed, spec_space_freed, DiskUsage};
use vstd::prelude::*;

verus! {

/// The listing that an action needs before its command can be written.
#[derive(Clone, Copy, Debug, PartialEq, Eq, Structural)]
pub enum Listing {
    Nothing,
    RunningContainers,
    AllContainers,
    Images,
    Volumes,
    Networks,
}

/// What was listed for an action; the lists that it does not need stay
/// empty.
#[derive(Debug)]
pub struct Listed {
    pub containers: Vec<Container>,
    pub images: Vec<Image>,
    pub volumes: Vec<Volume>,
    pub networks: Vec<Network>,
}

/// The listing that an action needs: those that remove by name need the
/// names, those that prune need nothing.
pub open spec fn listing_of(action: PurgeAction) -> Listing {
    match action {
        PurgeAction::StopContainers => Listing::RunningContainers,
        PurgeAction::RemoveContainers => Listing::AllContainers,
        PurgeAction::RemoveImages => Listing::Images,
        PurgeAction::RemoveVolumes => Listing::Volumes,
        PurgeAction::RemoveCustomNetworks => Listing::Networks,
        _ => Listing::Nothing,
    }
}

/// The arguments that an action sends, given what was listed for it;
/// `None` where there is nothing to send because nothing was listed.
pub open spec fn command_of(action: PurgeAction, listed: Listed) -> Option<Seq<Seq<char>>> {
    match action {
        PurgeAction::StopContainers => if listed.containers@.len() == 0 {
            None
        } else {
            Some(seq!["stop"@] + container_ids(listed.containers@))
        },
        PurgeAction::RemoveContainers => if listed.containers@.len() == 0 {
            None
        } else {
            Some(seq!["rm"@, "-f"@] + container_ids(listed.containers@))
        },
        PurgeAction::PruneContainers => Some(seq!["container"@, "prune"@, "-f"@]),
        PurgeAction::RemoveImages => if listed.images@.len() == 0 {
            None
        } else {
            Some(seq!["rmi"@, "-f"@] + image_ids(listed.images@))
        },
        PurgeAction::PruneImages { all } => Some(seq!["image"@, "prune"@, prune_flag(all)]),
        PurgeAction::RemoveVolumes => if listed.volumes@.len() == 0 {
            None
        } else {
            Some(seq!["volume"@, "rm"@, "-f"@] + volume_names(listed.volumes@))
        },
        PurgeAction::PruneVolumes => Some(seq!["volume"@, "prune"@, "-f"@]),
        PurgeAction::RemoveCustomNetworks => if custom_network_ids(listed.networks@).len() == 0 {
            None
        } else {
            Some(seq!["network"@, "rm"@] + custom_network_ids(listed.networks@))
        },
        PurgeAction::PruneNetworks => Some(seq!["network"@, "prune"@, "-f"@]),
        PurgeAction::PruneBuildCache { all } => Some(seq!["builder"@, "prune"@, prune_flag(all)]),
    }
}

/// The listing that an action needs.
pub fn listing_for(action: PurgeAction) -> (listing: Listing)
    ensures
        listing == listing_of(action),
{
    match action {
        PurgeAction::StopContainers => Listing::RunningContainers,
        PurgeAction::RemoveContainers => Listing::AllContainers,
        PurgeAction::RemoveImages => Listing::Images,
        PurgeAction::RemoveVolumes => Listing::Volumes,
        PurgeAction::RemoveCustomNetworks => Listing::Networks,
        _ => Listing::Nothing,
    }
}

/// The arguments that an action sends, given what was listed for it.
pub fn command_for(action: PurgeAction, listed: &Listed) -> (args: Option<Vec<String>>)
    ensures
        match command_of(action, *listed) {
            Some(texts) => args is Some && arg_texts(args->0@) == texts,
            None => args is None,
        },
{
    match action {
        PurgeAction::StopContainers => Docker::stop_all_containers(&listed.containers),
        PurgeAction::RemoveContainers => Docker::remove_all_containers(&listed.containers),
        PurgeAction::PruneContainers => Some(Docker::prune_containers()),
        PurgeAction::RemoveImages => Docker::remove_all_images(&listed.images),
        PurgeAction::PruneImages { all } => Some(Docker::prune_images(all)),
        PurgeAction::RemoveVolumes => Docker::remove_all_volumes(&listed.volumes),
        PurgeAction::PruneVolumes => Some(Docker::prune_volumes()),
        PurgeAction::RemoveCustomNetworks => Docker::remove_custom_networks(&listed.networks),
        PurgeAction::PruneNetworks => Some(Docker::prune_networks()),
        PurgeAction::PruneBuildCache { all } => Some(Docker::prune_build_cache(all)),
    }
}

/// How one action ended: `error` holds what the runtime complained of, and
/// is `None` where the action succeeded.
#[derive(Debug)]
pub struct ActionOutcome {
    pub action: PurgeAction,
    pub error: Option<String>,
}

/// The outcome that a result gives an action.
pub open spec fn outcome_of(action: PurgeAction, result: Result<(), String>) -> ActionOutcome {
    ActionOutcome {
        action,
        error: match result {
            Ok(_) => None,
            Err(message) => Some(message),
        },
    }
}

/// A plan in execution: the actions, and the outcomes of those that were
/// carried out so far. An action that fails is recorded like any other, and
/// the next one follows.
pub struct Execution {
    actions: Vec<PurgeAction>,
    outcomes: Vec<ActionOutcome>,
}

impl Execution {
    #[verifier::type_invariant]
    spec fn consistent(self) -> bool {
        &&& self.outcomes@.len() <= self.actions@.len()
        &&& forall|i: int|
            0 <= i < self.outcomes@.len() ==> (#[trigger] self.outcomes@[i]).action
                == self.actions@[i]
    }

    /// The plan that is carried out.
    pub closed spec fn plan(self) -> Seq<PurgeAction> {
        self.actions@
    }

    /// The outcomes recorded so far, in the order of the plan.
    pub closed spec fn recorded(self) -> Seq<ActionOutcome> {
        self.outcomes@
    }

    /// The action that is due: the first without an outcome.
    pub open spec fn due(self) -> Option<PurgeAction> {
        if self.recorded().len() < self.plan().len() {
            Some(self.plan()[self.recorded().len() as int])
        } else {
            None
        }
    }

    /// Starts on a plan, with nothing carried out.
    pub fn new(actions: Vec<PurgeAction>) -> (execution: Execution)
        ensures
            execution.plan() == actions@,
            execution.recorded().len() == 0,
    {
        Execution { actions, outcomes: Vec::new() }
    }

    /// The action that is due; `None` once every action has its outcome.
    pub fn next_action(&self) -> (action: Option<PurgeAction>)
        ensures
            action == self.due(),
    {
        proof {
            use_type_invariant(self);
        }
        if self.outcomes.len() < self.actions.len() {
            Some(self.actions[self.outcomes.len()])
        } else {
            None
        }
    }

    /// Records how the action that was due ended. Whether it succeeded or
    /// failed, the action after it is due next. Where no action was due,
    /// nothing is recorded.
    pub fn record(self, result: Result<(), String>) -> (next: Execution)
        ensures
            next.plan() == self.plan(),
            match self.due() {
                Some(action) => next.recorded() == self.recorded().push(
                    outcome_of(action, result),
                ),
                None => next.recorded() == self.recorded(),
            },
    {
        proof {
            use_type_invariant(&self);
        }
        let actions = self.actions;
        let mut outcomes = self.outcomes;
        if outcomes.len() < actions.len() {
            let action = actions[outcomes.len()];
            let error = match result {
                Ok(_) => None,
                Err(message) => Some(message),
            };
            outcomes.push(ActionOutcome { action, error });
        }
        Execution { actions, outcomes }
    }

    /// Whether every action has its outcome.
    pub fn is_finished(&self) -> (finished: bool)
        ensures
            finished == (self.due() is None),
    {
        proof {
            use_type_invariant(self);
        }
        self.outcomes.len() >= self.actions.len()
    }

    /// The outcomes recorded so far.
    pub fn outcomes(&self) -> (outcomes: &Vec<ActionOutcome>)
        ensures
            outcomes@ == self.recorded(),
            outcomes@.len() <= self.plan().len(),
            forall|i: int|
                0 <= i < outcomes@.len() ==> (#[trigger] outcomes@[i]).action == self.plan()[i],
    {
        proof {
            use_type_invariant(self);
        }
        &self.outcomes
    }
}

/// The outcomes that ended in failure.
pub open spec fn failed(outcomes: Seq<ActionOutcome>) -> Seq<ActionOutcome> {
    outcomes.filter(|outcome: ActionOutcome| outcome.error is Some)
}

/// Number of outcomes that ended in failure.
pub fn count_failures(outcomes: &Vec<ActionOutcome>) -> (count: usize)
    ensures
        count == failed(outcomes@).len(),
{
    let mut count: usize = 0;
    let mut i: usize = 0;
    proof {
        reveal(Seq::filter);
        assert(outcomes@.take(0) =~= Seq::empty());
    }
    while i < outcomes.len()
        invariant
            i <= outcomes.len(),
            count == failed(outcomes@.take(i as int)).len(),
            count <= i,
        decreases outcomes.len() - i,
    {
        proof {
            reveal(Seq::filter);
            assert(outcomes@.take(i + 1).drop_last() =~= outcomes@.take(i as int));
        }
        if outcomes[i].error.is_some() {
            count = count + 1;
        }
        i = i + 1;
    }
    assert(outcomes@.take(i as int) =~= outcomes@);
    count
}

/// Bytes that an execution freed: what the total size fell by between the
/// snapshot before and the one after, and zero where it grew.
pub fn bytes_freed(before: &DiskUsage, after: &DiskUsage) -> (freed: u64)
    requires
        before.spec_total_size() <= u64::MAX,
        after.spec_total_size() <= u64::MAX,
    ensures
        freed == spec_space_freed(before.spec_total_size(), after.spec_total_size()),
{
    space_freed(before.total_size(), after.total_size())
}

} // verus!
