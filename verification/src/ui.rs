//! Click behaviours: what runs when an interface element is clicked.
//!
//! An element carries an ordered list of actions. An action is a command
//! line handed to a command runner, a system that runs without input, or a
//! system that runs on the clicked entity. When the element is clicked the
//! whole list runs, first to last, in place.

use crate::system::System;
use bevy::ecs::entity::Entity;
use vstd::prelude::*;

verus! {

/// `bevy::ecs::entity::Entity`, the identity of an entity. The crate only
/// hands entities on to the systems that ask for them.
#[verifier::external_type_specification]
#[verifier::external_body]
pub struct ExEntity(Entity);

/// How the pointer stands to an interface element.
#[derive(Clone, Copy, Debug, PartialEq, Eq, Structural)]
pub enum Interaction {
    /// The element is being clicked.
    Clicked,
    /// The pointer is over the element.
    Hovered,
    /// Neither.
    Idle,
}

/// One action of a click behaviour.
pub enum ClickBehaviorKind<S, ES> {
    /// A system without input, if it is there, and whether it has been
    /// initialized.
    System(bool, Option<S>),
    /// A system that takes the clicked entity, if it is there, and whether
    /// it has been initialized.
    EntitySystem(bool, Option<ES>),
    /// A command line for the command runner.
    Cli(String),
}

/// The ordered list of actions that an interface element runs when it is
/// clicked.
pub struct ClickBehavior<S, ES> {
    actions: Vec<ClickBehaviorKind<S, ES>>,
}

/// An interface element as a click handler sees it.
pub struct ClickTarget<S, ES> {
    /// The element's entity.
    pub entity: Entity,
    /// How the pointer stands to the element.
    pub interaction: Interaction,
    /// What the element does when clicked.
    pub behavior: ClickBehavior<S, ES>,
}

/// Whether running a system that was initialized or not, as `initted` says,
/// on `input` may leave it as `after` and the world as `world_after`: the
/// system is initialized first if it was not, then it runs, then its
/// deferred changes are applied.
pub open spec fn system_action_ran<W, X: System<W, Out = ()>>(
    initted: bool,
    system: X,
    input: X::In,
    world: W,
    after: X,
    world_after: W,
) -> bool {
    exists|ready: X, world_ready: W, done: X, world_done: W|
        {
            &&& if initted {
                ready == system && world_ready == world
            } else {
                system.initialized(world, ready, world_ready)
            }
            &&& #[trigger] ready.ran(input, world_ready, done, world_done, ())
            &&& done.deferred_applied(world_done, after, world_after)
        }
}

/// Whether running `action` for a click on `entity` may leave the action as
/// `action_after`, the world as `world_after` and the command runner as
/// `cli_after`.
///
/// A command line goes to the command runner and stays as it is. A system
/// that is there runs as [`system_action_ran`] says and is marked as
/// initialized. A system that is not there does nothing.
pub open spec fn action_ran<W, C, S, ES>(
    action: ClickBehaviorKind<S, ES>,
    entity: Entity,
    world: W,
    cli: C,
    action_after: ClickBehaviorKind<S, ES>,
    world_after: W,
    cli_after: C,
) -> bool where
    C: System<W, In = String, Out = ()>,
    S: System<W, In = (), Out = ()>,
    ES: System<W, In = Entity, Out = ()>,
 {
    match action {
        ClickBehaviorKind::Cli(command) => {
            &&& action_after == action
            &&& cli.ran(command, world, cli_after, world_after, ())
        },
        ClickBehaviorKind::System(initted, Some(system)) => {
            &&& cli_after == cli
            &&& exists|after: S|
                {
                    &&& #[trigger] system_action_ran(initted, system, (), world, after, world_after)
                    &&& action_after == ClickBehaviorKind::<S, ES>::System(true, Some(after))
                }
        },
        ClickBehaviorKind::EntitySystem(initted, Some(system)) => {
            &&& cli_after == cli
            &&& exists|after: ES|
                {
                    &&& #[trigger] system_action_ran(
                        initted,
                        system,
                        entity,
                        world,
                        after,
                        world_after,
                    )
                    &&& action_after == ClickBehaviorKind::<S, ES>::EntitySystem(true, Some(after))
                }
        },
        _ => {
            &&& action_after == action
            &&& world_after == world
            &&& cli_after == cli
        },
    }
}

/// Whether running `actions` first to last for a click on `entity` may leave
/// them as `actions_after`, the world as `world_after` and the command
/// runner as `cli_after`.
pub open spec fn actions_ran<W, C, S, ES>(
    actions: Seq<ClickBehaviorKind<S, ES>>,
    entity: Entity,
    world: W,
    cli: C,
    actions_after: Seq<ClickBehaviorKind<S, ES>>,
    world_after: W,
    cli_after: C,
) -> bool where
    C: System<W, In = String, Out = ()>,
    S: System<W, In = (), Out = ()>,
    ES: System<W, In = Entity, Out = ()>,

    decreases actions.len(),
{
    if actions.len() == 0 {
        actions_after.len() == 0 && world_after == world && cli_after == cli
    } else {
        &&& actions_after.len() == actions.len()
        &&& exists|world_mid: W, cli_mid: C|
            {
                &&& actions_ran(
                    actions.drop_last(),
                    entity,
                    world,
                    cli,
                    actions_after.drop_last(),
                    world_mid,
                    cli_mid,
                )
                &&& #[trigger] action_ran(
                    actions.last(),
                    entity,
                    world_mid,
                    cli_mid,
                    actions_after.last(),
                    world_after,
                    cli_after,
                )
            }
    }
}

/// Whether a click handler that goes through `targets` first to last may
/// leave them as `targets_after`, the world as `world_after` and the command
/// runner as `cli_after`: a target that is clicked runs its actions, any
/// other target is passed over.
pub open spec fn targets_ran<W, C, S, ES>(
    targets: Seq<ClickTarget<S, ES>>,
    world: W,
    cli: C,
    targets_after: Seq<ClickTarget<S, ES>>,
    world_after: W,
    cli_after: C,
) -> bool where
    C: System<W, In = String, Out = ()>,
    S: System<W, In = (), Out = ()>,
    ES: System<W, In = Entity, Out = ()>,

    decreases targets.len(),
{
    if targets.len() == 0 {
        targets_after.len() == 0 && world_after == world && cli_after == cli
    } else {
        &&& targets_after.len() == targets.len()
        &&& exists|world_mid: W, cli_mid: C|
            {
                &&& targets_ran(
                    targets.drop_last(),
                    world,
                    cli,
                    targets_after.drop_last(),
                    world_mid,
                    cli_mid,
                )
                &&& #[trigger] target_ran(
                    targets.last(),
                    world_mid,
                    cli_mid,
                    targets_after.last(),
                    world_after,
                    cli_after,
                )
            }
    }
}

/// Whether a click handler that comes to `target` may leave it as
/// `target_after`, the world as `world_after` and the command runner as
/// `cli_after`.
pub open spec fn target_ran<W, C, S, ES>(
    target: ClickTarget<S, ES>,
    world: W,
    cli: C,
    target_after: ClickTarget<S, ES>,
    world_after: W,
    cli_after: C,
) -> bool where
    C: System<W, In = String, Out = ()>,
    S: System<W, In = (), Out = ()>,
    ES: System<W, In = Entity, Out = ()>,
 {
    &&& target_after.entity == target.entity
    &&& target_after.interaction == target.interaction
    &&& if target.interaction == Interaction::Clicked {
        actions_ran(
            target.behavior.actions(),
            target.entity,
            world,
            cli,
            target_after.behavior.actions(),
            world_after,
            cli_after,
        )
    } else {
        target_after.behavior == target.behavior && world_after == world && cli_after == cli
    }
}

impl<S, ES> ClickBehavior<S, ES> {
    /// The actions, first to last.
    pub closed spec fn actions(&self) -> Seq<ClickBehaviorKind<S, ES>> {
        self.actions@
    }

    /// A behaviour without actions.
    pub fn new() -> (behavior: ClickBehavior<S, ES>)
        ensures
            behavior.actions() == Seq::<ClickBehaviorKind<S, ES>>::empty(),
    {
        ClickBehavior { actions: Vec::new() }
    }

    /// This behaviour with one more action at its end: to run `system`,
    /// which has not been initialized.
    pub fn system(self, system: S) -> (behavior: ClickBehavior<S, ES>)
        ensures
            behavior.actions() == self.actions().push(
                ClickBehaviorKind::System(false, Some(system)),
            ),
    {
        let mut behavior = self;
        behavior.actions.push(ClickBehaviorKind::System(false, Some(system)));
        behavior
    }

    /// This behaviour with one more action at its end: to run `system`,
    /// which has not been initialized, on the clicked entity.
    pub fn entity_system(self, system: ES) -> (behavior: ClickBehavior<S, ES>)
        ensures
            behavior.actions() == self.actions().push(
                ClickBehaviorKind::EntitySystem(false, Some(system)),
            ),
    {
        let mut behavior = self;
        behavior.actions.push(ClickBehaviorKind::EntitySystem(false, Some(system)));
        behavior
    }

    /// This behaviour with one more action at its end: to hand the command
    /// line `cli` to the command runner.
    pub fn cli(self, cli: &str) -> (behavior: ClickBehavior<S, ES>)
        ensures
            behavior.actions().len() == self.actions().len() + 1,
            behavior.actions().drop_last() == self.actions(),
            behavior.actions().last() matches ClickBehaviorKind::Cli(command) && command@ == cli@,
    {
        let mut behavior = self;
        behavior.actions.push(ClickBehaviorKind::Cli(String::from_str(cli)));
        assert(behavior.actions().drop_last() =~= self.actions());
        behavior
    }

    /// How many actions there are.
    pub fn len(&self) -> (len: usize)
        ensures
            len == self.actions().len(),
    {
        self.actions.len()
    }
}

/// Runs one action for a click on `entity`.
fn run_action<W, C, S, ES>(
    action: &mut ClickBehaviorKind<S, ES>,
    entity: Entity,
    world: &mut W,
    cli: &mut C,
) where
    C: System<W, In = String, Out = ()>,
    S: System<W, In = (), Out = ()>,
    ES: System<W, In = Entity, Out = ()>,

    ensures
        action_ran(
            *old(action),
            entity,
            *old(world),
            *old(cli),
            *final(action),
            *final(world),
            *final(cli),
        ),
{
    match action {
        ClickBehaviorKind::Cli(command) => {
            cli.run(command.clone(), world);
        },
        ClickBehaviorKind::System(initted, system_opt) => {
            if let Some(system) = system_opt {
                let ghost before = *system;
                if !*initted {
                    system.initialize(world);
                    *initted = true;
                }
                let ghost ready = *system;
                let ghost world_ready = *world;
                system.run((), world);
                let ghost done = *system;
                let ghost world_done = *world;
                system.apply_deferred(world);
                assert(ready.ran((), world_ready, done, world_done, ()));
                assert(system_action_ran(
                    old(action)->System_0,
                    before,
                    (),
                    *old(world),
                    *system,
                    *world,
                ));
            }
        },
        ClickBehaviorKind::EntitySystem(initted, system_opt) => {
            if let Some(system) = system_opt {
                let ghost before = *system;
                if !*initted {
                    system.initialize(world);
                    *initted = true;
                }
                let ghost ready = *system;
                let ghost world_ready = *world;
                system.run(entity, world);
                let ghost done = *system;
                let ghost world_done = *world;
                system.apply_deferred(world);
                assert(ready.ran(entity, world_ready, done, world_done, ()));
                assert(system_action_ran(
                    old(action)->EntitySystem_0,
                    before,
                    entity,
                    *old(world),
                    *system,
                    *world,
                ));
            }
        },
    }
}


/// Running one more action extends what [`actions_ran`] relates.
pub proof fn lemma_actions_ran_push<W, C, S, ES>(
    actions: Seq<ClickBehaviorKind<S, ES>>,
    entity: Entity,
    world: W,
    cli: C,
    actions_mid: Seq<ClickBehaviorKind<S, ES>>,
    world_mid: W,
    cli_mid: C,
    action: ClickBehaviorKind<S, ES>,
    action_after: ClickBehaviorKind<S, ES>,
    world_after: W,
    cli_after: C,
) where
    C: System<W, In = String, Out = ()>,
    S: System<W, In = (), Out = ()>,
    ES: System<W, In = Entity, Out = ()>,

    requires
        actions_ran(actions, entity, world, cli, actions_mid, world_mid, cli_mid),
        action_ran(action, entity, world_mid, cli_mid, action_after, world_after, cli_after),
    ensures
        actions_ran(
            actions.push(action),
            entity,
            world,
            cli,
            actions_mid.push(action_after),
            world_after,
            cli_after,
        ),
{
    lemma_actions_ran_len(actions, entity, world, cli, actions_mid, world_mid, cli_mid);
    assert(actions.push(action).drop_last() =~= actions);
    assert(actions_mid.push(action_after).drop_last() =~= actions_mid);
    assert(action_ran(
        actions.push(action).last(),
        entity,
        world_mid,
        cli_mid,
        actions_mid.push(action_after).last(),
        world_after,
        cli_after,
    ));
}

/// A run of a list of actions leaves as many actions as there were.
pub proof fn lemma_actions_ran_len<W, C, S, ES>(
    actions: Seq<ClickBehaviorKind<S, ES>>,
    entity: Entity,
    world: W,
    cli: C,
    actions_after: Seq<ClickBehaviorKind<S, ES>>,
    world_after: W,
    cli_after: C,
) where
    C: System<W, In = String, Out = ()>,
    S: System<W, In = (), Out = ()>,
    ES: System<W, In = Entity, Out = ()>,

    requires
        actions_ran(actions, entity, world, cli, actions_after, world_after, cli_after),
    ensures
        actions_after.len() == actions.len(),
{
}

/// Going on to one more target extends what [`targets_ran`] relates.
pub proof fn lemma_targets_ran_push<W, C, S, ES>(
    targets: Seq<ClickTarget<S, ES>>,
    world: W,
    cli: C,
    targets_mid: Seq<ClickTarget<S, ES>>,
    world_mid: W,
    cli_mid: C,
    target: ClickTarget<S, ES>,
    target_after: ClickTarget<S, ES>,
    world_after: W,
    cli_after: C,
) where
    C: System<W, In = String, Out = ()>,
    S: System<W, In = (), Out = ()>,
    ES: System<W, In = Entity, Out = ()>,

    requires
        targets_ran(targets, world, cli, targets_mid, world_mid, cli_mid),
        target_ran(target, world_mid, cli_mid, target_after, world_after, cli_after),
    ensures
        targets_ran(
            targets.push(target),
            world,
            cli,
            targets_mid.push(target_after),
            world_after,
            cli_after,
        ),
{
    assert(targets_mid.len() == targets.len());
    assert(targets.push(target).drop_last() =~= targets);
    assert(targets_mid.push(target_after).drop_last() =~= targets_mid);
    assert(target_ran(
        targets.push(target).last(),
        world_mid,
        cli_mid,
        targets_mid.push(target_after).last(),
        world_after,
        cli_after,
    ));
}

/// Runs the actions of `behavior` for a click on `entity`, first to last.
///
/// A command line is handed to `cli`. A system is initialized the first
/// time it runs here, then it runs, then its deferred changes are applied.
/// The list keeps its length and its order.
pub fn run_behaviors<W, C, S, ES>(
    behavior: &mut ClickBehavior<S, ES>,
    entity: Entity,
    world: &mut W,
    cli: &mut C,
) where
    C: System<W, In = String, Out = ()>,
    S: System<W, In = (), Out = ()>,
    ES: System<W, In = Entity, Out = ()>,

    ensures
        final(behavior).actions().len() == old(behavior).actions().len(),
        actions_ran(
            old(behavior).actions(),
            entity,
            *old(world),
            *old(cli),
            final(behavior).actions(),
            *final(world),
            *final(cli),
        ),
{
    let ghost before = behavior.actions@;
    let mut i: usize = 0;
    while i < behavior.actions.len()
        invariant
            i <= before.len(),
            behavior.actions@.len() == before.len(),
            forall|j: int| i <= j < before.len() ==> behavior.actions@[j] == before[j],
            actions_ran(
                before.take(i as int),
                entity,
                *old(world),
                *old(cli),
                behavior.actions@.take(i as int),
                *world,
                *cli,
            ),
        decreases before.len() - i,
    {
        let ghost list_mid = behavior.actions@;
        let ghost world_mid = *world;
        let ghost cli_mid = *cli;
        run_action(&mut behavior.actions[i], entity, world, cli);
        proof {
            lemma_actions_ran_push(
                before.take(i as int),
                entity,
                *old(world),
                *old(cli),
                list_mid.take(i as int),
                world_mid,
                cli_mid,
                before[i as int],
                behavior.actions@[i as int],
                *world,
                *cli,
            );
            assert(before.take(i + 1) =~= before.take(i as int).push(before[i as int]));
            assert(behavior.actions@.take(i + 1) =~= list_mid.take(i as int).push(
                behavior.actions@[i as int],
            ));
        }
        i = i + 1;
    }
    assert(before.take(before.len() as int) =~= before);
    assert(behavior.actions@.take(before.len() as int) =~= behavior.actions@);
}

/// Goes through `targets` first to last and, for each one that is clicked,
/// runs its actions as [`run_behaviors`] does. The other targets are passed
/// over. The list keeps its length and its order, and every target keeps
/// its entity and its interaction.
pub fn onclick_run_behaviors<W, C, S, ES>(
    world: &mut W,
    cli: &mut C,
    targets: &mut Vec<ClickTarget<S, ES>>,
) where
    C: System<W, In = String, Out = ()>,
    S: System<W, In = (), Out = ()>,
    ES: System<W, In = Entity, Out = ()>,

    ensures
        final(targets)@.len() == old(targets)@.len(),
        targets_ran(
            old(targets)@,
            *old(world),
            *old(cli),
            final(targets)@,
            *final(world),
            *final(cli),
        ),
{
    let ghost before = targets@;
    let mut i: usize = 0;
    while i < targets.len()
        invariant
            i <= before.len(),
            targets@.len() == before.len(),
            forall|j: int| i <= j < before.len() ==> targets@[j] == before[j],
            targets_ran(
                before.take(i as int),
                *old(world),
                *old(cli),
                targets@.take(i as int),
                *world,
                *cli,
            ),
        decreases before.len() - i,
    {
        let ghost list_mid = targets@;
        let ghost world_mid = *world;
        let ghost cli_mid = *cli;
        if targets[i].interaction == Interaction::Clicked {
            let entity = targets[i].entity;
            run_behaviors(&mut targets[i].behavior, entity, world, cli);
        }
        proof {
            lemma_targets_ran_push(
                before.take(i as int),
                *old(world),
                *old(cli),
                list_mid.take(i as int),
                world_mid,
                cli_mid,
                before[i as int],
                targets@[i as int],
                *world,
                *cli,
            );
            assert(before.take(i + 1) =~= before.take(i as int).push(before[i as int]));
            assert(targets@.take(i + 1) =~= list_mid.take(i as int).push(targets@[i as int]));
        }
        i = i + 1;
    }
    assert(before.take(before.len() as int) =~= before);
    assert(targets@.take(before.len() as int) =~= targets@);
}

} // verus!
