//! Systems, and routers that chain systems on a `Result` or an `Option`.
//!
//! A system is a unit of work that a scheduler runs against a world. Besides
//! running, it declares what it accesses, carries the tick at which it last
//! ran, and names itself. A router owns a primary system and its
//! continuations and is itself a system: it runs the primary one, looks at
//! what came back, and runs the continuation that belongs to that outcome.

use crate::access::{lemma_merge_empty, AccessDescriptor, AccessView};
use bevy::ecs::component::Tick;
use vstd::prelude::*;

verus! {

/// `bevy::ecs::component::Tick`, the scheduler's change tick. The crate only
/// carries ticks from one place to another.
#[verifier::external_type_specification]
#[verifier::external_body]
pub struct ExTick(Tick);

/// What a system says of itself without running.
pub struct SystemMeta<L> {
    /// The display name.
    pub name: Seq<char>,
    /// The declared access to components.
    pub component_access: AccessView,
    /// The declared access to the components of single archetypes.
    pub archetype_component_access: AccessView,
    /// Whether the system may run on any thread.
    pub is_send: bool,
    /// Whether the system must run alone.
    pub is_exclusive: bool,
    /// Whether the system holds deferred changes to the world.
    pub has_deferred: bool,
    /// The tick at which the system last ran.
    pub last_run: Tick,
    /// The system sets that the system belongs to by default.
    pub default_system_sets: Seq<L>,
}

/// A unit of work run against a world of type `W`.
///
/// Each operation that changes the system or the world comes with a relation
/// between the state before and the state after. An implementation chooses
/// its relations; a router's relations are built from those of its parts. A
/// relation that an implementation leaves out allows any outcome, and of a
/// [`System::meta`] that it leaves out nothing is known.
pub trait System<W>: Sized {
    /// What the system takes when it runs.
    type In;

    /// What the system gives back when it has run.
    type Out;

    /// The label of a system set.
    type Label;

    /// What the system says of itself.
    open spec fn meta(&self) -> SystemMeta<Self::Label> {
        arbitrary()
    }

    /// Whether a run on `input` in `world` may leave the system as `after`
    /// and the world as `world_after`, and return `out`.
    open spec fn ran(
        &self,
        input: Self::In,
        world: W,
        after: Self,
        world_after: W,
        out: Self::Out,
    ) -> bool {
        true
    }

    /// Whether initialization in `world` may leave the system as `after` and
    /// the world as `world_after`.
    open spec fn initialized(&self, world: W, after: Self, world_after: W) -> bool {
        true
    }

    /// Whether applying the deferred changes to `world` may leave the system
    /// as `after` and the world as `world_after`.
    open spec fn deferred_applied(&self, world: W, after: Self, world_after: W) -> bool {
        true
    }

    /// Whether bringing the archetype access up to date with `world` may
    /// leave the system as `after`.
    open spec fn archetype_access_updated(&self, world: W, after: Self) -> bool {
        true
    }

    /// Whether a check against `change_tick` may leave the system as `after`.
    open spec fn change_tick_checked(&self, change_tick: Tick, after: Self) -> bool {
        true
    }

    /// Whether setting the last run to `last_run` may leave the system as
    /// `after`.
    open spec fn last_run_set(&self, last_run: Tick, after: Self) -> bool {
        true
    }

    /// The system's name.
    fn name(&self) -> (name: String)
        ensures
            name@ == self.meta().name,
    ;

    /// The system's declared access to components.
    fn component_access(&self) -> (access: &AccessDescriptor)
        ensures
            access@ == self.meta().component_access,
    ;

    /// The system's declared access to the components of single archetypes.
    fn archetype_component_access(&self) -> (access: &AccessDescriptor)
        ensures
            access@ == self.meta().archetype_component_access,
    ;

    /// Whether the system may run on any thread.
    fn is_send(&self) -> (send: bool)
        ensures
            send == self.meta().is_send,
    ;

    /// Whether the system must run alone.
    fn is_exclusive(&self) -> (exclusive: bool)
        ensures
            exclusive == self.meta().is_exclusive,
    ;

    /// Whether the system holds deferred changes to the world.
    fn has_deferred(&self) -> (deferred: bool)
        ensures
            deferred == self.meta().has_deferred,
    ;

    /// Runs the system on `input`.
    fn run(&mut self, input: Self::In, world: &mut W) -> (out: Self::Out)
        ensures
            old(self).ran(input, *old(world), *final(self), *final(world), out),
    ;

    /// Applies the deferred changes of the system to the world.
    fn apply_deferred(&mut self, world: &mut W)
        ensures
            old(self).deferred_applied(*old(world), *final(self), *final(world)),
    ;

    /// Prepares the system for running in `world`.
    fn initialize(&mut self, world: &mut W)
        ensures
            old(self).initialized(*old(world), *final(self), *final(world)),
    ;

    /// Brings the archetype access up to date with `world`.
    fn update_archetype_component_access(&mut self, world: &W)
        ensures
            old(self).archetype_access_updated(*world, *final(self)),
    ;

    /// Lets the system wrap the ticks it holds that are too old for
    /// `change_tick`.
    fn check_change_tick(&mut self, change_tick: Tick)
        ensures
            old(self).change_tick_checked(change_tick, *final(self)),
    ;

    /// The tick at which the system last ran.
    fn get_last_run(&self) -> (last_run: Tick)
        ensures
            last_run == self.meta().last_run,
    ;

    /// Overwrites the tick at which the system last ran.
    fn set_last_run(&mut self, last_run: Tick)
        ensures
            old(self).last_run_set(last_run, *final(self)),
            final(self).meta().last_run == last_run,
    ;

    /// The system sets that the system belongs to by default.
    fn default_system_sets(&self) -> (sets: Vec<Self::Label>)
        ensures
            sets@ == self.meta().default_system_sets,
    ;
}

/// The name of a router on a `Result`, from the names of its parts.
pub open spec fn chain_result_name(primary: Seq<char>, ok: Seq<char>, err: Seq<char>) -> Seq<char> {
    "ChainResult("@ + primary + " -> "@ + ok + " / "@ + err + ")"@
}

/// The name of a router on an `Option`, from the names of its parts.
pub open spec fn chain_optional_name(primary: Seq<char>, some: Seq<char>) -> Seq<char> {
    "ChainOptional("@ + primary + " -> "@ + some + ")"@
}

/// A system that runs a primary system and then one of two others, by the
/// `Result` that the primary one returned. The value inside the `Result` is
/// the input of the system that runs second, and what that system returns is
/// what the router returns.
///
/// Of itself the router says: its name, made of the names of its parts when
/// it was put together; the access it has merged from its parts; that it may
/// run on any thread if every part may; that it must run alone if some part
/// may run on any thread; that it holds deferred changes if some part does;
/// the last run of its primary system; and the default sets of its parts,
/// primary system first.
pub struct ChainResultSystem<SystemIn, SystemOk, SystemErr> {
    system_in: SystemIn,
    system_ok: SystemOk,
    system_err: SystemErr,
    name: String,
    component_access: AccessDescriptor,
    archetype_component_access: AccessDescriptor,
}

impl<SystemIn, SystemOk, SystemErr> ChainResultSystem<SystemIn, SystemOk, SystemErr> {
    /// The primary system.
    pub closed spec fn primary(&self) -> SystemIn {
        self.system_in
    }

    /// The system that continues after `Ok`.
    pub closed spec fn on_ok(&self) -> SystemOk {
        self.system_ok
    }

    /// The system that continues after `Err`.
    pub closed spec fn on_err(&self) -> SystemErr {
        self.system_err
    }

    /// The router's name.
    pub closed spec fn label(&self) -> Seq<char> {
        self.name@
    }

    /// The component access that the router has merged so far.
    pub closed spec fn merged_component_access(&self) -> AccessView {
        self.component_access@
    }

    /// The archetype component access that the router has merged so far.
    pub closed spec fn merged_archetype_component_access(&self) -> AccessView {
        self.archetype_component_access@
    }

    /// Whether `after` has the name and the merged access of `self`.
    pub open spec fn same_own_state(&self, after: Self) -> bool {
        &&& after.label() == self.label()
        &&& after.merged_component_access() == self.merged_component_access()
        &&& after.merged_archetype_component_access() == self.merged_archetype_component_access()
    }

    /// The primary system and the two continuations, `Ok` before `Err`.
    pub fn parts(&self) -> (parts: (&SystemIn, &SystemOk, &SystemErr))
        ensures
            *parts.0 == self.primary(),
            *parts.1 == self.on_ok(),
            *parts.2 == self.on_err(),
    {
        (&self.system_in, &self.system_ok, &self.system_err)
    }

    /// The primary system and the two continuations, `Ok` before `Err`, to
    /// be changed in place. The router's name and merged access stay.
    pub fn parts_mut(&mut self) -> ((primary, ok, err): (
        &mut SystemIn,
        &mut SystemOk,
        &mut SystemErr,
    ))
        ensures
            *primary == old(self).primary(),
            *ok == old(self).on_ok(),
            *err == old(self).on_err(),
            final(self).primary() == *final(primary),
            final(self).on_ok() == *final(ok),
            final(self).on_err() == *final(err),
            old(self).same_own_state(*final(self)),
    {
        (&mut self.system_in, &mut self.system_ok, &mut self.system_err)
    }
}

impl<W, T, E, O, SystemIn, SystemOk, SystemErr> System<W> for ChainResultSystem<
    SystemIn,
    SystemOk,
    SystemErr,
> where
    SystemIn: System<W, Out = Result<T, E>>,
    SystemOk: System<W, In = T, Out = O, Label = SystemIn::Label>,
    SystemErr: System<W, In = E, Out = O, Label = SystemIn::Label>,
 {
    type In = SystemIn::In;

    type Out = O;

    type Label = SystemIn::Label;

    open spec fn meta(&self) -> SystemMeta<SystemIn::Label> {
        SystemMeta {
            name: self.label(),
            component_access: self.merged_component_access(),
            archetype_component_access: self.merged_archetype_component_access(),
            is_send: self.primary().meta().is_send && self.on_ok().meta().is_send
                && self.on_err().meta().is_send,
            is_exclusive: self.primary().meta().is_send || self.on_ok().meta().is_send
                || self.on_err().meta().is_send,
            has_deferred: self.primary().meta().has_deferred || self.on_ok().meta().has_deferred
                || self.on_err().meta().has_deferred,
            last_run: self.primary().meta().last_run,
            default_system_sets: self.primary().meta().default_system_sets
                + self.on_ok().meta().default_system_sets
                + self.on_err().meta().default_system_sets,
        }
    }

    open spec fn ran(&self, input: Self::In, world: W, after: Self, world_after: W, out: O) -> bool {
        &&& self.same_own_state(after)
        &&& exists|mid: W, outcome: Result<T, E>|
            {
                &&& #[trigger] self.primary().ran(input, world, after.primary(), mid, outcome)
                &&& match outcome {
                    Ok(t) => {
                        &&& self.on_ok().ran(t, mid, after.on_ok(), world_after, out)
                        &&& after.on_err() == self.on_err()
                    },
                    Err(e) => {
                        &&& self.on_err().ran(e, mid, after.on_err(), world_after, out)
                        &&& after.on_ok() == self.on_ok()
                    },
                }
            }
    }

    open spec fn initialized(&self, world: W, after: Self, world_after: W) -> bool {
        &&& after.label() == self.label()
        &&& after.merged_archetype_component_access() == self.merged_archetype_component_access()
        &&& after.merged_component_access() == self.merged_component_access().merge(
            after.primary().meta().component_access,
        ).merge(after.on_ok().meta().component_access).merge(
            after.on_err().meta().component_access,
        )
        &&& exists|first: W, second: W|
            {
                &&& #[trigger] self.primary().initialized(world, after.primary(), first)
                &&& #[trigger] self.on_ok().initialized(first, after.on_ok(), second)
                &&& self.on_err().initialized(second, after.on_err(), world_after)
            }
    }

    open spec fn deferred_applied(&self, world: W, after: Self, world_after: W) -> bool {
        &&& self.same_own_state(after)
        &&& exists|first: W, second: W|
            {
                &&& #[trigger] self.primary().deferred_applied(world, after.primary(), first)
                &&& #[trigger] self.on_ok().deferred_applied(first, after.on_ok(), second)
                &&& self.on_err().deferred_applied(second, after.on_err(), world_after)
            }
    }

    open spec fn archetype_access_updated(&self, world: W, after: Self) -> bool {
        &&& after.label() == self.label()
        &&& after.merged_component_access() == self.merged_component_access()
        &&& after.merged_archetype_component_access()
            == self.merged_archetype_component_access().merge(
            after.primary().meta().archetype_component_access,
        ).merge(after.on_ok().meta().archetype_component_access).merge(
            after.on_err().meta().archetype_component_access,
        )
        &&& self.primary().archetype_access_updated(world, after.primary())
        &&& self.on_ok().archetype_access_updated(world, after.on_ok())
        &&& self.on_err().archetype_access_updated(world, after.on_err())
    }

    open spec fn change_tick_checked(&self, change_tick: Tick, after: Self) -> bool {
        &&& self.same_own_state(after)
        &&& self.primary().change_tick_checked(change_tick, after.primary())
        &&& self.on_ok().change_tick_checked(change_tick, after.on_ok())
        &&& self.on_err().change_tick_checked(change_tick, after.on_err())
    }

    open spec fn last_run_set(&self, last_run: Tick, after: Self) -> bool {
        &&& self.same_own_state(after)
        &&& self.primary().last_run_set(last_run, after.primary())
        &&& self.on_ok().last_run_set(last_run, after.on_ok())
        &&& self.on_err().last_run_set(last_run, after.on_err())
        &&& after.primary().meta().last_run == last_run
        &&& after.on_ok().meta().last_run == last_run
        &&& after.on_err().meta().last_run == last_run
    }

    fn name(&self) -> (name: String) {
        self.name.clone()
    }

    fn component_access(&self) -> (access: &AccessDescriptor) {
        &self.component_access
    }

    fn archetype_component_access(&self) -> (access: &AccessDescriptor) {
        &self.archetype_component_access
    }

    fn is_send(&self) -> (send: bool) {
        self.system_in.is_send() && self.system_ok.is_send() && self.system_err.is_send()
    }

    fn is_exclusive(&self) -> (exclusive: bool) {
        self.system_in.is_send() || self.system_ok.is_send() || self.system_err.is_send()
    }

    fn has_deferred(&self) -> (deferred: bool) {
        self.system_in.has_deferred() || self.system_ok.has_deferred()
            || self.system_err.has_deferred()
    }

    fn run(&mut self, input: Self::In, world: &mut W) -> (out: O) {
        let outcome = self.system_in.run(input, world);
        let ghost mid = *world;
        let out = match outcome {
            Ok(t) => self.system_ok.run(t, world),
            Err(e) => self.system_err.run(e, world),
        };
        assert(old(self).primary().ran(input, *old(world), self.primary(), mid, outcome));
        out
    }

    fn apply_deferred(&mut self, world: &mut W) {
        self.system_in.apply_deferred(world);
        let ghost first = *world;
        self.system_ok.apply_deferred(world);
        let ghost second = *world;
        self.system_err.apply_deferred(world);
        assert(old(self).primary().deferred_applied(*old(world), self.primary(), first));
        assert(old(self).on_ok().deferred_applied(first, self.on_ok(), second));
    }

    fn initialize(&mut self, world: &mut W) {
        self.system_in.initialize(world);
        let ghost first = *world;
        self.system_ok.initialize(world);
        let ghost second = *world;
        self.system_err.initialize(world);
        assert(old(self).primary().initialized(*old(world), self.primary(), first));
        assert(old(self).on_ok().initialized(first, self.on_ok(), second));
        self.component_access.extend(self.system_in.component_access());
        self.component_access.extend(self.system_ok.component_access());
        self.component_access.extend(self.system_err.component_access());
    }

    fn update_archetype_component_access(&mut self, world: &W) {
        self.system_in.update_archetype_component_access(world);
        self.system_ok.update_archetype_component_access(world);
        self.system_err.update_archetype_component_access(world);
        self.archetype_component_access.extend(self.system_in.archetype_component_access());
        self.archetype_component_access.extend(self.system_ok.archetype_component_access());
        self.archetype_component_access.extend(self.system_err.archetype_component_access());
    }

    fn check_change_tick(&mut self, change_tick: Tick) {
        self.system_in.check_change_tick(change_tick);
        self.system_ok.check_change_tick(change_tick);
        self.system_err.check_change_tick(change_tick);
    }

    fn get_last_run(&self) -> (last_run: Tick) {
        self.system_in.get_last_run()
    }

    fn set_last_run(&mut self, last_run: Tick) {
        self.system_in.set_last_run(last_run);
        self.system_ok.set_last_run(last_run);
        self.system_err.set_last_run(last_run);
    }

    fn default_system_sets(&self) -> (sets: Vec<SystemIn::Label>) {
        let mut default_sets = self.system_in.default_system_sets();
        let mut ok_sets = self.system_ok.default_system_sets();
        let mut err_sets = self.system_err.default_system_sets();
        default_sets.append(&mut ok_sets);
        default_sets.append(&mut err_sets);
        default_sets
    }
}


/// Composition of a router on a `Result`.
pub trait IntoChainResultSystem<W, T, E, Out, SysOk, SysErr>: System<
    W,
    Out = Result<T, E>,
> where
    SysOk: System<W, In = T, Out = Out, Label = Self::Label>,
    SysErr: System<W, In = E, Out = Out, Label = Self::Label>,
 {
    /// Makes the router that runs `self`, then `ok` on what `Ok` holds or
    /// `err` on what `Err` holds. The router is named after its three parts
    /// and has merged no access yet.
    fn chain_result(self, ok: SysOk, err: SysErr) -> (chained: ChainResultSystem<
        Self,
        SysOk,
        SysErr,
    >)
        ensures
            chained.primary() == self,
            chained.on_ok() == ok,
            chained.on_err() == err,
            chained.label() == chain_result_name(
                self.meta().name,
                ok.meta().name,
                err.meta().name,
            ),
            chained.merged_component_access() == AccessView::empty(),
            chained.merged_archetype_component_access() == AccessView::empty(),
    ;
}

impl<W, T, E, Out, SysIn, SysOk, SysErr> IntoChainResultSystem<
    W,
    T,
    E,
    Out,
    SysOk,
    SysErr,
> for SysIn where
    SysIn: System<W, Out = Result<T, E>>,
    SysOk: System<W, In = T, Out = Out, Label = SysIn::Label>,
    SysErr: System<W, In = E, Out = Out, Label = SysIn::Label>,
 {
    fn chain_result(self, ok: SysOk, err: SysErr) -> (chained: ChainResultSystem<
        SysIn,
        SysOk,
        SysErr,
    >) {
        let mut name = String::from_str("ChainResult(");
        name.append(self.name().as_str());
        name.append(" -> ");
        name.append(ok.name().as_str());
        name.append(" / ");
        name.append(err.name().as_str());
        name.append(")");
        ChainResultSystem {
            system_in: self,
            system_ok: ok,
            system_err: err,
            name,
            component_access: AccessDescriptor::new(),
            archetype_component_access: AccessDescriptor::new(),
        }
    }
}

/// A system that runs a primary system and then, if that returned `Some`, a
/// second one on the value inside. What the second system returns is what
/// the router returns; after `None` the router returns the default value of
/// its output type and runs nothing more.
///
/// Of itself the router says: its name, made of the names of its parts when
/// it was put together; the access it has merged from its parts; that it may
/// run on any thread if both parts may; that it must run alone if one part
/// may run on any thread; that it holds deferred changes if one part does;
/// the last run of its primary system; and the default sets of its parts,
/// primary system first.
pub struct ChainOptionalSystem<SystemIn, SystemSome> {
    system_in: SystemIn,
    system_some: SystemSome,
    name: String,
    component_access: AccessDescriptor,
    archetype_component_access: AccessDescriptor,
}

impl<SystemIn, SystemSome> ChainOptionalSystem<SystemIn, SystemSome> {
    /// The primary system.
    pub closed spec fn primary(&self) -> SystemIn {
        self.system_in
    }

    /// The system that continues after `Some`.
    pub closed spec fn on_some(&self) -> SystemSome {
        self.system_some
    }

    /// The router's name.
    pub closed spec fn label(&self) -> Seq<char> {
        self.name@
    }

    /// The component access that the router has merged so far.
    pub closed spec fn merged_component_access(&self) -> AccessView {
        self.component_access@
    }

    /// The archetype component access that the router has merged so far.
    pub closed spec fn merged_archetype_component_access(&self) -> AccessView {
        self.archetype_component_access@
    }

    /// Whether `after` has the name and the merged access of `self`.
    pub open spec fn same_own_state(&self, after: Self) -> bool {
        &&& after.label() == self.label()
        &&& after.merged_component_access() == self.merged_component_access()
        &&& after.merged_archetype_component_access() == self.merged_archetype_component_access()
    }

    /// The primary system and the continuation.
    pub fn parts(&self) -> (parts: (&SystemIn, &SystemSome))
        ensures
            *parts.0 == self.primary(),
            *parts.1 == self.on_some(),
    {
        (&self.system_in, &self.system_some)
    }

    /// The primary system and the continuation, to be changed in place. The
    /// router's name and merged access stay.
    pub fn parts_mut(&mut self) -> ((primary, some): (&mut SystemIn, &mut SystemSome))
        ensures
            *primary == old(self).primary(),
            *some == old(self).on_some(),
            final(self).primary() == *final(primary),
            final(self).on_some() == *final(some),
            old(self).same_own_state(*final(self)),
    {
        (&mut self.system_in, &mut self.system_some)
    }
}

impl<W, T, O: Default, SystemIn, SystemSome> System<W> for ChainOptionalSystem<
    SystemIn,
    SystemSome,
> where
    SystemIn: System<W, Out = Option<T>>,
    SystemSome: System<W, In = T, Out = O, Label = SystemIn::Label>,
 {
    type In = SystemIn::In;

    type Out = O;

    type Label = SystemIn::Label;

    open spec fn meta(&self) -> SystemMeta<SystemIn::Label> {
        SystemMeta {
            name: self.label(),
            component_access: self.merged_component_access(),
            archetype_component_access: self.merged_archetype_component_access(),
            is_send: self.primary().meta().is_send && self.on_some().meta().is_send,
            is_exclusive: self.primary().meta().is_send || self.on_some().meta().is_send,
            has_deferred: self.primary().meta().has_deferred || self.on_some().meta().has_deferred,
            last_run: self.primary().meta().last_run,
            default_system_sets: self.primary().meta().default_system_sets
                + self.on_some().meta().default_system_sets,
        }
    }

    open spec fn ran(&self, input: Self::In, world: W, after: Self, world_after: W, out: O) -> bool {
        &&& self.same_own_state(after)
        &&& exists|mid: W, outcome: Option<T>|
            {
                &&& #[trigger] self.primary().ran(input, world, after.primary(), mid, outcome)
                &&& match outcome {
                    Some(t) => self.on_some().ran(t, mid, after.on_some(), world_after, out),
                    None => {
                        &&& call_ensures(O::default, (), out)
                        &&& after.on_some() == self.on_some()
                        &&& world_after == mid
                    },
                }
            }
    }

    open spec fn initialized(&self, world: W, after: Self, world_after: W) -> bool {
        &&& after.label() == self.label()
        &&& after.merged_archetype_component_access() == self.merged_archetype_component_access()
        &&& after.merged_component_access() == self.merged_component_access().merge(
            after.primary().meta().component_access,
        ).merge(after.on_some().meta().component_access)
        &&& exists|first: W|
            {
                &&& #[trigger] self.primary().initialized(world, after.primary(), first)
                &&& self.on_some().initialized(first, after.on_some(), world_after)
            }
    }

    open spec fn deferred_applied(&self, world: W, after: Self, world_after: W) -> bool {
        &&& self.same_own_state(after)
        &&& exists|first: W|
            {
                &&& #[trigger] self.primary().deferred_applied(world, after.primary(), first)
                &&& self.on_some().deferred_applied(first, after.on_some(), world_after)
            }
    }

    open spec fn archetype_access_updated(&self, world: W, after: Self) -> bool {
        &&& after.label() == self.label()
        &&& after.merged_component_access() == self.merged_component_access()
        &&& after.merged_archetype_component_access()
            == self.merged_archetype_component_access().merge(
            after.primary().meta().archetype_component_access,
        ).merge(after.on_some().meta().archetype_component_access)
        &&& self.primary().archetype_access_updated(world, after.primary())
        &&& self.on_some().archetype_access_updated(world, after.on_some())
    }

    open spec fn change_tick_checked(&self, change_tick: Tick, after: Self) -> bool {
        &&& self.same_own_state(after)
        &&& self.primary().change_tick_checked(change_tick, after.primary())
        &&& self.on_some().change_tick_checked(change_tick, after.on_some())
    }

    open spec fn last_run_set(&self, last_run: Tick, after: Self) -> bool {
        &&& self.same_own_state(after)
        &&& self.primary().last_run_set(last_run, after.primary())
        &&& self.on_some().last_run_set(last_run, after.on_some())
        &&& after.primary().meta().last_run == last_run
        &&& after.on_some().meta().last_run == last_run
    }

    fn name(&self) -> (name: String) {
        self.name.clone()
    }

    fn component_access(&self) -> (access: &AccessDescriptor) {
        &self.component_access
    }

    fn archetype_component_access(&self) -> (access: &AccessDescriptor) {
        &self.archetype_component_access
    }

    fn is_send(&self) -> (send: bool) {
        self.system_in.is_send() && self.system_some.is_send()
    }

    fn is_exclusive(&self) -> (exclusive: bool) {
        self.system_in.is_send() || self.system_some.is_send()
    }

    fn has_deferred(&self) -> (deferred: bool) {
        self.system_in.has_deferred() || self.system_some.has_deferred()
    }

    fn run(&mut self, input: Self::In, world: &mut W) -> (out: O) {
        let outcome = self.system_in.run(input, world);
        let ghost mid = *world;
        let out = if let Some(t) = outcome {
            self.system_some.run(t, world)
        } else {
            O::default()
        };
        assert(old(self).primary().ran(input, *old(world), self.primary(), mid, outcome));
        out
    }

    fn apply_deferred(&mut self, world: &mut W) {
        self.system_in.apply_deferred(world);
        let ghost first = *world;
        self.system_some.apply_deferred(world);
        assert(old(self).primary().deferred_applied(*old(world), self.primary(), first));
    }

    fn initialize(&mut self, world: &mut W) {
        self.system_in.initialize(world);
        let ghost first = *world;
        self.system_some.initialize(world);
        assert(old(self).primary().initialized(*old(world), self.primary(), first));
        self.component_access.extend(self.system_in.component_access());
        self.component_access.extend(self.system_some.component_access());
    }

    fn update_archetype_component_access(&mut self, world: &W) {
        self.system_in.update_archetype_component_access(world);
        self.system_some.update_archetype_component_access(world);
        self.archetype_component_access.extend(self.system_in.archetype_component_access());
        self.archetype_component_access.extend(self.system_some.archetype_component_access());
    }

    fn check_change_tick(&mut self, change_tick: Tick) {
        self.system_in.check_change_tick(change_tick);
        self.system_some.check_change_tick(change_tick);
    }

    fn get_last_run(&self) -> (last_run: Tick) {
        self.system_in.get_last_run()
    }

    fn set_last_run(&mut self, last_run: Tick) {
        self.system_in.set_last_run(last_run);
        self.system_some.set_last_run(last_run);
    }

    fn default_system_sets(&self) -> (sets: Vec<SystemIn::Label>) {
        let mut default_sets = self.system_in.default_system_sets();
        let mut some_sets = self.system_some.default_system_sets();
        default_sets.append(&mut some_sets);
        default_sets
    }
}

/// Composition of a router on an `Option`.
pub trait IntoChainOptionalSystem<W, T, Out, SysSome>: System<W, Out = Option<T>> where
    SysSome: System<W, In = T, Out = Out, Label = Self::Label>,
 {
    /// Makes the router that runs `self` and then `system` on what `Some`
    /// holds. The router is named after its two parts and has merged no
    /// access yet.
    fn chain_optional(self, system: SysSome) -> (chained: ChainOptionalSystem<Self, SysSome>)
        ensures
            chained.primary() == self,
            chained.on_some() == system,
            chained.label() == chain_optional_name(self.meta().name, system.meta().name),
            chained.merged_component_access() == AccessView::empty(),
            chained.merged_archetype_component_access() == AccessView::empty(),
    ;
}

impl<W, T, Out, SysIn, SysSome> IntoChainOptionalSystem<W, T, Out, SysSome> for SysIn where
    SysIn: System<W, Out = Option<T>>,
    SysSome: System<W, In = T, Out = Out, Label = SysIn::Label>,
 {
    fn chain_optional(self, system: SysSome) -> (chained: ChainOptionalSystem<SysIn, SysSome>) {
        let mut name = String::from_str("ChainOptional(");
        name.append(self.name().as_str());
        name.append(" -> ");
        name.append(system.name().as_str());
        name.append(")");
        ChainOptionalSystem {
            system_in: self,
            system_some: system,
            name,
            component_access: AccessDescriptor::new(),
            archetype_component_access: AccessDescriptor::new(),
        }
    }
}


/// When the primary system cannot have returned `Err`, a run of the router is
/// a run of the primary system that returned some `Ok(t)`, followed by a run
/// of the `Ok` continuation on `t` whose output is the router's output. The
/// `Err` continuation did not run: it is as it was.
pub proof fn lemma_chain_result_ok<W, T, E, O, SystemIn, SystemOk, SystemErr>(
    router: ChainResultSystem<SystemIn, SystemOk, SystemErr>,
    input: SystemIn::In,
    world: W,
    after: ChainResultSystem<SystemIn, SystemOk, SystemErr>,
    world_after: W,
    out: O,
) where
    SystemIn: System<W, Out = Result<T, E>>,
    SystemOk: System<W, In = T, Out = O, Label = SystemIn::Label>,
    SystemErr: System<W, In = E, Out = O, Label = SystemIn::Label>,

    requires
        router.ran(input, world, after, world_after, out),
        forall|mid: W, e: E| !router.primary().ran(input, world, after.primary(), mid, Err(e)),
    ensures
        exists|mid: W, t: T|
            {
                &&& #[trigger] router.primary().ran(input, world, after.primary(), mid, Ok(t))
                &&& router.on_ok().ran(t, mid, after.on_ok(), world_after, out)
            },
        after.on_err() == router.on_err(),
{
    let (mid, outcome) = choose|mid: W, outcome: Result<T, E>|
        {
            &&& #[trigger] router.primary().ran(input, world, after.primary(), mid, outcome)
            &&& match outcome {
                Ok(t) => {
                    &&& router.on_ok().ran(t, mid, after.on_ok(), world_after, out)
                    &&& after.on_err() == router.on_err()
                },
                Err(e) => {
                    &&& router.on_err().ran(e, mid, after.on_err(), world_after, out)
                    &&& after.on_ok() == router.on_ok()
                },
            }
        };
    match outcome {
        Ok(t) => {
            assert(router.primary().ran(input, world, after.primary(), mid, Ok(t)));
        },
        Err(e) => {
            assert(!router.primary().ran(input, world, after.primary(), mid, Err(e)));
        },
    }
}

/// When the primary system cannot have returned `Ok`, a run of the router is
/// a run of the primary system that returned some `Err(e)`, followed by a run
/// of the `Err` continuation on `e` whose output is the router's output. The
/// `Ok` continuation did not run: it is as it was.
pub proof fn lemma_chain_result_err<W, T, E, O, SystemIn, SystemOk, SystemErr>(
    router: ChainResultSystem<SystemIn, SystemOk, SystemErr>,
    input: SystemIn::In,
    world: W,
    after: ChainResultSystem<SystemIn, SystemOk, SystemErr>,
    world_after: W,
    out: O,
) where
    SystemIn: System<W, Out = Result<T, E>>,
    SystemOk: System<W, In = T, Out = O, Label = SystemIn::Label>,
    SystemErr: System<W, In = E, Out = O, Label = SystemIn::Label>,

    requires
        router.ran(input, world, after, world_after, out),
        forall|mid: W, t: T| !router.primary().ran(input, world, after.primary(), mid, Ok(t)),
    ensures
        exists|mid: W, e: E|
            {
                &&& #[trigger] router.primary().ran(input, world, after.primary(), mid, Err(e))
                &&& router.on_err().ran(e, mid, after.on_err(), world_after, out)
            },
        after.on_ok() == router.on_ok(),
{
    let (mid, outcome) = choose|mid: W, outcome: Result<T, E>|
        {
            &&& #[trigger] router.primary().ran(input, world, after.primary(), mid, outcome)
            &&& match outcome {
                Ok(t) => {
                    &&& router.on_ok().ran(t, mid, after.on_ok(), world_after, out)
                    &&& after.on_err() == router.on_err()
                },
                Err(e) => {
                    &&& router.on_err().ran(e, mid, after.on_err(), world_after, out)
                    &&& after.on_ok() == router.on_ok()
                },
            }
        };
    match outcome {
        Ok(t) => {
            assert(!router.primary().ran(input, world, after.primary(), mid, Ok(t)));
        },
        Err(e) => {
            assert(router.primary().ran(input, world, after.primary(), mid, Err(e)));
        },
    }
}

/// When the primary system cannot have returned `Some`, the router returns a
/// default value of its output type. The continuation did not run: it is as
/// it was, and the world is as the primary system left it.
pub proof fn lemma_chain_optional_none<W, T, O: Default, SystemIn, SystemSome>(
    router: ChainOptionalSystem<SystemIn, SystemSome>,
    input: SystemIn::In,
    world: W,
    after: ChainOptionalSystem<SystemIn, SystemSome>,
    world_after: W,
    out: O,
) where
    SystemIn: System<W, Out = Option<T>>,
    SystemSome: System<W, In = T, Out = O, Label = SystemIn::Label>,

    requires
        router.ran(input, world, after, world_after, out),
        forall|mid: W, t: T| !router.primary().ran(input, world, after.primary(), mid, Some(t)),
    ensures
        call_ensures(O::default, (), out),
        after.on_some() == router.on_some(),
        router.primary().ran(input, world, after.primary(), world_after, None),
{
    let (mid, outcome) = choose|mid: W, outcome: Option<T>|
        {
            &&& #[trigger] router.primary().ran(input, world, after.primary(), mid, outcome)
            &&& match outcome {
                Some(t) => router.on_some().ran(t, mid, after.on_some(), world_after, out),
                None => {
                    &&& call_ensures(O::default, (), out)
                    &&& after.on_some() == router.on_some()
                    &&& world_after == mid
                },
            }
        };
    match outcome {
        Some(t) => {
            assert(!router.primary().ran(input, world, after.primary(), mid, Some(t)));
        },
        None => {},
    }
}

/// When the primary system cannot have returned `None`, a run of the router
/// is a run of the primary system that returned some `Some(t)`, followed by a
/// run of the continuation on `t` whose output is the router's output.
pub proof fn lemma_chain_optional_some<W, T, O: Default, SystemIn, SystemSome>(
    router: ChainOptionalSystem<SystemIn, SystemSome>,
    input: SystemIn::In,
    world: W,
    after: ChainOptionalSystem<SystemIn, SystemSome>,
    world_after: W,
    out: O,
) where
    SystemIn: System<W, Out = Option<T>>,
    SystemSome: System<W, In = T, Out = O, Label = SystemIn::Label>,

    requires
        router.ran(input, world, after, world_after, out),
        forall|mid: W| !router.primary().ran(input, world, after.primary(), mid, None),
    ensures
        exists|mid: W, t: T|
            {
                &&& #[trigger] router.primary().ran(input, world, after.primary(), mid, Some(t))
                &&& router.on_some().ran(t, mid, after.on_some(), world_after, out)
            },
{
    let (mid, outcome) = choose|mid: W, outcome: Option<T>|
        {
            &&& #[trigger] router.primary().ran(input, world, after.primary(), mid, outcome)
            &&& match outcome {
                Some(t) => router.on_some().ran(t, mid, after.on_some(), world_after, out),
                None => {
                    &&& call_ensures(O::default, (), out)
                    &&& after.on_some() == router.on_some()
                    &&& world_after == mid
                },
            }
        };
    match outcome {
        Some(t) => {
            assert(router.primary().ran(input, world, after.primary(), mid, Some(t)));
        },
        None => {
            assert(!router.primary().ran(input, world, after.primary(), mid, None));
        },
    }
}

/// A router on a `Result` that had merged nothing before it was initialized
/// declares exactly the union of what its three parts declare.
pub proof fn lemma_chain_result_access_is_union<W, T, E, O, SystemIn, SystemOk, SystemErr>(
    router: ChainResultSystem<SystemIn, SystemOk, SystemErr>,
    world: W,
    after: ChainResultSystem<SystemIn, SystemOk, SystemErr>,
    world_after: W,
) where
    SystemIn: System<W, Out = Result<T, E>>,
    SystemOk: System<W, In = T, Out = O, Label = SystemIn::Label>,
    SystemErr: System<W, In = E, Out = O, Label = SystemIn::Label>,

    requires
        router.merged_component_access() == AccessView::empty(),
        router.initialized(world, after, world_after),
    ensures
        after.meta().component_access == after.primary().meta().component_access.merge(
            after.on_ok().meta().component_access,
        ).merge(after.on_err().meta().component_access),
{
    lemma_merge_empty(after.primary().meta().component_access);
}

/// A router on an `Option` that had merged nothing before it was initialized
/// declares exactly the union of what its two parts declare.
pub proof fn lemma_chain_optional_access_is_union<W, T, O: Default, SystemIn, SystemSome>(
    router: ChainOptionalSystem<SystemIn, SystemSome>,
    world: W,
    after: ChainOptionalSystem<SystemIn, SystemSome>,
    world_after: W,
) where
    SystemIn: System<W, Out = Option<T>>,
    SystemSome: System<W, In = T, Out = O, Label = SystemIn::Label>,

    requires
        router.merged_component_access() == AccessView::empty(),
        router.initialized(world, after, world_after),
    ensures
        after.meta().component_access == after.primary().meta().component_access.merge(
            after.on_some().meta().component_access,
        ),
{
    lemma_merge_empty(after.primary().meta().component_access);
}

} // verus!
