//! The insertion path: construct a resource once, edit it where it exists.

use vstd::prelude::*;

verus! {

/// Stands for the factory of a type that can be constructed from the host's
/// state alone, without a function of the caller's.
#[derive(Clone, Copy, Debug, Default, PartialEq, Eq, Structural)]
pub struct FromWorldFactory;

/// A request to make sure that an owner has a resource, to be carried out by
/// the host with exclusive access, at once or from its queue of deferred
/// commands. `F` constructs the resource and `E` edits it in place.
pub struct InsertCommand<F, E> {
    /// The owner that is to have the resource.
    pub entity: u64,
    /// Constructs the resource where the owner has none.
    pub insert_fn: F,
    /// Edits the resource where the owner has one already.
    pub edit_fn: Option<E>,
}

/// What the host has to do to carry a command out.
pub enum InsertStep<F, E> {
    /// Construct the resource with this factory and attach it to the owner.
    Construct(F),
    /// Apply this edit to the resource that the owner has.
    Edit(E),
    /// Leave the resource that the owner has as it is.
    Keep,
}

impl<F, E> InsertCommand<F, E> {
    /// What carrying the command out comes to, where `present` tells whether
    /// the owner has the resource already.
    pub open spec fn step(self, present: bool) -> InsertStep<F, E> {
        if !present {
            InsertStep::Construct(self.insert_fn)
        } else {
            match self.edit_fn {
                Some(edit) => InsertStep::Edit(edit),
                None => InsertStep::Keep,
            }
        }
    }

    /// Decides what the host has to do, where `present` tells whether the
    /// owner has the resource already. The factory is handed out only where
    /// it has not.
    pub fn resolve(self, present: bool) -> (step: InsertStep<F, E>)
        ensures
            step == self.step(present),
    {
        if !present {
            InsertStep::Construct(self.insert_fn)
        } else {
            match self.edit_fn {
                Some(edit) => InsertStep::Edit(edit),
                None => InsertStep::Keep,
            }
        }
    }
}

impl<F, E> InsertStep<F, E> {
    /// Whether the owner has the resource once the step is done.
    pub open spec fn present_after(self, present: bool) -> bool {
        present || self is Construct
    }

    pub fn is_construct(&self) -> (r: bool)
        ensures
            r == (*self is Construct),
    {
        match self {
            InsertStep::Construct(_) => true,
            _ => false,
        }
    }
}

/// The steps that `commands` come to when the host carries them out one after
/// the other, each one whole before the next, on one owner and one type of
/// resource, where `present` tells whether the owner has the resource at the
/// start.
pub open spec fn steps_in_turn<F, E>(present: bool, commands: Seq<InsertCommand<F, E>>) -> Seq<
    InsertStep<F, E>,
>
    decreases commands.len(),
{
    if commands.len() == 0 {
        Seq::empty()
    } else {
        let first = commands[0].step(present);
        seq![first] + steps_in_turn(first.present_after(present), commands.subrange(1, commands.len() as int))
    }
}

/// How many of `steps` construct the resource.
pub open spec fn constructions<F, E>(steps: Seq<InsertStep<F, E>>) -> nat
    decreases steps.len(),
{
    if steps.len() == 0 {
        0
    } else {
        constructions(steps.drop_last()) + if steps.last() is Construct {
            1nat
        } else {
            0nat
        }
    }
}

/// Where the owner has the resource, no command constructs it, however many
/// follow one another.
pub proof fn lemma_present_never_constructs<F, E>(commands: Seq<InsertCommand<F, E>>)
    ensures
        steps_in_turn(true, commands).len() == commands.len(),
        forall|i: int|
            0 <= i < commands.len() ==> !(#[trigger] steps_in_turn(true, commands)[i] is Construct),
        constructions(steps_in_turn(true, commands)) == 0,
    decreases commands.len(),
{
    if commands.len() > 0 {
        let rest = commands.subrange(1, commands.len() as int);
        lemma_present_never_constructs(rest);
        let steps = steps_in_turn(true, commands);
        lemma_constructions_none(steps);
    }
}

/// Steps of which none constructs count no construction.
proof fn lemma_constructions_none<F, E>(steps: Seq<InsertStep<F, E>>)
    requires
        forall|i: int| 0 <= i < steps.len() ==> !(#[trigger] steps[i] is Construct),
    ensures
        constructions(steps) == 0,
    decreases steps.len(),
{
    if steps.len() > 0 {
        lemma_constructions_none(steps.drop_last());
    }
}

/// The constructions of a sequence are those of its first step and those of
/// the rest.
proof fn lemma_constructions_first<F, E>(steps: Seq<InsertStep<F, E>>)
    requires
        steps.len() > 0,
    ensures
        constructions(steps) == constructions(steps.subrange(1, steps.len() as int)) + if steps[0] is Construct {
            1nat
        } else {
            0nat
        },
    decreases steps.len(),
{
    let rest = steps.subrange(1, steps.len() as int);
    if steps.len() == 1 {
        assert(steps.drop_last() =~= Seq::empty());
        assert(rest =~= Seq::empty());
    } else {
        lemma_constructions_first(steps.drop_last());
        assert(steps.drop_last().subrange(1, steps.len() - 1) =~= rest.drop_last());
        assert(rest.last() == steps.last());
        assert(steps.drop_last()[0] == steps[0]);
    }
}

/// Single construction. However many commands ask for the resource of one
/// type on one owner that has none, the host constructs it exactly once: for
/// the first of them.
pub proof fn lemma_single_construction<F, E>(commands: Seq<InsertCommand<F, E>>)
    requires
        commands.len() >= 1,
    ensures
        constructions(steps_in_turn(false, commands)) == 1,
        steps_in_turn(false, commands)[0] == InsertStep::<F, E>::Construct(commands[0].insert_fn),
{
    let rest = commands.subrange(1, commands.len() as int);
    let steps = steps_in_turn(false, commands);
    let first = commands[0].step(false);
    lemma_present_never_constructs(rest);
    assert(steps =~= seq![first] + steps_in_turn(true, rest));
    assert(steps.subrange(1, steps.len() as int) =~= steps_in_turn(true, rest));
    lemma_constructions_first(steps);
}

/// Edit, not reconstruct. A command for a resource that the owner has already
/// hands its edit out where it has one, and never its factory.
pub proof fn lemma_edit_not_reconstruct<F, E>(command: InsertCommand<F, E>)
    ensures
        !(command.step(true) is Construct),
        command.edit_fn matches Some(edit) ==> command.step(true) == InsertStep::<F, E>::Edit(edit),
        command.edit_fn is None ==> command.step(true) == InsertStep::<F, E>::Keep,
{
}

} // verus!
