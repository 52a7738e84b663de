//! The conditions as dialogue scripts call them.
use vstd::prelude::*;
use crate::actor::FunctionLibrary;
use crate::conditionals::Condition;
use crate::world::World;

verus! {

/// Evaluates `condition` in `world` for a dialogue script.
pub fn conditional(world: &World, condition: Condition) -> (holds: bool)
    requires
        world.wf(),
    ensures
        holds == condition.spec_evaluate(*world),
{
    condition.evaluate(world)
}

/// The condition that always holds.
pub fn conditional_true(world: &World) -> (holds: bool)
    requires
        world.wf(),
    ensures
        holds,
{
    conditional(world, Condition::True)
}

/// Adds the conditions that dialogue scripts can call to `library`.
pub fn setup_yarnspinner_functions(library: &mut FunctionLibrary)
    ensures
        final(library).0@.len() == old(library).0@.len() + 1,
        final(library).0@.drop_last() == old(library).0@,
        final(library).0@.last()@ == "conditional_true"@,
{
    library.add_function("conditional_true");
}

} // verus!
