//! Deferred mutations: what commands ask for is queued while a line is
//! parsed and applied to the world as one batch afterwards.
use crate::dev_api::DevCommand;
use crate::reflect::{Instance, InstanceView};
use crate::world::World;
use vstd::prelude::*;

verus! {

/// A deferred unit of work: the filled payload of a command, to be carried
/// out by the command in `slot` of the console's list.
pub struct Mutation {
    pub slot: usize,
    pub command: Instance,
}

/// The model of a [`Mutation`].
pub struct MutationView {
    pub slot: usize,
    pub command: InstanceView,
}

impl View for Mutation {
    type V = MutationView;

    open spec fn view(&self) -> MutationView {
        MutationView { slot: self.slot, command: self.command@ }
    }
}

/// The mutations that wait to be applied, oldest first.
pub struct CommandQueue {
    pub pending: Vec<Mutation>,
}

impl View for CommandQueue {
    type V = Seq<MutationView>;

    open spec fn view(&self) -> Seq<MutationView> {
        self.pending@.map_values(|m: Mutation| m@)
    }
}

/// The world after the mutations from `from` on are carried out in order.
/// A mutation whose slot holds no command does nothing.
pub open spec fn run_mutations<C: DevCommand>(
    commands: Seq<C>,
    queue: Seq<MutationView>,
    from: int,
    world: Seq<InstanceView>,
) -> Seq<InstanceView>
    decreases queue.len() - from,
{
    if from < 0 || from >= queue.len() {
        world
    } else if queue[from].slot < commands.len() {
        run_mutations(
            commands,
            queue,
            from + 1,
            commands[queue[from].slot as int].effect(queue[from].command, world),
        )
    } else {
        run_mutations(commands, queue, from + 1, world)
    }
}

impl CommandQueue {
    /// An empty queue.
    pub fn new() -> (queue: CommandQueue)
        ensures
            queue@ == Seq::<MutationView>::empty(),
    {
        let queue = CommandQueue { pending: Vec::new() };
        assert(queue@ =~= Seq::<MutationView>::empty());
        queue
    }

    /// Queues a mutation behind those that wait.
    pub fn push(&mut self, mutation: Mutation)
        ensures
            final(self)@ == old(self)@.push(mutation@),
    {
        self.pending.push(mutation);
        assert(self@ =~= old(self)@.push(mutation@));
    }

    /// Carries out every mutation that waits, oldest first, and leaves the
    /// queue empty.
    pub fn apply<C: DevCommand>(&mut self, commands: &Vec<C>, world: &mut World)
        ensures
            final(self)@ == Seq::<MutationView>::empty(),
            final(world)@ == run_mutations(commands@, old(self)@, 0, old(world)@),
    {
        let mut i: usize = 0;
        while i < self.pending.len()
            invariant
                i <= self.pending.len(),
                *self == *old(self),
                run_mutations(commands@, self@, 0, old(world)@) == run_mutations(
                    commands@,
                    self@,
                    i as int,
                    world@,
                ),
            decreases self.pending.len() - i,
        {
            let mutation = &self.pending[i];
            if mutation.slot < commands.len() {
                commands[mutation.slot].apply(&mutation.command, world);
            }
            i += 1;
        }
        self.pending.clear();
        assert(self@ =~= Seq::<MutationView>::empty());
    }
}

} // verus!
