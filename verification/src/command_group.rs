//! A command group is one scope that commands append into: its direct
//! commands, plus the loop and trigger blocks opened inside it.
use vstd::prelude::*;

use crate::command::{Command, LoopCommand, TriggerCommand};

verus! {

#[derive(Debug, PartialEq)]
pub struct CommandGroup {
    pub commands: Vec<Command>,
    pub loop_commands: Vec<LoopCommand>,
    pub trigger_commands: Vec<TriggerCommand>,
}

impl CommandGroup {
    pub fn new() -> (r: CommandGroup)
        ensures
            r.commands@.len() == 0,
            r.loop_commands@.len() == 0,
            r.trigger_commands@.len() == 0,
    {
        CommandGroup {
            commands: Vec::<Command>::new(),
            loop_commands: Vec::<LoopCommand>::new(),
            trigger_commands: Vec::<TriggerCommand>::new(),
        }
    }

    /// Appends a trigger block at the end of this scope.
    pub fn add_trigger(&mut self, command: TriggerCommand)
        ensures
            final(self).trigger_commands@ == old(self).trigger_commands@.push(command),
            final(self).commands@ == old(self).commands@,
            final(self).loop_commands@ == old(self).loop_commands@,
    {
        self.trigger_commands.push(command);
    }

    /// Appends a loop block at the end of this scope.
    pub fn add_loop(&mut self, command: LoopCommand)
        ensures
            final(self).loop_commands@ == old(self).loop_commands@.push(command),
            final(self).commands@ == old(self).commands@,
            final(self).trigger_commands@ == old(self).trigger_commands@,
    {
        self.loop_commands.push(command);
    }
}

} // verus!
