//! The execution policy: which external commands a program may run and
//! whether it may read or write the filesystem.

use vstd::prelude::*;

use crate::text::str_eq;

verus! {

/// One command that the policy allows, `run.<group>.<command>(...)`.
pub struct CommandPolicy {
    pub group: String,
    pub command: String,
    pub program: String,
    pub read_args: Vec<usize>,
    pub write_args: Vec<usize>,
}

pub struct ExecutionPolicy {
    pub commands: Vec<CommandPolicy>,
    pub read_roots: Vec<String>,
    pub write_roots: Vec<String>,
}

/// The first allowed command named `group.command`.
pub open spec fn command_index(commands: Seq<CommandPolicy>, group: Seq<char>, command: Seq<char>) -> Option<int>
    decreases commands.len(),
{
    if commands.len() == 0 {
        None
    } else if commands[0].group@ == group && commands[0].command@ == command {
        Some(0)
    } else {
        match command_index(commands.drop_first(), group, command) {
            Some(i) => Some(i + 1),
            None => None,
        }
    }
}

/// What a policy allows, as plain values: each allowed command as
/// (group, command, program, read arguments, write arguments), then the
/// read roots and the write roots.
pub type PolicyModel = (Seq<(Seq<char>, Seq<char>, Seq<char>, Seq<usize>, Seq<usize>)>, Seq<String>, Seq<String>);

/// The policy that allows nothing.
pub open spec fn deny_all_model() -> PolicyModel {
    (Seq::empty(), Seq::empty(), Seq::empty())
}

/// The policy lists the command `group.command`.
pub open spec fn allows_command(policy: PolicyModel, group: Seq<char>, command: Seq<char>) -> bool {
    exists|i: int| 0 <= i < policy.0.len() && #[trigger] policy.0[i].0 == group && policy.0[i].1 == command
}

/// The policy names a root that may be read.
pub open spec fn may_read(policy: PolicyModel) -> bool {
    policy.1.len() > 0
}

/// The policy names a root that may be written.
pub open spec fn may_write(policy: PolicyModel) -> bool {
    policy.2.len() > 0
}

/// No allowed command is found exactly when the policy lists none of that name.
pub proof fn lemma_command_index_absent(policy: ExecutionPolicy, group: Seq<char>, command: Seq<char>)
    ensures
        command_index(policy.commands@, group, command) is None <==> !allows_command(policy.model(), group, command),
{
    lemma_command_index(policy.commands@, group, command);
    lemma_command_index_none(policy.commands@, group, command);
    if let Some(i) = command_index(policy.commands@, group, command) {
        assert(policy.model().0[i].0 == group);
    }
}

proof fn lemma_command_index_none(commands: Seq<CommandPolicy>, group: Seq<char>, command: Seq<char>)
    ensures
        command_index(commands, group, command) is None ==> forall|i: int|
            0 <= i < commands.len() ==> !(#[trigger] commands[i].group@ == group && commands[i].command@ == command),
    decreases commands.len(),
{
    if commands.len() > 0 {
        lemma_command_index_none(commands.drop_first(), group, command);
        if command_index(commands, group, command) is None {
            assert forall|i: int| 0 <= i < commands.len() implies !(#[trigger] commands[i].group@ == group
                && commands[i].command@ == command) by {
                if i > 0 {
                    assert(commands[i] == commands.drop_first()[i - 1]);
                }
            }
        }
    }
}

pub proof fn lemma_command_index(commands: Seq<CommandPolicy>, group: Seq<char>, command: Seq<char>)
    ensures
        command_index(commands, group, command) matches Some(i) ==> 0 <= i < commands.len()
            && commands[i].group@ == group && commands[i].command@ == command,
    decreases commands.len(),
{
    if commands.len() > 0 {
        lemma_command_index(commands.drop_first(), group, command);
    }
}

fn copy_indices(v: &Vec<usize>) -> (r: Vec<usize>)
    ensures
        r@ == v@,
{
    let mut out: Vec<usize> = Vec::new();
    let mut i: usize = 0;
    while i < v.len()
        invariant
            i <= v@.len(),
            out@ == v@.take(i as int),
        decreases v.len() - i,
    {
        out.push(v[i]);
        i += 1;
        assert(out@ =~= v@.take(i as int));
    }
    assert(v@.take(v@.len() as int) =~= v@);
    out
}

impl CommandPolicy {
    pub open spec fn model(&self) -> (Seq<char>, Seq<char>, Seq<char>, Seq<usize>, Seq<usize>) {
        (self.group@, self.command@, self.program@, self.read_args@, self.write_args@)
    }

    pub fn duplicate(&self) -> (r: CommandPolicy)
        ensures
            r.model() == self.model(),
    {
        CommandPolicy {
            group: self.group.clone(),
            command: self.command.clone(),
            program: self.program.clone(),
            read_args: copy_indices(&self.read_args),
            write_args: copy_indices(&self.write_args),
        }
    }
}

impl ExecutionPolicy {
    pub open spec fn model(&self) -> (Seq<(Seq<char>, Seq<char>, Seq<char>, Seq<usize>, Seq<usize>)>, Seq<String>, Seq<String>) {
        (self.commands@.map_values(|c: CommandPolicy| c.model()), self.read_roots@, self.write_roots@)
    }

    /// A copy that allows exactly what this policy allows.
    pub fn duplicate(&self) -> (r: ExecutionPolicy)
        ensures
            r.model() == self.model(),
    {
        let mut commands: Vec<CommandPolicy> = Vec::new();
        let mut i: usize = 0;
        while i < self.commands.len()
            invariant
                i <= self.commands@.len(),
                commands@.len() == i,
                forall|j: int| 0 <= j < i ==> (#[trigger] commands@[j]).model() == self.commands@[j].model(),
            decreases self.commands.len() - i,
        {
            commands.push(self.commands[i].duplicate());
            i += 1;
        }
        let mut read_roots: Vec<String> = Vec::new();
        let mut j: usize = 0;
        while j < self.read_roots.len()
            invariant
                j <= self.read_roots@.len(),
                read_roots@ == self.read_roots@.take(j as int),
            decreases self.read_roots.len() - j,
        {
            read_roots.push(self.read_roots[j].clone());
            j += 1;
            assert(read_roots@ =~= self.read_roots@.take(j as int));
        }
        let mut write_roots: Vec<String> = Vec::new();
        let mut k: usize = 0;
        while k < self.write_roots.len()
            invariant
                k <= self.write_roots@.len(),
                write_roots@ == self.write_roots@.take(k as int),
            decreases self.write_roots.len() - k,
        {
            write_roots.push(self.write_roots[k].clone());
            k += 1;
            assert(write_roots@ =~= self.write_roots@.take(k as int));
        }
        assert(self.read_roots@.take(self.read_roots@.len() as int) =~= self.read_roots@);
        assert(self.write_roots@.take(self.write_roots@.len() as int) =~= self.write_roots@);
        let r = ExecutionPolicy { commands, read_roots, write_roots };
        assert(r.model().0 =~= self.model().0);
        r
    }

    /// A policy that allows no command and no filesystem access.
    pub fn deny_all() -> (p: ExecutionPolicy)
        ensures
            p.commands@.len() == 0,
            p.read_roots@.len() == 0,
            p.write_roots@.len() == 0,
    {
        ExecutionPolicy { commands: Vec::new(), read_roots: Vec::new(), write_roots: Vec::new() }
    }

    pub fn command(&self, group: &str, command: &str) -> (r: Option<&CommandPolicy>)
        ensures
            r is Some == command_index(self.commands@, group@, command@) is Some,
            r matches Some(c) ==> *c == self.commands@[command_index(self.commands@, group@, command@)->0],
    {
        let mut i: usize = 0;
        assert(self.commands@.skip(0) =~= self.commands@);
        while i < self.commands.len()
            invariant
                i <= self.commands@.len(),
                command_index(self.commands@, group@, command@) == match command_index(self.commands@.skip(i as int), group@, command@) {
                    Some(k) => Some(k + i),
                    None => None::<int>,
                },
            decreases self.commands.len() - i,
        {
            assert(self.commands@.skip(i as int).drop_first() =~= self.commands@.skip(i + 1));
            if str_eq(self.commands[i].group.as_str(), group) && str_eq(self.commands[i].command.as_str(), command) {
                return Some(&self.commands[i]);
            }
            i += 1;
        }
        None
    }

    pub fn has_read_access(&self) -> (r: bool)
        ensures
            r == (self.read_roots@.len() > 0),
    {
        self.read_roots.len() > 0
    }

    pub fn has_write_access(&self) -> (r: bool)
        ensures
            r == (self.write_roots@.len() > 0),
    {
        self.write_roots.len() > 0
    }
}

} // verus!
