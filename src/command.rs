use vstd::prelude::*;

use crate::runtime::IncompleteBuilder;

verus! {

#[derive(Debug, Clone, PartialEq, Eq)]
/// A command to run: the program, its arguments, its environment entries
/// and the directory to run it in.
pub struct Command {
    pub executable: String,
    pub args: Vec<String>,
    pub env: Vec<String>,
    pub current_dir: String,
}

#[derive(Debug, Clone, PartialEq, Eq)]
/// The builder generated for `Command`: each field unset until its setter
/// is called.
pub struct CommandBuilder {
    pub executable: Option<String>,
    pub args: Option<Vec<String>>,
    pub env: Option<Vec<String>>,
    pub current_dir: Option<String>,
}

pub open spec fn name_executable() -> Seq<char> {
    seq!['e', 'x', 'e', 'c', 'u', 't', 'a', 'b', 'l', 'e']
}

pub open spec fn name_args() -> Seq<char> {
    seq!['a', 'r', 'g', 's']
}

pub open spec fn name_env() -> Seq<char> {
    seq!['e', 'n', 'v']
}

pub open spec fn name_current_dir() -> Seq<char> {
    seq!['c', 'u', 'r', 'r', 'e', 'n', 't', '_', 'd', 'i', 'r']
}

/// The names of the unset fields of `b`, in declaration order.
pub open spec fn command_missing(b: CommandBuilder) -> Seq<Seq<char>> {
    (if b.executable is None { seq![name_executable()] } else { seq![] })
        + (if b.args is None { seq![name_args()] } else { seq![] })
        + (if b.env is None { seq![name_env()] } else { seq![] })
        + (if b.current_dir is None { seq![name_current_dir()] } else { seq![] })
}

fn copy_strings(v: &Vec<String>) -> (r: Vec<String>)
    ensures
        r@ == v@,
{
    let mut r: Vec<String> = Vec::new();
    let mut i: usize = 0;
    while i < v.len()
        invariant
            i <= v@.len(),
            r@ == v@.subrange(0, i as int),
        decreases v@.len() - i,
    {
        r.push(v[i].clone());
        assert(r@ =~= v@.subrange(0, i + 1));
        i = i + 1;
    }
    assert(v@.subrange(0, i as int) =~= v@);
    r
}

fn push_name(names: &mut Vec<String>, name: &str)
    ensures
        final(names)@.len() == old(names)@.len() + 1,
        final(names)@.map_values(|s: String| s@) == old(names)@.map_values(|s: String| s@).push(name@),
{
    names.push(String::from_str(name));
    assert(final(names)@.map_values(|s: String| s@) =~= old(names)@.map_values(|s: String| s@).push(name@));
}

impl Command {
    /// A builder with every field unset.
    pub fn builder() -> (r: CommandBuilder)
        ensures
            r.executable is None,
            r.args is None,
            r.env is None,
            r.current_dir is None,
    {
        CommandBuilder { executable: None, args: None, env: None, current_dir: None }
    }
}

impl CommandBuilder {
    /// Sets `executable`, replacing any earlier value.
    pub fn executable(&mut self, executable: String) -> (r: &mut Self)
        ensures
            *r == (CommandBuilder { executable: Some(executable), ..*old(self) }),
            *final(self) == *final(r),
    {
        self.executable = Some(executable);
        self
    }

    /// Sets `args`, replacing any earlier value.
    pub fn args(&mut self, args: Vec<String>) -> (r: &mut Self)
        ensures
            *r == (CommandBuilder { args: Some(args), ..*old(self) }),
            *final(self) == *final(r),
    {
        self.args = Some(args);
        self
    }

    /// Sets `env`, replacing any earlier value.
    pub fn env(&mut self, env: Vec<String>) -> (r: &mut Self)
        ensures
            *r == (CommandBuilder { env: Some(env), ..*old(self) }),
            *final(self) == *final(r),
    {
        self.env = Some(env);
        self
    }

    /// Sets `current_dir`, replacing any earlier value.
    pub fn current_dir(&mut self, current_dir: String) -> (r: &mut Self)
        ensures
            *r == (CommandBuilder { current_dir: Some(current_dir), ..*old(self) }),
            *final(self) == *final(r),
    {
        self.current_dir = Some(current_dir);
        self
    }

    /// The command, when every field is set; otherwise the names of all
    /// unset fields. The builder itself is left as it was.
    pub fn build(&mut self) -> (r: Result<Command, IncompleteBuilder>)
        ensures
            *final(self) == *old(self),
            command_missing(*old(self)).len() > 0 ==> (r matches Err(e) && e.missing@.map_values(
                |s: String| s@,
            ) == command_missing(*old(self))),
            command_missing(*old(self)).len() == 0 ==> (r matches Ok(c) && Some(c.executable)
                == old(self).executable && Some(c.current_dir) == old(self).current_dir
                && c.args@ == old(self).args->0@ && c.env@ == old(self).env->0@),
    {
        proof {
            reveal_strlit("executable");
            reveal_strlit("args");
            reveal_strlit("env");
            reveal_strlit("current_dir");
            assert("executable"@ =~= name_executable());
            assert("args"@ =~= name_args());
            assert("env"@ =~= name_env());
            assert("current_dir"@ =~= name_current_dir());
        }
        let ghost b = *self;
        let mut missing: Vec<String> = Vec::new();
        if self.executable.is_none() {
            push_name(&mut missing, "executable");
        }
        if self.args.is_none() {
            push_name(&mut missing, "args");
        }
        if self.env.is_none() {
            push_name(&mut missing, "env");
        }
        if self.current_dir.is_none() {
            push_name(&mut missing, "current_dir");
        }
        assert(missing@.map_values(|s: String| s@) =~= command_missing(b));
        match (&self.executable, &self.args, &self.env, &self.current_dir) {
            (Some(executable), Some(args), Some(env), Some(current_dir)) => Ok(
                Command {
                    executable: executable.clone(),
                    args: copy_strings(args),
                    env: copy_strings(env),
                    current_dir: current_dir.clone(),
                },
            ),
            _ => Err(IncompleteBuilder { missing }),
        }
    }
}

} // verus!
