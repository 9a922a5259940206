use vstd::prelude::*;
use crate::command::{
    CommandSet,
    CommandView,
    ExecutableCommand,
    positions_in_bounds,
    selected,
    views,
};
use crate::config::{Config, ConfigView, loaded_pool, pool_loaded};
use crate::paths::joined_path;
use crate::error::Error;

verus! {

/// A named sequence of 1-based positions into the command pool, with the
/// commands it resolves to once bound.
#[derive(Debug)]
pub struct DeployTask {
    pub name: String,
    pub commandseq: Vec<usize>,
    commands: Option<CommandSet>,
    config: Option<Config>,
}

/// A task as a value.
pub struct TaskView {
    pub name: Seq<char>,
    pub commandseq: Seq<usize>,
    pub commands: Option<Seq<CommandView>>,
    pub config: Option<ConfigView>,
}

impl View for DeployTask {
    type V = TaskView;

    closed spec fn view(&self) -> TaskView {
        TaskView {
            name: self.name@,
            commandseq: self.commandseq@,
            commands: match self.commands {
                Some(c) => Some(c@),
                None => None,
            },
            config: match self.config {
                Some(c) => Some(c@),
                None => None,
            },
        }
    }
}

/// The commands that binding `commandseq` against `pool` gives: none for an
/// empty sequence.
pub open spec fn bound_commands(pool: Seq<CommandView>, commandseq: Seq<usize>) -> Option<Seq<CommandView>> {
    if commandseq.len() == 0 {
        None
    } else {
        Some(selected(pool, commandseq))
    }
}

/// The task `t` once its resolved commands are taken out.
pub open spec fn consumed(t: TaskView) -> TaskView {
    TaskView { commands: None, ..t }
}

/// `p` is the first position of `index` that addresses no command of `pool`.
pub open spec fn first_bad_position(pool: Seq<CommandView>, index: Seq<usize>, p: usize) -> bool {
    exists|k: int|
        0 <= k < index.len() && index[k] == p && !(1 <= p <= pool.len())
            && positions_in_bounds(pool, index.take(k))
}

/// What binding `commandseq` against `pool` hands back: the commands to
/// execute in order, or why there are none.
pub open spec fn bind_outcome(pool: Seq<CommandView>, commandseq: Seq<usize>, r: Result<Seq<CommandView>, Error>) -> bool {
    if !positions_in_bounds(pool, commandseq) {
        r is Err && r->Err_0 is IndexOutOfBounds && first_bad_position(
            pool,
            commandseq,
            r->Err_0->IndexOutOfBounds_0,
        )
    } else if commandseq.len() == 0 {
        r is Err && r->Err_0.is_state_error()
    } else {
        r == Ok::<Seq<CommandView>, Error>(selected(pool, commandseq))
    }
}

/// What running the task `t`, given the outcome `loaded` of loading the pool
/// file where the caller loaded it, hands back, and the task `u` it leaves.
pub open spec fn run_result(
    t: TaskView,
    loaded: Option<Result<Seq<CommandView>, Error>>,
    r: Result<Seq<CommandView>, Error>,
    u: TaskView,
) -> bool {
    match t.commands {
        Some(c) => r == Ok::<Seq<CommandView>, Error>(c) && u == consumed(t),
        None => match t.config {
            None => r is Err && r->Err_0.is_state_error() && u == t,
            Some(cfg) => if cfg.commandpool is None && loaded is None {
                r is Err && r->Err_0.is_state_error() && u == t
            } else if cfg.commandpool is None && loaded->Some_0 is Err {
                r == Err::<Seq<CommandView>, Error>(loaded->Some_0->Err_0) && u == t
            } else {
                &&& u.config is Some
                &&& u == (TaskView { config: u.config, ..t })
                &&& cfg.commandpool is Some ==> u.config == t.config
                &&& cfg.commandpool is None ==> pool_loaded(
                    cfg,
                    loaded->Some_0,
                    None,
                    u.config->Some_0,
                )
                &&& bind_outcome(u.config->Some_0.commandpool->Some_0, t.commandseq, r)
            },
        },
    }
}

/// The value of each command of `loaded`, where the caller loaded the pool.
pub open spec fn loaded_pool_of(loaded: Option<Result<Vec<ExecutableCommand>, Error>>) -> Option<
    Result<Seq<CommandView>, Error>,
> {
    match loaded {
        Some(l) => Some(loaded_pool(l)),
        None => None,
    }
}

/// The value of each command of `r`, where it is `Ok`.
pub open spec fn result_views(r: Result<Vec<ExecutableCommand>, Error>) -> Result<Seq<CommandView>, Error> {
    match r {
        Ok(v) => Ok(views(v@)),
        Err(e) => Err(e),
    }
}

impl DeployTask {
    /// A task as decoded from its file: no commands bound, no configuration.
    pub fn new(name: String, commandseq: Vec<usize>) -> (r: DeployTask)
        ensures
            r@.name == name@,
            r@.commandseq == commandseq@,
            r@.commands is None,
            r@.config is None,
    {
        DeployTask { name, commandseq, commands: None, config: None }
    }

    /// The task of a task file, from the outcome of reading and decoding that
    /// file, with `config` attached; or the error of the load.
    pub fn from_file(loaded: Result<DeployTask, Error>, config: Option<Config>) -> (r: Result<Self, Error>)
        ensures
            loaded is Err <==> r is Err,
            loaded is Err ==> r == Err::<Self, Error>(loaded->Err_0),
            loaded is Ok ==> r->Ok_0@ == (TaskView {
                config: match config {
                    Some(c) => Some(c@),
                    None => None,
                },
                ..loaded->Ok_0@
            }),
    {
        match loaded {
            Ok(mut t) => {
                t.config = config;
                Ok(t)
            },
            Err(e) => Err(e),
        }
    }

    /// Binds the commands of `commandseq` out of the pool `cs`.
    pub fn load_commands(&mut self, cs: &CommandSet)
        requires
            positions_in_bounds(cs@, old(self)@.commandseq),
        ensures
            final(self)@ == (TaskView {
                commands: bound_commands(cs@, old(self)@.commandseq),
                ..old(self)@
            }),
    {
        self.commands = cs.select_command_by_index(self.commandseq.as_slice());
    }

    /// Takes the bound commands out of the task; a state error where none
    /// are bound.
    pub fn as_commands(&mut self) -> (r: Result<Vec<ExecutableCommand>, Error>)
        ensures
            final(self)@ == consumed(old(self)@),
            old(self)@.commands is None <==> r is Err,
            r is Err ==> r->Err_0.is_state_error(),
            r is Ok ==> views(r->Ok_0@) == old(self)@.commands->Some_0,
    {
        match self.commands.take() {
            None => Err(Error::StateError(
                String::from_str("no commands; configuration missing or malformed"),
            )),
            Some(c) => Ok(c.as_commands()),
        }
    }

    /// The path of the pool file where a run of the task has to load the
    /// pool first: no commands bound, a configuration attached, and no pool
    /// loaded in it. `None` where no load is needed.
    pub fn commandpool_path(&self) -> (r: Option<String>)
        ensures
            r is Some <==> (self@.commands is None && self@.config is Some
                && self@.config->Some_0.commandpool is None),
            r is Some ==> r->Some_0@ == joined_path(
                self@.config->Some_0.config_dir,
                self@.config->Some_0.command_config_file,
            ),
    {
        if self.commands.is_some() {
            return None;
        }
        match &self.config {
            Some(c) => if c.has_commandpool() {
                None
            } else {
                Some(c.commandpool_path())
            },
            None => None,
        }
    }

    /// Decides a run of the task: where no commands are bound, binds them out
    /// of the attached configuration's pool, loading that pool first from
    /// `loaded`, the outcome of reading and decoding the pool file, where it
    /// is not loaded yet. Hands back the commands to execute, in order; they
    /// are taken out of the task.
    pub fn run(&mut self, loaded: Option<Result<Vec<ExecutableCommand>, Error>>) -> (r: Result<Vec<ExecutableCommand>, Error>)
        ensures
            run_result(old(self)@, loaded_pool_of(loaded), result_views(r), final(self)@),
    {
        if self.commands.is_none() {
            let mut config = match self.config.take() {
                None => {
                    return Err(Error::StateError(String::from_str("no configuration attached")));
                },
                Some(c) => c,
            };
            let outcome = if config.has_commandpool() {
                Ok(Vec::new())
            } else {
                match loaded {
                    None => {
                        self.config = Some(config);
                        return Err(Error::StateError(String::from_str("command pool not loaded")));
                    },
                    Some(l) => l,
                }
            };
            let pool = config.get_commandpool(outcome);
            self.config = Some(config);
            let pool = match pool {
                Err(e) => {
                    return Err(e);
                },
                Ok(p) => p,
            };
            match pool.first_out_of_bounds(self.commandseq.as_slice()) {
                Some(p) => {
                    return Err(Error::IndexOutOfBounds(p));
                },
                None => {},
            }
            self.load_commands(&pool);
        }
        self.as_commands()
    }
}

/// Binding positions that all lie within the pool yields one command per
/// position, in the order of the positions: the i-th is the pool's command at
/// position `commandseq[i]`, counting from 1.
pub proof fn lemma_binding_follows_positions(pool: Seq<CommandView>, commandseq: Seq<usize>)
    requires
        positions_in_bounds(pool, commandseq),
        commandseq.len() > 0,
    ensures
        bound_commands(pool, commandseq) is Some,
        bound_commands(pool, commandseq)->Some_0.len() == commandseq.len(),
        forall|i: int|
            0 <= i < commandseq.len() ==> #[trigger] bound_commands(pool, commandseq)->Some_0[i]
                == pool[commandseq[i] - 1],
{
}

/// Once a task has handed out its resolved commands, it holds none: the list
/// is consumed on first use, and asking for it again is a state error.
pub proof fn lemma_commands_consumed_on_first_use(t: TaskView)
    ensures
        consumed(t).commands is None,
        consumed(consumed(t)) == consumed(t),
{
}

} // verus!
