use vstd::prelude::*;
use crate::config::{Config, ConfigView, taskfile_of};
use crate::error::Error;
use crate::paths::joined_path;
use crate::task::{DeployTask, TaskView};
use crate::command::texts;

verus! {

/// A named list of task names, with the tasks they resolve to once loaded.
#[derive(Debug)]
pub struct DeployPlan {
    pub name: String,
    pub tasknames: Vec<String>,
    tasks: Option<Vec<DeployTask>>,
    config: Option<Config>,
}

/// A plan as a value.
pub struct PlanView {
    pub name: Seq<char>,
    pub tasknames: Seq<Seq<char>>,
    pub tasks: Option<Seq<TaskView>>,
    pub config: Option<ConfigView>,
}

/// The value of each task of `s`, in order.
pub open spec fn task_views(s: Seq<DeployTask>) -> Seq<TaskView> {
    s.map_values(|t: DeployTask| t@)
}

impl View for DeployPlan {
    type V = PlanView;

    closed spec fn view(&self) -> PlanView {
        PlanView {
            name: self.name@,
            tasknames: texts(self.tasknames@),
            tasks: match self.tasks {
                Some(v) => Some(task_views(v@)),
                None => None,
            },
            config: match self.config {
                Some(c) => Some(c@),
                None => None,
            },
        }
    }
}

/// The task files that the task names `names` resolve to under `cfg`, in
/// the order of the names; a name with no registered file gives none.
pub open spec fn resolved_files(cfg: ConfigView, names: Seq<Seq<char>>) -> Seq<Seq<char>>
    decreases names.len(),
{
    if names.len() == 0 {
        Seq::empty()
    } else {
        let rest = resolved_files(cfg, names.drop_last());
        match taskfile_of(cfg.taskfiles, names.last()) {
            Some(f) => rest.push(joined_path(cfg.config_dir, f)),
            None => rest,
        }
    }
}

/// The task `t` with `cfg` attached.
pub open spec fn with_config(t: TaskView, cfg: ConfigView) -> TaskView {
    TaskView { config: Some(cfg), ..t }
}

/// What a plan asks of its caller next.
#[derive(Debug)]
pub enum PlanStep {
    /// Load these task files, in order, and hand the tasks to `load_task`.
    Resolve(Vec<String>),
    /// Run these tasks, in order; the first error ends the plan.
    Execute(Vec<DeployTask>),
}

/// The paths of `r`'s `Resolve` step, as text.
pub open spec fn step_files(r: PlanStep) -> Seq<Seq<char>> {
    match r {
        PlanStep::Resolve(v) => texts(v@),
        PlanStep::Execute(_) => Seq::empty(),
    }
}

/// What a run of the plan `p` hands back.
pub open spec fn plan_step(p: PlanView, r: Result<PlanStep, Error>) -> bool {
    match p.tasks {
        Some(ts) => r is Ok && r->Ok_0 is Execute && task_views(r->Ok_0->Execute_0@) == ts,
        None => match p.config {
            None => r is Err && r->Err_0.is_state_error(),
            Some(cfg) => r is Ok && r->Ok_0 is Resolve && step_files(r->Ok_0) == resolved_files(
                cfg,
                p.tasknames,
            ),
        },
    }
}

/// The plan `p` after a run has taken its tasks out.
pub open spec fn tasks_taken(p: PlanView) -> PlanView {
    PlanView { tasks: None, ..p }
}

/// What resolving the plan `p` from the outcome `loaded` hands back, and
/// the plan `q` it leaves.
pub open spec fn plan_loaded(
    p: PlanView,
    loaded: Result<Seq<TaskView>, Error>,
    r: Result<(), Error>,
    q: PlanView,
) -> bool {
    &&& r is Ok <==> (p.config is Some && loaded is Ok)
    &&& p.config is None ==> r is Err && r->Err_0.is_state_error()
    &&& p.config is Some && loaded is Err ==> r == Err::<(), Error>(loaded->Err_0)
    &&& r is Err ==> q == p
    &&& r is Ok ==> q == (PlanView {
        tasks: Some(loaded->Ok_0.map_values(|t: TaskView| with_config(t, p.config->Some_0))),
        ..p
    })
}

/// The value of each task of `loaded`, where it is `Ok`.
pub open spec fn loaded_views(loaded: Result<Vec<DeployTask>, Error>) -> Result<Seq<TaskView>, Error> {
    match loaded {
        Ok(v) => Ok(task_views(v@)),
        Err(e) => Err(e),
    }
}

impl DeployPlan {
    /// Whether the plan is named `name`.
    pub fn has_name(&self, name: &String) -> (r: bool)
        ensures
            r == (self@.name == name@),
    {
        self.name == *name
    }

    /// A plan as decoded from its file: no tasks loaded, no configuration.
    pub fn new(name: String, tasknames: Vec<String>) -> (r: DeployPlan)
        ensures
            r@.name == name@,
            r@.tasknames == texts(tasknames@),
            r@.tasks is None,
            r@.config is None,
    {
        DeployPlan { name, tasknames, tasks: None, config: None }
    }

    /// The plan of a plan file, as decoded, with `config` attached.
    pub fn from_file(loaded: DeployPlan, config: Option<Config>) -> (r: DeployPlan)
        ensures
            r@ == (PlanView {
                config: match config {
                    Some(c) => Some(c@),
                    None => None,
                },
                ..loaded@
            }),
    {
        let mut dp = loaded;
        dp.config = config;
        dp
    }

    /// The task files of the plan's task names, under the configuration's
    /// directory and in the order of the names. A name that the
    /// configuration does not register is skipped. A state error where no
    /// configuration is attached.
    pub fn task_paths(&self) -> (r: Result<Vec<String>, Error>)
        ensures
            r is Ok <==> self@.config is Some,
            r is Ok ==> texts(r->Ok_0@) == resolved_files(self@.config->Some_0, self@.tasknames),
            r is Err ==> r->Err_0.is_state_error(),
    {
        let config = match &self.config {
            None => {
                return Err(Error::StateError(String::from_str("no configuration attached")));
            },
            Some(c) => c,
        };
        let ghost cfg = config@;
        let ghost names = self@.tasknames;
        let mut v: Vec<String> = Vec::with_capacity(self.tasknames.len());
        let mut k: usize = 0;
        while k < self.tasknames.len()
            invariant
                k <= self.tasknames@.len(),
                names == texts(self.tasknames@),
                cfg == config@,
                texts(v@) == resolved_files(cfg, names.take(k as int)),
            decreases self.tasknames@.len() - k,
        {
            let ghost before = texts(v@);
            assert(names.take(k + 1).drop_last() =~= names.take(k as int));
            assert(names.take(k + 1).last() == self.tasknames@[k as int]@);
            match config.task_file(self.tasknames[k].as_str()) {
                Some(f) => {
                    v.push(f);
                    assert(texts(v@) =~= before.push(f@));
                },
                None => {},
            }
            k = k + 1;
        }
        assert(names.take(k as int) =~= names);
        Ok(v)
    }

    /// Resolves the plan's tasks from the outcome of loading its task files,
    /// attaching the configuration to each. The error of the load, or a
    /// state error where no configuration is attached, leaves the plan as it
    /// was.
    pub fn load_task(&mut self, loaded: Result<Vec<DeployTask>, Error>) -> (r: Result<(), Error>)
        ensures
            plan_loaded(old(self)@, loaded_views(loaded), r, final(self)@),
    {
        let config = match &self.config {
            None => {
                return Err(Error::StateError(String::from_str("no configuration attached")));
            },
            Some(c) => c,
        };
        let mut loaded = match loaded {
            Err(e) => {
                return Err(e);
            },
            Ok(v) => v,
        };
        let ghost orig = task_views(loaded@);
        let ghost cfg = config@;
        let ghost want = orig.map_values(|t: TaskView| with_config(t, cfg));
        let n: usize = loaded.len();
        let mut out: Vec<DeployTask> = Vec::with_capacity(n);
        let mut k: usize = 0;
        while loaded.len() > 0
            invariant
                k + loaded@.len() == orig.len(),
                orig.len() == n,
                task_views(loaded@) == orig.subrange(k as int, orig.len() as int),
                task_views(out@) == want.take(k as int),
                want == orig.map_values(|t: TaskView| with_config(t, cfg)),
                cfg == config@,
            decreases loaded@.len(),
        {
            let ghost rest = task_views(loaded@);
            let t = loaded.remove(0);
            assert(task_views(loaded@) =~= rest.drop_first());
            assert(t@ == rest[0]);
            assert(t@ == orig[k as int]);
            let attached = match DeployTask::from_file(Ok(t), Some(config.duplicate())) {
                Ok(a) => a,
                Err(e) => {
                    return Err(e);
                },
            };
            let ghost before = task_views(out@);
            out.push(attached);
            assert(task_views(out@) =~= before.push(attached@));
            assert(want.take(k + 1) =~= want.take(k as int).push(with_config(orig[k as int], cfg)));
            k = k + 1;
        }
        assert(want.take(k as int) =~= want);
        self.tasks = Some(out);
        Ok(())
    }

    /// Decides the next step of a run of the plan. Where the tasks are not
    /// resolved yet, asks for its task files to be loaded; else hands out the
    /// resolved tasks to be run, in order, taking them out of the plan. A
    /// state error where there is nothing to resolve against.
    pub fn run(&mut self) -> (r: Result<PlanStep, Error>)
        ensures
            final(self)@ == tasks_taken(old(self)@),
            plan_step(old(self)@, r),
    {
        match self.tasks.take() {
            Some(v) => Ok(PlanStep::Execute(v)),
            None => match self.task_paths() {
                Ok(p) => Ok(PlanStep::Resolve(p)),
                Err(e) => Err(e),
            },
        }
    }
}

/// A task name that the configuration does not register contributes
/// nothing: wherever it stands among the names, the resolved task files are
/// those of the other names.
pub proof fn lemma_unknown_task_name_skipped(
    cfg: ConfigView,
    names: Seq<Seq<char>>,
    i: int,
    unknown: Seq<char>,
)
    requires
        taskfile_of(cfg.taskfiles, unknown) is None,
        0 <= i <= names.len(),
    ensures
        resolved_files(cfg, names.insert(i, unknown)) == resolved_files(cfg, names),
    decreases names.len(),
{
    let ins = names.insert(i, unknown);
    if i == names.len() {
        assert(ins.drop_last() =~= names);
    } else {
        assert(ins.drop_last() =~= names.drop_last().insert(i, unknown));
        assert(ins.last() == names.last());
        lemma_unknown_task_name_skipped(cfg, names.drop_last(), i, unknown);
    }
}

/// Resolution keeps the order of the names: the files of a list followed by
/// more names are the files of the list followed by those of the others.
pub proof fn lemma_resolution_in_name_order(cfg: ConfigView, a: Seq<Seq<char>>, b: Seq<Seq<char>>)
    ensures
        resolved_files(cfg, a + b) == resolved_files(cfg, a) + resolved_files(cfg, b),
    decreases b.len(),
{
    if b.len() == 0 {
        assert(a + b =~= a);
        assert(resolved_files(cfg, a) + resolved_files(cfg, b) =~= resolved_files(cfg, a));
    } else {
        assert((a + b).drop_last() =~= a + b.drop_last());
        assert((a + b).last() == b.last());
        lemma_resolution_in_name_order(cfg, a, b.drop_last());
        match taskfile_of(cfg.taskfiles, b.last()) {
            Some(f) => {
                let x = joined_path(cfg.config_dir, f);
                assert((resolved_files(cfg, a) + resolved_files(cfg, b.drop_last())).push(x)
                    =~= resolved_files(cfg, a) + resolved_files(cfg, b.drop_last()).push(x));
            },
            None => {},
        }
    }
}

} // verus!
