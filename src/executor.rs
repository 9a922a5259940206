use vstd::prelude::*;
use crate::config::{Config, ConfigView};
use crate::error::Error;
use crate::plan::{
    DeployPlan,
    PlanStep,
    PlanView,
    loaded_views,
    plan_loaded,
    plan_step,
    task_views,
    tasks_taken,
};
use crate::task::DeployTask;

verus! {

/// The top of the runner: the configuration and the registry of plans.
pub struct Executor {
    plans: Option<Vec<DeployPlan>>,
    config: Option<Config>,
}

/// An executor as a value.
pub struct ExecutorView {
    pub plans: Option<Seq<PlanView>>,
    pub config: Option<ConfigView>,
}

/// The value of each plan of `s`, in order.
pub open spec fn plan_views(s: Seq<DeployPlan>) -> Seq<PlanView> {
    s.map_values(|p: DeployPlan| p@)
}

impl View for Executor {
    type V = ExecutorView;

    closed spec fn view(&self) -> ExecutorView {
        ExecutorView {
            plans: match self.plans {
                Some(v) => Some(plan_views(v@)),
                None => None,
            },
            config: match self.config {
                Some(c) => Some(c@),
                None => None,
            },
        }
    }
}

/// The position of the plan named `name` in the registry: of plans loaded
/// under one name, the last one loaded stands.
pub open spec fn plan_index(plans: Seq<PlanView>, name: Seq<char>) -> Option<int>
    decreases plans.len(),
{
    if plans.len() == 0 {
        None
    } else if plans.last().name == name {
        Some(plans.len() - 1)
    } else {
        plan_index(plans.drop_last(), name)
    }
}

proof fn lemma_plan_index_in_range(plans: Seq<PlanView>, name: Seq<char>)
    ensures
        plan_index(plans, name) is Some ==> 0 <= plan_index(plans, name)->Some_0 < plans.len()
            && plans[plan_index(plans, name)->Some_0].name == name,
    decreases plans.len(),
{
    if plans.len() > 0 && plans.last().name != name {
        lemma_plan_index_in_range(plans.drop_last(), name);
    }
}

/// What the executor answers when asked to run a plan.
#[derive(Debug)]
pub enum Dispatch {
    /// No context has been loaded.
    NoContext,
    /// No plan of that name is registered.
    NoPlan,
    /// The plan's own next step, or its error.
    Step(Result<PlanStep, Error>),
}

impl Executor {
    /// An executor with no configuration and no plans.
    pub fn new() -> (r: Self)
        ensures
            r@.plans is None,
            r@.config is None,
    {
        Executor { plans: None, config: None }
    }

    /// Takes `config` as the context and returns the paths of its plan files,
    /// to be loaded and handed to `prepair_deploy_plan`.
    pub fn load_context(&mut self, config: Config) -> (r: Vec<String>)
        ensures
            final(self)@.config == Some(config@),
            final(self)@.plans == old(self)@.plans,
            r@.len() == config@.plan_files.len(),
            forall|k: int| 0 <= k < r@.len() ==> #[trigger] r@[k]@ == crate::paths::joined_path(
                config@.config_dir,
                config@.plan_files[k],
            ),
    {
        let r = config.plan_paths();
        self.config = Some(config);
        r
    }

    /// Builds the registry from the plans of the plan files, in the order of
    /// the files, each with the context's configuration attached.
    pub fn prepair_deploy_plan(&mut self, loaded: Vec<DeployPlan>)
        ensures
            final(self)@.config == old(self)@.config,
            final(self)@.plans == Some(
                plan_views(loaded@).map_values(
                    |p: PlanView| PlanView { config: old(self)@.config, ..p },
                ),
            ),
    {
        let ghost orig = plan_views(loaded@);
        let ghost cfg = self@.config;
        let ghost want = orig.map_values(|p: PlanView| PlanView { config: cfg, ..p });
        let mut loaded = loaded;
        let n: usize = loaded.len();
        let mut out: Vec<DeployPlan> = Vec::with_capacity(n);
        let mut k: usize = 0;
        while loaded.len() > 0
            invariant
                k + loaded@.len() == orig.len(),
                orig.len() == n,
                plan_views(loaded@) == orig.subrange(k as int, orig.len() as int),
                plan_views(out@) == want.take(k as int),
                want == orig.map_values(|p: PlanView| PlanView { config: cfg, ..p }),
                cfg == self@.config,
            decreases loaded@.len(),
        {
            let ghost rest = plan_views(loaded@);
            let p = loaded.remove(0);
            assert(plan_views(loaded@) =~= rest.drop_first());
            assert(p@ == rest[0]);
            let config = match &self.config {
                Some(c) => Some(c.duplicate()),
                None => None,
            };
            let attached = DeployPlan::from_file(p, config);
            let ghost before = plan_views(out@);
            out.push(attached);
            assert(plan_views(out@) =~= before.push(attached@));
            assert(want.take(k + 1) =~= want.take(k as int).push(want[k as int]));
            k = k + 1;
        }
        assert(want.take(k as int) =~= want);
        self.plans = Some(out);
    }

    /// The position of the plan named `name` in `plans`.
    fn find_plan(plans: &Vec<DeployPlan>, name: &str) -> (r: Option<usize>)
        ensures
            r is None <==> plan_index(plan_views(plans@), name@) is None,
            r is Some ==> r->Some_0 == plan_index(plan_views(plans@), name@)->Some_0,
    {
        let ghost ps = plan_views(plans@);
        let wanted: String = name.to_owned();
        let mut k: usize = plans.len();
        assert(ps.take(k as int) =~= ps);
        while k > 0
            invariant
                k <= plans@.len(),
                ps == plan_views(plans@),
                wanted@ == name@,
                plan_index(ps, name@) == plan_index(ps.take(k as int), name@),
            decreases k,
        {
            let ghost pre = ps.take(k as int);
            assert(pre.last() == plans@[k - 1]@);
            if plans[k - 1].has_name(&wanted) {
                return Some(k - 1);
            }
            assert(pre.drop_last() =~= ps.take(k - 1));
            k = k - 1;
        }
        None
    }

    /// Whether a plan named `name` is registered.
    pub fn has_plan(&self, name: &str) -> (r: bool)
        ensures
            r == (self@.plans is Some && plan_index(self@.plans->Some_0, name@) is Some),
    {
        match &self.plans {
            None => false,
            Some(v) => Self::find_plan(v, name).is_some(),
        }
    }

    /// Runs the plan named `name` one step: hands back what the plan asks
    /// for next. The executor stays usable whatever the answer.
    pub fn run_deploy_plan(&mut self, name: &str) -> (r: Dispatch)
        ensures
            final(self)@.config == old(self)@.config,
            old(self)@.plans is None ==> r is NoContext && final(self)@ == old(self)@,
            old(self)@.plans is Some ==> ({
                let ps = old(self)@.plans->Some_0;
                match plan_index(ps, name@) {
                    None => r is NoPlan && final(self)@ == old(self)@,
                    Some(i) => r is Step && plan_step(ps[i], r->Step_0) && final(self)@.plans
                        == Some(ps.update(i, tasks_taken(ps[i]))),
                }
            }),
    {
        let mut plans = match self.plans.take() {
            None => {
                return Dispatch::NoContext;
            },
            Some(v) => v,
        };
        let ghost ps = plan_views(plans@);
        proof {
            lemma_plan_index_in_range(ps, name@);
        }
        match Self::find_plan(&plans, name) {
            None => {
                self.plans = Some(plans);
                Dispatch::NoPlan
            },
            Some(i) => {
                let mut p = plans.remove(i);
                let step = p.run();
                let ghost p_after = p@;
                plans.insert(i, p);
                assert(plan_views(plans@) =~= ps.update(i as int, p_after));
                self.plans = Some(plans);
                Dispatch::Step(step)
            },
        }
    }

    /// Resolves the tasks of the plan named `name` from the outcome of
    /// loading its task files. A state error where no such plan is
    /// registered.
    pub fn load_plan_tasks(&mut self, name: &str, loaded: Result<Vec<DeployTask>, Error>) -> (r: Result<(), Error>)
        ensures
            final(self)@.config == old(self)@.config,
            old(self)@.plans is None ==> r is Err && r->Err_0.is_state_error() && final(self)@
                == old(self)@,
            old(self)@.plans is Some ==> ({
                let ps = old(self)@.plans->Some_0;
                match plan_index(ps, name@) {
                    None => r is Err && r->Err_0.is_state_error() && final(self)@ == old(self)@,
                    Some(i) => final(self)@.plans is Some && final(self)@.plans->Some_0.len()
                        == ps.len() && plan_loaded(
                        ps[i],
                        loaded_views(loaded),
                        r,
                        final(self)@.plans->Some_0[i],
                    ) && forall|j: int|
                        0 <= j < ps.len() && j != i ==> #[trigger] final(self)@.plans->Some_0[j]
                            == ps[j],
                }
            }),
    {
        let mut plans = match self.plans.take() {
            None => {
                return Err(Error::StateError(String::from_str("context not loaded")));
            },
            Some(v) => v,
        };
        let ghost ps = plan_views(plans@);
        proof {
            lemma_plan_index_in_range(ps, name@);
        }
        match Self::find_plan(&plans, name) {
            None => {
                self.plans = Some(plans);
                Err(Error::StateError(String::from_str("no plan of that name")))
            },
            Some(i) => {
                let mut p = plans.remove(i);
                let r = p.load_task(loaded);
                let ghost p_after = p@;
                plans.insert(i, p);
                assert(plan_views(plans@) =~= ps.update(i as int, p_after));
                self.plans = Some(plans);
                r
            },
        }
    }
}

} // verus!
