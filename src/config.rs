use vstd::prelude::*;
use crate::command::{CommandSet, CommandView, ExecutableCommand, sorted_load_of, texts, views};
use crate::error::Error;
use crate::paths::{join_path, joined_path};

verus! {

/// The root configuration: where the files are, which plans exist, and the
/// file of each task, by name. Each task name is registered once.
#[derive(Debug, Clone)]
pub struct Config {
    pub config_dir: String,
    pub command_config_file: String,
    pub plan_files: Vec<String>,
    pub taskfiles: Vec<(String, String)>,
    commandpool: Option<CommandSet>,
}

/// A configuration as a value.
pub struct ConfigView {
    pub config_dir: Seq<char>,
    pub command_config_file: Seq<char>,
    pub plan_files: Seq<Seq<char>>,
    pub taskfiles: Seq<(Seq<char>, Seq<char>)>,
    pub commandpool: Option<Seq<CommandView>>,
}

/// The text of each pair of strings of `s`, in order.
pub open spec fn text_pairs(s: Seq<(String, String)>) -> Seq<(Seq<char>, Seq<char>)> {
    s.map_values(|p: (String, String)| (p.0@, p.1@))
}

/// The file registered for the task `name`: the first entry with that name.
pub open spec fn taskfile_of(tf: Seq<(Seq<char>, Seq<char>)>, name: Seq<char>) -> Option<Seq<char>>
    decreases tf.len(),
{
    if tf.len() == 0 {
        None
    } else if tf[0].0 == name {
        Some(tf[0].1)
    } else {
        taskfile_of(tf.drop_first(), name)
    }
}

/// No task name is registered twice.
pub open spec fn distinct_task_names(tf: Seq<(Seq<char>, Seq<char>)>) -> bool {
    forall|i: int, j: int| 0 <= i < j < tf.len() ==> tf[i].0 != tf[j].0
}

/// Where task names are distinct, the lookup finds a file for a name exactly
/// when an entry pairs the name with that file.
pub proof fn lemma_taskfile_of_entry(tf: Seq<(Seq<char>, Seq<char>)>, name: Seq<char>, file: Seq<char>)
    requires
        distinct_task_names(tf),
    ensures
        taskfile_of(tf, name) == Some(file) <==> exists|i: int| 0 <= i < tf.len() && tf[i] == (name, file),
    decreases tf.len(),
{
    if tf.len() > 0 {
        let rest = tf.drop_first();
        assert(distinct_task_names(rest)) by {
            assert forall|i: int, j: int| 0 <= i < j < rest.len() implies rest[i].0 != rest[j].0 by {
                assert(rest[i] == tf[i + 1] && rest[j] == tf[j + 1]);
            }
        }
        lemma_taskfile_of_entry(rest, name, file);
        if exists|i: int| 0 <= i < tf.len() && tf[i] == (name, file) {
            let i = choose|i: int| 0 <= i < tf.len() && tf[i] == (name, file);
            if i > 0 {
                assert(rest[i - 1] == tf[i]);
            }
        }
        if exists|i: int| 0 <= i < rest.len() && rest[i] == (name, file) {
            let i = choose|i: int| 0 <= i < rest.len() && rest[i] == (name, file);
            assert(tf[i + 1] == rest[i]);
        }
    }
}

/// The value of each command of `loaded`, where it is `Ok`.
pub open spec fn loaded_pool(loaded: Result<Vec<ExecutableCommand>, Error>) -> Result<Seq<CommandView>, Error> {
    match loaded {
        Ok(v) => Ok(views(v@)),
        Err(e) => Err(e),
    }
}

/// The error of `r`, if any.
pub open spec fn error_of<T>(r: Result<T, Error>) -> Option<Error> {
    match r {
        Ok(_) => None,
        Err(e) => Some(e),
    }
}

/// Loading the pool of `c` from the outcome `loaded` fails with `err`, or
/// not, and leaves the configuration `d`: a loaded pool stays as it is;
/// else the load's error is handed on, or its commands ordered by `idx`
/// become the pool.
pub open spec fn pool_loaded(
    c: ConfigView,
    loaded: Result<Seq<CommandView>, Error>,
    err: Option<Error>,
    d: ConfigView,
) -> bool {
    match c.commandpool {
        Some(_) => err is None && d == c,
        None => match loaded {
            Err(e) => err == Some(e) && d == c,
            Ok(v) => err is None && d.commandpool is Some && sorted_load_of(v, d.commandpool->Some_0)
                && d == (ConfigView { commandpool: d.commandpool, ..c }),
        },
    }
}

/// The root configuration file to read: `config_path`, or `config.json`.
pub fn root_config_path(config_path: Option<String>) -> (r: String)
    ensures
        config_path is Some ==> r@ == config_path->Some_0@,
        config_path is None ==> r@ == "config.json"@,
{
    match config_path {
        Some(p) => p,
        None => String::from_str("config.json"),
    }
}

fn copy_strings(v: &Vec<String>) -> (r: Vec<String>)
    ensures
        texts(r@) == texts(v@),
{
    let r = v.clone();
    assert(r@ =~= v@);
    r
}

fn copy_pairs(v: &Vec<(String, String)>) -> (r: Vec<(String, String)>)
    ensures
        text_pairs(r@) == text_pairs(v@),
{
    let mut r: Vec<(String, String)> = Vec::with_capacity(v.len());
    let mut k: usize = 0;
    while k < v.len()
        invariant
            k <= v@.len(),
            text_pairs(r@) == text_pairs(v@).take(k as int),
        decreases v@.len() - k,
    {
        let p = (v[k].0.clone(), v[k].1.clone());
        let ghost before = text_pairs(r@);
        r.push(p);
        assert(text_pairs(r@) =~= before.push((p.0@, p.1@)));
        assert(text_pairs(v@).take(k + 1) =~= text_pairs(v@).take(k as int).push((p.0@, p.1@)));
        k = k + 1;
    }
    assert(text_pairs(v@).take(k as int) =~= text_pairs(v@));
    r
}

impl View for Config {
    type V = ConfigView;

    closed spec fn view(&self) -> ConfigView {
        ConfigView {
            config_dir: self.config_dir@,
            command_config_file: self.command_config_file@,
            plan_files: texts(self.plan_files@),
            taskfiles: text_pairs(self.taskfiles@),
            commandpool: match self.commandpool {
                Some(p) => Some(p@),
                None => None,
            },
        }
    }
}

impl Config {
    /// A configuration with these fields and no command pool loaded yet.
    pub fn new(
        config_dir: String,
        command_config_file: String,
        plan_files: Vec<String>,
        taskfiles: Vec<(String, String)>,
    ) -> (r: Config)
        requires
            distinct_task_names(text_pairs(taskfiles@)),
        ensures
            r@.config_dir == config_dir@,
            r@.command_config_file == command_config_file@,
            r@.plan_files == texts(plan_files@),
            r@.taskfiles == text_pairs(taskfiles@),
            r@.commandpool is None,
    {
        Config { config_dir, command_config_file, plan_files, taskfiles, commandpool: None }
    }

    /// A copy of this configuration.
    pub fn duplicate(&self) -> (r: Config)
        ensures
            r@ == self@,
    {
        let commandpool = match &self.commandpool {
            Some(p) => Some(CommandSet::new(p.as_commands())),
            None => None,
        };
        Config {
            config_dir: self.config_dir.clone(),
            command_config_file: self.command_config_file.clone(),
            plan_files: copy_strings(&self.plan_files),
            taskfiles: copy_pairs(&self.taskfiles),
            commandpool,
        }
    }

    /// The path of the command pool file: `command_config_file` under
    /// `config_dir`.
    pub fn commandpool_path(&self) -> (r: String)
        ensures
            r@ == joined_path(self@.config_dir, self@.command_config_file),
    {
        join_path(self.config_dir.as_str(), self.command_config_file.as_str())
    }

    /// Whether the command pool has been loaded.
    pub fn has_commandpool(&self) -> (r: bool)
        ensures
            r == self@.commandpool is Some,
    {
        self.commandpool.is_some()
    }

    /// Loads the command pool from the outcome of reading and decoding the
    /// pool file, unless it is loaded already; the error of the load, if any.
    pub fn load_commandpool(&mut self, loaded: Result<Vec<ExecutableCommand>, Error>) -> (r: Result<(), Error>)
        ensures
            pool_loaded(old(self)@, loaded_pool(loaded), error_of(r), final(self)@),
    {
        if self.commandpool.is_none() {
            match CommandSet::from_file(loaded) {
                Ok(p) => {
                    self.commandpool = Some(p);
                },
                Err(e) => {
                    return Err(e);
                },
            }
        }
        Ok(())
    }

    /// The command pool, loaded on first use from the outcome of reading and
    /// decoding the pool file and kept from then on; the error of that load,
    /// if it failed. Where the pool is loaded already, `loaded` is not used.
    pub fn get_commandpool(&mut self, loaded: Result<Vec<ExecutableCommand>, Error>) -> (r: Result<CommandSet, Error>)
        ensures
            pool_loaded(old(self)@, loaded_pool(loaded), error_of(r), final(self)@),
            r is Ok ==> final(self)@.commandpool == Some(r->Ok_0@),
    {
        match self.load_commandpool(loaded) {
            Err(e) => Err(e),
            Ok(()) => match &self.commandpool {
                Some(p) => Ok(CommandSet::new(p.as_commands())),
                None => Err(Error::StateError(String::from_str("command pool not loaded"))),
            },
        }
    }

    /// The path of the file registered for the task `name`, under
    /// `config_dir`; `None` where no task of that name is registered.
    pub fn task_file(&self, name: &str) -> (r: Option<String>)
        ensures
            taskfile_of(self@.taskfiles, name@) is None <==> r is None,
            r is Some ==> r->Some_0@ == joined_path(
                self@.config_dir,
                taskfile_of(self@.taskfiles, name@)->Some_0,
            ),
    {
        let ghost tf = self@.taskfiles;
        let wanted: String = name.to_owned();
        let mut k: usize = 0;
        assert(tf.subrange(0, tf.len() as int) =~= tf);
        while k < self.taskfiles.len()
            invariant
                k <= self.taskfiles@.len(),
                tf == text_pairs(self.taskfiles@),
                wanted@ == name@,
                taskfile_of(tf, name@) == taskfile_of(tf.subrange(k as int, tf.len() as int), name@),
            decreases self.taskfiles@.len() - k,
        {
            let ghost rest = tf.subrange(k as int, tf.len() as int);
            let key: &String = &self.taskfiles[k].0;
            assert(rest[0] == tf[k as int]);
            assert(tf[k as int].0 == key@);
            if *key == wanted {
                assert(rest.len() > 0 && rest[0].0 == name@);
                assert(taskfile_of(rest, name@) == Some(tf[k as int].1));
                return Some(join_path(self.config_dir.as_str(), self.taskfiles[k].1.as_str()));
            }
            assert(rest.drop_first() =~= tf.subrange(k + 1, tf.len() as int));
            k = k + 1;
        }
        None
    }

    /// The path of each plan file, under `config_dir`, in order.
    pub fn plan_paths(&self) -> (r: Vec<String>)
        ensures
            r@.len() == self@.plan_files.len(),
            forall|k: int| 0 <= k < r@.len() ==> #[trigger] r@[k]@ == joined_path(
                self@.config_dir,
                self@.plan_files[k],
            ),
    {
        let mut r: Vec<String> = Vec::with_capacity(self.plan_files.len());
        let mut k: usize = 0;
        while k < self.plan_files.len()
            invariant
                k <= self.plan_files@.len(),
                r@.len() == k,
                forall|j: int| 0 <= j < k ==> #[trigger] r@[j]@ == joined_path(
                    self@.config_dir,
                    self@.plan_files[j],
                ),
            decreases self.plan_files@.len() - k,
        {
            r.push(join_path(self.config_dir.as_str(), self.plan_files[k].as_str()));
            k = k + 1;
        }
        r
    }
}

} // verus!
