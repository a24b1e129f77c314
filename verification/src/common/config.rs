//! The settings of the program and the tasks it runs.

use crate::common::error::{Error, ErrorView};
use crate::text::same_text;
use vstd::prelude::*;

verus! {

/// The settings of a push channel, as plain values.
pub struct PushConfigView {
    pub channel: Seq<char>,
    pub params: Seq<(Seq<char>, Seq<char>)>,
}

/// Which channel carries the messages, and the channel's own parameters by
/// name.
#[derive(Debug)]
pub struct PushConfig {
    pub channel: String,
    /// Names with their values. Where a name occurs twice, the later entry
    /// counts.
    pub params: Vec<(String, String)>,
}

impl View for PushConfig {
    type V = PushConfigView;

    open spec fn view(&self) -> PushConfigView {
        PushConfigView { channel: self.channel@, params: param_views(self.params@) }
    }
}

/// The views of named parameters.
pub open spec fn param_views(params: Seq<(String, String)>) -> Seq<(Seq<char>, Seq<char>)> {
    params.map_values(|p: (String, String)| (p.0@, p.1@))
}

/// The value that `params` gives the name `key`, if it names it.
pub open spec fn param_of(params: Seq<(Seq<char>, Seq<char>)>, key: Seq<char>) -> Option<
    Seq<char>,
>
    decreases params.len(),
{
    if params.len() == 0 {
        None
    } else if params.last().0 == key {
        Some(params.last().1)
    } else {
        param_of(params.drop_last(), key)
    }
}

impl Default for PushConfig {
    fn default() -> (r: Self)
        ensures
            r@.channel == Seq::<char>::empty(),
            r@.params == Seq::<(Seq<char>, Seq<char>)>::empty(),
    {
        let r = PushConfig { channel: String::new(), params: Vec::new() };
        assert(r@.params =~= Seq::<(Seq<char>, Seq<char>)>::empty());
        r
    }
}

impl PushConfig {
    /// The value of the parameter `key`, if it is set.
    pub fn param(&self, key: &str) -> (r: Option<&String>)
        ensures
            match r {
                Some(v) => param_of(self@.params, key@) == Some(v@),
                None => param_of(self@.params, key@) is None,
            },
    {
        let ghost all = self@.params;
        let mut n: usize = self.params.len();
        assert(all.take(n as int) =~= all);
        while n > 0
            invariant
                n <= self.params@.len(),
                all == self@.params,
                param_of(all, key@) == param_of(all.take(n as int), key@),
            decreases n,
        {
            proof {
                assert(all.take(n as int).drop_last() =~= all.take(n - 1));
                assert(all.take(n as int).last() == all[n - 1]);
            }
            if same_text(self.params[n - 1].0.as_str(), key) {
                return Some(&self.params[n - 1].1);
            }
            n -= 1;
        }
        None
    }
}

/// The settings of the program, as plain values.
pub struct AppConfigView {
    pub alist_host: Seq<char>,
    pub alist_api_token: Seq<char>,
    pub tmdb_api_key: Seq<char>,
    pub push: PushConfigView,
}

/// The settings of the program: where the file store and the metadata
/// provider are reached, and how messages are pushed.
#[derive(Debug)]
pub struct AppConfig {
    pub alist_host: String,
    pub alist_api_token: String,
    pub tmdb_api_key: String,
    pub push: PushConfig,
}

impl View for AppConfig {
    type V = AppConfigView;

    open spec fn view(&self) -> AppConfigView {
        AppConfigView {
            alist_host: self.alist_host@,
            alist_api_token: self.alist_api_token@,
            tmdb_api_key: self.tmdb_api_key@,
            push: self.push@,
        }
    }
}

/// Settings in which nothing is set.
pub open spec fn empty_config() -> AppConfigView {
    AppConfigView {
        alist_host: Seq::empty(),
        alist_api_token: Seq::empty(),
        tmdb_api_key: Seq::empty(),
        push: PushConfigView { channel: Seq::empty(), params: Seq::empty() },
    }
}

impl Default for AppConfig {
    fn default() -> (r: Self)
        ensures
            r@ == empty_config(),
    {
        AppConfig {
            alist_host: String::new(),
            alist_api_token: String::new(),
            tmdb_api_key: String::new(),
            push: PushConfig::default(),
        }
    }
}

/// One task, as plain values.
pub struct TaskConfigView {
    pub src_dir: Seq<char>,
    pub dest_dir: Seq<char>,
}

/// One task: the directory that holds what was downloaded, and the root of
/// the library that it is sorted into.
#[derive(Debug)]
pub struct TaskConfig {
    pub src_dir: String,
    pub dest_dir: String,
}

impl View for TaskConfig {
    type V = TaskConfigView;

    open spec fn view(&self) -> TaskConfigView {
        TaskConfigView { src_dir: self.src_dir@, dest_dir: self.dest_dir@ }
    }
}

impl Default for TaskConfig {
    fn default() -> (r: Self)
        ensures
            r@.src_dir == Seq::<char>::empty(),
            r@.dest_dir == Seq::<char>::empty(),
    {
        TaskConfig { src_dir: String::new(), dest_dir: String::new() }
    }
}

/// The views of a list of tasks.
pub open spec fn task_views(tasks: Seq<TaskConfig>) -> Seq<TaskConfigView> {
    tasks.map_values(|t: TaskConfig| t@)
}

/// What a [`Manager`] holds, as plain values.
pub struct ManagerView {
    pub data_dir: Seq<char>,
    pub app_config: AppConfigView,
    pub tasks: Seq<TaskConfigView>,
}

/// The settings and tasks that were loaded from a data directory.
pub struct Manager {
    data_dir: String,
    app_config: AppConfig,
    tasks: Vec<TaskConfig>,
}

impl View for Manager {
    type V = ManagerView;

    closed spec fn view(&self) -> ManagerView {
        ManagerView {
            data_dir: self.data_dir@,
            app_config: self.app_config@,
            tasks: task_views(self.tasks@),
        }
    }
}

/// What is made of a data directory and what was read in it: settings that
/// were not found are empty ones, and tasks count only beside settings that
/// were found.
pub open spec fn assembled(
    data_dir: Seq<char>,
    config: Option<AppConfigView>,
    tasks: Option<Seq<TaskConfigView>>,
) -> ManagerView {
    match config {
        Some(c) => ManagerView {
            data_dir,
            app_config: c,
            tasks: match tasks {
                Some(t) => t,
                None => Seq::empty(),
            },
        },
        None => ManagerView { data_dir, app_config: empty_config(), tasks: Seq::empty() },
    }
}

/// The view of settings that may be missing.
pub open spec fn config_view(config: Option<AppConfig>) -> Option<AppConfigView> {
    match config {
        Some(c) => Some(c@),
        None => None,
    }
}

/// The views of tasks that may be missing.
pub open spec fn tasks_view(tasks: Option<Vec<TaskConfig>>) -> Option<Seq<TaskConfigView>> {
    match tasks {
        Some(t) => Some(task_views(t@)),
        None => None,
    }
}

impl Manager {
    /// The data directory.
    pub fn get_data_dir(&self) -> (r: &str)
        ensures
            r@ == self@.data_dir,
    {
        self.data_dir.as_str()
    }

    /// The settings.
    pub fn get_app_config(&self) -> (r: &AppConfig)
        ensures
            r@ == self@.app_config,
    {
        &self.app_config
    }

    /// The tasks, in the order in which they were given.
    pub fn get_tasks(&self) -> (r: &Vec<TaskConfig>)
        ensures
            task_views(r@) == self@.tasks,
    {
        &self.tasks
    }

    /// Makes the manager of the data directory `data_dir` from what was read
    /// in it: `config` from its settings file and `tasks` from its tasks file,
    /// each `None` where the file does not exist. An empty `data_dir` is
    /// refused.
    pub fn assemble(
        data_dir: &str,
        config: Option<AppConfig>,
        tasks: Option<Vec<TaskConfig>>,
    ) -> (r: Result<Manager, Error>)
        ensures
            match r {
                Ok(m) => data_dir@.len() > 0 && m@ == assembled(
                    data_dir@,
                    config_view(config),
                    tasks_view(tasks),
                ),
                Err(e) => data_dir@.len() == 0 && e@ == ErrorView::Internal(
                    "config dir is empty"@,
                ),
            },
    {
        if data_dir.is_empty() {
            return Err(Error::Internal(String::from_str("config dir is empty")));
        }
        match config {
            Some(c) => {
                let t = match tasks {
                    Some(t) => t,
                    None => {
                        let t: Vec<TaskConfig> = Vec::new();
                        assert(task_views(t@) =~= Seq::<TaskConfigView>::empty());
                        t
                    },
                };
                Ok(Manager { data_dir: String::from_str(data_dir), app_config: c, tasks: t })
            },
            None => {
                let t: Vec<TaskConfig> = Vec::new();
                assert(task_views(t@) =~= Seq::<TaskConfigView>::empty());
                Ok(
                    Manager {
                        data_dir: String::from_str(data_dir),
                        app_config: AppConfig::default(),
                        tasks: t,
                    },
                )
            },
        }
    }
}

impl vstd::std_specs::convert::FromSpecImpl<AppConfig> for Manager {
    /// A manager holds texts, which have no value but their view in
    /// contracts: what `from` gives is stated over views, on `from` itself.
    open spec fn obeys_from_spec() -> bool {
        false
    }

    open spec fn from_spec(value: AppConfig) -> Self {
        arbitrary()
    }
}

impl From<AppConfig> for Manager {
    /// A manager of the settings `value` alone, with no data directory and no
    /// tasks.
    fn from(value: AppConfig) -> (r: Self)
        ensures
            r@ == (ManagerView {
                data_dir: Seq::empty(),
                app_config: value@,
                tasks: Seq::empty(),
            }),
    {
        let t: Vec<TaskConfig> = Vec::new();
        assert(task_views(t@) =~= Seq::<TaskConfigView>::empty());
        Manager { data_dir: String::new(), app_config: value, tasks: t }
    }
}

} // verus!
