//! The implementation descriptor: the declarative manifest that names one
//! worker, its project category, optional build/run command overrides, and
//! the games it supports per task. Validation rejects any unrecognized
//! project category, task key or game tag.

use vstd::prelude::*;

use crate::game::Game;
use crate::text::str_equal;

verus! {

/// The kind of exercise requested of a worker.
#[derive(Debug, Clone, Copy, PartialEq, Eq, Hash, Structural)]
pub enum TaskType {
    CanParse,
    Deserialization,
}

/// The canonical token of a task type.
pub open spec fn spec_task_tag(t: TaskType) -> Seq<char> {
    match t {
        TaskType::CanParse => "can-parse"@,
        TaskType::Deserialization => "deserialization"@,
    }
}

/// The task type a manifest key names, matched exactly.
pub open spec fn spec_task_of_token(s: Seq<char>) -> Option<TaskType> {
    if s == spec_task_tag(TaskType::CanParse) {
        Some(TaskType::CanParse)
    } else if s == spec_task_tag(TaskType::Deserialization) {
        Some(TaskType::Deserialization)
    } else {
        None
    }
}

impl TaskType {
    /// The canonical lowercase token, used both as the manifest key and as
    /// the value passed across the process boundary.
    pub fn as_str(&self) -> (r: &'static str)
        ensures
            r@ == spec_task_tag(*self),
    {
        match self {
            TaskType::CanParse => "can-parse",
            TaskType::Deserialization => "deserialization",
        }
    }

    /// Parses a manifest task key, matched exactly.
    pub fn from_token(s: &str) -> (r: Option<TaskType>)
        ensures
            r == spec_task_of_token(s@),
    {
        if str_equal(s, "can-parse") {
            Some(TaskType::CanParse)
        } else if str_equal(s, "deserialization") {
            Some(TaskType::Deserialization)
        } else {
            None
        }
    }
}

/// The project category of an implementation, which fixes its default build
/// and run commands.
#[derive(Debug, Clone, Copy, PartialEq, Eq, Structural)]
pub enum ProjectType {
    Rust,
    Gradle,
    Nodejs,
    Go,
    Make,
}

/// The canonical token of a project category.
pub open spec fn spec_project_tag(t: ProjectType) -> Seq<char> {
    match t {
        ProjectType::Rust => "rust"@,
        ProjectType::Gradle => "gradle"@,
        ProjectType::Nodejs => "nodejs"@,
        ProjectType::Go => "go"@,
        ProjectType::Make => "make"@,
    }
}

/// The project category a manifest value names, matched exactly.
pub open spec fn spec_project_of_token(s: Seq<char>) -> Option<ProjectType> {
    if s == spec_project_tag(ProjectType::Rust) {
        Some(ProjectType::Rust)
    } else if s == spec_project_tag(ProjectType::Gradle) {
        Some(ProjectType::Gradle)
    } else if s == spec_project_tag(ProjectType::Nodejs) {
        Some(ProjectType::Nodejs)
    } else if s == spec_project_tag(ProjectType::Go) {
        Some(ProjectType::Go)
    } else if s == spec_project_tag(ProjectType::Make) {
        Some(ProjectType::Make)
    } else {
        None
    }
}

impl ProjectType {
    /// The canonical lowercase token of the category.
    pub fn as_str(&self) -> (r: &'static str)
        ensures
            r@ == spec_project_tag(*self),
    {
        match self {
            ProjectType::Rust => "rust",
            ProjectType::Gradle => "gradle",
            ProjectType::Nodejs => "nodejs",
            ProjectType::Go => "go",
            ProjectType::Make => "make",
        }
    }

    /// Parses a manifest project-category value, matched exactly.
    pub fn from_token(s: &str) -> (r: Option<ProjectType>)
        ensures
            r == spec_project_of_token(s@),
    {
        if str_equal(s, "rust") {
            Some(ProjectType::Rust)
        } else if str_equal(s, "gradle") {
            Some(ProjectType::Gradle)
        } else if str_equal(s, "nodejs") {
            Some(ProjectType::Nodejs)
        } else if str_equal(s, "go") {
            Some(ProjectType::Go)
        } else if str_equal(s, "make") {
            Some(ProjectType::Make)
        } else {
            None
        }
    }
}

/// The game a manifest game tag names, matched exactly (manifest tags are
/// the canonical lowercase spellings).
pub open spec fn spec_game_of_config_tag(s: Seq<char>) -> Option<Game> {
    if s == crate::game::spec_game_tag(Game::Eu4) {
        Some(Game::Eu4)
    } else if s == crate::game::spec_game_tag(Game::Ck3) {
        Some(Game::Ck3)
    } else if s == crate::game::spec_game_tag(Game::Vic3) {
        Some(Game::Vic3)
    } else if s == crate::game::spec_game_tag(Game::Hoi4) {
        Some(Game::Hoi4)
    } else if s == crate::game::spec_game_tag(Game::Imperator) {
        Some(Game::Imperator)
    } else if s == crate::game::spec_game_tag(Game::Stellaris) {
        Some(Game::Stellaris)
    } else {
        None
    }
}

/// Parses a manifest game tag, matched exactly.
pub fn game_from_config_tag(s: &str) -> (r: Option<Game>)
    ensures
        r == spec_game_of_config_tag(s@),
{
    if str_equal(s, "eu4") {
        Some(Game::Eu4)
    } else if str_equal(s, "ck3") {
        Some(Game::Ck3)
    } else if str_equal(s, "vic3") {
        Some(Game::Vic3)
    } else if str_equal(s, "hoi4") {
        Some(Game::Hoi4)
    } else if str_equal(s, "imperator") {
        Some(Game::Imperator)
    } else if str_equal(s, "stellaris") {
        Some(Game::Stellaris)
    } else {
        None
    }
}

/// Explicit build/run command overrides of a manifest.
#[derive(Debug, Clone)]
pub struct ExecutionConfig {
    pub build_command: Option<String>,
    pub run_command: Option<String>,
}

/// The games an implementation supports for one task.
#[derive(Debug, Clone)]
pub struct TaskConfig {
    pub games: Vec<Game>,
}

/// The per-task game lists of a manifest; an absent task means the task is
/// not supported.
#[derive(Debug, Clone)]
pub struct TasksConfig {
    pub can_parse: Option<TaskConfig>,
    pub deserialization: Option<TaskConfig>,
}

/// A validated implementation manifest.
#[derive(Debug, Clone)]
pub struct ImplementationConfig {
    pub name: String,
    pub description: Option<String>,
    pub project_type: ProjectType,
    pub execution: Option<ExecutionConfig>,
    pub tasks: TasksConfig,
}

/// One task section of a manifest, before validation: the task key and the
/// game tags, both as plain text.
#[derive(Debug, Clone)]
pub struct RawTaskEntry {
    pub task: String,
    pub games: Vec<String>,
}

/// The execution section of a manifest, before validation.
#[derive(Debug, Clone)]
pub struct RawExecution {
    pub build_command: Option<String>,
    pub run_command: Option<String>,
}

/// A manifest as read from disk, before validation: every token still plain
/// text.
#[derive(Debug, Clone)]
pub struct RawConfig {
    pub name: String,
    pub description: Option<String>,
    pub project_type: String,
    pub execution: Option<RawExecution>,
    pub tasks: Vec<RawTaskEntry>,
}

/// A configuration error: the manifest names something the harness does not
/// know.
#[derive(Debug, Clone)]
pub enum ConfigError {
    UnknownProjectType { token: String },
    UnknownTask { token: String },
    UnrecognizedGame { tag: String },
}

/// One raw task entry is valid: its key names a task and every tag names a
/// game.
pub open spec fn spec_entry_valid(e: RawTaskEntry) -> bool {
    &&& spec_task_of_token(e.task@) is Some
    &&& forall|j: int| 0 <= j < e.games@.len() ==> spec_game_of_config_tag(e.games@[j]@) is Some
}

/// Every raw task entry is valid.
pub open spec fn spec_entries_valid(es: Seq<RawTaskEntry>) -> bool {
    forall|i: int| 0 <= i < es.len() ==> spec_entry_valid(#[trigger] es[i])
}

/// The games one raw task entry declares, in order.
pub open spec fn spec_entry_games(e: RawTaskEntry) -> Seq<Game> {
    e.games@.map_values(|g: String| spec_game_of_config_tag(g@)->Some_0)
}

/// The games the manifest declares for a task: the last entry with that task
/// key wins; `None` when no entry names the task.
pub open spec fn spec_task_games(es: Seq<RawTaskEntry>, t: TaskType) -> Option<Seq<Game>>
    decreases es.len(),
{
    if es.len() == 0 {
        None
    } else if spec_task_of_token(es.last().task@) == Some(t) {
        Some(spec_entry_games(es.last()))
    } else {
        spec_task_games(es.drop_last(), t)
    }
}

/// Whether the whole raw manifest is valid.
pub open spec fn spec_raw_valid(raw: RawConfig) -> bool {
    spec_project_of_token(raw.project_type@) is Some && spec_entries_valid(raw.tasks@)
}

/// The option of a task-config matches what the raw entries declare.
pub open spec fn spec_task_option_matches(
    es: Seq<RawTaskEntry>,
    t: TaskType,
    o: Option<TaskConfig>,
) -> bool {
    match o {
        Some(tc) => spec_task_games(es, t) == Some(tc.games@),
        None => spec_task_games(es, t) is None,
    }
}

/// The option views of two optional strings agree.
pub open spec fn spec_opt_string_eq(a: Option<String>, b: Option<String>) -> bool {
    match (a, b) {
        (Some(x), Some(y)) => x@ == y@,
        (None, None) => true,
        _ => false,
    }
}

/// Copies a game list.
fn copy_games(v: &Vec<Game>) -> (r: Vec<Game>)
    ensures
        r@ == v@,
{
    let n = v.len();
    let mut r: Vec<Game> = Vec::new();
    let mut i: usize = 0;
    while i < n
        invariant
            0 <= i <= n,
            n == v@.len(),
            r@ == v@.take(i as int),
        decreases n - i,
    {
        r.push(v[i]);
        proof {
            assert(r@ =~= v@.take(i as int + 1));
        }
        i = i + 1;
    }
    proof {
        assert(v@.take(n as int) =~= v@);
    }
    r
}

/// Parses the game tags of one task section; the first unrecognized tag is
/// the error.
fn parse_game_tags(tags: &Vec<String>) -> (r: Result<Vec<Game>, String>)
    ensures
        match r {
            Ok(v) => (forall|j: int|
                0 <= j < tags@.len() ==> spec_game_of_config_tag(#[trigger] tags@[j]@) is Some)
                && v@ == tags@.map_values(|g: String| spec_game_of_config_tag(g@)->Some_0),
            Err(t) => spec_game_of_config_tag(t@) is None && exists|j: int|
                0 <= j < tags@.len() && #[trigger] tags@[j]@ == t@,
        },
{
    let n = tags.len();
    let ghost target = tags@.map_values(|g: String| spec_game_of_config_tag(g@)->Some_0);
    let mut r: Vec<Game> = Vec::new();
    let mut i: usize = 0;
    while i < n
        invariant
            0 <= i <= n,
            n == tags@.len(),
            target == tags@.map_values(|g: String| spec_game_of_config_tag(g@)->Some_0),
            forall|j: int| 0 <= j < i ==> spec_game_of_config_tag(#[trigger] tags@[j]@) is Some,
            r@.len() == i,
            forall|j: int| 0 <= j < i ==> r@[j] == target[j],
        decreases n - i,
    {
        let tag: &String = &tags[i];
        match game_from_config_tag(tag.as_str()) {
            Some(g) => {
                r.push(g);
            },
            None => {
                return Err(tag.clone());
            },
        }
        i = i + 1;
    }
    proof {
        assert(r@ =~= target);
    }
    Ok(r)
}

impl ImplementationConfig {
    /// Validates a raw manifest: the project category, every task key and
    /// every game tag must be recognized, else loading fails with a
    /// configuration error naming the offender.
    pub fn from_raw(raw: &RawConfig) -> (r: Result<ImplementationConfig, ConfigError>)
        ensures
            r is Ok <==> spec_raw_valid(*raw),
            match r {
                Ok(c) => {
                    &&& c.name@ == raw.name@
                    &&& spec_project_of_token(raw.project_type@) == Some(c.project_type)
                    &&& match (raw.description, c.description) {
                        (Some(a), Some(b)) => a@ == b@,
                        (None, None) => true,
                        _ => false,
                    }
                    &&& match (raw.execution, c.execution) {
                        (Some(a), Some(b)) => spec_opt_string_eq(a.build_command, b.build_command)
                            && spec_opt_string_eq(a.run_command, b.run_command),
                        (None, None) => true,
                        _ => false,
                    }
                    &&& spec_task_option_matches(raw.tasks@, TaskType::CanParse, c.tasks.can_parse)
                    &&& spec_task_option_matches(
                        raw.tasks@,
                        TaskType::Deserialization,
                        c.tasks.deserialization,
                    )
                },
                Err(e) => match e {
                    ConfigError::UnknownProjectType { token } => token@ == raw.project_type@
                        && spec_project_of_token(raw.project_type@) is None,
                    ConfigError::UnknownTask { token } => spec_task_of_token(token@) is None
                        && exists|i: int|
                        0 <= i < raw.tasks@.len() && #[trigger] raw.tasks@[i].task@ == token@,
                    ConfigError::UnrecognizedGame { tag } => spec_game_of_config_tag(tag@) is None
                        && exists|i: int, j: int|
                        0 <= i < raw.tasks@.len() && 0 <= j < raw.tasks@[i].games@.len()
                            && raw.tasks@[i].games@[j]@ == tag@,
                },
            },
    {
        let project_type = match ProjectType::from_token(raw.project_type.as_str()) {
            Some(p) => p,
            None => {
                return Err(ConfigError::UnknownProjectType { token: raw.project_type.clone() });
            },
        };
        let n = raw.tasks.len();
        let mut can_parse: Option<TaskConfig> = None;
        let mut deserialization: Option<TaskConfig> = None;
        let mut i: usize = 0;
        while i < n
            invariant
                0 <= i <= n,
                n == raw.tasks@.len(),
                forall|j: int| 0 <= j < i ==> spec_entry_valid(#[trigger] raw.tasks@[j]),
                spec_task_option_matches(
                    raw.tasks@.take(i as int),
                    TaskType::CanParse,
                    can_parse,
                ),
                spec_task_option_matches(
                    raw.tasks@.take(i as int),
                    TaskType::Deserialization,
                    deserialization,
                ),
            decreases n - i,
        {
            let entry: &RawTaskEntry = &raw.tasks[i];
            let task = match TaskType::from_token(entry.task.as_str()) {
                Some(t) => t,
                None => {
                    return Err(ConfigError::UnknownTask { token: entry.task.clone() });
                },
            };
            let games = match parse_game_tags(&entry.games) {
                Ok(v) => v,
                Err(tag) => {
                    return Err(ConfigError::UnrecognizedGame { tag });
                },
            };
            proof {
                assert(raw.tasks@.take(i as int + 1).last() == raw.tasks@[i as int]);
                assert(raw.tasks@.take(i as int + 1).drop_last() =~= raw.tasks@.take(i as int));
            }
            match task {
                TaskType::CanParse => {
                    can_parse = Some(TaskConfig { games });
                },
                TaskType::Deserialization => {
                    deserialization = Some(TaskConfig { games });
                },
            }
            i = i + 1;
        }
        proof {
            assert(raw.tasks@.take(n as int) =~= raw.tasks@);
        }
        let description: Option<String> = match &raw.description {
            Some(d) => Some(d.clone()),
            None => None,
        };
        let execution: Option<ExecutionConfig> = match &raw.execution {
            Some(e) => Some(
                ExecutionConfig {
                    build_command: match &e.build_command {
                        Some(c) => Some(c.clone()),
                        None => None,
                    },
                    run_command: match &e.run_command {
                        Some(c) => Some(c.clone()),
                        None => None,
                    },
                },
            ),
            None => None,
        };
        Ok(
            ImplementationConfig {
                name: raw.name.clone(),
                description,
                project_type,
                execution,
                tasks: TasksConfig { can_parse, deserialization },
            },
        )
    }

    /// The games this implementation supports for `task`; an empty list means
    /// the task is unsupported.
    pub fn supported_games_for_task(&self, task: TaskType) -> (r: Vec<Game>)
        ensures
            r@ == spec_supported_games(self, task),
    {
        let tc: &Option<TaskConfig> = match task {
            TaskType::CanParse => &self.tasks.can_parse,
            TaskType::Deserialization => &self.tasks.deserialization,
        };
        match tc {
            Some(c) => copy_games(&c.games),
            None => Vec::new(),
        }
    }
}

/// The games a validated config holds for a task; empty when the task is
/// absent.
pub open spec fn spec_supported_games(c: &ImplementationConfig, task: TaskType) -> Seq<Game> {
    let o = match task {
        TaskType::CanParse => c.tasks.can_parse,
        TaskType::Deserialization => c.tasks.deserialization,
    };
    match o {
        Some(tc) => tc.games@,
        None => Seq::empty(),
    }
}

} // verus!
