//! The protocol executor's state machine and command handling: a two-phase
//! (build, then execute) driver. An executor starts in the `Initial` stage;
//! only a successful build transition yields a `Built` executor, and only a
//! `Built` executor can prepare an invocation — running before building is
//! unrepresentable.
//!
//! Spawning the subprocess is outside work; this module resolves and
//! tokenizes the commands, fixes the argument contract, and drives the stage
//! transition from the reported outcome.

use vstd::prelude::*;

use crate::config::{spec_task_tag, ImplementationConfig, ProjectType, TaskType};
use crate::game::{spec_game_tag, Game};
use crate::implementation::Implementation;

verus! {

/// Stage marker: constructed, not yet built.
pub struct Initial;

/// Stage marker: the build transition succeeded.
pub struct Built;

/// The executor for one implementation, carrying its lifecycle stage in the
/// type.
pub struct ImplementationExecutor<'a, Stage = Initial> {
    pub implementation: &'a Implementation,
    pub stage: Stage,
}

/// An error of the executor itself, distinct from a worker-reported failure:
/// a command that cannot be tokenized, an empty run command, or a build that
/// exited nonzero.
#[derive(Debug, Clone)]
pub enum ExecError {
    /// The build command could not be tokenized.
    ParseBuildCommand { command: String },
    /// The run command could not be tokenized.
    ParseRunCommand { command: String },
    /// The resolved run command has no tokens.
    EmptyRunCommand,
    /// The build command exited nonzero, with that exit code.
    BuildFailed { exit_code: Option<i32> },
}

/// The default build and run command templates of a project category.
pub struct ProjectTypeConfig {
    pub build_command: Option<&'static str>,
    pub run_command: &'static str,
}

/// The default build command of a project category.
pub open spec fn spec_default_build_command(p: ProjectType) -> Option<Seq<char>> {
    match p {
        ProjectType::Rust => Some("cargo build --release"@),
        ProjectType::Gradle => Some("./gradlew build"@),
        ProjectType::Nodejs => Some("npm install"@),
        ProjectType::Go => Some("go build"@),
        ProjectType::Make => Some("make"@),
    }
}

/// The default run command of a project category.
pub open spec fn spec_default_run_command(p: ProjectType) -> Seq<char> {
    match p {
        ProjectType::Rust => "cargo run --release --quiet --"@,
        ProjectType::Gradle => "./gradlew run"@,
        ProjectType::Nodejs => "node main.js"@,
        ProjectType::Go => "go run"@,
        ProjectType::Make => "make run"@,
    }
}

/// The default command templates of a project category.
pub fn get_project_config(project_type: ProjectType) -> (r: ProjectTypeConfig)
    ensures
        match r.build_command {
            Some(b) => spec_default_build_command(project_type) == Some(b@),
            None => spec_default_build_command(project_type) is None,
        },
        r.run_command@ == spec_default_run_command(project_type),
{
    match project_type {
        ProjectType::Rust => ProjectTypeConfig {
            build_command: Some("cargo build --release"),
            run_command: "cargo run --release --quiet --",
        },
        ProjectType::Gradle => ProjectTypeConfig {
            build_command: Some("./gradlew build"),
            run_command: "./gradlew run",
        },
        ProjectType::Nodejs => ProjectTypeConfig {
            build_command: Some("npm install"),
            run_command: "node main.js",
        },
        ProjectType::Go => ProjectTypeConfig {
            build_command: Some("go build"),
            run_command: "go run",
        },
        ProjectType::Make => ProjectTypeConfig {
            build_command: Some("make"),
            run_command: "make run",
        },
    }
}

/// The build command of a configuration: the explicit override when present,
/// else the category default.
pub open spec fn spec_build_command(c: ImplementationConfig) -> Option<Seq<char>> {
    match c.execution {
        Some(e) => match e.build_command {
            Some(b) => Some(b@),
            None => spec_default_build_command(c.project_type),
        },
        None => spec_default_build_command(c.project_type),
    }
}

/// The run command of a configuration: the explicit override when present,
/// else the category default.
pub open spec fn spec_run_command(c: ImplementationConfig) -> Seq<char> {
    match c.execution {
        Some(e) => match e.run_command {
            Some(r) => r@,
            None => spec_default_run_command(c.project_type),
        },
        None => spec_default_run_command(c.project_type),
    }
}

/// What tokenizing a command string yields. Its value is fixed by the
/// trusted tokenizer below; tokenization is a function of the string alone.
pub uninterp spec fn shell_split_of(s: Seq<char>) -> Result<Seq<Seq<char>>, ()>;

/// The tokenizer's error: the command string has an unmatched quote.
#[derive(Debug, Clone)]
pub struct ShellParseError;

/// Relies on shell_words::split: tokenizes a command string by POSIX-shell
/// word-splitting, quoting and escaping rules (quoted substrings and
/// backslash-escaped spaces form single tokens), failing exactly on an
/// unmatched quote. The result depends on the string alone.
#[verifier::external_body]
fn split_command(s: &str) -> (r: Result<Vec<String>, ShellParseError>)
    ensures
        match r {
            Ok(v) => shell_split_of(s@) == Ok::<Seq<Seq<char>>, ()>(v.deep_view()),
            Err(_) => shell_split_of(s@) is Err,
        },
{
    match shell_words::split(s) {
        Ok(v) => Ok(v),
        Err(_) => Err(ShellParseError),
    }
}

/// The `--game <tag>` argument pairs of the games from position `i` on, in
/// the caller-supplied order.
pub open spec fn spec_game_args_from(games: Seq<Game>, i: int) -> Seq<Seq<char>>
    decreases games.len() - i,
{
    if i < 0 || i >= games.len() {
        seq![]
    } else {
        seq!["--game"@, spec_game_tag(games[i])] + spec_game_args_from(games, i + 1)
    }
}

/// The fixed argument contract appended after the run command's own tokens:
/// `--task <token>` once, then `--game <tag>` once per relevant game.
pub open spec fn spec_protocol_args(task: TaskType, games: Seq<Game>) -> Seq<Seq<char>> {
    seq!["--task"@, spec_task_tag(task)] + spec_game_args_from(games, 0)
}

impl<'a> ImplementationExecutor<'a, Initial> {
    /// A fresh executor for `implementation`, not yet built.
    pub fn new(implementation: &'a Implementation) -> (r: Self)
        ensures
            r.implementation == implementation,
    {
        ImplementationExecutor { implementation, stage: Initial }
    }

    /// Resolves and tokenizes the build command: the explicit override when
    /// present, else the category default. `None` means no build step is
    /// needed.
    pub fn build_command_tokens(&self) -> (r: Result<Option<Vec<String>>, ExecError>)
        ensures
            match r {
                Ok(o) => match o {
                    Some(v) => spec_build_command(self.implementation.config) is Some
                        && shell_split_of(spec_build_command(self.implementation.config)->Some_0)
                        == Ok::<Seq<Seq<char>>, ()>(v.deep_view()),
                    None => spec_build_command(self.implementation.config) is None,
                },
                Err(e) => spec_build_command(self.implementation.config) is Some && shell_split_of(
                    spec_build_command(self.implementation.config)->Some_0,
                ) is Err && (e matches ExecError::ParseBuildCommand { command } && command@
                    == spec_build_command(self.implementation.config)->Some_0),
            },
    {
        let cmd: Option<String> = resolved_build_command(&self.implementation.config);
        match cmd {
            None => Ok(None),
            Some(c) => match split_command(c.as_str()) {
                Ok(parts) => Ok(Some(parts)),
                Err(_) => Err(ExecError::ParseBuildCommand { command: c }),
            },
        }
    }

    /// Completes the build transition from the reported outcome of the build
    /// command: success yields a `Built` executor, a nonzero exit is a build
    /// failure carrying the exit code.
    pub fn finish_build(self, build_succeeded: bool, exit_code: Option<i32>) -> (r: Result<
        ImplementationExecutor<'a, Built>,
        ExecError,
    >)
        ensures
            r is Ok <==> build_succeeded,
            r is Ok ==> r->Ok_0.implementation == self.implementation,
            r is Err ==> (r->Err_0 matches ExecError::BuildFailed { exit_code: c } && c
                == exit_code),
    {
        if build_succeeded {
            Ok(ImplementationExecutor { implementation: self.implementation, stage: Built })
        } else {
            Err(ExecError::BuildFailed { exit_code })
        }
    }
}

/// The resolved build command of a configuration.
fn resolved_build_command(c: &ImplementationConfig) -> (r: Option<String>)
    ensures
        match r {
            Some(s) => spec_build_command(*c) == Some(s@),
            None => spec_build_command(*c) is None,
        },
{
    let explicit: Option<&String> = match &c.execution {
        Some(e) => match &e.build_command {
            Some(b) => Some(b),
            None => None,
        },
        None => None,
    };
    match explicit {
        Some(b) => Some(b.clone()),
        None => {
            let defaults = get_project_config(c.project_type);
            match defaults.build_command {
                Some(d) => Some(d.to_owned()),
                None => None,
            }
        },
    }
}

/// The resolved run command of a configuration.
fn resolved_run_command(c: &ImplementationConfig) -> (r: String)
    ensures
        r@ == spec_run_command(*c),
{
    let explicit: Option<&String> = match &c.execution {
        Some(e) => match &e.run_command {
            Some(rc) => Some(rc),
            None => None,
        },
        None => None,
    };
    match explicit {
        Some(rc) => rc.clone(),
        None => {
            let defaults = get_project_config(c.project_type);
            defaults.run_command.to_owned()
        },
    }
}

impl<'a> ImplementationExecutor<'a, Built> {
    /// The implementation this executor drives.
    pub fn implementation(&self) -> (r: &'a Implementation)
        ensures
            r == self.implementation,
    {
        self.implementation
    }

    /// Resolves and tokenizes the run command and appends the protocol
    /// arguments: `--task <token>` once, then `--game <tag>` per relevant
    /// game in the caller-supplied order. An empty resolved command is an
    /// immediate error.
    pub fn run_command_tokens(&self, task: TaskType, games: &Vec<Game>) -> (r: Result<
        Vec<String>,
        ExecError,
    >)
        requires
            games@.len() >= 1,
        ensures
            match r {
                Ok(v) => shell_split_of(spec_run_command(self.implementation.config)) matches Ok(
                    parts,
                ) && parts.len() > 0 && v.deep_view() == parts + spec_protocol_args(task, games@),
                Err(e) => match e {
                    ExecError::ParseRunCommand { command } => command@ == spec_run_command(
                        self.implementation.config,
                    ) && shell_split_of(spec_run_command(self.implementation.config)) is Err,
                    ExecError::EmptyRunCommand => shell_split_of(
                        spec_run_command(self.implementation.config),
                    ) matches Ok(parts) && parts.len() == 0,
                    _ => false,
                },
            },
    {
        let cmd = resolved_run_command(&self.implementation.config);
        let ghost cmd_view = cmd@;
        match split_command(cmd.as_str()) {
            Err(_) => Err(ExecError::ParseRunCommand { command: cmd }),
            Ok(mut parts) => {
                if parts.len() == 0 {
                    return Err(ExecError::EmptyRunCommand);
                }
                let ghost base = parts.deep_view();
                parts.push("--task".to_owned());
                proof {
                    assert(parts.deep_view() =~~= base + seq!["--task"@]);
                }
                parts.push(task.as_str().to_owned());
                proof {
                    assert(parts.deep_view() =~~= base + seq!["--task"@, spec_task_tag(task)]);
                }
                let n = games.len();
                let mut i: usize = 0;
                while i < n
                    invariant
                        0 <= i <= n,
                        n == games@.len(),
                        parts.deep_view() =~~= base + seq!["--task"@, spec_task_tag(task)]
                            + spec_game_args_partial(games@, i as int),
                    decreases n - i,
                {
                    let ghost before = parts.deep_view();
                    let g = games[i];
                    parts.push("--game".to_owned());
                    parts.push(g.as_str().to_owned());
                    proof {
                        assert(parts.deep_view() =~~= before + seq!["--game"@, spec_game_tag(g)]);
                        lemma_game_args_partial_push(games@, i as int);
                        assert(parts.deep_view() =~~= base + seq!["--task"@, spec_task_tag(task)]
                            + spec_game_args_partial(games@, i as int + 1));
                    }
                    i = i + 1;
                }
                proof {
                    lemma_game_args_partial_full(games@);
                    assert(parts.deep_view() =~~= base + spec_protocol_args(task, games@));
                }
                Ok(parts)
            },
        }
    }
}

/// The `--game` argument pairs of the first `i` games.
pub open spec fn spec_game_args_partial(games: Seq<Game>, i: int) -> Seq<Seq<char>>
    decreases i,
{
    if i <= 0 || i > games.len() {
        seq![]
    } else {
        spec_game_args_partial(games, i - 1) + seq!["--game"@, spec_game_tag(games[i - 1])]
    }
}

proof fn lemma_game_args_partial_push(games: Seq<Game>, i: int)
    requires
        0 <= i < games.len(),
    ensures
        spec_game_args_partial(games, i + 1) == spec_game_args_partial(games, i) + seq![
            "--game"@,
            spec_game_tag(games[i]),
        ],
{
}

proof fn lemma_game_args_partial_full(games: Seq<Game>)
    ensures
        spec_game_args_partial(games, games.len() as int) == spec_game_args_from(games, 0),
{
    let n = games.len() as int;
    lemma_game_args_agree(games, n);
    assert(spec_game_args_from(games, n) =~= Seq::<Seq<char>>::empty());
    assert(spec_game_args_partial(games, n) + spec_game_args_from(games, n)
        =~= spec_game_args_partial(games, n));
}

proof fn lemma_game_args_agree(games: Seq<Game>, i: int)
    requires
        0 <= i <= games.len(),
    ensures
        spec_game_args_partial(games, i) + spec_game_args_from(games, i) == spec_game_args_from(
            games,
            0,
        ),
    decreases i,
{
    if i == 0 {
        assert(spec_game_args_partial(games, 0) + spec_game_args_from(games, 0)
            =~= spec_game_args_from(games, 0));
    } else {
        lemma_game_args_agree(games, i - 1);
        assert(spec_game_args_partial(games, i) + spec_game_args_from(games, i)
            =~= spec_game_args_partial(games, i - 1) + (seq![
            "--game"@,
            spec_game_tag(games[i - 1]),
        ] + spec_game_args_from(games, i)));
        assert(seq!["--game"@, spec_game_tag(games[i - 1])] + spec_game_args_from(games, i)
            =~= spec_game_args_from(games, i - 1));
    }
}

} // verus!
