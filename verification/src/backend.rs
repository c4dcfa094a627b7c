//! Handing a finished wallpaper to the desktop, one step at a time.
//!
//! The steps themselves (a write to the settings store, a run of the helper
//! program) are carried out by the caller, who reports how each one went.

use vstd::prelude::*;
use vstd::string::*;
use crate::config::Backend;

verus! {

/// Why a wallpaper could not be applied.
#[derive(Debug, Clone, Copy, PartialEq, Eq)]
pub enum ApplyError {
    /// The artifact's path is not text.
    PathNotText,
    /// A write to the settings store failed.
    RegistryWrite,
    /// The helper program could not be started or reported failure.
    Helper,
    /// The artifact could not be written, so there is nothing to apply.
    NotPublished,
}

/// How a step went, as the caller saw it.
#[derive(Debug, Clone, Copy, PartialEq, Eq)]
pub enum StepOutcome {
    /// The settings store took the write.
    Written,
    /// The settings store refused the write.
    WriteFailed,
    /// The helper program ran and ended with this exit status.
    Exited(i32),
    /// The helper program was ended from outside, without an exit status.
    Killed,
    /// The helper program could not be started.
    NotStarted,
}

/// Whether a write to the settings store went well.
pub open spec fn write_went_well(outcome: StepOutcome) -> bool {
    outcome is Written
}

/// Whether a run of the helper went well: it ended with exit status zero.
pub open spec fn run_went_well(outcome: StepOutcome) -> bool {
    outcome == StepOutcome::Exited(0)
}

/// Whether a step of `backend` with this outcome went well.
pub open spec fn step_went_well(backend: Backend, outcome: StepOutcome) -> bool {
    match backend {
        Backend::Cinnamon => write_went_well(outcome),
        Backend::Feh => run_went_well(outcome),
    }
}

/// What to do next to apply a wallpaper.
#[derive(Debug, Clone, PartialEq, Eq)]
pub enum ApplyStep {
    /// Write `value` under `key` in the desktop's settings store.
    WriteKey { key: String, value: String },
    /// Run `program` with `args`.
    RunHelper { program: String, args: Vec<String> },
    /// Nothing is left to do: the wallpaper is applied.
    Done,
    /// Nothing more is to be tried: applying failed.
    Failed(ApplyError),
}

/// The model of a step: its strings as character sequences.
pub enum StepModel {
    /// Write `value` under `key`.
    WriteKey { key: Seq<char>, value: Seq<char> },
    /// Run `program` with `args`.
    RunHelper { program: Seq<char>, args: Seq<Seq<char>> },
    /// The wallpaper is applied.
    Done,
    /// Applying failed.
    Failed(ApplyError),
}

impl View for ApplyStep {
    type V = StepModel;

    open spec fn view(&self) -> StepModel {
        match *self {
            ApplyStep::WriteKey { key, value } => StepModel::WriteKey { key: key@, value: value@ },
            ApplyStep::RunHelper { program, args } => StepModel::RunHelper {
                program: program@,
                args: args@.map_values(|s: String| s@),
            },
            ApplyStep::Done => StepModel::Done,
            ApplyStep::Failed(e) => StepModel::Failed(e),
        }
    }
}

/// The step that follows once the steps before it went as `history` tells
/// (one entry per finished step). The settings store gets
/// the picture's address first and the layout second, the second only after
/// the first went well. The helper program is run once.
pub open spec fn next_step(
    backend: Backend,
    path: Option<Seq<char>>,
    history: Seq<StepOutcome>,
) -> StepModel {
    match path {
        None => StepModel::Failed(ApplyError::PathNotText),
        Some(p) => match backend {
            Backend::Cinnamon => {
                if history.len() == 0 {
                    StepModel::WriteKey {
                        key: "/org/cinnamon/desktop/background/picture-uri"@,
                        value: "file://"@ + p,
                    }
                } else if !write_went_well(history[0]) {
                    StepModel::Failed(ApplyError::RegistryWrite)
                } else if history.len() == 1 {
                    StepModel::WriteKey {
                        key: "/org/cinnamon/desktop/background/picture-options"@,
                        value: "spanned"@,
                    }
                } else if !write_went_well(history[1]) {
                    StepModel::Failed(ApplyError::RegistryWrite)
                } else {
                    StepModel::Done
                }
            },
            Backend::Feh => {
                if history.len() == 0 {
                    StepModel::RunHelper {
                        program: "feh"@,
                        args: seq!["--no-xinerama"@, "--bg-center"@, p],
                    }
                } else if run_went_well(history[0]) {
                    StepModel::Done
                } else {
                    StepModel::Failed(ApplyError::Helper)
                }
            },
        },
    }
}

/// The view of an optional path.
pub open spec fn path_view(path: Option<&str>) -> Option<Seq<char>> {
    match path {
        Some(p) => Some(p@),
        None => None,
    }
}

/// Decides whether a write to the settings store went well.
pub fn written(outcome: &StepOutcome) -> (ok: bool)
    ensures
        ok == write_went_well(*outcome),
{
    match outcome {
        StepOutcome::Written => true,
        _ => false,
    }
}

/// Decides whether a run of the helper went well: only exit status zero does.
pub fn exited_cleanly(outcome: &StepOutcome) -> (ok: bool)
    ensures
        ok == run_went_well(*outcome),
{
    match outcome {
        StepOutcome::Exited(status) => *status == 0,
        _ => false,
    }
}

/// The next step in making the artifact at `path` the wallpaper through
/// `backend`; `path` is `None` where the artifact's path is not text.
pub fn set_background(path: Option<&str>, backend: &Backend, history: &Vec<StepOutcome>) -> (step:
    ApplyStep)
    ensures
        step@ == next_step(*backend, path_view(path), history@),
{
    let p = match path {
        None => {
            return ApplyStep::Failed(ApplyError::PathNotText);
        },
        Some(p) => p,
    };
    match backend {
        Backend::Cinnamon => {
            if history.len() == 0 {
                let mut value = String::from_str("file://");
                value.append(p);
                ApplyStep::WriteKey {
                    key: String::from_str("/org/cinnamon/desktop/background/picture-uri"),
                    value,
                }
            } else if !written(&history[0]) {
                ApplyStep::Failed(ApplyError::RegistryWrite)
            } else if history.len() == 1 {
                ApplyStep::WriteKey {
                    key: String::from_str("/org/cinnamon/desktop/background/picture-options"),
                    value: String::from_str("spanned"),
                }
            } else if !written(&history[1]) {
                ApplyStep::Failed(ApplyError::RegistryWrite)
            } else {
                ApplyStep::Done
            }
        },
        Backend::Feh => {
            if history.len() == 0 {
                let mut args: Vec<String> = Vec::new();
                args.push(String::from_str("--no-xinerama"));
                args.push(String::from_str("--bg-center"));
                args.push(String::from_str(p));
                assert(args@.map_values(|s: String| s@) =~= seq![
                    "--no-xinerama"@,
                    "--bg-center"@,
                    p@,
                ]);
                ApplyStep::RunHelper { program: String::from_str("feh"), args }
            } else if exited_cleanly(&history[0]) {
                ApplyStep::Done
            } else {
                ApplyStep::Failed(ApplyError::Helper)
            }
        },
    }
}

/// Once a step has failed, no further write or run is ever asked for.
pub proof fn lemma_failure_stops(
    backend: Backend,
    path: Option<Seq<char>>,
    history: Seq<StepOutcome>,
)
    requires
        exists|k: int|
            0 <= k < history.len() && !step_went_well(backend, #[trigger] history[k]) && k
                < steps_of(backend),
    ensures
        next_step(backend, path, history) is Failed,
{
}

/// A write or a run is asked for only while every step before it went well;
/// in particular the second write is never asked for after a failed first.
pub proof fn lemma_steps_follow_success(
    backend: Backend,
    path: Option<Seq<char>>,
    history: Seq<StepOutcome>,
)
    requires
        next_step(backend, path, history) is WriteKey || next_step(backend, path, history)
            is RunHelper,
    ensures
        history.len() < steps_of(backend),
        forall|k: int| 0 <= k < history.len() ==> step_went_well(backend, #[trigger] history[k]),
{
}

/// How many steps a backend takes when all go well.
pub open spec fn steps_of(backend: Backend) -> int {
    match backend {
        Backend::Cinnamon => 2,
        Backend::Feh => 1,
    }
}

} // verus!
