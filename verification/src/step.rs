//! Install sequences: the edits and registrations that a plugin performs, as
//! data, and what it means to carry them out in order.

use crate::error::{InstallError, InstallErrorView};
use crate::project::{carried_out, MigrationView, Project, ProjectView};
use vstd::prelude::*;
use vstd::string::StringExecFns;

verus! {

/// One call of an install sequence.
#[derive(Debug, Clone, PartialEq, Eq)]
pub enum Step {
    /// Put `text` before the content of the file under `path`.
    Prepend { path: String, text: String },
    /// Put `text` after the content of the file under `path`.
    Append { path: String, text: String },
    /// Exchange the leftmost `anchor` in the file under `path` for
    /// `replacement`.
    Replace { path: String, anchor: String, replacement: String },
    /// Record a dependency of the project.
    AddDependency { name: String, version: String },
    /// Create a migration with its forward and backward script.
    CreateMigration { name: String, up_sql: String, down_sql: String },
    /// Bind a backend service to a mount path.
    RegisterService { name: String, mount_path: String },
}

/// A [`Step`] with its texts as character sequences.
pub enum StepView {
    Prepend { path: Seq<char>, text: Seq<char> },
    Append { path: Seq<char>, text: Seq<char> },
    Replace { path: Seq<char>, anchor: Seq<char>, replacement: Seq<char> },
    AddDependency { name: Seq<char>, version: Seq<char> },
    CreateMigration { name: Seq<char>, up_sql: Seq<char>, down_sql: Seq<char> },
    RegisterService { name: Seq<char>, mount_path: Seq<char> },
}

impl View for Step {
    type V = StepView;

    open spec fn view(&self) -> StepView {
        match self {
            Step::Prepend { path, text } => StepView::Prepend { path: path@, text: text@ },
            Step::Append { path, text } => StepView::Append { path: path@, text: text@ },
            Step::Replace { path, anchor, replacement } => StepView::Replace {
                path: path@,
                anchor: anchor@,
                replacement: replacement@,
            },
            Step::AddDependency { name, version } => StepView::AddDependency {
                name: name@,
                version: version@,
            },
            Step::CreateMigration { name, up_sql, down_sql } => StepView::CreateMigration {
                name: name@,
                up_sql: up_sql@,
                down_sql: down_sql@,
            },
            Step::RegisterService { name, mount_path } => StepView::RegisterService {
                name: name@,
                mount_path: mount_path@,
            },
        }
    }
}

/// The views of a list of steps, in order.
pub open spec fn step_views(steps: Seq<Step>) -> Seq<StepView> {
    steps.map_values(|step: Step| step@)
}

impl StepView {
    /// The project after this step, or the error that the step ends in.
    pub open spec fn apply(self, project: ProjectView) -> Result<ProjectView, InstallErrorView> {
        match self {
            StepView::Prepend { path, text } => project.prepend(path, text),
            StepView::Append { path, text } => project.append(path, text),
            StepView::Replace { path, anchor, replacement } => project.replace(
                path,
                anchor,
                replacement,
            ),
            StepView::AddDependency { name, version } => Ok(project.add_dependency(name, version)),
            StepView::CreateMigration { name, up_sql, down_sql } => Ok(
                project.create_migration(MigrationView { name, up_sql, down_sql }),
            ),
            StepView::RegisterService { name, mount_path } => project.register_service(
                name,
                mount_path,
            ),
        }
    }
}

impl Step {
    /// The step that prepends `text` to the file under `path`.
    pub fn prepend(path: &str, text: &str) -> (step: Step)
        ensures
            step@ == (StepView::Prepend { path: path@, text: text@ }),
    {
        Step::Prepend { path: path.to_owned(), text: text.to_owned() }
    }

    /// The step that appends `text` to the file under `path`.
    pub fn append(path: &str, text: &str) -> (step: Step)
        ensures
            step@ == (StepView::Append { path: path@, text: text@ }),
    {
        Step::Append { path: path.to_owned(), text: text.to_owned() }
    }

    /// The step that exchanges the leftmost `anchor` in the file under
    /// `path` for `replacement`.
    pub fn replace(path: &str, anchor: &str, replacement: &str) -> (step: Step)
        ensures
            step@ == (StepView::Replace {
                path: path@,
                anchor: anchor@,
                replacement: replacement@,
            }),
    {
        Step::Replace {
            path: path.to_owned(),
            anchor: anchor.to_owned(),
            replacement: replacement.to_owned(),
        }
    }

    /// The step that puts `addition` directly behind the leftmost `anchor`
    /// in the file under `path`: a replace whose replacement is the anchor
    /// followed by `addition`. The anchor stays in the file, so that the
    /// extension point can be used again.
    pub fn extend(path: &str, anchor: &str, addition: &str) -> (step: Step)
        ensures
            step@ == (StepView::Replace {
                path: path@,
                anchor: anchor@,
                replacement: anchor@ + addition@,
            }),
    {
        let mut replacement = anchor.to_owned();
        replacement.append(addition);
        Step::Replace { path: path.to_owned(), anchor: anchor.to_owned(), replacement }
    }

    /// The step that records the dependency `name` in `version`.
    pub fn add_dependency(name: &str, version: &str) -> (step: Step)
        ensures
            step@ == (StepView::AddDependency { name: name@, version: version@ }),
    {
        Step::AddDependency { name: name.to_owned(), version: version.to_owned() }
    }

    /// The step that creates the migration `name`.
    pub fn create_migration(name: &str, up_sql: &str, down_sql: &str) -> (step: Step)
        ensures
            step@ == (StepView::CreateMigration {
                name: name@,
                up_sql: up_sql@,
                down_sql: down_sql@,
            }),
    {
        Step::CreateMigration {
            name: name.to_owned(),
            up_sql: up_sql.to_owned(),
            down_sql: down_sql.to_owned(),
        }
    }

    /// The step that binds the service `name` to `mount_path`.
    pub fn register_service(name: &str, mount_path: &str) -> (step: Step)
        ensures
            step@ == (StepView::RegisterService { name: name@, mount_path: mount_path@ }),
    {
        Step::RegisterService { name: name.to_owned(), mount_path: mount_path.to_owned() }
    }

    /// Carries the step out on `project`. A step that fails leaves the
    /// project as it found it.
    pub fn apply(&self, project: &mut Project) -> (result: Result<(), InstallError>)
        ensures
            carried_out(result, old(project)@, final(project)@, self@.apply(old(project)@)),
    {
        match self {
            Step::Prepend { path, text } => project.prepend(path.as_str(), text.as_str()),
            Step::Append { path, text } => project.append(path.as_str(), text.as_str()),
            Step::Replace { path, anchor, replacement } => project.replace(
                path.as_str(),
                anchor.as_str(),
                replacement.as_str(),
            ),
            Step::AddDependency { name, version } => {
                project.add_dependency(name.as_str(), version.as_str());
                Ok(())
            },
            Step::CreateMigration { name, up_sql, down_sql } => {
                let _ = project.create_migration(name.as_str(), up_sql.as_str(), down_sql.as_str());
                Ok(())
            },
            Step::RegisterService { name, mount_path } => project.register_service(
                name.as_str(),
                mount_path.as_str(),
            ),
        }
    }
}

/// Where a sequence of steps left a project: the project as the last step
/// that ran left it, and, if a step failed, its index and its error.
pub struct RunView {
    pub project: ProjectView,
    pub failure: Option<(int, InstallErrorView)>,
}

/// The steps carried out in order from `project` on, up to the first one
/// that fails. What the steps before it did stays; no step after it runs.
pub open spec fn after_steps(project: ProjectView, steps: Seq<StepView>) -> RunView
    decreases steps.len(),
{
    if steps.len() == 0 {
        RunView { project, failure: None }
    } else {
        let before = after_steps(project, steps.drop_last());
        if before.failure is Some {
            before
        } else {
            match steps.last().apply(before.project) {
                Ok(after) => RunView { project: after, failure: None },
                Err(error) => RunView {
                    project: before.project,
                    failure: Some((steps.len() - 1, error)),
                },
            }
        }
    }
}

/// A sequence that has failed after `count` steps fails in the same way
/// however it goes on.
pub proof fn lemma_steps_stay_failed(project: ProjectView, steps: Seq<StepView>, count: int)
    requires
        0 <= count <= steps.len(),
        after_steps(project, steps.take(count)).failure is Some,
    ensures
        after_steps(project, steps) == after_steps(project, steps.take(count)),
    decreases steps.len(),
{
    if count < steps.len() {
        assert(steps.drop_last().take(count) =~= steps.take(count));
        lemma_steps_stay_failed(project, steps.drop_last(), count);
    } else {
        assert(steps.take(count) =~= steps);
    }
}

/// One more step after `count` steps that all went well.
pub proof fn lemma_steps_next(project: ProjectView, steps: Seq<StepView>, count: int)
    requires
        0 <= count < steps.len(),
        after_steps(project, steps.take(count)).failure is None,
    ensures
        after_steps(project, steps.take(count + 1)) == (match steps[count].apply(
            after_steps(project, steps.take(count)).project,
        ) {
            Ok(after) => RunView { project: after, failure: None },
            Err(error) => RunView {
                project: after_steps(project, steps.take(count)).project,
                failure: Some((count, error)),
            },
        }),
{
    assert(steps.take(count + 1).drop_last() =~= steps.take(count));
}

/// A sequence that fails has stopped at its first failing step: every step
/// before it went well and has taken effect, the failing step changed
/// nothing, and no later step ran.
pub proof fn lemma_steps_fail_fast(project: ProjectView, steps: Seq<StepView>)
    requires
        after_steps(project, steps).failure is Some,
    ensures
        ({
            let (index, error) = after_steps(project, steps).failure->0;
            let before = after_steps(project, steps.take(index));
            &&& 0 <= index < steps.len()
            &&& before.failure is None
            &&& after_steps(project, steps).project == before.project
            &&& steps[index].apply(before.project) == Err::<ProjectView, InstallErrorView>(error)
        }),
    decreases steps.len(),
{
    let shorter = steps.drop_last();
    if after_steps(project, shorter).failure is Some {
        lemma_steps_fail_fast(project, shorter);
        let (index, error) = after_steps(project, shorter).failure->0;
        assert(shorter.take(index) =~= steps.take(index));
    } else {
        assert(steps.take(steps.len() - 1) =~= shorter);
    }
}

/// A sequence that does not fail has carried out every one of its steps:
/// none of its beginnings fails.
pub proof fn lemma_steps_done(project: ProjectView, steps: Seq<StepView>, count: int)
    requires
        after_steps(project, steps).failure is None,
        0 <= count <= steps.len(),
    ensures
        after_steps(project, steps.take(count)).failure is None,
{
    if after_steps(project, steps.take(count)).failure is Some {
        lemma_steps_stay_failed(project, steps, count);
    }
}

/// The step of a sequence that failed, with its error.
#[derive(Debug, Clone, PartialEq, Eq)]
pub struct StepFailure {
    /// The index of the failing step in its sequence.
    pub index: usize,
    pub error: InstallError,
}

/// `result` and `after` are what `expected` says of a sequence of steps.
pub open spec fn ran(result: Result<(), StepFailure>, after: ProjectView, expected: RunView) -> bool {
    &&& after == expected.project
    &&& match expected.failure {
        None => result is Ok,
        Some((index, error)) => result is Err && result->Err_0.index == index
            && result->Err_0.error@ == error,
    }
}

/// Carries `steps` out on `project` in order and stops at the first step
/// that fails. The steps before it have taken effect and stay in effect;
/// the failing step and those behind it change nothing.
pub fn run_steps(project: &mut Project, steps: &Vec<Step>) -> (result: Result<(), StepFailure>)
    ensures
        ran(result, final(project)@, after_steps(old(project)@, step_views(steps@))),
{
    let ghost views = step_views(steps@);
    let mut index: usize = 0;
    assert(views.take(0) =~= Seq::<StepView>::empty());
    while index < steps.len()
        invariant
            index <= steps.len(),
            views == step_views(steps@),
            after_steps(old(project)@, views.take(index as int)) == (RunView {
                project: project@,
                failure: None,
            }),
        decreases steps.len() - index,
    {
        proof {
            lemma_steps_next(old(project)@, views, index as int);
        }
        match steps[index].apply(project) {
            Ok(()) => {},
            Err(error) => {
                proof {
                    lemma_steps_stay_failed(old(project)@, views, index + 1);
                }
                return Err(StepFailure { index, error });
            },
        }
        index += 1;
    }
    assert(views.take(index as int) =~= views);
    Ok(())
}

} // verus!
