//! The orchestrator: installs a chosen, ordered set of plugins onto one
//! project, one after the other, and stops at the first that fails.

use crate::error::{InstallError, InstallErrorView};
use crate::plugin::{InstallConfig, InstallConfigView, InstallView, Plugin, Recipe};
use crate::project::{Project, ProjectView};
use crate::step::{after_steps, lemma_steps_fail_fast};
use vstd::prelude::*;
use vstd::string::StringExecFns;

verus! {

/// Where the orchestrator stands.
#[derive(Debug, Clone, PartialEq, Eq)]
pub enum State {
    /// Nothing has run yet.
    Pending,
    /// The plugin with this index is the next to install.
    Running(usize),
    /// The plugin with index `plugin` failed with `error`; no plugin behind
    /// it was installed.
    Failed { plugin: usize, error: InstallError },
    /// Every plugin was installed.
    Done,
}

/// A [`State`] over mathematical values.
pub enum StateView {
    Pending,
    Running(int),
    Failed { plugin: int, error: InstallErrorView },
    Done,
}

impl View for State {
    type V = StateView;

    open spec fn view(&self) -> StateView {
        match self {
            State::Pending => StateView::Pending,
            State::Running(index) => StateView::Running(*index as int),
            State::Failed { plugin, error } => StateView::Failed {
                plugin: *plugin as int,
                error: error@,
            },
            State::Done => StateView::Done,
        }
    }
}

impl StateView {
    /// The state in which an orchestrator over `count` plugins begins to
    /// work: at the first plugin, or done at once where there is none.
    pub open spec fn begin(count: int) -> StateView {
        if count > 0 {
            StateView::Running(0)
        } else {
            StateView::Done
        }
    }

    /// The state after the plugin that was running has ended in `error`, or
    /// without one. A success leads to the next plugin, or to `Done` behind
    /// the last; a failure leads to `Failed`. From `Pending` the
    /// orchestrator begins; `Failed` and `Done` are final.
    pub open spec fn advance(self, count: int, error: Option<InstallErrorView>) -> StateView {
        match self {
            StateView::Pending => StateView::begin(count),
            StateView::Running(index) => match error {
                Some(error) => StateView::Failed { plugin: index, error },
                None => if index + 1 < count {
                    StateView::Running(index + 1)
                } else {
                    StateView::Done
                },
            },
            StateView::Failed { .. } => self,
            StateView::Done => self,
        }
    }

    /// An upper bound on the transitions that are left before a final state,
    /// with `count` plugins.
    pub open spec fn left(self, count: int) -> int {
        match self {
            StateView::Pending => count + 1,
            StateView::Running(index) => count - index,
            StateView::Failed { .. } => 0,
            StateView::Done => 0,
        }
    }

    /// No transition leads on from this state.
    pub open spec fn is_final(self) -> bool {
        self is Failed || self is Done
    }
}

/// The error of `result`, if it is one.
pub open spec fn error_of(result: Result<(), InstallError>) -> Option<InstallErrorView> {
    match result {
        Ok(()) => None,
        Err(error) => Some(error@),
    }
}

impl State {
    /// The state in which an orchestrator over `count` plugins begins to
    /// work.
    pub fn begin(count: usize) -> (state: State)
        ensures
            state@ == StateView::begin(count as int),
    {
        if count > 0 {
            State::Running(0)
        } else {
            State::Done
        }
    }

    /// The state that follows this one when the running plugin, one of
    /// `count`, has ended in `result`.
    pub fn advance(self, count: usize, result: Result<(), InstallError>) -> (state: State)
        ensures
            state@ == self@.advance(count as int, error_of(result)),
    {
        match self {
            State::Pending => State::begin(count),
            State::Running(index) => match result {
                Err(error) => State::Failed { plugin: index, error },
                Ok(()) => if index < usize::MAX && index + 1 < count {
                    State::Running(index + 1)
                } else {
                    State::Done
                },
            },
            State::Failed { plugin, error } => State::Failed { plugin, error },
            State::Done => State::Done,
        }
    }

    /// Is this state final?
    pub fn is_final(&self) -> (is_final: bool)
        ensures
            is_final == self@.is_final(),
    {
        match self {
            State::Failed { .. } => true,
            State::Done => true,
            _ => false,
        }
    }
}

/// Where the orchestrator left a project, and, if a plugin failed, its index
/// and its error.
pub struct OrchestrationView {
    pub project: ProjectView,
    pub failure: Option<(int, InstallErrorView)>,
}

/// The plugins installed in order from `project` on, up to the first that
/// fails. What the plugins before it did stays, and so does what the failing
/// plugin did before it failed; no plugin behind it is installed.
pub open spec fn orchestrate<P: Plugin>(
    plugins: Seq<P>,
    config: InstallConfigView,
    project: ProjectView,
) -> OrchestrationView
    decreases plugins.len(),
{
    if plugins.len() == 0 {
        OrchestrationView { project, failure: None }
    } else {
        let before = orchestrate(plugins.drop_last(), config, project);
        if before.failure is Some {
            before
        } else {
            let last = plugins.last().install_view(config, before.project);
            OrchestrationView {
                project: last.project,
                failure: match last.error {
                    None => None,
                    Some(error) => Some((plugins.len() - 1, error)),
                },
            }
        }
    }
}

/// One more plugin after `count` plugins that were all installed.
pub proof fn lemma_orchestrate_next<P: Plugin>(
    plugins: Seq<P>,
    config: InstallConfigView,
    project: ProjectView,
    count: int,
)
    requires
        0 <= count < plugins.len(),
        orchestrate(plugins.take(count), config, project).failure is None,
    ensures
        ({
            let before = orchestrate(plugins.take(count), config, project);
            let next = plugins[count].install_view(config, before.project);
            orchestrate(plugins.take(count + 1), config, project) == (OrchestrationView {
                project: next.project,
                failure: match next.error {
                    None => None,
                    Some(error) => Some((count, error)),
                },
            })
        }),
{
    assert(plugins.take(count + 1).drop_last() =~= plugins.take(count));
}

/// An orchestration that has failed after `count` plugins fails in the same
/// way whatever plugins follow.
pub proof fn lemma_orchestrate_stays_failed<P: Plugin>(
    plugins: Seq<P>,
    config: InstallConfigView,
    project: ProjectView,
    count: int,
)
    requires
        0 <= count <= plugins.len(),
        orchestrate(plugins.take(count), config, project).failure is Some,
    ensures
        orchestrate(plugins, config, project) == orchestrate(plugins.take(count), config, project),
    decreases plugins.len(),
{
    if count < plugins.len() {
        assert(plugins.drop_last().take(count) =~= plugins.take(count));
        lemma_orchestrate_stays_failed(plugins.drop_last(), config, project, count);
    } else {
        assert(plugins.take(count) =~= plugins);
    }
}

/// An orchestration that fails has stopped at its first failing plugin:
/// every plugin before it was installed in full, the project is as the
/// failing plugin left it, and no plugin behind it ran.
pub proof fn lemma_orchestrate_fail_fast<P: Plugin>(
    plugins: Seq<P>,
    config: InstallConfigView,
    project: ProjectView,
)
    requires
        orchestrate(plugins, config, project).failure is Some,
    ensures
        ({
            let outcome = orchestrate(plugins, config, project);
            let (index, error) = outcome.failure->0;
            let before = orchestrate(plugins.take(index), config, project);
            &&& 0 <= index < plugins.len()
            &&& before.failure is None
            &&& plugins[index].install_view(config, before.project) == (InstallView {
                project: outcome.project,
                error: Some(error),
            })
        }),
    decreases plugins.len(),
{
    let shorter = plugins.drop_last();
    if orchestrate(shorter, config, project).failure is Some {
        lemma_orchestrate_fail_fast(shorter, config, project);
        let (index, error) = orchestrate(shorter, config, project).failure->0;
        assert(shorter.take(index) =~= plugins.take(index));
    } else {
        assert(plugins.take(plugins.len() - 1) =~= shorter);
    }
}

/// Where the failing plugin is a recipe, the project holds what the plugins
/// before it did, the recipe's assets, and what the recipe's steps did up to,
/// but not including, the step that failed.
pub proof fn lemma_failed_recipe_keeps_earlier_steps(
    plugins: Seq<Recipe>,
    config: InstallConfigView,
    project: ProjectView,
)
    requires
        orchestrate(plugins, config, project).failure is Some,
    ensures
        ({
            let outcome = orchestrate(plugins, config, project);
            let (index, error) = outcome.failure->0;
            let before = orchestrate(plugins.take(index), config, project);
            let recipe = plugins[index]@;
            let copied = before.project.copy_assets(recipe.assets);
            &&& 0 <= index < plugins.len()
            &&& before.failure is None
            &&& exists|step: int|
                {
                    &&& 0 <= step < recipe.steps.len()
                    &&& (#[trigger] after_steps(copied, recipe.steps.take(step))).failure is None
                    &&& after_steps(copied, recipe.steps.take(step)).project == outcome.project
                    &&& recipe.steps[step].apply(outcome.project) == Err::<
                        ProjectView,
                        InstallErrorView,
                    >(error)
                }
        }),
{
    lemma_orchestrate_fail_fast(plugins, config, project);
    let outcome = orchestrate(plugins, config, project);
    let (index, error) = outcome.failure->0;
    let before = orchestrate(plugins.take(index), config, project);
    let recipe = plugins[index]@;
    let copied = before.project.copy_assets(recipe.assets);
    lemma_steps_fail_fast(copied, recipe.steps);
    let (step, _) = after_steps(copied, recipe.steps).failure->0;
    assert(after_steps(copied, recipe.steps.take(step)).failure is None);
}

/// How an orchestration ended.
#[derive(Debug, Clone, PartialEq, Eq)]
pub enum Outcome {
    /// Every plugin was installed.
    Done,
    /// The plugin called `plugin`, at `index` among the chosen ones, failed
    /// with `error`. The project may be partially modified.
    Failed { plugin: String, index: usize, error: InstallError },
}

/// An [`Outcome`] with its texts as character sequences.
pub enum OutcomeView {
    Done,
    Failed { plugin: Seq<char>, index: int, error: InstallErrorView },
}

impl View for Outcome {
    type V = OutcomeView;

    open spec fn view(&self) -> OutcomeView {
        match self {
            Outcome::Done => OutcomeView::Done,
            Outcome::Failed { plugin, index, error } => OutcomeView::Failed {
                plugin: plugin@,
                index: *index as int,
                error: error@,
            },
        }
    }
}

/// What a user is told after a failed run, behind the plugin and its error.
pub const ABORT_NOTICE: &'static str =
    "install aborted; project may be partially modified \u{2014} restore from version control";

impl OutcomeView {
    /// What a user is told of this outcome: that all went well, or which
    /// plugin failed and why, and that the project may be left half done.
    pub open spec fn message(self) -> Seq<char> {
        match self {
            OutcomeView::Done => "all plugins installed"@,
            OutcomeView::Failed { plugin, index, error } => "plugin "@ + plugin + " failed: "@
                + error.message() + "\n"@ + ABORT_NOTICE@,
        }
    }
}

impl Outcome {
    /// What a user is told of this outcome.
    pub fn message(&self) -> (text: String)
        ensures
            text@ == self@.message(),
    {
        match self {
            Outcome::Done => String::from_str("all plugins installed"),
            Outcome::Failed { plugin, index, error } => {
                let mut text = String::from_str("plugin ");
                text.append(plugin.as_str());
                text.append(" failed: ");
                text.append(error.message().as_str());
                text.append("\n");
                text.append(ABORT_NOTICE);
                text
            },
        }
    }

    /// The exit code that a command ends with after this outcome: 0 when
    /// every plugin was installed, 1 when one failed.
    pub fn exit_code(&self) -> (code: i32)
        ensures
            code == (if self@ is Done {
                0i32
            } else {
                1i32
            }),
    {
        match self {
            Outcome::Done => 0,
            Outcome::Failed { .. } => 1,
        }
    }
}

/// `outcome` and `after` are what `expected` says of an orchestration over
/// `plugins`.
pub open spec fn orchestrated<P: Plugin>(
    outcome: Outcome,
    after: ProjectView,
    plugins: Seq<P>,
    expected: OrchestrationView,
) -> bool {
    &&& after == expected.project
    &&& match expected.failure {
        None => outcome is Done,
        Some((failing, cause)) => {
            &&& outcome matches Outcome::Failed { plugin, index, error }
            &&& index == failing
            &&& 0 <= failing < plugins.len()
            &&& plugin@ == plugins[failing].name_view()
            &&& error@ == cause
        },
    }
}

/// Installs `plugins` onto `project` in the order given, each with
/// `config`. The first plugin that fails ends the run: what was done up to
/// then stays in the project, nothing is rolled back, and no plugin behind
/// the failing one is installed.
pub fn run<P: Plugin>(plugins: &Vec<P>, config: &InstallConfig, project: &mut Project) -> (outcome:
    Outcome)
    ensures
        orchestrated(
            outcome,
            final(project)@,
            plugins@,
            orchestrate(plugins@, config@, old(project)@),
        ),
{
    let count = plugins.len();
    let mut state = State::begin(count);
    assert(plugins@.take(0) =~= Seq::<P>::empty());
    loop
        invariant
            count == plugins@.len(),
            state@ !is Pending,
            state@ matches StateView::Running(index) ==> {
                &&& 0 <= index < count
                &&& orchestrate(plugins@.take(index), config@, old(project)@) == (
                OrchestrationView { project: project@, failure: None })
            },
            state@ is Done ==> orchestrate(plugins@, config@, old(project)@) == (
            OrchestrationView { project: project@, failure: None }),
            state@ matches StateView::Failed { plugin, error } ==> {
                &&& 0 <= plugin < count
                &&& orchestrate(plugins@, config@, old(project)@) == (OrchestrationView {
                    project: project@,
                    failure: Some((plugin, error)),
                })
            },
        ensures
            state@.is_final(),
        decreases state@.left(count as int),
    {
        let index = match &state {
            State::Running(index) => *index,
            _ => { break ; },
        };
        proof {
            lemma_orchestrate_next(plugins@, config@, old(project)@, index as int);
        }
        let result = plugins[index].install(config, project);
        proof {
            if result is Err {
                lemma_orchestrate_stays_failed(plugins@, config@, old(project)@, index + 1);
            } else if index + 1 == count {
                assert(plugins@.take(index + 1) =~= plugins@);
            }
        }
        state = state.advance(count, result);
    }
    match state {
        State::Failed { plugin, error } => Outcome::Failed {
            plugin: plugins[plugin].name().to_owned(),
            index: plugin,
            error,
        },
        _ => Outcome::Done,
    }
}

} // verus!
