//! The plugin contract, and plugins given as data.

use crate::bundle::AssetBundle;
use crate::error::{InstallError, InstallErrorView};
use crate::project::{Project, ProjectView};
use crate::step::{after_steps, ran, run_steps, step_views, RunView, Step, StepFailure, StepView};
use vstd::prelude::*;

verus! {

/// What an install is given: the root of the destination project, and the
/// flags that are set for this invocation. It does not change while plugins
/// are installed.
#[derive(Debug, Clone, PartialEq, Eq)]
pub struct InstallConfig {
    pub project_dir: String,
    pub flags: Vec<String>,
}

/// An [`InstallConfig`] with its texts as character sequences.
pub struct InstallConfigView {
    pub project_dir: Seq<char>,
    pub flags: Seq<Seq<char>>,
}

impl View for InstallConfig {
    type V = InstallConfigView;

    open spec fn view(&self) -> InstallConfigView {
        InstallConfigView {
            project_dir: self.project_dir@,
            flags: self.flags@.map_values(|flag: String| flag@),
        }
    }
}

impl InstallConfig {
    /// The configuration for the project rooted at `project_dir`, with no
    /// flag set.
    pub fn new(project_dir: &str) -> (config: InstallConfig)
        ensures
            config@.project_dir == project_dir@,
            config@.flags == Seq::<Seq<char>>::empty(),
    {
        InstallConfig { project_dir: project_dir.to_owned(), flags: Vec::new() }
    }

    /// The same configuration with `flag` set.
    pub fn with_flag(self, flag: &str) -> (config: InstallConfig)
        ensures
            config@.project_dir == self@.project_dir,
            config@.flags == self@.flags.push(flag@),
    {
        let mut flags = self.flags;
        flags.push(flag.to_owned());
        InstallConfig { project_dir: self.project_dir, flags }
    }

    /// Is `flag` set?
    pub fn has_flag(&self, flag: &str) -> (set: bool)
        ensures
            set == self@.flags.contains(flag@),
    {
        let wanted = flag.to_owned();
        let mut i: usize = 0;
        while i < self.flags.len()
            invariant
                i <= self.flags.len(),
                wanted@ == flag@,
                forall|j: int| 0 <= j < i ==> self@.flags[j] != flag@,
            decreases self.flags.len() - i,
        {
            if self.flags[i] == wanted {
                assert(self@.flags[i as int] == flag@);
                return true;
            }
            i += 1;
        }
        false
    }
}

/// Where an install left a project, and the error that ended it, if one did.
pub struct InstallView {
    pub project: ProjectView,
    pub error: Option<InstallErrorView>,
}

/// `result` and `after` are what `expected` says of an install.
pub open spec fn installed(
    result: Result<(), InstallError>,
    after: ProjectView,
    expected: InstallView,
) -> bool {
    &&& after == expected.project
    &&& match expected.error {
        None => result is Ok,
        Some(error) => result is Err && result->Err_0@ == error,
    }
}

/// A feature module that can be installed onto a project.
///
/// An install copies the plugin's assets, edits files that the project
/// holds already, and registers dependencies, migrations and services, in a
/// fixed order. What it does is a function of the configuration and of the
/// project that it finds: `install_view` says what, and `install` does it.
/// An install that fails leaves in place what it did before the failure.
pub trait Plugin {
    /// The plugin's name, as a character sequence.
    spec fn name_view(&self) -> Seq<char>;

    /// What installing this plugin makes of `project`.
    spec fn install_view(&self, config: InstallConfigView, project: ProjectView) -> InstallView;

    /// The plugin's name.
    fn name(&self) -> (name: &str)
        ensures
            name@ == self.name_view(),
    ;

    /// Installs the plugin onto `project`.
    fn install(&self, config: &InstallConfig, project: &mut Project) -> (result: Result<
        (),
        InstallError,
    >)
        ensures
            installed(result, final(project)@, self.install_view(config@, old(project)@)),
    ;
}

/// A plugin given as data: a name, a bundle of assets and a sequence of
/// steps.
pub struct Recipe {
    pub name: String,
    pub assets: AssetBundle,
    pub steps: Vec<Step>,
}

/// What a [`Recipe`] holds.
pub struct RecipeView {
    pub name: Seq<char>,
    pub assets: Seq<(Seq<char>, Seq<u8>)>,
    pub steps: Seq<StepView>,
}

impl View for Recipe {
    type V = RecipeView;

    open spec fn view(&self) -> RecipeView {
        RecipeView { name: self.name@, assets: self.assets@, steps: step_views(self.steps@) }
    }
}

impl RecipeView {
    /// The assets copied into `project`, then the steps carried out up to
    /// the first that fails.
    pub open spec fn apply(self, project: ProjectView) -> RunView {
        after_steps(project.copy_assets(self.assets), self.steps)
    }

    /// The same, without the index of the failing step.
    pub open spec fn install(self, project: ProjectView) -> InstallView {
        let outcome = self.apply(project);
        InstallView {
            project: outcome.project,
            error: match outcome.failure {
                None => None,
                Some((_, error)) => Some(error),
            },
        }
    }
}

impl Recipe {
    /// A recipe called `name` that copies `assets` and does nothing else.
    pub fn new(name: &str, assets: AssetBundle) -> (recipe: Recipe)
        ensures
            recipe@ == (RecipeView {
                name: name@,
                assets: assets@,
                steps: Seq::<StepView>::empty(),
            }),
    {
        let recipe = Recipe { name: name.to_owned(), assets, steps: Vec::new() };
        assert(step_views(recipe.steps@) =~= Seq::<StepView>::empty());
        recipe
    }

    /// The same recipe with `step` behind the steps that it has.
    pub fn then(self, step: Step) -> (recipe: Recipe)
        ensures
            recipe@ == (RecipeView { steps: self@.steps.push(step@), ..self@ }),
    {
        let mut steps = self.steps;
        let ghost before = step_views(steps@);
        steps.push(step);
        assert(step_views(steps@) =~= before.push(step@));
        Recipe { name: self.name, assets: self.assets, steps }
    }

    /// Copies the assets into `project`, then carries the steps out in
    /// order, and stops at the first step that fails.
    pub fn apply(&self, project: &mut Project) -> (result: Result<(), StepFailure>)
        ensures
            ran(result, final(project)@, self@.apply(old(project)@)),
    {
        project.copy_assets(&self.assets);
        run_steps(project, &self.steps)
    }
}

impl Plugin for Recipe {
    open spec fn name_view(&self) -> Seq<char> {
        self@.name
    }

    open spec fn install_view(&self, config: InstallConfigView, project: ProjectView) -> InstallView {
        self@.install(project)
    }

    fn name(&self) -> (name: &str) {
        self.name.as_str()
    }

    fn install(&self, config: &InstallConfig, project: &mut Project) -> (result: Result<
        (),
        InstallError,
    >) {
        match self.apply(project) {
            Ok(()) => Ok(()),
            Err(failure) => Err(failure.error),
        }
    }
}

} // verus!
