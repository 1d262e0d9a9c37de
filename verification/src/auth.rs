//! The auth plugin: login, registration, activation, recovery and account
//! pages for the front end, and users, sessions and permissions for the back
//! end.

use crate::bundle::AssetBundle;
use crate::error::InstallError;
use crate::plugin::{
    InstallConfig, InstallConfigView, InstallView, Plugin, Recipe, RecipeView,
};
use crate::project::{Project, ProjectView};
use crate::step::{run_steps, step_views, Step, StepView};
use vstd::prelude::*;

verus! {

/// The front end's application component.
pub const APP: &'static str = "frontend/src/App.tsx";

/// The front end's entry point.
pub const INDEX: &'static str = "frontend/src/index.tsx";

/// The imports that the application component needs for the auth pages.
pub const APP_IMPORTS: &'static str = r#"import { useAuth, useAuthCheck } from './hooks/useAuth'
  import { AccountPage } from './containers/AccountPage'
  import { LoginPage } from './containers/LoginPage'
  import { ActivationPage } from './containers/ActivationPage'
  import { RegistrationPage } from './containers/RegistrationPage'
  import { RecoveryPage } from './containers/RecoveryPage'
  import { ResetPage } from './containers/ResetPage'    
    "#;

/// The import that the entry point needs for the auth provider.
pub const INDEX_IMPORT: &'static str = "import { AuthProvider } from './hooks/useAuth'";

/// Extension point: the head of the application component.
pub const APP_HEAD: &'static str = "const App = () => {";

/// What follows the head of the application component: the auth hooks.
pub const AUTH_HOOKS: &'static str = r#"
  useAuthCheck()
  const auth = useAuth()
    "#;

/// Extension point: the routes of the application component.
pub const ROUTES: &'static str = "{/* CRA: routes */}";

/// What follows the routes marker: the routes of the auth pages.
pub const AUTH_ROUTES: &'static str = r#"
        <Route path="/login"><LoginPage /></Route>
        <Route path="/recovery"><RecoveryPage /></Route>
        <Route path="/reset"><ResetPage /></Route>
        <Route path="/activate"><ActivationPage /></Route>
        <Route path="/register"><RegistrationPage /></Route>
        <Route path="/account"><AccountPage /></Route>
    "#;

/// Extension point: the navigation buttons on the left.
pub const LEFT_NAV: &'static str = "{/* CRA: left-aligned nav buttons */}";

/// What follows the left navigation marker: the account button.
pub const ACCOUNT_BUTTON: &'static str = r#"
          <a className="NavButton" onClick={() => history.push('/account')}>Account</a>
    "#;

/// Extension point: the navigation buttons on the right.
pub const RIGHT_NAV: &'static str = "{/* CRA: right-aligned nav buttons */}";

/// What follows the right navigation marker: the logout and login buttons.
pub const SESSION_BUTTONS: &'static str = r#"
          { auth.isAuthenticated && <a className="NavButton" onClick={() => auth.logout()}>Logout</a> }
          { !auth.isAuthenticated && <a className="NavButton" onClick={() => history.push('/login')}>Login/Register</a> }
    "#;

/// Extension point: where providers open around the application.
pub const WRAP: &'static str = "{/* CRA: Wrap */}";

/// What follows the wrap marker: the opening of the auth provider.
pub const PROVIDER_OPEN: &'static str = "\n<AuthProvider>";

/// Extension point: where providers close around the application.
pub const UNWRAP: &'static str = "{/* CRA: Unwrap */}";

/// What follows the unwrap marker: the closing of the auth provider.
pub const PROVIDER_CLOSE: &'static str = "\n</AuthProvider>";

/// The forward script of the auth migration: users, sessions, permissions and roles.
pub const MIGRATION_UP: &'static str = r#"CREATE TABLE users (
  id SERIAL PRIMARY KEY,
  email TEXT NOT NULL,
  hash_password TEXT NOT NULL,
  activated BOOL NOT NULL DEFAULT FALSE,
  created_at TIMESTAMPTZ NOT NULL DEFAULT CURRENT_TIMESTAMP,
  updated_at TIMESTAMPTZ NOT NULL DEFAULT CURRENT_TIMESTAMP
);

SELECT diesel_manage_updated_at('users');

CREATE TABLE user_sessions (
  id SERIAL PRIMARY KEY,
  user_id SERIAL NOT NULL REFERENCES users(id),
  refresh_token TEXT NOT NULL,
  device TEXT,
  created_at TIMESTAMPTZ NOT NULL DEFAULT CURRENT_TIMESTAMP,
  updated_at TIMESTAMPTZ NOT NULL DEFAULT CURRENT_TIMESTAMP
);

SELECT diesel_manage_updated_at('user_sessions');

CREATE TABLE user_permissions (
  user_id SERIAL NOT NULL REFERENCES users(id),
  permission TEXT NOT NULL,
  created_at TIMESTAMPTZ NOT NULL DEFAULT CURRENT_TIMESTAMP,
  PRIMARY KEY (user_id, permission)
);

CREATE TABLE user_roles (
  user_id SERIAL NOT NULL REFERENCES users(id),
  role TEXT NOT NULL,
  created_at TIMESTAMPTZ NOT NULL DEFAULT CURRENT_TIMESTAMP,
  PRIMARY KEY (user_id, role)
);

CREATE TABLE role_permissions (
  role TEXT NOT NULL PRIMARY KEY,
  permission TEXT NOT NULL,
  created_at TIMESTAMPTZ NOT NULL DEFAULT CURRENT_TIMESTAMP,
  UNIQUE (role, permission)
);      
"#;

/// The backward script of the auth migration.
pub const MIGRATION_DOWN: &'static str = r#"DROP TABLE users CASCADE ALL;
DROP TABLE user_sessions CASCADE ALL;
DROP TABLE user_permissions CASCADE ALL;
DROP TABLE role_permissions CASCADE ALL;
DROP TABLE user_roles CASCADE ALL;
"#;

/// The auth plugin's install sequence: one dependency, the edits of the
/// front end, the module declarations of the back end, one migration and one
/// service, in the order in which they are carried out.
pub open spec fn install_sequence() -> Seq<StepView> {
    seq![
        StepView::AddDependency { name: "argonautica"@, version: "0.2.0"@ },
        StepView::Prepend { path: APP@, text: APP_IMPORTS@ },
        StepView::Prepend { path: INDEX@, text: INDEX_IMPORT@ },
        StepView::Replace { path: APP@, anchor: APP_HEAD@, replacement: APP_HEAD@ + AUTH_HOOKS@ },
        StepView::Replace { path: APP@, anchor: ROUTES@, replacement: ROUTES@ + AUTH_ROUTES@ },
        StepView::Replace { path: APP@, anchor: LEFT_NAV@, replacement: LEFT_NAV@ + ACCOUNT_BUTTON@ },
        StepView::Replace { path: APP@, anchor: RIGHT_NAV@, replacement: RIGHT_NAV@ + SESSION_BUTTONS@ },
        StepView::Replace { path: INDEX@, anchor: WRAP@, replacement: WRAP@ + PROVIDER_OPEN@ },
        StepView::Replace { path: INDEX@, anchor: UNWRAP@, replacement: UNWRAP@ + PROVIDER_CLOSE@ },
        StepView::Append { path: "backend/extractors/mod.rs"@, text: "\npub mod auth;"@ },
        StepView::Append { path: "backend/mail/mod.rs"@, text: "\npub mod auth_register;"@ },
        StepView::Append { path: "backend/mail/mod.rs"@, text: "\npub mod auth_activated;"@ },
        StepView::Append { path: "backend/mail/mod.rs"@, text: "\npub mod auth_recover_existent_account;"@ },
        StepView::Append { path: "backend/mail/mod.rs"@, text: "\npub mod auth_recover_nonexistent_account;"@ },
        StepView::Append { path: "backend/mail/mod.rs"@, text: "\npub mod auth_password_changed;"@ },
        StepView::Append { path: "backend/mail/mod.rs"@, text: "\npub mod auth_password_reset;"@ },
        StepView::Append { path: "backend/models/mod.rs"@, text: "\npub mod user;"@ },
        StepView::Append { path: "backend/models/mod.rs"@, text: "\npub mod user_session;"@ },
        StepView::Append { path: "backend/models/mod.rs"@, text: "\npub mod permissions;"@ },
        StepView::Append { path: "backend/services/mod.rs"@, text: "\npub mod auth;"@ },
        StepView::CreateMigration { name: "plugin_auth"@, up_sql: MIGRATION_UP@, down_sql: MIGRATION_DOWN@ },
        StepView::RegisterService { name: "auth"@, mount_path: "/auth"@ },
    ]
}

/// The auth plugin. Its assets are the template files that it copies into
/// the project before it edits anything.
pub struct Auth {
    pub assets: AssetBundle,
}

impl Auth {
    /// The auth plugin with `assets` as its template files.
    pub fn new(assets: AssetBundle) -> (auth: Auth)
        ensures
            auth.assets@ == assets@,
    {
        Auth { assets }
    }

    /// The install sequence, step by step.
    pub fn steps() -> (steps: Vec<Step>)
        ensures
            step_views(steps@) == install_sequence(),
    {
        let mut steps: Vec<Step> = Vec::new();
        steps.push(Step::add_dependency("argonautica", "0.2.0"));
        steps.push(Step::prepend(APP, APP_IMPORTS));
        steps.push(Step::prepend(INDEX, INDEX_IMPORT));
        steps.push(Step::extend(APP, APP_HEAD, AUTH_HOOKS));
        steps.push(Step::extend(APP, ROUTES, AUTH_ROUTES));
        steps.push(Step::extend(APP, LEFT_NAV, ACCOUNT_BUTTON));
        steps.push(Step::extend(APP, RIGHT_NAV, SESSION_BUTTONS));
        steps.push(Step::extend(INDEX, WRAP, PROVIDER_OPEN));
        steps.push(Step::extend(INDEX, UNWRAP, PROVIDER_CLOSE));
        steps.push(Step::append("backend/extractors/mod.rs", "\npub mod auth;"));
        steps.push(Step::append("backend/mail/mod.rs", "\npub mod auth_register;"));
        steps.push(Step::append("backend/mail/mod.rs", "\npub mod auth_activated;"));
        steps.push(Step::append("backend/mail/mod.rs", "\npub mod auth_recover_existent_account;"));
        steps.push(Step::append("backend/mail/mod.rs", "\npub mod auth_recover_nonexistent_account;"));
        steps.push(Step::append("backend/mail/mod.rs", "\npub mod auth_password_changed;"));
        steps.push(Step::append("backend/mail/mod.rs", "\npub mod auth_password_reset;"));
        steps.push(Step::append("backend/models/mod.rs", "\npub mod user;"));
        steps.push(Step::append("backend/models/mod.rs", "\npub mod user_session;"));
        steps.push(Step::append("backend/models/mod.rs", "\npub mod permissions;"));
        steps.push(Step::append("backend/services/mod.rs", "\npub mod auth;"));
        steps.push(Step::create_migration("plugin_auth", MIGRATION_UP, MIGRATION_DOWN));
        steps.push(Step::register_service("auth", "/auth"));
        steps
    }

    /// Every replacement of the install sequence begins with the anchor that
    /// it replaces. The extension points of the project therefore stay where
    /// they are, for this plugin again and for the plugins that come after.
    pub proof fn lemma_extension_points_survive(index: int)
        requires
            0 <= index < install_sequence().len(),
        ensures
            install_sequence()[index] matches StepView::Replace { anchor, replacement, .. }
                ==> anchor.len() <= replacement.len() && replacement.subrange(
                0,
                anchor.len() as int,
            ) == anchor,
    {
    }

    /// What the plugin is as data: its name, its assets and its install
    /// sequence.
    pub open spec fn recipe_view(&self) -> RecipeView {
        RecipeView { name: "Auth"@, assets: self.assets@, steps: install_sequence() }
    }

    /// The plugin as a recipe, to stand in one list with other recipes.
    /// Installing the recipe does what installing the plugin does.
    pub fn into_recipe(self) -> (recipe: Recipe)
        ensures
            recipe@ == self.recipe_view(),
    {
        Recipe { name: "Auth".to_owned(), assets: self.assets, steps: Auth::steps() }
    }
}

impl Plugin for Auth {
    open spec fn name_view(&self) -> Seq<char> {
        "Auth"@
    }

    open spec fn install_view(&self, config: InstallConfigView, project: ProjectView) -> InstallView {
        self.recipe_view().install(project)
    }

    fn name(&self) -> (name: &str) {
        "Auth"
    }

    /// Copies the template files into the project, then carries the install
    /// sequence out. The first step that fails ends the install; the files
    /// copied and the steps carried out before it stay in effect.
    fn install(&self, config: &InstallConfig, project: &mut Project) -> (result: Result<
        (),
        InstallError,
    >) {
        project.copy_assets(&self.assets);
        let steps = Auth::steps();
        match run_steps(project, &steps) {
            Ok(()) => Ok(()),
            Err(failure) => Err(failure.error),
        }
    }
}

} // verus!
