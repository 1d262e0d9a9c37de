use plugin_scaffold::auth::{Auth, MIGRATION_DOWN, MIGRATION_UP};
use plugin_scaffold::bundle::AssetBundle;
use plugin_scaffold::error::InstallError;
use plugin_scaffold::orchestrator::{run, Outcome};
use plugin_scaffold::plugin::{InstallConfig, Plugin};
use plugin_scaffold::project::{Migration, Project};
use plugin_scaffold::step::Step;

const APP: &str = "frontend/src/App.tsx";
const INDEX: &str = "frontend/src/index.tsx";

const APP_SKELETON: &str = "import React from 'react'\n\nconst App = () => {\n  return (\n    <div>\n      {/* CRA: left-aligned nav buttons */}\n      {/* CRA: right-aligned nav buttons */}\n      <Switch>\n        {/* CRA: routes */}\n      </Switch>\n    </div>\n  )\n}\n";

const INDEX_SKELETON: &str =
    "\nrender(\n  {/* CRA: Wrap */}\n  <App />\n  {/* CRA: Unwrap */}\n)\n";

fn skeleton() -> Project {
    let mut project = Project::new();
    project.write(APP, APP_SKELETON.as_bytes().to_vec());
    project.write(INDEX, INDEX_SKELETON.as_bytes().to_vec());
    project.write("backend/extractors/mod.rs", b"pub mod base;".to_vec());
    project.write("backend/mail/mod.rs", b"".to_vec());
    project.write("backend/models/mod.rs", b"pub mod todo;".to_vec());
    project.write("backend/services/mod.rs", b"pub mod todo;".to_vec());
    project
}

fn assets() -> AssetBundle {
    let mut bundle = AssetBundle::new("template-plugin-auth");
    assert_eq!(
        bundle.insert("backend/services/auth.rs", b"// auth service\n".to_vec()),
        Ok(())
    );
    assert_eq!(
        bundle.insert("frontend/src/hooks/useAuth.tsx", b"export const useAuth = 0\n".to_vec()),
        Ok(())
    );
    bundle
}

fn text_of(project: &Project, path: &str) -> String {
    String::from_utf8(project.read(path).unwrap().clone()).unwrap()
}

#[test]
fn auth_is_called_auth() {
    assert_eq!(Auth::new(AssetBundle::new("none")).name(), "Auth");
}

#[test]
fn install_sequence_has_the_expected_steps_in_order() {
    let expected = vec![
        Step::add_dependency("argonautica", "0.2.0"),
        Step::prepend(
            "frontend/src/App.tsx",
            r#"import { useAuth, useAuthCheck } from './hooks/useAuth'
  import { AccountPage } from './containers/AccountPage'
  import { LoginPage } from './containers/LoginPage'
  import { ActivationPage } from './containers/ActivationPage'
  import { RegistrationPage } from './containers/RegistrationPage'
  import { RecoveryPage } from './containers/RecoveryPage'
  import { ResetPage } from './containers/ResetPage'    
    "#,
        ),
        Step::prepend("frontend/src/index.tsx", "import { AuthProvider } from './hooks/useAuth'"),
        Step::replace(
            "frontend/src/App.tsx",
            "const App = () => {",
            r#"const App = () => {
  useAuthCheck()
  const auth = useAuth()
    "#,
        ),
        Step::replace(
            "frontend/src/App.tsx",
            "{/* CRA: routes */}",
            r#"{/* CRA: routes */}
        <Route path="/login"><LoginPage /></Route>
        <Route path="/recovery"><RecoveryPage /></Route>
        <Route path="/reset"><ResetPage /></Route>
        <Route path="/activate"><ActivationPage /></Route>
        <Route path="/register"><RegistrationPage /></Route>
        <Route path="/account"><AccountPage /></Route>
    "#,
        ),
        Step::replace(
            "frontend/src/App.tsx",
            "{/* CRA: left-aligned nav buttons */}",
            r#"{/* CRA: left-aligned nav buttons */}
          <a className="NavButton" onClick={() => history.push('/account')}>Account</a>
    "#,
        ),
        Step::replace(
            "frontend/src/App.tsx",
            "{/* CRA: right-aligned nav buttons */}",
            r#"{/* CRA: right-aligned nav buttons */}
          { auth.isAuthenticated && <a className="NavButton" onClick={() => auth.logout()}>Logout</a> }
          { !auth.isAuthenticated && <a className="NavButton" onClick={() => history.push('/login')}>Login/Register</a> }
    "#,
        ),
        Step::replace(
            "frontend/src/index.tsx",
            "{/* CRA: Wrap */}",
            "{/* CRA: Wrap */}\n<AuthProvider>",
        ),
        Step::replace(
            "frontend/src/index.tsx",
            "{/* CRA: Unwrap */}",
            "{/* CRA: Unwrap */}\n</AuthProvider>",
        ),
        Step::append("backend/extractors/mod.rs", "\npub mod auth;"),
        Step::append("backend/mail/mod.rs", "\npub mod auth_register;"),
        Step::append("backend/mail/mod.rs", "\npub mod auth_activated;"),
        Step::append("backend/mail/mod.rs", "\npub mod auth_recover_existent_account;"),
        Step::append("backend/mail/mod.rs", "\npub mod auth_recover_nonexistent_account;"),
        Step::append("backend/mail/mod.rs", "\npub mod auth_password_changed;"),
        Step::append("backend/mail/mod.rs", "\npub mod auth_password_reset;"),
        Step::append("backend/models/mod.rs", "\npub mod user;"),
        Step::append("backend/models/mod.rs", "\npub mod user_session;"),
        Step::append("backend/models/mod.rs", "\npub mod permissions;"),
        Step::append("backend/services/mod.rs", "\npub mod auth;"),
        Step::create_migration("plugin_auth", MIGRATION_UP, MIGRATION_DOWN),
        Step::register_service("auth", "/auth"),
    ];
    let steps = Auth::steps();
    assert_eq!(steps.len(), 22);
    for (index, (step, wanted)) in steps.iter().zip(expected.iter()).enumerate() {
        assert_eq!(step, wanted, "step {}", index);
    }
}

#[test]
fn migration_scripts_have_no_margin() {
    let up_lines = [
        "CREATE TABLE users (",
        "  id SERIAL PRIMARY KEY,",
        "  email TEXT NOT NULL,",
        "  hash_password TEXT NOT NULL,",
        "  activated BOOL NOT NULL DEFAULT FALSE,",
        "  created_at TIMESTAMPTZ NOT NULL DEFAULT CURRENT_TIMESTAMP,",
        "  updated_at TIMESTAMPTZ NOT NULL DEFAULT CURRENT_TIMESTAMP",
        ");",
        "",
        "SELECT diesel_manage_updated_at('users');",
        "",
        "CREATE TABLE user_sessions (",
        "  id SERIAL PRIMARY KEY,",
        "  user_id SERIAL NOT NULL REFERENCES users(id),",
        "  refresh_token TEXT NOT NULL,",
        "  device TEXT,",
        "  created_at TIMESTAMPTZ NOT NULL DEFAULT CURRENT_TIMESTAMP,",
        "  updated_at TIMESTAMPTZ NOT NULL DEFAULT CURRENT_TIMESTAMP",
        ");",
        "",
        "SELECT diesel_manage_updated_at('user_sessions');",
        "",
        "CREATE TABLE user_permissions (",
        "  user_id SERIAL NOT NULL REFERENCES users(id),",
        "  permission TEXT NOT NULL,",
        "  created_at TIMESTAMPTZ NOT NULL DEFAULT CURRENT_TIMESTAMP,",
        "  PRIMARY KEY (user_id, permission)",
        ");",
        "",
        "CREATE TABLE user_roles (",
        "  user_id SERIAL NOT NULL REFERENCES users(id),",
        "  role TEXT NOT NULL,",
        "  created_at TIMESTAMPTZ NOT NULL DEFAULT CURRENT_TIMESTAMP,",
        "  PRIMARY KEY (user_id, role)",
        ");",
        "",
        "CREATE TABLE role_permissions (",
        "  role TEXT NOT NULL PRIMARY KEY,",
        "  permission TEXT NOT NULL,",
        "  created_at TIMESTAMPTZ NOT NULL DEFAULT CURRENT_TIMESTAMP,",
        "  UNIQUE (role, permission)",
        ");      ",
        "",
    ];
    assert_eq!(MIGRATION_UP, up_lines.join("\n"));
    let down_lines = [
        "DROP TABLE users CASCADE ALL;",
        "DROP TABLE user_sessions CASCADE ALL;",
        "DROP TABLE user_permissions CASCADE ALL;",
        "DROP TABLE role_permissions CASCADE ALL;",
        "DROP TABLE user_roles CASCADE ALL;",
        "",
    ];
    assert_eq!(MIGRATION_DOWN, down_lines.join("\n"));
}

#[test]
fn every_replacement_begins_with_its_anchor() {
    let mut replaces = 0;
    for step in Auth::steps() {
        if let Step::Replace { anchor, replacement, .. } = step {
            assert!(replacement.starts_with(&anchor));
            assert!(replacement.len() > anchor.len());
            replaces += 1;
        }
    }
    assert_eq!(replaces, 6);
}

#[test]
fn install_patches_a_generated_project() {
    let mut project = skeleton();
    let auth = Auth::new(assets());
    assert_eq!(auth.install(&InstallConfig::new("."), &mut project), Ok(()));

    assert_eq!(project.read("backend/services/auth.rs"), Some(&b"// auth service\n".to_vec()));
    assert_eq!(
        project.read("frontend/src/hooks/useAuth.tsx"),
        Some(&b"export const useAuth = 0\n".to_vec())
    );

    assert_eq!(
        text_of(&project, INDEX),
        "import { AuthProvider } from './hooks/useAuth'\nrender(\n  {/* CRA: Wrap */}\n<AuthProvider>\n  <App />\n  {/* CRA: Unwrap */}\n</AuthProvider>\n)\n"
    );

    let app = text_of(&project, APP);
    assert!(app.starts_with(
        "import { useAuth, useAuthCheck } from './hooks/useAuth'\n  import { AccountPage } from './containers/AccountPage'\n"
    ));
    assert!(app.contains("  import { ResetPage } from './containers/ResetPage'    \n    import React from 'react'\n"));
    assert!(app.contains("const App = () => {\n  useAuthCheck()\n  const auth = useAuth()\n    \n  return (\n"));
    assert!(app.contains(
        "      {/* CRA: left-aligned nav buttons */}\n          <a className=\"NavButton\" onClick={() => history.push('/account')}>Account</a>\n    \n"
    ));
    assert!(app.contains(
        "      {/* CRA: right-aligned nav buttons */}\n          { auth.isAuthenticated && <a className=\"NavButton\" onClick={() => auth.logout()}>Logout</a> }\n"
    ));
    assert!(app.contains(
        "        {/* CRA: routes */}\n        <Route path=\"/login\"><LoginPage /></Route>\n        <Route path=\"/recovery\"><RecoveryPage /></Route>\n"
    ));
    assert!(app.contains("        <Route path=\"/account\"><AccountPage /></Route>\n    \n      </Switch>\n"));
    assert!(app.ends_with("    </div>\n  )\n}\n"));

    assert_eq!(text_of(&project, "backend/extractors/mod.rs"), "pub mod base;\npub mod auth;");
    assert_eq!(
        text_of(&project, "backend/mail/mod.rs"),
        "\npub mod auth_register;\npub mod auth_activated;\npub mod auth_recover_existent_account;\npub mod auth_recover_nonexistent_account;\npub mod auth_password_changed;\npub mod auth_password_reset;"
    );
    assert_eq!(
        text_of(&project, "backend/models/mod.rs"),
        "pub mod todo;\npub mod user;\npub mod user_session;\npub mod permissions;"
    );
    assert_eq!(text_of(&project, "backend/services/mod.rs"), "pub mod todo;\npub mod auth;");

    assert_eq!(project.dependencies().get("argonautica"), Some(&"0.2.0".to_string()));
    assert_eq!(
        project.migrations(),
        &vec![Migration {
            name: "plugin_auth".to_string(),
            up_sql: MIGRATION_UP.to_string(),
            down_sql: MIGRATION_DOWN.to_string(),
        }]
    );
    assert_eq!(project.services().get("auth"), Some(&"/auth".to_string()));
    assert_eq!(project.files().len(), 8);
}

#[test]
fn install_overwrites_files_that_its_assets_name() {
    let mut project = skeleton();
    project.write("backend/services/auth.rs", b"// hand written\n".to_vec());
    let auth = Auth::new(assets());
    assert_eq!(auth.install(&InstallConfig::new("."), &mut project), Ok(()));
    assert_eq!(project.read("backend/services/auth.rs"), Some(&b"// auth service\n".to_vec()));
}

#[test]
fn install_stops_at_a_missing_anchor_and_keeps_earlier_edits() {
    let mut project = skeleton();
    project.write(INDEX, b"render(<App />)\n".to_vec());
    let auth = Auth::new(assets());
    assert_eq!(
        auth.install(&InstallConfig::new("."), &mut project),
        Err(InstallError::AnchorNotFound {
            path: INDEX.to_string(),
            anchor: "{/* CRA: Wrap */}".to_string()
        })
    );
    assert_eq!(project.read("backend/services/auth.rs"), Some(&b"// auth service\n".to_vec()));
    assert_eq!(project.dependencies().get("argonautica"), Some(&"0.2.0".to_string()));
    assert_eq!(
        text_of(&project, INDEX),
        "import { AuthProvider } from './hooks/useAuth'render(<App />)\n"
    );
    assert!(text_of(&project, APP).contains("<Route path=\"/login\"><LoginPage /></Route>"));
    assert_eq!(text_of(&project, "backend/extractors/mod.rs"), "pub mod base;");
    assert_eq!(project.migrations().len(), 0);
    assert_eq!(project.services().len(), 0);
}

#[test]
fn install_stops_at_a_missing_file() {
    let mut project = Project::new();
    let auth = Auth::new(assets());
    assert_eq!(
        auth.install(&InstallConfig::new("."), &mut project),
        Err(InstallError::FileIo { path: APP.to_string() })
    );
    assert_eq!(project.dependencies().get("argonautica"), Some(&"0.2.0".to_string()));
    assert_eq!(project.files().len(), 2);
}

#[test]
fn install_twice_duplicates_its_edits() {
    let mut project = skeleton();
    let auth = Auth::new(assets());
    let config = InstallConfig::new(".");
    assert_eq!(auth.install(&config, &mut project), Ok(()));
    assert_eq!(auth.install(&config, &mut project), Ok(()));
    assert_eq!(
        text_of(&project, "backend/services/mod.rs"),
        "pub mod todo;\npub mod auth;\npub mod auth;"
    );
    assert_eq!(text_of(&project, APP).matches("<Route path=\"/login\">").count(), 2);
    assert_eq!(project.migrations().len(), 2);
    assert_eq!(project.services().len(), 1);
    assert_eq!(project.dependencies().len(), 1);
}

#[test]
fn orchestrator_names_auth_when_it_fails() {
    let mut project = Project::new();
    let plugins = vec![Auth::new(AssetBundle::new("none"))];
    assert_eq!(
        run(&plugins, &InstallConfig::new("."), &mut project),
        Outcome::Failed {
            plugin: "Auth".to_string(),
            index: 0,
            error: InstallError::FileIo { path: APP.to_string() }
        }
    );
}

#[test]
fn auth_as_a_recipe_stands_in_a_list_with_other_recipes() {
    let mut project = skeleton();
    let extra = plugin_scaffold::plugin::Recipe::new("extra", AssetBundle::new("none")).then(
        Step::extend(APP, "{/* CRA: routes */}", "\n        <Route path=\"/extra\" />"),
    );
    let plugins = vec![Auth::new(assets()).into_recipe(), extra];
    assert_eq!(plugins[0].name(), "Auth");
    assert_eq!(run(&plugins, &InstallConfig::new("."), &mut project), Outcome::Done);
    let app = text_of(&project, APP);
    assert!(app.contains(
        "{/* CRA: routes */}\n        <Route path=\"/extra\" />\n        <Route path=\"/login\"><LoginPage /></Route>\n"
    ));
    assert_eq!(project.services().get("auth"), Some(&"/auth".to_string()));
}
