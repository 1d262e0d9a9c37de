use plugin_scaffold::error::InstallError;
use plugin_scaffold::project::Project;
use plugin_scaffold::step::{run_steps, Step, StepFailure};

fn seeded() -> Project {
    let mut project = Project::new();
    project.write("f", b"head MARK tail".to_vec());
    project
}

#[test]
fn constructors_build_the_matching_variant() {
    assert_eq!(
        Step::prepend("p", "t"),
        Step::Prepend { path: "p".to_string(), text: "t".to_string() }
    );
    assert_eq!(
        Step::append("p", "t"),
        Step::Append { path: "p".to_string(), text: "t".to_string() }
    );
    assert_eq!(
        Step::replace("p", "a", "r"),
        Step::Replace {
            path: "p".to_string(),
            anchor: "a".to_string(),
            replacement: "r".to_string()
        }
    );
    assert_eq!(
        Step::add_dependency("n", "v"),
        Step::AddDependency { name: "n".to_string(), version: "v".to_string() }
    );
    assert_eq!(
        Step::create_migration("n", "u", "d"),
        Step::CreateMigration {
            name: "n".to_string(),
            up_sql: "u".to_string(),
            down_sql: "d".to_string()
        }
    );
    assert_eq!(
        Step::register_service("n", "/m"),
        Step::RegisterService { name: "n".to_string(), mount_path: "/m".to_string() }
    );
}

#[test]
fn extend_replaces_the_anchor_with_itself_and_the_addition() {
    assert_eq!(
        Step::extend("App.tsx", "{/* CRA: routes */}", "\n<Route />"),
        Step::replace("App.tsx", "{/* CRA: routes */}", "{/* CRA: routes */}\n<Route />")
    );
}

#[test]
fn apply_carries_each_kind_of_step_out() {
    let mut project = seeded();
    assert_eq!(Step::prepend("f", "<").apply(&mut project), Ok(()));
    assert_eq!(Step::append("f", ">").apply(&mut project), Ok(()));
    assert_eq!(Step::replace("f", "MARK", "X").apply(&mut project), Ok(()));
    assert_eq!(Step::add_dependency("dep", "1.0").apply(&mut project), Ok(()));
    assert_eq!(Step::create_migration("m", "UP", "DOWN").apply(&mut project), Ok(()));
    assert_eq!(Step::register_service("svc", "/svc").apply(&mut project), Ok(()));
    assert_eq!(project.read("f"), Some(&b"<head X tail>".to_vec()));
    assert_eq!(project.dependencies().get("dep"), Some(&"1.0".to_string()));
    assert_eq!(project.migrations().len(), 1);
    assert_eq!(project.services().get("svc"), Some(&"/svc".to_string()));
}

#[test]
fn apply_reports_each_kind_of_error() {
    let mut project = seeded();
    assert_eq!(
        Step::append("missing", "x").apply(&mut project),
        Err(InstallError::FileIo { path: "missing".to_string() })
    );
    assert_eq!(
        Step::replace("f", "ABSENT", "x").apply(&mut project),
        Err(InstallError::AnchorNotFound { path: "f".to_string(), anchor: "ABSENT".to_string() })
    );
    assert_eq!(Step::register_service("svc", "/a").apply(&mut project), Ok(()));
    assert_eq!(
        Step::register_service("svc", "/b").apply(&mut project),
        Err(InstallError::RegistrationConflict { name: "svc".to_string() })
    );
    assert_eq!(project.read("f"), Some(&b"head MARK tail".to_vec()));
}

#[test]
fn run_steps_carries_all_steps_out_in_order() {
    let mut project = seeded();
    let steps = vec![
        Step::append("f", " one"),
        Step::append("f", " two"),
        Step::extend("f", "MARK", "+"),
    ];
    assert_eq!(run_steps(&mut project, &steps), Ok(()));
    assert_eq!(project.read("f"), Some(&b"head MARK+ tail one two".to_vec()));
}

#[test]
fn run_steps_of_nothing_changes_nothing() {
    let mut project = seeded();
    assert_eq!(run_steps(&mut project, &Vec::new()), Ok(()));
    assert_eq!(project.read("f"), Some(&b"head MARK tail".to_vec()));
}

#[test]
fn run_steps_stops_at_the_first_failure_and_keeps_what_was_done() {
    let mut project = seeded();
    let steps = vec![
        Step::append("f", " one"),
        Step::add_dependency("dep", "1"),
        Step::replace("f", "ABSENT", "x"),
        Step::append("f", " never"),
        Step::register_service("svc", "/svc"),
    ];
    assert_eq!(
        run_steps(&mut project, &steps),
        Err(StepFailure {
            index: 2,
            error: InstallError::AnchorNotFound {
                path: "f".to_string(),
                anchor: "ABSENT".to_string()
            }
        })
    );
    assert_eq!(project.read("f"), Some(&b"head MARK tail one".to_vec()));
    assert_eq!(project.dependencies().get("dep"), Some(&"1".to_string()));
    assert_eq!(project.services().len(), 0);
}

#[test]
fn run_steps_reports_the_first_of_two_failures() {
    let mut project = seeded();
    let steps = vec![Step::append("gone", "x"), Step::replace("f", "ABSENT", "x")];
    assert_eq!(
        run_steps(&mut project, &steps),
        Err(StepFailure { index: 0, error: InstallError::FileIo { path: "gone".to_string() } })
    );
}
