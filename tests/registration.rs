use add_crate::document::Item;
use add_crate::error::{RegistrationError, Section};
use add_crate::path::PathWrapper;
use add_crate::registrar::{register_binding, register_dependency};
use add_crate::workflow::{
    check_tool_outcome, tool_argument_list, tool_program, Action, Event, Registration, Stage,
    ToolOutcome,
};

fn text(s: &str) -> Item {
    Item::Text(s.to_string())
}

fn table(entries: Vec<(&str, Item)>) -> Item {
    Item::Table(entries.into_iter().map(|(k, v)| (k.to_string(), v)).collect())
}

fn empty_manifest() -> Item {
    table(vec![
        ("package", table(vec![("name", text("meta"))])),
        ("dependencies", table(vec![])),
    ])
}

fn empty_binding() -> Item {
    table(vec![
        ("language", text("C")),
        ("parse", table(vec![("extra_bindings", Item::Array(vec![]))])),
    ])
}

fn dependency(name: &str) -> Item {
    table(vec![("path", text(&format!("../{}", name)))])
}

#[test]
fn empty_path_has_empty_text() {
    assert_eq!(PathWrapper::new().to_path(), "");
}

#[test]
fn path_joins_segments_with_slashes() {
    let p = PathWrapper::from_root("/work").join("cbindgen-meta").join("Cargo.toml");
    assert_eq!(p.to_path(), "/work/cbindgen-meta/Cargo.toml");
}

#[test]
fn path_after_trailing_slash_adds_none() {
    let p = PathWrapper::from_root("/").join("widgets");
    assert_eq!(p.to_path(), "/widgets");
    assert_eq!(PathWrapper::new().join("a").to_path(), "a");
}

#[test]
fn widgets_scenario() {
    let mut manifest = empty_manifest();
    let mut binding = empty_binding();
    assert_eq!(register_dependency(&mut manifest, "widgets"), Ok(()));
    assert_eq!(register_binding(&mut binding, "widgets"), Ok(()));
    assert_eq!(
        manifest,
        table(vec![
            ("package", table(vec![("name", text("meta"))])),
            ("dependencies", table(vec![("widgets", dependency("widgets"))])),
        ])
    );
    assert_eq!(
        binding,
        table(vec![
            ("language", text("C")),
            ("parse", table(vec![("extra_bindings", Item::Array(vec![text("widgets")]))])),
        ])
    );
}

#[test]
fn dependency_registered_twice_is_one_entry() {
    let mut once = empty_manifest();
    register_dependency(&mut once, "widgets").unwrap();
    let mut twice = empty_manifest();
    register_dependency(&mut twice, "widgets").unwrap();
    register_dependency(&mut twice, "widgets").unwrap();
    assert_eq!(once, twice);
}

#[test]
fn dependency_overwrites_existing_entry_in_place() {
    let mut manifest = table(vec![(
        "dependencies",
        table(vec![("a", text("1")), ("widgets", text("old")), ("b", text("2"))]),
    )]);
    register_dependency(&mut manifest, "widgets").unwrap();
    assert_eq!(
        manifest,
        table(vec![(
            "dependencies",
            table(vec![("a", text("1")), ("widgets", dependency("widgets")), ("b", text("2"))]),
        )])
    );
}

#[test]
fn binding_registered_twice_is_two_elements() {
    let mut binding = empty_binding();
    register_binding(&mut binding, "widgets").unwrap();
    register_binding(&mut binding, "widgets").unwrap();
    assert_eq!(
        binding,
        table(vec![
            ("language", text("C")),
            (
                "parse",
                table(vec![("extra_bindings", Item::Array(vec![text("widgets"), text("widgets")]))]),
            ),
        ])
    );
}

#[test]
fn missing_dependencies_is_schema_error() {
    let mut manifest = table(vec![("package", table(vec![]))]);
    let before = table(vec![("package", table(vec![]))]);
    assert_eq!(
        register_dependency(&mut manifest, "widgets"),
        Err(RegistrationError::SchemaError(Section::Dependencies))
    );
    assert_eq!(manifest, before);
}

#[test]
fn dependencies_of_wrong_shape_is_schema_error() {
    let mut manifest = table(vec![("dependencies", text("none"))]);
    assert_eq!(
        register_dependency(&mut manifest, "widgets"),
        Err(RegistrationError::SchemaError(Section::Dependencies))
    );
    assert_eq!(manifest, table(vec![("dependencies", text("none"))]));
}

#[test]
fn missing_extra_bindings_is_schema_error() {
    let mut binding = table(vec![("parse", table(vec![("other", Item::Integer(3))]))]);
    assert_eq!(
        register_binding(&mut binding, "widgets"),
        Err(RegistrationError::SchemaError(Section::ExtraBindings))
    );
    assert_eq!(binding, table(vec![("parse", table(vec![("other", Item::Integer(3))]))]));
    let mut no_parse = table(vec![]);
    assert_eq!(
        register_binding(&mut no_parse, "widgets"),
        Err(RegistrationError::SchemaError(Section::ExtraBindings))
    );
    let mut not_array = table(vec![("parse", table(vec![("extra_bindings", text("x"))]))]);
    assert_eq!(
        register_binding(&mut not_array, "widgets"),
        Err(RegistrationError::SchemaError(Section::ExtraBindings))
    );
}

#[test]
fn section_paths() {
    assert_eq!(Section::Dependencies.dotted_path(), "dependencies");
    assert_eq!(Section::ExtraBindings.dotted_path(), "parse.extra_bindings");
}

#[test]
fn tool_command_line() {
    assert_eq!(tool_program(), "cargo");
    assert_eq!(tool_argument_list("widgets"), vec!["new", "--lib", "widgets"]);
}

#[test]
fn tool_outcomes_are_classified() {
    assert_eq!(
        check_tool_outcome(ToolOutcome::Exited {
            success: true,
            stdout: String::new(),
            stderr: String::new()
        }),
        Ok(())
    );
    assert_eq!(
        check_tool_outcome(ToolOutcome::NotLaunched("not found".to_string())),
        Err(RegistrationError::ToolUnavailable("not found".to_string()))
    );
    assert_eq!(
        check_tool_outcome(ToolOutcome::Exited {
            success: false,
            stdout: "out".to_string(),
            stderr: "err".to_string()
        }),
        Err(RegistrationError::ToolExecutionFailed {
            stdout: "out".to_string(),
            stderr: "err".to_string()
        })
    );
}

#[test]
fn registration_paths() {
    let r = Registration::new("/work", "widgets");
    assert_eq!(r.unit_directory().to_path(), "/work/widgets");
    assert_eq!(r.manifest_path().to_path(), "/work/cbindgen-meta/Cargo.toml");
    assert_eq!(r.binding_path().to_path(), "/work/cbindgen.toml");
}

#[test]
fn full_run_reaches_done() {
    let mut r = Registration::new("/work", "widgets");
    assert_eq!(*r.stage(), Stage::Init);
    assert_eq!(
        r.step(Event::DirectoryChecked(false)),
        Action::RunTool(vec!["new".to_string(), "--lib".to_string(), "widgets".to_string()])
    );
    assert_eq!(
        r.step(Event::ToolFinished(ToolOutcome::Exited {
            success: true,
            stdout: String::new(),
            stderr: String::new()
        })),
        Action::LoadManifest
    );
    assert_eq!(*r.stage(), Stage::ToolInvoked);
    let written = r.step(Event::DocumentLoaded(Ok(empty_manifest())));
    assert_eq!(
        written,
        Action::WriteManifest(table(vec![
            ("package", table(vec![("name", text("meta"))])),
            ("dependencies", table(vec![("widgets", dependency("widgets"))])),
        ]))
    );
    assert_eq!(r.step(Event::DocumentWritten(Ok(()))), Action::LoadBinding);
    assert_eq!(*r.stage(), Stage::ManifestUpdated);
    let written = r.step(Event::DocumentLoaded(Ok(empty_binding())));
    assert_eq!(
        written,
        Action::WriteBinding(table(vec![
            ("language", text("C")),
            ("parse", table(vec![("extra_bindings", Item::Array(vec![text("widgets")]))])),
        ]))
    );
    assert_eq!(*r.stage(), Stage::BindingUpdated);
    assert!(!r.is_finished());
    assert_eq!(r.step(Event::DocumentWritten(Ok(()))), Action::Finish);
    assert_eq!(*r.stage(), Stage::Done);
    assert!(r.is_finished());
    assert_eq!(r.exit_code(), 0);
}

#[test]
fn existing_directory_is_noop() {
    let mut r = Registration::new("/work", "widgets");
    assert_eq!(r.step(Event::DirectoryChecked(true)), Action::Finish);
    assert_eq!(*r.stage(), Stage::AlreadyExists);
    assert_eq!(r.step(Event::DocumentLoaded(Ok(empty_manifest()))), Action::Finish);
    assert_eq!(*r.stage(), Stage::AlreadyExists);
    assert_eq!(r.exit_code(), 0);
}

#[test]
fn tool_failure_carries_output_and_stops() {
    let mut r = Registration::new("/work", "widgets");
    r.step(Event::DirectoryChecked(false));
    assert_eq!(
        r.step(Event::ToolFinished(ToolOutcome::Exited {
            success: false,
            stdout: "out".to_string(),
            stderr: "boom".to_string()
        })),
        Action::Finish
    );
    let failed = Stage::Failed(RegistrationError::ToolExecutionFailed {
        stdout: "out".to_string(),
        stderr: "boom".to_string(),
    });
    assert_eq!(*r.stage(), failed);
    assert_eq!(r.step(Event::DocumentLoaded(Ok(empty_manifest()))), Action::Finish);
    assert_eq!(*r.stage(), failed);
    assert_eq!(r.exit_code(), 1);
}

#[test]
fn tool_not_launched_fails() {
    let mut r = Registration::new("/work", "widgets");
    r.step(Event::DirectoryChecked(false));
    assert_eq!(
        r.step(Event::ToolFinished(ToolOutcome::NotLaunched("no such file".to_string()))),
        Action::Finish
    );
    assert_eq!(
        *r.stage(),
        Stage::Failed(RegistrationError::ToolUnavailable("no such file".to_string()))
    );
    assert_eq!(r.exit_code(), 1);
}

#[test]
fn manifest_errors_fail_the_run() {
    let mut r = Registration::new("/work", "widgets");
    r.step(Event::DirectoryChecked(false));
    r.step(Event::ToolFinished(ToolOutcome::Exited {
        success: true,
        stdout: String::new(),
        stderr: String::new(),
    }));
    let e = RegistrationError::ParseError("expected a value".to_string());
    assert_eq!(r.step(Event::DocumentLoaded(Err(e.clone()))), Action::Finish);
    assert_eq!(*r.stage(), Stage::Failed(e));

    let mut r = Registration::new("/work", "widgets");
    r.step(Event::DirectoryChecked(false));
    r.step(Event::ToolFinished(ToolOutcome::Exited {
        success: true,
        stdout: String::new(),
        stderr: String::new(),
    }));
    assert_eq!(r.step(Event::DocumentLoaded(Ok(table(vec![])))), Action::Finish);
    assert_eq!(*r.stage(), Stage::Failed(RegistrationError::SchemaError(Section::Dependencies)));
}

#[test]
fn binding_write_error_fails_after_manifest() {
    let mut r = Registration::new("/work", "widgets");
    r.step(Event::DirectoryChecked(false));
    r.step(Event::ToolFinished(ToolOutcome::Exited {
        success: true,
        stdout: String::new(),
        stderr: String::new(),
    }));
    r.step(Event::DocumentLoaded(Ok(empty_manifest())));
    r.step(Event::DocumentWritten(Ok(())));
    r.step(Event::DocumentLoaded(Ok(empty_binding())));
    let e = RegistrationError::WriteError("disk full".to_string());
    assert_eq!(r.step(Event::DocumentWritten(Err(e.clone()))), Action::Finish);
    assert_eq!(*r.stage(), Stage::Failed(e));
    assert_eq!(r.exit_code(), 1);
}

#[test]
fn out_of_order_event_changes_nothing() {
    let mut r = Registration::new("/work", "widgets");
    assert_eq!(r.step(Event::DocumentWritten(Ok(()))), Action::Finish);
    assert_eq!(*r.stage(), Stage::Init);
    assert!(!r.is_finished());
}
