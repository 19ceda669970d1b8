use flutter_mcp::services::driver_injector::{DriverInjector, PubspecEditor};

const SIMPLE_MAIN: &str =
    "import 'package:flutter/material.dart';\n\nvoid main() {\n  runApp(const MyApp());\n}\n";

#[test]
fn test_already_enabled_detects_existing_call() {
    assert!(!DriverInjector::already_enabled(SIMPLE_MAIN));
    assert!(DriverInjector::already_enabled(
        "void main() {\n  enableFlutterDriverExtension();\n  runApp(const MyApp());\n}\n"
    ));
}

#[test]
fn test_inject_adds_import_and_call_before_run_app() {
    let injected = DriverInjector::inject(SIMPLE_MAIN).expect("debe inyectar");

    assert!(injected.contains("import 'package:flutter_driver/driver_extension.dart';"));
    let call_pos = injected
        .find("enableFlutterDriverExtension();")
        .expect("debe contener la llamada");
    let run_app_pos = injected.find("runApp(").expect("debe contener runApp");
    assert!(
        call_pos < run_app_pos,
        "enableFlutterDriverExtension() debe ir antes de runApp()"
    );
}

#[test]
fn test_inject_is_idempotent_when_already_enabled() {
    let already = "import 'package:flutter_driver/driver_extension.dart';\n\nvoid main() {\n  enableFlutterDriverExtension();\n  runApp(const MyApp());\n}\n";
    let result = DriverInjector::inject(already).expect("debe ser no-op exitoso");
    assert_eq!(result, already);
}

#[test]
fn test_inject_supports_async_main_and_ignores_domain_false_positive() {
    let source = "import 'package:flutter/material.dart';\n\nString domain() => 'x';\n\nFuture<void> main() async {\n  runApp(const MyApp());\n}\n";
    let injected = DriverInjector::inject(source).expect("debe inyectar en main async");
    assert!(injected.contains("enableFlutterDriverExtension();"));
    let domain_pos = injected.find("domain()").unwrap();
    let call_pos = injected.find("enableFlutterDriverExtension();").unwrap();
    assert!(call_pos > domain_pos);
}

#[test]
fn test_inject_returns_none_without_main_function() {
    let source = "class Foo {}\n";
    assert_eq!(DriverInjector::inject(source), None);
}

#[test]
fn test_inject_prepends_import_when_no_existing_imports() {
    let source = "void main() {\n  print('hi');\n}\n";
    let injected = DriverInjector::inject(source).expect("debe inyectar");
    assert!(injected
        .starts_with("import 'package:flutter_driver/driver_extension.dart';\n\nvoid main()"));
}

#[test]
fn test_pubspec_declares_flutter_driver() {
    let with_dep = "dev_dependencies:\n  flutter_driver:\n    sdk: flutter\n";
    assert!(PubspecEditor::declares_flutter_driver(with_dep));

    let without_dep = "dev_dependencies:\n  flutter_test:\n    sdk: flutter\n";
    assert!(!PubspecEditor::declares_flutter_driver(without_dep));
}

#[test]
fn test_add_flutter_driver_dev_dependency_reuses_existing_section() {
    let source = "name: my_app\ndev_dependencies:\n  flutter_test:\n    sdk: flutter\n";
    let result = PubspecEditor::add_flutter_driver_dev_dependency(source);

    assert!(result.contains("flutter_driver:\n    sdk: flutter"));
    assert!(result.contains("flutter_test:\n    sdk: flutter"));
    let section_pos = result.find("dev_dependencies:").unwrap();
    let new_entry_pos = result.find("flutter_driver:").unwrap();
    let old_entry_pos = result.find("flutter_test:").unwrap();
    assert!(section_pos < new_entry_pos);
    assert!(new_entry_pos < old_entry_pos);
}

#[test]
fn test_add_flutter_driver_dev_dependency_creates_section_if_missing() {
    let source = "name: my_app\nenvironment:\n  sdk: '>=3.0.0 <4.0.0'\n";
    let result = PubspecEditor::add_flutter_driver_dev_dependency(source);

    assert!(result.contains("dev_dependencies:\n  flutter_driver:\n    sdk: flutter"));
}

#[test]
fn test_add_flutter_driver_dev_dependency_is_idempotent() {
    let source = "dev_dependencies:\n  flutter_driver:\n    sdk: flutter\n";
    let result = PubspecEditor::add_flutter_driver_dev_dependency(source);
    assert_eq!(result, source);
}

// Laws on concrete values.

#[test]
fn inject_twice_is_the_same_as_once() {
    let once = DriverInjector::inject(SIMPLE_MAIN).unwrap();
    assert!(DriverInjector::already_enabled(&once));
    let twice = DriverInjector::inject(&once).unwrap();
    assert_eq!(twice, once);
}

#[test]
fn inject_exact_output_for_simple_main() {
    let injected = DriverInjector::inject(SIMPLE_MAIN).unwrap();
    assert_eq!(
        injected,
        "import 'package:flutter/material.dart';\nimport 'package:flutter_driver/driver_extension.dart';\n\nvoid main() {\n  enableFlutterDriverExtension();\n  runApp(const MyApp());\n}"
    );
}

#[test]
fn adding_the_dependency_twice_is_the_same_as_once() {
    let source = "name: my_app\n";
    let once = PubspecEditor::add_flutter_driver_dev_dependency(source);
    assert!(PubspecEditor::declares_flutter_driver(&once));
    let twice = PubspecEditor::add_flutter_driver_dev_dependency(&once);
    assert_eq!(twice, once);
}

#[test]
fn main_without_body_brace_is_not_injected() {
    assert_eq!(DriverInjector::inject("void mainly() {}\n"), None);
}

#[test]
fn dependency_added_after_a_final_header_without_newline() {
    let source = "name: my_app\ndev_dependencies:";
    let result = PubspecEditor::add_flutter_driver_dev_dependency(source);
    assert_eq!(result, "name: my_app\ndev_dependencies:\n  flutter_driver:\n    sdk: flutter\n");
    assert!(PubspecEditor::declares_flutter_driver(&result));
    assert_eq!(PubspecEditor::add_flutter_driver_dev_dependency(&result), result);
}

#[test]
fn inject_keeps_a_final_carriage_return() {
    let injected = DriverInjector::inject("import 'a.dart';\nvoid main() {\n}\r").unwrap();
    assert_eq!(
        injected,
        "import 'a.dart';\nimport 'package:flutter_driver/driver_extension.dart';\nvoid main() {\n  enableFlutterDriverExtension();\n}\r"
    );
}

#[test]
fn adding_the_dependency_keeps_every_line() {
    let source = "name: my_app\r\ndev_dependencies:\r\n  flutter_test:\r\n    sdk: flutter\r\nflutter:\r\n";
    let result = PubspecEditor::add_flutter_driver_dev_dependency(source);
    let old: Vec<&str> = source.lines().collect();
    let new: Vec<&str> = result.lines().collect();
    assert_eq!(new.len(), old.len() + 2);
    assert_eq!(&new[..2], &old[..2]);
    assert_eq!(new[2], "  flutter_driver:");
    assert_eq!(new[3], "    sdk: flutter");
    assert_eq!(&new[4..], &old[2..]);
}

#[test]
fn main_at_the_very_start_is_found() {
    let injected = DriverInjector::inject("main() {\n}\n").unwrap();
    assert!(DriverInjector::already_enabled(&injected));
    assert_eq!(DriverInjector::inject("domain() {\n}\n"), None);
}
