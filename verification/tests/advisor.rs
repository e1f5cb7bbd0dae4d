use mimic::brain::{respond, ArchWikiAdvisor, BrainRequest, BrainResponse, BuildFailure, TriageEngine, WikiTopic};

fn diag(log: &str) -> (String, Vec<String>, Option<String>) {
    let e = TriageEngine::new();
    match e.diagnose("demo", log, None, None) {
        BrainResponse::Diagnose { package, root_cause, suggested_fixes, suggested_flags, .. } => {
            assert_eq!(package, "demo");
            (root_cause, suggested_fixes, suggested_flags)
        }
        _ => panic!("expected a diagnosis"),
    }
}

#[test]
fn missing_header_names_its_package() {
    let (cause, fixes, _) = diag("src/x.c:1:10: fatal error: openssl/ssl.h: No such file or directory\n");
    assert_eq!(cause, "Missing C/C++ development header: <openssl/ssl.h>");
    assert_eq!(fixes[0], "Install 'openssl' via 'mimic install openssl'");
    let e = TriageEngine::new();
    assert_eq!(e.map_header_to_package("wayland-client.h"), "wayland");
    assert_eq!(e.map_header_to_package("foo.h"), "base-devel");
}

#[test]
fn pkg_config_and_cmake_failures() {
    let (cause, _, _) = diag("Package 'gtk4' not found");
    assert_eq!(cause, "Missing pkg-config metadata module: 'gtk4'");
    let (cause, _, _) =
        diag("Could not find a package configuration file provided by \"Qt6\" with any of");
    assert_eq!(cause, "Missing CMake module: 'Qt6Config.cmake'");
}

#[test]
fn werror_and_linker_failures() {
    let (cause, _, flags) = diag("foo.c:3: error: unused variable [-Werror=unused-variable]");
    assert_eq!(cause, "Compiler warning treated as error (-Werror=unused-variable)");
    assert_eq!(flags.as_deref(), Some("-Wno-error"));
    let (cause, fixes, _) = diag("undefined reference to `pthread_create'");
    assert_eq!(cause, "Unresolved linker symbol: 'pthread_create' (POSIX Threads Library)");
    assert_eq!(fixes[0], "Append '-lpthread' to LDFLAGS");
}

#[test]
fn rust_and_unknown_failures() {
    let (cause, _, _) = diag("error[E0412]: cannot find type `Foo` in this scope");
    assert_eq!(cause, "Rust compilation error: unresolved identifier 'Foo'");
    let (cause, fixes, _) = diag("make: *** [all] Error 2");
    assert_eq!(cause, "Unrecognized compilation or script failure");
    assert_eq!(fixes.len(), 3);
}

#[test]
fn topics_and_explanations() {
    assert_eq!(ArchWikiAdvisor::topic("PipeWire-Pulse"), WikiTopic::PipeWire);
    assert_eq!(ArchWikiAdvisor::topic("rg"), WikiTopic::Ripgrep);
    assert_eq!(ArchWikiAdvisor::topic("nano"), WikiTopic::Other);
    match ArchWikiAdvisor::explain("nano") {
        BrainResponse::Why { package, archwiki_topic, key_insights, .. } => {
            assert_eq!(package, "nano");
            assert!(archwiki_topic.is_some());
            assert!(key_insights.len() >= 2);
        }
        _ => panic!("expected an explanation"),
    }
}

#[test]
fn protocol_answers() {
    let e = TriageEngine::new();
    match respond(&e, &BrainRequest::Ping) {
        BrainResponse::Pong { version, status } => {
            assert_eq!(version, "4.0.0");
            assert_eq!(status, "dormant_standby");
        }
        _ => panic!("expected a pong"),
    }
    match respond(&e, &BrainRequest::Why { package: "mold".to_string() }) {
        BrainResponse::Why { package, .. } => assert_eq!(package, "mold"),
        _ => panic!("expected an explanation"),
    }
}

#[test]
fn classification_and_diagnosis_apart() {
    let e = TriageEngine::new();
    match e.classify("x.c: error: y [-Werror]") {
        BuildFailure::Werror(None) => {}
        other => panic!("unexpected {:?}", other),
    }
    match e.diagnosis_for("demo", BuildFailure::Werror(None)) {
        BrainResponse::Diagnose { root_cause, .. } => {
            assert_eq!(root_cause, "Compiler warning treated as error (-Werror=all)");
        }
        _ => panic!("expected a diagnosis"),
    }
    match e.diagnosis_for("demo", BuildFailure::CMakeModule("KF6Archive".to_string())) {
        BrainResponse::Diagnose { suggested_fixes, .. } => {
            assert_eq!(suggested_fixes[0], "Install 'kf6archive' development package via 'mimic install kf6archive'");
        }
        _ => panic!("expected a diagnosis"),
    }
    match e.diagnosis_for("demo", BuildFailure::UndefinedReference("cosf".to_string())) {
        BrainResponse::Diagnose { suggested_flags, .. } => assert_eq!(suggested_flags.as_deref(), Some("-lm")),
        _ => panic!("expected a diagnosis"),
    }
}
