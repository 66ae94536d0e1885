//! End-to-end scenarios through the engine entry point.

use fhs_engine::eval::Override;
use fhs_engine::flags::ComplianceFlags;
use fhs_engine::io::{InputSource, OutputSink};
use fhs_engine::lex::ParseCause;
use fhs_engine::report::{DiagKind, Diagnostic, Severity};
use fhs_engine::response::Response;
use fhs_engine::EngineError;

fn run_text(
    text: &str,
    flags: ComplianceFlags,
    sink: &mut OutputSink,
) -> Result<Option<Response>, EngineError> {
    let input = InputSource::from_bytes(text.as_bytes().to_vec());
    fhs_engine::run(input, sink, None, None, &flags)
}

fn run_ok(text: &str, flags: ComplianceFlags) -> Response {
    let mut sink = OutputSink::discarding();
    run_text(text, flags, &mut sink).unwrap().unwrap()
}

#[test]
fn empty_descriptor_succeeds() {
    let resp = run_ok("", ComplianceFlags::fhs_only());
    assert!(resp.success);
    assert!(resp.diagnostics.is_empty());
    assert!(resp.artifacts.is_empty());
}

#[test]
fn whitespace_only_descriptor_succeeds() {
    let resp = run_ok("  \n\t \r\n", ComplianceFlags::none());
    assert!(resp.success);
    assert!(resp.diagnostics.is_empty());
    assert!(resp.artifacts.is_empty());
}

#[test]
fn non_compliant_placement_fails() {
    let resp = run_ok(
        "resource app { path = \"/home/me/app\"; }",
        ComplianceFlags::fhs_only(),
    );
    assert!(!resp.success);
    assert_eq!(resp.diagnostics.len(), 1);
    let d = &resp.diagnostics[0];
    assert_eq!(d.severity, Severity::Error);
    match &d.kind {
        DiagKind::NonCompliantPlacement { declared, expected } => {
            assert_eq!(declared.as_slice(), b"/home/me/app");
            assert_eq!(expected.as_slice(), b"/usr/home/me/app");
        }
        other => panic!("wrong diagnostic: {other:?}"),
    }
    assert!(resp.artifacts.is_empty());
}

#[test]
fn compliant_placement_succeeds_without_diagnostics() {
    let resp = run_ok(
        "resource app { path = \"/usr/bin/app\"; }",
        ComplianceFlags::fhs_only(),
    );
    assert!(resp.success);
    assert!(resp.diagnostics.is_empty());
    assert_eq!(resp.artifacts.len(), 1);
    assert_eq!(resp.artifacts[0].name.as_slice(), b"app");
    assert_eq!(resp.artifacts[0].size, b"/usr/bin/app".len());
    assert_eq!(resp.artifacts[0].index, 0);
}

#[test]
fn placement_check_is_off_without_the_flag() {
    let resp = run_ok(
        "resource app { path = \"/home/me/app\"; }",
        ComplianceFlags::none(),
    );
    assert!(resp.success);
    assert!(resp.diagnostics.is_empty());
    assert_eq!(resp.artifacts.len(), 1);
}

#[test]
fn duplicate_names_reported_and_later_shadows() {
    let text = "resource x { path = \"/usr/bin/one\"; }\n\
                resource x { path = \"/usr/bin/two\"; }\n\
                alias y { target = \"x\"; }";
    let mut sink = OutputSink::collecting();
    let resp = run_text(text, ComplianceFlags::fhs_only(), &mut sink)
        .unwrap()
        .unwrap();
    let dups: Vec<&Diagnostic> = resp
        .diagnostics
        .iter()
        .filter(|d| matches!(d.kind, DiagKind::DuplicateDeclaration { .. }))
        .collect();
    assert_eq!(dups.len(), 1);
    match &dups[0].kind {
        DiagKind::DuplicateDeclaration {
            name,
            first_offset,
            second_offset,
        } => {
            assert_eq!(name.as_slice(), b"x");
            assert_eq!(*first_offset, 0);
            assert_eq!(*second_offset, text.find("resource x { path = \"/usr/bin/two").unwrap());
        }
        _ => unreachable!(),
    }
    assert!(!resp.success);
    // The later declaration wins for resolution: the alias takes its path.
    let received = sink.received();
    assert_eq!(received.len(), 3);
    assert_eq!(received[2].name.as_slice(), b"y");
    assert_eq!(received[2].data.as_slice(), b"/usr/bin/two");
}

#[test]
fn unresolved_reference_reported_and_evaluation_continues() {
    let text = "alias y { target = \"nope\"; }\n\
                resource a { path = \"/usr/bin/a\"; }";
    let resp = run_ok(text, ComplianceFlags::fhs_only());
    assert!(!resp.success);
    assert_eq!(resp.diagnostics.len(), 1);
    match &resp.diagnostics[0].kind {
        DiagKind::UnresolvedReference { name } => assert_eq!(name.as_slice(), b"nope"),
        other => panic!("wrong diagnostic: {other:?}"),
    }
    // The sibling declaration was still evaluated.
    assert_eq!(resp.artifacts.len(), 1);
    assert_eq!(resp.artifacts[0].name.as_slice(), b"a");
}

#[test]
fn unterminated_block_is_a_parse_error_with_no_sink_calls() {
    let text = "resource app {";
    let mut sink = OutputSink::collecting();
    let err = run_text(text, ComplianceFlags::fhs_only(), &mut sink).unwrap_err();
    match err {
        EngineError::Parse(e) => {
            assert_eq!(e.offset, text.find('{').unwrap());
            assert_eq!(e.cause, ParseCause::UnterminatedBlock);
        }
        other => panic!("wrong error: {other:?}"),
    }
    assert!(sink.received().is_empty());
}

#[test]
fn two_alias_cycle_reported_exactly_once() {
    let text = "alias a { target = \"b\"; }\nalias b { target = \"a\"; }";
    let resp = run_ok(text, ComplianceFlags::fhs_only());
    assert!(!resp.success);
    assert_eq!(resp.diagnostics.len(), 1);
    match &resp.diagnostics[0].kind {
        DiagKind::CircularReference { name } => assert_eq!(name.as_slice(), b"a"),
        other => panic!("wrong diagnostic: {other:?}"),
    }
    assert!(resp.artifacts.is_empty());
}

#[test]
fn self_referential_alias_reported_once() {
    let text = "alias me { target = \"me\"; }";
    let resp = run_ok(text, ComplianceFlags::none());
    assert_eq!(resp.diagnostics.len(), 1);
    assert!(matches!(
        resp.diagnostics[0].kind,
        DiagKind::CircularReference { .. }
    ));
}

#[test]
fn three_alias_cycle_reported_once_and_siblings_still_evaluated() {
    let text = "alias a { target = \"b\"; }\n\
                alias b { target = \"c\"; }\n\
                alias c { target = \"a\"; }\n\
                resource d { path = \"/usr/share/d\"; }";
    let resp = run_ok(text, ComplianceFlags::fhs_only());
    let cycles = resp
        .diagnostics
        .iter()
        .filter(|d| matches!(d.kind, DiagKind::CircularReference { .. }))
        .count();
    assert_eq!(cycles, 1);
    assert_eq!(resp.artifacts.len(), 1);
    assert_eq!(resp.artifacts[0].name.as_slice(), b"d");
}

fn kind_eq(a: &DiagKind, b: &DiagKind) -> bool {
    match (a, b) {
        (
            DiagKind::DuplicateDeclaration {
                name: n1,
                first_offset: f1,
                second_offset: s1,
            },
            DiagKind::DuplicateDeclaration {
                name: n2,
                first_offset: f2,
                second_offset: s2,
            },
        ) => n1 == n2 && f1 == f2 && s1 == s2,
        (
            DiagKind::UnresolvedReference { name: n1 },
            DiagKind::UnresolvedReference { name: n2 },
        ) => n1 == n2,
        (
            DiagKind::NonCompliantPlacement {
                declared: d1,
                expected: e1,
            },
            DiagKind::NonCompliantPlacement {
                declared: d2,
                expected: e2,
            },
        ) => d1 == d2 && e1 == e2,
        (DiagKind::CircularReference { name: n1 }, DiagKind::CircularReference { name: n2 }) => {
            n1 == n2
        }
        (DiagKind::SinkRejected { name: n1 }, DiagKind::SinkRejected { name: n2 }) => n1 == n2,
        _ => false,
    }
}

fn diag_eq(a: &Diagnostic, b: &Diagnostic) -> bool {
    a.severity == b.severity && a.offset == b.offset && kind_eq(&a.kind, &b.kind)
}

#[test]
fn identical_requests_yield_identical_outcomes() {
    let text = "group tools {\n\
                  resource a { path = \"/usr/bin/a\"; }\n\
                  resource b { path = \"bin/b\"; }\n\
                }\n\
                alias c { target = \"a\"; }\n\
                alias broken { target = \"missing\"; }";
    let flags = ComplianceFlags::fhs_only();
    let mut sink1 = OutputSink::collecting();
    let mut sink2 = OutputSink::collecting();
    let r1 = run_text(text, flags, &mut sink1).unwrap().unwrap();
    let r2 = run_text(text, flags, &mut sink2).unwrap().unwrap();
    assert_eq!(r1.success, r2.success);
    assert_eq!(r1.diagnostics.len(), r2.diagnostics.len());
    for (d1, d2) in r1.diagnostics.iter().zip(r2.diagnostics.iter()) {
        assert!(diag_eq(d1, d2));
    }
    assert_eq!(r1.artifacts.len(), r2.artifacts.len());
    for (m1, m2) in r1.artifacts.iter().zip(r2.artifacts.iter()) {
        assert_eq!(m1.name, m2.name);
        assert_eq!(m1.size, m2.size);
        assert_eq!(m1.index, m2.index);
    }
    assert_eq!(sink1.received().len(), sink2.received().len());
    for (a1, a2) in sink1.received().iter().zip(sink2.received().iter()) {
        assert_eq!(a1.name, a2.name);
        assert_eq!(a1.data, a2.data);
    }
}

#[test]
fn enabling_a_flag_twice_equals_enabling_it_once() {
    let once = ComplianceFlags::none().with_fhs_compliance();
    let twice = ComplianceFlags::none()
        .with_fhs_compliance()
        .with_fhs_compliance();
    assert_eq!(once, twice);
    let text = "resource app { path = \"/home/me/app\"; }";
    let r1 = run_ok(text, once);
    let r2 = run_ok(text, twice);
    assert_eq!(r1.success, r2.success);
    assert_eq!(r1.diagnostics.len(), r2.diagnostics.len());
}

#[test]
fn flag_order_does_not_matter() {
    let ab = ComplianceFlags::none()
        .with_fhs_compliance()
        .with_unknown_kind_tolerant();
    let ba = ComplianceFlags::none()
        .with_unknown_kind_tolerant()
        .with_fhs_compliance();
    assert_eq!(ab, ba);
}

#[test]
fn artifacts_keep_declaration_traversal_order() {
    let text = "resource one { path = \"/usr/bin/one\"; }\n\
                group mid {\n\
                  resource two { path = \"/etc/two\"; }\n\
                }\n\
                resource three { path = \"/var/lib/three\"; }";
    let mut sink = OutputSink::collecting();
    let resp = run_text(text, ComplianceFlags::fhs_only(), &mut sink)
        .unwrap()
        .unwrap();
    assert!(resp.success);
    let names: Vec<&[u8]> = resp.artifacts.iter().map(|m| m.name.as_slice()).collect();
    assert_eq!(names, vec![&b"one"[..], &b"two"[..], &b"three"[..]]);
    for (k, m) in resp.artifacts.iter().enumerate() {
        assert_eq!(m.index, k);
    }
    let sunk: Vec<&[u8]> = sink.received().iter().map(|a| a.name.as_slice()).collect();
    assert_eq!(sunk, vec![&b"one"[..], &b"two"[..], &b"three"[..]]);
    assert_eq!(sink.received()[1].data.as_slice(), b"/etc/two");
}

#[test]
fn rejecting_sink_warns_but_never_demotes_success() {
    let text = "resource app { path = \"/usr/bin/app\"; }";
    let mut sink = OutputSink::rejecting();
    let resp = run_text(text, ComplianceFlags::fhs_only(), &mut sink)
        .unwrap()
        .unwrap();
    // The sink refusal is a warning diagnostic, not a failure.
    assert!(resp.success);
    assert_eq!(resp.diagnostics.len(), 1);
    assert_eq!(resp.diagnostics[0].severity, Severity::Warning);
    match &resp.diagnostics[0].kind {
        DiagKind::SinkRejected { name } => assert_eq!(name.as_slice(), b"app"),
        other => panic!("wrong diagnostic: {other:?}"),
    }
    assert_eq!(resp.artifacts.len(), 1);
    assert!(sink.received().is_empty());
}

#[test]
fn base_path_prefixes_relative_placements() {
    let text = "resource tool { path = \"bin/tool\"; }";
    let input = InputSource::from_bytes(text.as_bytes().to_vec());
    let mut sink = OutputSink::collecting();
    let resp = fhs_engine::run(
        input,
        &mut sink,
        Some(b"/opt/suite".to_vec()),
        None,
        &ComplianceFlags::fhs_only(),
    )
    .unwrap()
    .unwrap();
    assert!(resp.success);
    assert_eq!(sink.received()[0].data.as_slice(), b"/opt/suite/bin/tool");
}

#[test]
fn absent_base_leaves_relative_placements_alone() {
    let text = "resource tool { path = \"bin/tool\"; }";
    let resp = run_ok(text, ComplianceFlags::fhs_only());
    // A relative placement without a base falls outside every allowed root.
    assert!(!resp.success);
    match &resp.diagnostics[0].kind {
        DiagKind::NonCompliantPlacement { declared, expected } => {
            assert_eq!(declared.as_slice(), b"bin/tool");
            assert_eq!(expected.as_slice(), b"/usr/bin/tool");
        }
        other => panic!("wrong diagnostic: {other:?}"),
    }
}

#[test]
fn override_table_replaces_declared_paths() {
    let text = "resource app { path = \"/home/me/app\"; }";
    let input = InputSource::from_bytes(text.as_bytes().to_vec());
    let mut sink = OutputSink::collecting();
    let overrides = vec![Override {
        name: b"app".to_vec(),
        path: b"/usr/lib/app".to_vec(),
    }];
    let resp = fhs_engine::run(
        input,
        &mut sink,
        None,
        Some(overrides),
        &ComplianceFlags::fhs_only(),
    )
    .unwrap()
    .unwrap();
    assert!(resp.success);
    assert_eq!(sink.received()[0].data.as_slice(), b"/usr/lib/app");
}

#[test]
fn alias_to_group_is_inert() {
    let text = "group g { }\nalias a { target = \"g\"; }";
    let resp = run_ok(text, ComplianceFlags::fhs_only());
    assert!(resp.success);
    assert!(resp.diagnostics.is_empty());
    assert!(resp.artifacts.is_empty());
}

#[test]
fn alias_takes_target_path_under_its_own_name() {
    let text = "resource app { path = \"/usr/bin/app\"; }\nalias launcher { target = \"app\"; }";
    let mut sink = OutputSink::collecting();
    let resp = run_text(text, ComplianceFlags::fhs_only(), &mut sink)
        .unwrap()
        .unwrap();
    assert!(resp.success);
    assert_eq!(resp.artifacts.len(), 2);
    assert_eq!(sink.received()[1].name.as_slice(), b"launcher");
    assert_eq!(sink.received()[1].data.as_slice(), b"/usr/bin/app");
}
