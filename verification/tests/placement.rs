//! The placement rules: allowed roots, effective paths, corrections.

use fhs_engine::paths::{effective_path, expected_path, fhs_ok};

fn ok(p: &[u8]) -> bool {
    fhs_ok(&p.to_vec())
}

#[test]
fn allowed_roots_accepted() {
    assert!(ok(b"/usr/bin/app"));
    assert!(ok(b"/etc/app.conf"));
    assert!(ok(b"/var/lib/app/state"));
    assert!(ok(b"/opt/suite/bin/app"));
    assert!(ok(b"/bin/sh"));
    assert!(ok(b"/sbin/init"));
    assert!(ok(b"/lib/libx.so"));
}

#[test]
fn placements_outside_the_roots_refused() {
    assert!(!ok(b"/home/me/app"));
    assert!(!ok(b"/srv/data"));
    assert!(!ok(b"relative/path"));
    assert!(!ok(b""));
    // A bare root without a trailing segment is not a placement under it.
    assert!(!ok(b"/usr"));
    // A merely similar prefix does not count.
    assert!(!ok(b"/usrlocal/app"));
}

#[test]
fn corrected_path_moves_the_placement_under_usr() {
    assert_eq!(expected_path(&b"/home/me/app".to_vec()), b"/usr/home/me/app");
    assert_eq!(expected_path(&b"bin/tool".to_vec()), b"/usr/bin/tool");
    assert_eq!(expected_path(&b"".to_vec()), b"/usr/");
}

#[test]
fn effective_path_joins_relative_under_base() {
    assert_eq!(
        effective_path(&b"bin/tool".to_vec(), &Some(b"/opt/suite".to_vec())),
        b"/opt/suite/bin/tool"
    );
    // An absolute declared path ignores the base.
    assert_eq!(
        effective_path(&b"/etc/x".to_vec(), &Some(b"/opt/suite".to_vec())),
        b"/etc/x"
    );
    // No base, and the neutral empty base, leave the path alone.
    assert_eq!(effective_path(&b"bin/tool".to_vec(), &None), b"bin/tool");
    assert_eq!(
        effective_path(&b"bin/tool".to_vec(), &Some(Vec::new())),
        b"bin/tool"
    );
}
