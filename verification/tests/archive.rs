use std::io::{Cursor, Write};

use dll_installer::LibError;
use dll_installer::install::{InstallAction, InstallDecision, decide_install, plan_install};
use zip::write::{SimpleFileOptions, ZipWriter};

fn build_zip(members: &[(&str, &[u8])]) -> Vec<u8> {
    let mut writer = ZipWriter::new(Cursor::new(Vec::new()));
    let options = SimpleFileOptions::default();
    for (name, data) in members {
        writer.start_file(*name, options).unwrap();
        writer.write_all(data).unwrap();
    }
    writer.finish().unwrap().into_inner()
}

#[test]
fn installs_the_single_qualifying_member() {
    let bytes = build_zip(&[
        ("readme.txt", b"ignore me"),
        ("xinput1_3.dll", &[0x4d, 0x5a, 0x90, 0x00, 0x03]),
        ("notes.md", b"also ignored"),
    ]);
    match plan_install(bytes, false).unwrap() {
        InstallAction::Install(data) => assert_eq!(data, vec![0x4d, 0x5a, 0x90, 0x00, 0x03]),
        _ => panic!("expected an installation"),
    }
}

#[test]
fn first_qualifying_member_wins() {
    let bytes = build_zip(&[
        ("a.dll", b"first"),
        ("b.dll", b"second"),
    ]);
    match plan_install(bytes, false).unwrap() {
        InstallAction::Install(data) => assert_eq!(data, b"first".to_vec()),
        _ => panic!("expected an installation"),
    }
}

#[test]
fn second_run_skips_an_existing_destination() {
    let bytes = build_zip(&[("lib.dll", b"payload")]);
    match plan_install(bytes.clone(), false).unwrap() {
        InstallAction::Install(data) => assert_eq!(data, b"payload".to_vec()),
        _ => panic!("expected an installation"),
    }
    // After the first run wrote the file, the destination exists: the same
    // inputs now decide a skip, and nothing is written again.
    match plan_install(bytes, true).unwrap() {
        InstallAction::SkipAlreadyPresent => {},
        _ => panic!("expected a skip"),
    }
}

#[test]
fn archive_without_qualifying_member_is_a_no_op() {
    let bytes = build_zip(&[("readme.txt", b"x"), ("data.bin", &[1, 2, 3])]);
    match plan_install(bytes, false).unwrap() {
        InstallAction::NoQualifyingMember => {},
        _ => panic!("expected a no-op"),
    }
}

#[test]
fn empty_archive_is_a_no_op() {
    let bytes = build_zip(&[]);
    match plan_install(bytes, false).unwrap() {
        InstallAction::NoQualifyingMember => {},
        _ => panic!("expected a no-op"),
    }
}

#[test]
fn member_suffix_match_is_case_sensitive() {
    let bytes = build_zip(&[("SHELL32.DLL", b"upper case name")]);
    match plan_install(bytes, false).unwrap() {
        InstallAction::NoQualifyingMember => {},
        _ => panic!("expected a no-op: the stored name is not folded"),
    }
}

#[test]
fn decision_picks_first_qualifying_name() {
    let names = vec!["readme.txt".to_string(), "a.dll".to_string(), "b.dll".to_string()];
    assert_eq!(decide_install(&names, false), InstallDecision::Write(1));
    assert_eq!(decide_install(&names, true), InstallDecision::SkipAlreadyPresent);
    let plain = vec!["readme.txt".to_string()];
    assert_eq!(decide_install(&plain, false), InstallDecision::NothingToInstall);
    assert_eq!(decide_install(&plain, true), InstallDecision::NothingToInstall);
}

#[test]
fn malformed_payload_is_an_archive_error() {
    let bytes = b"this is not a zip archive at all".to_vec();
    assert_eq!(plan_install(bytes, false).unwrap_err(), LibError::Archive);
}

#[test]
fn existing_destination_is_never_overwritten() {
    let bytes = build_zip(&[("lib.dll", b"payload")]);
    match plan_install(bytes, true).unwrap() {
        InstallAction::SkipAlreadyPresent => {},
        _ => panic!("expected a skip"),
    }
}
