use pass_store::error::{Error, IoKind};
use pass_store::pass::{
    choose_store_dir, default_store_dir, delete_outcome, gpg_program, join_path, list_entries,
    parent_dir, resolve_recipient, tool_outcome, umask_or_default, Entry, EntryKind,
    PasswordStore, ProbeOutcome, RawEntry,
};
use pass_store::text::{parse_octal, split_ascii_ws, trim};

fn store(root: &str, opts: Option<&str>, umask: u32) -> PasswordStore {
    PasswordStore::new(String::from(root), opts.map(String::from), umask)
}

#[test]
fn default_umask_gives_private_modes() {
    let s = store("/root/store", None, 0o077);
    assert_eq!(s.dir_mode, 0o700);
    assert_eq!(s.file_mode, 0o600);
}

#[test]
fn permissive_umask_gives_shared_modes() {
    let s = store("/root/store", None, 0o022);
    assert_eq!(s.dir_mode, 0o755);
    assert_eq!(s.file_mode, 0o644);
}

#[test]
fn file_mode_never_has_execute_bits() {
    for umask in [0o000u32, 0o022, 0o077, 0o111, 0o777, 0o123, 0o460] {
        let s = store("r", None, umask);
        assert_eq!(s.file_mode & 0o111, 0);
    }
}

#[test]
fn full_secret_path_appends_suffix() {
    let s = store("root", None, 0o077);
    assert_eq!(s.get_full_secret_path("foo/bar"), "root/foo/bar.gpg");
}

#[test]
fn full_secret_path_keeps_existing_suffix() {
    let s = store("root", None, 0o077);
    assert_eq!(s.get_full_secret_path("foo/bar.gpg"), "root/foo/bar.gpg");
}

#[test]
fn suffixed_and_bare_paths_share_a_backing_file() {
    let s = store("root", None, 0o077);
    assert_eq!(s.get_full_secret_path("foo/bar"), s.get_full_secret_path("foo/bar.gpg"));
}

#[test]
fn short_names_are_not_mistaken_for_the_suffix() {
    let s = store("root", None, 0o077);
    assert_eq!(s.get_full_secret_path("gpg"), "root/gpg.gpg");
}

#[test]
fn join_path_inserts_one_separator() {
    assert_eq!(join_path("a/b", "c"), "a/b/c");
    assert_eq!(join_path("a", ""), "a");
}

#[test]
fn parent_dir_strips_the_last_component() {
    assert_eq!(parent_dir("root/a/b.gpg"), "root/a");
    assert_eq!(parent_dir("root/a"), "root");
    assert_eq!(parent_dir("root"), "");
}

#[test]
fn marker_paths_walk_from_target_to_root() {
    let s = store("root", None, 0o077);
    let paths = s.marker_paths("root/a/b");
    assert_eq!(paths, vec!["root/a/b/.gpg-id", "root/a/.gpg-id", "root/.gpg-id"]);
}

#[test]
fn marker_paths_at_the_root_probe_only_the_root() {
    let s = store("root", None, 0o077);
    assert_eq!(s.marker_paths("root"), vec!["root/.gpg-id"]);
}

#[test]
fn nearest_marker_wins() {
    // Markers at both root/a (id "X") and root/a/b (id "Y"): a secret under
    // a/b uses "Y", a secret under a/other uses "X".
    let s = store("root", None, 0o077);

    let under_b = s.marker_paths("root/a/b");
    assert_eq!(under_b[0], "root/a/b/.gpg-id");
    let outcomes = vec![
        ProbeOutcome::Found(String::from("Y\n")),
        ProbeOutcome::Found(String::from("X\n")),
        ProbeOutcome::Missing,
    ];
    assert_eq!(resolve_recipient(&outcomes).unwrap(), "Y");

    let under_other = s.marker_paths("root/a/other");
    assert_eq!(under_other, vec!["root/a/other/.gpg-id", "root/a/.gpg-id", "root/.gpg-id"]);
    let outcomes = vec![
        ProbeOutcome::Missing,
        ProbeOutcome::Found(String::from("X\n")),
        ProbeOutcome::Missing,
    ];
    assert_eq!(resolve_recipient(&outcomes).unwrap(), "X");
}

#[test]
fn recipient_contents_are_trimmed() {
    let outcomes = vec![ProbeOutcome::Found(String::from("  me@example.org\t\n"))];
    assert_eq!(resolve_recipient(&outcomes).unwrap(), "me@example.org");
}

#[test]
fn no_marker_anywhere_means_not_initialized() {
    let outcomes = vec![ProbeOutcome::Missing, ProbeOutcome::Missing, ProbeOutcome::Missing];
    let e = resolve_recipient(&outcomes).unwrap_err();
    assert!(matches!(e, Error::NotInitialized));
    assert_eq!(e.dbus_error_name(), "me.grimsteel.PassSecretService.PassNotInitialized");
    assert_eq!(e.description(), Some(String::from("Pass is not initialized")));
}

#[test]
fn failed_probe_aborts_the_walk() {
    let outcomes = vec![
        ProbeOutcome::Missing,
        ProbeOutcome::Failed(IoKind::Other),
        ProbeOutcome::Found(String::from("X")),
    ];
    let e = resolve_recipient(&outcomes).unwrap_err();
    assert!(matches!(e, Error::IoError(IoKind::Other)));
}

#[test]
fn decrypt_args_without_prompting() {
    let s = store("root", None, 0o077);
    assert_eq!(s.decrypt_args(false), vec!["--pinentry-mode=error", "--decrypt", "-"]);
}

#[test]
fn decrypt_args_with_prompting() {
    let s = store("root", None, 0o077);
    assert_eq!(s.decrypt_args(true), vec!["--decrypt", "-"]);
}

#[test]
fn extra_options_precede_the_directive() {
    let s = store("root", Some("--homedir /tmp/x  -q"), 0o077);
    assert_eq!(s.decrypt_args(true), vec!["--homedir", "/tmp/x", "-q", "--decrypt", "-"]);
}

#[test]
fn encrypt_args_name_the_recipient() {
    let s = store("root", None, 0o077);
    assert_eq!(s.encrypt_args("me@example.org"), vec![
        "--recipient",
        "me@example.org",
        "--encrypt",
        "-"
    ]);
}

#[test]
fn encrypt_args_keep_the_extra_options() {
    let s = store("root", Some(" -q "), 0o077);
    assert_eq!(s.encrypt_args("X"), vec!["-q", "--recipient", "X", "--encrypt", "-"]);
}

#[test]
fn successful_tool_exit_hands_the_output_through() {
    let payload = vec![0u8, 159, 146, 150, 10];
    let r = tool_outcome(true, payload.clone(), &Vec::new());
    assert_eq!(r.unwrap(), payload);
}

#[test]
fn failed_tool_exit_carries_stderr_verbatim() {
    let stderr = b"gpg: decryption failed: No secret key\n".to_vec();
    let e = tool_outcome(false, b"partial".to_vec(), &stderr).unwrap_err();
    match &e {
        Error::GpgError(m) => assert_eq!(m.as_str(), "gpg: decryption failed: No secret key\n"),
        other => panic!("unexpected error {:?}", other),
    }
    assert_eq!(e.description(), Some(String::from("gpg: decryption failed: No secret key\n")));
}

#[test]
fn tool_stderr_is_decoded_leniently() {
    let stderr = vec![0xffu8, 0xfe];
    let e = tool_outcome(false, Vec::new(), &stderr).unwrap_err();
    match e {
        Error::GpgError(m) => assert_eq!(m, "\u{FFFD}\u{FFFD}"),
        other => panic!("unexpected error {:?}", other),
    }
}

#[test]
fn delete_of_missing_file_succeeds() {
    assert!(delete_outcome(Ok(())).is_ok());
    assert!(delete_outcome(Err(IoKind::NotFound)).is_ok());
}

#[test]
fn delete_propagates_other_failures() {
    let e = delete_outcome(Err(IoKind::Other)).unwrap_err();
    assert!(matches!(e, Error::IoError(IoKind::Other)));
}

#[test]
fn listing_distinguishes_files_from_directories() {
    let raw = vec![
        RawEntry { is_dir: false, is_file: true, name: String::from("secret.gpg") },
        RawEntry { is_dir: true, is_file: false, name: String::from("sub") },
    ];
    let entries = list_entries(&raw);
    assert_eq!(entries.len(), 2);
    check_listing(&entries);

    // The same directory enumerated in the other order.
    let raw = vec![
        RawEntry { is_dir: true, is_file: false, name: String::from("sub") },
        RawEntry { is_dir: false, is_file: true, name: String::from("secret.gpg") },
    ];
    let entries = list_entries(&raw);
    assert_eq!(entries.len(), 2);
    check_listing(&entries);
}

fn check_listing(entries: &[Entry]) {
    let file = entries.iter().find(|e| e.name == "secret.gpg").unwrap();
    assert_eq!(file.kind, EntryKind::File);
    let dir = entries.iter().find(|e| e.name == "sub").unwrap();
    assert_eq!(dir.kind, EntryKind::Directory);
}

#[test]
fn listing_marks_other_entry_kinds() {
    let raw = vec![RawEntry { is_dir: false, is_file: false, name: String::from("link") }];
    let entries = list_entries(&raw);
    assert_eq!(entries[0].kind, EntryKind::Other);
}

#[test]
fn default_store_dir_is_under_home() {
    assert_eq!(default_store_dir("/home/me"), "/home/me/.password-store");
}

#[test]
fn explicit_root_overrides_the_fallback() {
    assert_eq!(choose_store_dir(Some(String::from("/srv/pass")), "/home/me"), "/srv/pass");
    assert_eq!(choose_store_dir(None, "/home/me"), "/home/me/.password-store");
}

#[test]
fn umask_defaults_to_private() {
    assert_eq!(umask_or_default(None), 0o077);
    assert_eq!(umask_or_default(Some(0o022)), 0o022);
}

#[test]
fn the_tool_is_gpg() {
    assert_eq!(gpg_program(), "gpg");
}

#[test]
fn trim_removes_surrounding_whitespace() {
    assert_eq!(trim("  hello\n"), "hello");
    assert_eq!(trim("\t a b \r\n"), "a b");
    assert_eq!(trim(""), "");
    assert_eq!(trim(" \n\t "), "");
    assert_eq!(trim("\u{00A0}x\u{3000}"), "x");
    assert_eq!(trim("plain"), "plain");
}

#[test]
fn split_breaks_at_ascii_whitespace() {
    assert_eq!(split_ascii_ws(""), Vec::<String>::new());
    assert_eq!(split_ascii_ws("   "), Vec::<String>::new());
    assert_eq!(split_ascii_ws("a"), vec!["a"]);
    assert_eq!(split_ascii_ws(" a  bc\td \n"), vec!["a", "bc", "d"]);
}

#[test]
fn parse_octal_reads_umask_values() {
    assert_eq!(parse_octal("077"), Some(0o077));
    assert_eq!(parse_octal("22"), Some(0o22));
    assert_eq!(parse_octal("0"), Some(0));
    assert_eq!(parse_octal("+17"), Some(0o17));
    assert_eq!(parse_octal("000000000017"), Some(0o17));
}

#[test]
fn parse_octal_rejects_malformed_values() {
    assert_eq!(parse_octal(""), None);
    assert_eq!(parse_octal("+"), None);
    assert_eq!(parse_octal("8"), None);
    assert_eq!(parse_octal("07x"), None);
    assert_eq!(parse_octal("-7"), None);
    assert_eq!(parse_octal("77777777777777"), None);
}
