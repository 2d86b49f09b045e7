//! The relation-file classifier and the verbatim-copy decision.

use basebackup::relpath::{
    is_copied_verbatim, is_rel_file_path, is_tablespace_path, parse_rel_file_path,
    parse_relfilename, FilePathError,
};

#[test]
fn accepts_shared_tablespace_relation_files() {
    assert!(is_rel_file_path("global/1234"));
    assert!(is_rel_file_path("global/1234.5"));
    assert!(is_rel_file_path("global/1234_vm"));
    assert!(is_rel_file_path("global/1234_fsm.7"));
    assert!(is_rel_file_path("global/1234_init"));
}

#[test]
fn accepts_default_tablespace_relation_files() {
    assert!(is_rel_file_path("base/16384/5678"));
    assert!(is_rel_file_path("base/16384/5678.1"));
    assert!(is_rel_file_path("base/1/123_init"));
    assert!(is_rel_file_path("base/0/1_vm.2"));
}

#[test]
fn rejects_tablespace_paths() {
    assert!(!is_rel_file_path("pg_tblspc/12/PG_14_202107181/16384/5678"));
    assert!(!is_rel_file_path("pg_tblspc/"));
    assert_eq!(
        parse_rel_file_path("pg_tblspc/12/x"),
        Err(FilePathError::InvalidFileName)
    );
}

#[test]
fn rejects_malformed_paths() {
    assert!(!is_rel_file_path("base/xx/123"));
    assert!(!is_rel_file_path("base/16384"));
    assert!(!is_rel_file_path("base/16384/"));
    assert!(!is_rel_file_path("base/16384/12/34"));
    assert!(!is_rel_file_path("postgresql.conf"));
    assert!(!is_rel_file_path("global/"));
    assert!(!is_rel_file_path("global/abc"));
    assert!(!is_rel_file_path("global/1234_"));
    assert!(!is_rel_file_path("global/1234."));
    assert!(!is_rel_file_path("global/1234_fsm5"));
}

#[test]
fn distinguishes_fork_name_errors() {
    assert_eq!(
        parse_rel_file_path("global/123_zzz"),
        Err(FilePathError::InvalidForkName)
    );
    assert_eq!(
        parse_rel_file_path("global/123_zzz!"),
        Err(FilePathError::InvalidFileName)
    );
    assert_eq!(
        parse_rel_file_path("base/5/123_zzz.9"),
        Err(FilePathError::InvalidForkName)
    );
}

#[test]
fn rejects_numerals_out_of_range() {
    // One past the largest 32-bit node id.
    assert!(!is_rel_file_path("global/4294967296"));
    assert!(is_rel_file_path("global/4294967295"));
    assert!(!is_rel_file_path("base/4294967296/123"));
    assert!(!is_rel_file_path("global/123.99999999999"));
}

#[test]
fn parses_relation_file_names() {
    assert_eq!(parse_relfilename("1234"), Ok((1234, 0, 0)));
    assert_eq!(parse_relfilename("1234.9"), Ok((1234, 0, 9)));
    assert_eq!(parse_relfilename("1234_fsm"), Ok((1234, 1, 0)));
    assert_eq!(parse_relfilename("1234_vm.3"), Ok((1234, 2, 3)));
    assert_eq!(parse_relfilename("1234_init"), Ok((1234, 3, 0)));
    assert_eq!(parse_relfilename("007"), Ok((7, 0, 0)));
    assert_eq!(
        parse_relfilename("x12"),
        Err(FilePathError::InvalidFileName)
    );
}

#[test]
fn copies_shared_tablespace_verbatim() {
    assert!(is_copied_verbatim("global/1234"));
    assert!(is_copied_verbatim("global/pg_control"));
    assert!(is_copied_verbatim("global/pg_filenode.map"));
}

#[test]
fn rejects_tablespace_files_from_copy() {
    // Unsupported tablespaces: never copied, whatever the file is called.
    assert!(!is_copied_verbatim("pg_tblspc/12/whatever"));
    assert!(!is_copied_verbatim("pg_tblspc/12/PG_14_202107181/16384/5678"));
    assert!(is_tablespace_path("pg_tblspc/12/whatever"));
    assert!(!is_tablespace_path("base/12/345"));
    assert!(!is_tablespace_path("postgresql.conf"));
}

#[test]
fn skips_reconstructed_and_relation_files() {
    assert!(!is_copied_verbatim("base/16384/5678"));
    assert!(!is_copied_verbatim("base/16384/pg_filenode.map"));
    assert!(!is_copied_verbatim("pg_control"));
    assert!(!is_copied_verbatim("pg_xact/0000"));
    assert!(!is_copied_verbatim("pg_multixact/members/0000"));
    assert!(!is_copied_verbatim("pg_multixact/offsets/0000"));
}

#[test]
fn copies_ordinary_files_verbatim() {
    assert!(is_copied_verbatim("postgresql.conf"));
    assert!(is_copied_verbatim("base/16384/PG_VERSION"));
    assert!(is_copied_verbatim("PG_VERSION"));
    assert!(is_copied_verbatim("base/16384/12_zzz"));
}
