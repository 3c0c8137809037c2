//! The two text contracts of the inspection tool, on concrete output.

use dll_deploy::parse::{get_dependency_names, parse_file_format};

#[test]
fn dependency_names_are_extracted_in_order() {
    let out = "Header\n\tDLL Name: KERNEL32.dll\n\tDLL Name: msvcrt.dll\nTrailer\n".to_string();
    let names = get_dependency_names(&out).expect("well-formed output");
    assert_eq!(names, vec!["kernel32.dll".to_string(), "msvcrt.dll".to_string()]);
}

#[test]
fn dependency_extraction_lowercases_and_drops_carriage_returns() {
    let out = "\tDLL Name: FooBar.DLL\r\n".to_string();
    let names = get_dependency_names(&out).expect("well-formed output");
    assert_eq!(names, vec!["foobar.dll".to_string()]);
}

#[test]
fn duplicate_declarations_are_preserved() {
    let out = "\tDLL Name: aa.dll\n\tDLL Name: aa.dll\n".to_string();
    let names = get_dependency_names(&out).expect("well-formed output");
    assert_eq!(names, vec!["aa.dll".to_string(), "aa.dll".to_string()]);
}

#[test]
fn lines_without_the_marker_are_passed_over() {
    let out = "nothing here\nalso nothing\n".to_string();
    let names = get_dependency_names(&out).expect("well-formed output");
    assert!(names.is_empty());
}

#[test]
fn single_character_name_is_a_parse_failure() {
    // The name region must be longer than one character.
    let out = "\tDLL Name: a.dll\n".to_string();
    assert!(get_dependency_names(&out).is_err());
}

#[test]
fn missing_extension_is_a_parse_failure() {
    let out = "\tDLL Name: noext\n".to_string();
    let line = get_dependency_names(&out).expect_err("malformed output");
    assert!(line.contains("noext"));
}

#[test]
fn extension_before_the_marker_is_a_parse_failure() {
    let out = "foo.dll name: bar.dll\n".to_string();
    assert!(get_dependency_names(&out).is_err());
}

#[test]
fn format_tag_is_the_line_rest_after_the_marker() {
    let out = "\n/x/a.exe: file format pei-x86-64\n\n".to_string();
    let tag = parse_file_format(&out).expect("well-formed output");
    assert_eq!(tag, "pei-x86-64");
}

#[test]
fn format_marker_is_matched_at_its_last_occurrence() {
    let out = "file format file format elf64-x86-64\n".to_string();
    let tag = parse_file_format(&out).expect("well-formed output");
    assert_eq!(tag, "elf64-x86-64");
}

#[test]
fn format_tag_case_is_preserved() {
    let out = "a: file format PEI-X86-64\n".to_string();
    let tag = parse_file_format(&out).expect("well-formed output");
    assert_eq!(tag, "PEI-X86-64");
}

#[test]
fn missing_format_marker_is_a_parse_failure() {
    let out = "no marker anywhere\n".to_string();
    assert!(parse_file_format(&out).is_err());
}

#[test]
fn format_is_taken_from_the_first_marked_line() {
    let out = "x: file format one\ny: file format two\n".to_string();
    let tag = parse_file_format(&out).expect("well-formed output");
    assert_eq!(tag, "one");
}
