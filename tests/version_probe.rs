use goon_launcher::{
    dd_executable_path, decimal_text, get_byond_version, parse_byond_version, ByondVersion,
    ProbeOutcome,
};

#[test]
fn parses_the_usual_version_line() {
    let r = parse_byond_version("BYOND 5.0 Public (Version 516.1663) on Microsoft Windows");
    assert_eq!(r, Ok(ByondVersion { major: 516, minor: 1663 }));
}

#[test]
fn skips_lines_without_the_markers() {
    let out = "Dream Daemon starting\r\nBYOND 5.0 Public (Version 515.1642) on Microsoft Windows\r\n";
    assert_eq!(parse_byond_version(out), Ok(ByondVersion { major: 515, minor: 1642 }));
}

#[test]
fn first_matching_line_wins() {
    let out = "BYOND (Version 1.2)\nBYOND (Version 3.4)\n";
    assert_eq!(parse_byond_version(out), Ok(ByondVersion { major: 1, minor: 2 }));
}

#[test]
fn output_without_version_fails() {
    assert_eq!(
        parse_byond_version("hello\nworld"),
        Err("Could not find BYOND version in output".to_string())
    );
    assert_eq!(
        parse_byond_version(""),
        Err("Could not find BYOND version in output".to_string())
    );
}

#[test]
fn missing_version_marker_fails() {
    assert_eq!(
        parse_byond_version("BYOND 5.0 Public (Build 516.1663)"),
        Err("Could not find BYOND version in output".to_string())
    );
}

#[test]
fn missing_closing_parenthesis_skips_the_line() {
    assert_eq!(
        parse_byond_version("BYOND Version 516.1663"),
        Err("Could not find BYOND version in output".to_string())
    );
}

#[test]
fn parenthesis_before_marker_does_not_panic() {
    assert_eq!(
        parse_byond_version("BYOND ) Version 516.1663"),
        Err("Could not find BYOND version in output".to_string())
    );
    assert_eq!(
        parse_byond_version("BYOND (x) (Version 516.1663)"),
        Ok(ByondVersion { major: 516, minor: 1663 })
    );
}

#[test]
fn non_numeric_major_fails() {
    assert_eq!(
        parse_byond_version("BYOND (Version 5x6.1663)"),
        Err("Failed to parse major version: invalid digit found in string".to_string())
    );
}

#[test]
fn non_numeric_minor_fails() {
    assert_eq!(
        parse_byond_version("BYOND (Version 516.beta)"),
        Err("Failed to parse minor version: invalid digit found in string".to_string())
    );
}

#[test]
fn empty_segment_fails() {
    assert_eq!(
        parse_byond_version("BYOND (Version 516.)"),
        Err("Failed to parse minor version: cannot parse integer from empty string".to_string())
    );
    assert_eq!(
        parse_byond_version("BYOND (Version .5)"),
        Err("Failed to parse major version: cannot parse integer from empty string".to_string())
    );
}

#[test]
fn overflowing_segment_fails() {
    assert_eq!(
        parse_byond_version("BYOND (Version 4294967296.1)"),
        Err("Failed to parse major version: number too large to fit in target type".to_string())
    );
    assert_eq!(
        parse_byond_version("BYOND (Version 4294967295.0)"),
        Ok(ByondVersion { major: 4294967295, minor: 0 })
    );
}

#[test]
fn plus_sign_is_accepted() {
    assert_eq!(
        parse_byond_version("BYOND (Version +516.+2)"),
        Ok(ByondVersion { major: 516, minor: 2 })
    );
    assert_eq!(
        parse_byond_version("BYOND (Version +.2)"),
        Err("Failed to parse major version: invalid digit found in string".to_string())
    );
}

#[test]
fn wrong_number_of_parts_fails() {
    assert_eq!(
        parse_byond_version("BYOND (Version 516)"),
        Err("Invalid version format: 516".to_string())
    );
    assert_eq!(
        parse_byond_version("BYOND (Version 5.1.6)"),
        Err("Invalid version format: 5.1.6".to_string())
    );
}

#[test]
fn probe_of_missing_directory_names_the_executable() {
    assert_eq!(
        get_byond_version("C:/NoSuchDir", ProbeOutcome::Missing),
        Err("Dream Daemon executable not found at C:/NoSuchDir\\bin\\dd.exe".to_string())
    );
}

#[test]
fn probe_that_cannot_start_fails() {
    assert_eq!(
        get_byond_version("C:/BYOND", ProbeOutcome::NotStarted("access denied".to_string())),
        Err("Failed to execute dd.exe: access denied".to_string())
    );
}

#[test]
fn probe_output_is_parsed() {
    let out = "BYOND 5.0 Public (Version 516.1663) on Microsoft Windows\n".to_string();
    assert_eq!(
        get_byond_version("C:/BYOND", ProbeOutcome::Output(out)),
        Ok(ByondVersion { major: 516, minor: 1663 })
    );
}

#[test]
fn executable_path_joins_once() {
    assert_eq!(dd_executable_path("C:\\BYOND"), "C:\\BYOND\\bin\\dd.exe");
    assert_eq!(dd_executable_path("C:\\BYOND\\"), "C:\\BYOND\\bin\\dd.exe");
    assert_eq!(dd_executable_path(""), "bin\\dd.exe");
}

#[test]
fn decimals() {
    assert_eq!(decimal_text(0), "0");
    assert_eq!(decimal_text(7), "7");
    assert_eq!(decimal_text(1663), "1663");
    assert_eq!(decimal_text(4294967295), "4294967295");
}
