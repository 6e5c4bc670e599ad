use device_secrets::error::CryptoError;
use device_secrets::identity::{
    command_output, contains, extracted_identity, find_char, find_line, find_line_after,
    fourth_piece, get_machine_id, machine_id_from_file, parse_ioreg_uuid, parse_wmic_uuid, trim,
    Platform,
};

const IOREG: &str = "+-o J314sAP  <class IOPlatformExpertDevice, id 0x100000254>\n    {\n      \"IOPolledInterface\" = \"AppleARMWatchdogTimerHibernateHandler\"\n      \"IOPlatformUUID\" = \"9C3B2A10-1234-5678-9ABC-DEF012345678\"\n      \"IOPlatformSerialNumber\" = \"C02XXXXXXX\"\n    }";

#[test]
fn trim_strips_both_ends() {
    assert_eq!(trim("  abc \r\n"), "abc");
    assert_eq!(trim("abc"), "abc");
    assert_eq!(trim(" a b "), "a b");
    assert_eq!(trim(" \t\n"), "");
    assert_eq!(trim(""), "");
    assert_eq!(trim("\u{a0}é\u{2003}"), "é");
}

#[test]
fn find_char_stops_at_the_first_match() {
    assert_eq!(find_char("a\nb\nc", '\n', 0), 1);
    assert_eq!(find_char("a\nb\nc", '\n', 2), 3);
    assert_eq!(find_char("a\nb\nc", '\n', 4), 5);
    assert_eq!(find_char("é\"x", '"', 0), 1);
    assert_eq!(find_char("", 'x', 0), 0);
    assert_eq!(find_char("ab", 'b', 2), 2);
    assert_eq!(find_char("ab", 'b', 7), 7);
}

#[test]
fn contains_finds_a_run_of_characters() {
    assert!(contains("xxIOPlatformUUIDyy", "IOPlatformUUID"));
    assert!(contains("abc", ""));
    assert!(contains("abc", "abc"));
    assert!(contains("aab", "ab"));
    assert!(!contains("abc", "abcd"));
    assert!(!contains("IOPlatformUUI D", "IOPlatformUUID"));
    assert!(!contains("", "a"));
}

#[test]
fn find_line_after_follows_the_marked_line() {
    assert_eq!(find_line_after("UUID\nabc\nrest", "UUID"), Some("abc"));
    assert_eq!(find_line_after("UUID\nabc", "UUID"), Some("abc"));
    assert_eq!(find_line_after("UUID\n\nabc", "UUID"), Some(""));
    assert_eq!(find_line_after("noise\n  UUID  \nabc\n", "UUID"), Some("abc"));
    assert_eq!(find_line_after("UUID\n", "UUID"), None);
    assert_eq!(find_line_after("UUID", "UUID"), None);
    assert_eq!(find_line_after("Name\nabc", "UUID"), None);
    assert_eq!(find_line_after("", "UUID"), None);
}

#[test]
fn find_line_is_the_first_line_with_the_marker() {
    assert_eq!(find_line("a\nxMy\nzMz", "M"), Some("xMy"));
    assert_eq!(find_line("a\nb\nlastM", "M"), Some("lastM"));
    assert_eq!(find_line("a\nb\n", "M"), None);
    assert_eq!(find_line("", "M"), None);
}

#[test]
fn fourth_piece_follows_the_third_quote() {
    assert_eq!(fourth_piece("  \"K\" = \"V\""), Some("V"));
    assert_eq!(fourth_piece("\"K\" = \"V"), Some("V"));
    assert_eq!(fourth_piece("\"K\" = \""), Some(""));
    assert_eq!(fourth_piece("\"K\" = V"), None);
    assert_eq!(fourth_piece("no quotes"), None);
    assert_eq!(fourth_piece("a\"b\"c\"d\"e\"f"), Some("d"));
}

#[test]
fn extracted_identity_refuses_blank_values() {
    assert_eq!(extracted_identity(Some(" id \n")).unwrap(), "id");
    assert!(matches!(extracted_identity(Some(" \n")), Err(CryptoError::MachineIdError)));
    assert!(matches!(extracted_identity(None), Err(CryptoError::MachineIdError)));
}

#[test]
fn machine_id_file_is_trimmed() {
    assert_eq!(
        machine_id_from_file("0123456789abcdef0123456789abcdef\n").unwrap(),
        "0123456789abcdef0123456789abcdef"
    );
    assert!(matches!(machine_id_from_file(""), Err(CryptoError::MachineIdError)));
}

#[test]
fn wmic_output_gives_the_line_under_the_header() {
    let output = "UUID                                  \r\n4C4C4544-0042-3510-8054-B7C04F564432  \r\n\r\n";
    assert_eq!(parse_wmic_uuid(output).unwrap(), "4C4C4544-0042-3510-8054-B7C04F564432");
    assert_eq!(parse_wmic_uuid("UUID\nABC").unwrap(), "ABC");
    assert_eq!(parse_wmic_uuid("notice\nUUID\nABC\n").unwrap(), "ABC");
    assert!(matches!(parse_wmic_uuid("UUID"), Err(CryptoError::MachineIdError)));
    assert!(matches!(parse_wmic_uuid("UUID\n"), Err(CryptoError::MachineIdError)));
    assert!(matches!(parse_wmic_uuid("UUID\n  \r\n"), Err(CryptoError::MachineIdError)));
    assert!(matches!(parse_wmic_uuid(""), Err(CryptoError::MachineIdError)));
}

#[test]
fn wmic_output_without_the_header_has_no_identity() {
    let shifted = "Node,Name\r\nsome unrelated text\r\n";
    assert!(matches!(parse_wmic_uuid(shifted), Err(CryptoError::MachineIdError)));
    assert!(matches!(
        get_machine_id(Platform::Windows, shifted),
        Err(CryptoError::MachineIdError)
    ));
}

#[test]
fn ioreg_output_gives_the_marked_value() {
    assert_eq!(parse_ioreg_uuid(IOREG).unwrap(), "9C3B2A10-1234-5678-9ABC-DEF012345678");
    let shifted = format!("preamble\n{}", IOREG.replace("      \"IOPlatformUUID\"", "\"IOPlatformUUID\""));
    assert_eq!(parse_ioreg_uuid(&shifted).unwrap(), "9C3B2A10-1234-5678-9ABC-DEF012345678");
}

#[test]
fn ioreg_output_without_the_marker_has_no_identity() {
    let output = "    {\n      \"IOPlatformSerialNumber\" = \"C02XXXXXXX\"\n    }";
    assert!(matches!(parse_ioreg_uuid(output), Err(CryptoError::MachineIdError)));
    assert!(matches!(
        parse_ioreg_uuid("IOPlatformUUID = none"),
        Err(CryptoError::MachineIdError)
    ));
    assert!(matches!(parse_ioreg_uuid(""), Err(CryptoError::MachineIdError)));
}

#[test]
fn get_machine_id_follows_the_platform() {
    assert_eq!(get_machine_id(Platform::Linux, " abc\n").unwrap(), "abc");
    assert_eq!(get_machine_id(Platform::Windows, "UUID\nabc").unwrap(), "abc");
    assert_eq!(
        get_machine_id(Platform::MacOs, IOREG).unwrap(),
        "9C3B2A10-1234-5678-9ABC-DEF012345678"
    );
    assert!(matches!(
        get_machine_id(Platform::Windows, " abc\n"),
        Err(CryptoError::MachineIdError)
    ));
}

#[test]
fn command_output_trims_what_a_successful_command_wrote() {
    let res = command_output(true, b"  UUID\r\nabc \r\n\r\n".to_vec(), "exit status: 0", "");
    assert_eq!(res.unwrap(), "UUID\r\nabc");
}

#[test]
fn command_output_refuses_output_that_is_not_text() {
    let res = command_output(true, vec![0x61, 0xff, 0x62], "exit status: 0", "");
    assert!(matches!(res, Err(CryptoError::Utf8Error(_))));
}

#[test]
fn command_output_reports_a_failed_command() {
    let res = command_output(false, b"ignored".to_vec(), "ExitStatus(256)", "no such class");
    match res {
        Err(CryptoError::ShellCommandError(message)) => {
            assert_eq!(message, "Command failed with status ExitStatus(256): no such class")
        }
        _ => panic!("a failed command must be reported"),
    }
}
