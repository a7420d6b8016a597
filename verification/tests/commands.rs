use chrome_window_dbus_bridge::clock::utc_iso;
use chrome_window_dbus_bridge::hyprctl::{
    hyprctl_arguments, hyprctl_json, hyprctl_output, signature_from_entries,
    signature_from_environment, text_command_output, InstanceEntry,
};

fn entry(name: Option<&str>, has_socket: bool) -> InstanceEntry {
    InstanceEntry {
        name: name.map(ToOwned::to_owned),
        has_socket,
    }
}

#[test]
fn times_are_written_in_utc_to_the_second() {
    assert_eq!(utc_iso(0, 0).as_deref(), Some("1970-01-01T00:00:00Z"));
    assert_eq!(
        utc_iso(1_709_210_096, 999_999_999).as_deref(),
        Some("2024-02-29T12:34:56Z")
    );
    assert_eq!(
        utc_iso(253_402_300_799, 0).as_deref(),
        Some("9999-12-31T23:59:59Z")
    );
}

#[test]
fn times_out_of_reach_are_left_out() {
    assert_eq!(utc_iso(i64::MAX as u64, 0), None);
    assert_eq!(utc_iso(0, 2_000_000_000), None);
}

#[test]
fn the_environment_names_the_instance_unless_it_is_empty() {
    assert_eq!(
        signature_from_environment(Some("abc_1".to_owned())).as_deref(),
        Some("abc_1")
    );
    assert_eq!(signature_from_environment(Some(String::new())), None);
    assert_eq!(signature_from_environment(None), None);
}

#[test]
fn the_first_entry_with_a_socket_and_a_name_is_taken() {
    let entries = vec![
        entry(Some("lock"), false),
        entry(None, true),
        entry(Some("first"), true),
        entry(Some("second"), true),
    ];
    assert_eq!(signature_from_entries(&entries).as_deref(), Some("first"));
    assert_eq!(signature_from_entries(&vec![entry(Some("lock"), false)]), None);
    assert_eq!(signature_from_entries(&Vec::new()), None);
}

#[test]
fn the_instance_is_named_only_where_the_environment_does_not() {
    assert_eq!(
        hyprctl_arguments(false, Some("abc"), &["-j", "clients"]),
        vec!["-i", "abc", "-j", "clients"]
    );
    assert_eq!(
        hyprctl_arguments(true, Some("abc"), &["-j", "clients"]),
        vec!["-j", "clients"]
    );
    assert_eq!(
        hyprctl_arguments(false, None, &["-j", "clients"]),
        vec!["-j", "clients"]
    );
}

#[test]
fn output_counts_where_the_command_succeeded() {
    assert_eq!(
        hyprctl_output(true, b" [1] \n".to_vec()).as_deref(),
        Some("[1]")
    );
    assert_eq!(hyprctl_output(true, b" \n".to_vec()).as_deref(), Some(""));
    assert_eq!(hyprctl_output(false, b"[1]".to_vec()), None);
    assert_eq!(hyprctl_output(true, vec![0xff, 0x41]), None);
}

#[test]
fn blank_output_counts_as_none() {
    assert_eq!(
        text_command_output(true, "42\u{e4}\n".as_bytes().to_vec()).as_deref(),
        Some("42\u{e4}")
    );
    assert_eq!(text_command_output(true, b"  \n".to_vec()), None);
    assert_eq!(text_command_output(false, b"42".to_vec()), None);
    assert_eq!(text_command_output(true, vec![0xc3]), None);
}

#[test]
fn json_is_read_where_the_command_wrote_it() {
    let reply = hyprctl_json(true, b" [{\"address\": \"0xa\", \"pid\": -7}]\n".to_vec()).unwrap();
    let window = &reply.as_array().unwrap()[0];
    assert_eq!(window.get_str("address"), Some("0xa"));
    assert_eq!(window.get_i64("pid"), Some(-7));
    assert!(hyprctl_json(true, b"unknown request".to_vec()).is_none());
    assert!(hyprctl_json(true, b"".to_vec()).is_none());
    assert!(hyprctl_json(false, b"[]".to_vec()).is_none());
    assert!(hyprctl_json(true, vec![0xff]).is_none());
}
