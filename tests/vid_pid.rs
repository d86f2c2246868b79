use hid_monitor::vid_pid::parse_vid_pid_from_path;

#[test]
fn interface_path_gives_both_ids() {
    let path = r"\\?\hid#vid_046d&pid_c52b&mi_00#7&1a2b3c4d&0&0000#{4d1e55b2-f16f-11cf-88cb-001111000030}";
    assert_eq!(parse_vid_pid_from_path(path), (Some(0x046d), Some(0xc52b)));
}

#[test]
fn upper_case_tokens_are_read() {
    assert_eq!(parse_vid_pid_from_path(r"\\?\HID#VID_046D&PID_C52B#1"), (Some(0x046d), Some(0xc52b)));
}

#[test]
fn missing_tokens_give_none() {
    assert_eq!(parse_vid_pid_from_path(r"\\?\hid#something&else"), (None, None));
    assert_eq!(parse_vid_pid_from_path(""), (None, None));
    assert_eq!(parse_vid_pid_from_path("vid_12"), (Some(0x12), None));
}

#[test]
fn malformed_values_give_none() {
    assert_eq!(parse_vid_pid_from_path("vid_&pid_"), (None, None));
    assert_eq!(parse_vid_pid_from_path("vid_12345&pid_10000"), (None, None));
    assert_eq!(parse_vid_pid_from_path("vid_zz&pid_12g"), (None, None));
    assert_eq!(parse_vid_pid_from_path("vid_+&pid_-1"), (None, None));
    assert_eq!(parse_vid_pid_from_path("xvid_12&pid_ 1"), (None, None));
}

#[test]
fn plus_sign_and_leading_zeros_are_accepted() {
    assert_eq!(parse_vid_pid_from_path("vid_+1f&pid_0000ffff"), (Some(0x1f), Some(0xffff)));
}

#[test]
fn last_valid_token_wins() {
    assert_eq!(parse_vid_pid_from_path("vid_0001#vid_0002&pid_3#pid_4"), (Some(2), Some(4)));
    assert_eq!(parse_vid_pid_from_path("vid_0001#vid_xyz&pid_3#pid_"), (Some(1), Some(3)));
}

#[test]
fn non_ascii_text_between_fields_is_skipped() {
    assert_eq!(parse_vid_pid_from_path("é#vid_00ff&ü&pid_Ab"), (Some(0xff), Some(0xab)));
}
