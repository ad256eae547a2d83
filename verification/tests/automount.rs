use script_utils::automount::{
    automount_name, is_mount_point, mount_point, next_candidate, service_instance, systemd_encode,
    DirStat,
};

#[test]
fn test_systemd_encode() {
    assert_eq!(systemd_encode("hello_W0rld").as_str(), "hello_W0rld");
    assert_eq!(
        systemd_encode(r"/dev/sda1 /media/path").as_str(),
        r"\x2fdev\x2fsda1\x20\x2fmedia\x2fpath"
    );
}

#[test]
fn test_automount_name() {
    assert_eq!(
        automount_name(None, Some("UUID".to_string()), None, None, None).as_str(),
        "UUID"
    );
    assert_eq!(
        automount_name(
            Some("LABEL".to_string()),
            Some("UUID".to_string()),
            None,
            None,
            None
        )
        .as_str(),
        "LABEL"
    );
}

#[test]
fn automount_name_falls_back_to_vendor_model_device() {
    let name = automount_name(
        None,
        None,
        Some("Vendor".to_string()),
        Some("Model".to_string()),
        Some("1".to_string()),
    );
    assert_eq!(name, "Vendor_Model_1");
}

#[test]
fn systemd_encode_small_bytes_have_one_hex_digit() {
    assert_eq!(systemd_encode("a\nb"), "a\\xab");
    assert_eq!(systemd_encode("\t"), "\\x9");
}

#[test]
fn systemd_encode_escapes_each_utf8_byte() {
    assert_eq!(systemd_encode("é-x"), "\\xc3\\xa9\\x2dx");
    assert_eq!(systemd_encode(""), "");
}

#[test]
fn systemd_encode_concatenation_law_example() {
    let a = "/dev/sdb";
    let b = " é_1";
    let whole = systemd_encode(&format!("{}{}", a, b));
    assert_eq!(whole, format!("{}{}", systemd_encode(a), systemd_encode(b)));
}

#[test]
fn systemd_encode_output_alphabet_example() {
    let out = systemd_encode("Ünïcode & spaces / slashes");
    assert!(out.chars().all(|c| c.is_ascii_alphanumeric() || c == '_' || c == '\\'));
}

#[test]
fn mount_decision_cases() {
    let dir = DirStat { is_dir: true, device: 5 };
    let parent_same = DirStat { is_dir: true, device: 5 };
    let parent_other = DirStat { is_dir: true, device: 1 };
    let file = DirStat { is_dir: false, device: 9 };
    assert!(!is_mount_point(None, false, Some(parent_other)));
    assert!(!is_mount_point(Some(file), true, Some(parent_other)));
    assert!(is_mount_point(Some(dir), true, None));
    assert!(is_mount_point(Some(dir), false, Some(parent_other)));
    assert!(!is_mount_point(Some(dir), false, Some(parent_same)));
    assert!(!is_mount_point(Some(dir), false, None));
}

#[test]
fn mount_names_and_service_line() {
    assert_eq!(mount_point("USB"), "/media/USB");
    assert_eq!(next_candidate("USB"), "USB_");
    assert_eq!(
        service_instance("/dev/sda1", "path"),
        r"\x2fdev\x2fsda1\x20\x2fmedia\x2fpath"
    );
}
