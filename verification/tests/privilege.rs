use warren::privilege::{euid_from_status, is_root_status, parse_decimal_u32};

const STATUS: &str = "Name:\tbash\nUmask:\t0022\nState:\tS (sleeping)\nUid:\t1000\t1001\t1002\t1003\nGid:\t100\t100\t100\t100\n";

#[test]
fn effective_uid_is_the_second_number() {
    assert_eq!(euid_from_status(STATUS), Some(1001));
    assert_eq!(is_root_status(STATUS), Some(false));
    assert_eq!(is_root_status("Uid:\t0\t0\t0\t0\n"), Some(true));
    assert_eq!(is_root_status("Name: x\nUid: 1000 0 0 0\nUid: 5 5 5 5\n"), Some(true));
    assert_eq!(is_root_status("Uid:\t0\t1000\t1000\t1000\n"), Some(false));
    assert_eq!(euid_from_status("Name: x\n"), None);
    assert_eq!(euid_from_status("Uid: 1\n"), None);
    assert_eq!(euid_from_status("Uid: 1 x 2\n"), None);
    assert_eq!(is_root_status(""), None);
    assert_eq!(is_root_status("Name: x\n"), None);
}

#[test]
fn decimal_parsing_matches_std() {
    for s in ["0", "+0", "42", "4294967295", "4294967296", "", "+", "-1", "1a", "007", "99999999999999999999"] {
        let chars: Vec<char> = s.chars().collect();
        assert_eq!(parse_decimal_u32(&chars), s.parse::<u32>().ok(), "{:?}", s);
    }
}
