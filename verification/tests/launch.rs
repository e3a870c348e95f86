use caffeinator::flags::CaffeinateFlags;
use caffeinator::launch::{launch_args, UTILITY_PATH};
use caffeinator::session::deadline;

fn set(display: bool, idle: bool, disk: bool, sleep: bool) -> CaffeinateFlags {
    CaffeinateFlags { display, idle, disk, sleep }
}

#[test]
fn flags_and_timeout() {
    let args = launch_args(set(true, true, true, true), Some(28_800));
    assert_eq!(args, vec!["-dims", "-t", "28800"]);
}

#[test]
fn empty_set_omits_the_flag_argument() {
    assert_eq!(launch_args(CaffeinateFlags::empty(), Some(60)), vec!["-t", "60"]);
}

#[test]
fn indefinite_omits_the_timeout() {
    assert_eq!(launch_args(set(true, false, false, true), None), vec!["-ds"]);
    assert!(launch_args(CaffeinateFlags::empty(), None).is_empty());
}

#[test]
fn seconds_are_written_in_decimal() {
    assert_eq!(launch_args(CaffeinateFlags::empty(), Some(0)), vec!["-t", "0"]);
    assert_eq!(launch_args(CaffeinateFlags::empty(), Some(-5)), vec!["-t", "-5"]);
    assert_eq!(
        launch_args(CaffeinateFlags::empty(), Some(i64::MAX)),
        vec!["-t", "9223372036854775807"]
    );
    assert_eq!(
        launch_args(CaffeinateFlags::empty(), Some(i64::MIN)),
        vec!["-t", "-9223372036854775808"]
    );
}

#[test]
fn launch_arguments_read_back() {
    for bits in 0u8..16 {
        let flags = set(bits & 1 != 0, bits & 2 != 0, bits & 4 != 0, bits & 8 != 0);
        for seconds in [None, Some(0), Some(3600), Some(-12)] {
            let args = launch_args(flags, seconds);
            assert_eq!(CaffeinateFlags::decode(&args), flags);
            assert_eq!(deadline(&args, 1000), seconds.map(|s| 1000 + s));
        }
    }
}

#[test]
fn utility_path_is_fixed() {
    assert_eq!(UTILITY_PATH, "/usr/bin/caffeinate");
}
