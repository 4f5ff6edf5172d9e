use lpm::names::{get_service_name, to_display_name, trim_end_once, trim_start_once};

#[test]
fn managed_id_prepends_prefix() {
    assert_eq!(get_service_name("nap"), "lpm-nap");
    assert_eq!(get_service_name(""), "lpm-");
}

#[test]
fn display_name_round_trip() {
    for name in ["nap", "web", "a", "my-worker", "x.y", "nap2"] {
        assert_eq!(to_display_name(&get_service_name(name)), name);
    }
}

#[test]
fn display_name_round_trip_with_prefix_inside() {
    // A name merely containing the prefix elsewhere still round-trips.
    assert_eq!(to_display_name(&get_service_name("xlpm-y")), "xlpm-y");
}

#[test]
fn display_name_strips_suffix_and_prefix() {
    assert_eq!(to_display_name("lpm-nap.service"), "nap");
    assert_eq!(to_display_name("lpm-nap"), "nap");
    assert_eq!(to_display_name("nap.service"), "nap");
    assert_eq!(to_display_name("nap"), "nap");
}

#[test]
fn stripping_is_a_no_op_when_absent() {
    assert_eq!(trim_start_once("abc", "lpm-"), "abc");
    assert_eq!(trim_end_once("abc", ".service"), "abc");
    assert_eq!(trim_start_once("lpm-lpm-a", "lpm-"), "lpm-a");
    assert_eq!(trim_end_once("a.service.service", ".service"), "a.service");
    assert_eq!(trim_start_once("", "lpm-"), "");
}
