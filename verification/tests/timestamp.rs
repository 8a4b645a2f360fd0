use sotachaser::timestamp::format_time;

#[test]
fn time_of_day_of_a_full_timestamp() {
    assert_eq!(format_time("2024-05-01T12:34:56.000Z"), "12:34:56");
    assert_eq!(format_time("2024-05-01T12:34:56Z"), "12:34:56");
    assert_eq!(format_time("2024-05-01T12:34:56"), "12:34:56");
}

#[test]
fn zone_offsets_are_cut_off() {
    assert_eq!(format_time("2024-05-01T12:34:56+02:00"), "12:34:56");
    assert_eq!(format_time("2024-05-01T12:34:56-05:00"), "12:34:56");
}

#[test]
fn text_without_time_mark_stands_for_itself() {
    assert_eq!(format_time("12:34:56"), "12:34:56");
    assert_eq!(format_time("2024-05-01 12:34Z"), "2024-05-01 12:34Z");
    assert_eq!(format_time(""), "");
}

#[test]
fn only_the_first_time_mark_counts() {
    assert_eq!(format_time("aTbTc"), "bTc");
    assert_eq!(format_time("T"), "");
    assert_eq!(format_time("xT"), "");
}

#[test]
fn trailing_zulus_go_before_the_cut() {
    assert_eq!(format_time("dTZZZ"), "");
    assert_eq!(format_time("dT12ZZ"), "12");
    assert_eq!(format_time("dT12Z.5Z"), "12Z");
    assert_eq!(format_time("dT.5"), "");
}
