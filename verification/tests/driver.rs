use sotachaser::error::SerialError;
use sotachaser::kenwood::{
    frequency_command_for, mode_code_for, mode_command_for, mode_form_of, mode_steps,
    next_driver_step, push_padded_decimal, query_steps, same_mode_form, tune_steps, vfo_steps,
    DriverRun, DriverStep, Vfo, COMMAND_PAUSE_MS, FREQUENCY_DIGITS,
};
use sotachaser::range::{FrequencyRange, TuneError, DEFAULT_MAX_HZ, DEFAULT_MIN_HZ};
use sotachaser::serial::{
    ConnectEvent, ConnectStep, KenwoodDriver, SerialManager, WriteEvent, WriteStep, TEST_TUNE_HZ,
};

fn open_link() -> SerialManager {
    let mut serial = SerialManager::new();
    assert_eq!(serial.connect(9600, ConnectEvent::Opened), ConnectStep::Done(Ok(())));
    serial
}

fn send(command: &str) -> DriverStep {
    DriverStep::Send(command.to_string())
}

fn pause() -> DriverStep {
    DriverStep::Pause { millis: 80 }
}

fn commands(steps: &[DriverStep]) -> Vec<String> {
    let mut out: Vec<String> = Vec::new();
    for step in steps {
        if let DriverStep::Send(command) = step {
            out.push(command.clone());
        }
    }
    out
}

#[test]
fn tune_sends_vfo_frequency_and_mode_in_order() {
    let serial = open_link();
    let steps = KenwoodDriver::tune(&serial, 14_062_000, "CW").unwrap();
    assert_eq!(commands(&steps), vec!["FR0;", "FT0;", "FA00014062000;", "MD3;"]);
    assert_eq!(
        steps,
        vec![send("FR0;"), send("FT0;"), pause(), send("FA00014062000;"), pause(), send("MD3;")]
    );
}

#[test]
fn test_tune_is_tune_to_14_062_mhz_in_cw() {
    let serial = open_link();
    assert_eq!(TEST_TUNE_HZ, 14_062_000);
    assert_eq!(
        KenwoodDriver::test_tune(&serial),
        KenwoodDriver::tune(&serial, 14_062_000, "CW")
    );
    assert_eq!(KenwoodDriver::test_tune(&SerialManager::new()), Err(SerialError::NotConnected));
}

#[test]
fn manager_and_driver_tune_alike() {
    let serial = open_link();
    assert_eq!(
        serial.tune_kenwood_ts570(7_032_000, "lsb"),
        KenwoodDriver::tune(&serial, 7_032_000, "lsb")
    );
    assert_eq!(
        commands(&serial.tune_kenwood_ts570(7_032_000, "lsb").unwrap()),
        vec!["FR0;", "FT0;", "FA00007032000;", "MD1;"]
    );
}

#[test]
fn tune_without_a_port_sends_nothing() {
    let serial = SerialManager::new();
    assert_eq!(KenwoodDriver::tune(&serial, 14_062_000, "CW"), Err(SerialError::NotConnected));
    assert_eq!(serial.tune_kenwood_ts570(14_062_000, "CW"), Err(SerialError::NotConnected));
}

#[test]
fn pause_between_commands_is_80_ms() {
    assert_eq!(COMMAND_PAUSE_MS, 80);
}

#[test]
fn tune_outside_the_range_is_turned_down_and_sends_nothing() {
    let serial = open_link();
    let range = FrequencyRange::new(7_000_000, 29_700_000);
    assert_eq!(
        KenwoodDriver::tune_within(&serial, &range, 6_999_999, "CW"),
        Err(TuneError::OutOfRange)
    );
    assert_eq!(
        KenwoodDriver::tune_within(&serial, &range, 29_700_001, "CW"),
        Err(TuneError::OutOfRange)
    );
    assert_eq!(
        KenwoodDriver::tune_within(&serial, &range, 3_560_000, "CW"),
        Err(TuneError::OutOfRange)
    );
    assert_eq!(
        KenwoodDriver::tune_within(&SerialManager::new(), &range, 3_560_000, "CW"),
        Err(TuneError::OutOfRange)
    );
}

#[test]
fn tune_inside_the_range_is_the_plain_tune() {
    let serial = open_link();
    let range = FrequencyRange::new(7_000_000, 29_700_000);
    for freq_hz in [7_000_000u64, 14_062_000, 29_700_000] {
        assert_eq!(
            KenwoodDriver::tune_within(&serial, &range, freq_hz, "CW"),
            Ok(KenwoodDriver::tune(&serial, freq_hz, "CW").unwrap())
        );
    }
}

#[test]
fn tune_inside_the_range_without_a_port_reports_the_link() {
    let range = FrequencyRange::new(7_000_000, 29_700_000);
    assert_eq!(
        KenwoodDriver::tune_within(&SerialManager::new(), &range, 14_062_000, "CW"),
        Err(TuneError::Serial(SerialError::NotConnected))
    );
}

#[test]
fn range_includes_both_ends() {
    let range = FrequencyRange::new(100, 200);
    assert!(!range.allows(99));
    assert!(range.allows(100));
    assert!(range.allows(150));
    assert!(range.allows(200));
    assert!(!range.allows(201));
}

#[test]
fn inverted_range_allows_nothing() {
    let range = FrequencyRange::new(200, 100);
    assert!(!range.allows(100));
    assert!(!range.allows(150));
    assert!(!range.allows(200));
}

#[test]
fn default_range_is_7_to_29_7_mhz() {
    assert_eq!(DEFAULT_MIN_HZ, 7_000_000);
    assert_eq!(DEFAULT_MAX_HZ, 29_700_000);
    assert_eq!(FrequencyRange::default(), FrequencyRange { min_hz: 7_000_000, max_hz: 29_700_000 });
}

#[test]
fn mode_table_has_its_codes() {
    let table = [
        ("LSB", '1'),
        ("USB", '2'),
        ("CW", '3'),
        ("FM", '4'),
        ("AM", '5'),
        ("SSB", '2'),
        ("FT8", '2'),
        ("FT4", '2'),
        ("PSK31", '2'),
        ("RTTY", '2'),
    ];
    for (name, code) in table {
        assert_eq!(mode_code_for(name), code);
        assert_eq!(mode_command_for(name), format!("MD{};", code));
    }
}

#[test]
fn unknown_mode_names_get_the_code_of_usb() {
    for name in ["", "DSTAR", "C", "CWR", "LS", "LSBX", "XLSB", "A M", "MD3;"] {
        assert_eq!(mode_code_for(name), '2');
    }
}

#[test]
fn mode_code_wants_upper_case() {
    assert_eq!(mode_code_for("cw"), '2');
    assert_eq!(mode_code_for("Lsb"), '2');
}

#[test]
fn set_mode_ignores_letter_case() {
    let serial = open_link();
    assert_eq!(KenwoodDriver::set_mode(&serial, "cw"), KenwoodDriver::set_mode(&serial, "CW"));
    assert_eq!(KenwoodDriver::set_mode(&serial, "cw"), Ok(vec![send("MD3;")]));
    assert_eq!(KenwoodDriver::set_mode(&serial, "Lsb"), Ok(vec![send("MD1;")]));
    assert_eq!(KenwoodDriver::set_mode(&serial, "fM"), Ok(vec![send("MD4;")]));
    assert_eq!(KenwoodDriver::set_mode(&serial, "am"), Ok(vec![send("MD5;")]));
    assert_eq!(KenwoodDriver::set_mode(&serial, "usb"), Ok(vec![send("MD2;")]));
    assert_eq!(KenwoodDriver::set_mode(&serial, "ft8"), Ok(vec![send("MD2;")]));
    assert_eq!(KenwoodDriver::set_mode(&serial, "nonsense"), Ok(vec![send("MD2;")]));
}

#[test]
fn tune_ignores_letter_case_of_the_mode() {
    let serial = open_link();
    assert_eq!(
        KenwoodDriver::tune(&serial, 14_062_000, "cw"),
        KenwoodDriver::tune(&serial, 14_062_000, "CW")
    );
}

#[test]
fn set_mode_without_a_port_sends_nothing() {
    assert_eq!(
        KenwoodDriver::set_mode(&SerialManager::new(), "CW"),
        Err(SerialError::NotConnected)
    );
}

#[test]
fn vfo_selection_sends_receive_then_transmit() {
    let serial = open_link();
    assert_eq!(KenwoodDriver::set_vfo_a(&serial), Ok(vec![send("FR0;"), send("FT0;")]));
    assert_eq!(KenwoodDriver::set_vfo_b(&serial), Ok(vec![send("FR1;"), send("FT1;")]));
    assert_eq!(vfo_steps(Vfo::A), vec![send("FR0;"), send("FT0;")]);
    assert_eq!(vfo_steps(Vfo::B), vec![send("FR1;"), send("FT1;")]);
}

#[test]
fn vfo_selection_without_a_port_sends_nothing() {
    let serial = SerialManager::new();
    assert_eq!(KenwoodDriver::set_vfo_a(&serial), Err(SerialError::NotConnected));
    assert_eq!(KenwoodDriver::set_vfo_b(&serial), Err(SerialError::NotConnected));
}

#[test]
fn query_frequency_asks_then_reads_once() {
    let serial = open_link();
    assert_eq!(KenwoodDriver::query_frequency(&serial), Ok(vec![send("FA;"), DriverStep::Read]));
    assert_eq!(query_steps(), vec![send("FA;"), DriverStep::Read]);
    assert_eq!(
        KenwoodDriver::query_frequency(&SerialManager::new()),
        Err(SerialError::NotConnected)
    );
}

#[test]
fn driver_send_raw_is_the_managers_write() {
    let serial = open_link();
    assert_eq!(
        KenwoodDriver::send_raw(&serial, "PS1;", WriteEvent::Start { writable: true }),
        WriteStep::Transmit(b"PS1;".to_vec())
    );
    assert_eq!(
        KenwoodDriver::send_raw(&serial, "no terminator", WriteEvent::Start { writable: true }),
        WriteStep::Transmit(b"no terminator".to_vec())
    );
    assert_eq!(
        KenwoodDriver::send_raw(&SerialManager::new(), "PS1;", WriteEvent::Start { writable: true }),
        WriteStep::Done(Err(SerialError::NotConnected))
    );
}

#[test]
fn frequency_is_eleven_digits_padded_with_zeros() {
    assert_eq!(FREQUENCY_DIGITS, 11);
    assert_eq!(frequency_command_for(14_062_000), "FA00014062000;");
    assert_eq!(frequency_command_for(0), "FA00000000000;");
    assert_eq!(frequency_command_for(7), "FA00000000007;");
    assert_eq!(frequency_command_for(1_296_000_000), "FA01296000000;");
    assert_eq!(frequency_command_for(99_999_999_999), "FA99999999999;");
}

#[test]
fn frequency_with_more_than_eleven_digits_keeps_them_all() {
    assert_eq!(frequency_command_for(100_000_000_000), "FA100000000000;");
    assert_eq!(frequency_command_for(u64::MAX), "FA18446744073709551615;");
}

#[test]
fn frequency_formatting_matches_the_standard_formatting() {
    for freq_hz in [0u64, 9, 10, 99, 100, 1_000, 123_456_789, 10_000_000_000, 12_345_678_901] {
        assert_eq!(frequency_command_for(freq_hz), format!("FA{:011};", freq_hz));
    }
}

#[test]
fn padded_decimal_is_appended_behind_what_is_there() {
    let mut text = String::from("x=");
    push_padded_decimal(&mut text, 42, 5);
    assert_eq!(text, "x=00042");
    push_padded_decimal(&mut text, 0, 0);
    assert_eq!(text, "x=000420");
    push_padded_decimal(&mut text, 123, 1);
    assert_eq!(text, "x=000420123");
    push_padded_decimal(&mut text, 5, 1);
    assert_eq!(text, "x=0004201235");
}

#[test]
fn plans_for_an_upper_case_mode_name() {
    assert_eq!(mode_steps("AM"), vec![send("MD5;")]);
    assert_eq!(
        tune_steps(3_560_000, "FM"),
        vec![send("FR0;"), send("FT0;"), pause(), send("FA00003560000;"), pause(), send("MD4;")]
    );
}

#[test]
fn mode_form_of_an_ascii_name_is_its_upper_case() {
    assert_eq!(mode_form_of("cw"), "CW");
    assert_eq!(mode_form_of("Lsb"), "LSB");
    assert_eq!(mode_form_of("psk31"), "PSK31");
    assert_eq!(mode_form_of("a-z{`@[~"), "A-Z{`@[~");
    assert_eq!(mode_form_of(""), "");
}

#[test]
fn mode_form_agrees_with_the_standard_upper_case() {
    let mut code: u32 = 0;
    while code < 128 {
        let name = char::from_u32(code).unwrap().to_string();
        assert_eq!(mode_form_of(&name), name.to_uppercase());
        code += 1;
    }
    for name in ["cw", "Lsb", "ft8", "tschüß", "lſb", "ﬁ", "ÀÉÎ", "日本語", "cẘ"] {
        assert_eq!(mode_form_of(name), name.to_uppercase());
    }
}

#[test]
fn names_outside_ascii_are_looked_up_by_their_unicode_upper_case() {
    let serial = open_link();
    assert_eq!(mode_form_of("lſb"), "LSB");
    assert_eq!(KenwoodDriver::set_mode(&serial, "lſb"), Ok(vec![send("MD1;")]));
    assert_eq!(KenwoodDriver::set_mode(&serial, "çw"), Ok(vec![send("MD2;")]));
}

#[test]
fn same_mode_form_tells_case_variants_from_other_names() {
    assert!(same_mode_form("cw", "CW"));
    assert!(same_mode_form("Lsb", "lSB"));
    assert!(same_mode_form("lſb", "LSB"));
    assert!(same_mode_form("", ""));
    assert!(!same_mode_form("cw", "cwr"));
    assert!(!same_mode_form("am", "fm"));
}

#[test]
fn every_case_variant_of_a_mode_name_gives_one_command() {
    let serial = open_link();
    for name in ["LSB", "USB", "CW", "FM", "AM", "SSB", "FT8", "FT4", "PSK31", "RTTY", "other"] {
        let expected = KenwoodDriver::set_mode(&serial, name);
        assert_eq!(KenwoodDriver::set_mode(&serial, &name.to_ascii_lowercase()), expected);
        assert_eq!(KenwoodDriver::set_mode(&serial, &name.to_ascii_uppercase()), expected);
        let mixed: String = name
            .chars()
            .enumerate()
            .map(|(i, c)| if i % 2 == 0 { c.to_ascii_lowercase() } else { c.to_ascii_uppercase() })
            .collect();
        assert_eq!(KenwoodDriver::set_mode(&serial, &mixed), expected);
    }
}

#[test]
fn run_takes_the_steps_in_order_and_ends_with_ok() {
    let steps = tune_steps(14_062_000, "CW");
    assert_eq!(steps.len(), 6);
    let mut done: usize = 0;
    while done < 6 {
        assert_eq!(next_driver_step(&steps, done, Ok(())), DriverRun::Perform { index: done });
        done += 1;
    }
    assert_eq!(next_driver_step(&steps, 6, Ok(())), DriverRun::Done(Ok(())));
    assert_eq!(next_driver_step(&steps, 7, Ok(())), DriverRun::Done(Ok(())));
}

#[test]
fn run_ends_at_the_first_step_that_fails() {
    let steps = tune_steps(14_062_000, "CW");
    let mut done: usize = 0;
    while done <= 6 {
        for error in [SerialError::NotConnected, SerialError::NotWritable, SerialError::IoError] {
            assert_eq!(next_driver_step(&steps, done, Err(error)), DriverRun::Done(Err(error)));
        }
        done += 1;
    }
}

#[test]
fn failed_query_write_makes_no_read() {
    let steps = query_steps();
    assert_eq!(next_driver_step(&steps, 0, Ok(())), DriverRun::Perform { index: 0 });
    assert_eq!(
        next_driver_step(&steps, 1, Err(SerialError::IoError)),
        DriverRun::Done(Err(SerialError::IoError))
    );
    assert_eq!(next_driver_step(&steps, 1, Ok(())), DriverRun::Perform { index: 1 });
    assert_eq!(
        next_driver_step(&steps, 2, Err(SerialError::NotReadable)),
        DriverRun::Done(Err(SerialError::NotReadable))
    );
    assert_eq!(next_driver_step(&steps, 2, Ok(())), DriverRun::Done(Ok(())));
}

#[test]
fn run_of_no_steps_is_over_at_once() {
    let steps: Vec<DriverStep> = Vec::new();
    assert_eq!(next_driver_step(&steps, 0, Ok(())), DriverRun::Done(Ok(())));
}
