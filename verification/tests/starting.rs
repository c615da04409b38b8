use sheepnet::startup::decide;
use sheepnet::startup::describe;
use sheepnet::startup::parse_unsigned;
use sheepnet::startup::plan_startup;
use sheepnet::startup::ConfigError;
use sheepnet::startup::Environment;
use sheepnet::startup::Plan;
use sheepnet::startup::Request;
use sheepnet::Instant;
use sheepnet::OutputFormat;

fn request(format: OutputFormat) -> Request {
    Request { in_loop: false, at_once: false, channel: None, format, at_time: None }
}

fn environment(has_token: bool, channel: Option<&str>) -> Environment {
    Environment { has_token, channel: channel.map(|text| text.to_string()) }
}

#[test]
fn a_text_form_needs_no_credential() {
    let plan = plan_startup(&request(OutputFormat::Txt), &environment(false, None)).unwrap();
    assert_eq!(
        plan,
        Plan::Text { format: OutputFormat::Txt, run_once: true, immediate: false, simulated: None }
    );
    let looping = Request { in_loop: true, at_once: true, ..request(OutputFormat::Html) };
    assert_eq!(
        plan_startup(&looping, &environment(true, Some("5"))).unwrap(),
        Plan::Text { format: OutputFormat::Html, run_once: false, immediate: true, simulated: None }
    );
}

#[test]
fn a_simulated_time_runs_once_and_at_once() {
    let asked = Request {
        in_loop: true,
        at_time: Some("2025-11-25T17:00:00".to_string()),
        ..request(OutputFormat::Md)
    };
    let plan = plan_startup(&asked, &environment(false, None)).unwrap();
    assert_eq!(
        plan,
        Plan::Text {
            format: OutputFormat::Md,
            run_once: true,
            immediate: true,
            simulated: Instant::from_unix_seconds(1_764_090_000),
        }
    );
}

#[test]
fn a_simulated_time_must_be_a_time() {
    for text in ["", "tomorrow", "2025-11-25", "2025-11-25 17:00:00", "2025-13-01T00:00:00", "2025-02-30T00:00:00",
        "2025-11-25T24:00:00", "2025-11-25T17:00:00Z"]
    {
        let asked = Request { at_time: Some(text.to_string()), ..request(OutputFormat::Txt) };
        assert_eq!(
            plan_startup(&asked, &environment(true, Some("1"))).unwrap_err(),
            ConfigError::InvalidTime,
            "for {:?}",
            text
        );
    }
    let asked = Request { at_time: Some("soon".to_string()), ..request(OutputFormat::Discord) };
    let error = plan_startup(&asked, &environment(true, Some("1"))).unwrap_err();
    assert_eq!(error, ConfigError::InvalidTime);
    assert_eq!(describe(error, &asked), "Invalid time format: soon. Use YYYY-MM-DDTHH:MM:SS");
}

#[test]
fn a_simulated_time_must_be_within_reach() {
    let plain = request(OutputFormat::Txt);
    let nothing = environment(false, None);
    let earliest = -8_334_601_228_800;
    let latest = 8_210_266_876_799;
    assert!(decide(&plain, &nothing, Some(Some(earliest + 86_400))).is_ok());
    assert!(decide(&plain, &nothing, Some(Some(earliest + 57_605))).is_ok());
    assert!(decide(&plain, &nothing, Some(Some(latest))).is_ok());
    assert_eq!(decide(&plain, &nothing, Some(Some(earliest + 57_604))), Err(ConfigError::InvalidTime));
    assert_eq!(decide(&plain, &nothing, Some(Some(earliest))), Err(ConfigError::InvalidTime));
    assert_eq!(decide(&plain, &nothing, Some(Some(earliest - 1))), Err(ConfigError::InvalidTime));
    assert_eq!(decide(&plain, &nothing, Some(Some(latest + 1))), Err(ConfigError::InvalidTime));
    assert_eq!(decide(&plain, &nothing, Some(Some(i64::MIN))), Err(ConfigError::InvalidTime));
    assert_eq!(decide(&plain, &nothing, Some(Some(i64::MAX))), Err(ConfigError::InvalidTime));
    assert_eq!(decide(&plain, &nothing, Some(None)), Err(ConfigError::InvalidTime));
}

#[test]
fn the_chat_form_takes_no_simulated_time() {
    let asked = Request {
        at_time: Some("2025-11-25T17:00:00".to_string()),
        channel: Some(7),
        ..request(OutputFormat::Discord)
    };
    let error = plan_startup(&asked, &environment(true, None)).unwrap_err();
    assert_eq!(error, ConfigError::SimulatedChat);
    assert_eq!(
        describe(error, &asked),
        "--at-time is not supported with Discord output format. Use --output-format txt/md/html instead."
    );
}

#[test]
fn the_chat_form_needs_its_credential_and_a_channel() {
    let asked = request(OutputFormat::Discord);
    let error = plan_startup(&asked, &environment(false, Some("7"))).unwrap_err();
    assert_eq!(error, ConfigError::TokenMissing);
    assert_eq!(describe(error, &asked), "TOKEN environment variable not set");
    let error = plan_startup(&asked, &environment(true, None)).unwrap_err();
    assert_eq!(error, ConfigError::ChannelMissing);
    assert_eq!(describe(error, &asked), "CHANNEL_ID environment variable not set");
    for text in ["", "seven", "7 ", " 7", "-7", "7.0", "0", "+", "18446744073709551616", "٧"] {
        let error = plan_startup(&asked, &environment(true, Some(text))).unwrap_err();
        assert_eq!(error, ConfigError::ChannelInvalid, "for {:?}", text);
        assert_eq!(describe(error, &asked), "CHANNEL_ID must be a valid number");
    }
    let zero = Request { channel: Some(0), ..request(OutputFormat::Discord) };
    assert_eq!(
        plan_startup(&zero, &environment(true, Some("7"))).unwrap_err(),
        ConfigError::ChannelInvalid
    );
}

#[test]
fn the_channel_of_the_command_line_comes_first() {
    let asked = Request { channel: Some(42), in_loop: true, ..request(OutputFormat::Discord) };
    assert_eq!(
        plan_startup(&asked, &environment(true, Some("nonsense"))).unwrap(),
        Plan::Chat { channel: 42, run_once: false, immediate: false }
    );
    let asked = Request { at_once: true, ..request(OutputFormat::Discord) };
    assert_eq!(
        plan_startup(&asked, &environment(true, Some("1234567890123456789"))).unwrap(),
        Plan::Chat { channel: 1_234_567_890_123_456_789, run_once: true, immediate: true }
    );
}

#[test]
fn numbers_are_read_as_the_standard_library_reads_them() {
    let samples = [
        "", "0", "7", "+7", "++7", "+", "-1", "007", "18446744073709551615", "18446744073709551616",
        "18446744073709551620", "99999999999999999999", "1844674407370955161", "184467440737095516150",
        "12a", "a12", "1 2", " 12", "12 ", "1_000", "0x10", "１２", "+0", "+18446744073709551615",
        "+18446744073709551616", "000000000000000000000000018446744073709551615",
    ];
    for text in samples {
        assert_eq!(parse_unsigned(text), text.parse::<u64>().ok(), "for {:?}", text);
    }
    let mut state: u64 = 99;
    for _ in 0..5_000 {
        state = state.wrapping_mul(6_364_136_223_846_793_005).wrapping_add(1_442_695_040_888_963_407);
        let text = (state >> (state % 64)).to_string();
        assert_eq!(parse_unsigned(&text), Some(text.parse::<u64>().unwrap()));
        let longer = format!("{}{}", text, state % 10);
        assert_eq!(parse_unsigned(&longer), longer.parse::<u64>().ok(), "for {:?}", longer);
    }
}
