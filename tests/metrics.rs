use tegratop::metric::{
    counter_delta, duration_parts, hz_to_mhz, khz_to_mhz, kib_to_mib, load_percent, power_mw,
    utilization_tenths,
};
use tegratop::text::{parse_decimal, parse_single_signed, parse_single_value, split_lines, split_words, trim};

#[test]
fn cpu_utilization_from_interval() {
    // 100 * (1000 - 800) / 1000 = 20.0 percent, i.e. 200 tenths.
    assert_eq!(utilization_tenths(1000, 800), 200);
}

#[test]
fn cpu_utilization_of_empty_interval_is_zero() {
    assert_eq!(utilization_tenths(0, 0), 0);
    assert_eq!(utilization_tenths(10, 20), 0);
    assert_eq!(utilization_tenths(10, 0), 1000);
}

#[test]
fn utilization_rounds_down() {
    // 1000 * 2 / 3 = 666.67
    assert_eq!(utilization_tenths(3, 1), 666);
}

#[test]
fn frequency_conversions() {
    assert_eq!(khz_to_mhz(1_300_000), 1300);
    assert_eq!(hz_to_mhz(1_300_000_000), 1300);
    assert_eq!(khz_to_mhz(999), 0);
}

#[test]
fn counter_delta_exact_and_reset() {
    assert_eq!(counter_delta(204_800, 307_200), 102_400);
    assert_eq!(counter_delta(5, 5), 0);
    assert_eq!(counter_delta(10, 3), 0);
    assert_eq!(counter_delta(0, u64::MAX), u64::MAX);
}

#[test]
fn kib_to_mib_rounds_half_away_from_zero() {
    assert_eq!(kib_to_mib(8_000_000), 7813);
    assert_eq!(kib_to_mib(3_400_000), 3320);
    assert_eq!(kib_to_mib(512), 1);
    assert_eq!(kib_to_mib(511), 0);
    assert_eq!(kib_to_mib(-512), -1);
    assert_eq!(kib_to_mib(-511), 0);
}

#[test]
fn rail_power_rounds() {
    assert_eq!(power_mw(1000, 5000), 5000);
    assert_eq!(power_mw(333, 3), 1);
    assert_eq!(power_mw(100, 4), 0);
    assert_eq!(power_mw(100, 5), 1);
    assert_eq!(power_mw(u32::MAX, u32::MAX), 18_446_744_065_119_617);
}

#[test]
fn gpu_load_rounds_to_percent() {
    assert_eq!(load_percent(455), 46);
    assert_eq!(load_percent(454), 45);
    assert_eq!(load_percent(1000), 100);
}

#[test]
fn duration_split() {
    assert_eq!(duration_parts(90_061), (1, 1, 1, 1));
    assert_eq!(duration_parts(59), (0, 0, 0, 59));
    assert_eq!(duration_parts(86_400 * 3 + 3_600 * 23 + 60 * 59 + 58), (3, 23, 59, 58));
}

#[test]
fn decimal_parsing() {
    assert_eq!(parse_decimal(b"0"), Some(0));
    assert_eq!(parse_decimal(b"18446744073709551615"), Some(u64::MAX));
    assert_eq!(parse_decimal(b"18446744073709551616"), None);
    assert_eq!(parse_decimal(b""), None);
    assert_eq!(parse_decimal(b"12a"), None);
    assert_eq!(parse_single_value(b"  1300000\n"), Some(1_300_000));
    assert_eq!(parse_single_value(b"13 00\n"), None);
    assert_eq!(parse_single_value(b"\n"), None);
    assert_eq!(parse_single_signed(b"-4500\n"), Some(-4500));
    assert_eq!(parse_single_signed(b"45000\n"), Some(45000));
    assert_eq!(parse_single_signed(b"-\n"), None);
}

#[test]
fn words_and_lines() {
    let ws = split_words(b"  cpu0 1\t2\n");
    assert_eq!(ws, vec![b"cpu0".to_vec(), b"1".to_vec(), b"2".to_vec()]);
    let ls = split_lines(b"a\n\nb");
    assert_eq!(ls, vec![b"a".to_vec(), b"".to_vec(), b"b".to_vec()]);
    assert_eq!(split_lines(b"a\n"), vec![b"a".to_vec()]);
    assert!(split_lines(b"").is_empty());
    assert_eq!(trim(b" \tVDD_IN \n"), b"VDD_IN".to_vec());
    assert_eq!(trim(b"   "), Vec::<u8>::new());
}
