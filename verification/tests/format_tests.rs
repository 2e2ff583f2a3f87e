use chrono::{DateTime, NaiveDate, TimeDelta, Utc};
use phantom_cap::decimal::i64_to_decimal;
use phantom_cap::format::{
    format_time_ago, phantom_cap_url, UtcTime, phantom_package_url, short_sui_object_id, sui_address_url,
    sui_checkpoint_url, sui_object_url, sui_package_url, sui_tx_url,
};
use phantom_cap::route::{search_route, Route};

const OBJECT_ID: &str = "0x5d4b302506645c37ff133b98c4b50a5ae14841659738d6d733d59d0d217a93bf";

#[test]
fn short_id_keeps_first_eight_and_last_six() {
    let short = short_sui_object_id(OBJECT_ID);
    assert_eq!(short, "0x5d4b30...7a93bf");
    assert_eq!(short.len(), 17);
}

#[test]
fn short_id_leaves_fourteen_bytes_alone() {
    assert_eq!(short_sui_object_id("0x1234567890ab"), "0x1234567890ab");
    assert_eq!(short_sui_object_id(""), "");
    assert_eq!(short_sui_object_id("0x2"), "0x2");
}

#[test]
fn short_id_of_fifteen_bytes() {
    assert_eq!(short_sui_object_id("abcdefghijklmno"), "abcdefgh...jklmno");
}

#[test]
fn short_id_counts_bytes_not_characters() {
    // 12 characters but 15 bytes: "é" takes two bytes in UTF-8.
    let long = "éééabcdefghi";
    assert_eq!(long.chars().count(), 12);
    assert_eq!(long.len(), 15);
    assert_eq!(short_sui_object_id(long), "éééab...defghi");
}

#[test]
fn explorer_links() {
    assert_eq!(sui_tx_url("9xTx"), "https://suivision.xyz/txblock/9xTx");
    assert_eq!(sui_package_url("0x2"), "https://suivision.xyz/package/0x2");
    assert_eq!(sui_address_url("0xabc"), "https://suivision.xyz/account/0xabc");
    assert_eq!(sui_object_url(OBJECT_ID), format!("https://suivision.xyz/object/{}", OBJECT_ID));
}

#[test]
fn checkpoint_links_are_decimal() {
    assert_eq!(sui_checkpoint_url(&123456789), "https://suivision.xyz/checkpoint/123456789");
    assert_eq!(sui_checkpoint_url(&0), "https://suivision.xyz/checkpoint/0");
    assert_eq!(sui_checkpoint_url(&-42), "https://suivision.xyz/checkpoint/-42");
}

#[test]
fn site_links() {
    assert_eq!(phantom_cap_url("0xcap"), "/object/0xcap");
    assert_eq!(phantom_package_url("0xpkg"), "/package/0xpkg");
}

#[test]
fn decimal_matches_display() {
    for n in [0i64, 7, 10, 99, 100, -1, -10, 1_000_000_007, i64::MAX, i64::MIN] {
        assert_eq!(i64_to_decimal(n), n.to_string());
    }
}

fn at(secs: i64, nanos: u32) -> UtcTime {
    UtcTime { secs, nanos }
}

fn utc(dt: &DateTime<Utc>) -> UtcTime {
    UtcTime { secs: dt.timestamp(), nanos: dt.timestamp_subsec_nanos() }
}

/// The relative time as chrono computes it on the two instants.
fn chrono_time_ago(timestamp: &DateTime<Utc>, current: &DateTime<Utc>) -> String {
    let diff = current.signed_duration_since(timestamp);
    if diff.num_days() > 0 {
        format!("{}d ago", diff.num_days())
    } else if diff.num_hours() > 0 {
        format!("{}h ago", diff.num_hours())
    } else {
        format!("{}m ago", diff.num_minutes())
    }
}

#[test]
fn time_ago_in_days() {
    let day = 86_400i64;
    assert_eq!(format_time_ago(&at(0, 0), &at(3 * day, 5)), "3d ago");
    assert_eq!(format_time_ago(&at(1_700_000_000, 0), &at(1_700_000_000 + day, 0)), "1d ago");
}

#[test]
fn time_ago_in_hours() {
    let hour = 3_600i64;
    assert_eq!(format_time_ago(&at(0, 0), &at(23 * hour + 59 * 60, 0)), "23h ago");
    assert_eq!(format_time_ago(&at(10, 0), &at(10 + hour, 0)), "1h ago");
}

#[test]
fn time_ago_in_minutes() {
    assert_eq!(format_time_ago(&at(0, 0), &at(59 * 60 + 59, 999_000_000)), "59m ago");
    assert_eq!(format_time_ago(&at(0, 0), &at(59, 999_999_999)), "0m ago");
    assert_eq!(format_time_ago(&at(0, 0), &at(0, 0)), "0m ago");
}

#[test]
fn time_ago_in_the_future_counts_minutes_toward_zero() {
    // A timestamp after `current` never has positive days or hours.
    assert_eq!(format_time_ago(&at(5 * 60, 1_000_000), &at(0, 0)), "-5m ago");
    assert_eq!(format_time_ago(&at(3 * 86_400, 0), &at(0, 0)), "-4320m ago");
    // 59.9999995 seconds in the future is no whole minute yet.
    assert_eq!(format_time_ago(&at(60, 0), &at(0, 500)), "0m ago");
}

#[test]
fn time_ago_matches_chrono() {
    let base = NaiveDate::from_ymd_opt(2024, 5, 17).unwrap().and_hms_nano_opt(12, 30, 0, 250_000_000).unwrap().and_utc();
    let offsets_ns: [i64; 12] = [
        0,
        1,
        -1,
        59_999_999_500,
        -59_999_999_500,
        60_000_000_000,
        -60_000_000_001,
        3_599_999_999_999,
        3_600_000_000_000,
        86_399_999_999_999,
        86_400_000_000_000,
        -86_400_000_000_001,
    ];
    for a in offsets_ns {
        for b in offsets_ns {
            let ts = base + TimeDelta::nanoseconds(a);
            let cur = base + TimeDelta::nanoseconds(b) + TimeDelta::days(2) * (b.signum() as i32);
            assert_eq!(format_time_ago(&utc(&ts), &utc(&cur)), chrono_time_ago(&ts, &cur));
        }
    }
}

#[test]
fn time_ago_across_a_leap_second() {
    let leap = NaiveDate::from_ymd_opt(2016, 12, 31).unwrap().and_hms_nano_opt(23, 59, 59, 1_500_000_000).unwrap().and_utc();
    assert_eq!(utc(&leap).nanos, 1_500_000_000);
    let before = NaiveDate::from_ymd_opt(2016, 12, 31).unwrap().and_hms_nano_opt(23, 59, 0, 0).unwrap().and_utc();
    let after = NaiveDate::from_ymd_opt(2017, 1, 1).unwrap().and_hms_nano_opt(0, 0, 59, 700_000_000).unwrap().and_utc();
    let same_day_later = NaiveDate::from_ymd_opt(2016, 12, 31).unwrap().and_hms_nano_opt(0, 0, 0, 0).unwrap().and_utc();
    for (ts, cur) in [
        (before, leap),
        (leap, before),
        (leap, after),
        (after, leap),
        (same_day_later, leap),
        (leap, same_day_later),
        (leap, leap),
    ] {
        assert_eq!(format_time_ago(&utc(&ts), &utc(&cur)), chrono_time_ago(&ts, &cur));
    }
}

#[test]
fn search_leads_to_the_cap_page() {
    match search_route("0xabc") {
        Some(Route::UpgradeCap { id }) => assert_eq!(id, "0xabc"),
        _ => panic!("expected the cap page"),
    }
    assert!(search_route("").is_none());
}

#[test]
fn different_checkpoints_have_different_links() {
    let numbers = [0i64, 1, 10, 100, -1, -10, 12, 21, i64::MAX, i64::MIN];
    for a in numbers {
        for b in numbers {
            assert_eq!(a == b, sui_checkpoint_url(&a) == sui_checkpoint_url(&b));
        }
    }
}

#[test]
fn different_ids_have_different_links() {
    assert_ne!(sui_object_url("0xa"), sui_object_url("0xab"));
    assert_ne!(phantom_cap_url("0x1"), phantom_cap_url("0x2"));
}

#[test]
fn ascii_ids_shorten_to_seventeen_characters() {
    for len in 15..80 {
        let id: String = std::iter::repeat('a').take(len - 1).chain(std::iter::once('z')).collect();
        let short = short_sui_object_id(&id);
        assert_eq!(short.chars().count(), 17);
        assert!(short.starts_with("aaaaaaaa..."));
        assert!(short.ends_with("aaaaaz"));
    }
}
