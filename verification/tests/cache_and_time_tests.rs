use lareview::logo_cache::{load_logo_bytes, AssetStore, LogoCache};
use lareview::timestamp::{format_timestamp, timestamp_or_raw};

#[test]
fn logos_are_read_once_and_then_cached() {
    let assets = AssetStore { files: vec![("logo.svg".to_string(), vec![1, 2, 3])] };
    let mut cache = LogoCache::new();
    assert_eq!(load_logo_bytes(&mut cache, "logo.svg", &assets), Some(vec![1, 2, 3]));
    assert_eq!(cache.len(), 1);
    let changed = AssetStore { files: vec![("logo.svg".to_string(), vec![9])] };
    assert_eq!(load_logo_bytes(&mut cache, "logo.svg", &changed), Some(vec![1, 2, 3]));
    assert_eq!(load_logo_bytes(&mut cache, "missing.svg", &assets), None);
    assert_eq!(cache.len(), 1);
}

#[test]
fn timestamps_fall_back_to_the_stored_text() {
    assert_eq!(format_timestamp("now"), "now");
    assert_eq!(format_timestamp(""), "");
    let shown = format_timestamp("2024-01-01T00:00:00Z");
    assert_ne!(shown, "2024-01-01T00:00:00Z");
    assert_eq!(shown.len(), "Jan 01, 00:00".len());
    assert_eq!(timestamp_or_raw("raw", None), "raw");
    assert_eq!(timestamp_or_raw("raw", Some("label".to_string())), "label");
}

#[test]
fn accepted_timestamps_have_the_label_shape() {
    let label = format_timestamp("2024-03-05T10:20:30Z");
    let c: Vec<char> = label.chars().collect();
    assert_eq!(c.len(), 13);
    let months = ["Jan", "Feb", "Mar", "Apr", "May", "Jun", "Jul", "Aug", "Sep", "Oct", "Nov", "Dec"];
    assert!(months.contains(&&label[0..3]));
    assert_eq!((c[3], c[6], c[7], c[10]), (' ', ',', ' ', ':'));
    assert!(c[4].is_ascii_digit() && c[5].is_ascii_digit() && c[8].is_ascii_digit());
}
