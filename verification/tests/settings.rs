use digital_sign::clock::{Moment, Span};
use digital_sign::config::Settings;

#[test]
fn default_settings() {
    let settings = Settings::default();
    assert_eq!(settings.api_url, "https://api.rockvilletollandsda.church");
    assert_eq!(settings.window_width, 1920);
    assert_eq!(settings.window_height, 1080);
    assert_eq!(settings.slide_interval_seconds, 10);
    assert_eq!(settings.refresh_interval_minutes, 5);
}

#[test]
fn intervals_of_the_default_settings() {
    let settings = Settings::default();
    assert_eq!(settings.slide_interval(), Span::from_secs(10));
    assert_eq!(settings.slide_interval().as_nanos(), 10_000_000_000);
    assert_eq!(settings.refresh_interval(), Span::from_secs(300));
    assert_eq!(settings.refresh_interval().as_nanos(), 300_000_000_000);
}

#[test]
fn the_longest_intervals_fit() {
    let mut settings = Settings::default();
    settings.slide_interval_seconds = u64::MAX;
    settings.refresh_interval_minutes = u64::MAX;
    assert_eq!(settings.slide_interval().as_nanos(), u64::MAX as u128 * 1_000_000_000);
    assert_eq!(settings.refresh_interval().as_nanos(), u64::MAX as u128 * 60_000_000_000);
}

#[test]
fn spans_and_moments() {
    assert_eq!(Span::from_millis(1500).as_nanos(), 1_500_000_000);
    assert_eq!(Span::from_minutes(2), Span::from_secs(120));
    assert_eq!(Span::from_nanos(5).as_nanos(), 5);
    assert_eq!(Moment::from_millis(2).as_nanos(), 2_000_000);
    assert_eq!(Moment::from_secs(3).since(Moment::from_secs(1)), Span::from_secs(2));
    assert_eq!(Moment::from_secs(1).since(Moment::from_secs(3)), Span::from_nanos(0));
    assert!(Span::from_secs(2).at_least(Span::from_secs(2)));
    assert!(!Span::from_secs(2).at_least(Span::from_nanos(2_000_000_001)));
}
