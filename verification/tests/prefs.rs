use actioneer::auth::{device_poll_schedule, poll_action, DevicePoller, PollAction, PollAnswer};
use actioneer::prefs::{
    index_to_language, index_to_refresh_interval, index_to_theme, language_to_index,
    refresh_interval_to_index, theme_to_index, LanguagePreference, ThemePreference,
};

#[test]
fn preference_rows_round_trip() {
    for theme in [ThemePreference::System, ThemePreference::Light, ThemePreference::Dark] {
        assert_eq!(index_to_theme(theme_to_index(theme)), theme);
    }
    for language in [
        LanguagePreference::System,
        LanguagePreference::En,
        LanguagePreference::ZhHans,
        LanguagePreference::Ru,
        LanguagePreference::Ur,
    ] {
        assert_eq!(index_to_language(language_to_index(language)), language);
    }
    for interval in [2, 5, 10, 30] {
        assert_eq!(index_to_refresh_interval(refresh_interval_to_index(interval)), interval);
    }
    assert_eq!(refresh_interval_to_index(7), 2);
    assert_eq!(index_to_refresh_interval(99), 10);
    assert_eq!(index_to_theme(99), ThemePreference::System);
}

#[test]
fn device_polling_is_bounded() {
    assert_eq!(device_poll_schedule(900, 5), (5, 180));
    assert_eq!(device_poll_schedule(3, 0), (1, 3));
    assert_eq!(device_poll_schedule(0, 5), (5, 1));
    let mut poller = DevicePoller::new(10, 5);
    assert_eq!(poller.next_poll(), None);
    assert_eq!(poller.next_poll(), None);
    assert_eq!(poller.next_poll().as_deref(), Some("Authentication timeout"));
    assert!(matches!(poll_action(PollAnswer::Pending), PollAction::PollAgain));
    match poll_action(PollAnswer::AccessDenied) {
        PollAction::Failed(m) => assert_eq!(m, "Access denied"),
        _ => panic!("a refusal stops the flow"),
    }
}
