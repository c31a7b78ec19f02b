use screen_timer::config::AppConfig;
use screen_timer::ipc::{config_dir, images_dir};
use screen_timer::text::join_path;

#[test]
fn join_path_like_path_join() {
    assert_eq!(join_path("/home/u", ".config"), "/home/u/.config");
    assert_eq!(join_path("/home/u/", ".config"), "/home/u/.config");
    assert_eq!(join_path("", "a"), "a");
    assert_eq!(join_path("/home/u", "/etc"), "/etc");
    assert_eq!(
        join_path("/home/u", "x"),
        std::path::Path::new("/home/u").join("x").to_string_lossy()
    );
}

#[test]
fn settings_locations() {
    assert_eq!(config_dir(Some("/home/u")), "/home/u/.config/screen-timer");
    assert_eq!(config_dir(None), "/tmp/screen-timer-config");
    assert_eq!(images_dir(Some("/home/u")), "/home/u/.config/screen-timer/images");
    assert_eq!(images_dir(None), "/tmp/screen-timer-config/images");
    assert_eq!(
        AppConfig::config_path("/home/u/.config/screen-timer"),
        "/home/u/.config/screen-timer/config.json"
    );
}
