use trimbot::config::{
    get_ffmpeg_path, EngineConfig, FFMPEG_TIMEOUT_LONG, FFMPEG_TIMEOUT_SECS, FFMPEG_TIMEOUT_SHORT,
};
use trimbot::error::ErrorKind;

#[test]
fn path_is_unset_at_first() {
    let config = EngineConfig::new();
    let err = get_ffmpeg_path(&config).unwrap_err();
    assert_eq!(err.kind, ErrorKind::Configuration);
    assert_eq!(err.to_text(), "FFmpeg path not initialized");
}

#[test]
fn path_is_read_back_after_init() {
    let mut config = EngineConfig::new();
    assert_eq!(config.init(String::from("/opt/ffmpeg/ffmpeg")), Ok(()));
    assert_eq!(get_ffmpeg_path(&config).unwrap(), "/opt/ffmpeg/ffmpeg");
}

#[test]
fn second_init_is_refused_and_changes_nothing() {
    let mut config = EngineConfig::new();
    config.init(String::from("ffmpeg")).unwrap();
    let err = config.init(String::from("other")).unwrap_err();
    assert_eq!(err.kind, ErrorKind::Configuration);
    assert_eq!(err.message, "Failed to set FFmpeg path");
    assert_eq!(get_ffmpeg_path(&config).unwrap(), "ffmpeg");
}

#[test]
fn timeouts_are_in_seconds() {
    assert_eq!(FFMPEG_TIMEOUT_SECS, 300);
    assert_eq!(FFMPEG_TIMEOUT_SHORT, 30);
    assert_eq!(FFMPEG_TIMEOUT_LONG, 1800);
}
