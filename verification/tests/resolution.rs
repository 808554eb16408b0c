use trimbot::resolution::Resolution;

#[test]
fn presets_are_known_by_name() {
    assert_eq!(Resolution::from_preset(Some("720p")), Resolution::Hd720);
    assert_eq!(Resolution::from_preset(Some("1080p")), Resolution::Hd1080);
    assert_eq!(Resolution::from_preset(Some("source")), Resolution::Source);
    assert_eq!(Resolution::from_preset(None), Resolution::Source);
}

#[test]
fn unknown_names_stand_for_the_source() {
    for name in ["", "720", "720P", "4k", " 720p", "1080p "] {
        assert_eq!(Resolution::from_preset(Some(name)), Resolution::Source);
    }
}

#[test]
fn source_has_no_scale_filter() {
    assert_eq!(Resolution::Source.height(), None);
    assert_eq!(Resolution::Source.filter(), None);
    let mut args = vec!["-i".to_string()];
    Resolution::Source.push_scale_args(&mut args);
    assert_eq!(args, vec!["-i".to_string()]);
}

#[test]
fn presets_scale_to_their_height_with_an_even_width() {
    assert_eq!(Resolution::Hd720.height(), Some(720));
    assert_eq!(Resolution::Hd1080.height(), Some(1080));
    assert_eq!(Resolution::Hd720.filter(), Some("scale=-2:720".to_string()));
    assert_eq!(Resolution::Hd1080.filter(), Some("scale=-2:1080".to_string()));
    let mut args = vec!["-i".to_string()];
    Resolution::Hd1080.push_scale_args(&mut args);
    assert_eq!(args, vec!["-i".to_string(), "-vf".to_string(), "scale=-2:1080".to_string()]);
}
