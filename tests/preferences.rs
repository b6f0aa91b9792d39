use ollama_predict::prefs::{
    clamp_reduced_levels, load_prefs, parse_antialiasing_mode, parse_u16, AntialiasingConfig, AntialiasingMode,
    AntialiasingProfile, EnvOverrides, ProfileConfig,
};

fn no_env() -> EnvOverrides {
    EnvOverrides { mode: None, binary_threshold: None, reduced_levels: None, disable_subpixel_positioning: None }
}

#[test]
fn default_profiles() {
    let b = AntialiasingProfile::default_buffer();
    assert_eq!(b.mode, AntialiasingMode::Binary);
    assert_eq!((b.binary_threshold, b.reduced_levels, b.disable_subpixel_positioning), (96, 4, true));
    let u = AntialiasingProfile::default_ui();
    assert_eq!(u.mode, AntialiasingMode::Default);
    assert_eq!((u.binary_threshold, u.reduced_levels, u.disable_subpixel_positioning), (96, 4, false));
}

#[test]
fn mode_names() {
    assert_eq!(parse_antialiasing_mode("  MONO "), Some(AntialiasingMode::Binary));
    assert_eq!(parse_antialiasing_mode("Quantised"), Some(AntialiasingMode::Reduced));
    assert_eq!(parse_antialiasing_mode("aa"), Some(AntialiasingMode::Default));
    assert_eq!(parse_antialiasing_mode("fuzzy"), None);
}

#[test]
fn levels_are_clamped() {
    assert_eq!(clamp_reduced_levels(0), 2);
    assert_eq!(clamp_reduced_levels(5), 5);
    assert_eq!(clamp_reduced_levels(200), 8);
}

#[test]
fn config_overrides() {
    let mut p = AntialiasingProfile::default_ui();
    p.apply_config(&ProfileConfig {
        mode: Some("reduced".into()),
        binary_threshold: Some(10),
        reduced_levels: Some(1),
        disable_subpixel_positioning: Some(true),
    });
    assert_eq!(p.mode, AntialiasingMode::Reduced);
    assert_eq!((p.binary_threshold, p.reduced_levels, p.disable_subpixel_positioning), (10, 2, true));
    p.apply_config(&ProfileConfig { mode: Some("bogus".into()), binary_threshold: None, reduced_levels: None, disable_subpixel_positioning: None });
    assert_eq!(p.mode, AntialiasingMode::Reduced);
}

#[test]
fn environment_overrides() {
    let mut p = AntialiasingProfile::default_ui();
    p.apply_env_overrides(&EnvOverrides {
        mode: Some(" off ".into()),
        binary_threshold: Some("300".into()),
        reduced_levels: Some("258".into()),
        disable_subpixel_positioning: Some("0".into()),
    });
    assert_eq!(p.mode, AntialiasingMode::Binary);
    assert_eq!((p.binary_threshold, p.reduced_levels, p.disable_subpixel_positioning), (255, 2, false));
    p.apply_env_overrides(&EnvOverrides {
        mode: None,
        binary_threshold: Some("200".into()),
        reduced_levels: Some("x".into()),
        disable_subpixel_positioning: Some("yes".into()),
    });
    assert_eq!((p.binary_threshold, p.reduced_levels, p.disable_subpixel_positioning), (200, 2, true));
}

#[test]
fn file_settings_follow_environment() {
    let env = EnvOverrides { mode: None, binary_threshold: Some("50".into()), reduced_levels: None, disable_subpixel_positioning: None };
    let config = AntialiasingConfig {
        buffer: Some(ProfileConfig { mode: None, binary_threshold: Some(70), reduced_levels: Some(6), disable_subpixel_positioning: None }),
        ui: None,
    };
    let prefs = load_prefs(&env, &env, Some(&config));
    assert_eq!((prefs.buffer.binary_threshold, prefs.buffer.reduced_levels), (70, 6));
    assert_eq!(prefs.ui.binary_threshold, 50);
    let prefs = load_prefs(&no_env(), &no_env(), None);
    assert_eq!(prefs.buffer, AntialiasingProfile::default_buffer());
    assert_eq!(prefs.ui, AntialiasingProfile::default_ui());
}

#[test]
fn decimal_reading() {
    assert_eq!(parse_u16("+12"), Some(12));
    assert_eq!(parse_u16("00012"), Some(12));
    assert_eq!(parse_u16("65535"), Some(65535));
    assert_eq!(parse_u16("65536"), None);
    assert_eq!(parse_u16("9999999999"), None);
    assert_eq!(parse_u16(""), None);
    assert_eq!(parse_u16("+"), None);
    assert_eq!(parse_u16("-1"), None);
    assert_eq!(parse_u16("1 "), None);
}
