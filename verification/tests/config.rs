use boltsnap::config::{
    config_path, expand_path, resolve_record_codec, resolve_record_dir, resolve_save_dir,
    save_recording_prefs, try_save_recording_prefs, Config, RecordAudioSource, RecordBothMode,
    RecordCursor, RecordDefaultTarget, RecordProfile, RecordingPrefs, Settings,
};
use boltsnap::paths::Environment;
use boltsnap::protocol::ErrorKind;
use boltsnap::toml_text::{parse_toml, MAX_NESTING, QUOTES};

fn environment(vars: &[(&str, &str)]) -> Environment {
    Environment {
        vars: vars.iter().map(|(name, value)| (name.to_string(), value.to_string())).collect(),
        home_dir: "/home/bolt".into(),
        config_dir: "/home/bolt/.config/boltsnap".into(),
        screenshot_dir: "/home/bolt/Pictures/Screenshots".into(),
        temp_dir: "/tmp".into(),
        current_dir: "/work".into(),
    }
}

#[test]
fn record_profile_defaults_and_validation() {
    assert_eq!(Config::parse("").record_profile().unwrap(), RecordProfile::Quality);
    assert_eq!(
        Config::parse("record_profile = 'quality'").record_profile().unwrap(),
        RecordProfile::Quality
    );
    assert_eq!(
        Config::parse("record_profile = 'quiet'").record_profile().unwrap(),
        RecordProfile::Quiet
    );
    let fps = |text: &str| Config::parse(text).record_profile().map(RecordProfile::fps);
    assert_eq!(fps("record_profile = 'quiet'\nrecord_fps = 120"), Ok(120));
    for text in ["record_fps = 0", "record_fps = 241", "record_fps = '120'"] {
        assert!(fps(text).is_err(), "{text}");
    }
    for text in ["record_profile = 'typo'", "record_profile = 60", "record_profile = ''"] {
        assert!(Config::parse(text).record_profile().is_err());
    }
}

#[test]
fn replay_duration_defaults_and_limits_are_explicit() {
    assert_eq!(Config::parse_replay_settings("").unwrap().seconds, 60);
    assert_eq!(Config::replay_settings(Ok(None)).unwrap().seconds, 60);
    assert_eq!(
        Config::replay_settings(Ok(Some("[replay]\nduration_seconds = 30"))).unwrap().seconds,
        30
    );
    assert_eq!(
        Config::replay_settings(Err("denied".into())).unwrap_err(),
        "read replay settings: denied"
    );
    assert_eq!(Config::load(None).recording_prefs(), RecordingPrefs::default());
    assert!(!Config::load(Some("record_audio_enabled = false")).recording_prefs().audio_enabled);
    assert_eq!(
        Config::parse_replay_settings("[replay]\nduration_seconds = 30").unwrap().seconds,
        30
    );
    for text in [
        "[replay]\nduration_seconds = 0",
        "[replay]\nduration_seconds = 601",
        "[replay]\nmemory_mib = 0",
        "[replay]\nautostart = 'yes'",
        "replay = 1",
    ] {
        assert!(Config::parse_replay_settings(text).is_err());
    }
}

#[test]
fn replay_settings_take_every_key() {
    let text = "[replay]\nduration_seconds = 45\nmemory_mib = 256\nfps = 30\nencoder = 'h264_vaapi'\noutput = 'DP-1'\nautostart = true\n";
    assert_eq!(
        Config::parse_replay_settings(text).unwrap(),
        Settings {
            seconds: 45,
            memory_mib: 256,
            fps: 30,
            encoder: "h264_vaapi".into(),
            output: Some("DP-1".into()),
            autostart: true,
        }
    );
    assert_eq!(Config::parse_replay_settings("").unwrap(), Settings::default());
}

#[test]
fn audio_preferences_default_on_and_system_plus_mic() {
    let prefs = Config::default().recording_prefs();
    assert!(prefs.audio_enabled);
    assert_eq!(prefs.audio_source, RecordAudioSource::SystemAndMic);
}

#[test]
fn audio_preferences_parse_and_round_trip() {
    let parsed = Config::parse(
        r#"
record_audio_enabled = false
record_audio_source = "system"
unrelated = "keep-me"
"#,
    )
    .recording_prefs();
    assert!(!parsed.audio_enabled);
    assert_eq!(parsed.audio_source, RecordAudioSource::System);

    let saved = save_recording_prefs(
        Some("unrelated = \"keep-me\"\n"),
        &RecordingPrefs {
            audio_enabled: true,
            audio_source: RecordAudioSource::Mic,
            ..RecordingPrefs::default()
        },
    )
    .unwrap();
    assert!(saved.contains("record_audio_enabled = true"));
    assert!(saved.contains("record_audio_source = \"mic\""));
    assert!(saved.contains("unrelated = \"keep-me\""));
    assert_eq!(
        Config::parse(&saved).recording_prefs().audio_source,
        RecordAudioSource::Mic
    );
}

#[test]
fn invalid_audio_source_uses_default() {
    let prefs = Config::parse("record_audio_source = \"bluetooth\"\n").recording_prefs();
    assert_eq!(prefs.audio_source, RecordAudioSource::SystemAndMic);
}

#[test]
fn long_shelf_recordings_go_to_disk_after_a_minute_by_default() {
    let after = |text: &str| Config::parse(text).shelf_to_disk_after();
    assert_eq!(after(""), Some(60));
    assert_eq!(after("record_shelf_to_disk_after_seconds = 300\n"), Some(300));
    assert_eq!(after("record_shelf_to_disk_after_seconds = 0\n"), None);
    assert_eq!(after("record_shelf_to_disk_after_seconds = -5\n"), None);
}

#[test]
fn recording_prefs_default_to_focused_separate_and_visible() {
    assert_eq!(
        Config::default().recording_prefs(),
        RecordingPrefs {
            default_target: RecordDefaultTarget::Focused,
            both_mode: RecordBothMode::Separate,
            show_frame: true,
            disk_add_to_shelf: true,
            audio_enabled: true,
            audio_source: RecordAudioSource::SystemAndMic,
            cursor: RecordCursor::System,
        }
    );
}

#[test]
fn recording_prefs_parse_all_keys_and_named_output() {
    let prefs = Config::parse(
        "record_default_target = \"output:DP-3\"\n\
         record_both_mode = \"combined\"\n\
         record_show_frame = false\n\
         record_disk_add_to_shelf = false\n",
    )
    .recording_prefs();
    assert_eq!(
        prefs,
        RecordingPrefs {
            default_target: RecordDefaultTarget::Output("DP-3".into()),
            both_mode: RecordBothMode::Combined,
            show_frame: false,
            disk_add_to_shelf: false,
            audio_enabled: true,
            audio_source: RecordAudioSource::SystemAndMic,
            cursor: RecordCursor::System,
        }
    );
}

#[test]
fn recording_prefs_malformed_values_fall_back_safely() {
    let prefs = Config::parse(
        "record_default_target = \"output:\"\n\
         record_both_mode = \"fast\"\n\
         record_show_frame = \"no\"\n\
         record_disk_add_to_shelf = 0\n\
         record_cursor = \"wobbly\"\n",
    )
    .recording_prefs();
    assert_eq!(prefs, RecordingPrefs::default());
}

#[test]
fn recording_prefs_write_preserves_unknown_keys() {
    let prefs = RecordingPrefs {
        default_target: RecordDefaultTarget::Output("DP-3".into()),
        both_mode: RecordBothMode::Combined,
        show_frame: false,
        disk_add_to_shelf: false,
        cursor: RecordCursor::Quick,
        ..RecordingPrefs::default()
    };
    let written = save_recording_prefs(Some("custom = 7\n"), &prefs).unwrap();
    assert!(written.contains("custom = 7"));
    assert_eq!(Config::parse(&written).recording_prefs(), prefs);
}

#[test]
fn recording_prefs_write_is_readable_and_rejects_malformed_existing_config() {
    let prefs = RecordingPrefs {
        default_target: RecordDefaultTarget::Both,
        both_mode: RecordBothMode::Separate,
        show_frame: true,
        disk_add_to_shelf: false,
        ..RecordingPrefs::default()
    };
    let written = save_recording_prefs(None, &prefs).unwrap();
    assert_eq!(Config::parse(&written).recording_prefs(), prefs);

    let refused =
        save_recording_prefs(Some("custom = = broken"), &RecordingPrefs::default()).unwrap_err();
    assert_eq!(refused.kind, ErrorKind::InvalidData);
    assert_eq!(refused.message, parse_toml("custom = = broken").unwrap_err());
}

#[test]
fn saved_prefs_are_read_back_whatever_they_are() {
    for default_target in [
        RecordDefaultTarget::Focused,
        RecordDefaultTarget::Both,
        RecordDefaultTarget::Output("HDMI-A-1 \"left\"\n".into()),
    ] {
        for both_mode in [RecordBothMode::Separate, RecordBothMode::Combined] {
            for audio_source in [
                RecordAudioSource::System,
                RecordAudioSource::Mic,
                RecordAudioSource::SystemAndMic,
            ] {
                for cursor in [RecordCursor::System, RecordCursor::Mellow, RecordCursor::Quick] {
                    let prefs = RecordingPrefs {
                        default_target: default_target.clone(),
                        both_mode,
                        show_frame: false,
                        disk_add_to_shelf: true,
                        audio_enabled: false,
                        audio_source,
                        cursor,
                    };
                    let written = save_recording_prefs(Some("a = [1, 2]\n"), &prefs).unwrap();
                    assert_eq!(Config::parse(&written).recording_prefs(), prefs);
                }
            }
        }
    }
}

#[test]
fn parse_reads_save_dir_and_ignores_unknown() {
    let c = Config::parse("save_dir = \"/tmp/shots\"\nbogus = 1\n");
    assert_eq!(c.save_dir.as_deref(), Some("/tmp/shots"));
}

#[test]
fn parse_missing_keys_are_none() {
    let c = Config::parse("");
    assert_eq!(c, Config::default());
}

#[test]
fn parse_malformed_yields_defaults() {
    let c = Config::parse("save_dir = = =");
    assert_eq!(c, Config::default());
}

#[test]
fn expand_tilde_and_env() {
    let environment = environment(&[("BOLT_T", "sub")]);
    assert_eq!(expand_path("~/Bilder", &environment), "/home/bolt/Bilder");
    assert_eq!(expand_path("/a/$BOLT_T/b", &environment), "/a/sub/b");
    assert_eq!(expand_path("/a/${BOLT_T}x", &environment), "/a/subx");
}

#[test]
fn a_path_without_variables_stays_as_it_is() {
    let environment = environment(&[]);
    assert_eq!(expand_path("/plain/path", &environment), "/plain/path");
}

#[test]
fn save_dir_precedence_flag_over_config() {
    let cfg = Config { save_dir: Some("/from/config".into()), ..Config::default() };
    let got = resolve_save_dir(Some("/from/flag"), &cfg, &environment(&[]));
    assert_eq!(got, "/from/flag");
}

#[test]
fn save_dir_falls_back_to_config_then_default() {
    let environment = environment(&[]);
    let cfg = Config { save_dir: Some("~/cfgshots".into()), ..Config::default() };
    assert_eq!(resolve_save_dir(None, &cfg, &environment), "/home/bolt/cfgshots");
    assert_eq!(
        resolve_save_dir(None, &Config::default(), &environment),
        "/home/bolt/Pictures/Screenshots"
    );
}

#[test]
fn save_dir_takes_the_variable_before_the_file() {
    let environment = environment(&[("BOLTSNAP_SAVE_DIR", "/from/variable")]);
    let cfg = Config { save_dir: Some("/from/config".into()), ..Config::default() };
    assert_eq!(resolve_save_dir(None, &cfg, &environment), "/from/variable");
}

#[test]
fn parse_record_keys() {
    let c = Config::parse("record_codec = \"libx264\"\nrecord_dir = \"/tmp/rec\"\n");
    assert_eq!(c.record_codec.as_deref(), Some("libx264"));
    assert_eq!(c.record_dir.as_deref(), Some("/tmp/rec"));
}

#[test]
fn record_codec_defaults_to_auto() {
    let environment = environment(&[]);
    assert_eq!(resolve_record_codec(None, &Config::default(), &environment), "auto");
    let cfg = Config { record_codec: Some("libx264".into()), ..Config::default() };
    assert_eq!(resolve_record_codec(None, &cfg, &environment), "libx264");
    assert_eq!(resolve_record_codec(Some("hevc_nvenc"), &cfg, &environment), "hevc_nvenc");
}

#[test]
fn record_codec_takes_a_variable_that_holds_something() {
    let cfg = Config { record_codec: Some("libx264".into()), ..Config::default() };
    let set = environment(&[("BOLTSNAP_RECORD_CODEC", "h264_vulkan")]);
    assert_eq!(resolve_record_codec(None, &cfg, &set), "h264_vulkan");
    let empty = environment(&[("BOLTSNAP_RECORD_CODEC", "")]);
    assert_eq!(resolve_record_codec(None, &cfg, &empty), "libx264");
}

#[test]
fn recordings_go_to_their_own_directory_or_to_that_of_screenshots() {
    let environment = environment(&[]);
    let cfg = Config { record_dir: Some("~/clips".into()), ..Config::default() };
    assert_eq!(resolve_record_dir(&cfg, &environment), "/home/bolt/clips");
    assert_eq!(
        resolve_record_dir(&Config::default(), &environment),
        "/home/bolt/Pictures/Screenshots"
    );
    assert_eq!(config_path(&environment), "/home/bolt/.config/boltsnap/config.toml");
}

#[test]
fn cursors_have_keys() {
    assert_eq!(RecordCursor::System.key(), "system");
    assert_eq!(RecordCursor::Mellow.key(), "mellow");
    assert_eq!(RecordCursor::Quick.key(), "quick");
}

/// The header of a table under `names` names.
fn header(names: usize) -> String {
    vec!["a"; names].join(".")
}

/// An array of arrays.
fn nested(depth: usize) -> String {
    "[".repeat(depth) + &"]".repeat(depth)
}

#[test]
fn settings_are_read_back_as_deep_as_toml_follows() {
    let prefs = RecordingPrefs {
        default_target: RecordDefaultTarget::Output("DP-3".into()),
        ..RecordingPrefs::default()
    };
    let lists: String =
        (1..=MAX_NESTING).map(|names| format!("[[{}]]\n", header(names))).collect();
    for existing in [
        format!("x = {}\n", nested(MAX_NESTING)),
        format!("[{}]\ny = 1\n", header(MAX_NESTING)),
        format!("[{}]\ny = {}\n", header(MAX_NESTING), nested(MAX_NESTING)),
        format!("{lists}y = {}\n", nested(MAX_NESTING)),
        format!("x = [1, {{ b = {} }}]\n", nested(MAX_NESTING - 2)),
    ] {
        let before = format!("{:?}", parse_toml(&existing).unwrap());
        let written = try_save_recording_prefs(Some(&existing), &prefs).unwrap().unwrap();
        assert_eq!(Config::parse(&written).recording_prefs(), prefs);
        let after = parse_toml(&written).unwrap();
        for name in ["a", "x"] {
            assert_eq!(
                format!("{:?}", after.get(name)),
                format!("{:?}", parse_toml(&existing).unwrap().get(name)),
            );
        }
        assert!(before.len() < format!("{after:?}").len());
        let again = try_save_recording_prefs(Some(&written), &prefs).unwrap().unwrap();
        assert_eq!(again, written);
    }
    // A table under one name more is printed, but not read.
    let existing = format!("[{}]\nb = {{ c = 1 }}\n", header(MAX_NESTING));
    assert!(parse_toml(&existing).is_ok());
    let written = save_recording_prefs(Some(&existing), &prefs).unwrap();
    assert!(parse_toml(&written).is_err());
}

#[test]
fn settings_with_too_many_quotes_are_not_printed() {
    let prefs = RecordingPrefs::default();
    for (quote, written) in [("'", "\""), ("\"", "'")] {
        let full = format!("x = {written}{}{written}\n", quote.repeat(QUOTES));
        assert!(try_save_recording_prefs(Some(&full), &prefs).is_none());
        let inside = format!("[t]\nx = [1, {{ y = {written}.{}{written} }}]\n", quote.repeat(QUOTES));
        assert!(try_save_recording_prefs(Some(&inside), &prefs).is_none());
        let fewer = format!("x = {written}{}{written}\n", quote.repeat(QUOTES - 1));
        let saved = try_save_recording_prefs(Some(&fewer), &prefs).unwrap().unwrap();
        assert_eq!(
            parse_toml(&saved).unwrap().text_at("x"),
            Some(quote.repeat(QUOTES - 1).as_str())
        );
        let name = format!("{written}{}{written} = 1\n", quote.repeat(QUOTES));
        assert!(try_save_recording_prefs(Some(&name), &prefs).unwrap().is_ok());
        let named = RecordingPrefs {
            default_target: RecordDefaultTarget::Output(quote.repeat(QUOTES)),
            ..RecordingPrefs::default()
        };
        assert!(try_save_recording_prefs(None, &named).is_none());
    }
    let parted = format!("x = \"{}.{}\"\n", "'".repeat(QUOTES - 1), "'".repeat(QUOTES - 1));
    assert!(try_save_recording_prefs(Some(&parted), &prefs).unwrap().is_ok());
    let refused = try_save_recording_prefs(Some("x = = 1"), &prefs).unwrap().unwrap_err();
    assert_eq!(refused.kind, ErrorKind::InvalidData);
}

#[test]
fn settings_with_the_name_of_a_date_are_read_back_where_it_is_not_first() {
    let date = "\"$__toml_private_datetime\"";
    let prefs = RecordingPrefs {
        default_target: RecordDefaultTarget::Output("DP-3".into()),
        ..RecordingPrefs::default()
    };
    for existing in [
        format!("\"!a\" = 1\n{date} = 2\n"),
        format!("[{date}]\nx = 1\n"),
        format!("[t]\n\"!a\" = 1\n{date} = 2\n"),
        format!("[t]\nz = 1\n[t.{date}]\nx = 1\n"),
        format!("[t.\"!a\"]\ny = 1\n[t.{date}]\nx = 1\n"),
        format!("[[t]]\nz = 1\n[[t.{date}]]\nx = 1\n"),
        format!("t = [1, {{ \"!a\" = {{ y = 1 }}, {date} = 2 }}]\n"),
    ] {
        let written = try_save_recording_prefs(Some(&existing), &prefs).unwrap().unwrap();
        assert_eq!(Config::parse(&written).recording_prefs(), prefs);
        let again = try_save_recording_prefs(Some(&written), &prefs).unwrap().unwrap();
        assert_eq!(again, written);
        assert!(written.contains(date));
        assert!(parse_toml(&written).is_ok());
    }
    // A table that begins with the name is taken for a date.
    for existing in [
        format!("{date} = 2\nz = 1\n"),
        format!("[t]\nz = 1\n{date} = 2\n"),
        format!("[t.z]\ny = 1\n[t.{date}]\nx = 1\n"),
        format!("[t]\n{date} = 2\n[t.\"!a\"]\ny = 1\n"),
        format!("t = [1, {{ a = 1, {date} = {{ y = 1 }} }}]\n"),
    ] {
        match try_save_recording_prefs(Some(&existing), &prefs).unwrap() {
            Ok(written) => assert!(parse_toml(&written).is_err(), "{existing}"),
            Err(refused) => assert_eq!(refused.kind, ErrorKind::InvalidData),
        }
    }
}
