use boltsnap::config::RecordProfile;
use boltsnap::json::parse_json;
use boltsnap::linux::cursor_recording::{
    probe, record_args, smoothing, supported_profile, target,
};
use boltsnap::linux::cursor_track::{
    followed_output, is_fed, plugin_path, plugin_places, track_line, track_path_indexed, track_paths,
    Clock, PointerEvent, Source, TrackedOutput, PLUGIN,
};
use boltsnap::linux::gsr::{
    args, choose_codec, combined_source, parse_info, Codec, Info, Target,
};
use boltsnap::linux::gsr_cursor::{check_api, info_log, texture, Feed, MAX_PARTIAL};
use boltsnap::linux::recording_codec::{
    auto_encoder, default_record_codec, device_for_codec, discover_gpu_devices,
    encoder_candidates, probe_args, select_encoder, EncoderChoice, GpuDevice, GpuVendor,
    RenderEntry,
};
use boltsnap::linux::replay::native::record_options;
use boltsnap::linux::xcursor::{
    cursor_size, find, inherits, parse, search_path, u32_at, IconFiles, IMAGE_TYPE,
};
use boltsnap::paths::Environment;
use boltsnap::pixels::{pixel, Image, Rgba};
use boltsnap::record::{focused_place, named_place, CaptureScope, Geometry, Monitor, Scale};

const INFO: &str = "section=system_info\ndisplay_server|wayland\nsection=gpu_info\nvendor|nvidia\ncard_path|/dev/dri/card0\nsection=video_codecs\nh264_software\nh264_vulkan\nhevc_vulkan\nsection=image_formats\npng\n";

fn info(vendor: &str, codecs: &[&str]) -> Info {
    Info { vendor: vendor.into(), codecs: codecs.iter().map(|codec| (*codec).to_owned()).collect() }
}

fn words(words: &[&str]) -> Vec<String> {
    words.iter().map(|word| word.to_string()).collect()
}

fn environment(vars: &[(&str, &str)]) -> Environment {
    Environment {
        vars: vars.iter().map(|(name, value)| (name.to_string(), value.to_string())).collect(),
        home_dir: "/home/bolt".into(),
        config_dir: "/home/bolt/.config/boltsnap".into(),
        screenshot_dir: "/home/bolt/Pictures".into(),
        temp_dir: "/tmp".into(),
        current_dir: "/work".into(),
    }
}

#[test]
fn info_reads_vendor_and_only_video_codecs() {
    assert_eq!(
        parse_info(INFO),
        info("nvidia", &["h264_software", "h264_vulkan", "hevc_vulkan"])
    );
    assert_eq!(parse_info("section=system_info\n"), Info::default());
}

#[test]
fn auto_prefers_native_hardware_then_vulkan_and_never_the_cpu() {
    let vulkan = choose_codec("auto", &parse_info(INFO)).unwrap();
    assert_eq!((vulkan.name.as_str(), vulkan.encoder.as_str()), ("h264_vulkan", "h264_vulkan"));
    let nvidia = choose_codec("auto", &info("nvidia", &["h264", "h264_vulkan"])).unwrap();
    assert_eq!((nvidia.name.as_str(), nvidia.encoder.as_str()), ("h264", "h264_nvenc"));
    let amd = choose_codec("auto", &info("amd", &["h264"])).unwrap();
    assert_eq!(amd.encoder, "h264_vaapi");
    assert!(choose_codec("auto", &info("nvidia", &["h264_software"])).is_err());
}

#[test]
fn explicit_codecs_map_to_gsr_names_without_fallback() {
    let local = parse_info(INFO);
    assert_eq!(
        choose_codec("libx264", &local).unwrap(),
        Codec { name: "h264".into(), cpu: true, encoder: "libx264".into() }
    );
    assert_eq!(choose_codec("hevc_vulkan", &local).unwrap().name, "hevc_vulkan");
    assert!(choose_codec("h264_nvenc", &local).is_err());
    assert!(choose_codec("prores", &local).is_err());
    assert_eq!(choose_codec("h264_nvenc", &info("nvidia", &["h264"])).unwrap().name, "h264");
}

#[test]
fn a_codec_that_is_refused_is_named() {
    let local = parse_info(INFO);
    assert_eq!(
        choose_codec("prores", &local).unwrap_err(),
        "record_codec prores is not supported by gpu-screen-recorder"
    );
    assert_eq!(
        choose_codec("av1_vaapi", &local).unwrap_err(),
        "gpu-screen-recorder cannot encode av1_vaapi on this system (available: h264_software, h264_vulkan, hevc_vulkan)"
    );
    assert_eq!(
        choose_codec("auto", &info("amd", &[])).unwrap_err(),
        "no hardware H.264 encoder is available to gpu-screen-recorder; set record_codec = \"libx264\" to encode on the CPU"
    );
}

#[test]
fn session_encoder_round_trips_through_choose() {
    for (vendor, codecs) in [
        ("nvidia", &["h264", "h264_software"][..]),
        ("amd", &["h264"][..]),
        ("nvidia", &["h264_vulkan"][..]),
    ] {
        let info = info(vendor, codecs);
        let first = choose_codec("auto", &info).unwrap();
        assert_eq!(choose_codec(&first.encoder, &info).unwrap(), first);
    }
}

/// A scale as the number that a compositor gives: a fraction whose denominator is a power of two.
fn scale(number: f64) -> Scale {
    let denominator = 1u64 << 52;
    let numerator = number * denominator as f64;
    assert_eq!(numerator as i64 as f64, numerator);
    Scale { numerator: numerator as i64, denominator }
}

fn monitor(name: &str, x: i32, y: i32, number: f64) -> Monitor {
    Monitor {
        name: name.into(),
        description: String::new(),
        x,
        y,
        width: 1920,
        height: 1080,
        scale: scale(number),
        focused: false,
    }
}

#[test]
fn combined_source_places_outputs_in_video_pixels() {
    assert_eq!(
        combined_source(&vec![monitor("DP-1", 1920, 0, 1.0), monitor("DP-3", 0, 0, 1.0)])
            .as_deref(),
        Some("DP-1;x=1920;y=0|DP-3;x=0;y=0")
    );
    // Logical layout at scale 1.5 becomes physical offsets.
    assert_eq!(
        combined_source(&vec![monitor("A", -1280, 100, 1.5), monitor("B", 0, 0, 1.5)]).as_deref(),
        Some("A;x=0;y=150|B;x=1920;y=0")
    );
    assert_eq!(combined_source(&vec![monitor("A", 0, 0, 1.0)]), None);
    assert_eq!(
        combined_source(&vec![monitor("A", 0, 0, 1.0), monitor("B", 1920, 0, 2.0)]),
        None,
        "mixed scales keep one stream per output"
    );
    let wide = Monitor { width: 2560, height: 1440, ..monitor("A", 0, 0, 1.0) };
    assert_eq!(
        combined_source(&vec![wide, monitor("B", 2560, 0, 1.0)]),
        None,
        "a 4480 px canvas is beyond hardware H.264"
    );
}

#[test]
fn a_scale_is_a_fraction() {
    let third = Scale { numerator: 4, denominator: 3 };
    assert_eq!(third.in_pixels(1440), 1920);
    assert_eq!(scale(4.0 / 3.0).in_pixels(1440), 1920);
    assert_eq!(Scale { numerator: 133, denominator: 100 }.in_pixels(1440), 1915);
    assert_eq!(Scale { numerator: 3, denominator: 2 }.in_pixels(1), 2);
    let twice = Scale { numerator: 8, denominator: 6 };
    assert!(third.is_same(twice) && !third.is_same(scale(4.0 / 3.0)));
    assert_eq!(twice.in_pixels(1001), third.in_pixels(1001));
    assert!(!Scale { numerator: 0, denominator: 1 }.is_positive());
    assert!(!Scale { numerator: 1, denominator: 0 }.is_positive());
    assert_eq!(
        combined_source(&vec![
            monitor("A", 0, 0, 4.0 / 3.0),
            monitor("B", 1440, 0, 4.0 / 3.0),
        ])
        .as_deref(),
        Some("A;x=0;y=0|B;x=1920;y=0")
    );
    assert_eq!(combined_source(&vec![monitor("A", 0, 0, 0.0), monitor("B", 1440, 0, 0.0)]), None);
}

#[test]
fn outputs_are_found_by_focus_and_name() {
    let mut monitors = vec![monitor("A", 0, 0, 1.0), monitor("B", 1920, 0, 1.0)];
    assert_eq!(focused_place(&monitors), 2);
    monitors[1].focused = true;
    assert_eq!(focused_place(&monitors), 1);
    assert_eq!(named_place(&monitors, "A"), 0);
    assert_eq!(named_place(&monitors, "C"), 2);
}

#[test]
fn args_cover_codec_audio_and_region() {
    let geo = Geometry { x: -10, y: 20, w: 800, h: 600 };
    let cpu = Codec { name: "h264".into(), cpu: true, encoder: "libx264".into() };
    let region = args(
        &Target::Region(&geo),
        &cpu,
        60,
        &words(&["sink.monitor", "mic"]),
        Some("/opt/libboltsnap_gsr_cursor.so"),
        "/tmp/seg.mkv",
    );
    let joined = region.join(" ");
    assert!(joined.starts_with("-w 800x600+-10+20 -c mkv -f 60 -fm cfr -k h264 "));
    assert!(joined.contains("-encoder cpu"));
    assert!(joined.contains("-cursor no"));
    assert!(joined.contains("-write-first-frame-ts yes -p /opt/libboltsnap_gsr_cursor.so"));
    assert!(joined.contains("-a device:sink.monitor|device:mic -ac aac"));
    assert!(joined.ends_with("-o /tmp/seg.mkv"));

    let gpu = Codec { name: "h264_vulkan".into(), cpu: false, encoder: "h264_vulkan".into() };
    let output = args(&Target::Output("DP-3"), &gpu, 240, &Vec::new(), None, "/tmp/o.mkv");
    assert_eq!(output[..2], ["-w", "DP-3"]);
    assert!(!output.iter().any(|a| a == "-a" || a == "-encoder"));
    assert!(output.windows(2).any(|w| w == ["-cursor", "yes"]));
    assert!(!output.iter().any(|a| a == "-write-first-frame-ts" || a == "-p"));
}

fn gpu(vendor: GpuVendor, primary: bool, render_node: Option<&str>) -> GpuDevice {
    GpuDevice { vendor, primary, render_node: render_node.map(String::from) }
}

#[test]
fn primary_amd_wins_on_a_hybrid_system() {
    let devices = vec![
        gpu(GpuVendor::Nvidia, false, Some("/dev/dri/renderD129")),
        gpu(GpuVendor::Amd, true, Some("/dev/dri/renderD128")),
    ];
    let choice = select_encoder(&devices, |_: &EncoderChoice| true);
    assert_eq!(choice.codec, "h264_vaapi");
    assert_eq!(choice.device, Some("/dev/dri/renderD128".into()));
}

#[test]
fn unavailable_primary_encoder_falls_through_to_other_gpu() {
    let devices = vec![
        gpu(GpuVendor::Amd, true, Some("/dev/dri/renderD128")),
        gpu(GpuVendor::Nvidia, false, None),
    ];
    let choice = select_encoder(&devices, |choice: &EncoderChoice| choice.codec == "h264_nvenc");
    assert_eq!(choice.codec, "h264_nvenc");
    assert_eq!(choice.device, None);
}

#[test]
fn nvenc_does_not_receive_a_vaapi_render_node() {
    let devices = vec![gpu(GpuVendor::Nvidia, true, Some("/dev/dri/renderD128"))];
    let choice = select_encoder(&devices, |_: &EncoderChoice| true);
    assert_eq!(choice.codec, "h264_nvenc");
    assert_eq!(choice.device, None);
}

#[test]
fn missing_hardware_encoder_uses_x264() {
    let devices = vec![gpu(GpuVendor::Amd, true, Some("/dev/dri/renderD128"))];
    let choice = select_encoder(&devices, |_: &EncoderChoice| false);
    assert_eq!(choice.codec, "libx264");
    assert_eq!(choice.description, "software x264");
}

fn entry(name: &str, vendor: Option<&str>, boot_vga: Option<&str>) -> RenderEntry {
    RenderEntry {
        name: name.into(),
        vendor: vendor.map(String::from),
        boot_vga: boot_vga.map(String::from),
    }
}

#[test]
fn graphics_devices_are_known_by_their_vendor() {
    let entries = vec![
        entry("card0", Some("0x1002"), None),
        entry("renderD128", Some("0x1002\n"), Some("1\n")),
        entry("renderD129", Some("0X8086"), None),
        entry("renderD130", None, None),
    ];
    let amd = gpu(GpuVendor::Amd, true, Some("/dev/dri/renderD128"));
    assert_eq!(discover_gpu_devices(&entries, "/dev/dri", false), vec![amd.clone()]);
    let both = discover_gpu_devices(&entries, "/dev/dri", true);
    assert_eq!(both, vec![amd, gpu(GpuVendor::Nvidia, false, None)]);
    assert_eq!(
        encoder_candidates(&both).into_iter().map(|choice| choice.codec).collect::<Vec<_>>(),
        ["h264_vaapi", "h264_nvenc"]
    );
    let nvidia = vec![entry("renderD128", Some("0x10DE"), Some("0"))];
    assert_eq!(
        discover_gpu_devices(&nvidia, "/dev/dri", true),
        vec![gpu(GpuVendor::Nvidia, false, Some("/dev/dri/renderD128"))]
    );
    let found = auto_encoder(&entries, true, |choice: &EncoderChoice| choice.device.is_none());
    assert_eq!(found.description, "NVIDIA NVENC");
    assert_eq!(default_record_codec(&found), "h264_nvenc");
}

#[test]
fn only_vaapi_needs_a_device() {
    let detected = EncoderChoice {
        codec: "h264_vaapi".into(),
        device: Some("/dev/dri/renderD128".into()),
        description: "AMD VA-API",
    };
    let devices = vec![
        gpu(GpuVendor::Amd, false, Some("/dev/dri/renderD129")),
        gpu(GpuVendor::Amd, true, Some("/dev/dri/renderD130")),
    ];
    assert_eq!(device_for_codec("h264_nvenc", &detected, &devices), None);
    assert_eq!(
        device_for_codec("h264_vaapi", &detected, &devices).as_deref(),
        Some("/dev/dri/renderD128")
    );
    assert_eq!(
        device_for_codec("hevc_vaapi", &detected, &devices).as_deref(),
        Some("/dev/dri/renderD130")
    );
    assert_eq!(probe_args("h264_vaapi", None), None);
    assert_eq!(
        probe_args("h264_vaapi", Some("/dev/dri/renderD128")).unwrap().join(" "),
        "-hide_banner -loglevel error -f lavfi -i color=c=black:s=128x128:r=1 -vaapi_device /dev/dri/renderD128 -vf format=nv12,hwupload -frames:v 1 -c:v h264_vaapi -f null -"
    );
    assert_eq!(
        probe_args("h264_nvenc", None).unwrap().join(" "),
        "-hide_banner -loglevel error -f lavfi -i color=c=black:s=128x128:r=1 -frames:v 1 -c:v h264_nvenc -f null -"
    );
}

#[test]
fn unsupported_targets_and_codecs_never_fall_back() {
    assert!(supported_profile(RecordProfile::Quality).is_err());
    assert!(supported_profile(RecordProfile::Quiet).is_ok());
    assert!(target(&CaptureScope::Outputs(vec!["DP-1".into()]), "libx264").is_ok());
    assert!(target(&CaptureScope::Outputs(vec!["DP-1".into()]), "h264_vulkan").is_err());
    assert!(
        target(&CaptureScope::Outputs(vec!["DP-1".into(), "DP-2".into()]), "libx264").is_err()
    );
    assert!(
        target(&CaptureScope::Area(Geometry { x: 0, y: 0, w: 100, h: 100 }), "libx264").is_err()
    );
}

#[test]
fn the_worker_understands_what_starts_it() {
    let args = record_args("DP-1", "libx264", Some("sink"), "/tmp/a.mp4");
    assert_eq!(args, ["cursor-record", "DP-1", "60", "libx264", "sink", "/tmp/a.mp4"]);
    let options = record_options(&args[1..]).ok().unwrap();
    assert_eq!(
        (options.output.as_str(), options.fps, options.audio.as_str()),
        ("DP-1", 60, "sink")
    );
    assert_eq!(options.destination, "/tmp/a.mp4");
    assert_eq!(record_args("DP-1", "libx264", None, "/tmp/a.mp4")[4], "-");
}

#[test]
fn a_worker_says_whether_it_smooths() {
    assert_eq!(probe(true, br#"{"cursor_smoothing":true}"#, b""), Ok(()));
    for answer in [&br#"{"cursor_smoothing":false}"#[..], b"{}", b"[]"] {
        assert_eq!(
            probe(true, answer, b"").unwrap_err(),
            "worker lacks native cursor support"
        );
    }
    assert!(!probe(true, b"nothing", b"").unwrap_err().is_empty());
    assert_eq!(probe(false, b"", b"  broken \xff\n").unwrap_err(), "broken \u{fffd}");
    assert_eq!(probe(false, b"", &[b'x'; 500]).unwrap_err().len(), 400);
    assert!(smoothing(&parse_json(b"{\"cursor_smoothing\":true}").unwrap()).is_ok());
}

#[test]
fn track_path_appends_to_the_segment_name() {
    assert_eq!(track_path_indexed("/tmp/seg.mkv", 0), "/tmp/seg.mkv.cursor");
    assert_eq!(track_path_indexed("/tmp/seg.mkv", 1), "/tmp/seg.mkv.cursor1");
}

#[test]
fn tracks_are_counted_up_to_the_first_gap() {
    let files = words(&["s.cursor3", "s.cursor1", "s.cursor", "s"]);
    assert_eq!(track_paths("s", &files), ["s.cursor", "s.cursor1"]);
    assert!(track_paths("t", &files).is_empty());
}

#[test]
fn plugin_is_found_beside_the_binary_or_in_lib() {
    let (beside, packaged) = plugin_places("/opt/bin");
    assert_eq!(beside, format!("/opt/bin/{PLUGIN}"));
    assert_eq!(packaged, format!("/opt/bin/../lib/boltsnap/{PLUGIN}"));
    assert_eq!(
        plugin_path("/opt/bin", false, false).unwrap_err(),
        "smooth cursor needs libboltsnap_gsr_cursor.so beside boltsnap (/opt/bin)"
    );
    assert_eq!(plugin_path("/opt/bin", false, true), Ok(packaged));
    assert_eq!(plugin_path("/opt/bin", true, true), Ok(beside));
}

#[test]
fn a_tracker_follows_the_output_under_the_middle() {
    let output = |name: &str, x: i32| TrackedOutput {
        name: name.into(),
        x,
        y: 0,
        width: 1920,
        height: 1080,
    };
    let outputs = vec![output("A", -1920), output("B", 0)];
    assert_eq!(followed_output(&Source::Output("B".into()), &outputs), Ok(1));
    let area = |x: i32| Source::Region(Geometry { x, y: 0, w: 100, h: 100 });
    assert_eq!(followed_output(&area(-51), &outputs), Ok(0));
    assert_eq!(followed_output(&area(-50), &outputs), Ok(1));
    assert_eq!(
        followed_output(&area(5000), &outputs).unwrap_err(),
        "recorded output not found"
    );
}

#[test]
fn clock_maps_instants_around_its_origin() {
    let clock = Clock::at(12, 345_678_901);
    assert_eq!(clock.monotonic_us, 12_345_678);
    assert_eq!(clock.us(5000) as i128 - clock.monotonic_us, 5000);
    assert_eq!(clock.us(-2000) as i128 - clock.monotonic_us, -2000);
    assert_eq!(clock.us(-13_000_000), 0);
}

#[test]
fn a_track_has_a_line_for_each_event() {
    assert_eq!(track_line(7, PointerEvent::Position(1921, -2)), "7 p 1921 -2\n");
    assert_eq!(track_line(8, PointerEvent::Enter), "8 e\n");
    assert_eq!(track_line(9, PointerEvent::Leave), "9 l\n");
    assert!(is_fed(PointerEvent::Position(1921, -2)));
    assert!(is_fed(PointerEvent::Leave));
    assert!(!is_fed(PointerEvent::Enter));
}

#[test]
fn the_plugin_draws_through_egl_only() {
    assert!(check_api(0).is_ok());
    assert_eq!(
        check_api(1).unwrap_err(),
        "needs gsr's EGL (GLES) context; X11/GLX capture is unsupported"
    );
}

#[test]
fn feed_lines_are_put_together_across_partial_writes() {
    let mut feed = Feed::new();
    assert!(feed.poll(b"0 1000000 p 110 6").is_empty());
    assert_eq!(
        feed.poll(b"0\ngarbage\n"),
        vec![b"0 1000000 p 110 60".to_vec(), b"garbage".to_vec()]
    );
    assert_eq!(feed.poll(b"0 2001000 l\n"), vec![b"0 2001000 l".to_vec()]);
    assert!(feed.poll(&vec![b'x'; MAX_PARTIAL]).is_empty());
    assert_eq!(feed.partial.len(), MAX_PARTIAL);
    assert!(feed.poll(b"x").is_empty());
    assert!(feed.partial.is_empty());
}

#[test]
fn an_arrow_stands_in_a_texture_with_an_edge() {
    let arrow = Image {
        width: 1,
        height: 2,
        pixels: vec![
            Rgba { r: 255, g: 100, b: 0, a: 128 },
            Rgba { r: 9, g: 9, b: 9, a: 255 },
        ],
    };
    let texture = texture(&arrow);
    assert_eq!((texture.width, texture.height), (12, 12));
    assert_eq!(pixel(&texture, 4, 4), Rgba { r: 128, g: 50, b: 0, a: 128 });
    assert_eq!(pixel(&texture, 4, 5), Rgba { r: 9, g: 9, b: 9, a: 255 });
    assert_eq!(pixel(&texture, 3, 4), Rgba { r: 0, g: 0, b: 0, a: 0 });
    assert_eq!(pixel(&texture, 5, 4), Rgba { r: 0, g: 0, b: 0, a: 0 });
}

#[test]
fn a_log_is_as_long_as_it_says() {
    let buffer = b"error: x\0\0\0".to_vec();
    assert_eq!(info_log(&buffer, 8), "error: x");
    assert_eq!(info_log(&buffer, 0), "");
    assert_eq!(info_log(&buffer, -1), "");
}

/// Xcursor file with one 2x2 image per nominal size.
fn file(sizes: &[u32]) -> Vec<u8> {
    let mut bytes = b"Xcur".to_vec();
    let header = 16u32;
    bytes.extend(header.to_le_bytes());
    bytes.extend(0x1_0000u32.to_le_bytes());
    bytes.extend((sizes.len() as u32).to_le_bytes());
    let toc_end = header as usize + sizes.len() * 12;
    let chunk = 36 + 16;
    for (i, size) in sizes.iter().enumerate() {
        bytes.extend(IMAGE_TYPE.to_le_bytes());
        bytes.extend(size.to_le_bytes());
        bytes.extend(((toc_end + i * chunk) as u32).to_le_bytes());
    }
    for size in sizes {
        for value in [36, IMAGE_TYPE, *size, 1, 2, 2, 1, 1, 0] {
            bytes.extend(value.to_le_bytes());
        }
        // Premultiplied ARGB, stored B G R A: half-transparent white, then opaque red.
        bytes.extend([128, 128, 128, 128, 0, 0, 255, 255]);
        bytes.extend([0, 0, 0, 0, 0, 0, 0, *size as u8]);
    }
    bytes
}

#[test]
fn parses_the_closest_size_and_unpremultiplies() {
    let bytes = file(&[24, 48]);
    let cursor = parse(&bytes, 40).unwrap();
    assert_eq!((cursor.image.width, cursor.image.height), (2, 2));
    assert_eq!(cursor.hotspot, (1, 1));
    assert_eq!(pixel(&cursor.image, 0, 0), Rgba { r: 255, g: 255, b: 255, a: 128 });
    assert_eq!(pixel(&cursor.image, 1, 0), Rgba { r: 255, g: 0, b: 0, a: 255 });
    assert_eq!(pixel(&cursor.image, 1, 1).a, 48);
    assert_eq!(pixel(&parse(&bytes, 20).unwrap().image, 1, 1).a, 24);
    assert!(parse(b"nope", 24).is_none());
    assert!(parse(&bytes[..40], 24).is_none());
}

#[test]
fn theme_lookup_follows_inherits() {
    let files = IconFiles {
        cursors: words(&["/icons/parent/cursors/left_ptr"]),
        indexes: vec![(
            "/icons/child/index.theme".into(),
            "[Icon Theme]\nInherits = parent\n".into(),
        )],
    };
    let dirs = words(&["/icons"]);
    assert_eq!(
        find("child", &dirs, &files, 0).as_deref(),
        Some("/icons/parent/cursors/left_ptr")
    );
    assert_eq!(find("missing", &dirs, &files, 0), None);
    assert_eq!(find("../child", &dirs, &files, 0), None);
}

#[test]
fn themes_that_inherit_in_a_circle_are_given_up() {
    let files = IconFiles {
        cursors: Vec::new(),
        indexes: vec![
            ("/icons/a/index.theme".into(), "Inherits=b\n".into()),
            ("/icons/b/index.theme".into(), "Inherits=a\n".into()),
        ],
    };
    assert_eq!(find("a", &words(&["/icons"]), &files, 0), None);
}

#[test]
fn icons_are_looked_for_where_the_user_says() {
    assert_eq!(inherits("Inherits=a,b;c\n"), ["a", "b", "c"]);
    assert!(inherits("Name=x\n").is_empty());
    assert_eq!(search_path(&environment(&[("XCURSOR_PATH", "/a:/b")])), ["/a", "/b"]);
    assert_eq!(
        search_path(&environment(&[("HOME", "/home/bolt")])),
        ["/home/bolt/.local/share/icons", "/home/bolt/.icons", "/usr/share/icons", "/usr/share/pixmaps"]
    );
    assert_eq!(search_path(&environment(&[])), ["/usr/share/icons", "/usr/share/pixmaps"]);
    assert_eq!(cursor_size(&environment(&[("XCURSOR_SIZE", "48")])), 48);
    for size in ["7", "257", "x", ""] {
        assert_eq!(cursor_size(&environment(&[("XCURSOR_SIZE", size)])), 24);
    }
    assert_eq!(cursor_size(&environment(&[])), 24);
    assert_eq!(u32_at(&[0, 1, 2, 3, 4], 1), Some(0x0403_0201));
    assert_eq!(u32_at(&[0, 1, 2, 3, 4], 2), None);
    assert_eq!(u32_at(&[], u64::MAX), None);
}
