use boltsnap::cli::{Backend, CaptureMode};
use boltsnap::linux::capture::{
    active_region, capture_png, check_backend, finish_capture, full_failed, grab_step, into_rgb,
    parse_geometry, parse_hypr_window_geometry, portal_grabbed, selected, strip_uniform_border,
    x11_clicked, x11_image, x11_picked, x11_target, DesktopGrab, FullError, GrabStep, Region,
    X11Target, NO_REGION,
};
use boltsnap::picture::{bytes_of, read_picture, read_png, read_png_within, write_png};
use boltsnap::pixels::{crop, paste, pixel, uniform_rings, Image, Rgb, Rgba};

fn filled<P: Copy>(width: u32, height: u32, pixel: P) -> Image<P> {
    Image { width, height, pixels: vec![pixel; (width * height) as usize] }
}

fn put<P: Copy>(image: &mut Image<P>, x: u32, y: u32, pixel: P) {
    image.pixels[(y * image.width + x) as usize] = pixel;
}

fn rgb(r: u8, g: u8, b: u8) -> Rgb {
    Rgb { r, g, b }
}

fn rgba(r: u8, g: u8, b: u8, a: u8) -> Rgba {
    Rgba { r, g, b, a }
}

/// A picture of 64 by 48 pixels with a border of two.
fn bordered() -> Image<Rgb> {
    let mut image = filled(64, 48, rgb(30, 30, 30));
    for y in 2..46 {
        for x in 2..62 {
            put(&mut image, x, y, rgb(x as u8, y as u8, 180));
        }
    }
    image
}

#[test]
fn owned_rgba_is_reused() {
    let rgba = image::RgbaImage::new(23, 17);
    let allocation = rgba.as_ptr();
    let owned = image::DynamicImage::ImageRgba8(rgba).into_rgba8();
    assert_eq!(owned.as_ptr(), allocation);
}

#[test]
fn border_trimming_preserves_pixels_and_uniform_images() {
    let plain = filled(64, 48, rgb(30, 30, 30));
    assert_eq!(strip_uniform_border(plain.clone()), plain);
    let mut image = bordered();
    let expected = crop(&image, 2, 2, 60, 44);
    assert_eq!((expected.width, expected.height), (60, 44));
    assert_eq!(expected.pixels[0], rgb(2, 2, 180));
    assert_eq!(expected.pixels[60 * 44 - 1], rgb(61, 45, 180));
    assert_eq!(strip_uniform_border(image.clone()), expected);
    put(&mut image, 0, 0, rgb(255, 0, 0));
    assert_eq!(strip_uniform_border(image.clone()), image);
}

#[test]
fn a_border_is_not_looked_for_in_a_small_picture() {
    let mut image = filled(31, 40, rgb(1, 1, 1));
    put(&mut image, 15, 20, rgb(2, 2, 2));
    assert_eq!(strip_uniform_border(image.clone()), image);
    assert_eq!(uniform_rings(&bordered()), 2);
}

#[test]
fn parse_hypr_geometry() {
    let json = r#"{"at":[100,200],"size":[900,700],"title":"x"}"#;
    assert_eq!(parse_hypr_window_geometry(json).as_deref(), Some("100,200 900x700"));
}

#[test]
fn a_window_without_a_size_has_no_geometry() {
    assert_eq!(parse_hypr_window_geometry("not json"), None);
    assert_eq!(parse_hypr_window_geometry("{}"), None);
    assert_eq!(parse_hypr_window_geometry(r#"{"at":[1],"size":[2,3]}"#), None);
    assert_eq!(parse_hypr_window_geometry(r#"{"at":[1,2],"size":[0,3]}"#), None);
    assert_eq!(parse_hypr_window_geometry(r#"{"at":[1,2],"size":[4,-3]}"#), None);
    assert_eq!(parse_hypr_window_geometry(r#"{"at":[1.5,2],"size":[4,3]}"#), None);
    assert_eq!(
        parse_hypr_window_geometry(r#"{"at":[-1,-2],"size":[4,3]}"#).as_deref(),
        Some("-1,-2 4x3")
    );
}

#[test]
fn libway_region_preserves_signed_origin_and_rejects_invalid_sizes() {
    assert_eq!(
        parse_geometry("-1920,-200 900x700").unwrap(),
        Region { x: -1920, y: -200, width: 900, height: 700 }
    );
    for invalid in ["0,0 0x10", "0,0 10x0", "0,0 4294967295x2", "2147483648,0 1x1", "bad"] {
        assert!(parse_geometry(invalid).is_err(), "{invalid}");
    }
}

#[test]
fn a_bad_geometry_is_named() {
    assert_eq!(parse_geometry("bad").unwrap_err(), "bad geometry 'bad'");
    assert_eq!(parse_geometry("1 2x3").unwrap_err(), "bad geometry position '1'");
    assert_eq!(parse_geometry("1,2 3").unwrap_err(), "bad geometry size '3'");
    assert_eq!(parse_geometry("0,0 0x10").unwrap_err(), "zero-sized region '0,0 0x10'");
    assert_eq!(
        parse_geometry("0,0 4294967295x2").unwrap_err(),
        "invalid region '0,0 4294967295x2'"
    );
    assert_eq!(parse_geometry("x,0 1x1").unwrap_err(), "invalid digit found in string");
}

#[test]
fn the_active_window_is_known_on_hyprland_only() {
    assert_eq!(
        active_region(Some("5,6 7x8")).unwrap(),
        Region { x: 5, y: 6, width: 7, height: 8 }
    );
    assert_eq!(active_region(Some("bad")).unwrap_err(), "bad geometry 'bad'");
    assert_eq!(
        active_region(None).unwrap_err(),
        "active-window on Wayland requires Hyprland (hyprctl)"
    );
}

#[test]
fn an_x_server_has_no_region_selection() {
    assert_eq!(x11_target(CaptureMode::Full, None), Ok(X11Target::Root));
    assert_eq!(x11_target(CaptureMode::Area, Some(5)), Err(NO_REGION.to_string()));
    assert_eq!(x11_target(CaptureMode::Window, Some(5)), Ok(X11Target::Pick));
    assert_eq!(x11_target(CaptureMode::ActiveWindow, Some(5)), Ok(X11Target::Window(5)));
    assert_eq!(x11_target(CaptureMode::ActiveWindow, Some(0)), Ok(X11Target::Pick));
    assert_eq!(x11_target(CaptureMode::ActiveWindow, None), Ok(X11Target::Pick));
    assert_eq!(x11_clicked(3, 4), 3);
    assert_eq!(x11_clicked(0, 4), 4);
    assert_eq!(x11_picked(Some(9)), Ok(9));
    assert_eq!(x11_picked(Some(0)), Err(NO_REGION.to_string()));
    assert_eq!(x11_picked(None), Err(NO_REGION.to_string()));
}

#[test]
fn pixels_of_an_x_server_are_stored_blue_first() {
    let image = x11_image(2, 1, &[1, 2, 3, 0, 4, 5, 6, 9], 24).unwrap();
    assert_eq!((image.width, image.height), (2, 1));
    assert_eq!(image.pixels, vec![rgba(3, 2, 1, 255), rgba(6, 5, 4, 255)]);
    assert_eq!(x11_image(0, 7, &[], 24).unwrap_err(), "zero-sized X11 capture rect 0x7");
    assert_eq!(
        x11_image(2, 1, &[1, 2, 3, 4, 5, 6], 16).unwrap_err(),
        "unexpected X11 pixmap stride: 3 bytes per pixel (depth 16)"
    );
}

#[test]
fn only_a_window_loses_its_border() {
    let plain = bordered();
    let image = Image {
        width: plain.width,
        height: plain.height,
        pixels: plain.pixels.iter().map(|p| rgba(p.r, p.g, p.b, 7)).collect(),
    };
    assert_eq!(into_rgb(&image), plain);
    let trimmed = crop(&plain, 2, 2, 60, 44);
    assert_eq!(finish_capture(&image, CaptureMode::Window, true), trimmed);
    assert_eq!(finish_capture(&image, CaptureMode::ActiveWindow, true), trimmed);
    assert_eq!(finish_capture(&image, CaptureMode::Window, false), plain);
    assert_eq!(finish_capture(&image, CaptureMode::Full, true), plain);
    assert_eq!(finish_capture(&image, CaptureMode::Area, true), plain);
}

#[test]
fn a_screenshot_can_be_read_back() {
    let mut image = filled(3, 2, rgba(10, 20, 30, 40));
    put(&mut image, 2, 1, rgba(200, 100, 50, 0));
    let png = capture_png(&image, CaptureMode::Full, false).unwrap();
    assert_eq!(&png[..8], &[0x89, 0x50, 0x4e, 0x47, 0x0d, 0x0a, 0x1a, 0x0a]);
    let mut expected = filled(3, 2, rgba(10, 20, 30, 255));
    put(&mut expected, 2, 1, rgba(200, 100, 50, 255));
    assert_eq!(read_png(&png).unwrap(), expected);
    assert_eq!(read_picture(&png).unwrap(), expected);
    assert_eq!(read_png_within(&png, 3, 2, 1_000_000).unwrap(), expected);
    assert!(read_png_within(&png, 2, 2, 1_000_000).is_none());
    assert!(read_png_within(&png, 3, 1, 1_000_000).is_none());
    assert!(read_png_within(&png, 3, 2, 4).is_none());
}

#[test]
fn bytes_that_are_no_picture_are_refused() {
    assert!(read_png(b"no picture").is_none());
    assert!(!read_picture(b"no picture").unwrap_err().is_empty());
    assert!(read_png_within(b"no picture", 10, 10, 1_000_000).is_none());
}

#[test]
fn a_picture_of_nothing_cannot_be_written() {
    let nothing: Image<Rgb> = Image { width: 0, height: 0, pixels: Vec::new() };
    assert!(!write_png(&nothing).unwrap_err().is_empty());
    let image = Image { width: 2, height: 1, pixels: vec![rgb(1, 2, 3), rgb(4, 5, 6)] };
    assert_eq!(bytes_of(&image.pixels), vec![1, 2, 3, 4, 5, 6]);
    let png = write_png(&image).unwrap();
    assert_eq!(read_png(&png).unwrap().pixels, vec![rgba(1, 2, 3, 255), rgba(4, 5, 6, 255)]);
}

#[test]
fn a_part_goes_where_it_is_put() {
    let mut image = filled(4, 3, rgb(0, 0, 0));
    let mut source = filled(3, 3, rgb(9, 9, 9));
    put(&mut source, 1, 2, rgb(1, 2, 3));
    paste(&mut image, &source, (1, 1), (2, 2), (0, 1));
    assert_eq!(pixel(&image, 0, 0), rgb(0, 0, 0));
    assert_eq!(pixel(&image, 0, 1), rgb(9, 9, 9));
    assert_eq!(pixel(&image, 0, 2), rgb(1, 2, 3));
    assert_eq!(pixel(&image, 1, 2), rgb(9, 9, 9));
    assert_eq!(pixel(&image, 2, 2), rgb(0, 0, 0));
}

#[test]
fn windows_is_not_captured_on_linux() {
    assert_eq!(
        check_backend(Backend::Windows).unwrap_err(),
        "Windows capture is unavailable on Linux"
    );
    assert!(check_backend(Backend::Wayland).is_ok());
    assert!(check_backend(Backend::X11).is_ok());
}

#[test]
fn the_portal_stands_in_for_the_desktop() {
    let taken = DesktopGrab::Taken { same_layout: true };
    assert_eq!(grab_step(true, false, &taken), Ok(GrabStep::Use));
    assert_eq!(
        grab_step(true, false, &DesktopGrab::Failed("broken".into())),
        Ok(GrabStep::Portal)
    );
    assert_eq!(
        grab_step(false, false, &taken).unwrap_err(),
        "invalid or oversized desktop layout"
    );
    assert_eq!(
        grab_step(true, true, &taken).unwrap_err(),
        "desktop capture exceeds 64 million pixels"
    );
    for changed in [DesktopGrab::Taken { same_layout: false }, DesktopGrab::LayoutChanged] {
        assert_eq!(
            grab_step(true, false, &changed).unwrap_err(),
            "desktop layout changed during capture; retry"
        );
    }
    assert_eq!(portal_grabbed("a", Ok(()), Ok(true)), Ok(()));
    assert_eq!(
        portal_grabbed("a", Ok(()), Ok(false)).unwrap_err(),
        "desktop layout changed during portal capture; retry"
    );
    assert_eq!(portal_grabbed("a", Ok(()), Err("gone".into())).unwrap_err(), "gone");
    assert_eq!(
        portal_grabbed("a", Err("b".into()), Ok(true)).unwrap_err(),
        "libway desktop failed: a; portal fallback failed: b"
    );
    assert_eq!(
        full_failed(FullError::Connection("c".into()), "d"),
        "wayland connection failed: c; portal fallback failed: d"
    );
    assert_eq!(
        full_failed(FullError::Capture("c".into()), "d"),
        "libway desktop capture failed: c; portal fallback failed: d"
    );
    assert_eq!(selected(Some(4)), Ok(4));
    assert_eq!(selected::<u8>(None).unwrap_err(), "selection cancelled");
}
