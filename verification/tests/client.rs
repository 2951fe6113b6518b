use rustshot_wayland::cli::{CaptureArgs, Command};
use rustshot_wayland::client::{dbus_call, path_string, DbusMethod};
use rustshot_wayland::dbus::{kind_for_screen, outputs_for, CaptureKind, Outputs, OBJECT_PATH, SERVICE_NAME};

fn args(path: Option<&str>, delay: u64) -> CaptureArgs {
    CaptureArgs { path: path.map(|s| s.to_string()), clipboard: true, delay, no_save: false }
}

#[test]
fn path_string_is_empty_for_none() {
    assert_eq!(path_string(None), "");
    assert_eq!(path_string(Some("/a b.png".into())), "/a b.png");
}

#[test]
fn gui_and_full_calls() {
    let c = dbus_call(Command::Gui(args(Some("/x.png"), 250)));
    assert_eq!(c.method, DbusMethod::GraphicCaptureFlags);
    assert_eq!(c.method.name(), "graphicCaptureFlags");
    assert_eq!(c.screen, None);
    assert_eq!(c.path, "/x.png");
    assert_eq!(c.delay, 250);
    assert!(c.clipboard && !c.no_save);

    let c = dbus_call(Command::Full(args(None, 0)));
    assert_eq!(c.method.name(), "fullScreenFlags");
    assert_eq!(c.path, "");
}

#[test]
fn screen_call_numbers() {
    let c = dbus_call(Command::Screen { common: args(None, 0), number: Some(2) });
    assert_eq!(c.method.name(), "captureScreenFlags");
    assert_eq!(c.screen, Some(2));
    let c = dbus_call(Command::Screen { common: args(None, 0), number: None });
    assert_eq!(c.screen, Some(-1));
}

#[test]
fn delay_is_truncated_to_32_bits() {
    let c = dbus_call(Command::Gui(args(None, (1u64 << 32) + 7)));
    assert_eq!(c.delay, 7);
}

#[test]
fn screen_numbers_round_trip_through_the_service() {
    assert_eq!(kind_for_screen(-1), CaptureKind::CursorScreen);
    assert_eq!(kind_for_screen(-7), CaptureKind::CursorScreen);
    assert_eq!(kind_for_screen(0), CaptureKind::Screen(0));
    assert_eq!(kind_for_screen(3), CaptureKind::Screen(3));
    let c = dbus_call(Command::Screen { common: args(None, 0), number: Some(3) });
    assert_eq!(kind_for_screen(c.screen.unwrap()), CaptureKind::Screen(3));
    let c = dbus_call(Command::Screen { common: args(None, 0), number: None });
    assert_eq!(kind_for_screen(c.screen.unwrap()), CaptureKind::CursorScreen);
}

#[test]
fn bus_names() {
    assert_eq!(SERVICE_NAME, "org.rustshot.Wayland");
    assert_eq!(OBJECT_PATH, "/");
}

#[test]
fn capture_outputs() {
    assert_eq!(outputs_for("/x.png", false, false), Outputs { save: true, copy: false });
    assert_eq!(outputs_for("", true, false), Outputs { save: false, copy: true });
    assert_eq!(outputs_for("", false, true), Outputs { save: false, copy: true });
    assert_eq!(outputs_for("", false, false), Outputs { save: false, copy: false });
}
