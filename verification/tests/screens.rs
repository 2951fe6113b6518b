use rustshot_wayland::screens::{
    choose_cursor_screen, focused_screen, focused_screen_from_hypr_json, parse_cursorpos,
    screens_from_hypr_json, screens_from_monitors, HyprMonitor, LayoutError, Screen,
};

const TWO: &str = r#"[
  {"id":0,"name":"eDP-1","x":0,"y":0,"width":1920,"height":1200,"focused":false},
  {"id":1,"name":"HDMI-A-1","x":1920,"y":-200,"width":2560,"height":1440,"focused":true},
  {"id":2,"name":"ghost","x":0,"y":0,"width":0,"height":1080,"focused":false}
]"#;

fn screen(name: &str, x: i32, y: i32, w: u32, h: u32) -> Screen {
    Screen { x, y, width: w, height: h, name: name.to_string() }
}

#[test]
fn hyprctl_monitors_layout() {
    let s = screens_from_hypr_json(TWO.as_bytes()).unwrap();
    assert_eq!(s.len(), 2);
    assert_eq!((s[0].name.as_str(), s[0].x, s[0].y, s[0].width, s[0].height), ("eDP-1", 0, 0, 1920, 1200));
    assert_eq!((s[1].name.as_str(), s[1].x, s[1].y), ("HDMI-A-1", 1920, -200));
}

#[test]
fn hyprctl_monitors_errors() {
    assert_eq!(screens_from_hypr_json(b"not json").err(), Some(LayoutError::NotJson));
    assert_eq!(screens_from_hypr_json(b"{\"a\":1}").err(), Some(LayoutError::NotArray));
    assert_eq!(screens_from_hypr_json(b"[]").err(), Some(LayoutError::NoMonitors));
    assert_eq!(
        screens_from_hypr_json(br#"[{"name":"x","width":0,"height":5}]"#).err(),
        Some(LayoutError::NoMonitors)
    );
}

#[test]
fn missing_fields_read_as_zero_or_empty() {
    let s = screens_from_hypr_json(br#"[{"width":10,"height":"7"},{"width":3,"height":4,"x":-5}]"#)
        .unwrap();
    assert_eq!(s.len(), 1);
    assert_eq!((s[0].name.as_str(), s[0].x, s[0].y, s[0].width, s[0].height), ("", -5, 0, 3, 4));
}

#[test]
fn focused_monitor_by_name() {
    let s = screens_from_hypr_json(TWO.as_bytes()).unwrap();
    assert_eq!(focused_screen_from_hypr_json(TWO.as_bytes(), &s), Some(1));
    assert_eq!(focused_screen_from_hypr_json(b"oops", &s), None);
    let none_focused = TWO.replace("true", "false");
    assert_eq!(focused_screen_from_hypr_json(none_focused.as_bytes(), &s), None);
}

#[test]
fn focused_screen_from_plain_entries() {
    let m = HyprMonitor {
        name: Some("B".into()),
        x: Some(0),
        y: Some(0),
        width: Some(1),
        height: Some(1),
        focused: Some(true),
    };
    let screens = vec![screen("A", 0, 0, 10, 10), screen("B", 10, 0, 10, 10)];
    assert_eq!(focused_screen(&vec![m.clone()], &screens), Some(1));
    let layout = screens_from_monitors(&vec![m]).unwrap();
    assert_eq!(layout[0].name, "B");
}

#[test]
fn cursor_screen_choice() {
    let screens = vec![screen("A", 0, 0, 100, 100), screen("B", 100, 0, 100, 100)];
    assert_eq!(choose_cursor_screen(&screens, None, (150, 50)), Some(1));
    assert_eq!(choose_cursor_screen(&screens, None, (100, 0)), Some(1));
    assert_eq!(choose_cursor_screen(&screens, None, (99, 99)), Some(0));
    assert_eq!(choose_cursor_screen(&screens, None, (500, 500)), Some(0));
    assert_eq!(choose_cursor_screen(&screens, Some(1), (0, 0)), Some(1));
    assert_eq!(choose_cursor_screen(&screens[..1].to_vec(), None, (500, 500)), Some(0));
    assert_eq!(choose_cursor_screen(&vec![], None, (0, 0)), None);
}

#[test]
fn cursorpos_parsing() {
    assert_eq!(parse_cursorpos("1920, 540\n"), Some((1920, 540)));
    assert_eq!(parse_cursorpos("-5,+7"), Some((-5, 7)));
    assert_eq!(parse_cursorpos("1,2,3"), Some((1, 2)));
    assert_eq!(parse_cursorpos("12"), None);
    assert_eq!(parse_cursorpos("a,1"), None);
    assert_eq!(parse_cursorpos("2147483648,0"), None);
    assert_eq!(parse_cursorpos("-2147483648,0"), Some((i32::MIN, 0)));
    assert_eq!(parse_cursorpos(" , 1"), None);
}

#[test]
fn single_screen_at_the_edge_needs_no_scan() {
    let screens = vec![screen("far", i32::MAX, i32::MAX, 100, 100)];
    assert_eq!(choose_cursor_screen(&screens, None, (0, 0)), Some(0));
}
