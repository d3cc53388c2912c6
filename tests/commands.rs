use stausee_mnemonic::events::{ApplicationOpenLocation, EventLoopMessage, WindowButton};
use stausee_mnemonic::commands::{
    activate_message, handle_window_buttons, mime_type, mime_type_for_lowered, tray_message,
    window_show_sys_menu, TrayEvent,
};
use stausee_mnemonic::ipc::{handle_invoke_payload, settle_post, Argument, CallbackFn, Dispatch, Invoke, IpcPayload};

fn from_value(v: &serde_json::Value) -> Argument {
    if let Some(u) = v.as_u64() {
        Argument::Integer(u as i128)
    } else if let Some(i) = v.as_i64() {
        Argument::Integer(i as i128)
    } else if let Some(items) = v.as_array() {
        Argument::Array(items.iter().map(from_value).collect())
    } else {
        Argument::Json(v.to_string())
    }
}

fn invoke(inner: &str) -> Invoke {
    let payload = IpcPayload {
        callback: CallbackFn(1),
        error: CallbackFn(2),
        command: "windowShowSysMenu".to_string(),
        inner: from_value(&serde_json::from_str(inner).unwrap()),
    };
    match handle_invoke_payload(payload) {
        Dispatch::Invoke { invoke, .. } => invoke,
        _ => panic!("windowShowSysMenu has a handler"),
    }
}

#[test]
fn sys_menu_at_position() {
    let post = window_show_sys_menu(invoke("[10, -20]")).ok().unwrap();
    assert!(matches!(post.event, EventLoopMessage::WindowShowSysMenu { x: 10, y: -20 }));
    assert_eq!(settle_post(post.resolver, Ok(())), "window.ipcHandler._dispatchResolver(1, null);");
}

#[test]
fn failed_post_rejects_with_its_error() {
    let post = window_show_sys_menu(invoke("[1, 2]")).ok().unwrap();
    assert_eq!(
        settle_post(post.resolver, Err("event loop closed".to_string())),
        "window.ipcHandler._dispatchResolver(2, \"event loop closed\");"
    );
}

#[test]
fn sys_menu_with_bad_position_rejects() {
    for inner in ["[\"a\", 1]", "[1]", "[1, 4294967296]", "[2147483648, 0]", "[1.5, 2]"] {
        let script = window_show_sys_menu(invoke(inner)).err().unwrap();
        assert_eq!(
            script,
            "window.ipcHandler._dispatchResolver(2, \"windowShowSysMenu expects two 32-bit integer coordinates\");"
        );
    }
}

#[test]
fn window_buttons_post_their_command() {
    let post = handle_window_buttons(invoke("[]"), WindowButton::Minimize);
    assert!(matches!(post.event, EventLoopMessage::WindowSysCommand(WindowButton::Minimize)));
    assert_eq!(settle_post(post.resolver, Ok(())), "window.ipcHandler._dispatchResolver(1, null);");
}

#[test]
fn tray_clicks() {
    assert!(matches!(
        tray_message(TrayEvent::LeftClick, 1, 2),
        Some(EventLoopMessage::ApplicationOpenWindow(ApplicationOpenLocation::Auto))
    ));
    assert!(matches!(
        tray_message(TrayEvent::MenuItemClick(1), 1, 2),
        Some(EventLoopMessage::ApplicationOpenWindow(ApplicationOpenLocation::Auto))
    ));
    assert!(matches!(tray_message(TrayEvent::MenuItemClick(2), 1, 2), Some(EventLoopMessage::ApplicationQuit)));
    assert!(tray_message(TrayEvent::MenuItemClick(3), 1, 2).is_none());
    assert!(tray_message(TrayEvent::Other, 1, 2).is_none());
}

#[test]
fn media_types_of_the_bundle() {
    assert_eq!(mime_type("html"), Some("text/html".to_string()));
    assert_eq!(mime_type("SVG"), Some("image/svg+xml".to_string()));
    assert_eq!(mime_type("Ttf"), Some("font/ttf".to_string()));
    assert_eq!(mime_type("JS"), Some("text/javascript".to_string()));
    assert_eq!(mime_type("css"), Some("text/css".to_string()));
    assert_eq!(mime_type("exe"), None);
    assert_eq!(mime_type_for_lowered("CSS"), None);
}

#[test]
fn sys_menu_extremes_and_extra_arguments() {
    let post = window_show_sys_menu(invoke("[-2147483648, 2147483647, 9]")).ok().unwrap();
    assert!(matches!(post.event, EventLoopMessage::WindowShowSysMenu { x: -2147483648, y: 2147483647 }));
}

#[test]
fn sys_menu_needs_an_array() {
    let script = window_show_sys_menu(invoke("{\"x\": 1}")).err().unwrap();
    assert_eq!(script, "window.ipcHandler._dispatchResolver(2, \"payload has to be an array.\");");
}

#[test]
fn activation_parameter_meanings() {
    assert!(matches!(activate_message(1), EventLoopMessage::WindowFocus));
    assert!(matches!(activate_message(2), EventLoopMessage::WindowFocus));
    assert!(matches!(activate_message(0), EventLoopMessage::WindowBlur));
    assert!(matches!(activate_message(3), EventLoopMessage::WindowMinimize));
}
