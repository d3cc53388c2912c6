use stausee_mnemonic::dialog::{
    dialog_icon, message_box_layout, split_buttons, CommonButtons, DialogIcon, MessageBoxOptions,
};

fn options(buttons: &[&str], no_link: bool) -> MessageBoxOptions {
    MessageBoxOptions {
        message: "Save changes?".to_string(),
        dialog_type: "warning".to_string(),
        buttons: buttons.iter().map(|s| s.to_string()).collect(),
        default_id: 1,
        title: "Mnemonic".to_string(),
        detail: String::new(),
        checkbox_label: String::new(),
        checkbox_checked: false,
        no_link,
    }
}

const NONE: CommonButtons = CommonButtons { ok: false, yes: false, no: false, cancel: false, retry: false, close: false };

#[test]
fn no_buttons_shows_ok() {
    let layout = message_box_layout(options(&[], false));
    assert_eq!(layout.common, CommonButtons { ok: true, ..NONE });
    assert!(layout.custom_buttons.is_empty());
    assert!(layout.command_links);
}

#[test]
fn platform_labels_become_platform_buttons() {
    let layout = message_box_layout(options(&["Yes", "Save", "No", "OK", "Later"], false));
    assert_eq!(layout.common, CommonButtons { yes: true, no: true, ok: true, ..NONE });
    assert_eq!(layout.custom_buttons, vec!["Save".to_string(), "Later".to_string()]);
    assert_eq!(layout.default_button, 101);
    assert_eq!(layout.icon, DialogIcon::Warning);
}

#[test]
fn without_links_every_label_is_custom() {
    let layout = message_box_layout(options(&["Yes", "Save"], true));
    assert_eq!(layout.common, NONE);
    assert_eq!(layout.custom_buttons, vec!["Yes".to_string(), "Save".to_string()]);
    assert!(!layout.command_links);
}

#[test]
fn detail_moves_message_to_main_instruction() {
    let mut o = options(&[], false);
    o.detail = "Unsaved work is lost.".to_string();
    let layout = message_box_layout(o);
    assert_eq!(layout.main_instruction, Some("Save changes?".to_string()));
    assert_eq!(layout.content, "Unsaved work is lost.");
    let plain = message_box_layout(options(&[], false));
    assert_eq!(plain.main_instruction, None);
    assert_eq!(plain.content, "Save changes?");
    assert_eq!(plain.title, "Mnemonic");
}

#[test]
fn checkbox_label_adds_the_check_box() {
    let mut o = options(&[], false);
    o.checkbox_label = "Do not ask again".to_string();
    o.checkbox_checked = true;
    let layout = message_box_layout(o);
    assert_eq!(layout.verification, Some(("Do not ask again".to_string(), true)));
    assert_eq!(message_box_layout(options(&[], false)).verification, None);
}

#[test]
fn icons_by_dialog_type() {
    assert_eq!(dialog_icon("info"), DialogIcon::Information);
    assert_eq!(dialog_icon("error"), DialogIcon::Error);
    assert_eq!(dialog_icon("warning"), DialogIcon::Warning);
    assert_eq!(dialog_icon("shield"), DialogIcon::Shield);
    assert_eq!(dialog_icon("none"), DialogIcon::NoIcon);
    assert_eq!(dialog_icon(""), DialogIcon::NoIcon);
}

#[test]
fn split_keeps_duplicates_out_and_order() {
    let buttons: Vec<String> = ["Ok", "A", "Cancel", "B", "Ok", "Retry", "Close"].iter().map(|s| s.to_string()).collect();
    let (common, custom) = split_buttons(&buttons);
    assert_eq!(common, CommonButtons { ok: true, cancel: true, retry: true, close: true, ..NONE });
    assert_eq!(custom, vec!["A".to_string(), "B".to_string()]);
}
