//! Layout of the message box that the interface asks for: which buttons are
//! the platform's own, which are drawn as command links, and what text goes
//! where.

use vstd::prelude::*;

verus! {

/// What the interface asks to show.
pub struct MessageBoxOptions {
    pub message: String,
    pub dialog_type: String,
    pub buttons: Vec<String>,
    pub default_id: u32,
    pub title: String,
    pub detail: String,
    pub checkbox_label: String,
    pub checkbox_checked: bool,
    pub no_link: bool,
}

/// The platform's own buttons that the dialog shows.
#[derive(Debug, Clone, Copy, PartialEq, Eq, Structural)]
pub struct CommonButtons {
    pub ok: bool,
    pub yes: bool,
    pub no: bool,
    pub cancel: bool,
    pub retry: bool,
    pub close: bool,
}

/// The icon beside the main text.
#[derive(Debug, Clone, Copy, PartialEq, Eq, Structural)]
pub enum DialogIcon {
    NoIcon,
    Information,
    Error,
    Warning,
    Shield,
}

/// Everything the platform dialog is built from.
pub struct DialogLayout {
    /// Whether custom buttons are drawn as command links.
    pub command_links: bool,
    pub common: CommonButtons,
    /// The custom buttons; the one at index `i` answers `100 + i`.
    pub custom_buttons: Vec<String>,
    pub icon: DialogIcon,
    pub title: String,
    /// The emphasized first line, if the dialog has a detail text.
    pub main_instruction: Option<String>,
    pub content: String,
    /// The answer of the button that is focused first.
    pub default_button: u64,
    /// The check box: its label and whether it starts checked.
    pub verification: Option<(String, bool)>,
}

/// Custom buttons are answered from this number on.
pub const CUSTOM_BUTTON_BASE: u32 = 100;

/// Whether a button label names one of the platform's own buttons.
pub open spec fn is_common(label: Seq<char>) -> bool {
    label == "Ok"@ || label == "OK"@ || label == "Yes"@ || label == "No"@ || label == "Cancel"@
        || label == "Retry"@ || label == "Close"@
}

/// The labels that stay custom buttons, in order.
pub open spec fn custom_labels(labels: Seq<Seq<char>>) -> Seq<Seq<char>>
    decreases labels.len(),
{
    if labels.len() == 0 {
        seq![]
    } else if is_common(labels.last()) {
        custom_labels(labels.drop_last())
    } else {
        custom_labels(labels.drop_last()).push(labels.last())
    }
}

/// Whether one of `labels` is `a` or `b`.
pub open spec fn has_label(labels: Seq<Seq<char>>, a: Seq<char>, b: Seq<char>) -> bool {
    exists|i: int| 0 <= i < labels.len() && (#[trigger] labels[i] == a || labels[i] == b)
}

/// The platform buttons that `labels` name.
pub open spec fn common_of(labels: Seq<Seq<char>>) -> CommonButtons {
    CommonButtons {
        ok: has_label(labels, "Ok"@, "OK"@),
        yes: has_label(labels, "Yes"@, "Yes"@),
        no: has_label(labels, "No"@, "No"@),
        cancel: has_label(labels, "Cancel"@, "Cancel"@),
        retry: has_label(labels, "Retry"@, "Retry"@),
        close: has_label(labels, "Close"@, "Close"@),
    }
}

/// The icon that a dialog type names; any other type has none.
pub open spec fn icon_of(dialog_type: Seq<char>) -> DialogIcon {
    if dialog_type == "info"@ {
        DialogIcon::Information
    } else if dialog_type == "error"@ {
        DialogIcon::Error
    } else if dialog_type == "warning"@ {
        DialogIcon::Warning
    } else if dialog_type == "shield"@ {
        DialogIcon::Shield
    } else {
        DialogIcon::NoIcon
    }
}

fn label_is(label: &String, name: &str) -> (r: bool)
    ensures
        r == (label@ == name@),
{
    *label == String::from_str(name)
}

/// The icon for a dialog type.
pub fn dialog_icon(dialog_type: &str) -> (r: DialogIcon)
    ensures
        r == icon_of(dialog_type@),
{
    let t = String::from_str(dialog_type);
    if label_is(&t, "info") {
        DialogIcon::Information
    } else if label_is(&t, "error") {
        DialogIcon::Error
    } else if label_is(&t, "warning") {
        DialogIcon::Warning
    } else if label_is(&t, "shield") {
        DialogIcon::Shield
    } else {
        DialogIcon::NoIcon
    }
}

/// Splits button labels into the platform's own buttons and the custom
/// ones, which keep their order.
pub fn split_buttons(buttons: &Vec<String>) -> (r: (CommonButtons, Vec<String>))
    ensures
        r.0 == common_of(buttons@.map_values(|b: String| b@)),
        r.1@.map_values(|b: String| b@) == custom_labels(buttons@.map_values(|b: String| b@)),
{
    let ghost labels = buttons@.map_values(|b: String| b@);
    let mut common = CommonButtons { ok: false, yes: false, no: false, cancel: false, retry: false, close: false };
    let mut custom: Vec<String> = Vec::new();
    let mut i: usize = 0;
    while i < buttons.len()
        invariant
            i <= buttons.len(),
            labels == buttons@.map_values(|b: String| b@),
            common == common_of(labels.take(i as int)),
            custom@.map_values(|b: String| b@) == custom_labels(labels.take(i as int)),
        decreases buttons.len() - i,
    {
        let b = &buttons[i];
        let ghost prev = labels.take(i as int);
        let ghost next = labels.take(i + 1);
        assert(next =~= prev.push(b@));
        assert(next.drop_last() =~= prev);
        let is_ok = label_is(b, "Ok") || label_is(b, "OK");
        let is_yes = label_is(b, "Yes");
        let is_no = label_is(b, "No");
        let is_cancel = label_is(b, "Cancel");
        let is_retry = label_is(b, "Retry");
        let is_close = label_is(b, "Close");
        common = CommonButtons {
            ok: common.ok || is_ok,
            yes: common.yes || is_yes,
            no: common.no || is_no,
            cancel: common.cancel || is_cancel,
            retry: common.retry || is_retry,
            close: common.close || is_close,
        };
        if !(is_ok || is_yes || is_no || is_cancel || is_retry || is_close) {
            let ghost before = custom@;
            custom.push(b.clone());
            assert(custom@.map_values(|b: String| b@) =~= before.map_values(|b: String| b@).push(labels[i as int]));
        }
        proof {
            assert(next[i as int] == b@);
            assert forall|x: Seq<char>, y: Seq<char>| has_label(next, x, y) == (has_label(prev, x, y) || b@ == x || b@ == y) by {
                if has_label(next, x, y) {
                    let j = choose|j: int| 0 <= j < next.len() && (#[trigger] next[j] == x || next[j] == y);
                    if j < i {
                        assert(prev[j] == next[j]);
                    }
                }
                if has_label(prev, x, y) {
                    let j = choose|j: int| 0 <= j < prev.len() && (#[trigger] prev[j] == x || prev[j] == y);
                    assert(next[j] == prev[j]);
                }
            }
        }
        i = i + 1;
    }
    assert(labels.take(buttons.len() as int) =~= labels);
    (common, custom)
}

/// The dialog for `options`. Without buttons it shows the platform's OK
/// button. With buttons and command links, labels that name platform
/// buttons become those buttons and the rest stay custom; without command
/// links every label stays custom. A detail text makes the message the
/// main instruction and the detail the content; a check box label adds the
/// check box.
pub fn message_box_layout(options: MessageBoxOptions) -> (r: DialogLayout)
    ensures
        ({
            let labels = options.buttons@.map_values(|b: String| b@);
            let no_buttons = CommonButtons { ok: false, yes: false, no: false, cancel: false, retry: false, close: false };
            &&& r.command_links == !options.no_link
            &&& r.common == (if labels.len() == 0 {
                CommonButtons { ok: true, ..no_buttons }
            } else if options.no_link {
                no_buttons
            } else {
                common_of(labels)
            })
            &&& r.custom_buttons@.map_values(|b: String| b@) == (if options.no_link { labels } else { custom_labels(labels) })
            &&& r.icon == icon_of(options.dialog_type@)
            &&& r.title@ == options.title@
            &&& (if options.detail@.len() > 0 {
                r.main_instruction matches Some(m) && m@ == options.message@ && r.content@ == options.detail@
            } else {
                r.main_instruction is None && r.content@ == options.message@
            })
            &&& r.default_button == options.default_id + 100
            &&& (if options.checkbox_label@.len() > 0 {
                r.verification matches Some((label, checked)) && label@ == options.checkbox_label@
                    && checked == options.checkbox_checked
            } else {
                r.verification is None
            })
        }),
{
    let no_buttons = CommonButtons { ok: false, yes: false, no: false, cancel: false, retry: false, close: false };
    let ghost labels = options.buttons@.map_values(|b: String| b@);
    let (common, custom_buttons) = if options.buttons.len() == 0 {
        (CommonButtons { ok: true, ..no_buttons }, options.buttons)
    } else if options.no_link {
        (no_buttons, options.buttons)
    } else {
        split_buttons(&options.buttons)
    };
    proof {
        if labels.len() == 0 {
            assert(custom_labels(labels) =~= labels);
        }
    }
    let icon = dialog_icon(options.dialog_type.as_str());
    let (main_instruction, content) = if options.detail.as_str().unicode_len() > 0 {
        (Some(options.message), options.detail)
    } else {
        (None, options.message)
    };
    let verification = if options.checkbox_label.as_str().unicode_len() > 0 {
        Some((options.checkbox_label, options.checkbox_checked))
    } else {
        None
    };
    DialogLayout {
        command_links: !options.no_link,
        common,
        custom_buttons,
        icon,
        title: options.title,
        main_instruction,
        content,
        default_button: options.default_id as u64 + CUSTOM_BUTTON_BASE as u64,
        verification,
    }
}

} // verus!
