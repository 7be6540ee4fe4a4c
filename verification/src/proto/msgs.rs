//! Control messages, built from what they carry.
use super::messages::{
    BackOrScreenOn, CreateDisplay, CtrlMsg, InjectKeycode, InjectScroll, InjectText, InjectTouch,
    Msg, ResizeDisplay, SetAudio, SetClipboard, StartApp,
};
use vstd::prelude::*;

verus! {

pub fn inject_keycode(
    display_id: u32,
    action: u32,
    keycode: u32,
    repeat: u32,
    meta_state: u32,
) -> (r: CtrlMsg)
    ensures
        r.msg == Some(
            Msg::InjectKeycode(
                InjectKeycode { display_id, action, keycode, repeat, meta_state },
            ),
        ),
{
    CtrlMsg {
        msg: Some(
            Msg::InjectKeycode(
                InjectKeycode { display_id, action, keycode, repeat, meta_state },
            ),
        ),
    }
}

pub fn inject_text(display_id: u32, text: &str) -> (r: CtrlMsg)
    ensures
        r.msg matches Some(Msg::InjectText(m)) && m.display_id == display_id && m.text@ == text@,
{
    CtrlMsg { msg: Some(Msg::InjectText(InjectText { display_id, text: text.to_owned() })) }
}

/// A touch at (`x`, `y`) of a screen of the given size; `pressure` is the bits of a 32-bit
/// floating-point number.
#[allow(clippy::too_many_arguments)]
pub fn inject_touch(
    display_id: u32,
    action: u32,
    pointer_id: u64,
    x: i32,
    y: i32,
    screen_width: u32,
    screen_height: u32,
    pressure: u32,
    action_button: u32,
    buttons: u32,
) -> (r: CtrlMsg)
    ensures
        r.msg == Some(
            Msg::InjectTouch(
                InjectTouch {
                    display_id,
                    action,
                    pointer_id,
                    x,
                    y,
                    screen_width,
                    screen_height,
                    pressure,
                    action_button,
                    buttons,
                },
            ),
        ),
{
    CtrlMsg {
        msg: Some(
            Msg::InjectTouch(
                InjectTouch {
                    display_id,
                    action,
                    pointer_id,
                    x,
                    y,
                    screen_width,
                    screen_height,
                    pressure,
                    action_button,
                    buttons,
                },
            ),
        ),
    }
}

/// A turn of the wheel at (`x`, `y`); the distances are the bits of 32-bit floating-point
/// numbers.
#[allow(clippy::too_many_arguments)]
pub fn inject_scroll(
    display_id: u32,
    x: i32,
    y: i32,
    screen_width: u32,
    screen_height: u32,
    hscroll: u32,
    vscroll: u32,
    buttons: u32,
) -> (r: CtrlMsg)
    ensures
        r.msg == Some(
            Msg::InjectScroll(
                InjectScroll {
                    display_id,
                    x,
                    y,
                    screen_width,
                    screen_height,
                    hscroll,
                    vscroll,
                    buttons,
                },
            ),
        ),
{
    CtrlMsg {
        msg: Some(
            Msg::InjectScroll(
                InjectScroll {
                    display_id,
                    x,
                    y,
                    screen_width,
                    screen_height,
                    hscroll,
                    vscroll,
                    buttons,
                },
            ),
        ),
    }
}

pub fn back_or_screen_on(display_id: u32, action: u32) -> (r: CtrlMsg)
    ensures
        r.msg == Some(Msg::BackOrScreenOn(BackOrScreenOn { display_id, action })),
{
    CtrlMsg { msg: Some(Msg::BackOrScreenOn(BackOrScreenOn { display_id, action })) }
}

pub fn set_clipboard(sequence: u64, paste: bool, text: &str) -> (r: CtrlMsg)
    ensures
        r.msg matches Some(Msg::SetClipboard(m)) && m.sequence == sequence && m.paste == paste
            && m.text@ == text@,
{
    CtrlMsg { msg: Some(Msg::SetClipboard(SetClipboard { sequence, paste, text: text.to_owned() })) }
}

pub fn start_app(display_id: u32, package: &str) -> (r: CtrlMsg)
    ensures
        r.msg matches Some(Msg::StartApp(m)) && m.display_id == display_id && m.package@
            == package@,
{
    CtrlMsg { msg: Some(Msg::StartApp(StartApp { display_id, package: package.to_owned() })) }
}

pub fn resize_display(display_id: u32, width: u32, height: u32) -> (r: CtrlMsg)
    ensures
        r.msg == Some(Msg::ResizeDisplay(ResizeDisplay { display_id, width, height })),
{
    CtrlMsg { msg: Some(Msg::ResizeDisplay(ResizeDisplay { display_id, width, height })) }
}

pub fn create_display(width: u32, height: u32, dpi: u32) -> (r: CtrlMsg)
    ensures
        r.msg == Some(Msg::CreateDisplay(CreateDisplay { width, height, dpi })),
{
    CtrlMsg { msg: Some(Msg::CreateDisplay(CreateDisplay { width, height, dpi })) }
}

/// The one message that configures audio: on or off, codec and generation together. Off
/// is said by `enabled` alone; codec 0 is raw audio.
pub fn set_audio(enabled: bool, codec: u32, revision: u64) -> (r: CtrlMsg)
    ensures
        r.msg == Some(Msg::SetAudio(SetAudio { enabled, codec, revision })),
{
    CtrlMsg { msg: Some(Msg::SetAudio(SetAudio { enabled, codec, revision })) }
}

} // verus!
