use audioman::audio::AUDIO_SESSION_STATE_EXPIRED;
use audioman::control::{restored_text, start_failure, volume_suffix, Level, GOODBYE, READY};
use audioman::devices::DEVICE_STATE_ACTIVE;
use audioman::dialog::{VK_ESCAPE, VK_RETURN, WM_CLOSE, WM_COMMAND};
use audioman::hotkeys::{
    classify, command, dispatch, mods, registered, respond, Action, Binding, Command, Event, Mode,
    VolumeChange, HK_BIG_DOWN, HK_BIG_UP, HK_DEVICES, HK_DOWN, HK_MAX, HK_MIN, HK_MUTE, HK_NEXT,
    HK_PREV, HK_QUIT, HK_RESET_ALL, HK_TOGGLE_MODE, HK_UP, WM_DEVICES_CHANGED, WM_HOTKEY,
};
use audioman::prism::{say, speak, StartStep};
use windows::Win32::Media::Audio::AudioSessionStateExpired;
use windows::Win32::UI::Input::KeyboardAndMouse::{
    MOD_ALT, MOD_CONTROL, MOD_NOREPEAT, MOD_WIN, VK_BACK, VK_DOWN, VK_END, VK_HOME, VK_LEFT,
    VK_NEXT, VK_PRIOR, VK_RIGHT, VK_UP,
};
use windows::Win32::UI::WindowsAndMessaging::WM_APP;

fn key(id: i32) -> u32 {
    let bindings = registered();
    let found: Vec<&Binding> = bindings.iter().filter(|b| b.id == id).collect();
    assert_eq!(found.len(), 1);
    found[0].key
}

fn pressed(mode: Mode, key: u32) -> Action {
    let bindings = registered();
    let found: Vec<&Binding> = bindings.iter().filter(|b| b.key == key).collect();
    assert_eq!(found.len(), 1);
    dispatch(mode, found[0].id)
}

#[test]
fn constants_are_the_systems() {
    assert_eq!(AUDIO_SESSION_STATE_EXPIRED, AudioSessionStateExpired.0);
    assert_eq!(DEVICE_STATE_ACTIVE, windows::Win32::Media::Audio::DEVICE_STATE_ACTIVE.0);
    assert_eq!(WM_DEVICES_CHANGED, WM_APP + 1);
    assert_eq!(WM_HOTKEY, windows::Win32::UI::WindowsAndMessaging::WM_HOTKEY);
    assert_eq!(WM_CLOSE, windows::Win32::UI::WindowsAndMessaging::WM_CLOSE);
    assert_eq!(WM_COMMAND, windows::Win32::UI::WindowsAndMessaging::WM_COMMAND);
    assert_eq!(VK_RETURN, windows::Win32::UI::Input::KeyboardAndMouse::VK_RETURN.0);
    assert_eq!(VK_ESCAPE, windows::Win32::UI::Input::KeyboardAndMouse::VK_ESCAPE.0);
}

#[test]
fn modifiers_are_ctrl_win_alt() {
    assert_eq!(mods(), MOD_CONTROL.0 | MOD_ALT.0 | MOD_WIN.0 | MOD_NOREPEAT.0);
}

#[test]
fn hotkeys_are_on_their_keys() {
    assert_eq!(registered().len(), 13);
    assert_eq!(key(HK_PREV), VK_LEFT.0 as u32);
    assert_eq!(key(HK_NEXT), VK_RIGHT.0 as u32);
    assert_eq!(key(HK_UP), VK_UP.0 as u32);
    assert_eq!(key(HK_DOWN), VK_DOWN.0 as u32);
    assert_eq!(key(HK_QUIT), b'Q' as u32);
    assert_eq!(key(HK_MIN), VK_HOME.0 as u32);
    assert_eq!(key(HK_MAX), VK_END.0 as u32);
    assert_eq!(key(HK_BIG_UP), VK_PRIOR.0 as u32);
    assert_eq!(key(HK_BIG_DOWN), VK_NEXT.0 as u32);
    assert_eq!(key(HK_RESET_ALL), VK_BACK.0 as u32);
    assert_eq!(key(HK_MUTE), b'M' as u32);
    assert_eq!(key(HK_DEVICES), VK_RETURN as u32);
    assert_eq!(key(HK_TOGGLE_MODE), b'0' as u32);
}

#[test]
fn hotkeys_share_no_id_and_no_key() {
    let all = registered();
    for (i, a) in all.iter().enumerate() {
        for b in &all[i + 1..] {
            assert_ne!(a.id, b.id);
            assert_ne!(a.key, b.key);
        }
    }
}

#[test]
fn keys_on_applications() {
    let m = Mode::Apps;
    assert_eq!(pressed(m, VK_LEFT.0 as u32), Action::Navigate(-1));
    assert_eq!(pressed(m, VK_RIGHT.0 as u32), Action::Navigate(1));
    assert_eq!(pressed(m, VK_UP.0 as u32), Action::ApplyVolume(VolumeChange::By(2)));
    assert_eq!(pressed(m, VK_DOWN.0 as u32), Action::ApplyVolume(VolumeChange::By(-2)));
    assert_eq!(pressed(m, VK_PRIOR.0 as u32), Action::ApplyVolume(VolumeChange::By(20)));
    assert_eq!(pressed(m, VK_NEXT.0 as u32), Action::ApplyVolume(VolumeChange::By(-20)));
    assert_eq!(pressed(m, VK_HOME.0 as u32), Action::ApplyVolume(VolumeChange::To(0)));
    assert_eq!(pressed(m, VK_END.0 as u32), Action::ApplyVolume(VolumeChange::To(100)));
    assert_eq!(pressed(m, b'M' as u32), Action::ToggleMute);
    assert_eq!(pressed(m, VK_BACK.0 as u32), Action::RestoreAllMax);
    assert_eq!(pressed(m, b'Q' as u32), Action::Quit);
    assert_eq!(pressed(m, VK_RETURN as u32), Action::OpenDeviceDialog);
    assert_eq!(pressed(m, b'0' as u32), Action::EnterMode(Mode::Devices));
}

#[test]
fn keys_on_devices() {
    let m = Mode::Devices;
    assert_eq!(pressed(m, VK_LEFT.0 as u32), Action::NavigateDevices(-1));
    assert_eq!(pressed(m, VK_RIGHT.0 as u32), Action::NavigateDevices(1));
    assert_eq!(pressed(m, VK_UP.0 as u32), Action::ApplyDeviceVolume(VolumeChange::By(2)));
    assert_eq!(pressed(m, VK_NEXT.0 as u32), Action::ApplyDeviceVolume(VolumeChange::By(-20)));
    assert_eq!(pressed(m, VK_END.0 as u32), Action::ApplyDeviceVolume(VolumeChange::To(100)));
    assert_eq!(pressed(m, b'M' as u32), Action::ToggleDeviceMute);
    assert_eq!(pressed(m, VK_BACK.0 as u32), Action::RestoreAllMax);
    assert_eq!(pressed(m, b'Q' as u32), Action::Quit);
    assert_eq!(pressed(m, VK_RETURN as u32), Action::ToggleDeviceEnabled);
    assert_eq!(pressed(m, b'0' as u32), Action::EnterMode(Mode::Apps));
}

#[test]
fn unknown_ids_do_nothing() {
    for id in [0, 14, -1, i32::MAX] {
        assert_eq!(command(id), None);
        assert_eq!(dispatch(Mode::Apps, id), Action::Nothing);
        assert_eq!(respond(Mode::Devices, Event::Hotkey(id)), vec![]);
    }
    assert_eq!(command(HK_MUTE), Some(Command::Mute));
}

#[test]
fn every_registered_hotkey_does_something() {
    for mode in [Mode::Apps, Mode::Devices] {
        for b in registered() {
            assert_ne!(respond(mode, Event::Hotkey(b.id)), vec![]);
        }
    }
}

#[test]
fn the_mode_is_toggled_there_and_back() {
    assert_eq!(Mode::Apps.toggled(), Mode::Devices);
    assert_eq!(Mode::Devices.toggled(), Mode::Apps);
}

#[test]
fn messages_are_told_apart() {
    assert_eq!(classify(WM_HOTKEY, 5, true), Event::Hotkey(5));
    assert_eq!(classify(WM_HOTKEY, 5, false), Event::Hotkey(5));
    assert_eq!(classify(WM_HOTKEY, 0xFFFF_FFFF, true), Event::Hotkey(-1));
    assert_eq!(classify(WM_DEVICES_CHANGED, 0, true), Event::DevicesChanged);
    assert_eq!(classify(WM_DEVICES_CHANGED, 0, false), Event::Other);
    assert_eq!(classify(0, 5, true), Event::Other);
}

#[test]
fn changed_devices_are_enumerated_once() {
    assert_eq!(
        respond(Mode::Apps, Event::DevicesChanged),
        vec![Action::DropReports, Action::Rebuild]
    );
    assert_eq!(
        respond(Mode::Devices, Event::DevicesChanged),
        vec![Action::DropReports, Action::Rebuild, Action::RefreshDevices]
    );
}

#[test]
fn the_dialog_is_followed_by_a_rebuild() {
    assert_eq!(
        respond(Mode::Apps, Event::Hotkey(HK_DEVICES)),
        vec![Action::OpenDeviceDialog, Action::Rebuild]
    );
    assert_eq!(
        respond(Mode::Devices, Event::Hotkey(HK_DEVICES)),
        vec![Action::ToggleDeviceEnabled]
    );
    assert_eq!(respond(Mode::Apps, Event::Other), vec![]);
}

#[test]
fn volume_steps_in_percent_are_the_exact_fractions() {
    assert_eq!(2.0f32 / 100.0, 0.02f32);
    assert_eq!(20.0f32 / 100.0, 0.20f32);
    assert_eq!(100.0f32 / 100.0, 1.0f32);
}

#[test]
fn fixed_texts() {
    assert_eq!(READY, "Audio manager ready");
    assert_eq!(GOODBYE, "Goodbye");
    assert_eq!(start_failure("no audio"), "Audio manager failed to start: no audio");
    assert_eq!(restored_text(0), "Restored 0 applications to 100 percent");
    assert_eq!(restored_text(12), "Restored 12 applications to 100 percent");
}

#[test]
fn suffix_at_the_ends_of_the_scale() {
    let level = |at_maximum, at_minimum| Level { percent: 50, at_maximum, at_minimum };
    assert_eq!(volume_suffix(level(true, false)), " maximum");
    assert_eq!(volume_suffix(level(false, true)), " minimum");
    assert_eq!(volume_suffix(level(false, false)), "");
}

#[test]
fn null_characters_are_spoken_as_blanks() {
    assert_eq!(speak("a\0b\0"), "a b ");
    assert_eq!(speak("vlc, 50 percent"), "vlc, 50 percent");
    assert_eq!(say(true, "\0"), Some(" ".to_string()));
    assert_eq!(say(true, ""), Some(String::new()));
    assert_eq!(say(false, "text"), None);
}

fn start(worked: &[bool]) -> StartStep {
    let mut step = StartStep::InitContext;
    for w in worked {
        step = step.next(*w);
    }
    step
}

#[test]
fn speech_is_started() {
    assert_eq!(start(&[true]), StartStep::AcquireBackend);
    assert_eq!(start(&[true, true]), StartStep::Initialize);
    assert_eq!(start(&[true, true, true]), StartStep::Ready);
    assert_eq!(start(&[true, true, false]), StartStep::Ready);
    assert_eq!(StartStep::Ready.next(false), StartStep::Ready);
}

#[test]
fn speech_is_unavailable() {
    assert_eq!(start(&[false]), StartStep::Unavailable);
    assert_eq!(start(&[true, false]), StartStep::Shutdown);
    assert_eq!(start(&[true, false, true]), StartStep::Unavailable);
    assert_eq!(StartStep::Unavailable.next(true), StartStep::Unavailable);
}
