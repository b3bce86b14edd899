//! The global hotkeys: what is registered and what each of them does.

use vstd::prelude::*;

verus! {

pub const HK_PREV: i32 = 1;

pub const HK_NEXT: i32 = 2;

pub const HK_UP: i32 = 3;

pub const HK_DOWN: i32 = 4;

pub const HK_QUIT: i32 = 5;

pub const HK_MIN: i32 = 6;

pub const HK_MAX: i32 = 7;

pub const HK_BIG_DOWN: i32 = 8;

pub const HK_BIG_UP: i32 = 9;

pub const HK_RESET_ALL: i32 = 10;

pub const HK_MUTE: i32 = 11;

pub const HK_DEVICES: i32 = 12;

pub const HK_TOGGLE_MODE: i32 = 13;

/// Virtual-key codes.
pub const VK_BACK: u32 = 0x08;

pub const VK_RETURN: u32 = 0x0D;

pub const VK_PRIOR: u32 = 0x21;

pub const VK_NEXT: u32 = 0x22;

pub const VK_END: u32 = 0x23;

pub const VK_HOME: u32 = 0x24;

pub const VK_LEFT: u32 = 0x25;

pub const VK_UP: u32 = 0x26;

pub const VK_RIGHT: u32 = 0x27;

pub const VK_DOWN: u32 = 0x28;

/// The keys of a digit and of letters are their characters.
pub const KEY_0: u32 = 0x30;

pub const KEY_M: u32 = 0x4D;

pub const KEY_Q: u32 = 0x51;

/// Hotkey modifiers.
pub const MOD_ALT: u32 = 0x1;

pub const MOD_CONTROL: u32 = 0x2;

pub const MOD_WIN: u32 = 0x8;

pub const MOD_NOREPEAT: u32 = 0x4000;

/// The message that a hotkey arrives as.
pub const WM_HOTKEY: u32 = 0x0312;

/// The thread message that is posted whenever the set of audio devices changes:
/// the first but one of those that are free for applications.
pub const WM_DEVICES_CHANGED: u32 = 0x8000 + 1;

/// One size of step up or down, in percent.
pub const VOLUME_STEP: i32 = 2;

/// The other size of step.
pub const BIG_VOLUME_STEP: i32 = 20;

/// What Left/Right, Up/Down, M and Enter act on.
#[derive(Clone, Copy, Debug, PartialEq, Eq, Structural)]
pub enum Mode {
    /// Per-application sessions.
    Apps,
    /// Audio endpoints: navigate devices, adjust device volume, Enter enables
    /// or disables.
    Devices,
}

/// A change of volume, in percent of the full volume. What it leads to is cut
/// off at 0 and at 100.
#[derive(Clone, Copy, Debug, PartialEq, Eq, Structural)]
pub enum VolumeChange {
    By(i32),
    To(i32),
}

/// What a hotkey asks for, whatever it acts on.
#[derive(Clone, Copy, Debug, PartialEq, Eq, Structural)]
pub enum Command {
    Quit,
    /// Go so many entries further.
    Step(i32),
    Volume(VolumeChange),
    Mute,
    /// The Enter key.
    Enter,
    ToggleMode,
    ResetAll,
}

/// What is done about a message of the main loop.
#[derive(Clone, Copy, Debug, PartialEq, Eq, Structural)]
pub enum Action {
    Nothing,
    Quit,
    Navigate(i32),
    NavigateDevices(i32),
    ApplyVolume(VolumeChange),
    ApplyDeviceVolume(VolumeChange),
    ToggleMute,
    ToggleDeviceMute,
    OpenDeviceDialog,
    ToggleDeviceEnabled,
    /// Leave for the other mode.
    EnterMode(Mode),
    RestoreAllMax,
    /// Take the other reports of changed devices out of the queue.
    DropReports,
    /// Enumerate the devices and their sessions anew.
    Rebuild,
    /// Take the devices of device mode anew.
    RefreshDevices,
}

/// One registered hotkey.
#[derive(Clone, Copy, Debug, PartialEq, Eq, Structural)]
pub struct Binding {
    pub id: i32,
    pub key: u32,
}

/// Ctrl + Win + Alt, without repetition.
pub fn mods() -> (bits: u32)
    ensures
        bits == MOD_CONTROL | MOD_ALT | MOD_WIN | MOD_NOREPEAT,
        bits == MOD_CONTROL + MOD_ALT + MOD_WIN + MOD_NOREPEAT,
{
    assert(0x2u32 | 0x1u32 | 0x8u32 | 0x4000u32 == 0x400Bu32) by (bit_vector);
    MOD_CONTROL | MOD_ALT | MOD_WIN | MOD_NOREPEAT
}

pub open spec fn bindings() -> Seq<Binding> {
    seq![
        Binding { id: HK_PREV, key: VK_LEFT },
        Binding { id: HK_NEXT, key: VK_RIGHT },
        Binding { id: HK_UP, key: VK_UP },
        Binding { id: HK_DOWN, key: VK_DOWN },
        Binding { id: HK_QUIT, key: KEY_Q },
        Binding { id: HK_MIN, key: VK_HOME },
        Binding { id: HK_MAX, key: VK_END },
        Binding { id: HK_BIG_UP, key: VK_PRIOR },
        Binding { id: HK_BIG_DOWN, key: VK_NEXT },
        Binding { id: HK_RESET_ALL, key: VK_BACK },
        Binding { id: HK_MUTE, key: KEY_M },
        Binding { id: HK_DEVICES, key: VK_RETURN },
        Binding { id: HK_TOGGLE_MODE, key: KEY_0 },
    ]
}

/// The hotkeys to register, in order.
pub fn registered() -> (all: Vec<Binding>)
    ensures
        all@ == bindings(),
{
    let all: Vec<Binding> = vec![
        Binding { id: HK_PREV, key: VK_LEFT },
        Binding { id: HK_NEXT, key: VK_RIGHT },
        Binding { id: HK_UP, key: VK_UP },
        Binding { id: HK_DOWN, key: VK_DOWN },
        Binding { id: HK_QUIT, key: KEY_Q },
        Binding { id: HK_MIN, key: VK_HOME },
        Binding { id: HK_MAX, key: VK_END },
        Binding { id: HK_BIG_UP, key: VK_PRIOR },
        Binding { id: HK_BIG_DOWN, key: VK_NEXT },
        Binding { id: HK_RESET_ALL, key: VK_BACK },
        Binding { id: HK_MUTE, key: KEY_M },
        Binding { id: HK_DEVICES, key: VK_RETURN },
        Binding { id: HK_TOGGLE_MODE, key: KEY_0 },
    ];
    assert(all@ =~= bindings());
    all
}

/// What the hotkey with the given id asks for.
pub open spec fn command_of(id: i32) -> Option<Command> {
    if id == HK_QUIT {
        Some(Command::Quit)
    } else if id == HK_PREV {
        Some(Command::Step(-1i32))
    } else if id == HK_NEXT {
        Some(Command::Step(1))
    } else if id == HK_UP {
        Some(Command::Volume(VolumeChange::By(VOLUME_STEP)))
    } else if id == HK_DOWN {
        Some(Command::Volume(VolumeChange::By((0 - VOLUME_STEP) as i32)))
    } else if id == HK_BIG_UP {
        Some(Command::Volume(VolumeChange::By(BIG_VOLUME_STEP)))
    } else if id == HK_BIG_DOWN {
        Some(Command::Volume(VolumeChange::By((0 - BIG_VOLUME_STEP) as i32)))
    } else if id == HK_MIN {
        Some(Command::Volume(VolumeChange::To(0)))
    } else if id == HK_MAX {
        Some(Command::Volume(VolumeChange::To(100)))
    } else if id == HK_MUTE {
        Some(Command::Mute)
    } else if id == HK_DEVICES {
        Some(Command::Enter)
    } else if id == HK_TOGGLE_MODE {
        Some(Command::ToggleMode)
    } else if id == HK_RESET_ALL {
        Some(Command::ResetAll)
    } else {
        None
    }
}

/// What the hotkey with the given id asks for; nothing for an id that is not
/// registered.
pub fn command(id: i32) -> (command: Option<Command>)
    ensures
        command == command_of(id),
{
    match id {
        HK_QUIT => Some(Command::Quit),
        HK_PREV => Some(Command::Step(-1)),
        HK_NEXT => Some(Command::Step(1)),
        HK_UP => Some(Command::Volume(VolumeChange::By(VOLUME_STEP))),
        HK_DOWN => Some(Command::Volume(VolumeChange::By(0 - VOLUME_STEP))),
        HK_BIG_UP => Some(Command::Volume(VolumeChange::By(BIG_VOLUME_STEP))),
        HK_BIG_DOWN => Some(Command::Volume(VolumeChange::By(0 - BIG_VOLUME_STEP))),
        HK_MIN => Some(Command::Volume(VolumeChange::To(0))),
        HK_MAX => Some(Command::Volume(VolumeChange::To(100))),
        HK_MUTE => Some(Command::Mute),
        HK_DEVICES => Some(Command::Enter),
        HK_TOGGLE_MODE => Some(Command::ToggleMode),
        HK_RESET_ALL => Some(Command::ResetAll),
        _ => None,
    }
}

impl Mode {
    pub open spec fn other(self) -> Mode {
        match self {
            Mode::Apps => Mode::Devices,
            Mode::Devices => Mode::Apps,
        }
    }

    /// The other mode.
    pub fn toggled(self) -> (mode: Mode)
        ensures
            mode == self.other(),
    {
        match self {
            Mode::Apps => Mode::Devices,
            Mode::Devices => Mode::Apps,
        }
    }
}

/// What a command comes to in a mode.
pub open spec fn action_of(mode: Mode, command: Command) -> Action {
    match command {
        Command::Quit => Action::Quit,
        Command::Step(step) => match mode {
            Mode::Apps => Action::Navigate(step),
            Mode::Devices => Action::NavigateDevices(step),
        },
        Command::Volume(change) => match mode {
            Mode::Apps => Action::ApplyVolume(change),
            Mode::Devices => Action::ApplyDeviceVolume(change),
        },
        Command::Mute => match mode {
            Mode::Apps => Action::ToggleMute,
            Mode::Devices => Action::ToggleDeviceMute,
        },
        Command::Enter => match mode {
            Mode::Apps => Action::OpenDeviceDialog,
            Mode::Devices => Action::ToggleDeviceEnabled,
        },
        Command::ToggleMode => Action::EnterMode(mode.other()),
        Command::ResetAll => Action::RestoreAllMax,
    }
}

/// What is done about the hotkey with the given id.
pub fn dispatch(mode: Mode, id: i32) -> (action: Action)
    ensures
        action == match command_of(id) {
            Some(command) => action_of(mode, command),
            None => Action::Nothing,
        },
{
    match command(id) {
        Some(Command::Quit) => Action::Quit,
        Some(Command::Step(step)) => match mode {
            Mode::Apps => Action::Navigate(step),
            Mode::Devices => Action::NavigateDevices(step),
        },
        Some(Command::Volume(change)) => match mode {
            Mode::Apps => Action::ApplyVolume(change),
            Mode::Devices => Action::ApplyDeviceVolume(change),
        },
        Some(Command::Mute) => match mode {
            Mode::Apps => Action::ToggleMute,
            Mode::Devices => Action::ToggleDeviceMute,
        },
        Some(Command::Enter) => match mode {
            Mode::Apps => Action::OpenDeviceDialog,
            Mode::Devices => Action::ToggleDeviceEnabled,
        },
        Some(Command::ToggleMode) => Action::EnterMode(mode.toggled()),
        Some(Command::ResetAll) => Action::RestoreAllMax,
        None => Action::Nothing,
    }
}

/// A message of the main loop.
#[derive(Clone, Copy, Debug, PartialEq, Eq, Structural)]
pub enum Event {
    /// The hotkey with this id was pressed.
    Hotkey(i32),
    /// The set of audio devices changed.
    DevicesChanged,
    Other,
}

/// What a message of the main loop is.
pub open spec fn event_of(message: u32, wparam: usize, to_thread: bool) -> Event {
    if message == WM_HOTKEY {
        Event::Hotkey(wparam as i32)
    } else if message == WM_DEVICES_CHANGED && to_thread {
        Event::DevicesChanged
    } else {
        Event::Other
    }
}

/// Tells the messages of the main loop apart. `to_thread` says that the message
/// was posted to the thread and not to a window.
pub fn classify(message: u32, wparam: usize, to_thread: bool) -> (event: Event)
    ensures
        event == if message == WM_HOTKEY {
            Event::Hotkey(wparam as i32)
        } else if message == WM_DEVICES_CHANGED && to_thread {
            Event::DevicesChanged
        } else {
            Event::Other
        },
        event == event_of(message, wparam, to_thread),
{
    if message == WM_HOTKEY {
        Event::Hotkey(
            #[verifier::truncate]
            (wparam as i32),
        )
    } else if message == WM_DEVICES_CHANGED && to_thread {
        Event::DevicesChanged
    } else {
        Event::Other
    }
}

/// Everything that is done about an event, in order. Changes of devices that
/// are reported while the device dialog is open get lost, so it is followed by a
/// new enumeration. Such reports come in bursts; all of them lead to a single
/// enumeration, and in device mode the devices are taken anew as well.
pub open spec fn response(mode: Mode, event: Event) -> Seq<Action> {
    match event {
        Event::Hotkey(id) => match command_of(id) {
            Some(command) => if action_of(mode, command) == Action::OpenDeviceDialog {
                seq![Action::OpenDeviceDialog, Action::Rebuild]
            } else {
                seq![action_of(mode, command)]
            },
            None => Seq::empty(),
        },
        Event::DevicesChanged => match mode {
            Mode::Apps => seq![Action::DropReports, Action::Rebuild],
            Mode::Devices => seq![Action::DropReports, Action::Rebuild, Action::RefreshDevices],
        },
        Event::Other => Seq::empty(),
    }
}

/// What is done about an event, in order.
pub fn respond(mode: Mode, event: Event) -> (actions: Vec<Action>)
    ensures
        actions@ == response(mode, event),
{
    let mut actions: Vec<Action> = Vec::new();
    match event {
        Event::Hotkey(id) => {
            let action = dispatch(mode, id);
            if action != Action::Nothing {
                actions.push(action);
            }
            if action == Action::OpenDeviceDialog {
                actions.push(Action::Rebuild);
            }
        },
        Event::DevicesChanged => {
            actions.push(Action::DropReports);
            actions.push(Action::Rebuild);
            if mode == Mode::Devices {
                actions.push(Action::RefreshDevices);
            }
        },
        Event::Other => {},
    }
    assert(actions@ =~= response(mode, event));
    actions
}

/// No two hotkeys share an id or a key.
pub proof fn bindings_are_distinct(i: int, j: int)
    requires
        0 <= i < j < bindings().len(),
    ensures
        bindings()[i].id != bindings()[j].id,
        bindings()[i].key != bindings()[j].key,
{
}

/// Every registered hotkey does something in every mode, and no other id does
/// anything.
pub proof fn bindings_are_the_commands(mode: Mode, id: i32)
    ensures
        response(mode, Event::Hotkey(id)).len() > 0 <==> exists|i: int|
            0 <= i < bindings().len() && (#[trigger] bindings()[i]).id == id,
{
    let all = bindings();
    if command_of(id) is Some {
        assert(all[0].id == 1 && all[1].id == 2 && all[2].id == 3 && all[3].id == 4 && all[4].id
            == 5 && all[5].id == 6 && all[6].id == 7 && all[7].id == 9 && all[8].id == 8
            && all[9].id == 10 && all[10].id == 11 && all[11].id == 12 && all[12].id == 13);
    }
}

/// The mode decides what a hotkey acts on: outside device mode no device is
/// touched but through the dialog, and in device mode no application is, except
/// that all of them can be reset.
pub proof fn mode_decides_target(id: i32, i: int)
    ensures
        0 <= i < response(Mode::Apps, Event::Hotkey(id)).len() ==> {
            let action = response(Mode::Apps, Event::Hotkey(id))[i];
            !(action is NavigateDevices || action is ApplyDeviceVolume || action
                is ToggleDeviceMute || action is ToggleDeviceEnabled)
        },
        0 <= i < response(Mode::Devices, Event::Hotkey(id)).len() ==> {
            let action = response(Mode::Devices, Event::Hotkey(id))[i];
            !(action is Navigate || action is ApplyVolume || action is ToggleMute || action
                is OpenDeviceDialog)
        },
{
}

/// No change of devices is missed: whenever the dialog was open or a change was
/// reported, the devices and their sessions are enumerated anew, once.
pub proof fn device_changes_are_taken_in(mode: Mode, event: Event)
    ensures
        ({
            let actions = response(mode, event);
            let rebuilds = exists|i: int|
                0 <= i < actions.len() && #[trigger] actions[i] == Action::Rebuild;
            let opens = exists|i: int|
                0 <= i < actions.len() && #[trigger] actions[i] == Action::OpenDeviceDialog;
            &&& rebuilds <==> opens || event is DevicesChanged
            &&& forall|i: int, j: int|
                0 <= i < actions.len() && 0 <= j < actions.len() && #[trigger] actions[i]
                    == Action::OpenDeviceDialog && #[trigger] actions[j] == Action::Rebuild ==> i
                    < j
            &&& forall|i: int, j: int|
                0 <= i < j < actions.len() && #[trigger] actions[i] == Action::Rebuild
                    ==> #[trigger] actions[j] != Action::Rebuild
        }),
{
    let actions = response(mode, event);
    if event is DevicesChanged {
        assert(actions[1] == Action::Rebuild);
    }
    if exists|i: int| 0 <= i < actions.len() && #[trigger] actions[i] == Action::OpenDeviceDialog {
        assert(actions[1] == Action::Rebuild);
    }
    if exists|i: int| 0 <= i < actions.len() && #[trigger] actions[i] == Action::Rebuild {
        if event is Hotkey {
            assert(actions[0] == Action::OpenDeviceDialog);
        }
    }
}

/// Toggling the mode twice comes back to the mode that it started from.
pub proof fn toggling_mode_twice(mode: Mode)
    ensures
        mode.other() != mode,
        mode.other().other() == mode,
        action_of(mode, Command::ToggleMode) == Action::EnterMode(mode.other()),
{
}

/// The change of volume that an action makes.
pub open spec fn volume_change(action: Action) -> Option<VolumeChange> {
    match action {
        Action::ApplyVolume(change) => Some(change),
        Action::ApplyDeviceVolume(change) => Some(change),
        _ => None,
    }
}

/// What is done about the hotkey on a key: of its binding, the first action.
pub open spec fn pressed(mode: Mode, key: u32) -> Option<Action> {
    if exists|i: int| 0 <= i < bindings().len() && (#[trigger] bindings()[i]).key == key {
        let i = choose|i: int| 0 <= i < bindings().len() && (#[trigger] bindings()[i]).key == key;
        Some(response(mode, Event::Hotkey(bindings()[i].id))[0])
    } else {
        None
    }
}

proof fn pressed_binding(mode: Mode, i: int)
    requires
        0 <= i < bindings().len(),
    ensures
        pressed(mode, bindings()[i].key) == Some(
            response(mode, Event::Hotkey(bindings()[i].id))[0],
        ),
{
    let key = bindings()[i].key;
    let j = choose|j: int| 0 <= j < bindings().len() && (#[trigger] bindings()[j]).key == key;
    if i < j {
        bindings_are_distinct(i, j);
    } else if j < i {
        bindings_are_distinct(j, i);
    }
}

/// The mode changes what a volume key acts on and not by how much: Up, Down, Page
/// Up, Page Down, Home and End, which are keys 0x26, 0x28, 0x21, 0x22, 0x24 and
/// 0x23, make the same change in both modes, of an application in the one and of a
/// device in the other.
pub proof fn mode_keeps_the_amount(mode: Mode)
    ensures
        ({
            let change = |key: u32| volume_change(pressed(mode, key)->0);
            &&& change(0x26) == Some(VolumeChange::By(2))
            &&& change(0x28) == Some(VolumeChange::By(-2i32))
            &&& change(0x21) == Some(VolumeChange::By(20))
            &&& change(0x22) == Some(VolumeChange::By(-20i32))
            &&& change(0x24) == Some(VolumeChange::To(0))
            &&& change(0x23) == Some(VolumeChange::To(100))
        }),
        forall|key: u32| #[trigger]
            pressed(mode, key) is Some && volume_change(pressed(mode, key)->0) is Some ==> (
            pressed(mode, key)->0 is ApplyVolume <==> mode == Mode::Apps),
{
    all_pressed(mode);
    assert forall|key: u32| #[trigger]
        pressed(mode, key) is Some && volume_change(pressed(mode, key)->0) is Some implies (
    pressed(mode, key)->0 is ApplyVolume <==> mode == Mode::Apps) by {
        let i = choose|i: int| 0 <= i < bindings().len() && (#[trigger] bindings()[i]).key == key;
        pressed_binding(mode, i);
    }
}

proof fn all_pressed(mode: Mode)
    ensures
        forall|i: int|
            0 <= i < bindings().len() ==> pressed(mode, (#[trigger] bindings()[i]).key) == Some(
                response(mode, Event::Hotkey(bindings()[i].id))[0],
            ),
        bindings()[0].key == 0x25 && bindings()[1].key == 0x27 && bindings()[2].key == 0x26
            && bindings()[3].key == 0x28 && bindings()[4].key == 0x51 && bindings()[5].key == 0x24
            && bindings()[6].key == 0x23 && bindings()[7].key == 0x21 && bindings()[8].key == 0x22
            && bindings()[9].key == 0x08 && bindings()[10].key == 0x4D && bindings()[11].key
            == 0x0D && bindings()[12].key == 0x30,
{
    assert forall|i: int| 0 <= i < bindings().len() implies pressed(
        mode,
        (#[trigger] bindings()[i]).key,
    ) == Some(response(mode, Event::Hotkey(bindings()[i].id))[0]) by {
        pressed_binding(mode, i);
    }
}

/// The same hotkey changes the volume by the same amount in both modes, for every
/// id, and changes it in the one mode exactly where it does in the other.
pub proof fn both_modes_change_alike(id: i32)
    ensures
        ({
            let apps = response(Mode::Apps, Event::Hotkey(id));
            let devices = response(Mode::Devices, Event::Hotkey(id));
            &&& apps.len() == 0 <==> devices.len() == 0
            &&& apps.len() > 0 ==> {
                &&& volume_change(apps[0]) == volume_change(devices[0])
                &&& volume_change(apps[0]) is Some ==> apps.len() == 1 && devices.len() == 1
                    && apps[0] is ApplyVolume && devices[0] is ApplyDeviceVolume
            }
        }),
{
}

/// The other keys: Left and Right (0x25, 0x27) step by one entry back and forth,
/// M (0x4D) toggles the mute, Enter (0x0D) picks devices or enables one, Backspace
/// (0x08) resets all applications and Q (0x51) quits in either mode, and 0 (0x30)
/// goes over to the other mode.
pub proof fn keys_do_what_they_are_for(mode: Mode)
    ensures
        pressed(Mode::Apps, 0x25) == Some(Action::Navigate(-1i32)),
        pressed(Mode::Apps, 0x27) == Some(Action::Navigate(1)),
        pressed(Mode::Devices, 0x25) == Some(Action::NavigateDevices(-1i32)),
        pressed(Mode::Devices, 0x27) == Some(Action::NavigateDevices(1)),
        pressed(Mode::Apps, 0x4D) == Some(Action::ToggleMute),
        pressed(Mode::Devices, 0x4D) == Some(Action::ToggleDeviceMute),
        pressed(Mode::Apps, 0x0D) == Some(Action::OpenDeviceDialog),
        pressed(Mode::Devices, 0x0D) == Some(Action::ToggleDeviceEnabled),
        pressed(Mode::Apps, 0x30) == Some(Action::EnterMode(Mode::Devices)),
        pressed(Mode::Devices, 0x30) == Some(Action::EnterMode(Mode::Apps)),
        pressed(mode, 0x08) == Some(Action::RestoreAllMax),
        pressed(mode, 0x51) == Some(Action::Quit),
        forall|key: u32| #[trigger]
            pressed(mode, key) is Some ==> exists|i: int|
                0 <= i < bindings().len() && (#[trigger] bindings()[i]).key == key,
{
    all_pressed(Mode::Apps);
    all_pressed(Mode::Devices);
}

/// Nothing but the dialog's hotkey is followed by anything: every other hotkey
/// leads to at most one action, which is never about the devices' enumeration.
pub proof fn a_hotkey_is_one_action(mode: Mode, id: i32)
    ensures
        ({
            let actions = response(mode, Event::Hotkey(id));
            &&& actions.len() <= 2
            &&& actions.len() == 2 <==> actions.len() > 0 && actions[0] is OpenDeviceDialog
            &&& actions.len() > 0 ==> !(actions[0] is Nothing || actions[0] is Rebuild || actions[0]
                is DropReports || actions[0] is RefreshDevices)
        }),
{
}

/// A report of changed devices drops the other reports first and then enumerates
/// anew; in device mode, and only there, the devices are taken anew in the end.
/// Any other message leads to nothing.
pub proof fn reports_are_handled_in_order(mode: Mode)
    ensures
        ({
            let actions = response(mode, Event::DevicesChanged);
            &&& actions.len() >= 2
            &&& actions[0] is DropReports
            &&& actions[1] is Rebuild
            &&& mode == Mode::Devices <==> actions.len() == 3
            &&& mode == Mode::Apps <==> actions.len() == 2
            &&& actions.len() == 3 ==> actions[2] is RefreshDevices
        }),
        response(mode, Event::Other).len() == 0,
{
}

/// A hotkey message (0x312) is the hotkey with the id that it carries, a report of
/// changed devices (0x8001) counts where it was posted to the thread, and nothing
/// else does.
pub proof fn messages_are_told_apart(message: u32, wparam: usize, to_thread: bool)
    ensures
        event_of(message, wparam, to_thread) is Hotkey <==> message == 0x312,
        event_of(message, wparam, to_thread) is DevicesChanged <==> message == 0x8001 && to_thread,
        message == 0x312 && wparam <= i32::MAX ==> event_of(message, wparam, to_thread)
            == Event::Hotkey(wparam as i32),
{
}

} // verus!
