//! What the hotkeys do: moving the selection among applications and devices,
//! and everything that is said about it.

use vstd::prelude::*;
use vstd::string::*;

use crate::audio::{State, StateView};
use crate::devices::{copy_units, endpoint_views, units_of, Endpoint, EndpointView};
use crate::lists::{
    first_index, first_index_found, first_index_is_first, first_index_missing, same_units,
};
use crate::text::{decimal, digits, push_decimal, push_digits};

verus! {

/// Said when the program has started.
pub const READY: &'static str = "Audio manager ready";

/// Said when the program ends.
pub const GOODBYE: &'static str = "Goodbye";

/// What is said when the program cannot start.
pub fn start_failure(error: &str) -> (text: String)
    ensures
        text@ == "Audio manager failed to start: "@ + error@,
{
    let mut text = "Audio manager failed to start: ".to_string();
    text.append(error);
    text
}

/// What is said of a volume: its percentage, and whether it is at an end of the
/// scale.
#[derive(Clone, Copy, Debug, PartialEq, Eq, Structural)]
pub struct Level {
    /// Rounded to whole percent.
    pub percent: i32,
    pub at_maximum: bool,
    pub at_minimum: bool,
}

pub open spec fn suffix(level: Level) -> Seq<char> {
    if level.at_maximum {
        " maximum"@
    } else if level.at_minimum {
        " minimum"@
    } else {
        ""@
    }
}

/// What is said behind the percentage of a volume at an end of the scale.
pub fn volume_suffix(level: Level) -> (text: &'static str)
    ensures
        text@ == suffix(level),
{
    if level.at_maximum {
        " maximum"
    } else if level.at_minimum {
        " minimum"
    } else {
        ""
    }
}

pub open spec fn level_text(level: Level) -> Seq<char> {
    decimal(level.percent as int) + " percent"@ + suffix(level)
}

fn say_level(level: Level) -> (text: String)
    ensures
        text@ == level_text(level),
{
    let mut text = String::new();
    push_decimal(&mut text, level.percent as i64);
    text.append(" percent");
    text.append(volume_suffix(level));
    assert(text@ =~= level_text(level));
    text
}

/// What is said of the selected application.
pub open spec fn session_text(name: Seq<char>, percent: int, muted: bool) -> Seq<char> {
    (if muted {
        "muted, "@
    } else {
        ""@
    }) + name + ", "@ + decimal(percent) + " percent"@
}

/// What is said of the selected application, given its volume and whether it is
/// muted; nothing where none is selected.
pub fn announce_current(state: &State, percent: i32, muted: bool) -> (text: Option<String>)
    ensures
        match text {
            Some(text) => state@.current() is Some && text@ == session_text(
                state@.current()->0.name,
                percent as int,
                muted,
            ),
            None => state@.current() is None,
        },
{
    match state.current() {
        Some(session) => {
            let mut text = if muted {
                "muted, ".to_string()
            } else {
                "".to_string()
            };
            text.append(session.name.as_str());
            text.append(", ");
            push_decimal(&mut text, percent as i64);
            text.append(" percent");
            Some(text)
        },
        None => None,
    }
}

/// Where a step leads in a list that ends at `last`: no further than either end,
/// and to the first entry where none was selected.
pub open spec fn stepped(from: Option<int>, step: int, last: int) -> int {
    match from {
        None => 0,
        Some(i) => if i + step < 0 {
            0
        } else if i + step > last {
            last
        } else {
            i + step
        },
    }
}

fn step_index(from: Option<usize>, step: i32, last: usize) -> (to: usize)
    ensures
        to == stepped(
            match from {
                Some(i) => Some(i as int),
                None => None,
            },
            step as int,
            last as int,
        ),
{
    match from {
        None => 0,
        Some(i) => {
            let to: i128 = i as i128 + step as i128;
            if to < 0 {
                0
            } else if to > last as i128 {
                last
            } else {
                to as usize
            }
        },
    }
}

impl StateView {
    /// The state with the selection moved by `step` entries.
    pub open spec fn navigated(self, step: int) -> StateView {
        let to = stepped(self.current_index(), step, self.sessions.len() - 1);
        StateView { sessions: self.sessions, selection: Some(self.sessions[to].id) }
    }
}

/// Moves the selection among the applications. Without any there is nothing to
/// move to and that is said; otherwise the selected application is to be
/// announced.
pub fn navigate(state: &mut State, step: i32) -> (text: Option<String>)
    ensures
        old(state)@.sessions.len() == 0 ==> final(state)@ == old(state)@ && text is Some
            && text->0@ == "No audio applications"@,
        old(state)@.sessions.len() > 0 ==> final(state)@ == old(state)@.navigated(step as int)
            && text is None,
{
    if state.sessions.len() == 0 {
        return Some("No audio applications".to_string());
    }
    let last: usize = state.sessions.len() - 1;
    let from = state.current_index();
    let to = step_index(from, step, last);
    proof {
        first_index_is_first(state@.sessions, crate::audio::with_id(state@.selection->0));
    }
    assert(state@.sessions[to as int] == state.sessions@[to as int]@);
    state.selection = Some(state.sessions[to].id);
    None
}

/// Moving the selection keeps the list well formed and the selection on an
/// entry: the one that the step leads to.
pub proof fn navigation_selects_an_entry(state: StateView, step: int)
    requires
        state.well_formed(),
        state.sessions.len() > 0,
    ensures
        state.navigated(step).well_formed(),
        state.navigated(step).current_index() == Some(
            stepped(state.current_index(), step, state.sessions.len() - 1),
        ),
{
    if let Some(id) = state.selection {
        first_index_is_first(state.sessions, crate::audio::with_id(id));
    }
    let to = stepped(state.current_index(), step, state.sessions.len() - 1);
    let after = state.navigated(step);
    assert(after.sessions[to].id == state.sessions[to].id);
    first_index_found(after.sessions, crate::audio::with_id(state.sessions[to].id), to);
}

/// A step there and back comes back, unless an end of the list was in the way.
pub proof fn stepping_there_and_back(state: StateView, step: int)
    requires
        state.well_formed(),
        state.current_index() is Some,
        0 <= state.current_index()->0 + step < state.sessions.len(),
    ensures
        state.navigated(step).navigated(-step) == state,
{
    first_index_is_first(state.sessions, crate::audio::with_id(state.selection->0));
    navigation_selects_an_entry(state, step);
}

/// The session that gets a new level, and what is said.
pub open spec fn volume_applied(state: StateView, level: Level) -> (Option<u64>, Seq<char>) {
    match state.current() {
        Some(session) => (Some(session.id), level_text(level)),
        None => (None, "Select an application first"@),
    }
}

/// Changes the volume of the selected application: the session that gets the
/// new level, and what is said. No session does where none is selected.
pub fn apply_volume(state: &State, level: Level) -> (applied: (Option<u64>, String))
    ensures
        state@.current() is None ==> applied.0 is None && applied.1@
            == "Select an application first"@,
        state@.current() is Some ==> applied.0 == Some(state@.current()->0.id) && applied.1@
            == level_text(level),
        (applied.0, applied.1@) == volume_applied(state@, level),
{
    match state.current() {
        Some(session) => (Some(session.id), say_level(level)),
        None => (None, "Select an application first".to_string()),
    }
}

pub open spec fn mute_text(mute: bool, name: Seq<char>) -> Seq<char> {
    (if mute {
        "muted"@
    } else {
        "unmuted"@
    }) + " "@ + name
}

fn say_mute(mute: bool, name: &str) -> (text: String)
    ensures
        text@ == mute_text(mute, name@),
{
    let mut text = if mute {
        "muted".to_string()
    } else {
        "unmuted".to_string()
    };
    text.append(" ");
    text.append(name);
    text
}

/// The session whose mute is toggled and the mute that it gets, and what is said.
pub open spec fn mute_toggled(state: StateView, muted: bool) -> (Option<(u64, bool)>, Seq<char>) {
    match state.current() {
        Some(session) => (Some((session.id, !muted)), mute_text(!muted, session.name)),
        None => (None, "Select an application first"@),
    }
}

/// Toggles the mute of the selected application: the session and the mute that
/// it gets, and what is said. No session does where none is selected.
pub fn toggle_mute(state: &State, muted: bool) -> (toggled: (Option<(u64, bool)>, String))
    ensures
        state@.current() is None ==> toggled.0 is None && toggled.1@
            == "Select an application first"@,
        state@.current() is Some ==> toggled.0 == Some(
            (state@.current()->0.id, !muted),
        ) && toggled.1@ == mute_text(
            !muted,
            state@.current()->0.name,
        ),
        (toggled.0, toggled.1@) == mute_toggled(state@, muted),
{
    match state.current() {
        Some(session) => (Some((session.id, !muted)), say_mute(!muted, session.name.as_str())),
        None => (None, "Select an application first".to_string()),
    }
}

/// What is said when every application was set to full volume.
pub fn restored_text(count: usize) -> (text: String)
    ensures
        text@ == "Restored "@ + digits(count as nat) + " applications to 100 percent"@,
{
    let mut text = "Restored ".to_string();
    push_digits(&mut text, count as u64);
    text.append(" applications to 100 percent");
    text
}

/// Device-mode navigation state. The selection is kept by endpoint id, so it
/// survives a new enumeration.
#[derive(Debug, PartialEq, Eq)]
pub struct DeviceNav {
    pub devices: Vec<Endpoint>,
    pub selected: Option<Vec<u16>>,
}

/// What a [`DeviceNav`] holds.
#[verifier::ext_equal]
pub struct NavView {
    pub devices: Seq<EndpointView>,
    pub selected: Option<Seq<u16>>,
}

impl View for DeviceNav {
    type V = NavView;

    open spec fn view(&self) -> NavView {
        NavView { devices: endpoint_views(self.devices@), selected: units_of(self.selected) }
    }
}

pub open spec fn with_endpoint_id(id: Seq<u16>) -> spec_fn(EndpointView) -> bool {
    |e: EndpointView| e.id == id
}

impl NavView {
    /// The place of the selected device in the list.
    pub open spec fn index(self) -> Option<int> {
        match self.selected {
            Some(id) => first_index(self.devices, with_endpoint_id(id)),
            None => None,
        }
    }

    /// The selected device.
    pub open spec fn current(self) -> Option<EndpointView> {
        match self.index() {
            Some(i) => Some(self.devices[i]),
            None => None,
        }
    }

    /// The selection, if any, is in the list.
    pub open spec fn well_formed(self) -> bool {
        self.selected is Some ==> self.index() is Some
    }

    /// The state with another list. The selection stays on its device, and is
    /// dropped where that is gone.
    pub open spec fn refreshed(self, devices: Seq<EndpointView>) -> NavView {
        let kept = NavView { devices, selected: self.selected };
        NavView {
            devices,
            selected: if kept.index() is Some {
                self.selected
            } else {
                None
            },
        }
    }

    /// The state with a device selected: the one that was, or else the default
    /// output, or else the first.
    pub open spec fn initially_selected(self, default: Option<Seq<u16>>) -> NavView {
        if self.selected is Some {
            self
        } else {
            let on_default = NavView { devices: self.devices, selected: default };
            if on_default.index() is Some {
                on_default
            } else if self.devices.len() > 0 {
                NavView { devices: self.devices, selected: Some(self.devices[0].id) }
            } else {
                self
            }
        }
    }

    /// The state with the selection moved by `step` entries.
    pub open spec fn navigated(self, step: int) -> NavView {
        let to = stepped(self.index(), step, self.devices.len() - 1);
        NavView { devices: self.devices, selected: Some(self.devices[to].id) }
    }

    /// The state with device `i` marked as enabled or disabled.
    pub open spec fn marked(self, i: int, enabled: bool) -> NavView {
        NavView {
            devices: self.devices.update(i, EndpointView { enabled, ..self.devices[i] }),
            selected: self.selected,
        }
    }
}

fn find_endpoint(devices: &Vec<Endpoint>, id: &Vec<u16>) -> (found: Option<usize>)
    ensures
        match found {
            Some(i) => first_index(endpoint_views(devices@), with_endpoint_id(id@)) == Some(
                i as int,
            ) && i < devices@.len(),
            None => first_index(endpoint_views(devices@), with_endpoint_id(id@)) is None,
        },
{
    for i in 0..devices.len()
        invariant
            forall|j: int| 0 <= j < i ==> (#[trigger] endpoint_views(devices@)[j]).id != id@,
    {
        if same_units(devices[i].id.as_slice(), id.as_slice()) {
            proof {
                first_index_found(endpoint_views(devices@), with_endpoint_id(id@), i as int);
            }
            return Some(i);
        }
    }
    proof {
        first_index_missing(endpoint_views(devices@), with_endpoint_id(id@));
    }
    None
}

impl DeviceNav {
    /// No device and no selection.
    pub fn new() -> (nav: DeviceNav)
        ensures
            nav@ == (NavView { devices: Seq::empty(), selected: None }),
    {
        let nav = DeviceNav { devices: Vec::new(), selected: None };
        assert(endpoint_views(nav.devices@) =~= Seq::empty());
        nav
    }

    /// Takes a new list of devices.
    pub fn refresh(&mut self, devices: Vec<Endpoint>)
        ensures
            final(self)@ == old(self)@.refreshed(endpoint_views(devices@)),
            final(self)@.well_formed(),
    {
        self.devices = devices;
        let gone = match &self.selected {
            Some(id) => find_endpoint(&self.devices, id).is_none(),
            None => false,
        };
        if gone {
            self.selected = None;
        }
    }

    /// Lands on the current default output, or else the first device, when
    /// nothing is selected yet.
    pub fn select_initial(&mut self, default: Option<Vec<u16>>)
        ensures
            final(self)@ == old(self)@.initially_selected(units_of(default)),
    {
        if self.selected.is_some() {
            return ;
        }
        if let Some(id) = default {
            if let Some(i) = find_endpoint(&self.devices, &id) {
                proof {
                    first_index_is_first(self@.devices, with_endpoint_id(id@));
                }
                self.selected = Some(id);
                return ;
            }
        }
        if self.devices.len() > 0 {
            assert(self@.devices[0] == self.devices@[0]@);
            self.selected = Some(copy_units(self.devices[0].id.as_slice()));
        }
    }

    /// The place of the selected device in the list.
    pub fn index(&self) -> (index: Option<usize>)
        ensures
            match index {
                Some(i) => self@.index() == Some(i as int) && i < self.devices@.len(),
                None => self@.index() is None,
            },
    {
        match &self.selected {
            Some(id) => find_endpoint(&self.devices, id),
            None => None,
        }
    }

    /// The selected device.
    pub fn current(&self) -> (device: Option<&Endpoint>)
        ensures
            match device {
                Some(device) => self@.current() == Some(device@),
                None => self@.current() is None,
            },
    {
        match self.index() {
            Some(i) => Some(&self.devices[i]),
            None => None,
        }
    }

    /// The id of the selected device, which is what it is read by.
    pub fn selected_id(&self) -> (id: Option<Vec<u16>>)
        ensures
            units_of(id) == match self@.current() {
                Some(device) => Some(device.id),
                None => None,
            },
    {
        match self.current() {
            Some(device) => Some(copy_units(device.id.as_slice())),
            None => None,
        }
    }
}

/// What is said of a device, given its mute and its volume in percent as far as
/// they can be read. Of a disabled one neither is said.
pub open spec fn description(e: EndpointView, muted: Option<bool>, percent: Option<i32>) -> Seq<
    char,
> {
    let kind = if e.is_input {
        "input"@
    } else {
        "output"@
    };
    let head = e.name + ", "@ + kind;
    if !e.enabled {
        head + ", disabled"@
    } else {
        head + ", enabled"@ + (if muted == Some(true) {
            ", muted"@
        } else {
            Seq::empty()
        }) + (match percent {
            Some(percent) => ", "@ + decimal(percent as int) + " percent"@,
            None => Seq::empty(),
        })
    }
}

/// Describes a device.
pub fn device_description(
    e: &Endpoint,
    muted: Option<bool>,
    percent: Option<i32>,
) -> (text: String)
    ensures
        text@ == description(e@, muted, percent),
{
    let mut text = e.name.clone();
    text.append(", ");
    text.append(
        if e.is_input {
            "input"
        } else {
            "output"
        },
    );
    if !e.enabled {
        text.append(", disabled");
        return text;
    }
    text.append(", enabled");
    if let Some(muted) = muted {
        if muted {
            text.append(", muted");
        }
    }
    if let Some(percent) = percent {
        text.append(", ");
        push_decimal(&mut text, percent as i64);
        text.append(" percent");
    }
    assert(text@ =~= description(e@, muted, percent));
    text
}

/// Moves the selection among the devices of a new list. Gives the place of the
/// device to describe, or what is said where there is none.
pub fn navigate_devices(nav: &mut DeviceNav, devices: Vec<Endpoint>, step: i32) -> (to: Result<
    usize,
    String,
>)
    ensures
        match to {
            Err(text) => devices@.len() == 0 && final(nav)@ == old(nav)@.refreshed(
                endpoint_views(devices@),
            ) && text@ == "No audio devices"@,
            Ok(to) => {
                let refreshed = old(nav)@.refreshed(endpoint_views(devices@));
                &&& devices@.len() > 0
                &&& final(nav)@ == refreshed.navigated(step as int)
                &&& to == stepped(refreshed.index(), step as int, devices@.len() - 1)
                &&& to < final(nav).devices@.len()
            },
        },
        final(nav)@.well_formed(),
{
    let ghost refreshed = nav@.refreshed(endpoint_views(devices@));
    nav.refresh(devices);
    assert(nav@.devices.len() == nav.devices@.len());
    if nav.devices.len() == 0 {
        return Err("No audio devices".to_string());
    }
    let last: usize = nav.devices.len() - 1;
    let to = step_index(nav.index(), step, last);
    assert(nav@.devices[to as int] == nav.devices@[to as int]@);
    nav.selected = Some(copy_units(nav.devices[to].id.as_slice()));
    proof {
        let id = nav@.devices[to as int].id;
        first_index_is_first(nav@.devices, with_endpoint_id(id));
        assert(with_endpoint_id(id)(nav@.devices[to as int]));
    }
    Ok(to)
}

/// What to do next about the selected device.
#[derive(Debug, PartialEq, Eq)]
pub enum DeviceStep {
    /// Set the volume of the device with this id to the new level and report
    /// whether that worked.
    SetVolume { id: Vec<u16> },
    /// Mute or unmute the device with this id and report whether that worked.
    Mute { id: Vec<u16>, mute: bool },
    /// Enable or disable the device with this id and report whether that worked.
    Enable { id: Vec<u16>, enable: bool },
    /// Say this; that is all.
    Say(String),
}

/// What a [`DeviceStep`] holds.
#[verifier::ext_equal]
pub enum DeviceStepView {
    SetVolume { id: Seq<u16> },
    Mute { id: Seq<u16>, mute: bool },
    Enable { id: Seq<u16>, enable: bool },
    Say(Seq<char>),
}

impl View for DeviceStep {
    type V = DeviceStepView;

    open spec fn view(&self) -> DeviceStepView {
        match self {
            DeviceStep::SetVolume { id } => DeviceStepView::SetVolume { id: id@ },
            DeviceStep::Mute { id, mute } => DeviceStepView::Mute { id: id@, mute: *mute },
            DeviceStep::Enable { id, enable } => DeviceStepView::Enable {
                id: id@,
                enable: *enable,
            },
            DeviceStep::Say(text) => DeviceStepView::Say(text@),
        }
    }
}

/// The next step of changing the volume of the selected device.
pub open spec fn device_volume_step(
    nav: NavView,
    level: Option<Level>,
    written: Option<bool>,
) -> DeviceStepView {
    if nav.current() is None {
        DeviceStepView::Say("Select a device first"@)
    } else if level is None || written == Some(false) {
        DeviceStepView::Say("Device volume unavailable"@)
    } else if written is None {
        DeviceStepView::SetVolume { id: nav.current()->0.id }
    } else {
        DeviceStepView::Say(level_text(level->0))
    }
}

/// The next step of toggling the mute of the selected device.
pub open spec fn device_mute_step(
    nav: NavView,
    muted: Option<bool>,
    written: Option<bool>,
) -> DeviceStepView {
    if nav.current() is None {
        DeviceStepView::Say("Select a device first"@)
    } else if muted is None || written == Some(false) {
        DeviceStepView::Say("Device unavailable"@)
    } else if written is None {
        DeviceStepView::Mute { id: nav.current()->0.id, mute: !muted->0 }
    } else {
        DeviceStepView::Say(mute_text(!muted->0, nav.current()->0.name))
    }
}

/// The next step of enabling or disabling the selected device, and the navigation
/// behind it.
pub open spec fn device_enable_step(nav: NavView, worked: Option<bool>) -> (
    NavView,
    DeviceStepView,
) {
    if nav.index() is None {
        (nav, DeviceStepView::Say("Select a device first"@))
    } else {
        let device = nav.devices[nav.index()->0];
        let enable = !device.enabled;
        if worked is None {
            (nav, DeviceStepView::Enable { id: device.id, enable })
        } else if worked->0 {
            (
                nav.marked(nav.index()->0, enable),
                DeviceStepView::Say(enabled_text(enable, device.name)),
            )
        } else {
            (nav, DeviceStepView::Say(not_enabled_text(enable, device.name)))
        }
    }
}

/// Changes the volume of the selected device. `level` is the new level, where
/// the old one could be read, and `written` what came of the request, once it was
/// made.
pub fn apply_device_volume(
    nav: &DeviceNav,
    level: Option<Level>,
    written: Option<bool>,
) -> (step: DeviceStep)
    ensures
        step@ == match nav@.current() {
            None => DeviceStepView::Say("Select a device first"@),
            Some(device) => match level {
                None => DeviceStepView::Say("Device volume unavailable"@),
                Some(level) => match written {
                    None => DeviceStepView::SetVolume { id: device.id },
                    Some(true) => DeviceStepView::Say(level_text(level)),
                    Some(false) => DeviceStepView::Say("Device volume unavailable"@),
                },
            },
        },
        step@ == device_volume_step(nav@, level, written),
{
    match nav.current() {
        None => DeviceStep::Say("Select a device first".to_string()),
        Some(device) => match level {
            None => DeviceStep::Say("Device volume unavailable".to_string()),
            Some(level) => match written {
                None => DeviceStep::SetVolume { id: copy_units(device.id.as_slice()) },
                Some(true) => DeviceStep::Say(say_level(level)),
                Some(false) => DeviceStep::Say("Device volume unavailable".to_string()),
            },
        },
    }
}

/// Toggles the mute of the selected device. `muted` is its mute, where that
/// could be read, and `written` what came of the request, once it was made.
pub fn toggle_device_mute(
    nav: &DeviceNav,
    muted: Option<bool>,
    written: Option<bool>,
) -> (step: DeviceStep)
    ensures
        step@ == match nav@.current() {
            None => DeviceStepView::Say("Select a device first"@),
            Some(device) => match muted {
                None => DeviceStepView::Say("Device unavailable"@),
                Some(muted) => match written {
                    None => DeviceStepView::Mute { id: device.id, mute: !muted },
                    Some(true) => DeviceStepView::Say(mute_text(!muted, device.name)),
                    Some(false) => DeviceStepView::Say("Device unavailable"@),
                },
            },
        },
        step@ == device_mute_step(nav@, muted, written),
{
    match nav.current() {
        None => DeviceStep::Say("Select a device first".to_string()),
        Some(device) => match muted {
            None => DeviceStep::Say("Device unavailable".to_string()),
            Some(muted) => match written {
                None => DeviceStep::Mute {
                    id: copy_units(device.id.as_slice()),
                    mute: !muted,
                },
                Some(true) => DeviceStep::Say(say_mute(!muted, device.name.as_str())),
                Some(false) => DeviceStep::Say("Device unavailable".to_string()),
            },
        },
    }
}

pub open spec fn enabled_text(enabled: bool, name: Seq<char>) -> Seq<char> {
    (if enabled {
        "Enabled"@
    } else {
        "Disabled"@
    }) + " "@ + name
}

pub open spec fn not_enabled_text(enable: bool, name: Seq<char>) -> Seq<char> {
    "Could not "@ + (if enable {
        "enable"@
    } else {
        "disable"@
    }) + " "@ + name
}

/// Enables the selected device, or disables it where it is enabled. `worked` is
/// what came of the request, once it was made; where it worked, the list has the
/// device as it now is.
pub fn toggle_device_enabled(nav: &mut DeviceNav, worked: Option<bool>) -> (step: DeviceStep)
    ensures
        match old(nav)@.index() {
            None => final(nav)@ == old(nav)@ && step@ == DeviceStepView::Say(
                "Select a device first"@,
            ),
            Some(i) => {
                let device = old(nav)@.devices[i];
                let enable = !device.enabled;
                match worked {
                    None => final(nav)@ == old(nav)@ && step@ == (DeviceStepView::Enable {
                        id: device.id,
                        enable,
                    }),
                    Some(true) => final(nav)@ == old(nav)@.marked(i, enable) && step@
                        == DeviceStepView::Say(enabled_text(enable, device.name)),
                    Some(false) => final(nav)@ == old(nav)@ && step@ == DeviceStepView::Say(
                        not_enabled_text(enable, device.name),
                    ),
                }
            },
        },
        (final(nav)@, step@) == device_enable_step(old(nav)@, worked),
{
    let index = nav.index();
    let i = match index {
        Some(i) => i,
        None => {
            return DeviceStep::Say("Select a device first".to_string());
        },
    };
    assert(nav@.devices[i as int] == nav.devices@[i as int]@);
    let enable = !nav.devices[i].enabled;
    match worked {
        None => DeviceStep::Enable { id: copy_units(nav.devices[i].id.as_slice()), enable },
        Some(true) => {
            let mut text = if enable {
                "Enabled".to_string()
            } else {
                "Disabled".to_string()
            };
            text.append(" ");
            text.append(nav.devices[i].name.as_str());
            nav.devices[i].enabled = enable;
            assert(nav@ =~= old(nav)@.marked(i as int, enable));
            DeviceStep::Say(text)
        },
        Some(false) => {
            let mut text = "Could not ".to_string();
            text.append(
                if enable {
                    "enable"
                } else {
                    "disable"
                },
            );
            text.append(" ");
            text.append(nav.devices[i].name.as_str());
            DeviceStep::Say(text)
        },
    }
}

/// What is said when device mode is entered.
pub open spec fn device_mode_said(
    nav: NavView,
    muted: Option<bool>,
    percent: Option<i32>,
) -> Seq<char> {
    match nav.current() {
        Some(device) => "Device mode, "@ + description(device, muted, percent),
        None => "Device mode, no audio devices"@,
    }
}

/// What is said when application mode is entered.
pub open spec fn application_mode_said(state: StateView) -> Seq<char> {
    match state.current() {
        Some(session) => "Application mode, "@ + session.name,
        None => "Application mode"@,
    }
}

/// What is said when device mode is entered, with the mute and the volume of the
/// selected device as far as they can be read.
pub fn device_mode_text(nav: &DeviceNav, muted: Option<bool>, percent: Option<i32>) -> (text:
    String)
    ensures
        text@ == match nav@.current() {
            Some(device) => "Device mode, "@ + description(device, muted, percent),
            None => "Device mode, no audio devices"@,
        },
        text@ == device_mode_said(nav@, muted, percent),
{
    match nav.current() {
        Some(device) => {
            let mut text = "Device mode, ".to_string();
            text.append(device_description(device, muted, percent).as_str());
            text
        },
        None => "Device mode, no audio devices".to_string(),
    }
}

/// What is said when application mode is entered.
pub fn application_mode_text(state: &State) -> (text: String)
    ensures
        text@ == match state@.current() {
            Some(session) => "Application mode, "@ + session.name,
            None => "Application mode"@,
        },
        text@ == application_mode_said(state@),
{
    match state.current() {
        Some(session) => {
            let mut text = "Application mode, ".to_string();
            text.append(session.name.as_str());
            text
        },
        None => "Application mode".to_string(),
    }
}

/// A new list keeps the selected device selected as long as it lists it.
pub proof fn selection_survives_enumeration(nav: NavView, devices: Seq<EndpointView>)
    requires
        nav.current() is Some,
    ensures
        ({
            let selected = nav.current()->0;
            let after = nav.refreshed(devices);
            let listed = exists|i: int|
                0 <= i < devices.len() && (#[trigger] devices[i]).id == selected.id;
            &&& after.devices == devices
            &&& listed ==> after.current() is Some && after.current()->0.id == selected.id
            &&& !listed ==> after.selected is None && after.current() is None
        }),
{
    let id = nav.selected->0;
    first_index_is_first(nav.devices, with_endpoint_id(id));
    first_index_is_first(devices, with_endpoint_id(id));
    if exists|i: int| 0 <= i < devices.len() && (#[trigger] devices[i]).id == id {
        let i = choose|i: int| 0 <= i < devices.len() && (#[trigger] devices[i]).id == id;
        assert(with_endpoint_id(id)(devices[i]));
    }
}

/// Entering device mode selects a device wherever there is one: the selected
/// one, or the default output where it is listed, or the first.
pub proof fn entering_selects_a_device(nav: NavView, default: Option<Seq<u16>>)
    requires
        nav.well_formed(),
    ensures
        nav.initially_selected(default).well_formed(),
        nav.devices.len() > 0 ==> nav.initially_selected(default).current() is Some,
        nav.current() is Some ==> nav.initially_selected(default).current() == nav.current(),
{
    let after = nav.initially_selected(default);
    if nav.devices.len() > 0 {
        let id = nav.devices[0].id;
        first_index_is_first(nav.devices, with_endpoint_id(id));
        assert(with_endpoint_id(id)(nav.devices[0]));
    }
}

/// Among devices with ids of their own, a step selects the device that it leads
/// to.
pub proof fn device_navigation_selects_an_entry(nav: NavView, step: int)
    requires
        nav.devices.len() > 0,
        forall|i: int, j: int|
            0 <= i < j < nav.devices.len() ==> (#[trigger] nav.devices[i]).id != (
            #[trigger] nav.devices[j]).id,
    ensures
        nav.navigated(step).well_formed(),
        nav.navigated(step).index() == Some(stepped(nav.index(), step, nav.devices.len() - 1)),
{
    if let Some(id) = nav.selected {
        first_index_is_first(nav.devices, with_endpoint_id(id));
    }
    let to = stepped(nav.index(), step, nav.devices.len() - 1);
    first_index_found(nav.devices, with_endpoint_id(nav.devices[to].id), to);
}

/// Marking a device leaves the selection where it is, and marking it back undoes
/// it.
pub proof fn marking_back_restores(nav: NavView, enabled: bool)
    requires
        nav.index() is Some,
    ensures
        nav.marked(nav.index()->0, enabled).index() == nav.index(),
        nav.marked(nav.index()->0, enabled).marked(
            nav.index()->0,
            nav.devices[nav.index()->0].enabled,
        ) == nav,
{
    let i = nav.index()->0;
    let id = nav.selected->0;
    first_index_is_first(nav.devices, with_endpoint_id(id));
    let after = nav.marked(i, enabled);
    assert forall|j: int| 0 <= j < i implies !with_endpoint_id(id)(#[trigger] after.devices[j]) by {
        assert(after.devices[j] == nav.devices[j]);
    }
    first_index_found(after.devices, with_endpoint_id(id), i);
    let back = after.marked(i, nav.devices[i].enabled);
    assert(back.devices =~= nav.devices);
}

/// A step moves the selection by so many entries in a list of any length, to the
/// first entry where it would go below it and to the last where it would go
/// beyond it. Without a selection, or with one that is gone, it goes to the first
/// entry. The list stays as it is.
pub proof fn a_step_moves_the_selection(state: StateView, step: int)
    requires
        state.sessions.len() > 0,
    ensures
        ({
            let last = state.sessions.len() - 1;
            let after = state.navigated(step);
            &&& after.sessions == state.sessions
            &&& state.current_index() is None ==> after.selection == Some(state.sessions[0].id)
            &&& state.current_index() matches Some(i) ==> {
                &&& 0 <= i + step <= last ==> after.selection == Some(state.sessions[i + step].id)
                &&& i + step < 0 ==> after.selection == Some(state.sessions[0].id)
                &&& i + step > last ==> after.selection == Some(state.sessions[last].id)
            }
            &&& state.well_formed() ==> after.well_formed() && after.current_index() is Some
            &&& state.well_formed() && state.current_index() is None ==> after.current_index()
                == Some(0int)
            &&& state.well_formed() && state.current_index() is Some ==> {
                let i = state.current_index()->0;
                let to = after.current_index()->0;
                &&& 0 <= i + step <= last ==> to == i + step
                &&& i + step < 0 ==> to == 0
                &&& i + step > last ==> to == last
            }
        }),
{
    if state.well_formed() {
        navigation_selects_an_entry(state, step);
    }
}

/// Stepping right from one end of the list reaches every entry: with the
/// selection on an entry that is not the last, a step of one selects the entry
/// behind it.
pub proof fn one_step_right_is_the_next_entry(state: StateView, i: int)
    requires
        state.well_formed(),
        0 <= i < state.sessions.len() - 1,
        state.selection == Some(state.sessions[i].id),
    ensures
        state.navigated(1).current() == Some(state.sessions[i + 1]),
        state.navigated(1).navigated(-1).current() == Some(state.sessions[i]),
{
    first_index_found(state.sessions, crate::audio::with_id(state.sessions[i].id), i);
    a_step_moves_the_selection(state, 1);
    a_step_moves_the_selection(state.navigated(1), -1);
}

/// The selected device is the first in the list with the selected id, and there
/// is none exactly where nothing is selected or no device has that id.
pub proof fn current_device_has_the_selected_id(nav: NavView)
    ensures
        nav.index() matches Some(i) ==> {
            &&& 0 <= i < nav.devices.len()
            &&& nav.selected == Some(nav.devices[i].id)
            &&& nav.current() == Some(nav.devices[i])
            &&& forall|j: int| 0 <= j < i ==> (#[trigger] nav.devices[j]).id != nav.devices[i].id
        },
        nav.index() is None ==> nav.current() is None,
        nav.index() is None <==> forall|j: int|
            0 <= j < nav.devices.len() ==> Some((#[trigger] nav.devices[j]).id) != nav.selected,
{
    if let Some(id) = nav.selected {
        first_index_is_first(nav.devices, with_endpoint_id(id));
        if nav.index() is None {
            assert forall|j: int| 0 <= j < nav.devices.len() implies Some(
                (#[trigger] nav.devices[j]).id,
            ) != nav.selected by {
                assert(!with_endpoint_id(id)(nav.devices[j]));
            }
        }
    }
}

/// A step moves the selection among the devices by so many entries in a list of
/// any length, to the first where it would go below it and to the last where it
/// would go beyond it, and to the first where no device is selected.
pub proof fn a_step_moves_among_devices(nav: NavView, step: int)
    requires
        nav.devices.len() > 0,
    ensures
        ({
            let last = nav.devices.len() - 1;
            let after = nav.navigated(step);
            &&& after.devices == nav.devices
            &&& nav.index() is None ==> after.selected == Some(nav.devices[0].id)
            &&& nav.index() matches Some(i) ==> {
                &&& 0 <= i + step <= last ==> after.selected == Some(nav.devices[i + step].id)
                &&& i + step < 0 ==> after.selected == Some(nav.devices[0].id)
                &&& i + step > last ==> after.selected == Some(nav.devices[last].id)
            }
        }),
        forall|from: Option<int>, last: int|
            last >= 0 ==> {
                let to = #[trigger] stepped(from, step, last);
                &&& from is None ==> to == 0
                &&& from is Some && from->0 + step < 0 ==> to == 0
                &&& from is Some && from->0 + step > last ==> to == last
                &&& from is Some && 0 <= from->0 + step <= last ==> to == from->0 + step
            },
{
}

/// A new list is taken as it is, and the selection is kept exactly where a device
/// of the new list has its id.
pub proof fn refreshing_takes_the_list(nav: NavView, devices: Seq<EndpointView>)
    ensures
        nav.refreshed(devices).devices == devices,
        nav.selected is None ==> nav.refreshed(devices).selected is None,
        nav.selected is Some && (exists|i: int|
            0 <= i < devices.len() && Some((#[trigger] devices[i]).id) == nav.selected)
            ==> nav.refreshed(devices).selected == nav.selected,
        (forall|i: int|
            0 <= i < devices.len() ==> Some((#[trigger] devices[i]).id) != nav.selected)
            ==> nav.refreshed(devices).selected is None,
{
    let kept = NavView { devices, selected: nav.selected };
    current_device_has_the_selected_id(kept);
}

/// Device mode starts on the device that is selected; without one, on the default
/// output where it is listed; else on the first device; and nowhere without any.
pub proof fn device_mode_starts_somewhere(nav: NavView, default: Option<Seq<u16>>)
    ensures
        ({
            let after = nav.initially_selected(default);
            let listed = exists|i: int|
                0 <= i < nav.devices.len() && Some((#[trigger] nav.devices[i]).id) == default;
            &&& after.devices == nav.devices
            &&& nav.selected is Some ==> after.selected == nav.selected
            &&& nav.selected is None && listed ==> after.selected == default
            &&& nav.selected is None && !listed && nav.devices.len() > 0 ==> after.selected == Some(
                nav.devices[0].id,
            )
            &&& nav.selected is None && nav.devices.len() == 0 ==> after.selected is None
        }),
{
    let on_default = NavView { devices: nav.devices, selected: default };
    current_device_has_the_selected_id(on_default);
}

/// Marking a device changes whether it is enabled, and nothing else of it, of the
/// others or of the selection.
pub proof fn marking_changes_one_device(nav: NavView, i: int, enabled: bool)
    requires
        0 <= i < nav.devices.len(),
    ensures
        ({
            let after = nav.marked(i, enabled);
            &&& after.selected == nav.selected
            &&& after.devices.len() == nav.devices.len()
            &&& after.devices[i].enabled == enabled
            &&& after.devices[i].id == nav.devices[i].id
            &&& after.devices[i].name == nav.devices[i].name
            &&& after.devices[i].is_input == nav.devices[i].is_input
            &&& forall|j: int|
                0 <= j < nav.devices.len() && j != i ==> #[trigger] after.devices[j]
                    == nav.devices[j]
        }),
{
}

/// What is said of a level: its percentage, which can be read back from the
/// text, and that it is the maximum or the minimum exactly where it is.
pub proof fn a_level_is_said(level: Level)
    ensures
        ({
            let n = decimal(level.percent as int);
            let text = level_text(level);
            &&& level.at_maximum ==> text == n + " percent maximum"@
            &&& !level.at_maximum && level.at_minimum ==> text == n + " percent minimum"@
            &&& !level.at_maximum && !level.at_minimum ==> text == n + " percent"@
            &&& level.percent >= 0 ==> crate::text::read_digits(text.take(n.len() as int))
                == level.percent
        }),
{
    reveal_strlit(" percent");
    reveal_strlit(" percent maximum");
    reveal_strlit(" percent minimum");
    reveal_strlit(" maximum");
    reveal_strlit(" minimum");
    reveal_strlit("");
    let n = decimal(level.percent as int);
    assert(" percent"@ + " maximum"@ =~= " percent maximum"@);
    assert(" percent"@ + " minimum"@ =~= " percent minimum"@);
    assert(level_text(level) =~= n + (" percent"@ + suffix(level)));
    assert(" percent"@ + ""@ =~= " percent"@);
    crate::text::decimal_reads_back(level.percent as int);
    assert(level_text(level).take(n.len() as int) =~= n);
}

/// An application is announced by its name and its volume, with the mute in front
/// exactly where it is muted.
pub proof fn an_application_is_announced(name: Seq<char>, percent: int)
    ensures
        session_text(name, percent, false) == name + ", "@ + decimal(percent) + " percent"@,
        session_text(name, percent, true) == "muted, "@ + session_text(name, percent, false),
{
    reveal_strlit("");
    assert(""@ + name =~= name);
    assert(session_text(name, percent, true) =~= "muted, "@ + session_text(name, percent, false));
}

/// What is said of a mute or of an enabled device names the device and the new
/// state, and the two states are told apart.
pub proof fn toggles_are_said(name: Seq<char>)
    ensures
        mute_text(true, name) == "muted "@ + name,
        mute_text(false, name) == "unmuted "@ + name,
        enabled_text(true, name) == "Enabled "@ + name,
        enabled_text(false, name) == "Disabled "@ + name,
        not_enabled_text(true, name) == "Could not enable "@ + name,
        not_enabled_text(false, name) == "Could not disable "@ + name,
{
    reveal_strlit("muted ");
    reveal_strlit("unmuted ");
    reveal_strlit("muted");
    reveal_strlit("unmuted");
    reveal_strlit("Enabled");
    reveal_strlit("Disabled");
    reveal_strlit("Enabled ");
    reveal_strlit("Disabled ");
    reveal_strlit("Could not ");
    reveal_strlit("enable");
    reveal_strlit("disable");
    reveal_strlit("Could not enable ");
    reveal_strlit("Could not disable ");
    reveal_strlit(" ");
    assert(mute_text(true, name) =~= "muted "@ + name);
    assert(mute_text(false, name) =~= "unmuted "@ + name);
    assert(enabled_text(true, name) =~= "Enabled "@ + name);
    assert(enabled_text(false, name) =~= "Disabled "@ + name);
    assert(not_enabled_text(true, name) =~= "Could not enable "@ + name);
    assert(not_enabled_text(false, name) =~= "Could not disable "@ + name);
}

/// A device is described by its name, its direction and whether it is enabled. A
/// disabled one is described by nothing more; an enabled one also by its mute,
/// where it is muted, and by its volume, where that could be read.
pub proof fn a_device_is_described(e: EndpointView, muted: Option<bool>, percent: Option<i32>)
    ensures
        ({
            let text = description(e, muted, percent);
            let head = if e.is_input {
                e.name + ", input"@
            } else {
                e.name + ", output"@
            };
            let volume = ", "@ + decimal(percent->0 as int) + " percent"@;
            &&& !e.enabled ==> text == head + ", disabled"@
            &&& e.enabled && muted != Some(true) && percent is None ==> text == head
                + ", enabled"@
            &&& e.enabled && muted == Some(true) && percent is None ==> text == head
                + ", enabled, muted"@
            &&& e.enabled && muted != Some(true) && percent is Some ==> text == head
                + ", enabled"@ + volume
            &&& e.enabled && muted == Some(true) && percent is Some ==> text == head
                + ", enabled, muted"@ + volume
        }),
{
    reveal_strlit(", ");
    reveal_strlit("input");
    reveal_strlit("output");
    reveal_strlit(", input");
    reveal_strlit(", output");
    reveal_strlit(", enabled");
    reveal_strlit(", muted");
    reveal_strlit(", enabled, muted");
    let head = if e.is_input {
        e.name + ", input"@
    } else {
        e.name + ", output"@
    };
    let kind = if e.is_input {
        "input"@
    } else {
        "output"@
    };
    assert(e.name + ", "@ + kind =~= head);
    assert(", enabled"@ + ", muted"@ =~= ", enabled, muted"@);
    assert(head + ", enabled"@ + ", muted"@ =~= head + ", enabled, muted"@);
    assert(head + ", enabled"@ + Seq::empty() =~= head + ", enabled"@);
    if let Some(percent) = percent {
        let volume = ", "@ + decimal(percent as int) + " percent"@;
        assert(head + ", enabled"@ + ", muted"@ + volume =~= head + ", enabled, muted"@ + volume);
    } else {
        assert(head + ", enabled, muted"@ + Seq::empty() =~= head + ", enabled, muted"@);
    }
}

/// The models of the navigation and of a step have what those hold.
pub proof fn navigation_is_modelled_in_full(
    nav: DeviceNav,
    i: int,
    id: Vec<u16>,
    on: bool,
    text: String,
)
    ensures
        nav@.devices.len() == nav.devices@.len(),
        0 <= i < nav.devices@.len() ==> nav@.devices[i].id == nav.devices@[i].id@
            && nav@.devices[i].name == nav.devices@[i].name@ && nav@.devices[i].is_input
            == nav.devices@[i].is_input && nav@.devices[i].enabled == nav.devices@[i].enabled,
        nav.selected is None <==> nav@.selected is None,
        nav.selected is Some ==> nav@.selected == Some(nav.selected->0@),
        (DeviceStep::SetVolume { id })@ == (DeviceStepView::SetVolume { id: id@ }),
        (DeviceStep::Mute { id, mute: on })@ == (DeviceStepView::Mute { id: id@, mute: on }),
        (DeviceStep::Enable { id, enable: on })@ == (DeviceStepView::Enable { id: id@, enable: on }),
        DeviceStep::Say(text)@ == DeviceStepView::Say(text@),
{
}

/// A volume goes to the selected session and to no other, and to none where the
/// selection is on no session; it is said exactly where it goes somewhere.
pub proof fn volume_goes_to_the_selection(state: StateView, level: Level)
    ensures
        state.current() is Some ==> volume_applied(state, level).0 == state.selection
            && volume_applied(state, level).0 is Some && volume_applied(state, level).1
            == level_text(level),
        state.current() is None ==> volume_applied(state, level).0 is None && volume_applied(
            state,
            level,
        ).1 == "Select an application first"@,
{
    crate::audio::current_has_the_selected_id(state);
}

/// Toggling the mute reaches the selected session and turns the mute around, so
/// that toggling it twice leaves it as it was; the text names the session and the
/// new mute.
pub proof fn mute_is_turned_around(state: StateView, muted: bool)
    ensures
        state.current() is None ==> mute_toggled(state, muted).0 is None && mute_toggled(
            state,
            muted,
        ).1 == "Select an application first"@,
        state.current() matches Some(session) ==> {
            let (target, text) = mute_toggled(state, muted);
            let (id, mute) = target->0;
            let (again, _) = mute_toggled(state, mute);
            &&& target is Some && Some(id) == state.selection
            &&& mute != muted
            &&& again == Some((id, muted))
            &&& muted ==> text == "unmuted "@ + session.name
            &&& !muted ==> text == "muted "@ + session.name
        },
{
    crate::audio::current_has_the_selected_id(state);
    if let Some(session) = state.current() {
        toggles_are_said(session.name);
    }
}

/// A device's volume is changed on the selected device, once, and the new level is
/// said exactly where the old one could be read and the device took the new one.
pub proof fn device_volume_is_set_once(nav: NavView, level: Level, worked: bool)
    ensures
        nav.current() is None ==> forall|l: Option<Level>, w: Option<bool>| #[trigger]
            device_volume_step(nav, l, w) == DeviceStepView::Say("Select a device first"@),
        nav.current() is Some ==> {
            &&& device_volume_step(nav, Some(level), None) is SetVolume
            &&& Some(device_volume_step(nav, Some(level), None)->SetVolume_id) == nav.selected
            &&& device_volume_step(nav, Some(level), Some(true)) == DeviceStepView::Say(
                level_text(level),
            )
            &&& device_volume_step(nav, Some(level), Some(false)) == DeviceStepView::Say(
                "Device volume unavailable"@,
            )
            &&& device_volume_step(nav, None, None) == DeviceStepView::Say(
                "Device volume unavailable"@,
            )
            &&& device_volume_step(nav, Some(level), Some(worked)) is Say
        },
{
    current_device_has_the_selected_id(nav);
}

/// A device's mute is turned around on the selected device, once, and that is said
/// exactly where the mute could be read and the device took the new one.
pub proof fn device_mute_is_turned_around(nav: NavView, muted: bool)
    ensures
        nav.current() is None ==> forall|m: Option<bool>, w: Option<bool>| #[trigger]
            device_mute_step(nav, m, w) == DeviceStepView::Say("Select a device first"@),
        nav.current() matches Some(device) ==> {
            let step = device_mute_step(nav, Some(muted), None);
            &&& step is Mute && Some(step->Mute_id) == nav.selected && step->mute != muted
            &&& device_mute_step(nav, Some(step->mute), None)->mute == muted
            &&& !muted ==> device_mute_step(nav, Some(muted), Some(true)) == DeviceStepView::Say(
                "muted "@ + device.name,
            )
            &&& muted ==> device_mute_step(nav, Some(muted), Some(true)) == DeviceStepView::Say(
                "unmuted "@ + device.name,
            )
            &&& device_mute_step(nav, Some(muted), Some(false)) == DeviceStepView::Say(
                "Device unavailable"@,
            )
            &&& device_mute_step(nav, None, None) == DeviceStepView::Say("Device unavailable"@)
        },
{
    current_device_has_the_selected_id(nav);
    if let Some(device) = nav.current() {
        toggles_are_said(device.name);
    }
}

/// The selected device is asked to become the opposite of what it is listed as.
/// The list changes exactly where that worked, and in that device alone, and
/// toggling it again asks for the way back and leads to the list as it was.
pub proof fn device_is_toggled_there_and_back(nav: NavView)
    ensures
        nav.index() is None ==> forall|w: Option<bool>| #[trigger]
            device_enable_step(nav, w) == (nav, DeviceStepView::Say("Select a device first"@)),
        nav.index() matches Some(i) ==> {
            let device = nav.devices[i];
            let (asked, step) = device_enable_step(nav, None);
            let (after, said) = device_enable_step(nav, Some(true));
            let (failed, why) = device_enable_step(nav, Some(false));
            &&& asked == nav && failed == nav
            &&& step is Enable && Some(step->Enable_id) == nav.selected && step->enable
                != device.enabled
            &&& after.devices[i].enabled != device.enabled
            &&& after.devices.len() == nav.devices.len()
            &&& forall|j: int|
                0 <= j < nav.devices.len() && j != i ==> #[trigger] after.devices[j]
                    == nav.devices[j]
            &&& after.selected == nav.selected
            &&& after.index() == nav.index()
            &&& device_enable_step(after, Some(true)).0 == nav
            &&& !device.enabled ==> said == DeviceStepView::Say("Enabled "@ + device.name) && why
                == DeviceStepView::Say("Could not enable "@ + device.name)
            &&& device.enabled ==> said == DeviceStepView::Say("Disabled "@ + device.name) && why
                == DeviceStepView::Say("Could not disable "@ + device.name)
        },
{
    current_device_has_the_selected_id(nav);
    if let Some(i) = nav.index() {
        let device = nav.devices[i];
        toggles_are_said(device.name);
        marking_back_restores(nav, !device.enabled);
        marking_changes_one_device(nav, i, !device.enabled);
    }
}

/// Entering a mode names what is selected in it: the words of the mode come first,
/// and then the application by its name, or the device by its description. Device
/// mode says so where there is no device, and right after it was entered that is
/// only where none is listed.
pub proof fn entering_a_mode_names_the_selection(
    state: StateView,
    nav: NavView,
    default: Option<Seq<u16>>,
    muted: Option<bool>,
    percent: Option<i32>,
)
    ensures
        state.current() is None ==> application_mode_said(state) == "Application mode"@,
        state.current() matches Some(session) ==> {
            let text = application_mode_said(state);
            text.take(18) == "Application mode, "@ && text.skip(18) == session.name
        },
        nav.current() is None ==> device_mode_said(nav, muted, percent)
            == "Device mode, no audio devices"@,
        nav.current() matches Some(device) ==> {
            let text = device_mode_said(nav, muted, percent);
            text.take(13) == "Device mode, "@ && text.skip(13) == description(
                device,
                muted,
                percent,
            )
        },
        nav.well_formed() && nav.initially_selected(default).current() is None
            ==> nav.devices.len() == 0,
{
    reveal_strlit("Application mode, ");
    reveal_strlit("Device mode, ");
    if let Some(session) = state.current() {
        let text = application_mode_said(state);
        assert(text.take(18) =~= "Application mode, "@);
        assert(text.skip(18) =~= session.name);
    }
    if let Some(device) = nav.current() {
        let text = device_mode_said(nav, muted, percent);
        assert(text.take(13) =~= "Device mode, "@);
        assert(text.skip(13) =~= description(device, muted, percent));
    }
    if nav.well_formed() {
        entering_selects_a_device(nav, default);
    }
}

} // verus!
