//! Picking the devices of the selected application: from its present routing to
//! what the choice comes to.

use vstd::prelude::*;
use vstd::string::*;

use crate::audio::State;
use crate::devices::{
    copy_units, device_views, id_string, trimmed, units_of, DeviceInfo, DeviceView,
};
use crate::dialog::{opened_on, resolved, Choice, ChoiceView, DeviceSelection};
use crate::lists::{first_index, first_index_found, first_index_is_first, first_index_missing};
use crate::routing::{device_path, path_id, path_keeps_id};
use crate::text::{eq_ignore_ascii_case, same_ignoring_ascii_case};
use crate::utf16::decoded;

verus! {

/// The application whose devices are picked.
#[derive(Debug, PartialEq, Eq)]
pub struct Target {
    pub pid: u32,
    pub app_name: String,
}

/// Picks for the selected application; says so where none is selected.
pub fn open_device_dialog(state: &State) -> (target: Result<Target, String>)
    ensures
        match target {
            Ok(target) => state@.current() is Some && target.pid == state@.current()->0.pid
                && target.app_name@ == state@.current()->0.name,
            Err(text) => state@.current() is None && text@ == "Select an application first"@,
        },
{
    match state.current() {
        Some(session) => Ok(Target { pid: session.pid, app_name: session.name.clone() }),
        None => Err("Select an application first".to_string()),
    }
}

/// The device's id is `routed`, up to the case of ASCII letters.
pub open spec fn is_device(routed: Seq<char>) -> spec_fn(DeviceView) -> bool {
    |d: DeviceView| same_ignoring_ascii_case(decoded(trimmed(d.id)), routed)
}

/// The item that stands for the present routing: that of the first device with
/// the id that the application is routed to, or the default.
pub open spec fn preselected(devices: Seq<DeviceView>, routed: Option<Seq<char>>) -> int {
    match routed {
        Some(routed) => match first_index(devices, is_device(routed)) {
            Some(i) => i + 1,
            None => 0,
        },
        None => 0,
    }
}

/// The item of a list to open the dialog on.
pub fn preselect(list: &[DeviceInfo], routed: Option<&str>) -> (item: usize)
    ensures
        item == preselected(
            device_views(list@),
            match routed {
                Some(routed) => Some(routed@),
                None => None,
            },
        ),
        item <= list@.len(),
{
    let wanted = match routed {
        Some(wanted) => wanted,
        None => {
            return 0;
        },
    };
    let ghost devices = device_views(list@);
    for i in 0..list.len()
        invariant
            routed == Some(wanted),
            devices == device_views(list@),
            forall|j: int| 0 <= j < i ==> !is_device(wanted@)(#[trigger] devices[j]),
    {
        assert(devices[i as int] == list@[i as int]@);
        let id = id_string(list[i].id.as_slice());
        if eq_ignore_ascii_case(id.as_str(), wanted) {
            proof {
                first_index_found(devices, is_device(wanted@), i as int);
            }
            return i + 1;
        }
    }
    proof {
        first_index_missing(devices, is_device(wanted@));
    }
    0
}

/// What to do next about the choice.
#[derive(Debug, PartialEq, Eq)]
pub enum ApplyStep {
    /// Make the input or output with this id the system default and report
    /// whether that worked.
    SetDefault { input: bool, id: Vec<u16> },
    /// Route the application's input or output to the device with this id, or
    /// back to the system default, and report whether that worked.
    Route { input: bool, id: Option<Vec<u16>> },
    /// Say this; that is all.
    Say(String),
}

/// What an [`ApplyStep`] holds.
#[verifier::ext_equal]
pub enum ApplyStepView {
    SetDefault { input: bool, id: Seq<u16> },
    Route { input: bool, id: Option<Seq<u16>> },
    Say(Seq<char>),
}

impl View for ApplyStep {
    type V = ApplyStepView;

    open spec fn view(&self) -> ApplyStepView {
        match self {
            ApplyStep::SetDefault { input, id } => ApplyStepView::SetDefault {
                input: *input,
                id: id@,
            },
            ApplyStep::Route { input, id } => ApplyStepView::Route {
                input: *input,
                id: units_of(*id),
            },
            ApplyStep::Say(text) => ApplyStepView::Say(text@),
        }
    }
}

/// The id of the chosen device; none stands for the system default.
pub open spec fn chosen_id(choice: ChoiceView) -> Option<Seq<u16>> {
    match choice {
        ChoiceView::Device(device) => Some(device.id),
        ChoiceView::Default => None,
    }
}

/// The id of the chosen input or output; none for the system default.
pub fn chosen(sel: &DeviceSelection, input: bool) -> (id: Option<Vec<u16>>)
    ensures
        units_of(id) == chosen_id(
            if input {
                sel.input@
            } else {
                sel.output@
            },
        ),
{
    let choice = if input {
        &sel.input
    } else {
        &sel.output
    };
    match choice {
        Choice::Default => None,
        Choice::Device { id, name } => Some(copy_units(id.as_slice())),
    }
}

pub open spec fn default_request(choice: ChoiceView, input: bool) -> Seq<ApplyStepView> {
    match choice {
        ChoiceView::Device(device) => seq![ApplyStepView::SetDefault { input, id: device.id }],
        ChoiceView::Default => Seq::empty(),
    }
}

/// The requests that a choice comes to, the output first. An application is
/// routed both ways. The system sounds have no owning process to route, so for
/// them each chosen device becomes the system default.
pub open spec fn requests(pid: u32, output: ChoiceView, input: ChoiceView) -> Seq<ApplyStepView> {
    if pid == 0 {
        default_request(output, false) + default_request(input, true)
    } else {
        seq![
            ApplyStepView::Route { input: false, id: chosen_id(output) },
            ApplyStepView::Route { input: true, id: chosen_id(input) },
        ]
    }
}

/// The chosen device's name, where it was made the default.
pub open spec fn changed(choice: ChoiceView, worked: bool) -> Option<Seq<char>> {
    match choice {
        ChoiceView::Device(device) => if worked {
            Some(device.name)
        } else {
            None
        },
        ChoiceView::Default => None,
    }
}

/// What is said of changed system defaults.
pub open spec fn defaults_text(output: Option<Seq<char>>, input: Option<Seq<char>>) -> Seq<char> {
    match (output, input) {
        (None, None) => "No devices changed"@,
        (Some(output), None) => "Set "@ + ("default output "@ + output),
        (None, Some(input)) => "Set "@ + ("default input "@ + input),
        (Some(output), Some(input)) => "Set "@ + ("default output "@ + output) + ", "@ + (
        "default input "@ + input),
    }
}

/// What is said of one direction of a routing.
pub open spec fn route_text(choice: ChoiceView, worked: bool) -> Seq<char> {
    if !worked {
        "failed"@
    } else {
        match choice {
            ChoiceView::Default => "default"@,
            ChoiceView::Device(device) => device.name,
        }
    }
}

/// What is said in the end, after the given outcomes of the requests.
pub open spec fn final_text(
    target: Target,
    output: ChoiceView,
    input: ChoiceView,
    outcomes: Seq<bool>,
) -> Seq<char> {
    if target.pid == 0 {
        let last = requests(0, output, input).len() - 1;
        defaults_text(changed(output, outcomes[0]), changed(input, outcomes[last]))
    } else {
        target.app_name@ + ": output "@ + route_text(output, outcomes[0]) + ", input "@
            + route_text(input, outcomes[1])
    }
}

fn say_route(choice: &Choice, worked: bool) -> (text: String)
    ensures
        text@ == route_text(choice@, worked),
{
    if !worked {
        return "failed".to_string();
    }
    match choice {
        Choice::Default => "default".to_string(),
        Choice::Device { id, name } => name.clone(),
    }
}

fn say_changed(choice: &Choice, worked: bool, what: &str) -> (text: Option<String>)
    ensures
        match text {
            Some(text) => changed(choice@, worked) is Some && text@ == what@ + changed(
                choice@,
                worked,
            )->0,
            None => changed(choice@, worked) is None,
        },
{
    match choice {
        Choice::Default => None,
        Choice::Device { id, name } => if worked {
            let mut text = what.to_string();
            text.append(name.as_str());
            Some(text)
        } else {
            None
        },
    }
}

/// Applies a choice step by step, after the given outcomes of the earlier
/// requests.
pub fn apply_selection(target: &Target, sel: &DeviceSelection, outcomes: &[bool]) -> (step:
    ApplyStep)
    ensures
        ({
            let all = requests(target.pid, sel.output@, sel.input@);
            step@ == if outcomes@.len() < all.len() {
                all[outcomes@.len() as int]
            } else {
                ApplyStepView::Say(final_text(*target, sel.output@, sel.input@, outcomes@))
            }
        }),
{
    let n = outcomes.len();
    if target.pid == 0 {
        let output_id = chosen(sel, false);
        let input_id = chosen(sel, true);
        let output = output_id.is_some();
        let input = input_id.is_some();
        if n == 0 {
            if let Some(id) = output_id {
                return ApplyStep::SetDefault { input: false, id };
            }
        }
        let at: usize = if output {
            1
        } else {
            0
        };
        if n <= at {
            if let Some(id) = input_id {
                return ApplyStep::SetDefault { input: true, id };
            }
        }
        let out_part = say_changed(&sel.output, output && outcomes[0], "default output ");
        let in_part = say_changed(&sel.input, input && outcomes[at], "default input ");
        let text = match (out_part, in_part) {
            (None, None) => "No devices changed".to_string(),
            (Some(part), None) => {
                let mut text = "Set ".to_string();
                text.append(part.as_str());
                text
            },
            (None, Some(part)) => {
                let mut text = "Set ".to_string();
                text.append(part.as_str());
                text
            },
            (Some(first), Some(second)) => {
                let mut text = "Set ".to_string();
                text.append(first.as_str());
                text.append(", ");
                text.append(second.as_str());
                text
            },
        };
        return ApplyStep::Say(text);
    }
    if n == 0 {
        return ApplyStep::Route { input: false, id: chosen(sel, false) };
    }
    if n == 1 {
        return ApplyStep::Route { input: true, id: chosen(sel, true) };
    }
    let mut text = target.app_name.clone();
    text.append(": output ");
    text.append(say_route(&sel.output, outcomes[0]).as_str());
    text.append(", input ");
    text.append(say_route(&sel.input, outcomes[1]).as_str());
    ApplyStep::Say(text)
}

/// Every request is about what was chosen: a device becomes the default, or is
/// routed to, by its own id, and only the choice of the default clears a routing.
pub proof fn requests_carry_the_choice(pid: u32, output: ChoiceView, input: ChoiceView, i: int)
    requires
        0 <= i < requests(pid, output, input).len(),
    ensures
        match requests(pid, output, input)[i] {
            ApplyStepView::SetDefault { input: to_input, id } => (if to_input {
                input
            } else {
                output
            }) matches ChoiceView::Device(device) && device.id == id,
            ApplyStepView::Route { input: to_input, id } => match if to_input {
                input
            } else {
                output
            } {
                ChoiceView::Device(device) => id == Some(device.id),
                ChoiceView::Default => id is None,
            },
            ApplyStepView::Say(_) => false,
        },
{
}

/// The system sounds are never routed, and picking for an application never
/// changes a system default.
pub proof fn requests_fit_the_target(pid: u32, output: ChoiceView, input: ChoiceView, i: int)
    requires
        0 <= i < requests(pid, output, input).len(),
    ensures
        requests(pid, output, input)[i] is SetDefault <==> pid == 0,
        requests(pid, output, input)[i] is Route <==> pid != 0,
{
}

/// Opening the dialog and accepting it as it is applies the routing that is in
/// effect: what the preselected item stands for is a device with the id that the
/// application is routed to, or the default where no device in the list has it.
pub proof fn reopening_keeps_routing(devices: Seq<DeviceView>, routed: Option<Seq<char>>)
    ensures
        0 <= preselected(devices, routed) <= devices.len(),
        match resolved(Some(preselected(devices, routed)), devices) {
            ChoiceView::Device(device) => routed is Some && devices.contains(device) && is_device(
                routed->0,
            )(device),
            ChoiceView::Default => routed is None || forall|i: int|
                0 <= i < devices.len() ==> !is_device(routed->0)(#[trigger] devices[i]),
        },
{
    if let Some(routed) = routed {
        first_index_is_first(devices, is_device(routed));
    }
}

/// An assigned device is the one that the dialog opens on: its device path read
/// back leads to the first device in the list with its id, which is the device
/// itself where no device before it has the same id.
pub proof fn assigned_device_is_preselected(devices: Seq<DeviceView>, k: int, input: bool)
    requires
        0 <= k < devices.len(),
        decoded(trimmed(devices[k].id)).len() > 0,
    ensures
        ({
            let id = decoded(trimmed(devices[k].id));
            let item = preselected(devices, path_id(device_path(id, input)));
            &&& 1 <= item <= k + 1
            &&& is_device(id)(devices[item - 1])
            &&& resolved(Some(item), devices) == ChoiceView::Device(devices[item - 1])
            &&& (forall|i: int| 0 <= i < k ==> !is_device(id)(#[trigger] devices[i])) ==> item == k
                + 1
        }),
{
    let id = decoded(trimmed(devices[k].id));
    path_keeps_id(id, input);
    first_index_is_first(devices, is_device(id));
    assert(is_device(id)(devices[k]));
}

/// What is preselected stands for the device that the application is routed to:
/// its own item where a device has that id but for the case of letters and none
/// before it has, and the default where none has or nothing is routed.
pub proof fn preselection_finds_the_device(
    devices: Seq<DeviceView>,
    routed: Seq<char>,
    k: int,
)
    requires
        0 <= k < devices.len(),
    ensures
        preselected(devices, None) == 0,
        same_ignoring_ascii_case(decoded(trimmed(devices[k].id)), routed) && (forall|j: int|
            0 <= j < k ==> !same_ignoring_ascii_case(
                decoded(trimmed((#[trigger] devices[j]).id)),
                routed,
            )) ==> preselected(devices, Some(routed)) == k + 1,
        (forall|j: int|
            0 <= j < devices.len() ==> !same_ignoring_ascii_case(
                decoded(trimmed((#[trigger] devices[j]).id)),
                routed,
            )) ==> preselected(devices, Some(routed)) == 0,
{
    first_index_is_first(devices, is_device(routed));
    if same_ignoring_ascii_case(decoded(trimmed(devices[k].id)), routed) && (forall|j: int|
        0 <= j < k ==> !same_ignoring_ascii_case(
            decoded(trimmed((#[trigger] devices[j]).id)),
            routed,
        )) {
        first_index_found(devices, is_device(routed), k);
    }
}

/// An application is always routed both ways, output first, and nothing else is
/// asked for. For the system sounds each chosen device becomes a default, output
/// first, and nothing is asked for where the default was chosen.
pub proof fn a_choice_is_applied_in_full(pid: u32, output: ChoiceView, input: ChoiceView)
    ensures
        ({
            let all = requests(pid, output, input);
            &&& pid != 0 ==> all.len() == 2 && all[0] is Route && !all[0]->Route_input && all[1]
                is Route && all[1]->Route_input
            &&& pid == 0 && output is Device && input is Device ==> all.len() == 2 && all[0]
                is SetDefault && !all[0]->SetDefault_input && all[1] is SetDefault
                && all[1]->SetDefault_input
            &&& pid == 0 && output is Device && input is Default ==> all.len() == 1 && all[0]
                is SetDefault && !all[0]->SetDefault_input
            &&& pid == 0 && output is Default && input is Device ==> all.len() == 1 && all[0]
                is SetDefault && all[0]->SetDefault_input
            &&& pid == 0 && output is Default && input is Default ==> all.len() == 0
        }),
{
}

/// What is said of a routing: the application, and for the output and for the
/// input the name of the device, or that it is the default, or that it failed,
/// each by its own outcome.
pub proof fn a_routing_is_said(
    target: Target,
    output: ChoiceView,
    input: ChoiceView,
    outcomes: Seq<bool>,
)
    requires
        target.pid != 0,
        outcomes.len() >= 2,
    ensures
        ({
            let part = |choice: ChoiceView, worked: bool|
                match choice {
                    ChoiceView::Device(device) => if worked {
                        device.name
                    } else {
                        "failed"@
                    },
                    ChoiceView::Default => if worked {
                        "default"@
                    } else {
                        "failed"@
                    },
                };
            final_text(target, output, input, outcomes) == target.app_name@ + ": output "@ + part(
                output,
                outcomes[0],
            ) + ", input "@ + part(input, outcomes[1])
        }),
{
}

/// What is said of changed defaults: the chosen devices that became the default,
/// each by the outcome of its own request, and that nothing changed where there is
/// none.
pub proof fn changed_defaults_are_said(
    target: Target,
    output: ChoiceView,
    input: ChoiceView,
    outcomes: Seq<bool>,
)
    requires
        target.pid == 0,
        outcomes.len() >= requests(0, output, input).len(),
    ensures
        ({
            let text = final_text(target, output, input, outcomes);
            let in_at: int = if output is Device {
                1
            } else {
                0
            };
            let out_done = output is Device && outcomes[0];
            let in_done = input is Device && outcomes[in_at];
            &&& !out_done && !in_done ==> text == "No devices changed"@
            &&& out_done && !in_done ==> text == "Set default output "@ + output->0.name
            &&& !out_done && in_done ==> text == "Set default input "@ + input->0.name
            &&& out_done && in_done ==> text == "Set default output "@ + output->0.name
                + ", default input "@ + input->0.name
        }),
{
    reveal_strlit("Set ");
    reveal_strlit("default output ");
    reveal_strlit("default input ");
    reveal_strlit("Set default output ");
    reveal_strlit("Set default input ");
    reveal_strlit(", ");
    reveal_strlit(", default input ");
    let out_name = output->0.name;
    let in_name = input->0.name;
    assert("Set "@ + ("default output "@ + out_name) =~= "Set default output "@ + out_name);
    assert("Set "@ + ("default input "@ + in_name) =~= "Set default input "@ + in_name);
    assert("Set "@ + ("default output "@ + out_name) + ", "@ + ("default input "@ + in_name)
        =~= "Set default output "@ + out_name + ", default input "@ + in_name);
}

/// The model of a step has what the step holds.
pub proof fn apply_steps_are_modelled_in_full(input: bool, id: Vec<u16>, text: String)
    ensures
        (ApplyStep::SetDefault { input, id })@ == (ApplyStepView::SetDefault { input, id: id@ }),
        (ApplyStep::Route { input, id: Some(id) })@ == (ApplyStepView::Route {
            input,
            id: Some(id@),
        }),
        (ApplyStep::Route { input, id: None })@ == (ApplyStepView::Route { input, id: None }),
        ApplyStep::Say(text)@ == ApplyStepView::Say(text@),
{
}

/// The dialog opens on the present routing and gives it back when it is accepted
/// as it is: the item that it is opened on is the preselected one, which is always
/// in the list, and a wanted item that is not in it leads to the default.
pub proof fn dialog_opens_on_the_routing(
    devices: Seq<DeviceView>,
    routed: Option<Seq<char>>,
    wanted: int,
)
    ensures
        ({
            let item = preselected(devices, routed);
            &&& 0 <= item <= devices.len()
            &&& opened_on(item, devices.len() as int) == item
            &&& 0 <= wanted <= devices.len() ==> opened_on(wanted, devices.len() as int) == wanted
            &&& wanted > devices.len() ==> opened_on(wanted, devices.len() as int) == 0
            &&& item > 0 ==> resolved(Some(item), devices) == ChoiceView::Device(devices[item - 1])
            &&& item == 0 ==> resolved(Some(item), devices) is Default
        }),
{
    reopening_keeps_routing(devices, routed);
}

} // verus!
