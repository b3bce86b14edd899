//! The device picker: its controls, its lists, its keys and what was chosen.

use vstd::prelude::*;
use vstd::string::*;

use crate::devices::{device_views, DeviceInfo, DeviceView};

verus! {

/// Control identifiers. OK and Cancel are the conventional ones.
pub const ID_OK: i32 = 1;

pub const ID_CANCEL: i32 = 2;

pub const ID_INPUT: i32 = 1001;

pub const ID_OUTPUT: i32 = 1002;

/// The first item of each list. The devices follow, so that device N is item
/// N + 1.
pub const DEFAULT_ITEM_LABEL: &'static str = "Default";

/// Virtual-key codes.
pub const VK_RETURN: u16 = 0x0D;

pub const VK_ESCAPE: u16 = 0x1B;

/// Window messages.
pub const WM_CLOSE: u32 = 0x0010;

pub const WM_COMMAND: u32 = 0x0111;

/// One list's outcome. `Default` means "follow the system default".
#[derive(Debug, PartialEq, Eq)]
pub enum Choice {
    Default,
    Device { id: Vec<u16>, name: String },
}

/// What a [`Choice`] holds.
#[verifier::ext_equal]
pub enum ChoiceView {
    Default,
    Device(DeviceView),
}

impl View for Choice {
    type V = ChoiceView;

    open spec fn view(&self) -> ChoiceView {
        match self {
            Choice::Default => ChoiceView::Default,
            Choice::Device { id, name } => ChoiceView::Device(
                DeviceView { id: id@, name: name@ },
            ),
        }
    }
}

/// The choices when the dialog is accepted.
#[derive(Debug, PartialEq, Eq)]
pub struct DeviceSelection {
    pub input: Choice,
    pub output: Choice,
}

/// The kind of a control; each is of a standard system class.
#[derive(Clone, Copy, Debug, PartialEq, Eq, Structural)]
pub enum ControlKind {
    Label,
    Combo,
    Button,
}

/// One control of the dialog.
#[derive(Debug, PartialEq, Eq)]
pub struct Control {
    pub kind: ControlKind,
    /// 0 for a label, which has none.
    pub id: i32,
    pub text: String,
    pub x: i32,
    pub y: i32,
    pub width: i32,
    pub height: i32,
}

/// What a [`Control`] holds.
#[verifier::ext_equal]
pub struct ControlView {
    pub kind: ControlKind,
    pub id: int,
    pub text: Seq<char>,
    pub x: int,
    pub y: int,
    pub width: int,
    pub height: int,
}

impl View for Control {
    type V = ControlView;

    open spec fn view(&self) -> ControlView {
        ControlView {
            kind: self.kind,
            id: self.id as int,
            text: self.text@,
            x: self.x as int,
            y: self.y as int,
            width: self.width as int,
            height: self.height as int,
        }
    }
}

pub open spec fn control_views(controls: Seq<Control>) -> Seq<ControlView> {
    Seq::new(controls.len(), |i: int| controls[i]@)
}

pub open spec fn label(text: Seq<char>, y: int) -> ControlView {
    ControlView { kind: ControlKind::Label, id: 0, text, x: 12, y, width: 330, height: 16 }
}

/// A list stands below its label and has no text of its own.
pub open spec fn combo(id: int, y: int) -> ControlView {
    ControlView {
        kind: ControlKind::Combo,
        id,
        text: Seq::empty(),
        x: 12,
        y: y + 18,
        width: 330,
        height: 220,
    }
}

pub open spec fn button(id: int, text: Seq<char>, x: int) -> ControlView {
    ControlView { kind: ControlKind::Button, id, text, x, y: 150, width: 80, height: 26 }
}

fn make_label(text: &str, y: i32) -> (control: Control)
    ensures
        control@ == label(text@, y as int),
{
    Control {
        kind: ControlKind::Label,
        id: 0,
        text: text.to_string(),
        x: 12,
        y,
        width: 330,
        height: 16,
    }
}

fn make_combo(id: i32, text: &str, y: i32, out: &mut Vec<Control>)
    requires
        y + 18 <= i32::MAX,
    ensures
        control_views(final(out)@) == control_views(old(out)@).push(label(text@, y as int)).push(
            combo(id as int, y as int),
        ),
{
    out.push(make_label(text, y));
    out.push(
        Control {
            kind: ControlKind::Combo,
            id,
            text: String::new(),
            x: 12,
            y: y + 18,
            width: 330,
            height: 220,
        },
    );
    assert(control_views(out@) =~= control_views(old(out)@).push(label(text@, y as int)).push(
        combo(id as int, y as int),
    ));
}

fn make_button(id: i32, text: &str, x: i32) -> (control: Control)
    ensures
        control@ == button(id as int, text@, x as int),
{
    Control {
        kind: ControlKind::Button,
        id,
        text: text.to_string(),
        x,
        y: 150,
        width: 80,
        height: 26,
    }
}

/// The controls of the dialog in the order in which they are made.
pub open spec fn layout() -> Seq<ControlView> {
    seq![
        label("Input device:"@, 12),
        combo(ID_INPUT as int, 12),
        label("Output device:"@, 66),
        combo(ID_OUTPUT as int, 66),
        button(ID_OK as int, "OK"@, 178),
        button(ID_CANCEL as int, "Cancel"@, 262),
    ]
}

/// The controls to make, in order.
pub fn controls() -> (all: Vec<Control>)
    ensures
        control_views(all@) == layout(),
{
    let mut all: Vec<Control> = Vec::new();
    assert(control_views(all@) =~= Seq::empty());
    make_combo(ID_INPUT, "Input device:", 12, &mut all);
    make_combo(ID_OUTPUT, "Output device:", 66, &mut all);
    let ghost lists = control_views(all@);
    all.push(make_button(ID_OK, "OK", 178));
    all.push(make_button(ID_CANCEL, "Cancel", 262));
    assert(control_views(all@) =~= lists.push(button(ID_OK as int, "OK"@, 178)).push(
        button(ID_CANCEL as int, "Cancel"@, 262),
    ));
    assert(control_views(all@) =~= layout());
    all
}

/// Each list is made right behind its label, which is what a screen reader takes
/// its name from.
pub proof fn label_precedes_combo(i: int)
    requires
        0 <= i < layout().len(),
        layout()[i].kind == ControlKind::Combo,
    ensures
        i > 0,
        layout()[i - 1].kind == ControlKind::Label,
{
}

/// The title of the dialog.
pub fn title(app_name: &str) -> (text: String)
    ensures
        text@ == "Audio devices for "@ + app_name@,
{
    let mut text = "Audio devices for ".to_string();
    text.append(app_name);
    text
}

/// The items of a list: the default, then the devices.
pub open spec fn items(devices: Seq<DeviceView>) -> Seq<Seq<char>> {
    Seq::new(
        devices.len() + 1,
        |i: int|
            if i == 0 {
                DEFAULT_ITEM_LABEL@
            } else {
                devices[i - 1].name
            },
    )
}

pub open spec fn texts(strings: Seq<String>) -> Seq<Seq<char>> {
    Seq::new(strings.len(), |i: int| strings[i]@)
}

/// The item that a list of so many devices is opened on.
pub open spec fn opened_on(preselect: int, devices: int) -> int {
    if preselect <= devices {
        preselect
    } else {
        0
    }
}

/// The items of a list and the one that is selected first: the wanted one, or
/// the default where there is no such item.
pub fn populate(devices: &[DeviceInfo], preselect: usize) -> (list: (Vec<String>, usize))
    ensures
        texts(list.0@) == items(device_views(devices@)),
        list.1 == if preselect <= devices@.len() {
            preselect
        } else {
            0
        },
        list.1 == opened_on(preselect as int, devices@.len() as int),
{
    let mut labels: Vec<String> = Vec::new();
    labels.push(DEFAULT_ITEM_LABEL.to_string());
    let ghost all = items(device_views(devices@));
    assert(texts(labels@) =~= all.take(1));
    for i in 0..devices.len()
        invariant
            all == items(device_views(devices@)),
            texts(labels@) == all.take(i + 1),
    {
        let ghost before = labels@;
        assert(device_views(devices@)[i as int] == devices@[i as int]@);
        labels.push(devices[i].name.clone());
        assert(texts(labels@) =~= texts(before).push(all[i + 1]));
        assert(texts(labels@) =~= all.take(i + 2));
    }
    assert(all.take(devices@.len() as int + 1) =~= all);
    let selected = if preselect <= devices.len() {
        preselect
    } else {
        0
    };
    (labels, selected)
}

/// The selected item from what a list reports; a negative number stands for
/// none.
pub fn selected_index(reported: isize) -> (index: Option<usize>)
    ensures
        index is Some <==> reported >= 0,
        index matches Some(i) ==> i == reported,
{
    if reported < 0 {
        None
    } else {
        Some(reported as usize)
    }
}

/// What the selected item of a list stands for: item N is device N - 1, and
/// anything else is the default.
pub open spec fn resolved(index: Option<int>, devices: Seq<DeviceView>) -> ChoiceView {
    match index {
        Some(i) => if 1 <= i <= devices.len() {
            ChoiceView::Device(devices[i - 1])
        } else {
            ChoiceView::Default
        },
        None => ChoiceView::Default,
    }
}

/// What a list reports as selected, as a number of an item.
pub open spec fn reported_index(reported: isize) -> Option<int> {
    if reported < 0 {
        None
    } else {
        Some(reported as int)
    }
}

/// Resolves what a list reports as selected.
pub fn resolve_selection(reported: isize, devices: &[DeviceInfo]) -> (choice: Choice)
    ensures
        choice@ == resolved(reported_index(reported), device_views(devices@)),
{
    match selected_index(reported) {
        Some(i) => if i >= 1 && i <= devices.len() {
            assert(device_views(devices@)[i - 1] == devices@[i - 1]@);
            let device = &devices[i - 1];
            let id = device.id.clone();
            assert(id@ =~= device.id@);
            Choice::Device { id, name: device.name.clone() }
        } else {
            Choice::Default
        },
        None => Choice::Default,
    }
}

/// Whether the dialog is over and how.
#[derive(Clone, Copy, Debug, PartialEq, Eq, Structural)]
pub struct DialogState {
    pub accepted: bool,
    pub done: bool,
}

impl DialogState {
    /// The dialog after a key went down, and whether the key was taken.
    pub open spec fn after_key(self, key: u16, dropped: bool, on_cancel: bool) -> (
        DialogState,
        bool,
    ) {
        if dropped || (key != VK_RETURN && key != VK_ESCAPE) {
            (self, false)
        } else {
            (DialogState { accepted: key == VK_RETURN && !on_cancel, done: true }, true)
        }
    }

    /// The dialog after a message to its window, and whether the message was taken.
    pub open spec fn after_message(self, message: u32, wparam: usize) -> (DialogState, bool) {
        if message == WM_CLOSE {
            (DialogState { accepted: false, done: true }, true)
        } else if message == WM_COMMAND && (wparam % 0x10000 == ID_OK || wparam % 0x10000
            == ID_CANCEL) {
            (DialogState { accepted: wparam % 0x10000 == ID_OK, done: true }, true)
        } else {
            (self, false)
        }
    }

    /// A dialog that was just opened.
    pub fn new() -> (state: DialogState)
        ensures
            !state.accepted,
            !state.done,
    {
        DialogState { accepted: false, done: false }
    }

    /// Ends the dialog.
    pub fn finish(&mut self, accepted: bool)
        ensures
            *final(self) == (DialogState { accepted, done: true }),
    {
        self.accepted = accepted;
        self.done = true;
    }

    /// A key went down. Enter accepts, unless Cancel has the focus, and Escape
    /// cancels; but while a list is dropped down both are the list's own. Says
    /// whether the key was taken.
    pub fn key_down(&mut self, key: u16, dropped: bool, on_cancel: bool) -> (taken: bool)
        ensures
            taken == (!dropped && (key == VK_RETURN || key == VK_ESCAPE)),
            taken ==> *final(self) == (DialogState {
                accepted: key == VK_RETURN && !on_cancel,
                done: true,
            }),
            !taken ==> *final(self) == *old(self),
            (*final(self), taken) == old(self).after_key(key, dropped, on_cancel),
    {
        if !dropped && key == VK_RETURN {
            self.finish(!on_cancel);
            return true;
        }
        if !dropped && key == VK_ESCAPE {
            self.finish(false);
            return true;
        }
        false
    }

    /// The window got a message. A command of OK or Cancel, which stands in the
    /// low word, and the closing of the window end the dialog. Says whether the
    /// message was taken.
    pub fn window_message(&mut self, message: u32, wparam: usize) -> (taken: bool)
        ensures
            taken == (message == WM_CLOSE || (message == WM_COMMAND && (wparam % 0x10000 == ID_OK
                || wparam % 0x10000 == ID_CANCEL))),
            taken ==> *final(self) == (DialogState {
                accepted: message == WM_COMMAND && wparam % 0x10000 == ID_OK,
                done: true,
            }),
            !taken ==> *final(self) == *old(self),
            (*final(self), taken) == old(self).after_message(message, wparam),
    {
        assert(wparam & 0xFFFF == wparam % 0x10000) by (bit_vector);
        if message == WM_COMMAND {
            let id: i32 = (wparam & 0xFFFF) as i32;
            if id == ID_OK || id == ID_CANCEL {
                self.finish(id == ID_OK);
                return true;
            }
        } else if message == WM_CLOSE {
            self.finish(false);
            return true;
        }
        false
    }

    /// The outcome: the two choices where the dialog was accepted, from what its
    /// lists report as selected.
    pub fn outcome(
        &self,
        input_item: isize,
        inputs: &[DeviceInfo],
        output_item: isize,
        outputs: &[DeviceInfo],
    ) -> (selection: Option<DeviceSelection>)
        ensures
            selection is Some <==> self.accepted,
            selection matches Some(selection) ==> selection.input@ == resolved(
                reported_index(input_item),
                device_views(inputs@),
            ) && selection.output@ == resolved(
                reported_index(output_item),
                device_views(outputs@),
            ),
    {
        if self.accepted {
            Some(
                DeviceSelection {
                    input: resolve_selection(input_item, inputs),
                    output: resolve_selection(output_item, outputs),
                },
            )
        } else {
            None
        }
    }
}

/// Selecting an item chooses what the item says: the device whose name it
/// carries, or the default.
pub proof fn item_is_its_choice(devices: Seq<DeviceView>, i: int)
    requires
        0 <= i < items(devices).len(),
    ensures
        match resolved(Some(i), devices) {
            ChoiceView::Default => i == 0 && items(devices)[i] == DEFAULT_ITEM_LABEL@,
            ChoiceView::Device(device) => i > 0 && device == devices[i - 1] && items(devices)[i]
                == device.name,
        },
{
}

/// The items of a list are the word "Default" and then the names of the devices,
/// in their order.
pub proof fn items_are_the_devices(devices: Seq<DeviceView>, i: int)
    requires
        0 <= i < devices.len(),
    ensures
        items(devices).len() == devices.len() + 1,
        items(devices)[0] == "Default"@,
        items(devices)[i + 1] == devices[i].name,
{
}

/// Every device can be chosen, by the item one behind its place, and is then
/// chosen as it is; no selected item, the first one and one beyond the list all
/// stand for the default.
pub proof fn every_device_can_be_chosen(devices: Seq<DeviceView>, reported: isize)
    ensures
        reported < 1 || reported > devices.len() ==> resolved(
            reported_index(reported),
            devices,
        ) is Default,
        1 <= reported <= devices.len() ==> resolved(reported_index(reported), devices)
            == ChoiceView::Device(devices[reported - 1]),
{
}

/// The dialog has a list for the input above one for the output, each under its
/// label, and the buttons below them in one row, OK left of Cancel; no two
/// controls but labels share an id.
pub proof fn controls_are_laid_out(i: int, j: int)
    requires
        0 <= i < j < layout().len(),
    ensures
        layout().len() == 6,
        layout()[0].text == "Input device:"@ && layout()[0].kind == ControlKind::Label,
        layout()[1].id == 1001 && layout()[1].kind == ControlKind::Combo,
        layout()[2].text == "Output device:"@ && layout()[2].kind == ControlKind::Label,
        layout()[3].id == 1002 && layout()[3].kind == ControlKind::Combo,
        layout()[4].id == 1 && layout()[4].text == "OK"@ && layout()[4].kind
            == ControlKind::Button,
        layout()[5].id == 2 && layout()[5].text == "Cancel"@ && layout()[5].kind
            == ControlKind::Button,
        layout()[i].kind != ControlKind::Label && layout()[j].kind != ControlKind::Label
            ==> layout()[i].id != layout()[j].id,
        layout()[i].y <= layout()[j].y,
        layout()[i].y == layout()[j].y ==> layout()[i].x + layout()[i].width <= layout()[j].x,
        0 <= layout()[i].x && layout()[i].x + layout()[i].width <= 360,
{
}

/// The models of choices, controls and items have what those hold.
pub proof fn dialog_is_modelled_in_full(
    id: Vec<u16>,
    name: String,
    controls: Seq<Control>,
    strings: Seq<String>,
    i: int,
)
    ensures
        Choice::Default@ is Default,
        (Choice::Device { id, name })@ == ChoiceView::Device(DeviceView { id: id@, name: name@ }),
        control_views(controls).len() == controls.len(),
        0 <= i < controls.len() ==> {
            let (model, control) = (control_views(controls)[i], controls[i]);
            &&& model.kind == control.kind
            &&& model.id == control.id
            &&& model.text == control.text@
            &&& model.x == control.x && model.y == control.y
            &&& model.width == control.width && model.height == control.height
        },
        texts(strings).len() == strings.len(),
        0 <= i < strings.len() ==> texts(strings)[i] == strings[i]@,
{
}

/// The dialog ends by a key exactly where no list is dropped down and the key is
/// Enter (0x0D) or Escape (0x1B). It is accepted by Enter alone, and not on
/// Cancel; any other key leaves it as it is.
pub proof fn keys_end_the_dialog(state: DialogState, key: u16, dropped: bool, on_cancel: bool)
    ensures
        ({
            let (after, taken) = state.after_key(key, dropped, on_cancel);
            &&& taken <==> !dropped && (key == 0x0D || key == 0x1B)
            &&& !taken ==> after == state
            &&& taken ==> after.done
            &&& taken && key == 0x0D ==> after.accepted != on_cancel
            &&& taken && key == 0x1B ==> !after.accepted
        }),
{
}

/// The dialog ends by a message exactly where that closes the window (0x10) or is
/// a command (0x111) of OK or Cancel, whatever the rest of the command says. It is
/// accepted by OK alone; any other message leaves it as it is.
pub proof fn messages_end_the_dialog(state: DialogState, message: u32, id: usize, rest: usize)
    requires
        id < 0x10000,
        rest * 0x10000 + id <= usize::MAX,
    ensures
        ({
            let (after, taken) = state.after_message(message, (rest * 0x10000 + id) as usize);
            &&& taken <==> message == 0x10 || (message == 0x111 && (id == 1 || id == 2))
            &&& !taken ==> after == state
            &&& taken ==> after.done
            &&& taken ==> (after.accepted <==> message == 0x111 && id == 1)
        }),
{
    let wparam = (rest * 0x10000 + id) as usize;
    assert(wparam % 0x10000 == id);
}

} // verus!
