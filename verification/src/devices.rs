//! Audio endpoints: what an enumeration lists, the ids of endpoints and the
//! switch of the default device.

use vstd::prelude::*;
use vstd::string::*;

use crate::utf16::{decode_utf16_lossy, encode_utf16};

verus! {

/// The bit that marks an active endpoint in its device state.
pub const DEVICE_STATE_ACTIVE: u32 = 0x1;

/// The bit that marks a disabled endpoint in its device state.
pub const DEVICE_STATE_DISABLED: u32 = 0x2;

/// One enumerated audio endpoint.
#[derive(Debug, PartialEq, Eq)]
pub struct DeviceInfo {
    /// Null-terminated wide endpoint id.
    pub id: Vec<u16>,
    /// Friendly display name, e.g. "Speakers (Realtek Audio)".
    pub name: String,
}

/// What a [`DeviceInfo`] holds.
#[verifier::ext_equal]
pub struct DeviceView {
    pub id: Seq<u16>,
    pub name: Seq<char>,
}

impl View for DeviceInfo {
    type V = DeviceView;

    open spec fn view(&self) -> DeviceView {
        DeviceView { id: self.id@, name: self.name@ }
    }
}

/// One endpoint as seen by device-mode navigation.
#[derive(Debug, PartialEq, Eq)]
pub struct Endpoint {
    /// Null-terminated wide endpoint id.
    pub id: Vec<u16>,
    /// Friendly display name.
    pub name: String,
    /// Capture (true) or render (false).
    pub is_input: bool,
    /// False when the endpoint is disabled.
    pub enabled: bool,
}

/// What an [`Endpoint`] holds.
#[verifier::ext_equal]
pub struct EndpointView {
    pub id: Seq<u16>,
    pub name: Seq<char>,
    pub is_input: bool,
    pub enabled: bool,
}

impl View for Endpoint {
    type V = EndpointView;

    open spec fn view(&self) -> EndpointView {
        EndpointView {
            id: self.id@,
            name: self.name@,
            is_input: self.is_input,
            enabled: self.enabled,
        }
    }
}

/// What the system reported of one endpoint.
pub struct RawEndpoint {
    /// The units of its id up to where they end, or nothing for a null pointer.
    pub id: Option<Vec<u16>>,
    /// Its friendly name, where it could be read.
    pub name: Option<String>,
    /// Its device state, where it could be read.
    pub state: Option<u32>,
}

/// The units in front of the first null unit.
pub open spec fn before_null(units: Seq<u16>) -> Seq<u16>
    decreases units.len(),
{
    if units.len() == 0 || units[0] == 0 {
        Seq::empty()
    } else {
        seq![units[0]] + before_null(units.skip(1))
    }
}

/// An owned id: the units in front of the first null unit, and one null unit.
pub open spec fn terminated(units: Option<Seq<u16>>) -> Seq<u16> {
    match units {
        Some(units) => before_null(units).push(0),
        None => seq![0u16],
    }
}

/// The null unit stands at the end and nowhere else.
pub open spec fn null_terminated(id: Seq<u16>) -> bool {
    &&& id.len() > 0
    &&& id.last() == 0
    &&& forall|i: int| 0 <= i < id.len() - 1 ==> id[i] != 0
}

proof fn before_null_has_none(units: Seq<u16>)
    ensures
        forall|i: int| 0 <= i < before_null(units).len() ==> before_null(units)[i] != 0,
    decreases units.len(),
{
    if units.len() > 0 && units[0] != 0 {
        before_null_has_none(units.skip(1));
        let rest = before_null(units.skip(1));
        assert forall|i: int| 0 <= i < before_null(units).len() implies before_null(units)[i]
            != 0 by {
            if i > 0 {
                assert(before_null(units)[i] == rest[i - 1]);
            }
        }
    }
}

/// Every owned id is null-terminated, whatever was reported.
pub proof fn terminated_is_null_terminated(units: Option<Seq<u16>>)
    ensures
        null_terminated(terminated(units)),
{
    match units {
        Some(units) => {
            before_null_has_none(units);
        },
        None => {},
    }
}

/// Copies a wide string into an owned, null-terminated buffer.
pub fn pwstr_to_vec(p: Option<&[u16]>) -> (id: Vec<u16>)
    ensures
        id@ == terminated(
            match p {
                Some(units) => Some(units@),
                None => None,
            },
        ),
{
    let mut id: Vec<u16> = Vec::new();
    if let Some(units) = p {
        let mut i: usize = 0;
        assert(units@.skip(0) == units@);
        while i < units.len() && units[i] != 0
            invariant
                i <= units@.len(),
                id@ + before_null(units@.skip(i as int)) == before_null(units@),
            decreases units@.len() - i,
        {
            let ghost before = id@;
            let ghost rest = units@.skip(i as int);
            id.push(units[i]);
            proof {
                assert(rest.skip(1) == units@.skip(i + 1));
                assert(id@ + before_null(rest.skip(1)) == before + before_null(rest));
            }
            i = i + 1;
        }
        assert(id@ == before_null(units@));
    }
    id.push(0);
    id
}

impl RawEndpoint {
    pub open spec fn id_units(&self) -> Option<Seq<u16>> {
        match self.id {
            Some(id) => Some(id@),
            None => None,
        }
    }

    /// The display name, "Unknown device" where none could be read.
    pub open spec fn display_name(&self) -> Seq<char> {
        match self.name {
            Some(name) => name@,
            None => "Unknown device"@,
        }
    }

    pub open spec fn device(&self) -> DeviceView {
        DeviceView { id: terminated(self.id_units()), name: self.display_name() }
    }

    /// An endpoint whose state cannot be read counts as disabled.
    pub open spec fn endpoint(&self, is_input: bool) -> EndpointView {
        EndpointView {
            id: terminated(self.id_units()),
            name: self.display_name(),
            is_input,
            enabled: match self.state {
                Some(state) => state & DEVICE_STATE_ACTIVE != 0,
                None => false,
            },
        }
    }

    fn owned_id(&self) -> (id: Vec<u16>)
        ensures
            id@ == terminated(self.id_units()),
    {
        match &self.id {
            Some(id) => pwstr_to_vec(Some(id.as_slice())),
            None => pwstr_to_vec(None),
        }
    }

    fn owned_name(&self) -> (name: String)
        ensures
            name@ == self.display_name(),
    {
        match &self.name {
            Some(name) => name.clone(),
            None => "Unknown device".to_string(),
        }
    }
}

/// The devices that an enumeration lists, in its order. An endpoint that the
/// system would not hand out is skipped.
pub open spec fn listed(rows: Seq<Option<RawEndpoint>>) -> Seq<DeviceView>
    decreases rows.len(),
{
    if rows.len() == 0 {
        Seq::empty()
    } else {
        match rows.last() {
            Some(row) => listed(rows.drop_last()).push(row.device()),
            None => listed(rows.drop_last()),
        }
    }
}

/// The same as [`listed`], as endpoints of one direction.
pub open spec fn listed_endpoints(rows: Seq<Option<RawEndpoint>>, is_input: bool) -> Seq<
    EndpointView,
>
    decreases rows.len(),
{
    if rows.len() == 0 {
        Seq::empty()
    } else {
        match rows.last() {
            Some(row) => listed_endpoints(rows.drop_last(), is_input).push(row.endpoint(is_input)),
            None => listed_endpoints(rows.drop_last(), is_input),
        }
    }
}

pub open spec fn device_views(devices: Seq<DeviceInfo>) -> Seq<DeviceView> {
    Seq::new(devices.len(), |i: int| devices[i]@)
}

pub open spec fn endpoint_views(endpoints: Seq<Endpoint>) -> Seq<EndpointView> {
    Seq::new(endpoints.len(), |i: int| endpoints[i]@)
}

/// The devices of one direction, from what the system reported of each.
pub fn enumerate(rows: &[Option<RawEndpoint>]) -> (devices: Vec<DeviceInfo>)
    ensures
        device_views(devices@) == listed(rows@),
{
    let mut devices: Vec<DeviceInfo> = Vec::new();
    assert(device_views(devices@) == listed(rows@.take(0)));
    for i in 0..rows.len()
        invariant
            device_views(devices@) == listed(rows@.take(i as int)),
    {
        assert(rows@.take(i + 1).drop_last() == rows@.take(i as int));
        let ghost before = devices@;
        if let Some(row) = &rows[i] {
            devices.push(DeviceInfo { id: row.owned_id(), name: row.owned_name() });
            assert(device_views(devices@) == device_views(before).push(row.device()));
        }
    }
    assert(rows@.take(rows@.len() as int) == rows@);
    devices
}

fn collect_endpoints(rows: &[Option<RawEndpoint>], is_input: bool, out: &mut Vec<Endpoint>)
    ensures
        endpoint_views(final(out)@) == endpoint_views(old(out)@) + listed_endpoints(rows@, is_input),
{
    let ghost start = endpoint_views(out@);
    assert(start + listed_endpoints(rows@.take(0), is_input) == start);
    for i in 0..rows.len()
        invariant
            endpoint_views(out@) == start + listed_endpoints(rows@.take(i as int), is_input),
    {
        assert(rows@.take(i + 1).drop_last() == rows@.take(i as int));
        let ghost before = out@;
        if let Some(row) = &rows[i] {
            let enabled = match row.state {
                Some(state) => state & DEVICE_STATE_ACTIVE != 0,
                None => false,
            };
            out.push(Endpoint { id: row.owned_id(), name: row.owned_name(), is_input, enabled });
            assert(endpoint_views(out@) == endpoint_views(before).push(row.endpoint(is_input)));
        }
    }
    assert(rows@.take(rows@.len() as int) == rows@);
}

/// The endpoints of device mode, from what the system reported of the outputs
/// and of the inputs: outputs first, then inputs.
pub fn all_endpoints(
    outputs: &[Option<RawEndpoint>],
    inputs: &[Option<RawEndpoint>],
) -> (endpoints: Vec<Endpoint>)
    ensures
        endpoint_views(endpoints@) == listed_endpoints(outputs@, false) + listed_endpoints(
            inputs@,
            true,
        ),
{
    let mut endpoints: Vec<Endpoint> = Vec::new();
    collect_endpoints(outputs, false, &mut endpoints);
    collect_endpoints(inputs, true, &mut endpoints);
    endpoints
}

proof fn listed_endpoints_have_direction(rows: Seq<Option<RawEndpoint>>, is_input: bool)
    ensures
        forall|i: int|
            0 <= i < listed_endpoints(rows, is_input).len() ==> {
                let endpoint = #[trigger] listed_endpoints(rows, is_input)[i];
                endpoint.is_input == is_input && null_terminated(endpoint.id)
            },
    decreases rows.len(),
{
    if rows.len() > 0 {
        let front = listed_endpoints(rows.drop_last(), is_input);
        let all = listed_endpoints(rows, is_input);
        listed_endpoints_have_direction(rows.drop_last(), is_input);
        if let Some(row) = rows.last() {
            terminated_is_null_terminated(row.id_units());
        }
        assert forall|i: int| 0 <= i < all.len() implies {
            let endpoint = #[trigger] all[i];
            endpoint.is_input == is_input && null_terminated(endpoint.id)
        } by {
            if i < front.len() {
                assert(all[i] == front[i]);
            }
        }
    }
}

/// No output follows an input in the list of all endpoints, and every id in it
/// is null-terminated.
pub proof fn outputs_come_first(
    outputs: Seq<Option<RawEndpoint>>,
    inputs: Seq<Option<RawEndpoint>>,
)
    ensures
        ({
            let all = listed_endpoints(outputs, false) + listed_endpoints(inputs, true);
            &&& forall|i: int, j: int|
                0 <= i <= j < all.len() && (#[trigger] all[i]).is_input ==> (
                #[trigger] all[j]).is_input
            &&& forall|i: int| 0 <= i < all.len() ==> null_terminated((#[trigger] all[i]).id)
        }),
{
    listed_endpoints_have_direction(outputs, false);
    listed_endpoints_have_direction(inputs, true);
}

/// A null-terminated UTF-16 buffer of a text.
pub fn wide(s: &str) -> (units: Vec<u16>)
    ensures
        units@ == crate::utf16::encoded(s@).push(0),
{
    let mut units = encode_utf16(s);
    units.push(0);
    units
}

/// An id without its terminating null unit, where it has one.
pub open spec fn trimmed(id: Seq<u16>) -> Seq<u16> {
    if id.len() > 0 && id.last() == 0 {
        id.drop_last()
    } else {
        id
    }
}

/// An id without its terminator, as text.
pub fn id_string(id: &[u16]) -> (text: String)
    ensures
        text@ == crate::utf16::decoded(trimmed(id@)),
{
    let len = id.len();
    if len > 0 && id[len - 1] == 0 {
        let mut units: Vec<u16> = Vec::new();
        for i in 0..len - 1
            invariant
                0 < len == id@.len(),
                units@ == id@.take(i as int),
        {
            units.push(id[i]);
        }
        assert(units@ == trimmed(id@));
        decode_utf16_lossy(units.as_slice())
    } else {
        decode_utf16_lossy(id)
    }
}

/// The id of a wide text is that text.
pub proof fn wide_then_id_string(text: Seq<char>)
    ensures
        crate::utf16::decoded(trimmed(crate::utf16::encoded(text).push(0))) == text,
{
    assert(crate::utf16::encoded(text).push(0).drop_last() == crate::utf16::encoded(text));
    crate::utf16::encoded_then_decoded(text);
}

/// What an endpoint can be the default for.
#[derive(Clone, Copy, Debug, PartialEq, Eq, Structural)]
pub enum Role {
    Console,
    Multimedia,
    Communications,
}

/// What to do next when a device is set role by role.
#[derive(Debug, PartialEq, Eq)]
pub enum RoleStep {
    /// Acquire the policy object and report whether that worked.
    Acquire,
    /// Make the device with this id the default for this role and report whether
    /// that worked.
    Assign { id: Vec<u16>, role: Role },
    /// All is done; true where it worked.
    Done(bool),
}

/// What a [`RoleStep`] holds.
#[verifier::ext_equal]
pub enum RoleStepView {
    Acquire,
    Assign { id: Seq<u16>, role: Role },
    Done(bool),
}

impl View for RoleStep {
    type V = RoleStepView;

    open spec fn view(&self) -> RoleStepView {
        match self {
            RoleStep::Acquire => RoleStepView::Acquire,
            RoleStep::Assign { id, role } => RoleStepView::Assign { id: id@, role: *role },
            RoleStep::Done(worked) => RoleStepView::Done(*worked),
        }
    }
}

/// The roles that make a device the default, in order.
pub open spec fn default_roles() -> Seq<Role> {
    seq![Role::Console, Role::Multimedia, Role::Communications]
}

/// The next step of making a device the default, after the given outcomes of the
/// earlier ones. Without the policy object there is nothing to be done. With it,
/// every role is tried, whatever came of those before it, and the whole worked
/// when each of them did.
pub open spec fn default_step(id: Seq<u16>, outcomes: Seq<bool>) -> RoleStepView {
    if outcomes.len() == 0 {
        RoleStepView::Acquire
    } else if !outcomes[0] {
        RoleStepView::Done(false)
    } else if outcomes.len() <= default_roles().len() {
        RoleStepView::Assign { id, role: default_roles()[outcomes.len() - 1] }
    } else {
        RoleStepView::Done(
            forall|i: int| 1 <= i <= default_roles().len() ==> #[trigger] outcomes[i],
        )
    }
}

pub open spec fn units_of(units: Option<Vec<u16>>) -> Option<Seq<u16>> {
    match units {
        Some(units) => Some(units@),
        None => None,
    }
}

/// A copy of an id.
pub fn copy_units(units: &[u16]) -> (copy: Vec<u16>)
    ensures
        copy@ == units@,
{
    let mut copy: Vec<u16> = Vec::new();
    for i in 0..units.len()
        invariant
            copy@ == units@.take(i as int),
    {
        copy.push(units[i]);
        assert(copy@ == units@.take(i + 1));
    }
    assert(units@.take(units@.len() as int) == units@);
    copy
}

/// Makes a device the default endpoint for every role, step by step.
pub fn set_default(device_id: &[u16], outcomes: &[bool]) -> (step: RoleStep)
    ensures
        step@ == default_step(device_id@, outcomes@),
{
    let n = outcomes.len();
    if n == 0 {
        return RoleStep::Acquire;
    }
    if !outcomes[0] {
        return RoleStep::Done(false);
    }
    match n {
        1 => RoleStep::Assign { id: copy_units(device_id), role: Role::Console },
        2 => RoleStep::Assign { id: copy_units(device_id), role: Role::Multimedia },
        3 => RoleStep::Assign { id: copy_units(device_id), role: Role::Communications },
        _ => {
            let ok = outcomes[1] && outcomes[2] && outcomes[3];
            assert(ok == (forall|i: int|
                1 <= i <= default_roles().len() ==> #[trigger] outcomes@[i])) by {
                if ok {
                    assert forall|i: int| 1 <= i <= default_roles().len() implies #[trigger]
                        outcomes@[i] by {
                        assert(i == 1 || i == 2 || i == 3);
                    }
                }
            }
            RoleStep::Done(ok)
        },
    }
}

/// A device became the default when the policy object was there and took it for
/// each of the three roles, and it is the given device that each was asked for.
pub proof fn default_means_every_role(id: Seq<u16>, outcomes: Seq<bool>)
    ensures
        default_step(id, outcomes) == RoleStepView::Done(true) <==> outcomes.len() >= 4
            && outcomes[0] && outcomes[1] && outcomes[2] && outcomes[3],
        default_step(id, outcomes) is Assign ==> default_step(id, outcomes)->Assign_id == id
            && outcomes[0],
        forall|role: Role| #[trigger] default_roles().contains(role),
{
    assert(default_roles()[0] == Role::Console && default_roles()[1] == Role::Multimedia
        && default_roles()[2] == Role::Communications);
    if outcomes.len() >= 4 && outcomes[0] && outcomes[1] && outcomes[2] && outcomes[3] {
        assert forall|i: int| 1 <= i <= default_roles().len() implies #[trigger] outcomes[i] by {
            assert(i == 1 || i == 2 || i == 3);
        }
    }
    assert forall|role: Role| #[trigger] default_roles().contains(role) by {
        match role {
            Role::Console => assert(default_roles()[0] == role),
            Role::Multimedia => assert(default_roles()[1] == role),
            Role::Communications => assert(default_roles()[2] == role),
        }
    }
}

proof fn before_null_is_prefix(units: Seq<u16>)
    ensures
        before_null(units).len() <= units.len(),
        before_null(units) == units.take(before_null(units).len() as int),
        before_null(units).len() < units.len() ==> units[before_null(units).len() as int] == 0,
    decreases units.len(),
{
    if units.len() > 0 && units[0] != 0 {
        let rest = units.skip(1);
        before_null_is_prefix(rest);
        let len = before_null(rest).len() as int;
        assert(units.take(len + 1) =~= seq![units[0]] + rest.take(len));
        if len < rest.len() {
            assert(rest[len] == units[len + 1]);
        }
    } else {
        assert(units.take(0) =~= Seq::empty());
    }
}

/// An owned id keeps the reported id: in front of its terminator stand the units
/// up to the first null unit, which are all of them where there is none.
pub proof fn owned_id_keeps_the_reported_id(units: Seq<u16>)
    ensures
        ({
            let id = terminated(Some(units));
            let n = id.len() - 1;
            &&& 0 <= n <= units.len()
            &&& id == units.take(n).push(0)
            &&& forall|i: int| 0 <= i < n ==> units[i] != 0
            &&& n < units.len() ==> units[n] == 0
        }),
        !units.contains(0) ==> terminated(Some(units)) == units.push(0),
        terminated(None) == seq![0u16],
{
    before_null_is_prefix(units);
    before_null_has_none(units);
    let n = before_null(units).len() as int;
    assert forall|i: int| 0 <= i < n implies units[i] != 0 by {
        assert(before_null(units)[i] == units[i]);
    }
    if !units.contains(0) && n < units.len() {
        assert(units.contains(units[n]));
    }
    assert(units.take(units.len() as int) =~= units);
}

/// Different ids stay different: two reported ids without a null unit are owned
/// as the same id only where they are the same.
pub proof fn owned_ids_tell_endpoints_apart(a: Seq<u16>, b: Seq<u16>)
    requires
        !a.contains(0),
        !b.contains(0),
    ensures
        terminated(Some(a)) == terminated(Some(b)) <==> a == b,
{
    owned_id_keeps_the_reported_id(a);
    owned_id_keeps_the_reported_id(b);
    if terminated(Some(a)) == terminated(Some(b)) {
        assert(a =~= a.push(0).drop_last());
        assert(b =~= b.push(0).drop_last());
    }
}

/// An enumeration lists row by row: one that was not handed out adds nothing, and
/// any other adds one device behind the others, with its own id and with its own
/// name or, where that could not be read, as an unknown device.
pub proof fn devices_are_listed_row_by_row(
    rows: Seq<Option<RawEndpoint>>,
    row: RawEndpoint,
)
    ensures
        listed(Seq::empty()) == Seq::<DeviceView>::empty(),
        listed(rows.push(None)) == listed(rows),
        ({
            let all = listed(rows.push(Some(row)));
            &&& all.len() == listed(rows).len() + 1
            &&& all.drop_last() == listed(rows)
            &&& row.id is Some && !row.id->0@.contains(0) ==> all.last().id == row.id->0@.push(0)
            &&& row.id is None ==> all.last().id == seq![0u16]
            &&& row.name matches Some(name) ==> all.last().name == name@
            &&& row.name is None ==> all.last().name == "Unknown device"@
        }),
{
    assert(rows.push(None).drop_last() =~= rows);
    assert(rows.push(Some(row)).drop_last() =~= rows);
    assert(listed(rows.push(Some(row))).drop_last() =~= listed(rows));
    if let Some(id) = row.id {
        owned_id_keeps_the_reported_id(id@);
    }
}

/// Device mode lists row by row as well, each endpoint with its direction and as
/// enabled exactly where its state could be read and is active, which is its
/// lowest bit.
pub proof fn endpoints_are_listed_row_by_row(
    rows: Seq<Option<RawEndpoint>>,
    row: RawEndpoint,
    is_input: bool,
)
    ensures
        listed_endpoints(Seq::empty(), is_input) == Seq::<EndpointView>::empty(),
        listed_endpoints(rows.push(None), is_input) == listed_endpoints(rows, is_input),
        ({
            let all = listed_endpoints(rows.push(Some(row)), is_input);
            &&& all.len() == listed_endpoints(rows, is_input).len() + 1
            &&& all.drop_last() == listed_endpoints(rows, is_input)
            &&& row.id is Some && !row.id->0@.contains(0) ==> all.last().id == row.id->0@.push(0)
            &&& row.id is None ==> all.last().id == seq![0u16]
            &&& row.name matches Some(name) ==> all.last().name == name@
            &&& row.name is None ==> all.last().name == "Unknown device"@
            &&& all.last().is_input == is_input
            &&& all.last().enabled <==> row.state is Some && row.state->0 % 2 == 1
        }),
{
    assert(rows.push(None).drop_last() =~= rows);
    assert(rows.push(Some(row)).drop_last() =~= rows);
    assert(listed_endpoints(rows.push(Some(row)), is_input).drop_last() =~= listed_endpoints(
        rows,
        is_input,
    ));
    if let Some(id) = row.id {
        owned_id_keeps_the_reported_id(id@);
    }
    if let Some(state) = row.state {
        assert((state & 1u32 != 0) == (state % 2 == 1)) by (bit_vector);
    }
}

/// An id loses one terminator and nothing else.
pub proof fn trimming_takes_one_terminator(id: Seq<u16>)
    ensures
        trimmed(id.push(0)) == id,
        id.len() == 0 || id.last() != 0 ==> trimmed(id) == id,
{
    assert(id.push(0).drop_last() =~= id);
}

/// Making a device the default goes on to the end: the policy object comes
/// first, and once it is there each of the three roles is asked for in turn,
/// whatever came of the roles before it.
pub proof fn every_role_is_asked_for(id: Seq<u16>, outcomes: Seq<bool>)
    ensures
        ({
            let step = default_step(id, outcomes);
            let n = outcomes.len();
            &&& n == 0 ==> step is Acquire
            &&& n > 0 && !outcomes[0] ==> step == RoleStepView::Done(false)
            &&& n == 1 && outcomes[0] ==> step == (RoleStepView::Assign { id, role: Role::Console })
            &&& n == 2 && outcomes[0] ==> step == (RoleStepView::Assign {
                id,
                role: Role::Multimedia,
            })
            &&& n == 3 && outcomes[0] ==> step == (RoleStepView::Assign {
                id,
                role: Role::Communications,
            })
            &&& n >= 4 && outcomes[0] ==> step == RoleStepView::Done(
                outcomes[1] && outcomes[2] && outcomes[3],
            )
        }),
{
    default_means_every_role(id, outcomes);
}

/// The models of devices and endpoints have an entry for each, in order, with
/// everything that it holds.
pub proof fn devices_are_modelled_in_full(
    devices: Seq<DeviceInfo>,
    endpoints: Seq<Endpoint>,
    i: int,
    units: Vec<u16>,
)
    ensures
        device_views(devices).len() == devices.len(),
        0 <= i < devices.len() ==> device_views(devices)[i].id == devices[i].id@ && device_views(
            devices,
        )[i].name == devices[i].name@,
        endpoint_views(endpoints).len() == endpoints.len(),
        0 <= i < endpoints.len() ==> {
            let (model, endpoint) = (endpoint_views(endpoints)[i], endpoints[i]);
            &&& model.id == endpoint.id@
            &&& model.name == endpoint.name@
            &&& model.is_input == endpoint.is_input
            &&& model.enabled == endpoint.enabled
        },
        units_of(None) is None,
        units_of(Some(units)) == Some(units@),
{
}

/// The model of a step has what the step holds.
pub proof fn role_steps_are_modelled_in_full(id: Vec<u16>, role: Role, worked: bool)
    ensures
        RoleStep::Acquire@ is Acquire,
        (RoleStep::Assign { id, role })@ == (RoleStepView::Assign { id: id@, role }),
        RoleStep::Done(worked)@ == RoleStepView::Done(worked),
{
}

} // verus!
