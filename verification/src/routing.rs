//! Per-application audio routing: the device path that stands for an endpoint
//! and the requests that assign it to an application.
//!
//! An assignment is kept for the application that owns a process, for playback
//! and capture apart. An endpoint is not named by its bare id but by
//! `\\?\SWD#MMDEVAPI#<id>#{<interface class>}`.

use vstd::prelude::*;
use vstd::string::*;

use crate::devices::{id_string, trimmed, Role};
use crate::lists::{last_index, last_index_found, rfind};
use crate::text::{chars_of, string_of, text_of};
use crate::utf16::decoded;

verus! {

/// What every device path starts with.
pub const MMDEVAPI_PREFIX: &'static str = "\\\\?\\SWD#MMDEVAPI#";

/// How the device path of an output ends.
pub const RENDER_SUFFIX: &'static str = "#{e6327cad-dcec-4949-ae8a-991e976a79d2}";

/// How the device path of an input ends.
pub const CAPTURE_SUFFIX: &'static str = "#{2eef81be-33fa-4800-9670-1cd474972c3f}";

/// The direction of a stream.
#[derive(Clone, Copy, Debug, PartialEq, Eq, Structural)]
pub enum Flow {
    Render,
    Capture,
}

/// Inputs are captured and outputs rendered.
pub open spec fn direction(input: bool) -> Flow {
    if input {
        Flow::Capture
    } else {
        Flow::Render
    }
}

/// The direction of inputs or outputs.
pub fn flow_for(input: bool) -> (flow: Flow)
    ensures
        flow == direction(input),
{
    if input {
        Flow::Capture
    } else {
        Flow::Render
    }
}

pub open spec fn path_suffix(input: bool) -> Seq<char> {
    if input {
        CAPTURE_SUFFIX@
    } else {
        RENDER_SUFFIX@
    }
}

/// The device path of the endpoint with the given id, as text.
pub open spec fn device_path(id: Seq<char>, input: bool) -> Seq<char> {
    MMDEVAPI_PREFIX@ + id + path_suffix(input)
}

/// The device path of an endpoint.
pub fn endpoint_path(endpoint_id: &[u16], input: bool) -> (path: String)
    ensures
        path@ == device_path(decoded(trimmed(endpoint_id@)), input),
{
    let mut path = MMDEVAPI_PREFIX.to_string();
    path.append(id_string(endpoint_id).as_str());
    path.append(
        if input {
            CAPTURE_SUFFIX
        } else {
            RENDER_SUFFIX
        },
    );
    path
}

/// The device path that an application is assigned; none to clear what was
/// assigned before, so that it follows the system default again.
pub open spec fn assigned_path(endpoint_id: Option<Seq<u16>>, input: bool) -> Option<Seq<char>> {
    match endpoint_id {
        Some(id) => Some(device_path(decoded(trimmed(id)), input)),
        None => None,
    }
}

pub open spec fn units_view(units: Option<&[u16]>) -> Option<Seq<u16>> {
    match units {
        Some(units) => Some(units@),
        None => None,
    }
}

/// What the assignment of an endpoint, or of none, to an application's inputs or
/// outputs consists of: the direction and the device path.
pub fn assignment(endpoint_id: Option<&[u16]>, input: bool) -> (assigned: (Flow, Option<String>))
    ensures
        assigned.0 == direction(input),
        text_of(assigned.1) == assigned_path(units_view(endpoint_id), input),
{
    let path = match endpoint_id {
        Some(id) => Some(endpoint_path(id, input)),
        None => None,
    };
    (flow_for(input), path)
}

/// The id in a device path: what stands between the prefix and the last `#`.
/// Nothing where the path has another form or the id is empty.
pub open spec fn path_id(path: Seq<char>) -> Option<Seq<char>> {
    if MMDEVAPI_PREFIX@.is_prefix_of(path) {
        let rest = path.skip(MMDEVAPI_PREFIX@.len() as int);
        match last_index(rest, '#') {
            Some(i) => if i > 0 {
                Some(rest.take(i))
            } else {
                None
            },
            None => None,
        }
    } else {
        None
    }
}

/// Under which direction and role an application's device path is looked up.
pub open spec fn lookup_of(pid: u32, input: bool) -> Option<(Flow, Role)> {
    if pid != 0 {
        Some((direction(input), Role::Multimedia))
    } else {
        None
    }
}

/// Under which direction and role to look up the device path that is kept for
/// an application; nothing to look up for process 0, which owns none.
pub fn persisted_lookup(pid: u32, input: bool) -> (lookup: Option<(Flow, Role)>)
    ensures
        lookup == if pid == 0 {
            None
        } else {
            Some((direction(input), Role::Multimedia))
        },
        lookup == lookup_of(pid, input),
{
    if pid == 0 {
        None
    } else {
        Some((flow_for(input), Role::Multimedia))
    }
}

/// The endpoint id that an application is routed to, from the device path that
/// is kept for it. Process 0 owns no application and is never routed.
pub fn app_device_id(pid: u32, path: Option<&str>) -> (id: Option<String>)
    ensures
        pid == 0 || path is None ==> id is None,
        pid != 0 && path is Some ==> match id {
            Some(id) => path_id(path->0@) == Some(id@),
            None => path_id(path->0@) is None,
        },
{
    if pid == 0 {
        return None;
    }
    let text = match path {
        Some(text) => text,
        None => {
            return None;
        },
    };
    let chars = chars_of(text);
    let prefix = chars_of(MMDEVAPI_PREFIX);
    if chars.len() < prefix.len() {
        return None;
    }
    for i in 0..prefix.len()
        invariant
            pid != 0,
            path == Some(text),
            chars@ == text@,
            prefix@ == MMDEVAPI_PREFIX@,
            prefix@.len() <= chars@.len(),
            forall|j: int| 0 <= j < i ==> prefix@[j] == chars@[j],
    {
        if chars[i] != prefix[i] {
            assert(!MMDEVAPI_PREFIX@.is_prefix_of(text@)) by {
                assert(text@.subrange(0, prefix@.len() as int)[i as int] == chars@[i as int]);
            }
            return None;
        }
    }
    assert(MMDEVAPI_PREFIX@.is_prefix_of(text@)) by {
        assert(prefix@ == text@.subrange(0, prefix@.len() as int));
    }
    let mut rest: Vec<char> = Vec::new();
    for i in prefix.len()..chars.len()
        invariant
            prefix@.len() <= i,
            rest@ == chars@.subrange(prefix@.len() as int, i as int),
    {
        rest.push(chars[i]);
    }
    assert(rest@ == text@.skip(prefix@.len() as int));
    match rfind(rest.as_slice(), '#') {
        Some(i) => {
            proof {
                crate::lists::last_index_is_last(rest@, '#');
            }
            if i == 0 {
                return None;
            }
            rest.truncate(i);
            Some(string_of(rest.as_slice()))
        },
        None => None,
    }
}

/// What is read back of an assignment is what was assigned: the id in the device
/// path of an endpoint is that endpoint's id. An empty id reads back as nothing.
pub proof fn path_keeps_id(id: Seq<char>, input: bool)
    ensures
        id.len() > 0 ==> path_id(device_path(id, input)) == Some(id),
        id.len() == 0 ==> path_id(device_path(id, input)) is None,
{
    reveal_strlit("#{e6327cad-dcec-4949-ae8a-991e976a79d2}");
    reveal_strlit("#{2eef81be-33fa-4800-9670-1cd474972c3f}");
    let suffix = path_suffix(input);
    let path = device_path(id, input);
    let rest = id + suffix;
    assert(path.subrange(0, MMDEVAPI_PREFIX@.len() as int) == MMDEVAPI_PREFIX@);
    assert(path.skip(MMDEVAPI_PREFIX@.len() as int) == rest);
    assert(suffix[0] == '#');
    assert(forall|j: int| 0 < j < suffix.len() ==> #[trigger] suffix[j] != '#');
    assert forall|j: int| id.len() < j < rest.len() implies #[trigger] rest[j] != '#' by {
        assert(rest[j] == suffix[j - id.len()]);
    }
    last_index_found(rest, '#', id.len() as int);
    assert(rest.take(id.len() as int) == id);
}

/// The next request while an application is routed.
#[derive(Debug, PartialEq, Eq)]
pub enum RouteStep {
    /// Acquire the policy factory.
    Acquire,
    /// Assign the device path in this direction and for this role; no path clears
    /// the assignment.
    Assign { flow: Flow, role: Role, path: Option<String> },
    /// All is done; true where it worked.
    Done(bool),
}

/// What a [`RouteStep`] holds.
#[verifier::ext_equal]
pub enum RouteStepView {
    Acquire,
    Assign { flow: Flow, role: Role, path: Option<Seq<char>> },
    Done(bool),
}

impl View for RouteStep {
    type V = RouteStepView;

    open spec fn view(&self) -> RouteStepView {
        match self {
            RouteStep::Acquire => RouteStepView::Acquire,
            RouteStep::Assign { flow, role, path } => RouteStepView::Assign {
                flow: *flow,
                role: *role,
                path: text_of(*path),
            },
            RouteStep::Done(worked) => RouteStepView::Done(*worked),
        }
    }
}

/// The roles that an application's assignment is made for, in order.
pub open spec fn route_roles() -> Seq<Role> {
    seq![Role::Console, Role::Multimedia]
}

/// The next step of routing the inputs or outputs of the application that owns
/// `pid` to an endpoint, or back to the system default, after the given outcomes
/// of the earlier ones. The first failure ends it, and process 0, which owns no
/// application, is not routed at all.
pub open spec fn route_step(
    pid: u32,
    input: bool,
    endpoint_id: Option<Seq<u16>>,
    outcomes: Seq<bool>,
) -> RouteStepView {
    if pid == 0 || exists|i: int|
        0 <= i < outcomes.len() && i <= route_roles().len() && !#[trigger] outcomes[i] {
        RouteStepView::Done(false)
    } else if outcomes.len() == 0 {
        RouteStepView::Acquire
    } else if outcomes.len() <= route_roles().len() {
        RouteStepView::Assign {
            flow: direction(input),
            role: route_roles()[outcomes.len() - 1],
            path: assigned_path(endpoint_id, input),
        }
    } else {
        RouteStepView::Done(true)
    }
}

/// Routes an application's inputs or outputs to an endpoint, or back to the
/// system default, step by step.
pub fn set_app_device(
    pid: u32,
    input: bool,
    endpoint_id: Option<&[u16]>,
    outcomes: &[bool],
) -> (step: RouteStep)
    ensures
        step@ == route_step(pid, input, units_view(endpoint_id), outcomes@),
{
    if pid == 0 {
        return RouteStep::Done(false);
    }
    let n = outcomes.len();
    if (n > 0 && !outcomes[0]) || (n > 1 && !outcomes[1]) || (n > 2 && !outcomes[2]) {
        return RouteStep::Done(false);
    }
    assert forall|i: int| 0 <= i < outcomes@.len() && i <= route_roles().len() implies #[trigger]
        outcomes@[i] by {
        assert(i == 0 || i == 1 || i == 2);
    }
    if n == 0 {
        return RouteStep::Acquire;
    }
    let (flow, path) = assignment(endpoint_id, input);
    match n {
        1 => RouteStep::Assign { flow, role: Role::Console, path },
        2 => RouteStep::Assign { flow, role: Role::Multimedia, path },
        _ => RouteStep::Done(true),
    }
}

/// An application was routed when the factory was there and took the assignment
/// for the console and for the multimedia role. Every assignment goes in the
/// direction of the inputs or outputs, with the endpoint's device path or with
/// none where there is no endpoint, and the communications role is never set.
pub proof fn routed_means_both_roles(
    pid: u32,
    input: bool,
    endpoint_id: Option<Seq<u16>>,
    outcomes: Seq<bool>,
)
    ensures
        ({
            let step = route_step(pid, input, endpoint_id, outcomes);
            &&& step == RouteStepView::Done(true) <==> pid != 0 && outcomes.len() >= 3
                && outcomes[0] && outcomes[1] && outcomes[2]
            &&& step matches RouteStepView::Assign { flow, role, path } ==> {
                &&& pid != 0 && outcomes[0]
                &&& flow == if input {
                    Flow::Capture
                } else {
                    Flow::Render
                }
                &&& role == Role::Console || role == Role::Multimedia
                &&& path is None <==> endpoint_id is None
                &&& path matches Some(path) ==> path == device_path(
                    decoded(trimmed(endpoint_id->0)),
                    input,
                )
            }
        }),
{
    if outcomes.len() >= 3 && outcomes[0] && outcomes[1] && outcomes[2] {
        assert forall|i: int|
            0 <= i < outcomes.len() && i <= route_roles().len() implies #[trigger] outcomes[i] by {
            assert(i == 0 || i == 1 || i == 2);
        }
    }
}

/// What is looked up is what was assigned: once an application was routed, its
/// device path was assigned in the direction and for the role under which it is
/// looked up, and it holds the endpoint's id.
pub proof fn lookup_finds_assignment(
    pid: u32,
    input: bool,
    endpoint_id: Seq<u16>,
    outcomes: Seq<bool>,
)
    requires
        route_step(pid, input, Some(endpoint_id), outcomes) == RouteStepView::Done(true),
        decoded(trimmed(endpoint_id)).len() > 0,
    ensures
        ({
            let path = device_path(decoded(trimmed(endpoint_id)), input);
            &&& outcomes[2] && route_step(pid, input, Some(endpoint_id), outcomes.take(2))
                == (RouteStepView::Assign {
                flow: direction(input),
                role: Role::Multimedia,
                path: Some(path),
            })
            &&& path_id(path) == Some(decoded(trimmed(endpoint_id)))
        }),
{
    routed_means_both_roles(pid, input, Some(endpoint_id), outcomes);
    path_keeps_id(decoded(trimmed(endpoint_id)), input);
    let early = outcomes.take(2);
    assert(early[0] == outcomes[0] && early[1] == outcomes[1]);
    assert forall|i: int| 0 <= i < early.len() && i <= route_roles().len() implies #[trigger]
        early[i] by {
        assert(i == 0 || i == 1);
    }
}

/// The next request while the policy factory is acquired.
#[derive(Clone, Copy, Debug, PartialEq, Eq, Structural)]
pub enum AcquireStep {
    /// Ask for the factory under its current interface id.
    Current,
    /// Ask for it without an interface.
    Unknown,
    /// Query that for the interface id of older systems.
    Downlevel,
    /// The factory is there.
    Acquired,
    /// There is none.
    Unavailable,
}

impl AcquireStep {
    /// The current interface id comes first, and the older one where that fails.
    pub open spec fn after(self, worked: bool) -> AcquireStep {
        match self {
            AcquireStep::Current => if worked {
                AcquireStep::Acquired
            } else {
                AcquireStep::Unknown
            },
            AcquireStep::Unknown => if worked {
                AcquireStep::Downlevel
            } else {
                AcquireStep::Unavailable
            },
            AcquireStep::Downlevel => if worked {
                AcquireStep::Acquired
            } else {
                AcquireStep::Unavailable
            },
            AcquireStep::Acquired => AcquireStep::Acquired,
            AcquireStep::Unavailable => AcquireStep::Unavailable,
        }
    }
}

/// The request that follows, given whether this one worked.
pub fn acquire(step: AcquireStep, worked: bool) -> (next: AcquireStep)
    ensures
        next == step.after(worked),
{
    match step {
        AcquireStep::Current => if worked {
            AcquireStep::Acquired
        } else {
            AcquireStep::Unknown
        },
        AcquireStep::Unknown => if worked {
            AcquireStep::Downlevel
        } else {
            AcquireStep::Unavailable
        },
        AcquireStep::Downlevel => if worked {
            AcquireStep::Acquired
        } else {
            AcquireStep::Unavailable
        },
        AcquireStep::Acquired => AcquireStep::Acquired,
        AcquireStep::Unavailable => AcquireStep::Unavailable,
    }
}

/// The factory is acquired where it has the current interface, or else where it
/// is there at all and has the older one.
pub proof fn either_interface_will_do(current: bool, unknown: bool, downlevel: bool)
    ensures
        AcquireStep::Current.after(current).after(unknown).after(downlevel) == if current || (
        unknown && downlevel) {
            AcquireStep::Acquired
        } else {
            AcquireStep::Unavailable
        },
{
}

/// Routing goes on as long as everything works: for every process but 0, in both
/// directions and for any endpoint or none, the factory is acquired first, and
/// the console and the multimedia role are assigned in turn. It ends without
/// success exactly for process 0 and after a failure.
pub proof fn routing_makes_progress(
    pid: u32,
    input: bool,
    endpoint_id: Option<Seq<u16>>,
    outcomes: Seq<bool>,
)
    ensures
        ({
            let step = route_step(pid, input, endpoint_id, outcomes);
            let n = outcomes.len();
            let failed = (n > 0 && !outcomes[0]) || (n > 1 && !outcomes[1]) || (n > 2
                && !outcomes[2]);
            &&& step == RouteStepView::Done(false) <==> pid == 0 || failed
            &&& pid != 0 && !failed && n == 0 ==> step is Acquire
            &&& pid != 0 && !failed && n == 1 ==> step is Assign && step->role == Role::Console
            &&& pid != 0 && !failed && n == 2 ==> step is Assign && step->role == Role::Multimedia
            &&& pid != 0 && !failed && n >= 3 ==> step == RouteStepView::Done(true)
        }),
{
    let n = outcomes.len();
    if !((n > 0 && !outcomes[0]) || (n > 1 && !outcomes[1]) || (n > 2 && !outcomes[2])) {
        assert forall|i: int| 0 <= i < n && i <= route_roles().len() implies #[trigger]
            outcomes[i] by {
            assert(i == 0 || i == 1 || i == 2);
        }
    }
}

/// Both assignments of a routing are of the same device path in the same
/// direction, and the same device routed for input and for output differs in the
/// end of its path alone.
pub proof fn assignments_agree(pid: u32, input: bool, endpoint_id: Option<Seq<u16>>)
    requires
        pid != 0,
    ensures
        ({
            let first = route_step(pid, input, endpoint_id, seq![true]);
            let second = route_step(pid, input, endpoint_id, seq![true, true]);
            &&& first is Assign && second is Assign
            &&& first->flow == second->flow
            &&& first->path == second->path
            &&& first->path is Some <==> endpoint_id is Some
            &&& first->flow == Flow::Capture <==> input
            &&& first->flow == Flow::Render <==> !input
        }),
        endpoint_id matches Some(id) ==> {
            let path = route_step(pid, input, endpoint_id, seq![true])->path->0;
            let text = decoded(trimmed(id));
            &&& path.len() == 17 + text.len() + 39
            &&& path.take(17) == "\\\\?\\SWD#MMDEVAPI#"@
            &&& path.subrange(17, 17 + text.len() as int) == text
            &&& input ==> path.skip(17 + text.len() as int)
                == "#{2eef81be-33fa-4800-9670-1cd474972c3f}"@
            &&& !input ==> path.skip(17 + text.len() as int)
                == "#{e6327cad-dcec-4949-ae8a-991e976a79d2}"@
        },
{
    reveal_strlit("\\\\?\\SWD#MMDEVAPI#");
    reveal_strlit("#{e6327cad-dcec-4949-ae8a-991e976a79d2}");
    reveal_strlit("#{2eef81be-33fa-4800-9670-1cd474972c3f}");
    routed_means_both_roles(pid, input, endpoint_id, seq![true]);
    routed_means_both_roles(pid, input, endpoint_id, seq![true, true]);
    routing_makes_progress(pid, input, endpoint_id, seq![true]);
    routing_makes_progress(pid, input, endpoint_id, seq![true, true]);
    if let Some(id) = endpoint_id {
        let text = decoded(trimmed(id));
        let path = device_path(text, input);
        assert(path.take(17) =~= MMDEVAPI_PREFIX@);
        assert(path.subrange(17, 17 + text.len() as int) =~= text);
        assert(path.skip(17 + text.len() as int) =~= path_suffix(input));
    }
}

/// A path names an id exactly where it is the prefix, the id, a `#` and an end
/// without one, and the id is not empty.
pub proof fn path_names_its_id(path: Seq<char>, id: Seq<char>, end: Seq<char>)
    requires
        !end.contains('#'),
    ensures
        path == MMDEVAPI_PREFIX@ + id + seq!['#'] + end && id.len() > 0 ==> path_id(path) == Some(
            id,
        ),
        path == MMDEVAPI_PREFIX@ + end ==> path_id(path) is None,
        path == MMDEVAPI_PREFIX@ + seq!['#'] + end ==> path_id(path) is None,
        path_id(path) matches Some(found) ==> found.len() > 0 && path.len()
            > MMDEVAPI_PREFIX@.len() + found.len() && path.take(
            MMDEVAPI_PREFIX@.len() + found.len() as int,
        ) == MMDEVAPI_PREFIX@ + found && path[MMDEVAPI_PREFIX@.len() + found.len() as int] == '#'
            && !path.skip(MMDEVAPI_PREFIX@.len() + found.len() as int + 1).contains('#'),
{
    let prefix = MMDEVAPI_PREFIX@;
    let n = prefix.len() as int;
    let rest = path.skip(n);
    if path == prefix + id + seq!['#'] + end {
        assert(path.subrange(0, n) =~= prefix);
        assert(rest =~= id + seq!['#'] + end);
        assert forall|j: int| id.len() < j < rest.len() implies #[trigger] rest[j] != '#' by {
            assert(rest[j] == end[j - id.len() - 1]);
            assert(end.contains(end[j - id.len() - 1]));
        }
        last_index_found(rest, '#', id.len() as int);
        assert(rest.take(id.len() as int) =~= id);
    }
    crate::lists::last_index_is_last(rest, '#');
    if path == prefix + end {
        assert(rest =~= end);
        if let Some(i) = last_index(rest, '#') {
            assert(end.contains(end[i]));
        }
    }
    if path == prefix + seq!['#'] + end {
        assert(rest =~= seq!['#'] + end);
        if let Some(i) = last_index(rest, '#') {
            if i > 0 {
                assert(rest[i] == end[i - 1]);
                assert(end.contains(end[i - 1]));
            }
        }
    }
    if let Some(found) = path_id(path) {
        assert(path.subrange(0, n) =~= prefix);
        let i = last_index(rest, '#')->0;
        assert(path.take(n + i) =~= prefix + found);
        assert(path[n + i] == rest[i]);
        let tail = path.skip(n + i + 1);
        if tail.contains('#') {
            let k = choose|k: int| 0 <= k < tail.len() && tail[k] == '#';
            assert(rest[i + 1 + k] == '#');
        }
    }
}

/// The current interface is asked for first; the older one is only asked for
/// where that fails, and only of a factory that is there. The two ends are final.
pub proof fn interfaces_are_tried_in_order(worked: bool)
    ensures
        AcquireStep::Current.after(true) is Acquired,
        AcquireStep::Current.after(false) is Unknown,
        AcquireStep::Unknown.after(true) is Downlevel,
        AcquireStep::Unknown.after(false) is Unavailable,
        AcquireStep::Downlevel.after(true) is Acquired,
        AcquireStep::Downlevel.after(false) is Unavailable,
        AcquireStep::Acquired.after(worked) is Acquired,
        AcquireStep::Unavailable.after(worked) is Unavailable,
{
}

/// The models of steps and of optional ids and paths have what those hold.
pub proof fn routing_is_modelled_in_full(
    flow: Flow,
    role: Role,
    path: String,
    worked: bool,
    units: &[u16],
)
    ensures
        RouteStep::Acquire@ is Acquire,
        (RouteStep::Assign { flow, role, path: Some(path) })@ == (RouteStepView::Assign {
            flow,
            role,
            path: Some(path@),
        }),
        (RouteStep::Assign { flow, role, path: None })@ == (RouteStepView::Assign {
            flow,
            role,
            path: None,
        }),
        RouteStep::Done(worked)@ == RouteStepView::Done(worked),
        units_view(None) is None,
        units_view(Some(units)) == Some(units@),
        text_of(None) is None,
        text_of(Some(path)) == Some(path@),
{
}

/// What is looked up is what a routing assigns last: the same direction and role.
/// Nothing is looked up for process 0.
pub proof fn lookup_is_where_a_routing_ends(
    pid: u32,
    input: bool,
    endpoint_id: Option<Seq<u16>>,
)
    ensures
        pid == 0 ==> lookup_of(pid, input) is None,
        pid != 0 ==> {
            let step = route_step(pid, input, endpoint_id, seq![true, true]);
            lookup_of(pid, input) == Some((step->flow, step->role))
        },
{
    routing_makes_progress(pid, input, endpoint_id, seq![true, true]);
    routed_means_both_roles(pid, input, endpoint_id, seq![true, true]);
}

} // verus!
