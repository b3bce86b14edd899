//! Attaching to every active render endpoint, one request at a time.

use vstd::prelude::*;

use crate::lists::filter_push;

verus! {

/// The next request to the system while the endpoints are attached in order.
#[derive(Clone, Copy, Debug, PartialEq, Eq, Structural)]
pub enum AttachStep {
    /// Take this endpoint out of the collection.
    Item(u32),
    /// Activate its session manager.
    Activate(u32),
    /// Register for its new sessions.
    Register(u32),
    /// Ask for its sessions; that also primes its notifications.
    Enumerate(u32),
    /// Add the session `at` of the `count` that it has.
    Add { endpoint: u32, at: i32, count: i32 },
    /// Keep its session manager.
    Keep(u32),
    /// Every endpoint had its turn.
    Done,
}

/// What came of a request.
#[derive(Clone, Copy, Debug, PartialEq, Eq, Structural)]
pub enum AttachReply {
    Failed,
    Worked,
    /// The sessions could be asked for, and there are so many.
    Sessions(i32),
}

pub open spec fn next_endpoint(endpoint: u32, endpoints: u32) -> AttachStep {
    if endpoint + 1 < endpoints {
        AttachStep::Item((endpoint + 1) as u32)
    } else {
        AttachStep::Done
    }
}

impl AttachStep {
    /// An endpoint is left out where a request for it fails, up to its
    /// registration. From there on it is kept, whether or not its sessions can
    /// be asked for, and its sessions are added in order.
    pub open spec fn after(self, endpoints: u32, reply: AttachReply) -> AttachStep {
        match self {
            AttachStep::Item(i) => if reply is Failed {
                next_endpoint(i, endpoints)
            } else {
                AttachStep::Activate(i)
            },
            AttachStep::Activate(i) => if reply is Failed {
                next_endpoint(i, endpoints)
            } else {
                AttachStep::Register(i)
            },
            AttachStep::Register(i) => if reply is Failed {
                next_endpoint(i, endpoints)
            } else {
                AttachStep::Enumerate(i)
            },
            AttachStep::Enumerate(i) => match reply {
                AttachReply::Sessions(count) => if count > 0 {
                    AttachStep::Add { endpoint: i, at: 0, count }
                } else {
                    AttachStep::Keep(i)
                },
                _ => AttachStep::Keep(i),
            },
            AttachStep::Add { endpoint, at, count } => if at + 1 < count {
                AttachStep::Add { endpoint, at: (at + 1) as i32, count }
            } else {
                AttachStep::Keep(endpoint)
            },
            AttachStep::Keep(i) => next_endpoint(i, endpoints),
            AttachStep::Done => AttachStep::Done,
        }
    }

    /// The endpoint that the step is about, the number of endpoints when done.
    pub open spec fn endpoint(self, endpoints: u32) -> int {
        match self {
            AttachStep::Item(i) => i as int,
            AttachStep::Activate(i) => i as int,
            AttachStep::Register(i) => i as int,
            AttachStep::Enumerate(i) => i as int,
            AttachStep::Add { endpoint, .. } => endpoint as int,
            AttachStep::Keep(i) => i as int,
            AttachStep::Done => endpoints as int,
        }
    }

    /// How far the endpoint's turn has come.
    pub open spec fn stage(self) -> int {
        match self {
            AttachStep::Item(_) => 0,
            AttachStep::Activate(_) => 1,
            AttachStep::Register(_) => 2,
            AttachStep::Enumerate(_) => 3,
            AttachStep::Add { .. } => 4,
            AttachStep::Keep(_) => 5,
            AttachStep::Done => 6,
        }
    }

    /// The session that is added, 0 in the other steps.
    pub open spec fn session(self) -> int {
        match self {
            AttachStep::Add { at, .. } => at as int,
            _ => 0,
        }
    }

    /// The first step, for so many endpoints.
    pub fn first(endpoints: u32) -> (step: AttachStep)
        ensures
            step == if endpoints > 0 {
                AttachStep::Item(0)
            } else {
                AttachStep::Done
            },
    {
        if endpoints > 0 {
            AttachStep::Item(0)
        } else {
            AttachStep::Done
        }
    }

    fn turn_over(endpoint: u32, endpoints: u32) -> (step: AttachStep)
        ensures
            step == next_endpoint(endpoint, endpoints),
    {
        if endpoint < endpoints && endpoint + 1 < endpoints {
            AttachStep::Item(endpoint + 1)
        } else {
            AttachStep::Done
        }
    }

    /// The step that follows, given what came of this one.
    pub fn next(self, endpoints: u32, reply: AttachReply) -> (step: AttachStep)
        ensures
            step == self.after(endpoints, reply),
    {
        let failed = match reply {
            AttachReply::Failed => true,
            _ => false,
        };
        match self {
            AttachStep::Item(i) => if failed {
                AttachStep::turn_over(i, endpoints)
            } else {
                AttachStep::Activate(i)
            },
            AttachStep::Activate(i) => if failed {
                AttachStep::turn_over(i, endpoints)
            } else {
                AttachStep::Register(i)
            },
            AttachStep::Register(i) => if failed {
                AttachStep::turn_over(i, endpoints)
            } else {
                AttachStep::Enumerate(i)
            },
            AttachStep::Enumerate(i) => match reply {
                AttachReply::Sessions(count) => if count > 0 {
                    AttachStep::Add { endpoint: i, at: 0, count }
                } else {
                    AttachStep::Keep(i)
                },
                _ => AttachStep::Keep(i),
            },
            AttachStep::Add { endpoint, at, count } => if at < count && at + 1 < count {
                AttachStep::Add { endpoint, at: at + 1, count }
            } else {
                AttachStep::Keep(endpoint)
            },
            AttachStep::Keep(i) => AttachStep::turn_over(i, endpoints),
            AttachStep::Done => AttachStep::Done,
        }
    }
}

/// Attaching ends: each step is about a later endpoint, or takes the same one
/// further, or adds a later one of its sessions, and those are no more than were
/// reported.
pub proof fn attaching_advances(step: AttachStep, endpoints: u32, reply: AttachReply)
    requires
        step !is Done,
        step.endpoint(endpoints) < endpoints,
        step matches AttachStep::Add { at, count, .. } ==> 0 <= at < count,
    ensures
        ({
            let after = step.after(endpoints, reply);
            let (e0, e1) = (step.endpoint(endpoints), after.endpoint(endpoints));
            &&& after !is Done ==> e1 < endpoints
            &&& after matches AttachStep::Add { at, count, .. } ==> 0 <= at < count
            &&& e0 < e1 || (e0 == e1 && (step.stage() < after.stage() || (step.stage()
                == after.stage() && step.session() < after.session())))
            &&& e1 <= e0 + 1
        }),
{
}

/// How many sessions are added of an endpoint, by what came of asking for them.
pub open spec fn session_count(reply: AttachReply) -> int {
    match reply {
        AttachReply::Sessions(count) => if count > 0 {
            count as int
        } else {
            0
        },
        _ => 0,
    }
}

/// None of the requests that an endpoint's turn starts with fails: it can be
/// taken, activated and registered with.
pub open spec fn accepted(replies: spec_fn(AttachStep) -> AttachReply) -> spec_fn(u32) -> bool {
    |i: u32|
        !(replies(AttachStep::Item(i)) is Failed) && !(replies(AttachStep::Activate(i)) is Failed)
            && !(replies(AttachStep::Register(i)) is Failed)
}

/// The requests that are made about the sessions of an endpoint from session `at`
/// on, up to where it is kept.
pub open spec fn additions(endpoint: u32, at: int, count: int) -> Seq<AttachStep> {
    Seq::new(
        (count - at) as nat,
        |k: int| AttachStep::Add { endpoint, at: (at + k) as i32, count: count as i32 },
    ).push(AttachStep::Keep(endpoint))
}

/// Everything that is asked about one endpoint, in order, given what comes of
/// each request.
pub open spec fn turn(i: u32, replies: spec_fn(AttachStep) -> AttachReply) -> Seq<AttachStep> {
    if replies(AttachStep::Item(i)) is Failed {
        seq![AttachStep::Item(i)]
    } else if replies(AttachStep::Activate(i)) is Failed {
        seq![AttachStep::Item(i), AttachStep::Activate(i)]
    } else if replies(AttachStep::Register(i)) is Failed {
        seq![AttachStep::Item(i), AttachStep::Activate(i), AttachStep::Register(i)]
    } else {
        seq![
            AttachStep::Item(i),
            AttachStep::Activate(i),
            AttachStep::Register(i),
            AttachStep::Enumerate(i),
        ] + additions(i, 0, session_count(replies(AttachStep::Enumerate(i))))
    }
}

/// The turns of the endpoints from `from` on.
pub open spec fn turns(
    from: int,
    endpoints: u32,
    replies: spec_fn(AttachStep) -> AttachReply,
) -> Seq<AttachStep>
    decreases endpoints - from,
{
    if from >= endpoints {
        Seq::empty()
    } else {
        turn(from as u32, replies) + turns(from + 1, endpoints, replies)
    }
}

/// The steps that are taken from `step` on until all is done, given what comes of
/// each request.
pub open spec fn run(
    step: AttachStep,
    endpoints: u32,
    replies: spec_fn(AttachStep) -> AttachReply,
) -> Seq<AttachStep>
    decreases
            (if step is Done {
                0
            } else if step.endpoint(endpoints) < endpoints {
                endpoints - step.endpoint(endpoints) + 1
            } else {
                1
            }),
            6 - step.stage(),
            (match step {
                AttachStep::Add { at, count, .. } => count - at,
                _ => 0,
            }),
{
    if step is Done {
        Seq::empty()
    } else {
        seq![step] + run(step.after(endpoints, replies(step)), endpoints, replies)
    }
}

/// The endpoints that the steps keep, in order.
pub open spec fn kept(steps: Seq<AttachStep>) -> Seq<u32>
    decreases steps.len(),
{
    if steps.len() == 0 {
        Seq::empty()
    } else {
        kept(steps.drop_last()) + match steps.last() {
            AttachStep::Keep(i) => seq![i],
            _ => Seq::empty(),
        }
    }
}

proof fn run_adds(
    endpoint: u32,
    at: int,
    count: i32,
    endpoints: u32,
    replies: spec_fn(AttachStep) -> AttachReply,
)
    requires
        0 <= at < count,
    ensures
        run(AttachStep::Add { endpoint, at: at as i32, count }, endpoints, replies) == additions(
            endpoint,
            at,
            count as int,
        ) + run(next_endpoint(endpoint, endpoints), endpoints, replies),
    decreases count - at,
{
    let step = AttachStep::Add { endpoint, at: at as i32, count };
    let rest = run(next_endpoint(endpoint, endpoints), endpoints, replies);
    if at + 1 < count {
        run_adds(endpoint, at + 1, count, endpoints, replies);
        assert(seq![step] + additions(endpoint, at + 1, count as int) =~= additions(
            endpoint,
            at,
            count as int,
        ));
        assert(seq![step] + (additions(endpoint, at + 1, count as int) + rest) =~= additions(
            endpoint,
            at,
            count as int,
        ) + rest);
    } else {
        let keep = AttachStep::Keep(endpoint);
        assert(run(keep, endpoints, replies) == seq![keep] + rest);
        assert(seq![step] + (seq![keep] + rest) =~= additions(endpoint, at, count as int) + rest);
    }
}

proof fn run_takes_turns(
    from: u32,
    endpoints: u32,
    replies: spec_fn(AttachStep) -> AttachReply,
)
    requires
        from < endpoints,
    ensures
        run(AttachStep::Item(from), endpoints, replies) == turns(from as int, endpoints, replies),
    decreases endpoints - from,
{
    let rest = run(next_endpoint(from, endpoints), endpoints, replies);
    if from + 1 < endpoints {
        run_takes_turns((from + 1) as u32, endpoints, replies);
    }
    assert(rest == turns(from + 1, endpoints, replies));
    let item = AttachStep::Item(from);
    let activate = AttachStep::Activate(from);
    let register = AttachStep::Register(from);
    let enumerate = AttachStep::Enumerate(from);
    let keep = AttachStep::Keep(from);
    let all = turn(from, replies) + rest;
    if replies(item) is Failed {
        assert(run(item, endpoints, replies) =~= all);
    } else if replies(activate) is Failed {
        assert(run(activate, endpoints, replies) == seq![activate] + rest);
        assert(run(item, endpoints, replies) =~= all);
    } else if replies(register) is Failed {
        assert(run(register, endpoints, replies) == seq![register] + rest);
        assert(run(activate, endpoints, replies) == seq![activate] + (seq![register] + rest));
        assert(run(item, endpoints, replies) =~= all);
    } else {
        let count = session_count(replies(enumerate));
        let tail = additions(from, 0, count) + rest;
        let next = enumerate.after(endpoints, replies(enumerate));
        assert(run(next, endpoints, replies) == tail) by {
            if count > 0 {
                run_adds(from, 0, count as i32, endpoints, replies);
            } else {
                assert(run(keep, endpoints, replies) == seq![keep] + rest);
                assert(tail =~= seq![keep] + rest);
            }
        }
        assert(run(enumerate, endpoints, replies) == seq![enumerate] + tail);
        assert(run(register, endpoints, replies) == seq![register] + (seq![enumerate] + tail));
        assert(run(activate, endpoints, replies) == seq![activate] + (seq![register] + (
        seq![enumerate] + tail)));
        assert(run(item, endpoints, replies) =~= all);
    }
}

proof fn kept_of_both(a: Seq<AttachStep>, b: Seq<AttachStep>)
    ensures
        kept(a + b) == kept(a) + kept(b),
    decreases b.len(),
{
    if b.len() == 0 {
        assert(a + b =~= a);
    } else {
        kept_of_both(a, b.drop_last());
        assert((a + b).drop_last() =~= a + b.drop_last());
    }
}

proof fn kept_of_none(steps: Seq<AttachStep>)
    requires
        forall|i: int| 0 <= i < steps.len() ==> !(#[trigger] steps[i] is Keep),
    ensures
        kept(steps) == Seq::<u32>::empty(),
    decreases steps.len(),
{
    if steps.len() > 0 {
        kept_of_none(steps.drop_last());
    }
}

proof fn kept_of_turn(i: u32, replies: spec_fn(AttachStep) -> AttachReply)
    ensures
        kept(turn(i, replies)) == if accepted(replies)(i) {
            seq![i]
        } else {
            Seq::empty()
        },
{
    let steps = turn(i, replies);
    if accepted(replies)(i) {
        assert(steps.last() == AttachStep::Keep(i));
        kept_of_none(steps.drop_last());
    } else {
        kept_of_none(steps);
    }
}

/// The numbers of the endpoints from `from` on.
pub open spec fn numbers(from: int, endpoints: u32) -> Seq<u32> {
    Seq::new((endpoints - from) as nat, |k: int| (from + k) as u32)
}

proof fn kept_of_turns(from: int, endpoints: u32, replies: spec_fn(AttachStep) -> AttachReply)
    requires
        0 <= from <= endpoints,
    ensures
        kept(turns(from, endpoints, replies)) == numbers(from, endpoints).filter(
            accepted(replies),
        ),
    decreases endpoints - from,
{
    let p = accepted(replies);
    if from < endpoints {
        let i = from as u32;
        kept_of_turns(from + 1, endpoints, replies);
        kept_of_turn(i, replies);
        kept_of_both(turn(i, replies), turns(from + 1, endpoints, replies));
        let rest = numbers(from + 1, endpoints);
        assert(numbers(from, endpoints) =~= seq![i] + rest);
        Seq::filter_distributes_over_add(seq![i], rest, p);
        assert(seq![i].filter(p) == if p(i) {
            seq![i]
        } else {
            Seq::empty()
        }) by {
            filter_push(Seq::<u32>::empty(), p, i);
            assert(Seq::<u32>::empty().push(i) =~= seq![i]);
            assert(Seq::<u32>::empty().filter(p) =~= Seq::empty()) by {
                reveal(Seq::filter);
            }
        }
    } else {
        assert(numbers(from, endpoints).filter(p) =~= Seq::empty()) by {
            reveal(Seq::filter);
        }
    }
}

/// From the first step to the last, every endpoint has its turn, in order, and
/// in a turn the sessions are added one by one, as many as were reported. The
/// endpoints that are kept are, in order, exactly those for which neither the
/// taking nor the activation nor the registration failed.
pub proof fn every_endpoint_has_its_turn(
    endpoints: u32,
    replies: spec_fn(AttachStep) -> AttachReply,
)
    ensures
        ({
            let first = if endpoints > 0 {
                AttachStep::Item(0)
            } else {
                AttachStep::Done
            };
            let steps = run(first, endpoints, replies);
            &&& steps == turns(0, endpoints, replies)
            &&& kept(steps) == numbers(0, endpoints).filter(accepted(replies))
        }),
{
    kept_of_turns(0, endpoints, replies);
    if endpoints > 0 {
        run_takes_turns(0, endpoints, replies);
    }
}

proof fn turns_hold(
    from: int,
    endpoints: u32,
    replies: spec_fn(AttachStep) -> AttachReply,
    step: AttachStep,
)
    requires
        0 <= from <= endpoints,
    ensures
        turns(from, endpoints, replies).contains(step) <==> step !is Done && from <= step.endpoint(
            endpoints,
        ) < endpoints && turn(step.endpoint(endpoints) as u32, replies).contains(step),
    decreases endpoints - from,
{
    if from < endpoints {
        let i = from as u32;
        let rest = turns(from + 1, endpoints, replies);
        let all = turns(from, endpoints, replies);
        turns_hold(from + 1, endpoints, replies, step);
        if turn(i, replies).contains(step) {
            turn_is_about(i, replies, endpoints, step);
        }
        if all.contains(step) {
            let k = choose|k: int| 0 <= k < all.len() && all[k] == step;
            if k < turn(i, replies).len() {
                assert(turn(i, replies)[k] == step);
            } else {
                assert(rest[k - turn(i, replies).len()] == step);
            }
        }
        if turn(i, replies).contains(step) {
            let k = choose|k: int| 0 <= k < turn(i, replies).len() && turn(i, replies)[k] == step;
            assert(all[k] == step);
        }
        if rest.contains(step) {
            let k = choose|k: int| 0 <= k < rest.len() && rest[k] == step;
            assert(all[turn(i, replies).len() + k] == step);
        }
    }
}

proof fn turn_is_about(
    i: u32,
    replies: spec_fn(AttachStep) -> AttachReply,
    endpoints: u32,
    step: AttachStep,
)
    requires
        turn(i, replies).contains(step),
    ensures
        step !is Done && step.endpoint(endpoints) == i,
{
    let k = choose|k: int| 0 <= k < turn(i, replies).len() && turn(i, replies)[k] == step;
}

/// What is asked of the system in a whole run, for every endpoint: it is taken; it
/// is activated where the taking did not fail; registered with where the
/// activation did not either; and where the registration did not, it is asked for
/// its sessions and kept. Of its sessions exactly those are added that it was
/// reported to have.
pub proof fn a_run_asks_for_what_it_may(
    endpoints: u32,
    replies: spec_fn(AttachStep) -> AttachReply,
    i: u32,
    at: i32,
    count: i32,
)
    requires
        i < endpoints,
    ensures
        ({
            let steps = run(AttachStep::Item(0), endpoints, replies);
            let taken = !(replies(AttachStep::Item(i)) is Failed);
            let activated = taken && !(replies(AttachStep::Activate(i)) is Failed);
            let registered = activated && !(replies(AttachStep::Register(i)) is Failed);
            &&& steps.contains(AttachStep::Item(i))
            &&& steps.contains(AttachStep::Activate(i)) <==> taken
            &&& steps.contains(AttachStep::Register(i)) <==> activated
            &&& steps.contains(AttachStep::Enumerate(i)) <==> registered
            &&& steps.contains(AttachStep::Keep(i)) <==> registered
            &&& steps.contains(AttachStep::Add { endpoint: i, at, count }) <==> registered
                && replies(AttachStep::Enumerate(i)) == AttachReply::Sessions(count) && 0 <= at
                < count
        }),
{
    every_endpoint_has_its_turn(endpoints, replies);
    let steps = turn(i, replies);
    let add = AttachStep::Add { endpoint: i, at, count };
    turns_hold(0, endpoints, replies, AttachStep::Item(i));
    turns_hold(0, endpoints, replies, AttachStep::Activate(i));
    turns_hold(0, endpoints, replies, AttachStep::Register(i));
    turns_hold(0, endpoints, replies, AttachStep::Enumerate(i));
    turns_hold(0, endpoints, replies, AttachStep::Keep(i));
    turns_hold(0, endpoints, replies, add);
    assert(steps[0] == AttachStep::Item(i));
    if !(replies(AttachStep::Item(i)) is Failed) {
        assert(steps[1] == AttachStep::Activate(i));
        if !(replies(AttachStep::Activate(i)) is Failed) {
            assert(steps[2] == AttachStep::Register(i));
            if !(replies(AttachStep::Register(i)) is Failed) {
                let n = session_count(replies(AttachStep::Enumerate(i)));
                assert(steps[3] == AttachStep::Enumerate(i));
                assert(steps[4 + n] == AttachStep::Keep(i));
                if replies(AttachStep::Enumerate(i)) == AttachReply::Sessions(count) && 0 <= at
                    < count {
                    assert(steps[4 + at] == add);
                }
            }
        }
    }
}

/// Attaching that is done stays done, whatever is reported.
pub proof fn attaching_stays_done(endpoints: u32, reply: AttachReply)
    ensures
        AttachStep::Done.after(endpoints, reply) is Done,
{
}

} // verus!
