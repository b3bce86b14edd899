//! Speech output: how the speech library is started and what it is handed.

use vstd::prelude::*;

use crate::text::{chars_of, string_of};

verus! {

/// The next request while the speech library is started.
#[derive(Clone, Copy, Debug, PartialEq, Eq, Structural)]
pub enum StartStep {
    /// Create a context.
    InitContext,
    /// Acquire the best backend of it.
    AcquireBackend,
    /// Initialize the backend; it is used whatever that reports.
    Initialize,
    /// Shut the context down, for want of a backend.
    Shutdown,
    /// Speech is available; the context is shut down at the end.
    Ready,
    /// There is no speech, and no context is left.
    Unavailable,
}

impl StartStep {
    pub open spec fn after(self, worked: bool) -> StartStep {
        match self {
            StartStep::InitContext => if worked {
                StartStep::AcquireBackend
            } else {
                StartStep::Unavailable
            },
            StartStep::AcquireBackend => if worked {
                StartStep::Initialize
            } else {
                StartStep::Shutdown
            },
            StartStep::Initialize => StartStep::Ready,
            StartStep::Shutdown => StartStep::Unavailable,
            StartStep::Ready => StartStep::Ready,
            StartStep::Unavailable => StartStep::Unavailable,
        }
    }

    /// The request that follows, given whether this one worked.
    pub fn next(self, worked: bool) -> (step: StartStep)
        ensures
            step == self.after(worked),
    {
        match self {
            StartStep::InitContext => if worked {
                StartStep::AcquireBackend
            } else {
                StartStep::Unavailable
            },
            StartStep::AcquireBackend => if worked {
                StartStep::Initialize
            } else {
                StartStep::Shutdown
            },
            StartStep::Initialize => StartStep::Ready,
            StartStep::Shutdown => StartStep::Unavailable,
            StartStep::Ready => StartStep::Ready,
            StartStep::Unavailable => StartStep::Unavailable,
        }
    }

    /// A context exists while this step is taken.
    pub open spec fn holds_context(self) -> bool {
        self is AcquireBackend || self is Initialize || self is Shutdown || self is Ready
    }
}

/// A context comes from its creation and goes with its shutdown, and with
/// nothing else.
pub proof fn context_is_created_and_shut_down_once(step: StartStep, worked: bool)
    ensures
        !step.holds_context() && step.after(worked).holds_context() ==> step is InitContext
            && worked,
        step.holds_context() && !step.after(worked).holds_context() <==> step is Shutdown,
{
}

/// Speech is available where a context could be created and a backend acquired,
/// whatever the backend's initialization reports; a context without a backend is
/// shut down again.
pub proof fn speech_takes_context_and_backend(context: bool, backend: bool, last: bool)
    ensures
        StartStep::InitContext.after(context).after(backend).after(last) == if context && backend {
            StartStep::Ready
        } else {
            StartStep::Unavailable
        },
        StartStep::InitContext.after(context).after(backend) is Shutdown <==> context && !backend,
{
}

/// A text with a blank for each null character.
pub open spec fn spoken(text: Seq<char>) -> Seq<char> {
    Seq::new(text.len(), |i: int| if text[i] == '\0' {
        ' '
    } else {
        text[i]
    })
}

/// What is handed to the speech library for a text: the text with a blank for
/// each null character, so that it ends where the text ends.
pub fn speak(text: &str) -> (handed: String)
    ensures
        handed@ == spoken(text@),
{
    let chars = chars_of(text);
    let mut out: Vec<char> = Vec::new();
    for i in 0..chars.len()
        invariant
            chars@ == text@,
            out@ == spoken(text@).take(i as int),
    {
        out.push(
            if chars[i] == '\0' {
                ' '
            } else {
                chars[i]
            },
        );
        assert(out@ == spoken(text@).take(i + 1));
    }
    assert(spoken(text@).take(text@.len() as int) == spoken(text@));
    string_of(out.as_slice())
}

/// Says a text where speech is available: what is handed to the speech library,
/// nothing where there is no speech.
pub fn say(available: bool, text: &str) -> (handed: Option<String>)
    ensures
        handed is Some <==> available,
        handed matches Some(handed) ==> handed@ == spoken(text@),
{
    if available {
        Some(speak(text))
    } else {
        None
    }
}

/// No null character is ever handed over, and a text without one is handed over
/// as it is.
pub proof fn spoken_has_no_null(text: Seq<char>)
    ensures
        !spoken(text).contains('\0'),
        !text.contains('\0') ==> spoken(text) == text,
{
    if !text.contains('\0') {
        assert forall|i: int| 0 <= i < text.len() implies spoken(text)[i] == text[i] by {
            assert(text.contains(text[i]));
        }
        assert(spoken(text) =~= text);
    }
}

/// Speech is started in order: the context, a backend of it, its initialization.
/// Only a failure to create the context or to acquire a backend leads elsewhere,
/// and the two ends are final.
pub proof fn speech_is_started_in_order(worked: bool)
    ensures
        StartStep::InitContext.after(true) is AcquireBackend,
        StartStep::InitContext.after(false) is Unavailable,
        StartStep::AcquireBackend.after(true) is Initialize,
        StartStep::AcquireBackend.after(false) is Shutdown,
        StartStep::Initialize.after(worked) is Ready,
        StartStep::Shutdown.after(worked) is Unavailable,
        StartStep::Ready.after(worked) is Ready,
        StartStep::Unavailable.after(worked) is Unavailable,
{
}

/// What is spoken is as long as the text and differs from it in the null
/// characters alone, which become blanks.
pub proof fn only_nulls_are_replaced(text: Seq<char>, i: int)
    requires
        0 <= i < text.len(),
    ensures
        spoken(text).len() == text.len(),
        text[i] as int != 0 ==> spoken(text)[i] == text[i],
        text[i] as int == 0 ==> spoken(text)[i] == ' ',
{
}

} // verus!
