//! Idle inhibition.
//!
//! Only idle can be inhibited; other flags are refused instead of being
//! silently reported as active. Every accepted call is one inhibitor until
//! its request is closed, and the session is kept from idling while there is
//! at least one.

use vstd::prelude::*;
use vstd::string::*;

use crate::text::hex_text;
use crate::textmap::TextMap;

verus! {

/// The freedesktop Inhibit flag for idle.
pub const INHIBIT_IDLE: u32 = 8;

/// The served interface version.
pub const INHIBIT_VERSION: u32 = 1;

/// Why an inhibit call is refused.
pub enum InhibitError {
    NotSupported(String),
    InvalidArgs(String),
}

/// The flags of a call that are not served.
pub open spec fn unsupported_flags(flags: u32) -> u32 {
    flags & !INHIBIT_IDLE
}

/// Accepts exactly the idle flag.
pub fn check_flags(flags: u32) -> (r: Result<(), InhibitError>)
    ensures
        r is Ok <==> flags == INHIBIT_IDLE,
        match r {
            Ok(_) => true,
            Err(InhibitError::NotSupported(m)) => unsupported_flags(flags) != 0 && m@
                == "Aegis supports idle inhibition only; unsupported flags 0x"@
                + crate::text::hexadecimal(unsupported_flags(flags) as nat),
            Err(InhibitError::InvalidArgs(m)) => flags == 0 && m@
                == "Inhibit requires the idle flag (8)"@,
        },
{
    let unsupported: u32 = flags & !INHIBIT_IDLE;
    assert(flags & !8u32 == 0 ==> flags == 0 || flags == 8) by (bit_vector);
    assert(8u32 & !8u32 == 0) by (bit_vector);
    assert(8u32 & 8u32 == 8) by (bit_vector);
    assert(0u32 & 8u32 == 0) by (bit_vector);
    if unsupported != 0 {
        let mut m = "Aegis supports idle inhibition only; unsupported flags 0x".to_owned();
        m.append(hex_text(unsupported as u64).as_str());
        return Err(InhibitError::NotSupported(m));
    }
    if flags & INHIBIT_IDLE == 0 {
        return Err(
            InhibitError::InvalidArgs("Inhibit requires the idle flag (8)".to_owned()),
        );
    }
    Ok(())
}

/// Active idle inhibitors by request path, with the application that asked.
pub struct InhibitCounts {
    requests: TextMap<String>,
}

impl View for InhibitCounts {
    type V = Map<Seq<char>, Seq<char>>;

    closed spec fn view(&self) -> Map<Seq<char>, Seq<char>> {
        self.requests@.map_values(|app: String| app@)
    }
}

impl Default for InhibitCounts {
    fn default() -> (counts: Self)
        ensures
            counts@ == Map::<Seq<char>, Seq<char>>::empty(),
    {
        let counts = InhibitCounts { requests: TextMap::new() };
        assert(counts@ =~= Map::<Seq<char>, Seq<char>>::empty());
        counts
    }
}

impl InhibitCounts {
    /// Adds the inhibitor of a request; the result is how many there are.
    pub fn add(&mut self, request_path: &str, app_id: &str) -> (total: usize)
        ensures
            final(self)@ == old(self)@.insert(request_path@, app_id@),
            total == final(self)@.dom().len(),
    {
        self.requests.insert(request_path, app_id.to_owned());
        assert(self@ =~= old(self)@.insert(request_path@, app_id@));
        self.total()
    }

    /// Releases the inhibitor of a request, if it has one; the result is how
    /// many are left.
    pub fn release(&mut self, request_path: &str) -> (total: usize)
        ensures
            final(self)@ == old(self)@.remove(request_path@),
            total == final(self)@.dom().len(),
    {
        let _ = self.requests.remove(request_path);
        assert(self@ =~= old(self)@.remove(request_path@));
        self.total()
    }

    /// How many inhibitors are active.
    pub fn total(&self) -> (total: usize)
        ensures
            total == self@.dom().len(),
            self@.dom().finite(),
    {
        assert(self@.dom() =~= self.requests@.dom());
        self.requests.len()
    }
}

/// Releasing a request twice is the same as releasing it once.
pub proof fn release_is_idempotent(requests: Map<Seq<char>, Seq<char>>, path: Seq<char>)
    ensures
        requests.remove(path).remove(path) == requests.remove(path),
{
    assert(requests.remove(path).remove(path) =~= requests.remove(path));
}

/// Releasing one request leaves every other inhibitor active.
pub proof fn releases_are_independent(
    requests: Map<Seq<char>, Seq<char>>,
    path: Seq<char>,
    other: Seq<char>,
)
    requires
        path != other,
    ensures
        requests.remove(path).dom().contains(other) == requests.dom().contains(other),
{
}

/// What an inhibit worker is told.
pub enum InhibitJob {
    Add { request_path: String, app_id: String },
    Release { request_path: String },
}

/// The inhibit worker: the inhibitors, and what the compositor was last told.
pub struct InhibitWorker {
    pub counts: InhibitCounts,
    pub ipc_inhibited: bool,
}

/// What the worker has to do outside: tell the compositor, and take a
/// released request object down.
pub struct InhibitAction {
    pub set: Option<bool>,
    pub remove: Option<String>,
}

/// The inhibitors after a job; `None` is the periodic wake-up.
pub open spec fn inhibitors_after(
    requests: Map<Seq<char>, Seq<char>>,
    job: Option<InhibitJob>,
) -> Map<Seq<char>, Seq<char>> {
    match job {
        Some(InhibitJob::Add { request_path, app_id }) => requests.insert(request_path@, app_id@),
        Some(InhibitJob::Release { request_path }) => requests.remove(request_path@),
        None => requests,
    }
}

/// What the compositor is to be told, if anything: the wanted state when it
/// was last told another one, and active inhibition on every wake-up.
pub open spec fn call_for(
    requests: Map<Seq<char>, Seq<char>>,
    ipc_inhibited: bool,
    wakes: bool,
) -> Option<bool> {
    let want = requests.dom().len() > 0;
    if want != ipc_inhibited || (wakes && want) {
        Some(want)
    } else {
        None
    }
}

/// What the compositor was last told, after a call that it took or refused.
pub open spec fn told_after(ipc_inhibited: bool, call: Option<bool>, ok: bool) -> bool {
    match call {
        Some(want) => if ok {
            want
        } else {
            ipc_inhibited
        },
        None => ipc_inhibited,
    }
}

/// The compositor keeps the session from idling exactly while there is an
/// inhibitor: once its call is taken, what it was last told is whether there
/// is one. A refused call is made again with the next job.
pub proof fn the_compositor_follows(
    requests: Map<Seq<char>, Seq<char>>,
    ipc_inhibited: bool,
    wakes: bool,
    wakes_next: bool,
)
    ensures
        ({
            let want = requests.dom().len() > 0;
            let call = call_for(requests, ipc_inhibited, wakes);
            &&& told_after(ipc_inhibited, call, true) == want
            &&& told_after(ipc_inhibited, call, false) != want ==> call_for(
                requests,
                told_after(ipc_inhibited, call, false),
                wakes_next,
            ) == Some(want)
        }),
{
}

impl InhibitWorker {
    /// Takes one job, or the periodic wake-up (`None`). The compositor is told
    /// when the wanted state differs from what it was last told; the wake-up
    /// also reasserts active inhibition, which renews the lease and recovers
    /// after a compositor restart.
    pub fn step(&mut self, job: Option<InhibitJob>) -> (action: InhibitAction)
        ensures
            final(self).counts@ == inhibitors_after(old(self).counts@, job),
            final(self).ipc_inhibited == old(self).ipc_inhibited,
            action.set == call_for(final(self).counts@, old(self).ipc_inhibited, job is None),
            match job {
                Some(InhibitJob::Release { request_path }) => action.remove is Some
                    && action.remove->0@ == request_path@,
                _ => action.remove is None,
            },
    {
        let keepalive: bool = job.is_none();
        let mut remove: Option<String> = None;
        let total: usize = match job {
            Some(InhibitJob::Add { request_path, app_id }) => self.counts.add(
                request_path.as_str(),
                app_id.as_str(),
            ),
            Some(InhibitJob::Release { request_path }) => {
                let total: usize = self.counts.release(request_path.as_str());
                remove = Some(request_path);
                total
            },
            None => self.counts.total(),
        };
        let want: bool = total > 0;
        let set: Option<bool> = if want != self.ipc_inhibited || (keepalive && want) {
            Some(want)
        } else {
            None
        };
        InhibitAction { set, remove }
    }

    /// The compositor took the wanted state over, or refused it.
    pub fn told(&mut self, want: bool, ok: bool)
        ensures
            final(self).counts@ == old(self).counts@,
            final(self).ipc_inhibited == told_after(old(self).ipc_inhibited, Some(want), ok),
    {
        if ok {
            self.ipc_inhibited = want;
        }
    }
}

} // verus!
