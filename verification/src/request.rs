//! Cancellation bookkeeping of in-flight requests.

use vstd::prelude::*;
use vstd::string::*;

use crate::textmap::TextMap;

verus! {

/// Cancellation state shared between every served request object and the
/// workers: the paths of the requests that their clients closed.
pub struct RequestTracker {
    closed: TextMap<()>,
}

impl View for RequestTracker {
    type V = Set<Seq<char>>;

    closed spec fn view(&self) -> Set<Seq<char>> {
        self.closed@.dom()
    }
}

impl Default for RequestTracker {
    fn default() -> (tracker: Self)
        ensures
            tracker@ == Set::<Seq<char>>::empty(),
    {
        let tracker = RequestTracker { closed: TextMap::new() };
        assert(tracker@ =~= Set::<Seq<char>>::empty());
        tracker
    }
}

impl RequestTracker {
    /// Whether the request at this path was closed.
    pub fn was_closed(&self, path: &str) -> (yes: bool)
        ensures
            yes == self@.contains(path@),
    {
        self.closed.contains(path)
    }

    /// Records that the request at this path was closed.
    pub fn close(&mut self, path: &str)
        ensures
            final(self)@ == old(self)@.insert(path@),
    {
        self.closed.insert(path, ());
        assert(self@ =~= old(self)@.insert(path@));
    }

    /// Drops all state for a finished request.
    pub fn forget(&mut self, path: &str)
        ensures
            final(self)@ == old(self)@.remove(path@),
    {
        let _ = self.closed.remove(path);
        assert(self@ =~= old(self)@.remove(path@));
    }
}

/// Forgetting a request after it was closed leaves no trace of the close.
pub proof fn forget_undoes_close(closed: Set<Seq<char>>, path: Seq<char>)
    requires
        !closed.contains(path),
    ensures
        closed.insert(path).remove(path) == closed,
{
    assert(closed.insert(path).remove(path) =~= closed);
}

/// Closing or forgetting one request leaves every other one as it was.
pub proof fn requests_are_independent(closed: Set<Seq<char>>, path: Seq<char>, other: Seq<char>)
    requires
        path != other,
    ensures
        closed.insert(path).contains(other) == closed.contains(other),
        closed.remove(path).contains(other) == closed.contains(other),
{
}

/// The error for a handle that already has a request object.
pub fn already_active(path: &str) -> (m: String)
    ensures
        m@ == "request handle "@ + path@ + " is already active"@,
{
    let mut m = "request handle ".to_owned();
    m.append(path);
    m.append(" is already active");
    m
}

} // verus!
