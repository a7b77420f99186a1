use vstd::prelude::*;

use crate::version::{join_path, join_path_text};

verus! {

/// The one process handle this launcher keeps: empty until a launch
/// succeeds, replaced by each later launch, emptied once the process is seen
/// to have ended.
pub struct ManagedProcess<H> {
    handle: Option<H>,
}

/// What a non-blocking status check on a handle held reported.
#[derive(Clone, Copy, Debug, PartialEq, Eq, Structural)]
pub enum PollStatus {
    /// The process has ended.
    Exited,
    /// The process is still running.
    Running,
    /// The check itself failed.
    Failed,
}

/// What trying to start the client gave.
pub enum SpawnOutcome<H> {
    /// No client executable at the expected path.
    Missing,
    /// It could not be started; the system's reason.
    Failed(String),
    /// It started; its handle.
    Spawned(H),
}

impl<H> ManagedProcess<H> {
    /// The handle held, if any.
    pub closed spec fn held(&self) -> Option<H> {
        self.handle
    }

    /// Holds nothing yet.
    pub fn new() -> (r: Self)
        ensures
            r.held() is None,
    {
        ManagedProcess { handle: None }
    }

    pub fn is_tracking(&self) -> (r: bool)
        ensures
            r == self.held() is Some,
    {
        self.handle.is_some()
    }

    /// Hands the handle held out for a status check, leaving the slot
    /// empty until `is_dreamseeker_running` settles it.
    pub fn take_handle(&mut self) -> (r: Option<H>)
        ensures
            r == old(self).held(),
            final(self).held() is None,
    {
        self.handle.take()
    }

    /// Tracks `handle`, dropping whatever was held before.
    pub fn track(&mut self, handle: H) -> (r: ())
        ensures
            final(self).held() == Some(handle),
    {
        self.handle = Some(handle);
    }
}

pub open spec fn launcher_relative_path() -> Seq<char> {
    "bin\\dreamseeker.exe"@
}

/// Where the client executable lies under an installation directory.
pub fn dreamseeker_path(byond_path: &str) -> (r: String)
    ensures
        r@ == join_path(byond_path@, launcher_relative_path()),
{
    join_path_text(byond_path, "bin\\dreamseeker.exe")
}

/// Settles a launch of the client under `byond_path`, connecting to
/// `server_address`. A started process becomes the one held; on failure
/// the handle held is left as it was.
pub fn launch_dreamseeker<H>(
    tracker: &mut ManagedProcess<H>,
    byond_path: &str,
    server_address: &str,
    spawn: SpawnOutcome<H>,
) -> (r: Result<String, String>)
    ensures
        match spawn {
            SpawnOutcome::Missing => r matches Err(m) && m@ == "DreamSeeker executable not found at "@
                + join_path(byond_path@, launcher_relative_path()) && final(tracker).held()
                == old(tracker).held(),
            SpawnOutcome::Failed(e) => r matches Err(m) && m@ == "Failed to launch DreamSeeker: "@
                + e@ && final(tracker).held() == old(tracker).held(),
            SpawnOutcome::Spawned(h) => r matches Ok(m) && m@ == "Started DreamSeeker for "@
                + server_address@ && final(tracker).held() == Some(h),
        },
{
    match spawn {
        SpawnOutcome::Missing => Err(
            String::from_str("DreamSeeker executable not found at ").concat(
                dreamseeker_path(byond_path).as_str(),
            ),
        ),
        SpawnOutcome::Failed(e) => Err(
            String::from_str("Failed to launch DreamSeeker: ").concat(e.as_str()),
        ),
        SpawnOutcome::Spawned(h) => {
            tracker.track(h);
            Ok(String::from_str("Started DreamSeeker for ").concat(server_address))
        },
    }
}

/// Whether a status check says the process runs.
pub open spec fn poll_says_running<H>(polled: Option<(H, PollStatus)>) -> bool {
    polled matches Some((_, PollStatus::Running))
}

/// The handle still held once a status check reported: the checked one if
/// its process runs, else none.
pub open spec fn kept_after_poll<H>(polled: Option<(H, PollStatus)>) -> Option<H> {
    match polled {
        Some((h, PollStatus::Running)) => Some(h),
        _ => None,
    }
}

/// Settles the handle-based liveness query. `polled` is the handle that
/// `take_handle` gave out, with what its status check reported, or `None`
/// when nothing was held. Only a process that still runs stays held; an
/// ended one, or one whose check failed, is dropped.
pub fn is_dreamseeker_running<H>(tracker: &mut ManagedProcess<H>, polled: Option<(H, PollStatus)>) -> (r:
    bool)
    ensures
        r == poll_says_running(polled),
        final(tracker).held() == kept_after_poll(polled),
{
    match polled {
        Some((h, PollStatus::Running)) => {
            tracker.track(h);
            true
        },
        _ => {
            tracker.handle = None;
            false
        },
    }
}

/// Once the process behind the handle held has ended (or its check fails),
/// the query says it does not run and leaves nothing held; asked again, with
/// nothing held, it still says so and still holds nothing.
pub proof fn lemma_ended_process_forgotten<H>(h: H, status: PollStatus)
    requires
        status != PollStatus::Running,
    ensures
        !poll_says_running(Some((h, status))),
        kept_after_poll(Some((h, status))) is None,
        !poll_says_running(None::<(H, PollStatus)>),
        kept_after_poll(None::<(H, PollStatus)>) is None,
{
}

pub open spec fn client_process_name() -> Seq<char> {
    "dreamseeker.exe"@
}

/// `c` lowers, in ASCII, to `t`.
pub open spec fn lowers_to(c: char, t: char) -> bool {
    c == t || ('A' <= c && c <= 'Z' && (c as u32) + 32 == (t as u32))
}

/// `name` equals the lower-case `target` once ASCII capitals are lowered.
pub open spec fn name_matches(name: Seq<char>, target: Seq<char>) -> bool {
    name.len() == target.len() && forall|i: int| 0 <= i < name.len() ==> lowers_to(name[i], target[i])
}

fn name_matches_exec(name: &str, target: &Vec<char>) -> (r: bool)
    ensures
        r == name_matches(name@, target@),
{
    let n = name.unicode_len();
    if n != target.len() {
        return false;
    }
    let mut i: usize = 0;
    while i < n
        invariant
            n == name@.len(),
            n == target@.len(),
            i <= n,
            forall|j: int| 0 <= j < i ==> lowers_to(name@[j], target@[j]),
        decreases n - i,
    {
        let c = name.get_char(i);
        let t = target[i];
        let ok = c == t || ('A' <= c && c <= 'Z' && (c as u32) + 32 == (t as u32));
        if !ok {
            return false;
        }
        i = i + 1;
    }
    true
}

/// Whether any of the running processes' executable names is the client's,
/// compared without regard to ASCII case.
pub fn find_dreamseeker_process(process_names: &Vec<String>) -> (r: bool)
    ensures
        r == exists|i: int|
            0 <= i < process_names@.len() && name_matches(
                #[trigger] process_names@[i]@,
                client_process_name(),
            ),
{
    let target: Vec<char> = vec![
        'd', 'r', 'e', 'a', 'm', 's', 'e', 'e', 'k', 'e', 'r', '.', 'e', 'x', 'e'
    ];
    proof {
        reveal_strlit("dreamseeker.exe");
    }
    assert(target@ =~= client_process_name());
    let mut i: usize = 0;
    while i < process_names.len()
        invariant
            target@ == client_process_name(),
            i <= process_names@.len(),
            forall|j: int|
                0 <= j < i ==> !name_matches(#[trigger] process_names@[j]@, client_process_name()),
        decreases process_names@.len() - i,
    {
        if name_matches_exec(process_names[i].as_str(), &target) {
            return true;
        }
        i = i + 1;
    }
    false
}

} // verus!
