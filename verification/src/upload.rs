//! The transfer engine: one attempt to bring the local archive to the remote
//! host. The engine performs no I/O. It names the next outside action, takes
//! the result of that action as an event, and moves on; the caller runs the
//! loop.

use vstd::prelude::*;
use crate::digest::Digest;
use crate::error::ErrorKind;
use crate::error::TransferOutcome;

verus! {

/// The largest number of bytes that the engine asks for in one read.
pub const CHUNK_SIZE: usize = 8192;

/// The permission bits of a remote directory that the engine has created.
pub const REMOTE_DIR_MODE: u32 = 0o755;

/// The permission bits of a remote file that the engine has created.
pub const REMOTE_FILE_MODE: u32 = 0o644;

/// What a query of the remote destination found.
#[derive(Debug, Clone, Copy, PartialEq, Eq, Structural)]
pub struct RemoteFileState {
    pub exists: bool,
    pub size: u64,
}

/// How the remote destination is opened.
#[derive(Debug, Clone, Copy, PartialEq, Eq, Structural)]
pub enum OpenMode {
    /// Create the file if needed and drop what it held.
    Truncate,
    /// Keep what the file holds and write behind it.
    Append,
}

/// What an attempt does with the remote destination.
#[derive(Debug, Clone, Copy, PartialEq, Eq, Structural)]
pub enum TransferDecision {
    /// The remote content is identical: nothing is sent.
    Skip,
    /// The remote file is a shorter copy: send what follows the given offset.
    Resume(u64),
    /// The remote file is absent or differs: send everything.
    Overwrite,
}

impl TransferDecision {
    /// The offset in the local file at which streaming starts.
    pub open spec fn spec_offset(&self) -> u64 {
        match *self {
            TransferDecision::Resume(offset) => offset,
            _ => 0,
        }
    }

    #[verifier::when_used_as_spec(spec_offset)]
    pub fn offset(&self) -> (offset: u64)
        ensures
            offset == self.spec_offset(),
    {
        match self {
            TransferDecision::Resume(offset) => *offset,
            _ => 0,
        }
    }

    /// The mode in which the remote destination is opened.
    pub open spec fn spec_open_mode(&self) -> OpenMode {
        match *self {
            TransferDecision::Resume(_) => OpenMode::Append,
            _ => OpenMode::Truncate,
        }
    }

    #[verifier::when_used_as_spec(spec_open_mode)]
    pub fn open_mode(&self) -> (mode: OpenMode)
        ensures
            mode == self.spec_open_mode(),
    {
        match self {
            TransferDecision::Resume(_) => OpenMode::Append,
            _ => OpenMode::Truncate,
        }
    }
}

/// Whether the two sides have to be compared by digest before deciding.
pub open spec fn spec_needs_digests(local_size: u64, remote: RemoteFileState) -> bool {
    remote.exists && remote.size == local_size
}

#[verifier::when_used_as_spec(spec_needs_digests)]
pub fn needs_digests(local_size: u64, remote: RemoteFileState) -> (needed: bool)
    ensures
        needed == spec_needs_digests(local_size, remote),
{
    remote.exists && remote.size == local_size
}

/// The decision for a local size, a remote state and the result of the
/// digest comparison. `same_content` is true only where both digests were
/// computed and are equal.
pub open spec fn decision_for(
    local_size: u64,
    remote: RemoteFileState,
    same_content: bool,
) -> TransferDecision {
    if !remote.exists {
        TransferDecision::Overwrite
    } else if remote.size == local_size {
        if same_content {
            TransferDecision::Skip
        } else {
            TransferDecision::Overwrite
        }
    } else if 0 < remote.size && remote.size < local_size {
        TransferDecision::Resume(remote.size)
    } else {
        TransferDecision::Overwrite
    }
}

pub fn decide(local_size: u64, remote: RemoteFileState, same_content: bool) -> (decision:
    TransferDecision)
    ensures
        decision == decision_for(local_size, remote, same_content),
{
    if !remote.exists {
        TransferDecision::Overwrite
    } else if remote.size == local_size {
        if same_content {
            TransferDecision::Skip
        } else {
            TransferDecision::Overwrite
        }
    } else if 0 < remote.size && remote.size < local_size {
        TransferDecision::Resume(remote.size)
    } else {
        TransferDecision::Overwrite
    }
}

/// Whether both digests were computed and are equal.
pub open spec fn digests_agree(remote: Option<Digest>, local: Option<Digest>) -> bool {
    remote is Some && local is Some && remote->0@ == local->0@
}

/// Whether one of the digests could not be computed.
pub open spec fn digest_missing(event: Event) -> bool {
    match event {
        Event::Digests(remote, local) => remote is None || local is None,
        _ => true,
    }
}

/// The outside action that the engine waits for.
#[derive(Debug, Clone, Copy, PartialEq, Eq, Structural)]
pub enum Action {
    /// Open the transport connection to the host and port.
    Connect,
    /// Authenticate with the credentials.
    Authenticate,
    /// Query the parent directory of the remote destination.
    StatParent,
    /// Create the parent directory with the given permission bits.
    CreateParent(u32),
    /// Query the remote destination.
    StatRemote,
    /// Query the size of the local archive.
    StatLocal,
    /// Compute the digest of the remote file, then that of the local file.
    ComputeDigests,
    /// Open the remote destination in the given mode.
    OpenRemote(OpenMode),
    /// Move the read position of the local archive to the given offset.
    SeekLocal(u64),
    /// Read at most the given number of bytes from the local archive.
    ReadChunk(usize),
    /// Write the bytes just read, of the given number, to the remote file.
    WriteChunk(usize),
    /// Tell the progress observer how many bytes of the archive are remote now.
    Report(u64),
    /// Close the session: the attempt is over.
    Finish(TransferOutcome),
}

/// The result of the outside action that the engine waited for.
#[derive(Debug)]
pub enum Event {
    /// The action succeeded and has nothing to report.
    Done,
    /// The action failed.
    Failed,
    /// The queried path does not exist.
    Absent,
    /// The queried path exists and has the given size.
    Found(u64),
    /// The digests of the remote and of the local file, each where it could be computed.
    Digests(Option<Digest>, Option<Digest>),
    /// The number of bytes that the read returned; zero at the end of the file.
    Chunk(usize),
}

/// The stage of an attempt.
#[derive(Debug, Clone, Copy, PartialEq, Eq, Structural)]
pub enum Phase {
    Connecting,
    Authenticating,
    CheckingParent,
    CreatingParent,
    InspectingRemote,
    InspectingLocal,
    ComparingDigests,
    Opening,
    Seeking,
    Reading,
    /// A chunk of the given length was read and is to be written.
    Writing(usize),
    Reporting,
    Finished(TransferOutcome),
}

/// Everything the engine knows at one point of an attempt.
#[derive(Debug, Clone, Copy, PartialEq, Eq, Structural)]
pub struct EngineState {
    pub phase: Phase,
    /// What the query of the remote destination found.
    pub remote: RemoteFileState,
    /// The size of the local archive.
    pub local_size: u64,
    /// The decision, once it is made.
    pub decision: Option<TransferDecision>,
    /// How many bytes of the archive the remote file holds.
    pub position: u64,
    /// How many bytes this attempt has written.
    pub written: u64,
    /// How many write operations this attempt has completed.
    pub writes: u64,
    /// A failure that the attempt has met and survived: a digest that could
    /// not be computed.
    pub warning: Option<ErrorKind>,
}

impl EngineState {
    /// The state in which every attempt starts.
    pub open spec fn initial() -> EngineState {
        EngineState {
            phase: Phase::Connecting,
            remote: RemoteFileState { exists: false, size: 0 },
            local_size: 0,
            decision: None,
            position: 0,
            written: 0,
            writes: 0,
            warning: None,
        }
    }

    /// Whether the attempt is over.
    pub open spec fn is_finished(self) -> bool {
        self.phase is Finished
    }

    /// What holds of every state that an attempt can reach.
    pub open spec fn wf(self) -> bool {
        &&& self.writes <= self.written
        &&& self.written == 0 ==> self.writes == 0
        &&& self.written <= self.position
        &&& match self.warning {
            None => true,
            Some(kind) => kind == ErrorKind::Hash && self.decision == Some(
                TransferDecision::Overwrite,
            ) && spec_needs_digests(self.local_size, self.remote),
        }
        &&& match self.decision {
            None => {
                &&& self.position == 0
                &&& self.written == 0
                &&& match self.phase {
                    Phase::Connecting | Phase::Authenticating | Phase::CheckingParent
                    | Phase::CreatingParent | Phase::InspectingRemote => !self.remote.exists
                        && self.remote.size == 0 && self.local_size == 0,
                    Phase::InspectingLocal => self.local_size == 0,
                    Phase::ComparingDigests => spec_needs_digests(self.local_size, self.remote),
                    Phase::Finished(outcome) => !outcome.spec_is_success(),
                    _ => false,
                }
            },
            Some(TransferDecision::Skip) => {
                &&& self.phase == Phase::Finished(TransferOutcome::Success)
                &&& spec_needs_digests(self.local_size, self.remote)
                &&& self.position == 0
                &&& self.written == 0
            },
            Some(TransferDecision::Resume(offset)) => {
                &&& self.streaming()
                &&& self.remote.exists
                &&& offset == self.remote.size
                &&& 0 < offset < self.local_size
                &&& self.position == offset + self.written
            },
            Some(TransferDecision::Overwrite) => {
                &&& self.streaming()
                &&& self.position == self.written
            },
        }
        &&& match self.phase {
            Phase::Opening | Phase::Seeking => self.written == 0,
            Phase::Writing(len) => 0 < len <= CHUNK_SIZE && self.position + len <= u64::MAX,
            Phase::Finished(TransferOutcome::Failed(kind, attempts)) => attempts == 1
                && kind.is_transfer_kind(),
            _ => true,
        }
    }

    /// Whether the state belongs to the part of an attempt that moves bytes.
    pub open spec fn streaming(self) -> bool {
        match self.phase {
            Phase::Opening | Phase::Seeking | Phase::Reading | Phase::Writing(_)
            | Phase::Reporting | Phase::Finished(_) => true,
            _ => false,
        }
    }

    /// The state with another phase.
    pub open spec fn at(self, phase: Phase) -> EngineState {
        EngineState { phase, ..self }
    }

    /// The state in which the attempt has failed.
    pub open spec fn failed(self, kind: ErrorKind) -> EngineState {
        self.at(Phase::Finished(TransferOutcome::Failed(kind, 1)))
    }

    /// The state with a failure recorded that the attempt survives.
    pub open spec fn warned(self, kind: ErrorKind) -> EngineState {
        EngineState { warning: Some(kind), ..self }
    }

    /// The state after the decision is made.
    pub open spec fn settled(self, decision: TransferDecision) -> EngineState {
        match decision {
            TransferDecision::Skip => EngineState {
                phase: Phase::Finished(TransferOutcome::Success),
                decision: Some(decision),
                ..self
            },
            _ => EngineState {
                phase: Phase::Opening,
                decision: Some(decision),
                position: decision.spec_offset(),
                ..self
            },
        }
    }

    /// The state after the local size is known.
    pub open spec fn sized(self, local_size: u64) -> EngineState {
        let known = EngineState { local_size, ..self };
        if spec_needs_digests(local_size, self.remote) {
            known.at(Phase::ComparingDigests)
        } else {
            known.settled(decision_for(local_size, self.remote, false))
        }
    }

    /// The state after a chunk was written.
    pub open spec fn advanced(self, len: usize) -> EngineState {
        EngineState {
            phase: Phase::Reporting,
            position: (self.position + len) as u64,
            written: (self.written + len) as u64,
            writes: (self.writes + 1) as u64,
            ..self
        }
    }

    /// The state that follows when the awaited action has ended with `event`.
    /// An event that the awaited action cannot end with counts as its
    /// failure. Two actions cannot fail the attempt: where a digest is
    /// missing the remote file is overwritten, and whatever the progress
    /// observer answers, reading goes on.
    pub open spec fn next(self, event: Event) -> EngineState {
        match self.phase {
            Phase::Connecting => match event {
                Event::Done => self.at(Phase::Authenticating),
                _ => self.failed(ErrorKind::Connect),
            },
            Phase::Authenticating => match event {
                Event::Done => self.at(Phase::CheckingParent),
                _ => self.failed(ErrorKind::Auth),
            },
            Phase::CheckingParent => match event {
                Event::Found(_) => self.at(Phase::InspectingRemote),
                Event::Absent => self.at(Phase::CreatingParent),
                _ => self.failed(ErrorKind::RemoteFs),
            },
            Phase::CreatingParent => match event {
                Event::Done => self.at(Phase::InspectingRemote),
                _ => self.failed(ErrorKind::RemoteFs),
            },
            Phase::InspectingRemote => match event {
                Event::Found(size) => EngineState {
                    phase: Phase::InspectingLocal,
                    remote: RemoteFileState { exists: true, size },
                    ..self
                },
                Event::Absent => self.at(Phase::InspectingLocal),
                _ => self.failed(ErrorKind::RemoteFs),
            },
            Phase::InspectingLocal => match event {
                Event::Found(size) => self.sized(size),
                _ => self.failed(ErrorKind::TransferIo),
            },
            Phase::ComparingDigests => match event {
                Event::Digests(Some(remote), Some(local)) => self.settled(
                    decision_for(self.local_size, self.remote, remote@ == local@),
                ),
                _ => self.warned(ErrorKind::Hash).settled(
                    decision_for(self.local_size, self.remote, false),
                ),
            },
            Phase::Opening => match event {
                Event::Done => self.at(Phase::Seeking),
                _ => self.failed(ErrorKind::RemoteFs),
            },
            Phase::Seeking => match event {
                Event::Done => self.at(Phase::Reading),
                _ => self.failed(ErrorKind::TransferIo),
            },
            Phase::Reading => match event {
                Event::Chunk(len) => if len == 0 {
                    self.at(Phase::Finished(TransferOutcome::Success))
                } else if len <= CHUNK_SIZE && self.position + len <= u64::MAX {
                    self.at(Phase::Writing(len))
                } else {
                    self.failed(ErrorKind::TransferIo)
                },
                _ => self.failed(ErrorKind::TransferIo),
            },
            Phase::Writing(len) => match event {
                Event::Done => self.advanced(len),
                _ => self.failed(ErrorKind::TransferIo),
            },
            Phase::Reporting => self.at(Phase::Reading),
            Phase::Finished(_) => self,
        }
    }

    /// The action that the state waits for.
    pub open spec fn pending(self) -> Action {
        match self.phase {
            Phase::Connecting => Action::Connect,
            Phase::Authenticating => Action::Authenticate,
            Phase::CheckingParent => Action::StatParent,
            Phase::CreatingParent => Action::CreateParent(REMOTE_DIR_MODE),
            Phase::InspectingRemote => Action::StatRemote,
            Phase::InspectingLocal => Action::StatLocal,
            Phase::ComparingDigests => Action::ComputeDigests,
            Phase::Opening => Action::OpenRemote(
                match self.decision {
                    Some(decision) => decision.spec_open_mode(),
                    None => OpenMode::Truncate,
                },
            ),
            Phase::Seeking => Action::SeekLocal(self.position),
            Phase::Reading => Action::ReadChunk(CHUNK_SIZE),
            Phase::Writing(len) => Action::WriteChunk(len),
            Phase::Reporting => Action::Report(self.position),
            Phase::Finished(outcome) => Action::Finish(outcome),
        }
    }

    /// The state after a sequence of events, the first of them first.
    pub open spec fn run(self, events: Seq<Event>) -> EngineState
        decreases events.len(),
    {
        if events.len() == 0 {
            self
        } else {
            self.next(events[0]).run(events.drop_first())
        }
    }
}

/// One attempt to transfer the archive.
#[derive(Debug)]
pub struct TransferEngine {
    state: EngineState,
}

impl View for TransferEngine {
    type V = EngineState;

    closed spec fn view(&self) -> EngineState {
        self.state
    }
}

impl TransferEngine {
    #[verifier::type_invariant]
    spec fn reachable(self) -> bool {
        self.state.wf()
    }

    /// An engine at the start of an attempt: it waits for the connection.
    pub fn new() -> (engine: TransferEngine)
        ensures
            engine@ == EngineState::initial(),
            engine@.wf(),
    {
        TransferEngine {
            state: EngineState {
                phase: Phase::Connecting,
                remote: RemoteFileState { exists: false, size: 0 },
                local_size: 0,
                decision: None,
                position: 0,
                written: 0,
                writes: 0,
                warning: None,
            },
        }
    }

    /// The state of the attempt.
    pub fn state(&self) -> (state: EngineState)
        ensures
            state == self@,
            state.wf(),
    {
        proof {
            use_type_invariant(self);
        }
        self.state
    }

    /// The action that the engine waits for.
    pub fn pending(&self) -> (action: Action)
        ensures
            action == self@.pending(),
    {
        match self.state.phase {
            Phase::Connecting => Action::Connect,
            Phase::Authenticating => Action::Authenticate,
            Phase::CheckingParent => Action::StatParent,
            Phase::CreatingParent => Action::CreateParent(REMOTE_DIR_MODE),
            Phase::InspectingRemote => Action::StatRemote,
            Phase::InspectingLocal => Action::StatLocal,
            Phase::ComparingDigests => Action::ComputeDigests,
            Phase::Opening => Action::OpenRemote(
                match self.state.decision {
                    Some(decision) => decision.open_mode(),
                    None => OpenMode::Truncate,
                },
            ),
            Phase::Seeking => Action::SeekLocal(self.state.position),
            Phase::Reading => Action::ReadChunk(CHUNK_SIZE),
            Phase::Writing(len) => Action::WriteChunk(len),
            Phase::Reporting => Action::Report(self.state.position),
            Phase::Finished(outcome) => Action::Finish(outcome),
        }
    }

    /// The outcome of the attempt, once it is over.
    pub fn outcome(&self) -> (outcome: Option<TransferOutcome>)
        ensures
            outcome == match self@.phase {
                Phase::Finished(o) => Some(o),
                _ => None,
            },
    {
        match self.state.phase {
            Phase::Finished(o) => Some(o),
            _ => None,
        }
    }

    /// How many bytes of the archive the remote file holds by now.
    pub fn bytes_transferred(&self) -> (position: u64)
        ensures
            position == self@.position,
    {
        self.state.position
    }

    /// Takes the result of the awaited action and returns the action that the
    /// engine waits for next.
    pub fn step(&mut self, event: Event) -> (action: Action)
        ensures
            final(self)@ == old(self)@.next(event),
            final(self)@.wf(),
            action == final(self)@.pending(),
            final(self)@.position >= old(self)@.position,
    {
        proof {
            use_type_invariant(&*self);
            lemma_next_keeps_wf(self.state, event);
        }
        let s: EngineState = self.state;
        let next: EngineState = match s.phase {
            Phase::Connecting => match event {
                Event::Done => EngineState { phase: Phase::Authenticating, ..s },
                _ => failed(s, ErrorKind::Connect),
            },
            Phase::Authenticating => match event {
                Event::Done => EngineState { phase: Phase::CheckingParent, ..s },
                _ => failed(s, ErrorKind::Auth),
            },
            Phase::CheckingParent => match event {
                Event::Found(_) => EngineState { phase: Phase::InspectingRemote, ..s },
                Event::Absent => EngineState { phase: Phase::CreatingParent, ..s },
                _ => failed(s, ErrorKind::RemoteFs),
            },
            Phase::CreatingParent => match event {
                Event::Done => EngineState { phase: Phase::InspectingRemote, ..s },
                _ => failed(s, ErrorKind::RemoteFs),
            },
            Phase::InspectingRemote => match event {
                Event::Found(size) => EngineState {
                    phase: Phase::InspectingLocal,
                    remote: RemoteFileState { exists: true, size },
                    ..s
                },
                Event::Absent => EngineState { phase: Phase::InspectingLocal, ..s },
                _ => failed(s, ErrorKind::RemoteFs),
            },
            Phase::InspectingLocal => match event {
                Event::Found(size) => {
                    let known = EngineState { local_size: size, ..s };
                    if needs_digests(size, s.remote) {
                        EngineState { phase: Phase::ComparingDigests, ..known }
                    } else {
                        settled(known, decide(size, s.remote, false))
                    }
                },
                _ => failed(s, ErrorKind::TransferIo),
            },
            Phase::ComparingDigests => match event {
                Event::Digests(Some(remote), Some(local)) => {
                    let agree = remote.same(&local);
                    settled(s, decide(s.local_size, s.remote, agree))
                },
                _ => {
                    let warned = EngineState { warning: Some(ErrorKind::Hash), ..s };
                    settled(warned, decide(s.local_size, s.remote, false))
                },
            },
            Phase::Opening => match event {
                Event::Done => EngineState { phase: Phase::Seeking, ..s },
                _ => failed(s, ErrorKind::RemoteFs),
            },
            Phase::Seeking => match event {
                Event::Done => EngineState { phase: Phase::Reading, ..s },
                _ => failed(s, ErrorKind::TransferIo),
            },
            Phase::Reading => match event {
                Event::Chunk(len) => if len == 0 {
                    EngineState { phase: Phase::Finished(TransferOutcome::Success), ..s }
                } else if len <= CHUNK_SIZE && len as u64 <= u64::MAX - s.position {
                    EngineState { phase: Phase::Writing(len), ..s }
                } else {
                    failed(s, ErrorKind::TransferIo)
                },
                _ => failed(s, ErrorKind::TransferIo),
            },
            Phase::Writing(len) => match event {
                Event::Done => EngineState {
                    phase: Phase::Reporting,
                    position: s.position + len as u64,
                    written: s.written + len as u64,
                    writes: s.writes + 1,
                    ..s
                },
                _ => failed(s, ErrorKind::TransferIo),
            },
            Phase::Reporting => EngineState { phase: Phase::Reading, ..s },
            Phase::Finished(_) => s,
        };
        self.state = next;
        self.pending()
    }
}

fn failed(s: EngineState, kind: ErrorKind) -> (next: EngineState)
    ensures
        next == s.failed(kind),
{
    EngineState { phase: Phase::Finished(TransferOutcome::Failed(kind, 1)), ..s }
}

fn settled(s: EngineState, decision: TransferDecision) -> (next: EngineState)
    ensures
        next == s.settled(decision),
{
    match decision {
        TransferDecision::Skip => EngineState {
            phase: Phase::Finished(TransferOutcome::Success),
            decision: Some(decision),
            ..s
        },
        _ => EngineState {
            phase: Phase::Opening,
            decision: Some(decision),
            position: decision.offset(),
            ..s
        },
    }
}

/// A step leads from a reachable state to a reachable state. It never lowers
/// the number of bytes that the remote file is known to hold, and it never
/// changes a decision that was made.
pub proof fn lemma_next_keeps_wf(s: EngineState, event: Event)
    requires
        s.wf(),
    ensures
        s.next(event).wf(),
        s.next(event).position >= s.position,
        s.next(event).written >= s.written,
        s.next(event).writes >= s.writes,
        s.decision is Some ==> s.next(event).decision == s.decision,
        s.next(event).remote == s.remote || s.phase == Phase::InspectingRemote,
        s.next(event).local_size == s.local_size || s.phase == Phase::InspectingLocal,
{
}

/// Whatever the outside actions report, an attempt stays among the reachable
/// states: progress values never decrease, and a decision, once made, stands
/// together with the sizes it was made from.
pub proof fn lemma_run_keeps_wf(s: EngineState, events: Seq<Event>)
    requires
        s.wf(),
    ensures
        s.run(events).wf(),
        s.run(events).position >= s.position,
        s.run(events).written >= s.written,
        s.run(events).writes >= s.writes,
        s.decision is Some ==> {
            &&& s.run(events).decision == s.decision
            &&& s.run(events).remote == s.remote
            &&& s.run(events).local_size == s.local_size
        },
    decreases events.len(),
{
    if events.len() > 0 {
        lemma_next_keeps_wf(s, events[0]);
        lemma_run_keeps_wf(s.next(events[0]), events.drop_first());
    }
}

/// Every state that an attempt reaches from its start is reachable in the
/// sense of `wf`. In particular an attempt fails only with a kind that
/// belongs to the transfer, counted as one attempt, and never because a
/// digest could not be computed.
pub proof fn lemma_attempt_is_wf(events: Seq<Event>)
    ensures
        EngineState::initial().run(events).wf(),
        forall|kind: ErrorKind, attempts: u32|
            EngineState::initial().run(events).phase == Phase::Finished(
                TransferOutcome::Failed(kind, attempts),
            ) ==> attempts == 1 && kind.is_transfer_kind() && kind != ErrorKind::Hash,
{
    lemma_run_keeps_wf(EngineState::initial(), events);
}

/// An attempt that has decided to skip has ended with success, and it has
/// completed no write and opened nothing for writing: both sides have the
/// same size, and no byte was counted as written.
pub proof fn lemma_skip_moves_nothing(events: Seq<Event>)
    requires
        EngineState::initial().run(events).decision == Some(TransferDecision::Skip),
    ensures
        ({
            let end = EngineState::initial().run(events);
            &&& end.phase == Phase::Finished(TransferOutcome::Success)
            &&& end.writes == 0
            &&& end.written == 0
            &&& end.remote.exists
            &&& end.remote.size == end.local_size
        }),
{
    lemma_run_keeps_wf(EngineState::initial(), events);
}

/// An attempt that has decided to resume found a remote file that is not
/// empty and shorter than the local archive. It counts the bytes that were
/// remote before as transferred, and the bytes it has written lie behind
/// them.
pub proof fn lemma_resume_starts_behind_the_remote_bytes(events: Seq<Event>, offset: u64)
    requires
        EngineState::initial().run(events).decision == Some(TransferDecision::Resume(offset)),
    ensures
        ({
            let end = EngineState::initial().run(events);
            &&& end.remote.exists
            &&& offset == end.remote.size
            &&& 0 < offset < end.local_size
            &&& end.position == offset + end.written
            &&& end.pending() != Action::OpenRemote(OpenMode::Truncate)
        }),
{
    lemma_run_keeps_wf(EngineState::initial(), events);
}

/// Once an attempt is over, no event changes it.
pub proof fn lemma_finished_is_final(s: EngineState, events: Seq<Event>)
    requires
        s.is_finished(),
    ensures
        s.run(events) == s,
    decreases events.len(),
{
    if events.len() > 0 {
        lemma_finished_is_final(s, events.drop_first());
    }
}

/// Where the remote file has the size of the local archive and both digests
/// are equal, the attempt asks for the digests, then ends with success at
/// once: it has completed no write, and whatever is reported later it never
/// completes one.
pub proof fn lemma_identical_content_is_skipped(
    s: EngineState,
    size: u64,
    remote_digest: Digest,
    local_digest: Digest,
    later: Seq<Event>,
)
    requires
        s.wf(),
        s.phase == Phase::InspectingLocal,
        s.remote == (RemoteFileState { exists: true, size }),
        remote_digest@ == local_digest@,
    ensures
        s.writes == 0,
        s.next(Event::Found(size)).pending() == Action::ComputeDigests,
        ({
            let end = s.next(Event::Found(size)).next(
                Event::Digests(Some(remote_digest), Some(local_digest)),
            );
            &&& end.decision == Some(TransferDecision::Skip)
            &&& end.pending() == Action::Finish(TransferOutcome::Success)
            &&& end.run(later) == end
            &&& end.writes == 0
            &&& end.written == 0
        }),
{
    let end = s.next(Event::Found(size)).next(
        Event::Digests(Some(remote_digest), Some(local_digest)),
    );
    lemma_finished_is_final(end, later);
}

/// Where the digests differ or one of them could not be computed, a remote
/// file of the same size is overwritten from the start: the attempt does not
/// fail on that account.
pub proof fn lemma_unconfirmed_content_is_overwritten(s: EngineState, event: Event)
    requires
        s.wf(),
        s.phase == Phase::ComparingDigests,
        !(event matches Event::Digests(r, l) && digests_agree(r, l)),
    ensures
        s.next(event).decision == Some(TransferDecision::Overwrite),
        s.next(event).pending() == Action::OpenRemote(OpenMode::Truncate),
        s.next(event).position == 0,
        s.next(event).warning == if digest_missing(event) {
            Some(ErrorKind::Hash)
        } else {
            None::<ErrorKind>
        },
{
}

/// Where the remote file exists, is not empty and is shorter than the local
/// archive, the attempt opens it for appending and starts reading behind
/// the bytes that are remote already. From then on the bytes it has written
/// are exactly those between that offset and the position it has reached,
/// so an attempt that reaches the end of the archive has written the
/// difference of the two sizes; and it never asks to truncate the file.
pub proof fn lemma_shorter_remote_is_resumed(s: EngineState, local_size: u64, later: Seq<Event>)
    requires
        s.wf(),
        s.phase == Phase::InspectingLocal,
        s.remote.exists,
        0 < s.remote.size < local_size,
    ensures
        ({
            let opened = s.next(Event::Found(local_size));
            let end = opened.run(later);
            &&& opened.decision == Some(TransferDecision::Resume(s.remote.size))
            &&& opened.pending() == Action::OpenRemote(OpenMode::Append)
            &&& opened.next(Event::Done).pending() == Action::SeekLocal(s.remote.size)
            &&& end.decision == opened.decision
            &&& end.position == s.remote.size + end.written
            &&& end.position == local_size ==> end.written == local_size - s.remote.size
            &&& end.pending() != Action::OpenRemote(OpenMode::Truncate)
        }),
{
    let opened = s.next(Event::Found(local_size));
    lemma_next_keeps_wf(s, Event::Found(local_size));
    lemma_run_keeps_wf(opened, later);
}

} // verus!
