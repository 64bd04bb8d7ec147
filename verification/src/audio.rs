//! The sound-effect dispatch service.
//!
//! A fixed pool of playback workers, each with a private first-in first-out
//! queue and a busy flag, is fed by one dispatcher. A play request goes to the
//! lowest-indexed idle worker, or is dropped when every worker is busy; a stop
//! request is queued on every worker. The decisions live here as plain
//! functions on plain values; the threads, the channels and the sound device
//! belong to the program that drives them.

use vstd::prelude::*;

verus! {

/// Default number of playback workers.
pub const AUDIO_THREAD_COUNT: u32 = 4;

/// A playback command as a mathematical value.
pub enum Command {
    /// Play the file at this path.
    Play(Seq<char>),
    /// Invoke the sink's stop primitive.
    StopAll,
}

/// A playback command: play the file at a path, or stop.
pub struct AudioChannel {
    file: String,
    stop: bool,
}

impl AudioChannel {
    /// The command that this value stands for.
    pub closed spec fn view(&self) -> Command {
        if self.stop {
            Command::StopAll
        } else {
            Command::Play(self.file@)
        }
    }

    /// The command to play the file at `path`.
    pub fn play(path: String) -> (c: Self)
        ensures
            c@ == Command::Play(path@),
    {
        AudioChannel { file: path, stop: false }
    }

    /// The command to stop.
    pub fn stop_all() -> (c: Self)
        ensures
            c@ == Command::StopAll,
    {
        AudioChannel { file: String::new(), stop: true }
    }

    /// Whether this is the stop command.
    pub fn is_stop(&self) -> (b: bool)
        ensures
            b == (self@ == Command::StopAll),
    {
        self.stop
    }

    /// What a worker does on taking this command from its queue.
    pub fn action(&self) -> (a: WorkerAction)
        ensures
            a@ == self@,
    {
        if self.stop {
            WorkerAction::Stop
        } else {
            WorkerAction::Play(self.file.clone())
        }
    }

}

/// What a worker is to do with its sink.
#[derive(Debug, PartialEq, Eq)]
pub enum WorkerAction {
    /// Invoke the sink's stop primitive.
    Stop,
    /// Decode the file at this path and play it to completion.
    Play(String),
}

impl WorkerAction {
    /// The command that asked for this action.
    pub open spec fn view(&self) -> Command {
        match self {
            WorkerAction::Stop => Command::StopAll,
            WorkerAction::Play(path) => Command::Play(path@),
        }
    }
}

/// How a blocking decode-and-play call ended.
#[derive(PartialEq, Eq, Clone, Copy, Debug, Structural)]
pub enum Playback {
    /// The clip played to its end.
    Completed,
    /// The file could not be opened or decoded; the clip was skipped.
    DecodeFailure,
}

/// Where the dispatcher sends a command.
#[derive(PartialEq, Eq, Clone, Copy, Debug, Structural)]
pub enum Routing {
    /// No worker is idle: the request is discarded.
    Dropped,
    /// To the private queue of the worker with this index.
    Worker(usize),
    /// To the private queue of every worker.
    Broadcast,
}

/// `i` is the lowest index whose flag reads idle.
pub open spec fn is_first_idle(busy: Seq<bool>, i: int) -> bool {
    &&& 0 <= i < busy.len()
    &&& !busy[i]
    &&& forall|j: int| 0 <= j < i ==> busy[j]
}

/// Every flag reads busy.
pub open spec fn all_busy(busy: Seq<bool>) -> bool {
    forall|j: int| 0 <= j < busy.len() ==> busy[j]
}

/// The lowest index whose flag reads idle, if there is one.
pub open spec fn first_idle(busy: Seq<bool>) -> Option<int> {
    if exists|i: int| is_first_idle(busy, i) {
        Some(choose|i: int| is_first_idle(busy, i))
    } else {
        None
    }
}

/// Where the dispatcher sends `cmd` when the workers' flags read `busy`.
pub open spec fn spec_route(busy: Seq<bool>, cmd: Command) -> Routing {
    match cmd {
        Command::StopAll => Routing::Broadcast,
        Command::Play(_) => match first_idle(busy) {
            Some(i) => Routing::Worker(i as usize),
            None => Routing::Dropped,
        },
    }
}

/// At most one index is the lowest idle one, and `first_idle` names it.
pub proof fn lemma_first_idle_unique(busy: Seq<bool>, i: int)
    requires
        is_first_idle(busy, i),
    ensures
        first_idle(busy) == Some(i),
        !all_busy(busy),
{
    let k = choose|k: int| is_first_idle(busy, k);
    if k < i {
        assert(busy[k]);
    } else if i < k {
        assert(busy[i]);
    }
}

/// With every flag busy there is no idle index, and the other way round.
pub proof fn lemma_first_idle_none(busy: Seq<bool>)
    ensures
        first_idle(busy) is None <==> all_busy(busy),
{
    if all_busy(busy) {
        if exists|i: int| is_first_idle(busy, i) {
            let k = choose|k: int| is_first_idle(busy, k);
            assert(busy[k]);
        }
    } else {
        let j = choose|j: int| 0 <= j < busy.len() && !busy[j];
        lemma_idle_below(busy, j);
    }
}

proof fn lemma_idle_below(busy: Seq<bool>, j: int)
    requires
        0 <= j < busy.len(),
        !busy[j],
    ensures
        exists|i: int| is_first_idle(busy, i),
    decreases j,
{
    if forall|k: int| 0 <= k < j ==> busy[k] {
        assert(is_first_idle(busy, j));
    } else {
        let k = choose|k: int| 0 <= k < j && !busy[k];
        lemma_idle_below(busy, k);
    }
}

/// Scans the flags in index order and returns the first index that reads
/// idle, or nothing when every worker is busy.
pub fn get_ready_thread(busy: &Vec<bool>) -> (r: Option<usize>)
    ensures
        match r {
            Some(i) => is_first_idle(busy@, i as int),
            None => all_busy(busy@),
        },
        r matches Some(i) ==> first_idle(busy@) == Some(i as int),
        r is None <==> first_idle(busy@) is None,
{
    let mut i: usize = 0;
    while i < busy.len()
        invariant
            i <= busy.len(),
            forall|j: int| 0 <= j < i ==> busy@[j],
        decreases busy.len() - i,
    {
        if !busy[i] {
            proof {
                lemma_first_idle_unique(busy@, i as int);
            }
            return Some(i);
        }
        i += 1;
    }
    proof {
        lemma_first_idle_none(busy@);
    }
    None
}

/// The dispatcher's decision for one command: a stop goes to every worker, a
/// play to the lowest-indexed idle worker, and is dropped when there is none.
pub fn route(busy: &Vec<bool>, cmd: &AudioChannel) -> (r: Routing)
    ensures
        r == spec_route(busy@, cmd@),
        match r {
            Routing::Broadcast => cmd@ == Command::StopAll,
            Routing::Worker(i) => cmd@ != Command::StopAll && is_first_idle(busy@, i as int),
            Routing::Dropped => cmd@ != Command::StopAll && all_busy(busy@),
        },
{
    if cmd.is_stop() {
        Routing::Broadcast
    } else {
        match get_ready_thread(busy) {
            Some(i) => Routing::Worker(i),
            None => Routing::Dropped,
        }
    }
}

} // verus!
