//! One playback worker: its busy flag and its private queue.

use crate::audio::{AudioChannel, Command, Playback, WorkerAction};
use vstd::prelude::*;

verus! {

/// A playback worker as a mathematical value.
pub struct WorkerView {
    /// The path of the clip inside the blocking decode-and-play call, if the
    /// worker is busy.
    pub playing: Option<Seq<char>>,
    /// The commands sent to the worker and not yet taken, oldest first.
    pub pending: Seq<Command>,
    /// Whether the worker's queue still accepts commands.
    pub open: bool,
    /// Whether the worker has left its loop for good.
    pub exited: bool,
}

impl WorkerView {
    /// A worker in its initial state: idle, nothing queued, its queue open.
    pub open spec fn idle() -> WorkerView {
        WorkerView { playing: None, pending: Seq::empty(), open: true, exited: false }
    }

    /// A worker after shutdown: idle, nothing queued, its queue closed, gone.
    pub open spec fn at_rest() -> WorkerView {
        WorkerView { playing: None, pending: Seq::empty(), open: false, exited: true }
    }

    /// Whether the worker is inside a decode-and-play call.
    pub open spec fn busy(self) -> bool {
        self.playing is Some
    }

    /// The worker after `cmd` was sent to its queue. A closed queue takes
    /// nothing: the command is lost.
    pub open spec fn sent(self, cmd: Command) -> WorkerView {
        if self.open {
            WorkerView { pending: self.pending.push(cmd), ..self }
        } else {
            self
        }
    }

    /// The worker after its queue was closed. What waits in it stays.
    pub open spec fn closed(self) -> WorkerView {
        WorkerView { open: false, ..self }
    }

    /// Whether the worker can take a command: it is idle and one is waiting.
    pub open spec fn can_receive(self) -> bool {
        !self.busy() && !self.exited && self.pending.len() > 0
    }

    /// Whether the worker leaves its loop: it is idle, and its queue is
    /// closed and drained.
    pub open spec fn can_exit(self) -> bool {
        !self.busy() && !self.exited && !self.open && self.pending.len() == 0
    }

    /// The worker after one turn of its loop. It takes the oldest waiting
    /// command: a play makes it busy with that clip, a stop leaves it idle.
    /// With its queue closed and drained it exits. Busy, or with nothing to
    /// take from an open queue, it stays as it is.
    pub open spec fn received(self) -> WorkerView {
        if self.can_receive() {
            WorkerView {
                playing: match self.pending[0] {
                    Command::Play(path) => Some(path),
                    Command::StopAll => None,
                },
                pending: self.pending.drop_first(),
                ..self
            }
        } else if self.can_exit() {
            WorkerView { exited: true, ..self }
        } else {
            self
        }
    }

    /// The worker after its decode-and-play call returned.
    pub open spec fn finished(self) -> WorkerView {
        WorkerView { playing: None, ..self }
    }
}

/// A playback worker: idle or busy with one clip, and the commands that wait
/// in its private queue.
pub struct AudioThread {
    is_playing: bool,
    clip: String,
    queue: Vec<AudioChannel>,
    open: bool,
    exited: bool,
}

impl AudioThread {
    /// The worker as a mathematical value.
    pub closed spec fn view(&self) -> WorkerView {
        WorkerView {
            playing: if self.is_playing {
                Some(self.clip@)
            } else {
                None
            },
            pending: Seq::new(self.queue.len() as nat, |i: int| self.queue[i]@),
            open: self.open,
            exited: self.exited,
        }
    }

    /// A worker in its initial state: idle, with an empty, open queue.
    pub fn new() -> (w: Self)
        ensures
            w@ == WorkerView::idle(),
    {
        let w = AudioThread {
            is_playing: false,
            clip: String::new(),
            queue: Vec::new(),
            open: true,
            exited: false,
        };
        assert(w@.pending =~= Seq::empty());
        w
    }

    /// Reads the busy flag.
    pub fn is_playing(&self) -> (b: bool)
        ensures
            b == self@.busy(),
    {
        self.is_playing
    }

    /// Whether the worker has left its loop.
    pub fn has_exited(&self) -> (b: bool)
        ensures
            b == self@.exited,
    {
        self.exited
    }

    /// Number of commands waiting in the queue.
    pub fn pending(&self) -> (n: usize)
        ensures
            n == self@.pending.len(),
    {
        self.queue.len()
    }

    /// Appends `cmd` to the worker's queue, unless the queue is closed. The
    /// flag is not touched, whatever the worker is doing.
    pub fn send(&mut self, cmd: AudioChannel)
        ensures
            final(self)@ == old(self)@.sent(cmd@),
    {
        if self.open {
            self.queue.push(cmd);
            assert(self@.pending =~= old(self)@.pending.push(cmd@));
        }
    }

    /// Closes the worker's queue. Commands that wait in it are still taken.
    pub fn close_queue(&mut self)
        ensures
            final(self)@ == old(self)@.closed(),
    {
        self.open = false;
        assert(self@.pending =~= old(self)@.pending);
    }

    /// One turn of the worker's loop. Idle with a command waiting, the worker
    /// takes the oldest one and is told what to do with the sink; taking a
    /// play command raises the busy flag, which stays up until `finish`.
    /// Idle with its queue closed and drained, it exits. A busy worker takes
    /// nothing.
    pub fn receive(&mut self) -> (r: Option<WorkerAction>)
        ensures
            final(self)@ == old(self)@.received(),
            match r {
                Some(action) => old(self)@.can_receive() && action@ == old(self)@.pending[0],
                None => !old(self)@.can_receive(),
            },
    {
        if self.is_playing || self.exited {
            return None;
        }
        if self.queue.len() == 0 {
            if !self.open {
                self.exited = true;
                assert(self@.pending =~= old(self)@.pending);
            }
            return None;
        }
        let cmd = self.queue.remove(0);
        assert(self@.pending =~= old(self)@.pending.drop_first());
        assert(cmd@ == old(self)@.pending[0]);
        let action = cmd.action();
        match &action {
            WorkerAction::Play(path) => {
                self.clip = path.clone();
                self.is_playing = true;
            },
            WorkerAction::Stop => {},
        }
        Some(action)
    }

    /// Records that the decode-and-play call returned. However it ended, the
    /// worker is idle afterwards and its queue is as it was.
    pub fn finish(&mut self, outcome: Playback)
        ensures
            final(self)@ == old(self)@.finished(),
            !final(self)@.busy(),
    {
        self.is_playing = false;
        assert(self@.pending =~= old(self)@.pending);
    }
}

} // verus!
