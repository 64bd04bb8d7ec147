//! The audio service as one value: the registry, the dispatcher's inbound
//! queue and the pool of workers, advanced one step at a time.
//!
//! Each method is one atomic step of one party: the caller registers a clip
//! or enqueues a request, the dispatcher routes the oldest request, a worker
//! takes its next command or finishes a clip. Any interleaving of the real
//! service is a sequence of such steps.

use crate::audio::{
    all_busy, is_first_idle, lemma_first_idle_none, lemma_first_idle_unique, route, spec_route,
    AudioChannel, Command, Playback, Routing, WorkerAction,
};
use crate::registry::{AudioError, ClipRegistry};
use crate::worker::{AudioThread, WorkerView};
use vstd::prelude::*;

verus! {

/// The service as a mathematical value.
pub struct AudioView {
    /// Registered clips, name to path.
    pub files: Map<Seq<char>, Seq<char>>,
    /// Requests enqueued and not yet routed, oldest first.
    pub inbound: Seq<Command>,
    /// The workers, by index.
    pub workers: Seq<WorkerView>,
}

/// The busy flags of the workers, by index.
pub open spec fn busy_flags(workers: Seq<WorkerView>) -> Seq<bool> {
    Seq::new(workers.len(), |i: int| workers[i].busy())
}

/// How many workers are busy.
pub open spec fn busy_count(workers: Seq<WorkerView>) -> nat
    decreases workers.len(),
{
    if workers.len() == 0 {
        0
    } else {
        busy_count(workers.drop_last()) + if workers.last().busy() {
            1nat
        } else {
            0nat
        }
    }
}

/// The workers after the dispatcher routed `cmd`: a stop is queued on every
/// worker, a play on the lowest-indexed idle worker, and when none is idle
/// nothing changes.
pub open spec fn routed(workers: Seq<WorkerView>, cmd: Command) -> Seq<WorkerView> {
    match spec_route(busy_flags(workers), cmd) {
        Routing::Broadcast => Seq::new(workers.len(), |i: int| workers[i].sent(cmd)),
        Routing::Worker(i) => workers.update(i as int, workers[i as int].sent(cmd)),
        Routing::Dropped => workers,
    }
}

/// The audio service: clip registry, inbound queue and worker pool.
pub struct Audio {
    files: ClipRegistry,
    inbound: Vec<AudioChannel>,
    threads: Vec<AudioThread>,
}

impl Audio {
    /// The registry holds no name twice, and every worker is in its loop
    /// with its queue open.
    pub closed spec fn wf(&self) -> bool {
        &&& self.files.wf()
        &&& forall|i: int|
            0 <= i < self.threads.len() ==> (#[trigger] self.threads[i])@.open
                && !self.threads[i]@.exited
    }

    /// In a running service every worker is in its loop, its queue open.
    pub proof fn lemma_workers_running(&self, i: int)
        requires
            self.wf(),
            0 <= i < self@.workers.len(),
        ensures
            self@.workers[i].open,
            !self@.workers[i].exited,
    {
        assert(self.threads[i]@.open);
    }

    /// The service as a mathematical value.
    pub closed spec fn view(&self) -> AudioView {
        AudioView {
            files: self.files@,
            inbound: Seq::new(self.inbound.len() as nat, |i: int| self.inbound[i]@),
            workers: Seq::new(self.threads.len() as nat, |i: int| self.threads[i]@),
        }
    }

    /// A service with `pool_size` idle workers, no clip and no request.
    pub fn new(pool_size: usize) -> (a: Self)
        ensures
            a.wf(),
            a@.files == Map::<Seq<char>, Seq<char>>::empty(),
            a@.inbound == Seq::<Command>::empty(),
            a@.workers == Seq::new(pool_size as nat, |i: int| WorkerView::idle()),
    {
        let mut threads: Vec<AudioThread> = Vec::new();
        let mut i: usize = 0;
        while i < pool_size
            invariant
                i <= pool_size,
                threads.len() == i,
                forall|j: int| 0 <= j < i ==> (#[trigger] threads[j])@ == WorkerView::idle(),
            decreases pool_size - i,
        {
            threads.push(AudioThread::new());
            i += 1;
        }
        let a = Audio { files: ClipRegistry::new(), inbound: Vec::new(), threads };
        assert(a@.inbound =~= Seq::<Command>::empty());
        assert(a@.workers =~= Seq::new(pool_size as nat, |i: int| WorkerView::idle()));
        a
    }

    /// Number of workers in the pool.
    pub fn pool_size(&self) -> (n: usize)
        ensures
            n == self@.workers.len(),
    {
        self.threads.len()
    }

    /// Number of requests that wait for the dispatcher.
    pub fn backlog(&self) -> (n: usize)
        ensures
            n == self@.inbound.len(),
    {
        self.inbound.len()
    }

    /// Registers `name` for `path`, replacing an earlier path of that name.
    pub fn add(&mut self, name: &str, path: &str)
        requires
            old(self).wf(),
        ensures
            final(self).wf(),
            final(self)@ == (AudioView {
                files: old(self)@.files.insert(name@, path@),
                ..old(self)@
            }),
    {
        self.files.register(name, path);
    }

    /// Enqueues a request to play the clip registered as `key`. An unknown
    /// name is reported and nothing is enqueued. No worker is touched, and a
    /// full pool is no error here: the dispatcher drops the request later.
    pub fn play(&mut self, key: &str) -> (r: Result<(), AudioError>)
        requires
            old(self).wf(),
        ensures
            final(self).wf(),
            match r {
                Ok(_) => old(self)@.files.contains_key(key@) && final(self)@ == (AudioView {
                    inbound: old(self)@.inbound.push(Command::Play(old(self)@.files[key@])),
                    ..old(self)@
                }),
                Err(e) => e == AudioError::UnknownClip && !old(self)@.files.contains_key(key@)
                    && final(self)@ == old(self)@,
            },
    {
        match self.files.resolve(key) {
            Ok(path) => {
                let cmd = AudioChannel::play(path);
                self.inbound.push(cmd);
                assert(self@.inbound =~= old(self)@.inbound.push(cmd@));
                assert(self@.workers =~= old(self)@.workers);
                Ok(())
            },
            Err(e) => Err(e),
        }
    }

    /// Enqueues a request to stop. No worker is touched.
    pub fn stop(&mut self)
        requires
            old(self).wf(),
        ensures
            final(self).wf(),
            final(self)@ == (AudioView {
                inbound: old(self)@.inbound.push(Command::StopAll),
                ..old(self)@
            }),
    {
        let cmd = AudioChannel::stop_all();
        self.inbound.push(cmd);
        assert(self@.inbound =~= old(self)@.inbound.push(cmd@));
        assert(self@.workers =~= old(self)@.workers);
    }

    /// Reads every worker's busy flag, in index order.
    pub fn busy_flags(&self) -> (flags: Vec<bool>)
        ensures
            flags@ == busy_flags(self@.workers),
    {
        let mut flags: Vec<bool> = Vec::new();
        let mut i: usize = 0;
        while i < self.threads.len()
            invariant
                i <= self.threads.len(),
                flags.len() == i,
                forall|j: int| 0 <= j < i ==> flags[j] == (#[trigger] self.threads[j])@.busy(),
            decreases self.threads.len() - i,
        {
            flags.push(self.threads[i].is_playing());
            i += 1;
        }
        assert(flags@ =~= busy_flags(self@.workers));
        flags
    }

    /// Whether worker `i` is busy.
    pub fn is_playing(&self, i: usize) -> (b: bool)
        requires
            i < self@.workers.len(),
        ensures
            b == self@.workers[i as int].busy(),
    {
        self.threads[i].is_playing()
    }

    /// Number of commands that wait in worker `i`'s queue.
    pub fn pending(&self, i: usize) -> (n: usize)
        requires
            i < self@.workers.len(),
        ensures
            n == self@.workers[i as int].pending.len(),
    {
        self.threads[i].pending()
    }

    /// Counts the busy workers. There are never more than the pool holds.
    pub fn busy_count(&self) -> (n: usize)
        ensures
            n == busy_count(self@.workers),
            n <= self@.workers.len(),
    {
        let mut n: usize = 0;
        let mut i: usize = 0;
        while i < self.threads.len()
            invariant
                i <= self.threads.len(),
                n <= i,
                n == busy_count(self@.workers.take(i as int)),
            decreases self.threads.len() - i,
        {
            proof {
                let next = self@.workers.take(i + 1);
                assert(next.drop_last() =~= self@.workers.take(i as int));
                assert(next.last() == self.threads[i as int]@);
            }
            if self.threads[i].is_playing() {
                n += 1;
            }
            i += 1;
        }
        assert(self@.workers.take(i as int) =~= self@.workers);
        n
    }

    /// One step of the dispatcher: takes the oldest request and routes it. A
    /// stop is queued on every worker, whatever its state; a play is queued on
    /// the lowest-indexed idle worker; with every worker busy the play is
    /// dropped and no worker changes. With no request waiting nothing happens.
    /// No busy flag changes in any case.
    pub fn dispatch(&mut self) -> (r: Option<Routing>)
        requires
            old(self).wf(),
        ensures
            final(self).wf(),
            final(self)@.files == old(self)@.files,
            match r {
                None => old(self)@.inbound.len() == 0 && final(self)@ == old(self)@,
                Some(to) => {
                    &&& old(self)@.inbound.len() > 0
                    &&& to == spec_route(busy_flags(old(self)@.workers), old(self)@.inbound[0])
                    &&& final(self)@.inbound == old(self)@.inbound.drop_first()
                    &&& final(self)@.workers == routed(old(self)@.workers, old(self)@.inbound[0])
                },
            },
    {
        if self.inbound.len() == 0 {
            return None;
        }
        let cmd = self.inbound.remove(0);
        assert(self@.inbound =~= old(self)@.inbound.drop_first());
        assert(cmd@ == old(self)@.inbound[0]);
        let flags = self.busy_flags();
        let to = route(&flags, &cmd);
        match to {
            Routing::Dropped => {
                assert(self@.workers =~= old(self)@.workers);
            },
            Routing::Worker(i) => {
                self.threads[i].send(cmd);
                assert(self@.workers =~= routed(old(self)@.workers, cmd@));
            },
            Routing::Broadcast => {
                let n = self.threads.len();
                let mut i: usize = 0;
                while i < n
                    invariant
                        i <= n,
                        n == self.threads.len(),
                        n == old(self).threads.len(),
                        cmd@ == Command::StopAll,
                        self.files == old(self).files,
                        self.inbound@ == old(self).inbound@.drop_first(),
                        forall|j: int|
                            0 <= j < i ==> (#[trigger] self.threads[j])@ == old(
                                self,
                            ).threads[j]@.sent(Command::StopAll),
                        forall|j: int|
                            i <= j < n ==> (#[trigger] self.threads[j])@ == old(self).threads[j]@,
                        forall|j: int|
                            0 <= j < n ==> (#[trigger] old(self).threads[j])@.open && !old(
                                self,
                            ).threads[j]@.exited,
                    decreases n - i,
                {
                    self.threads[i].send(AudioChannel::stop_all());
                    i += 1;
                }
                assert(self@.workers =~= routed(old(self)@.workers, cmd@));
            },
        }
        Some(to)
    }

    /// One step of worker `i`: it takes its next command, if it is idle and
    /// one waits. No other worker and no other part of the service changes.
    pub fn worker_receive(&mut self, i: usize) -> (r: Option<WorkerAction>)
        requires
            old(self).wf(),
            i < old(self)@.workers.len(),
        ensures
            final(self).wf(),
            final(self)@ == (AudioView {
                workers: old(self)@.workers.update(i as int, old(self)@.workers[i as int].received()),
                ..old(self)@
            }),
            match r {
                Some(action) => old(self)@.workers[i as int].can_receive() && action@ == old(
                    self,
                )@.workers[i as int].pending[0],
                None => !old(self)@.workers[i as int].can_receive(),
            },
    {
        let r = self.threads[i].receive();
        assert(self@.workers =~= old(self)@.workers.update(
            i as int,
            old(self)@.workers[i as int].received(),
        ));
        assert(self@.inbound =~= old(self)@.inbound);
        r
    }

    /// Worker `i`'s decode-and-play call returned. The worker is idle
    /// afterwards, its queue untouched; a failure to decode goes no further.
    pub fn worker_finish(&mut self, i: usize, outcome: Playback)
        requires
            old(self).wf(),
            i < old(self)@.workers.len(),
        ensures
            final(self).wf(),
            final(self)@ == (AudioView {
                workers: old(self)@.workers.update(i as int, old(self)@.workers[i as int].finished()),
                ..old(self)@
            }),
    {
        self.threads[i].finish(outcome);
        assert(self@.workers =~= old(self)@.workers.update(
            i as int,
            old(self)@.workers[i as int].finished(),
        ));
        assert(self@.inbound =~= old(self)@.inbound);
    }

    /// Shuts the service down and hands back the workers at rest. The
    /// dispatcher first routes every request that was enqueued, in order;
    /// then each worker's queue is closed and the worker works off what
    /// waits in it, one command at a time, every clip running to its end,
    /// and exits. The value is consumed: nothing can be asked of the service
    /// afterwards.
    pub fn close(self) -> (workers: Vec<AudioThread>)
        requires
            self.wf(),
        ensures
            workers.len() == self@.workers.len(),
            forall|i: int|
                0 <= i < workers.len() ==> (#[trigger] workers[i])@ == WorkerView::at_rest(),
    {
        let mut this = self;
        while this.inbound.len() > 0
            invariant
                this.wf(),
                this@.workers.len() == self@.workers.len(),
            decreases this@.inbound.len(),
        {
            let ghost before = this@;
            assert(before.inbound.len() == this.inbound.len());
            this.dispatch();
            proof {
                lemma_routing_keeps_flags(before.workers, before.inbound[0]);
            }
        }
        let mut threads = this.threads;
        let n = threads.len();
        let mut i: usize = 0;
        while i < n
            invariant
                i <= n,
                n == threads.len(),
                n == self@.workers.len(),
                forall|j: int| 0 <= j < i ==> (#[trigger] threads[j])@ == WorkerView::at_rest(),
                forall|j: int| i <= j < n ==> (#[trigger] threads[j])@.open && !threads[j]@.exited,
            decreases n - i,
        {
            threads[i].close_queue();
            while !threads[i].has_exited()
                invariant
                    i < n,
                    n == threads.len(),
                    !threads[i as int]@.open,
                    threads[i as int]@.exited ==> !threads[i as int]@.busy()
                        && threads[i as int]@.pending.len() == 0,
                    forall|j: int| 0 <= j < i ==> (#[trigger] threads[j])@ == WorkerView::at_rest(),
                    forall|j: int|
                        i < j < n ==> (#[trigger] threads[j])@.open && !threads[j]@.exited,
                decreases
                        2 * threads[i as int]@.pending.len() + (if threads[i as int]@.busy() {
                            1nat
                        } else {
                            0nat
                        }) + (if threads[i as int]@.exited {
                            0nat
                        } else {
                            1nat
                        }),
            {
                if threads[i].is_playing() {
                    threads[i].finish(Playback::Completed);
                } else {
                    threads[i].receive();
                }
            }
            assert(threads[i as int]@.pending =~= Seq::<Command>::empty());
            i += 1;
        }
        threads
    }
}

/// The dispatcher never touches a busy flag and never changes the size of the
/// pool: whatever it routes, every worker is as busy as before, with the same
/// clip.
pub proof fn lemma_routing_keeps_flags(workers: Seq<WorkerView>, cmd: Command)
    ensures
        routed(workers, cmd).len() == workers.len(),
        busy_flags(routed(workers, cmd)) == busy_flags(workers),
        forall|i: int|
            0 <= i < workers.len() ==> (#[trigger] routed(workers, cmd)[i]).playing
                == workers[i].playing,
{
    let flags = busy_flags(workers);
    match cmd {
        Command::StopAll => {},
        Command::Play(_) => {
            if exists|i: int| is_first_idle(flags, i) {
                let i = choose|i: int| is_first_idle(flags, i);
                assert(0 <= i < workers.len());
            }
        },
    }
    assert(busy_flags(routed(workers, cmd)) =~= busy_flags(workers));
}

/// Routing only ever appends: each worker's queue is as it was, or as it was
/// with the routed command behind everything that waited before. So what is
/// sent to one worker is taken by it in the order in which it was sent.
pub proof fn lemma_routing_appends(workers: Seq<WorkerView>, cmd: Command, i: int)
    requires
        0 <= i < workers.len(),
    ensures
        routed(workers, cmd)[i] == workers[i] || routed(workers, cmd)[i] == workers[i].sent(cmd),
        cmd == Command::StopAll ==> routed(workers, cmd)[i] == workers[i].sent(cmd),
{
    let flags = busy_flags(workers);
    match cmd {
        Command::StopAll => {},
        Command::Play(_) => {
            if exists|k: int| is_first_idle(flags, k) {
                let k = choose|k: int| is_first_idle(flags, k);
                assert(0 <= k < workers.len());
            }
        },
    }
}

/// In a pool of any size, the busy workers are never more than the workers.
pub proof fn lemma_busy_count_bounded(workers: Seq<WorkerView>)
    ensures
        busy_count(workers) <= workers.len(),
    decreases workers.len(),
{
    if workers.len() > 0 {
        lemma_busy_count_bounded(workers.drop_last());
    }
}

/// Routing a command leaves the number of busy workers as it was.
pub proof fn lemma_routing_keeps_busy_count(workers: Seq<WorkerView>, cmd: Command)
    ensures
        busy_count(routed(workers, cmd)) == busy_count(workers),
{
    lemma_routing_keeps_flags(workers, cmd);
    lemma_busy_count_by_flags(routed(workers, cmd), workers);
}

proof fn lemma_busy_count_by_flags(a: Seq<WorkerView>, b: Seq<WorkerView>)
    requires
        a.len() == b.len(),
        forall|i: int| 0 <= i < a.len() ==> a[i].busy() == b[i].busy(),
    ensures
        busy_count(a) == busy_count(b),
    decreases a.len(),
{
    if a.len() > 0 {
        lemma_busy_count_by_flags(a.drop_last(), b.drop_last());
    }
}

/// A play request that meets a pool with every worker busy is dropped: no
/// worker changes, in flag or in queue.
pub proof fn lemma_saturated_play_is_dropped(workers: Seq<WorkerView>, path: Seq<char>)
    requires
        all_busy(busy_flags(workers)),
    ensures
        spec_route(busy_flags(workers), Command::Play(path)) == Routing::Dropped,
        routed(workers, Command::Play(path)) == workers,
{
    lemma_first_idle_none(busy_flags(workers));
}

/// A play request lands on the lowest-indexed idle worker and on no other.
pub proof fn lemma_play_goes_to_lowest_idle(workers: Seq<WorkerView>, path: Seq<char>, i: int)
    requires
        workers.len() <= usize::MAX,
        0 <= i < workers.len(),
        !workers[i].busy(),
        forall|j: int| 0 <= j < i ==> workers[j].busy(),
    ensures
        spec_route(busy_flags(workers), Command::Play(path)) == Routing::Worker(i as usize),
        routed(workers, Command::Play(path)) == workers.update(
            i,
            workers[i].sent(Command::Play(path)),
        ),
{
    assert(is_first_idle(busy_flags(workers), i));
    lemma_first_idle_unique(busy_flags(workers), i);
}

/// A stop that reaches an idle worker with nothing else queued changes
/// nothing: once the worker has taken it, the worker is as it was, idle.
pub proof fn lemma_stop_on_idle_worker(w: WorkerView)
    requires
        !w.busy(),
        w.pending.len() == 0,
        w.open,
        !w.exited,
    ensures
        w.sent(Command::StopAll).received() == w,
{
    let s = w.sent(Command::StopAll);
    assert(s.pending.drop_first() =~= w.pending);
}

/// A stop sent to a busy worker does not cut its clip short: the worker
/// stays busy with the same clip and cannot take the stop, which waits in the
/// queue behind the clip until the clip has finished.
pub proof fn lemma_stop_waits_for_playback(w: WorkerView)
    requires
        w.busy(),
    ensures
        w.sent(Command::StopAll).playing == w.playing,
        !w.sent(Command::StopAll).can_receive(),
        w.sent(Command::StopAll).received() == w.sent(Command::StopAll),
        w.sent(Command::StopAll).finished() == w.finished().sent(Command::StopAll),
{
}

/// Whatever a worker took from its queue, and however the clip ended, the
/// worker is idle once its call has returned, ready for the next command.
pub proof fn lemma_worker_returns_to_idle(w: WorkerView)
    ensures
        !w.received().finished().busy(),
        w.can_receive() ==> w.received().finished().pending == w.pending.drop_first(),
{
}

/// A worker leaves its loop only with its queue closed and drained, and
/// while it is idle; once it has left, it takes nothing more.
pub proof fn lemma_worker_exits_when_drained(w: WorkerView)
    ensures
        !w.exited && w.received().exited ==> !w.busy() && !w.open && w.pending.len() == 0,
        w.can_exit() ==> w.received() == (WorkerView { exited: true, ..w }),
        w.exited ==> w.received() == w,
{
}

} // verus!
