//! Jobs as the hub records them, and the messages that describe them.

use vstd::prelude::*;

verus! {

/// The identifier a job announces in its handshake, compared by value.
#[derive(Debug)]
pub struct JobId(pub String);

impl View for JobId {
    type V = Seq<char>;

    open spec fn view(&self) -> Seq<char> {
        self.0@
    }
}

impl JobId {
    /// A second, equal identifier.
    pub fn duplicate(&self) -> (r: JobId)
        ensures
            r@ == self@,
    {
        JobId(self.0.clone())
    }
}

/// The first message of a connection: who the job is and how much work it has.
#[derive(Debug)]
pub struct Handshake {
    pub id: JobId,
    pub total_epochs: usize,
}

pub struct HandshakeView {
    pub id: Seq<char>,
    pub total_epochs: usize,
}

impl View for Handshake {
    type V = HandshakeView;

    open spec fn view(&self) -> HandshakeView {
        HandshakeView { id: self.id@, total_epochs: self.total_epochs }
    }
}

/// A progress report; each field that is present replaces what was known.
#[derive(Debug)]
pub struct JobMessage {
    pub current_epoch: Option<usize>,
    pub total_epochs: Option<usize>,
    pub message: Option<String>,
}

pub struct JobMessageView {
    pub current_epoch: Option<usize>,
    pub total_epochs: Option<usize>,
    pub message: Option<Seq<char>>,
}

impl View for JobMessage {
    type V = JobMessageView;

    open spec fn view(&self) -> JobMessageView {
        JobMessageView {
            current_epoch: self.current_epoch,
            total_epochs: self.total_epochs,
            message: match self.message {
                Some(s) => Some(s@),
                None => None,
            },
        }
    }
}

/// A job that is still running.
#[derive(Debug)]
pub struct CurrentJob {
    pub id: JobId,
    pub messages: Vec<String>,
    pub current_epoch: usize,
    pub total_epochs: usize,
}

pub struct CurrentJobView {
    pub id: Seq<char>,
    pub messages: Seq<Seq<char>>,
    pub current_epoch: usize,
    pub total_epochs: usize,
}

pub open spec fn texts(v: Seq<String>) -> Seq<Seq<char>> {
    v.map_values(|s: String| s@)
}

impl View for CurrentJob {
    type V = CurrentJobView;

    open spec fn view(&self) -> CurrentJobView {
        CurrentJobView {
            id: self.id@,
            messages: texts(self.messages@),
            current_epoch: self.current_epoch,
            total_epochs: self.total_epochs,
        }
    }
}

/// A job that has ended, with the time of day at which it did.
#[derive(Debug)]
pub struct FinishedJob {
    pub id: JobId,
    pub end_time: String,
}

pub struct FinishedJobView {
    pub id: Seq<char>,
    pub end_time: Seq<char>,
}

impl View for FinishedJob {
    type V = FinishedJobView;

    open spec fn view(&self) -> FinishedJobView {
        FinishedJobView { id: self.id@, end_time: self.end_time@ }
    }
}

/// The job that a handshake starts: no messages and no epoch done yet.
pub open spec fn started_job(h: HandshakeView) -> CurrentJobView {
    CurrentJobView {
        id: h.id,
        messages: Seq::empty(),
        current_epoch: 0,
        total_epochs: h.total_epochs,
    }
}

/// A job after one update: present fields overwrite, a present message is
/// appended to the log, absent fields leave the job as it was.
pub open spec fn updated_job(j: CurrentJobView, u: JobMessageView) -> CurrentJobView {
    CurrentJobView {
        id: j.id,
        messages: match u.message {
            Some(m) => j.messages.push(m),
            None => j.messages,
        },
        current_epoch: match u.current_epoch {
            Some(c) => c,
            None => j.current_epoch,
        },
        total_epochs: match u.total_epochs {
            Some(t) => t,
            None => j.total_epochs,
        },
    }
}

impl CurrentJob {
    /// The job that `handshake` announces.
    pub fn start(handshake: Handshake) -> (r: CurrentJob)
        ensures
            r@ == started_job(handshake@),
    {
        let r = CurrentJob {
            id: handshake.id,
            messages: Vec::new(),
            current_epoch: 0,
            total_epochs: handshake.total_epochs,
        };
        assert(r@.messages =~= Seq::<Seq<char>>::empty());
        r
    }

    /// Applies one progress report to this job.
    pub fn apply(&mut self, update: JobMessage)
        ensures
            final(self)@ == updated_job(old(self)@, update@),
    {
        let ghost before = self.messages@;
        if let Some(x) = update.message {
            self.messages.push(x);
            assert(texts(self.messages@) =~= texts(before).push(update@.message.unwrap()));
        }
        if let Some(x) = update.current_epoch {
            self.current_epoch = x;
        }
        if let Some(x) = update.total_epochs {
            self.total_epochs = x;
        }
    }
}


/// A job after a whole sequence of updates, applied in order.
pub open spec fn updates_applied(j: CurrentJobView, us: Seq<JobMessageView>) -> CurrentJobView
    decreases us.len(),
{
    if us.len() == 0 {
        j
    } else {
        updated_job(updates_applied(j, us.drop_last()), us.last())
    }
}

/// The last value present in `s`, or `default` when none is.
pub open spec fn latest<T>(s: Seq<Option<T>>, default: T) -> T
    decreases s.len(),
{
    if s.len() == 0 {
        default
    } else {
        match s.last() {
            Some(x) => x,
            None => latest(s.drop_last(), default),
        }
    }
}

/// The values present in `s`, in order.
pub open spec fn present<T>(s: Seq<Option<T>>) -> Seq<T>
    decreases s.len(),
{
    if s.len() == 0 {
        Seq::empty()
    } else {
        match s.last() {
            Some(x) => present(s.drop_last()).push(x),
            None => present(s.drop_last()),
        }
    }
}

/// Whatever sequence of updates a job receives, each epoch count is the one
/// that the latest update carrying it gave (or its earlier value when none
/// did), and the message log is the earlier log followed by every message
/// sent, in arrival order.
pub proof fn lemma_updates_overwrite(j: CurrentJobView, us: Seq<JobMessageView>)
    ensures
        updates_applied(j, us).id == j.id,
        updates_applied(j, us).current_epoch == latest(
            us.map_values(|u: JobMessageView| u.current_epoch),
            j.current_epoch,
        ),
        updates_applied(j, us).total_epochs == latest(
            us.map_values(|u: JobMessageView| u.total_epochs),
            j.total_epochs,
        ),
        updates_applied(j, us).messages == j.messages + present(
            us.map_values(|u: JobMessageView| u.message),
        ),
    decreases us.len(),
{
    if us.len() > 0 {
        let rest = us.drop_last();
        lemma_updates_overwrite(j, rest);
        let cs = us.map_values(|u: JobMessageView| u.current_epoch);
        let ts = us.map_values(|u: JobMessageView| u.total_epochs);
        let ms = us.map_values(|u: JobMessageView| u.message);
        assert(cs.drop_last() =~= rest.map_values(|u: JobMessageView| u.current_epoch));
        assert(ts.drop_last() =~= rest.map_values(|u: JobMessageView| u.total_epochs));
        assert(ms.drop_last() =~= rest.map_values(|u: JobMessageView| u.message));
        let prior = updates_applied(j, rest);
        match us.last().message {
            Some(m) => {
                assert(prior.messages.push(m) =~= j.messages + present(ms.drop_last()).push(m));
            },
            None => {},
        }
    }
}

/// How far along a job is, as `(done, out_of)`: `out_of` is never zero and
/// `done` never exceeds it. An unknown total (zero) reads as nothing done.
pub open spec fn progress_spec(current: usize, total: usize) -> (usize, usize) {
    if total == 0 {
        (0, 1)
    } else if current > total {
        (total, total)
    } else {
        (current, total)
    }
}

/// The last `n` entries of a message log, newest first.
pub open spec fn newest_first(log: Seq<Seq<char>>, n: nat) -> Seq<Seq<char>> {
    let k = if n < log.len() { n as int } else { log.len() as int };
    Seq::new(k as nat, |i: int| log[log.len() - 1 - i])
}

impl CurrentJob {
    /// The share of the work done, in a form that is safe to draw as a ratio.
    pub fn progress(&self) -> (r: (usize, usize))
        ensures
            r == progress_spec(self.current_epoch, self.total_epochs),
            r.1 > 0,
            r.0 <= r.1,
    {
        if self.total_epochs == 0 {
            (0, 1)
        } else if self.current_epoch > self.total_epochs {
            (self.total_epochs, self.total_epochs)
        } else {
            (self.current_epoch, self.total_epochs)
        }
    }

    /// Up to `n` of the latest messages, newest first.
    pub fn recent_messages(&self, n: usize) -> (r: Vec<String>)
        ensures
            texts(r@) == newest_first(self@.messages, n as nat),
    {
        let len = self.messages.len();
        let k: usize = if n < len { n } else { len };
        let mut r: Vec<String> = Vec::new();
        let mut i: usize = 0;
        while i < k
            invariant
                k <= len == self.messages@.len(),
                k == if (n as nat) < self@.messages.len() { n as int } else { len as int },
                i <= k,
                r@.len() == i,
                forall|x: int| 0 <= x < i ==> r@[x]@ == self.messages@[len - 1 - x]@,
            decreases k - i,
        {
            r.push(self.messages[len - 1 - i].clone());
            i = i + 1;
        }
        assert(texts(r@) =~= newest_first(self@.messages, n as nat));
        r
    }
}

} // verus!
