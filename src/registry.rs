//! The job registry: running jobs, finished jobs and the input line, all owned
//! by the hub.

use vstd::prelude::*;
use crate::clock::{clock_now, clock_text, hhmm};
use crate::job::{
    started_job, updated_job, CurrentJob, CurrentJobView, FinishedJob, FinishedJobView, Handshake,
    HandshakeView, JobId, JobMessage, JobMessageView,
};

verus! {

/// Everything the dashboard shows.
pub struct App {
    pub current_input: String,
    pub finished_jobs: Vec<FinishedJob>,
    pub current_jobs: Vec<CurrentJob>,
}

pub struct AppView {
    pub input: Seq<char>,
    pub finished: Seq<FinishedJobView>,
    pub active: Seq<CurrentJobView>,
}

impl View for App {
    type V = AppView;

    open spec fn view(&self) -> AppView {
        AppView {
            input: self.current_input@,
            finished: self.finished_jobs@.map_values(|f: FinishedJob| f@),
            active: self.current_jobs@.map_values(|j: CurrentJob| j@),
        }
    }
}

/// `i` is the position of the first running job named `id`.
pub open spec fn is_first_match(active: Seq<CurrentJobView>, id: Seq<char>, i: int) -> bool {
    &&& 0 <= i < active.len()
    &&& active[i].id == id
    &&& forall|j: int| 0 <= j < i ==> active[j].id != id
}

/// The position of the first running job named `id`, if there is one.
pub open spec fn first_match(active: Seq<CurrentJobView>, id: Seq<char>) -> Option<int> {
    if exists|i: int| is_first_match(active, id, i) {
        Some(choose|i: int| is_first_match(active, id, i))
    } else {
        None
    }
}

pub proof fn lemma_first_match(active: Seq<CurrentJobView>, id: Seq<char>, i: int)
    requires
        is_first_match(active, id, i),
    ensures
        first_match(active, id) == Some(i),
{
    let k = choose|k: int| is_first_match(active, id, k);
    assert(is_first_match(active, id, k));
    if k < i {
        assert(active[k].id != id);
    } else if i < k {
        assert(active[i].id != id);
    }
}

pub proof fn lemma_no_match(active: Seq<CurrentJobView>, id: Seq<char>)
    requires
        forall|j: int| 0 <= j < active.len() ==> active[j].id != id,
    ensures
        first_match(active, id) is None,
{
}

/// `id` names a running job.
pub open spec fn is_active(m: AppView, id: Seq<char>) -> bool {
    exists|i: int| 0 <= i < m.active.len() && m.active[i].id == id
}

/// `id` names a finished job.
pub open spec fn is_finished(m: AppView, id: Seq<char>) -> bool {
    exists|i: int| 0 <= i < m.finished.len() && m.finished[i].id == id
}

/// The registry after a handshake: the new job is appended to the running ones.
pub open spec fn registered(m: AppView, h: HandshakeView) -> AppView {
    AppView { active: m.active.push(started_job(h)), ..m }
}

/// The registry after an update for `id`: the first running job of that name
/// takes it; an update for a name that is not running changes nothing.
pub open spec fn message_applied(m: AppView, id: Seq<char>, u: JobMessageView) -> AppView {
    match first_match(m.active, id) {
        Some(i) => AppView { active: m.active.update(i, updated_job(m.active[i], u)), ..m },
        None => m,
    }
}

/// The registry after the job `id` ended at `stamp`: the first running job of
/// that name leaves the running ones and one finished record is appended; a
/// name that is not running changes nothing.
pub open spec fn finished(m: AppView, id: Seq<char>, stamp: Seq<char>) -> AppView {
    match first_match(m.active, id) {
        Some(i) => AppView {
            active: m.active.remove(i),
            finished: m.finished.push(FinishedJobView { id, end_time: stamp }),
            ..m
        },
        None => m,
    }
}

impl App {
    /// An empty dashboard.
    pub fn new() -> (r: App)
        ensures
            r@.input.len() == 0,
            r@.finished.len() == 0,
            r@.active.len() == 0,
    {
        App { current_input: String::new(), finished_jobs: Vec::new(), current_jobs: Vec::new() }
    }

    /// The position of the first running job named `id`.
    pub fn find_job(&self, id: &JobId) -> (r: Option<usize>)
        ensures
            r matches Some(i) ==> i < self.current_jobs@.len() && first_match(self@.active, id@)
                == Some(i as int),
            r is None ==> first_match(self@.active, id@) is None,
    {
        let mut i: usize = 0;
        while i < self.current_jobs.len()
            invariant
                i <= self.current_jobs@.len(),
                forall|j: int| 0 <= j < i ==> self@.active[j].id != id@,
            decreases self.current_jobs@.len() - i,
        {
            if self.current_jobs[i].id.0 == id.0 {
                proof {
                    lemma_first_match(self@.active, id@, i as int);
                }
                return Some(i);
            }
            i = i + 1;
        }
        proof {
            lemma_no_match(self@.active, id@);
        }
        None
    }

    /// Starts a job that was announced by name alone, with one epoch to do.
    pub fn add_new_connection(&mut self, connection_name: String)
        ensures
            final(self)@ == registered(
                old(self)@,
                HandshakeView { id: connection_name@, total_epochs: 1 },
            ),
    {
        self.register(Handshake { id: JobId(connection_name), total_epochs: 1 });
    }

    /// Starts the job that `handshake` announces.
    pub fn register(&mut self, handshake: Handshake)
        ensures
            final(self)@ == registered(old(self)@, handshake@),
    {
        let job = CurrentJob::start(handshake);
        self.current_jobs.push(job);
        assert(self@.active =~= old(self)@.active.push(started_job(handshake@)));
    }

    /// Hands a progress report to the job named `connection_name`.
    pub fn add_connection_message(&mut self, connection_name: JobId, message: JobMessage)
        ensures
            final(self)@ == message_applied(old(self)@, connection_name@, message@),
    {
        match self.find_job(&connection_name) {
            Some(i) => {
                let ghost u = message@;
                let mut job = self.current_jobs.remove(i);
                job.apply(message);
                self.current_jobs.insert(i, job);
                assert(self@.active =~= old(self)@.active.update(
                    i as int,
                    updated_job(old(self)@.active[i as int], u),
                ));
            },
            None => {},
        }
    }

    /// Moves the job named `connection_name` to the finished ones, stamped
    /// with `end_time`.
    pub fn finish_connection_at(&mut self, connection_name: JobId, end_time: String)
        ensures
            final(self)@ == finished(old(self)@, connection_name@, end_time@),
    {
        match self.find_job(&connection_name) {
            Some(i) => {
                self.current_jobs.remove(i);
                self.finished_jobs.push(FinishedJob { id: connection_name, end_time });
                assert(self@.active =~= old(self)@.active.remove(i as int));
                assert(self@.finished =~= old(self)@.finished.push(
                    FinishedJobView { id: connection_name@, end_time: end_time@ },
                ));
            },
            None => {},
        }
    }

    /// Rows given to the finished-jobs table: room for up to five records
    /// beside a fixed frame of seven.
    pub fn finished_table_height(&self) -> (r: u16)
        ensures
            r == 7 + if self@.finished.len() < 5 {
                self@.finished.len() as int
            } else {
                5
            },
    {
        let n = self.finished_jobs.len();
        if n < 5 {
            7 + n as u16
        } else {
            12
        }
    }

    /// Moves the job named `connection_name` to the finished ones, stamped
    /// with the current UTC time of day.
    pub fn finish_connection(&mut self, connection_name: JobId)
        ensures
            exists|h: int, m: int|
                0 <= h < 24 && 0 <= m < 60 && final(self)@ == finished(
                    old(self)@,
                    connection_name@,
                    hhmm(h, m),
                ),
    {
        let ghost id = connection_name@;
        let (hour, minute) = clock_now();
        self.finish_connection_at(connection_name, clock_text(hour, minute));
        assert(self@ == finished(old(self)@, id, hhmm(hour as int, minute as int)));
    }
}


/// The names of the running jobs, in order.
pub open spec fn active_ids(m: AppView) -> Seq<Seq<char>> {
    m.active.map_values(|j: CurrentJobView| j.id)
}

/// The registry after a sequence of handshakes, in arrival order.
pub open spec fn all_registered(m: AppView, hs: Seq<HandshakeView>) -> AppView
    decreases hs.len(),
{
    if hs.len() == 0 {
        m
    } else {
        registered(all_registered(m, hs.drop_last()), hs.last())
    }
}

/// The registry after a sequence of updates, each addressed to a name.
pub open spec fn all_messages_applied(m: AppView, us: Seq<(Seq<char>, JobMessageView)>) -> AppView
    decreases us.len(),
{
    if us.len() == 0 {
        m
    } else {
        message_applied(all_messages_applied(m, us.drop_last()), us.last().0, us.last().1)
    }
}

proof fn lemma_all_registered_appends(m: AppView, hs: Seq<HandshakeView>)
    ensures
        all_registered(m, hs).active == m.active + hs.map_values(|h: HandshakeView| started_job(h)),
        all_registered(m, hs).finished == m.finished,
        all_registered(m, hs).input == m.input,
    decreases hs.len(),
{
    if hs.len() > 0 {
        lemma_all_registered_appends(m, hs.drop_last());
        assert(m.active + hs.map_values(|h: HandshakeView| started_job(h)) =~= (m.active
            + hs.drop_last().map_values(|h: HandshakeView| started_job(h))).push(
            started_job(hs.last()),
        ));
    }
}

proof fn lemma_messages_keep_names(m: AppView, us: Seq<(Seq<char>, JobMessageView)>)
    ensures
        active_ids(all_messages_applied(m, us)) == active_ids(m),
        all_messages_applied(m, us).finished == m.finished,
    decreases us.len(),
{
    if us.len() > 0 {
        let prior = all_messages_applied(m, us.drop_last());
        lemma_messages_keep_names(m, us.drop_last());
        let next = message_applied(prior, us.last().0, us.last().1);
        assert(active_ids(next) =~= active_ids(prior));
    }
}

/// Handshakes from jobs with distinct names, none of them already running,
/// leave one more running job per handshake whatever order they arrive in,
/// and the job of each name has the total from its own handshake.
pub proof fn lemma_handshakes_register_each(m: AppView, hs: Seq<HandshakeView>)
    requires
        forall|i: int, j: int| 0 <= i < j < hs.len() ==> hs[i].id != hs[j].id,
        forall|i: int| 0 <= i < hs.len() ==> !is_active(m, #[trigger] hs[i].id),
    ensures
        all_registered(m, hs).active.len() == m.active.len() + hs.len(),
        all_registered(m, hs).finished == m.finished,
        forall|k: int|
            0 <= k < hs.len() ==> first_match(all_registered(m, hs).active, #[trigger] hs[k].id)
                == Some(m.active.len() + k),
        forall|k: int|
            0 <= k < hs.len() ==> #[trigger] all_registered(m, hs).active[m.active.len() + k]
                == started_job(hs[k]),
{
    lemma_all_registered_appends(m, hs);
    let r = all_registered(m, hs);
    let n = m.active.len() as int;
    assert forall|k: int| 0 <= k < hs.len() implies first_match(r.active, #[trigger] hs[k].id)
        == Some(n + k) by {
        assert(r.active[n + k] == started_job(hs[k]));
        assert forall|j: int| 0 <= j < n + k implies r.active[j].id != hs[k].id by {
            if j < n {
                assert(r.active[j] == m.active[j]);
                assert(!is_active(m, hs[k].id));
            } else {
                assert(r.active[j] == started_job(hs[j - n]));
            }
        }
        lemma_first_match(r.active, hs[k].id, n + k);
    }
    assert forall|k: int| 0 <= k < hs.len() implies #[trigger] r.active[n + k] == started_job(
        hs[k],
    ) by {}
}

/// A job is running from the acceptance of its handshake, through any updates
/// to any jobs, until it ends; from then on it is finished and no longer
/// running. This is its first lifetime: its name was neither running nor
/// finished before the handshake.
pub proof fn lemma_job_lifecycle(
    m: AppView,
    h: HandshakeView,
    us: Seq<(Seq<char>, JobMessageView)>,
    stamp: Seq<char>,
)
    requires
        !is_active(m, h.id),
        !is_finished(m, h.id),
    ensures
        is_active(registered(m, h), h.id),
        !is_finished(registered(m, h), h.id),
        is_active(all_messages_applied(registered(m, h), us), h.id),
        !is_finished(all_messages_applied(registered(m, h), us), h.id),
        !is_active(finished(all_messages_applied(registered(m, h), us), h.id, stamp), h.id),
        is_finished(finished(all_messages_applied(registered(m, h), us), h.id, stamp), h.id),
{
    let m1 = registered(m, h);
    let n = m.active.len() as int;
    assert(m1.active[n].id == h.id);
    let m2 = all_messages_applied(m1, us);
    lemma_messages_keep_names(m1, us);
    assert(active_ids(m2).len() == m2.active.len());
    assert(m2.active.len() == m1.active.len());
    assert(active_ids(m2)[n] == active_ids(m1)[n]);
    assert(m2.active[n].id == h.id);
    assert forall|j: int| 0 <= j < m2.active.len() && j != n implies m2.active[j].id != h.id by {
        assert(active_ids(m2)[j] == active_ids(m1)[j]);
        assert(m1.active[j] == m.active[j]);
    }
    lemma_first_match(m2.active, h.id, n);
    let m3 = finished(m2, h.id, stamp);
    assert(m3.finished.last().id == h.id);
    if is_active(m3, h.id) {
        let j = choose|j: int| 0 <= j < m3.active.len() && m3.active[j].id == h.id;
        if j < n {
            assert(m3.active[j] == m2.active[j]);
        } else {
            assert(m3.active[j] == m2.active[j + 1]);
        }
    }
}

} // verus!
