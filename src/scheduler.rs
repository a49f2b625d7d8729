//! The job table: one start job and one end job per guild with a valid
//! configuration, rebuilt on request, and evaluated on each tick.
use vstd::prelude::*;

use crate::cron_expr::{
    cron_next_after, is_valid_cron, next_fire_after, EARLIEST_TIME, LATEST_TIME,
    MAX_ZONE_OFFSET,
};
use crate::model::GuildConfigView;
use crate::store::{valid_config, ConfigStore};

verus! {

/// Which edge of a guild's event a job announces.
#[derive(PartialEq, Eq, Structural, Debug, Clone, Copy)]
pub enum JobKind {
    Start,
    End,
}

/// A job of the table: the guild, the edge, and the cron expression that
/// says when it fires.
pub struct Job {
    guild_id: u64,
    kind: JobKind,
    expr: String,
}

pub ghost struct JobView {
    pub guild_id: u64,
    pub kind: JobKind,
    pub expr: Seq<char>,
}

impl View for Job {
    type V = JobView;

    closed spec fn view(&self) -> JobView {
        JobView { guild_id: self.guild_id, kind: self.kind, expr: self.expr@ }
    }
}

/// A job that is due: the handler of `kind` is to run for `guild_id`.
#[derive(PartialEq, Eq, Structural, Debug, Clone, Copy)]
pub struct Firing {
    pub guild_id: u64,
    pub kind: JobKind,
}

/// The expression of a configuration that schedules the given edge.
pub open spec fn expr_of(c: GuildConfigView, kind: JobKind) -> Seq<char> {
    match kind {
        JobKind::Start => c.start,
        JobKind::End => c.end,
    }
}

pub open spec fn jobs_view(v: Seq<Job>) -> Seq<JobView> {
    v.map_values(|j: Job| j@)
}

/// Every job comes from a guild of `guilds` whose configuration is valid,
/// and carries that configuration's expression for its edge.
pub open spec fn jobs_sound(
    store: Map<u64, GuildConfigView>,
    guilds: Set<u64>,
    jobs: Seq<JobView>,
) -> bool {
    forall|i: int|
        #![trigger jobs[i]]
        0 <= i < jobs.len() ==> {
            &&& guilds.contains(jobs[i].guild_id)
            &&& store.contains_key(jobs[i].guild_id)
            &&& valid_config(store[jobs[i].guild_id])
            &&& jobs[i].expr == expr_of(store[jobs[i].guild_id], jobs[i].kind)
        }
}

/// Every guild of `guilds` with a valid configuration has a job for each
/// edge.
pub open spec fn jobs_complete(
    store: Map<u64, GuildConfigView>,
    guilds: Set<u64>,
    jobs: Seq<JobView>,
) -> bool {
    forall|g: u64, kind: JobKind|
        guilds.contains(g) && store.contains_key(g) && valid_config(store[g]) ==> #[trigger] has_job(
            jobs,
            g,
            kind,
        )
}

/// Some job of the table is for `guild` and `kind`.
pub open spec fn has_job(jobs: Seq<JobView>, guild: u64, kind: JobKind) -> bool {
    exists|i: int| 0 <= i < jobs.len() && #[trigger] jobs[i].guild_id == guild && jobs[i].kind == kind
}

/// No guild has two jobs for the same edge.
pub open spec fn jobs_distinct(jobs: Seq<JobView>) -> bool {
    forall|i: int, j: int|
        0 <= i < jobs.len() && 0 <= j < jobs.len() && i != j && #[trigger] jobs[i].guild_id
            == #[trigger] jobs[j].guild_id ==> jobs[i].kind != jobs[j].kind
}

/// `jobs` is a job table for the configurations of `store`: exactly one
/// start job and one end job for each guild whose configuration is valid,
/// and no other job.
pub open spec fn table_for(store: Map<u64, GuildConfigView>, jobs: Seq<JobView>) -> bool {
    &&& jobs_sound(store, store.dom(), jobs)
    &&& jobs_complete(store, store.dom(), jobs)
    &&& jobs_distinct(jobs)
}

/// The guilds whose configuration a table leaves out.
pub open spec fn invalid_guilds(store: Map<u64, GuildConfigView>) -> Set<u64> {
    store.dom().filter(|g: u64| !valid_config(store[g]))
}

/// Builds the table for `store`, and lists the guilds left out because an
/// expression of theirs does not parse.
fn build_table(store: &ConfigStore) -> (r: (Vec<Job>, Vec<u64>))
    requires
        store.wf(),
    ensures
        table_for(store@, jobs_view(r.0@)),
        r.1@.to_set() == invalid_guilds(store@),
{
    let ids = store.guild_ids();
    let mut jobs: Vec<Job> = Vec::new();
    let mut skipped: Vec<u64> = Vec::new();
    let mut i: usize = 0;
    while i < ids.len()
        invariant
            i <= ids.len(),
            ids@.to_set() == store@.dom(),
            ids@.no_duplicates(),
            jobs_sound(store@, ids@.take(i as int).to_set(), jobs_view(jobs@)),
            jobs_complete(store@, ids@.take(i as int).to_set(), jobs_view(jobs@)),
            jobs_distinct(jobs_view(jobs@)),
            skipped@.to_set() == ids@.take(i as int).to_set().filter(
                |g: u64| !valid_config(store@[g]),
            ),
        decreases ids.len() - i,
    {
        let g = ids[i];
        let ghost done = ids@.take(i as int).to_set();
        let ghost next = ids@.take(i as int + 1).to_set();
        assert(ids@.take(i as int + 1) =~= ids@.take(i as int).push(g));
        proof {
            ids@.take(i as int).lemma_push_to_set_commute(g);
            assert(!done.contains(g)) by {
                if done.contains(g) {
                    let k = choose|k: int| 0 <= k < i && ids@.take(i as int)[k] == g;
                    assert(ids@[k] == ids@[i as int]);
                }
            }
            assert(store@.dom().contains(g)) by {
                assert(ids@.to_set().contains(ids@[i as int]));
            }
        }
        let config = store.get(g).unwrap();
        let ghost c = config@;
        if is_valid_cron(config.start.as_str()) && is_valid_cron(config.end.as_str()) {
            let ghost before = jobs_view(jobs@);
            let start_job = Job { guild_id: g, kind: JobKind::Start, expr: config.start };
            let end_job = Job { guild_id: g, kind: JobKind::End, expr: config.end };
            let ghost sj = start_job@;
            let ghost ej = end_job@;
            jobs.push(start_job);
            jobs.push(end_job);
            proof {
                let after = jobs_view(jobs@);
                assert(after =~= before.push(sj).push(ej));
                assert(after[before.len() as int] == sj);
                assert(after[before.len() as int + 1] == ej);
                assert forall|k: int| 0 <= k < before.len() implies #[trigger] after[k]
                    == before[k] by {}
                assert(jobs_sound(store@, next, after)) by {
                    assert forall|k: int| 0 <= k < after.len() implies {
                        &&& next.contains(#[trigger] after[k].guild_id)
                        &&& store@.contains_key(after[k].guild_id)
                        &&& valid_config(store@[after[k].guild_id])
                        &&& after[k].expr == expr_of(store@[after[k].guild_id], after[k].kind)
                    } by {
                        if k < before.len() {
                            assert(after[k] == before[k]);
                        }
                    }
                }
                assert(jobs_complete(store@, next, after)) by {
                    assert forall|h: u64, kind: JobKind|
                        next.contains(h) && store@.contains_key(h) && valid_config(
                            store@[h],
                        ) implies #[trigger] has_job(after, h, kind) by {
                        if h == g {
                            if kind == JobKind::Start {
                                assert(after[before.len() as int].guild_id == h);
                            } else {
                                assert(after[before.len() as int + 1].guild_id == h);
                            }
                        } else {
                            assert(done.contains(h));
                            assert(has_job(before, h, kind));
                            let k = choose|k: int|
                                0 <= k < before.len() && #[trigger] before[k].guild_id == h
                                    && before[k].kind == kind;
                            assert(after[k] == before[k]);
                        }
                    }
                }
                assert(jobs_distinct(after)) by {
                    assert forall|k: int, l: int|
                        0 <= k < after.len() && 0 <= l < after.len() && k != l
                            && #[trigger] after[k].guild_id == #[trigger] after[l].guild_id implies after[k].kind
                        != after[l].kind by {
                        if k < before.len() && l < before.len() {
                            assert(after[k] == before[k]);
                            assert(after[l] == before[l]);
                        } else if k < before.len() {
                            assert(after[k] == before[k]);
                            assert(done.contains(before[k].guild_id));
                        } else if l < before.len() {
                            assert(after[l] == before[l]);
                            assert(done.contains(before[l].guild_id));
                        }
                    }
                }
                assert(next.filter(|h: u64| !valid_config(store@[h])) =~= done.filter(
                    |h: u64| !valid_config(store@[h]),
                ));
            }
        } else {
            let ghost before = skipped@;
            skipped.push(g);
            proof {
                before.lemma_push_to_set_commute(g);
                assert(next.filter(|h: u64| !valid_config(store@[h])) =~= done.filter(
                    |h: u64| !valid_config(store@[h]),
                ).insert(g));
                assert(jobs_complete(store@, next, jobs_view(jobs@))) by {
                    assert forall|h: u64, kind: JobKind|
                        next.contains(h) && store@.contains_key(h) && valid_config(
                            store@[h],
                        ) implies #[trigger] has_job(jobs_view(jobs@), h, kind) by {
                        assert(h != g);
                        assert(done.contains(h));
                    }
                }
                assert(jobs_sound(store@, next, jobs_view(jobs@))) by {
                    assert forall|k: int| 0 <= k < jobs_view(jobs@).len() implies next.contains(
                        #[trigger] jobs_view(jobs@)[k].guild_id,
                    ) by {
                        assert(done.contains(jobs_view(jobs@)[k].guild_id));
                    }
                }
            }
        }
        i = i + 1;
    }
    assert(ids@.take(i as int) =~= ids@);
    assert(store@.dom().filter(|g: u64| !valid_config(store@[g])) =~= invalid_guilds(store@));
    (jobs, skipped)
}

} // verus!

verus! {

/// Whether a job with expression `expr` is due at the tick at `now`, the
/// previous tick having been at `last`: its schedule has an instant after
/// `last` and no later than `now`. Nothing is due at the first tick.
pub open spec fn due(expr: Seq<char>, last: Option<i64>, now: i64, offset: i32) -> bool {
    match last {
        None => false,
        Some(l) => match cron_next_after(expr, l, offset) {
            Some(n) => n <= now,
            None => false,
        },
    }
}

/// The firings of a tick: the due jobs of the table, in table order.
pub open spec fn fired_of(jobs: Seq<JobView>, last: Option<i64>, now: i64, offset: i32) -> Seq<
    Firing,
>
    decreases jobs.len(),
{
    if jobs.len() == 0 {
        Seq::empty()
    } else {
        let rest = fired_of(jobs.drop_last(), last, now, offset);
        let j = jobs.last();
        if due(j.expr, last, now, offset) {
            rest.push(Firing { guild_id: j.guild_id, kind: j.kind })
        } else {
            rest
        }
    }
}

pub ghost struct SchedulerView {
    pub jobs: Seq<JobView>,
    pub reload_pending: bool,
    pub last_tick: Option<i64>,
}

/// What one tick did: whether it rebuilt the table first, the guilds that
/// the rebuild left out, and the jobs that fired.
pub struct TickReport {
    pub rebuilt: bool,
    pub skipped: Vec<u64>,
    pub fired: Vec<Firing>,
}

/// The job table and its clock. A new scheduler has an empty table and a
/// pending reload, so its first tick builds the table; a reload request
/// marks the table for a rebuild at the start of the next tick, and any
/// number of requests before that tick make one rebuild.
pub struct Scheduler {
    jobs: Vec<Job>,
    reload_pending: bool,
    last_tick: Option<i64>,
}

impl View for Scheduler {
    type V = SchedulerView;

    closed spec fn view(&self) -> SchedulerView {
        SchedulerView {
            jobs: jobs_view(self.jobs@),
            reload_pending: self.reload_pending,
            last_tick: self.last_tick,
        }
    }
}

/// A time at which schedules can be evaluated.
pub open spec fn in_time_range(t: i64) -> bool {
    EARLIEST_TIME <= t <= LATEST_TIME
}

/// A distance of a time zone from UTC, in seconds.
pub open spec fn valid_offset(offset: i32) -> bool {
    -MAX_ZONE_OFFSET < offset < MAX_ZONE_OFFSET
}

impl Scheduler {
    /// Every tick so far was at a time in range.
    pub open spec fn wf(&self) -> bool {
        self@.last_tick matches Some(t) ==> in_time_range(t)
    }

    /// A scheduler that has not ticked yet, with an empty table due for a
    /// build.
    pub fn new() -> (r: Scheduler)
        ensures
            r.wf(),
            r@.jobs == Seq::<JobView>::empty(),
            r@.reload_pending,
            r@.last_tick is None,
    {
        let r = Scheduler { jobs: Vec::new(), reload_pending: true, last_tick: None };
        assert(r@.jobs =~= Seq::<JobView>::empty());
        r
    }

    /// Asks for the table to be rebuilt at the start of the next tick.
    pub fn request_reload(&mut self)
        ensures
            final(self)@ == (SchedulerView { reload_pending: true, ..old(self)@ }),
    {
        self.reload_pending = true;
    }

    /// Whether a rebuild is waiting for the next tick.
    pub fn reload_pending(&self) -> (r: bool)
        ensures
            r == self@.reload_pending,
    {
        self.reload_pending
    }

    /// The number of jobs in the table.
    pub fn job_count(&self) -> (r: usize)
        ensures
            r == self@.jobs.len(),
    {
        self.jobs.len()
    }

    /// One tick at `now` (seconds since the Unix epoch), with schedules read
    /// in the time zone `offset` seconds east of UTC. A pending reload first
    /// replaces the table with one built from `store`. Then each job whose
    /// schedule has an instant after the previous tick and no later than
    /// `now` fires once, in table order.
    pub fn tick(&mut self, store: &ConfigStore, now: i64, offset: i32) -> (r: TickReport)
        requires
            old(self).wf(),
            store.wf(),
            in_time_range(now),
            valid_offset(offset),
        ensures
            final(self).wf(),
            r.rebuilt == old(self)@.reload_pending,
            old(self)@.reload_pending ==> table_for(store@, final(self)@.jobs),
            old(self)@.reload_pending ==> r.skipped@.to_set() == invalid_guilds(store@),
            !old(self)@.reload_pending ==> final(self)@.jobs == old(self)@.jobs,
            !old(self)@.reload_pending ==> r.skipped@.len() == 0,
            !final(self)@.reload_pending,
            final(self)@.last_tick == Some(now),
            r.fired@ == fired_of(final(self)@.jobs, old(self)@.last_tick, now, offset),
    {
        let rebuilt = self.reload_pending;
        let mut skipped: Vec<u64> = Vec::new();
        if self.reload_pending {
            let (jobs, left_out) = build_table(store);
            self.jobs = jobs;
            skipped = left_out;
            self.reload_pending = false;
        }
        let last = self.last_tick;
        let ghost table = jobs_view(self.jobs@);
        let mut fired: Vec<Firing> = Vec::new();
        let mut i: usize = 0;
        while i < self.jobs.len()
            invariant
                i <= self.jobs.len(),
                table == jobs_view(self.jobs@),
                last == old(self).last_tick,
                last matches Some(t) ==> in_time_range(t),
                valid_offset(offset),
                fired@ == fired_of(table.take(i as int), last, now, offset),
            decreases self.jobs.len() - i,
        {
            let job = &self.jobs[i];
            let is_due = match last {
                None => false,
                Some(l) => match next_fire_after(job.expr.as_str(), l, offset) {
                    Some(n) => n <= now,
                    None => false,
                },
            };
            proof {
                assert(table.take(i as int + 1).drop_last() =~= table.take(i as int));
                assert(table.take(i as int + 1).last() == table[i as int]);
                assert(table[i as int] == job@);
            }
            if is_due {
                fired.push(Firing { guild_id: job.guild_id, kind: job.kind });
            }
            i = i + 1;
        }
        assert(table.take(i as int) =~= table);
        self.last_tick = Some(now);
        TickReport { rebuilt, skipped, fired }
    }
}

} // verus!

verus! {

/// A firing is among the firings of a tick exactly when some job of the
/// table has its guild and edge and is due.
proof fn lemma_fired_contains(
    jobs: Seq<JobView>,
    last: Option<i64>,
    now: i64,
    offset: i32,
    f: Firing,
)
    ensures
        fired_of(jobs, last, now, offset).contains(f) <==> exists|i: int|
            0 <= i < jobs.len() && #[trigger] jobs[i].guild_id == f.guild_id && jobs[i].kind
                == f.kind && due(jobs[i].expr, last, now, offset),
    decreases jobs.len(),
{
    if jobs.len() > 0 {
        let init = jobs.drop_last();
        lemma_fired_contains(init, last, now, offset, f);
        let rest = fired_of(init, last, now, offset);
        let j = jobs.last();
        if fired_of(jobs, last, now, offset).contains(f) {
            if due(j.expr, last, now, offset) && !rest.contains(f) {
                let k = choose|k: int|
                    0 <= k < rest.push(Firing { guild_id: j.guild_id, kind: j.kind }).len()
                        && rest.push(Firing { guild_id: j.guild_id, kind: j.kind })[k] == f;
                assert(k == rest.len());
                assert(jobs[jobs.len() - 1].guild_id == f.guild_id);
            } else {
                let i = choose|i: int|
                    0 <= i < init.len() && #[trigger] init[i].guild_id == f.guild_id
                        && init[i].kind == f.kind && due(init[i].expr, last, now, offset);
                assert(jobs[i] == init[i]);
            }
        }
        if exists|i: int|
            0 <= i < jobs.len() && #[trigger] jobs[i].guild_id == f.guild_id && jobs[i].kind
                == f.kind && due(jobs[i].expr, last, now, offset) {
            let i = choose|i: int|
                0 <= i < jobs.len() && #[trigger] jobs[i].guild_id == f.guild_id && jobs[i].kind
                    == f.kind && due(jobs[i].expr, last, now, offset);
            if i < init.len() {
                assert(init[i] == jobs[i]);
                let k = choose|k: int| 0 <= k < rest.len() && rest[k] == f;
                if due(j.expr, last, now, offset) {
                    assert(fired_of(jobs, last, now, offset)[k] == f);
                }
            } else {
                let out = fired_of(jobs, last, now, offset);
                assert(out[out.len() - 1] == f);
            }
        }
    }
}

/// On a table built from the committed configurations, as a reload builds
/// it, a guild's start (or end) fires at a tick exactly when the schedule
/// that is committed for it now is due: the schedule it had before the
/// reload plays no part.
pub proof fn lemma_reloaded_table_follows_store(
    store: Map<u64, GuildConfigView>,
    jobs: Seq<JobView>,
    guild: u64,
    kind: JobKind,
    last: Option<i64>,
    now: i64,
    offset: i32,
)
    requires
        table_for(store, jobs),
        store.contains_key(guild),
    ensures
        fired_of(jobs, last, now, offset).contains(Firing { guild_id: guild, kind }) <==> valid_config(
            store[guild],
        ) && due(expr_of(store[guild], kind), last, now, offset),
{
    let f = Firing { guild_id: guild, kind };
    lemma_fired_contains(jobs, last, now, offset, f);
    if valid_config(store[guild]) {
        assert(has_job(jobs, guild, kind));
    }
}

} // verus!
