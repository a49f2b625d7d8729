use dorothy::model::GuildConfig;
use dorothy::scheduler::{Firing, JobKind, Scheduler};
use dorothy::store::{ConfigStore, DraftStore};

/// Second 0 of a minute, in UTC.
const MINUTE: i64 = 1_699_999_980;

fn config(start: &str, end: &str) -> GuildConfig {
    let mut c = GuildConfig::default();
    c.channel_id = 100;
    c.start = start.to_string();
    c.end = end.to_string();
    c
}

fn start(guild: u64) -> Firing {
    Firing { guild_id: guild, kind: JobKind::Start }
}

fn end(guild: u64) -> Firing {
    Firing { guild_id: guild, kind: JobKind::End }
}

#[test]
fn first_tick_builds_the_table_and_fires_nothing() {
    let store = ConfigStore::from_entries(vec![(1, config("* * * * * *", "* * * * * *"))]);
    let mut sched = Scheduler::new();
    assert!(sched.reload_pending());
    let r = sched.tick(&store, MINUTE, 0);
    assert!(r.rebuilt);
    assert!(r.skipped.is_empty());
    assert!(r.fired.is_empty());
    assert_eq!(sched.job_count(), 2);
    assert!(!sched.reload_pending());
}

#[test]
fn jobs_fire_once_per_tick_when_their_schedule_is_due() {
    let store = ConfigStore::from_entries(vec![(1, config("0 * * * * *", "30 * * * * *"))]);
    let mut sched = Scheduler::new();
    sched.tick(&store, MINUTE - 5, 0);
    assert_eq!(sched.tick(&store, MINUTE, 0).fired, vec![start(1)]);
    assert_eq!(sched.tick(&store, MINUTE + 10, 0).fired, vec![]);
    assert_eq!(sched.tick(&store, MINUTE + 30, 0).fired, vec![end(1)]);
    // A long gap covering both instants fires each job once.
    assert_eq!(sched.tick(&store, MINUTE + 200, 0).fired, vec![start(1), end(1)]);
}

#[test]
fn rehash_picks_up_new_schedule() {
    let mut store = ConfigStore::new();
    let mut drafts = DraftStore::new();
    drafts.create(1, 100, "0 * * * * *".to_string(), "50 * * * * *".to_string()).unwrap();
    drafts.commit(1, &mut store).unwrap();
    let mut sched = Scheduler::new();
    sched.tick(&store, MINUTE - 5, 0);
    assert_eq!(sched.tick(&store, MINUTE, 0).fired, vec![start(1)]);

    drafts.set_core(1, 100, "30 * * * * *".to_string(), "45 * * * * *".to_string()).unwrap();
    drafts.commit(1, &mut store).unwrap();
    sched.request_reload();

    let at_thirty = sched.tick(&store, MINUTE + 30, 0);
    assert!(at_thirty.rebuilt);
    assert_eq!(at_thirty.fired, vec![start(1)]);

    let at_zero = sched.tick(&store, MINUTE + 60, 0);
    assert!(!at_zero.rebuilt);
    assert!(!at_zero.fired.contains(&start(1)));
    assert_eq!(at_zero.fired, vec![end(1)]);
}

#[test]
fn without_reload_the_old_table_stays() {
    let mut store = ConfigStore::from_entries(vec![(1, config("0 * * * * *", "50 * * * * *"))]);
    let mut sched = Scheduler::new();
    sched.tick(&store, MINUTE - 5, 0);
    store.upsert(1, config("30 * * * * *", "50 * * * * *"));
    assert_eq!(sched.tick(&store, MINUTE + 30, 0).fired, vec![start(1)]);
    assert_eq!(sched.tick(&store, MINUTE + 40, 0).fired, vec![]);
}

#[test]
fn reload_requests_coalesce_into_one_rebuild() {
    let store = ConfigStore::from_entries(vec![(1, config("0 * * * * *", "30 * * * * *"))]);
    let mut sched = Scheduler::new();
    sched.tick(&store, MINUTE, 0);
    sched.request_reload();
    sched.request_reload();
    assert!(sched.reload_pending());
    assert!(sched.tick(&store, MINUTE + 1, 0).rebuilt);
    assert!(!sched.tick(&store, MINUTE + 2, 0).rebuilt);
}

#[test]
fn malformed_guild_is_skipped_and_others_kept() {
    let store = ConfigStore::from_entries(vec![
        (1, config("0 * * * * *", "30 * * * * *")),
        (2, config("not a schedule", "30 * * * * *")),
    ]);
    let mut sched = Scheduler::new();
    let r = sched.tick(&store, MINUTE - 5, 0);
    assert_eq!(r.skipped, vec![2]);
    assert_eq!(sched.job_count(), 2);
    assert_eq!(sched.tick(&store, MINUTE, 0).fired, vec![start(1)]);
}

#[test]
fn schedules_are_read_in_the_given_time_zone() {
    // Second 0 of hour 10 in a zone one hour east of UTC is 09:00:00 UTC.
    let store = ConfigStore::from_entries(vec![(1, config("0 0 10 * * *", "0 0 11 * * *"))]);
    let nine_utc: i64 = 1_700_038_800; // 2023-11-15T09:00:00Z
    let mut sched = Scheduler::new();
    sched.tick(&store, nine_utc - 10, 3600);
    assert_eq!(sched.tick(&store, nine_utc, 3600).fired, vec![start(1)]);
    let mut utc = Scheduler::new();
    utc.tick(&store, nine_utc - 10, 0);
    assert_eq!(utc.tick(&store, nine_utc, 0).fired, vec![]);
}
