use dorothy::model::{Emoji, GameInfo, GuildConfig};
use dorothy::store::{check_expressions, CommitError, ConfigStore, DraftStore, ValidationError};

const EVERY_MINUTE: &str = "0 * * * * *";
const HALF_MINUTE: &str = "30 * * * * *";

fn game(name: &str, emoji: &str, channel: u64) -> GameInfo {
    GameInfo {
        name: name.to_string(),
        emoji: Emoji::Unicode(emoji.to_string()),
        role_ids: None,
        channel_id: channel,
    }
}

#[test]
fn expressions_are_checked_start_first() {
    assert_eq!(check_expressions(EVERY_MINUTE, HALF_MINUTE), Ok(()));
    assert_eq!(check_expressions("not cron", HALF_MINUTE), Err(ValidationError::BadStart));
    assert_eq!(check_expressions(EVERY_MINUTE, "61 * * * * *"), Err(ValidationError::BadEnd));
    assert_eq!(check_expressions("", ""), Err(ValidationError::BadStart));
}

#[test]
fn create_starts_a_fresh_draft() {
    let mut drafts = DraftStore::new();
    drafts.add_roles(7, vec![1, 2]);
    assert_eq!(drafts.create(7, 42, EVERY_MINUTE.to_string(), HALF_MINUTE.to_string()), Ok(()));
    let d = drafts.draft(7).unwrap();
    assert_eq!(d.channel_id, 42);
    assert_eq!(d.start, EVERY_MINUTE);
    assert_eq!(d.end, HALF_MINUTE);
    assert!(d.role_ids.is_none());
    assert!(d.games.is_empty());
}

#[test]
fn create_with_bad_expression_changes_nothing() {
    let mut drafts = DraftStore::new();
    assert_eq!(
        drafts.create(7, 42, "bad".to_string(), HALF_MINUTE.to_string()),
        Err(ValidationError::BadStart)
    );
    assert!(drafts.draft(7).is_none());
}

#[test]
fn set_core_with_bad_expression_leaves_draft_unchanged() {
    let mut drafts = DraftStore::new();
    drafts.create(7, 42, EVERY_MINUTE.to_string(), HALF_MINUTE.to_string()).unwrap();
    drafts.add_roles(7, vec![5]);
    let r = drafts.set_core(7, 99, EVERY_MINUTE.to_string(), "every tuesday".to_string());
    assert_eq!(r, Err(ValidationError::BadEnd));
    let d = drafts.draft(7).unwrap();
    assert_eq!(d.channel_id, 42);
    assert_eq!(d.start, EVERY_MINUTE);
    assert_eq!(d.end, HALF_MINUTE);
    assert_eq!(d.role_ids, Some(vec![5]));
}

#[test]
fn set_core_with_bad_expression_creates_no_draft() {
    let mut drafts = DraftStore::new();
    let r = drafts.set_core(7, 99, "x".to_string(), HALF_MINUTE.to_string());
    assert_eq!(r, Err(ValidationError::BadStart));
    assert!(drafts.draft(7).is_none());
}

#[test]
fn set_core_keeps_roles_and_games() {
    let mut drafts = DraftStore::new();
    drafts.add_roles(7, vec![5]);
    drafts.add_game(7, game("chess", "♟", 11));
    assert_eq!(drafts.set_core(7, 99, HALF_MINUTE.to_string(), EVERY_MINUTE.to_string()), Ok(()));
    let d = drafts.draft(7).unwrap();
    assert_eq!(d.channel_id, 99);
    assert_eq!(d.start, HALF_MINUTE);
    assert_eq!(d.end, EVERY_MINUTE);
    assert_eq!(d.role_ids, Some(vec![5]));
    assert_eq!(d.games.len(), 1);
    assert_eq!(d.games[0].name, "chess");
}

#[test]
fn add_roles_appends_to_earlier_roles() {
    let mut drafts = DraftStore::new();
    drafts.add_roles(3, vec![1, 2]);
    drafts.add_roles(3, vec![3]);
    drafts.add_roles(3, vec![]);
    assert_eq!(drafts.draft(3).unwrap().role_ids, Some(vec![1, 2, 3]));
}

#[test]
fn add_game_appends_in_order() {
    let mut drafts = DraftStore::new();
    drafts.add_game(3, game("a", "🦈", 1));
    drafts.add_game(3, game("b", "🔫", 2));
    let d = drafts.draft(3).unwrap();
    let names: Vec<&str> = d.games.iter().map(|g| g.name.as_str()).collect();
    assert_eq!(names, vec!["a", "b"]);
    assert_eq!(d.start, "");
}

#[test]
fn commit_without_draft_fails() {
    let drafts = DraftStore::new();
    let mut store = ConfigStore::new();
    assert_eq!(drafts.commit(1, &mut store), Err(CommitError::NoDraft));
    assert!(store.get(1).is_none());
}

#[test]
fn commit_of_draft_without_expressions_is_refused() {
    let mut drafts = DraftStore::new();
    drafts.add_roles(1, vec![9]);
    let mut store = ConfigStore::new();
    assert_eq!(
        drafts.commit(1, &mut store),
        Err(CommitError::Invalid(ValidationError::BadStart))
    );
    assert!(store.get(1).is_none());
}

#[test]
fn commit_copies_the_draft_and_keeps_it() {
    let mut drafts = DraftStore::new();
    drafts.create(1, 42, EVERY_MINUTE.to_string(), HALF_MINUTE.to_string()).unwrap();
    drafts.add_game(1, game("go", "⚫", 8));
    let mut store = ConfigStore::new();
    assert_eq!(drafts.commit(1, &mut store), Ok(()));
    let c = store.get(1).unwrap();
    assert_eq!(c.channel_id, 42);
    assert_eq!(c.games.len(), 1);
    assert!(drafts.draft(1).is_some());
    assert_eq!(store.guild_ids(), vec![1]);
}

#[test]
fn get_or_create_prefers_draft_then_committed_then_empty() {
    let mut store = ConfigStore::new();
    let mut committed = GuildConfig::default();
    committed.channel_id = 5;
    committed.start = EVERY_MINUTE.to_string();
    committed.end = HALF_MINUTE.to_string();
    store.upsert(1, committed);
    let mut drafts = DraftStore::new();
    let seeded = drafts.get_or_create(&store, 1);
    assert_eq!(seeded.channel_id, 5);
    assert_eq!(seeded.start, EVERY_MINUTE);
    drafts.set_core(1, 6, EVERY_MINUTE.to_string(), HALF_MINUTE.to_string()).unwrap();
    assert_eq!(drafts.get_or_create(&store, 1).channel_id, 6);
    let empty = drafts.get_or_create(&store, 2);
    assert_eq!(empty.channel_id, 0);
    assert_eq!(empty.start, "");
    assert!(drafts.draft(2).is_some());
}

#[test]
fn later_entries_win_when_loading() {
    let mut a = GuildConfig::default();
    a.channel_id = 1;
    let mut b = GuildConfig::default();
    b.channel_id = 2;
    let mut c = GuildConfig::default();
    c.channel_id = 3;
    let store = ConfigStore::from_entries(vec![(10, a), (20, b), (10, c)]);
    assert_eq!(store.get(10).unwrap().channel_id, 3);
    assert_eq!(store.get(20).unwrap().channel_id, 2);
    assert!(store.get(30).is_none());
    let mut ids = store.guild_ids();
    ids.sort();
    assert_eq!(ids, vec![10, 20]);
}

#[test]
fn upsert_replaces_and_lists_each_guild_once() {
    let mut store = ConfigStore::new();
    store.upsert(4, GuildConfig::default());
    let mut c = GuildConfig::default();
    c.channel_id = 8;
    store.upsert(4, c);
    assert_eq!(store.get(4).unwrap().channel_id, 8);
    assert_eq!(store.guild_ids(), vec![4]);
}

#[test]
fn entries_load_back_into_the_same_store() {
    let mut drafts = DraftStore::new();
    drafts.create(1, 42, EVERY_MINUTE.to_string(), HALF_MINUTE.to_string()).unwrap();
    drafts.add_roles(1, vec![7, 8]);
    drafts.add_game(1, game("go", "⚫", 8));
    drafts.create(2, 43, HALF_MINUTE.to_string(), EVERY_MINUTE.to_string()).unwrap();
    let mut store = ConfigStore::new();
    drafts.commit(1, &mut store).unwrap();
    drafts.commit(2, &mut store).unwrap();
    let entries = store.entries();
    assert_eq!(entries.iter().map(|e| e.0).collect::<Vec<u64>>(), vec![1, 2]);
    let loaded = ConfigStore::from_entries(entries);
    for guild in [1, 2] {
        let a = store.get(guild).unwrap();
        let b = loaded.get(guild).unwrap();
        assert_eq!(a.channel_id, b.channel_id);
        assert_eq!(a.start, b.start);
        assert_eq!(a.end, b.end);
        assert_eq!(a.role_ids, b.role_ids);
        assert_eq!(a.games.len(), b.games.len());
    }
    assert_eq!(loaded.guild_ids(), vec![1, 2]);
}
