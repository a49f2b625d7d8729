use dorothy::ids::{role_list_to_mentions as role_id_lines, user_list_to_mentions};
use dorothy::mention::role_list_to_mentions;
use dorothy::model::{Emoji, GameInfo, GuildConfig};
use dorothy::notify::{
    game_result, process_start, start_announcement, EndStep, Field, ReactionTracker, Reactor,
    StartStep,
};
use dorothy::store::ConfigStore;
use dorothy::summary::describe_config;
use dorothy::utils::FoldError;

fn game(name: &str, emoji: Emoji, channel: u64, roles: Option<Vec<u64>>) -> GameInfo {
    GameInfo { name: name.to_string(), emoji, role_ids: roles, channel_id: channel }
}

fn shark() -> Emoji {
    Emoji::Unicode("🦈".to_string())
}

fn guild_config() -> GuildConfig {
    let mut c = GuildConfig::default();
    c.channel_id = 376355712223412225;
    c.start = "0 * * * * *".to_string();
    c.end = "30 * * * * *".to_string();
    c.role_ids = Some(vec![376685245409525760]);
    c.games = vec![
        game("légoléjande", shark(), 491722712562139136, Some(vec![491723066372653057])),
        game(
            "overwatch",
            Emoji::Custom { animated: false, id: 123, name: Some("gun".to_string()) },
            491722745500008458,
            None,
        ),
    ];
    c
}

fn field_pairs(fields: &[Field]) -> Vec<(String, String, bool)> {
    fields.iter().map(|f| (f.name.clone(), f.value.clone(), f.inline)).collect()
}

fn users(ids: &[(u64, bool)]) -> Vec<Reactor> {
    ids.iter().map(|&(user_id, bot)| Reactor { user_id, bot }).collect()
}

#[test]
fn role_mentions_are_joined_with_commas() {
    assert_eq!(role_list_to_mentions(&None), "");
    assert_eq!(role_list_to_mentions(&Some(vec![])), "");
    assert_eq!(role_list_to_mentions(&Some(vec![1, 20])), "<@&1>, <@&20>");
}

#[test]
fn start_announcement_lists_each_game() {
    let a = start_announcement(&guild_config()).unwrap().unwrap();
    assert_eq!(a.channel_id, 376355712223412225);
    assert_eq!(a.content, "<@&376685245409525760>");
    assert_eq!(
        field_pairs(&a.fields),
        vec![(
            "Games".to_string(),
            "🦈 -> légoléjande\n<:gun:123> -> overwatch".to_string(),
            false
        )]
    );
    assert_eq!(a.reactions.len(), 2);
    assert!(matches!(&a.reactions[0], Emoji::Unicode(s) if s == "🦈"));
    assert!(matches!(&a.reactions[1], Emoji::Custom { id: 123, .. }));
}

#[test]
fn custom_emoji_without_name_renders_empty_name() {
    let mut c = guild_config();
    c.games = vec![game("x", Emoji::Custom { animated: true, id: 9, name: None }, 1, None)];
    let a = start_announcement(&c).unwrap().unwrap();
    assert_eq!(a.fields[0].value, "<::9> -> x");
}

#[test]
fn many_games_spill_into_continued_fields() {
    let mut c = guild_config();
    c.role_ids = None;
    c.games = (0..10).map(|i| game(&format!("{}{}", "g".repeat(200), i), shark(), 1, None)).collect();
    let a = start_announcement(&c).unwrap().unwrap();
    assert_eq!(a.content, "");
    let names: Vec<&str> = a.fields.iter().map(|f| f.name.as_str()).collect();
    // Each line is 4 + 4 + 201 = 209 bytes: four fit in 900.
    assert_eq!(names, vec!["Games", "Games (cont)", "Games (cont)"]);
    assert_eq!(a.fields[0].value.lines().count(), 4);
    assert_eq!(a.fields[2].value.lines().count(), 2);
}

#[test]
fn no_game_means_nothing_to_announce() {
    let mut c = guild_config();
    c.games = Vec::new();
    assert!(start_announcement(&c).unwrap().is_none());
    let store = ConfigStore::from_entries(vec![(1, c)]);
    assert!(matches!(process_start(&store, 1), StartStep::NothingToAnnounce));
}

#[test]
fn overlong_game_line_aborts_the_announcement() {
    let mut c = guild_config();
    c.games = vec![game(&"n".repeat(1000), shark(), 1, None)];
    assert!(matches!(start_announcement(&c), Err(FoldError::ItemTooLarge)));
    let store = ConfigStore::from_entries(vec![(1, c)]);
    assert!(matches!(process_start(&store, 1), StartStep::ItemTooLarge));
}

#[test]
fn start_without_config_is_reported() {
    let store = ConfigStore::new();
    assert!(matches!(process_start(&store, 1), StartStep::ConfigNotFound));
}

#[test]
fn start_posts_to_configured_channel() {
    let store = ConfigStore::from_entries(vec![(1, guild_config())]);
    match process_start(&store, 1) {
        StartStep::Post(a) => assert_eq!(a.channel_id, 376355712223412225),
        _ => panic!("expected an announcement"),
    }
}

#[test]
fn game_result_mentions_human_players() {
    let g = game("chess", shark(), 77, Some(vec![3]));
    let r = game_result(&g, &users(&[(5, false), (6, true), (7, false)])).unwrap().unwrap();
    assert_eq!(r.channel_id, 77);
    assert_eq!(r.content, "<@&3>");
    assert_eq!(
        field_pairs(&r.fields),
        vec![("🦈 chess".to_string(), "<@5>, <@7>".to_string(), false)]
    );
}

#[test]
fn game_without_players_is_skipped() {
    let g = game("chess", shark(), 77, None);
    assert!(game_result(&g, &users(&[])).unwrap().is_none());
    assert!(game_result(&g, &users(&[(1, true), (2, true)])).unwrap().is_none());
}

#[test]
fn many_players_spill_into_continued_fields() {
    let g = game("chess", shark(), 77, None);
    let many: Vec<(u64, bool)> = (0..100).map(|i| (100_000_000_000_000_000 + i, false)).collect();
    let r = game_result(&g, &users(&many)).unwrap().unwrap();
    // Each mention is 21 bytes: 42 fit in 900.
    assert_eq!(r.fields.len(), 3);
    assert_eq!(r.fields[1].name, "🦈 chess (cont)");
    assert_eq!(r.fields[0].value.split(", ").count(), 42);
    assert!(r.fields[0].value.starts_with("<@100000000000000000>, <@100000000000000001>"));
}

#[test]
fn end_event_collects_then_is_a_no_op() {
    let store = ConfigStore::from_entries(vec![(1, guild_config())]);
    let mut pending = ReactionTracker::new();
    pending.record(376355712223412225, 999);
    let channel = match pending.process_end(&store, 1) {
        EndStep::Collect { channel_id, message_id, games } => {
            assert_eq!(message_id, 999);
            assert_eq!(games.len(), 2);
            channel_id
        }
        _ => panic!("expected reactions to collect"),
    };
    pending.finish(channel);
    assert!(matches!(
        pending.process_end(&store, 1),
        EndStep::MessageNotFound { channel_id: 376355712223412225 }
    ));
    assert!(matches!(pending.process_end(&store, 2), EndStep::ConfigNotFound));
}

#[test]
fn tracker_keeps_one_message_per_channel() {
    let mut pending = ReactionTracker::new();
    pending.record(1, 10);
    pending.record(1, 11);
    pending.record(2, 20);
    assert_eq!(pending.lookup(1), Some(11));
    assert_eq!(pending.lookup(2), Some(20));
    pending.finish(1);
    assert_eq!(pending.lookup(1), None);
    pending.finish(1);
    assert_eq!(pending.lookup(2), Some(20));
}

#[test]
fn configuration_summary_fields() {
    let fields = field_pairs(&describe_config(&guild_config()));
    assert_eq!(
        fields,
        vec![
            ("Channel".to_string(), "<#376355712223412225>".to_string(), false),
            (
                "Event times".to_string(),
                "Starts: 0 * * * * *\n  Ends: 30 * * * * *\n".to_string(),
                true
            ),
            ("Roles".to_string(), "<@&376685245409525760>".to_string(), false),
            (
                "🦈 légoléjande".to_string(),
                "In <#491722712562139136>, <@&491723066372653057>".to_string(),
                false
            ),
            ("<:gun:123> overwatch".to_string(), "In <#491722745500008458>, None".to_string(), false),
        ]
    );
}

#[test]
fn id_listing_pairs_mentions_with_ids() {
    assert_eq!(user_list_to_mentions(&vec![1, 22]).unwrap(), vec!["<@1> -> 1\n<@22> -> 22"]);
    assert_eq!(role_id_lines(&vec![305]).unwrap(), vec!["<@&305> -> 305"]);
    assert_eq!(user_list_to_mentions(&vec![]).unwrap(), Vec::<String>::new());
}
