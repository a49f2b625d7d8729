//! The summary of a configuration that operators see after each edit.
use vstd::prelude::*;

use crate::mention::{
    channel_mention, channel_mention_text, emoji_text, emoji_text_of, role_list_to_mentions,
    role_mentions_of,
};
use crate::model::{opt_ids_view, GameInfo, GameInfoView, GuildConfig, GuildConfigView};
use crate::notify::{fields_view, Field, FieldView};

verus! {

/// The configured roles' mentions joined by `, `, or `None` where no role
/// list is configured.
pub open spec fn roles_text(ids: Option<Seq<u64>>) -> Seq<char> {
    match ids {
        None => "None"@,
        Some(_) => role_mentions_of(ids),
    }
}

/// `Starts: {start}\n  Ends: {end}\n`.
pub open spec fn times_text(c: GuildConfigView) -> Seq<char> {
    "Starts: "@ + c.start + "\n  Ends: "@ + c.end + "\n"@
}

/// The field of a game: `{emoji} {name}`, then where its result goes and
/// whom it mentions.
pub open spec fn game_summary(g: GameInfoView) -> FieldView {
    FieldView {
        name: emoji_text_of(g.emoji) + " "@ + g.name,
        value: "In "@ + channel_mention_text(g.channel_id) + ", "@ + roles_text(g.role_ids),
        inline: false,
    }
}

/// The fields that summarize a configuration: its channel, its event times
/// (shown inline), its roles, and one field per game.
pub open spec fn config_summary(c: GuildConfigView) -> Seq<FieldView> {
    seq![
        FieldView { name: "Channel"@, value: channel_mention_text(c.channel_id), inline: false },
        FieldView { name: "Event times"@, value: times_text(c), inline: true },
        FieldView { name: "Roles"@, value: roles_text(c.role_ids), inline: false },
    ] + c.games.map_values(|g: GameInfoView| game_summary(g))
}

fn roles_line(roles: &Option<Vec<u64>>) -> (r: String)
    ensures
        r@ == roles_text(opt_ids_view(*roles)),
{
    match roles {
        None => String::from_str("None"),
        Some(_) => role_list_to_mentions(roles),
    }
}

fn summarize_game(g: &GameInfo) -> (r: Field)
    ensures
        r@ == game_summary(g@),
{
    let mut name = emoji_text(&g.emoji);
    name.append(" ");
    name.append(g.name.as_str());
    let mut value = String::from_str("In ");
    value.append(channel_mention(g.channel_id).as_str());
    value.append(", ");
    value.append(roles_line(&g.role_ids).as_str());
    Field { name, value, inline: false }
}

/// Summarizes `config` for the operator who edits it.
pub fn describe_config(config: &GuildConfig) -> (r: Vec<Field>)
    ensures
        fields_view(r@) == config_summary(config@),
{
    let mut times = String::from_str("Starts: ");
    times.append(config.start.as_str());
    times.append("\n  Ends: ");
    times.append(config.end.as_str());
    times.append("\n");
    let mut r: Vec<Field> = Vec::new();
    r.push(
        Field {
            name: String::from_str("Channel"),
            value: channel_mention(config.channel_id),
            inline: false,
        },
    );
    r.push(Field { name: String::from_str("Event times"), value: times, inline: true });
    r.push(
        Field {
            name: String::from_str("Roles"),
            value: roles_line(&config.role_ids),
            inline: false,
        },
    );
    let ghost head = fields_view(r@);
    let ghost games = config@.games.map_values(|g: GameInfoView| game_summary(g));
    assert(head =~= config_summary(config@).take(3));
    let mut i: usize = 0;
    while i < config.games.len()
        invariant
            i <= config.games.len(),
            games == config@.games.map_values(|g: GameInfoView| game_summary(g)),
            fields_view(r@) == head + games.take(i as int),
            head == config_summary(config@).take(3),
        decreases config.games.len() - i,
    {
        let f = summarize_game(&config.games[i]);
        let ghost before = r@;
        r.push(f);
        assert(fields_view(r@) =~= fields_view(before).push(f@));
        i = i + 1;
        assert(fields_view(r@) =~= head + games.take(i as int));
    }
    assert(head + games.take(i as int) =~= config_summary(config@));
    r
}

} // verus!
