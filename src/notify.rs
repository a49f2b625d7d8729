//! The start and end announcements: which message to post for a guild, and
//! the tracking of the start announcement until the end event reads its
//! reactions.
use vstd::prelude::*;

use std::collections::HashMap;

use crate::mention::{
    emoji_text, emoji_text_of, join, join_strings, role_list_to_mentions, role_mentions_of,
    user_mention, user_mention_text,
};
use crate::model::{
    Emoji, EmojiView, GameInfo, GameInfoView, GuildConfig, GuildConfigView,
};
use crate::store::ConfigStore;
use crate::utils::{
    all_fit, batches_of, batches_view, fold_strings, lemma_fold_batches, strings_view,
    FoldError,
};

verus! {

broadcast use vstd::std_specs::hash::group_hash_axioms;

/// The byte budget of one field of a message.
pub const FIELD_BUDGET: usize = 900;

/// A titled block of text within a message, shown beside its neighbours
/// where `inline` is set and on a line of its own otherwise.
pub struct Field {
    pub name: String,
    pub value: String,
    pub inline: bool,
}

pub ghost struct FieldView {
    pub name: Seq<char>,
    pub value: Seq<char>,
    pub inline: bool,
}

impl View for Field {
    type V = FieldView;

    open spec fn view(&self) -> FieldView {
        FieldView { name: self.name@, value: self.value@, inline: self.inline }
    }
}

pub open spec fn fields_view(v: Seq<Field>) -> Seq<FieldView> {
    v.map_values(|f: Field| f@)
}

/// ` (cont)`: the mark of a field that continues the one before.
pub open spec fn cont_suffix() -> Seq<char> {
    seq![' ', '(', 'c', 'o', 'n', 't', ')']
}

/// The fields of a message whose values are `values`: the first one named
/// `title`, each later one `title (cont)`.
pub open spec fn titled_fields(title: Seq<char>, values: Seq<Seq<char>>) -> Seq<FieldView> {
    Seq::new(
        values.len(),
        |i: int|
            FieldView {
                name: if i == 0 {
                    title
                } else {
                    title + cont_suffix()
                },
                value: values[i],
                inline: false,
            },
    )
}

/// The text of each batch, its strings joined by `sep`.
pub open spec fn joined_batches(batches: Seq<Seq<Seq<char>>>, sep: Seq<char>) -> Seq<Seq<char>> {
    batches.map_values(|b: Seq<Seq<char>>| join(b, sep))
}

/// Joins the strings of each batch with `sep`.
pub(crate) fn join_batches(batches: &Vec<Vec<String>>, sep: &str) -> (r: Vec<String>)
    ensures
        strings_view(r@) == joined_batches(batches_view(batches@), sep@),
{
    let mut r: Vec<String> = Vec::new();
    let mut i: usize = 0;
    while i < batches.len()
        invariant
            i <= batches.len(),
            strings_view(r@) == joined_batches(batches_view(batches@), sep@).take(i as int),
        decreases batches.len() - i,
    {
        let line = join_strings(&batches[i], sep);
        let ghost before = r@;
        r.push(line);
        assert(strings_view(r@) =~= strings_view(before).push(line@));
        i = i + 1;
        assert(strings_view(r@) =~= joined_batches(batches_view(batches@), sep@).take(i as int));
    }
    assert(joined_batches(batches_view(batches@), sep@).take(i as int) =~= joined_batches(
        batches_view(batches@),
        sep@,
    ));
    r
}

/// Names the fields whose values are `values` after `title`.
fn name_fields(title: &String, values: &Vec<String>) -> (r: Vec<Field>)
    ensures
        fields_view(r@) == titled_fields(title@, strings_view(values@)),
{
    let ghost all = strings_view(values@);
    let cont = " (cont)";
    proof {
        reveal_strlit(" (cont)");
    }
    assert(cont@ =~= cont_suffix());
    let mut r: Vec<Field> = Vec::new();
    let mut i: usize = 0;
    while i < values.len()
        invariant
            i <= values.len(),
            all == strings_view(values@),
            cont@ == cont_suffix(),
            fields_view(r@) == titled_fields(title@, all).take(i as int),
        decreases values.len() - i,
    {
        let name = if i == 0 {
            title.clone()
        } else {
            let mut n = title.clone();
            n.append(cont);
            n
        };
        let f = Field { name, value: values[i].clone(), inline: false };
        let ghost before = r@;
        r.push(f);
        assert(fields_view(r@) =~= fields_view(before).push(f@));
        i = i + 1;
        assert(fields_view(r@) =~= titled_fields(title@, all).take(i as int));
    }
    assert(titled_fields(title@, all).take(i as int) =~= titled_fields(title@, all));
    r
}

/// The line that offers a game: `{emoji} -> {name}`.
pub open spec fn game_line_of(g: GameInfoView) -> Seq<char> {
    emoji_text_of(g.emoji) + seq![' ', '-', '>', ' '] + g.name
}

/// The lines of the start announcement, one per game, in order.
pub open spec fn start_lines(c: GuildConfigView) -> Seq<Seq<char>> {
    c.games.map_values(|g: GameInfoView| game_line_of(g))
}

/// `Games`: the name of the fields of the start announcement.
pub open spec fn games_title() -> Seq<char> {
    seq!['G', 'a', 'm', 'e', 's']
}

/// The fields of the start announcement: the game lines packed into
/// batches, each batch's lines joined by newlines.
pub open spec fn start_fields(c: GuildConfigView) -> Seq<FieldView> {
    titled_fields(
        games_title(),
        joined_batches(batches_of(FIELD_BUDGET as nat, start_lines(c)), seq!['\n']),
    )
}

/// The start announcement of a guild: where it goes, whom it mentions, its
/// fields, and the reactions it carries, one per game.
pub struct Announcement {
    pub channel_id: u64,
    pub content: String,
    pub fields: Vec<Field>,
    pub reactions: Vec<Emoji>,
}

pub open spec fn emojis_view(v: Seq<Emoji>) -> Seq<EmojiView> {
    v.map_values(|e: Emoji| e@)
}

/// The emojis of the games of a configuration, in order.
pub open spec fn game_emojis(c: GuildConfigView) -> Seq<EmojiView> {
    c.games.map_values(|g: GameInfoView| g.emoji)
}

/// The lines and the reaction emojis of the start announcement.
fn offer_lines(config: &GuildConfig) -> (r: (Vec<String>, Vec<Emoji>))
    ensures
        strings_view(r.0@) == start_lines(config@),
        emojis_view(r.1@) == game_emojis(config@),
{
    let mut lines: Vec<String> = Vec::new();
    let mut reactions: Vec<Emoji> = Vec::new();
    let mut i: usize = 0;
    while i < config.games.len()
        invariant
            i <= config.games.len(),
            strings_view(lines@) == start_lines(config@).take(i as int),
            emojis_view(reactions@) == game_emojis(config@).take(i as int),
        decreases config.games.len() - i,
    {
        let game = &config.games[i];
        let line = game_line(game);
        let e = game.emoji.duplicate();
        let ghost before_l = lines@;
        let ghost before_e = reactions@;
        lines.push(line);
        reactions.push(e);
        assert(strings_view(lines@) =~= strings_view(before_l).push(line@));
        assert(emojis_view(reactions@) =~= emojis_view(before_e).push(e@));
        i = i + 1;
        assert(strings_view(lines@) =~= start_lines(config@).take(i as int));
        assert(emojis_view(reactions@) =~= game_emojis(config@).take(i as int));
    }
    assert(start_lines(config@).take(i as int) =~= start_lines(config@));
    assert(game_emojis(config@).take(i as int) =~= game_emojis(config@));
    (lines, reactions)
}

/// A batched list is empty exactly when the list is.
proof fn lemma_no_batches_iff_empty(budget: nat, items: Seq<Seq<char>>)
    requires
        all_fit(budget, items),
    ensures
        batches_of(budget, items).len() == 0 <==> items.len() == 0,
{
    lemma_fold_batches(budget, items);
    if items.len() == 0 {
        assert(batches_of(budget, items) =~= Seq::<Seq<Seq<char>>>::empty());
    } else if batches_of(budget, items).len() == 0 {
        assert(batches_of(budget, items).flatten() =~= Seq::<Seq<char>>::empty());
    }
}

/// The line that offers `game`.
fn game_line(game: &GameInfo) -> (r: String)
    ensures
        r@ == game_line_of(game@),
{
    let mut r = emoji_text(&game.emoji);
    let arrow = " -> ";
    proof {
        reveal_strlit(" -> ");
    }
    r.append(arrow);
    r.append(game.name.as_str());
    r
}

/// Composes the start announcement of a configuration. Fails with
/// `ItemTooLarge` where a game line is longer than the field budget; gives
/// nothing where there is no game to offer.
pub fn start_announcement(config: &GuildConfig) -> (r: Result<Option<Announcement>, FoldError>)
    ensures
        r is Err <==> !all_fit(FIELD_BUDGET as nat, start_lines(config@)),
        r matches Ok(None) ==> config@.games.len() == 0,
        r matches Ok(Some(a)) ==> {
            &&& config@.games.len() > 0
            &&& a.channel_id == config@.channel_id
            &&& a.content@ == role_mentions_of(config@.role_ids)
            &&& fields_view(a.fields@) == start_fields(config@)
            &&& emojis_view(a.reactions@) == game_emojis(config@)
        },
        all_fit(FIELD_BUDGET as nat, start_lines(config@)) && config@.games.len() > 0 ==> r is Ok
            && r->Ok_0 is Some,
{
    let (lines, reactions) = offer_lines(config);
    let batches = match fold_strings(FIELD_BUDGET, lines) {
        Ok(b) => b,
        Err(e) => {
            return Err(e);
        },
    };
    proof {
        lemma_no_batches_iff_empty(FIELD_BUDGET as nat, start_lines(config@));
    }
    if batches.len() == 0 {
        return Ok(None);
    }
    let newline = "\n";
    proof {
        reveal_strlit("\n");
    }
    let values = join_batches(&batches, newline);
    let title = String::from_str("Games");
    proof {
        reveal_strlit("Games");
    }
    assert(title@ =~= games_title());
    assert(newline@ =~= seq!['\n']);
    let fields = name_fields(&title, &values);
    let content = role_list_to_mentions(&config.role_ids);
    Ok(Some(Announcement { channel_id: config.channel_id, content, fields, reactions }))
}

} // verus!

verus! {

/// A user who reacted to the start announcement.
#[derive(PartialEq, Eq, Structural, Debug, Clone, Copy)]
pub struct Reactor {
    pub user_id: u64,
    pub bot: bool,
}

/// The mentions of the users who reacted, bots left out, in order.
pub open spec fn player_mentions(users: Seq<Reactor>) -> Seq<Seq<char>>
    decreases users.len(),
{
    if users.len() == 0 {
        Seq::empty()
    } else {
        let rest = player_mentions(users.drop_last());
        if users.last().bot {
            rest
        } else {
            rest.push(user_mention_text(users.last().user_id))
        }
    }
}

/// `{emoji} {name}`: the title of a game's result.
pub open spec fn result_title(g: GameInfoView) -> Seq<char> {
    emoji_text_of(g.emoji) + seq![' '] + g.name
}

/// The fields of a game's result: the players' mentions packed into batches,
/// each batch joined by `, `.
pub open spec fn result_fields(g: GameInfoView, users: Seq<Reactor>) -> Seq<FieldView> {
    titled_fields(
        result_title(g),
        joined_batches(batches_of(FIELD_BUDGET as nat, player_mentions(users)), seq![',', ' ']),
    )
}

/// The result message of one game: where it goes, whom it mentions, and the
/// players who signed up.
pub struct GameResult {
    pub channel_id: u64,
    pub content: String,
    pub fields: Vec<Field>,
}

/// The mentions of the players among `users`.
fn mentions_of_players(users: &Vec<Reactor>) -> (r: Vec<String>)
    ensures
        strings_view(r@) == player_mentions(users@),
{
    let mut r: Vec<String> = Vec::new();
    let mut i: usize = 0;
    while i < users.len()
        invariant
            i <= users.len(),
            strings_view(r@) == player_mentions(users@.take(i as int)),
        decreases users.len() - i,
    {
        let u = users[i];
        assert(users@.take(i as int + 1).drop_last() =~= users@.take(i as int));
        assert(users@.take(i as int + 1).last() == u);
        if !u.bot {
            let m = user_mention(u.user_id);
            let ghost before = r@;
            r.push(m);
            assert(strings_view(r@) =~= strings_view(before).push(m@));
        }
        i = i + 1;
    }
    assert(users@.take(i as int) =~= users@);
    r
}

/// Composes the result of `game` from the users who reacted with its emoji.
/// Bots are left out. Fails with `ItemTooLarge` where a mention is longer
/// than the field budget; gives nothing where no player signed up.
pub fn game_result(game: &GameInfo, users: &Vec<Reactor>) -> (r: Result<
    Option<GameResult>,
    FoldError,
>)
    ensures
        r is Err <==> !all_fit(FIELD_BUDGET as nat, player_mentions(users@)),
        r matches Ok(None) ==> player_mentions(users@).len() == 0,
        r matches Ok(Some(m)) ==> {
            &&& player_mentions(users@).len() > 0
            &&& m.channel_id == game@.channel_id
            &&& m.content@ == role_mentions_of(game@.role_ids)
            &&& fields_view(m.fields@) == result_fields(game@, users@)
        },
        all_fit(FIELD_BUDGET as nat, player_mentions(users@)) && player_mentions(users@).len() > 0
            ==> r is Ok && r->Ok_0 is Some,
{
    let mentions = mentions_of_players(users);
    let batches = match fold_strings(FIELD_BUDGET, mentions) {
        Ok(b) => b,
        Err(e) => {
            return Err(e);
        },
    };
    proof {
        lemma_no_batches_iff_empty(FIELD_BUDGET as nat, player_mentions(users@));
    }
    if batches.len() == 0 {
        return Ok(None);
    }
    let sep = ", ";
    proof {
        reveal_strlit(", ");
    }
    assert(sep@ =~= seq![',', ' ']);
    let values = join_batches(&batches, sep);
    let mut title = emoji_text(&game.emoji);
    let space = " ";
    proof {
        reveal_strlit(" ");
    }
    title.append(space);
    title.append(game.name.as_str());
    assert(title@ =~= result_title(game@));
    let fields = name_fields(&title, &values);
    let content = role_list_to_mentions(&game.role_ids);
    Ok(Some(GameResult { channel_id: game.channel_id, content, fields }))
}

/// What the start event of a guild comes to.
pub enum StartStep {
    /// The guild has no committed configuration.
    ConfigNotFound,
    /// A game line is longer than the field budget.
    ItemTooLarge,
    /// The configuration offers no game: nothing is posted.
    NothingToAnnounce,
    /// The announcement to post.
    Post(Announcement),
}

/// Decides the start event of `guild`: the announcement to post, or why
/// there is none.
pub fn process_start(store: &ConfigStore, guild: u64) -> (r: StartStep)
    ensures
        r is ConfigNotFound <==> !store@.contains_key(guild),
        r is ItemTooLarge <==> store@.contains_key(guild) && !all_fit(
            FIELD_BUDGET as nat,
            start_lines(store@[guild]),
        ),
        r is NothingToAnnounce <==> store@.contains_key(guild) && all_fit(
            FIELD_BUDGET as nat,
            start_lines(store@[guild]),
        ) && store@[guild].games.len() == 0,
        r matches StartStep::Post(a) ==> {
            &&& a.channel_id == store@[guild].channel_id
            &&& a.content@ == role_mentions_of(store@[guild].role_ids)
            &&& fields_view(a.fields@) == start_fields(store@[guild])
            &&& emojis_view(a.reactions@) == game_emojis(store@[guild])
        },
{
    match store.get(guild) {
        None => StartStep::ConfigNotFound,
        Some(config) => match start_announcement(&config) {
            Err(_) => StartStep::ItemTooLarge,
            Ok(None) => StartStep::NothingToAnnounce,
            Ok(Some(a)) => StartStep::Post(a),
        },
    }
}

/// For each channel, the start announcement that awaits its end event.
pub struct ReactionTracker {
    messages: HashMap<u64, u64>,
}

impl View for ReactionTracker {
    type V = Map<u64, u64>;

    closed spec fn view(&self) -> Map<u64, u64> {
        self.messages@
    }
}

impl ReactionTracker {
    /// A tracker with no announcement.
    pub fn new() -> (r: ReactionTracker)
        ensures
            r@ == Map::<u64, u64>::empty(),
    {
        ReactionTracker { messages: HashMap::new() }
    }

    /// Records `message` as the announcement awaiting the end event in
    /// `channel`, in place of any earlier one.
    pub fn record(&mut self, channel: u64, message: u64)
        ensures
            final(self)@ == old(self)@.insert(channel, message),
    {
        self.messages.insert(channel, message);
    }

    /// The announcement awaiting the end event in `channel`, if any.
    pub fn lookup(&self, channel: u64) -> (r: Option<u64>)
        ensures
            r is None <==> !self@.contains_key(channel),
            r matches Some(m) ==> m == self@[channel],
    {
        match self.messages.get(&channel) {
            Some(m) => Some(*m),
            None => None,
        }
    }

    /// Forgets the announcement of `channel`, once its end event is done.
    pub fn finish(&mut self, channel: u64)
        ensures
            final(self)@ == old(self)@.remove(channel),
    {
        self.messages.remove(&channel);
    }
}

/// What the end event of a guild comes to.
pub enum EndStep {
    /// The guild has no committed configuration.
    ConfigNotFound,
    /// No start announcement awaits the end event in the guild's channel.
    MessageNotFound { channel_id: u64 },
    /// The reactions of each game on this announcement are to be collected;
    /// after that the channel's announcement is to be forgotten.
    Collect { channel_id: u64, message_id: u64, games: Vec<GameInfo> },
}

pub ghost enum EndStepView {
    ConfigNotFound,
    MessageNotFound { channel_id: u64 },
    Collect { channel_id: u64, message_id: u64, games: Seq<GameInfoView> },
}

impl View for EndStep {
    type V = EndStepView;

    open spec fn view(&self) -> EndStepView {
        match self {
            EndStep::ConfigNotFound => EndStepView::ConfigNotFound,
            EndStep::MessageNotFound { channel_id } => EndStepView::MessageNotFound {
                channel_id: *channel_id,
            },
            EndStep::Collect { channel_id, message_id, games } => EndStepView::Collect {
                channel_id: *channel_id,
                message_id: *message_id,
                games: crate::model::games_view(games@),
            },
        }
    }
}

/// The end event of `guild`, given the committed configurations and the
/// pending announcements.
pub open spec fn end_step_of(
    store: Map<u64, GuildConfigView>,
    pending: Map<u64, u64>,
    guild: u64,
) -> EndStepView {
    if !store.contains_key(guild) {
        EndStepView::ConfigNotFound
    } else if !pending.contains_key(store[guild].channel_id) {
        EndStepView::MessageNotFound { channel_id: store[guild].channel_id }
    } else {
        EndStepView::Collect {
            channel_id: store[guild].channel_id,
            message_id: pending[store[guild].channel_id],
            games: store[guild].games,
        }
    }
}

/// The pending announcements once the end event of `guild` has run to
/// completion: the announcement it collected is forgotten.
pub open spec fn pending_after_end(
    store: Map<u64, GuildConfigView>,
    pending: Map<u64, u64>,
    guild: u64,
) -> Map<u64, u64> {
    match end_step_of(store, pending, guild) {
        EndStepView::Collect { channel_id, .. } => pending.remove(channel_id),
        _ => pending,
    }
}

impl ReactionTracker {
    /// Decides the end event of `guild`: the announcement whose reactions
    /// are to be collected, or why there is none.
    pub fn process_end(&self, store: &ConfigStore, guild: u64) -> (r: EndStep)
        ensures
            r@ == end_step_of(store@, self@, guild),
    {
        match store.get(guild) {
            None => EndStep::ConfigNotFound,
            Some(config) => match self.lookup(config.channel_id) {
                None => EndStep::MessageNotFound { channel_id: config.channel_id },
                Some(message_id) => EndStep::Collect {
                    channel_id: config.channel_id,
                    message_id,
                    games: config.games,
                },
            },
        }
    }
}

/// Once an end event has run to completion, a second end event for the same
/// guild with no start event between finds no announcement to collect: it
/// ends in one warning, and posts nothing.
pub proof fn lemma_end_event_idempotent(
    store: Map<u64, GuildConfigView>,
    pending: Map<u64, u64>,
    guild: u64,
)
    ensures
        !(end_step_of(store, pending_after_end(store, pending, guild), guild) is Collect),
{
}

} // verus!
