//! The configuration of a guild: where and when its announcements go, whom
//! they mention, and which games they offer.
use vstd::prelude::*;

verus! {

/// The emoji that players react with to pick a game.
pub enum Emoji {
    /// A standard unicode emoji, held as its text.
    Unicode(String),
    /// A custom emoji of a guild.
    Custom { animated: bool, id: u64, name: Option<String> },
}

pub ghost enum EmojiView {
    Unicode(Seq<char>),
    Custom { animated: bool, id: u64, name: Option<Seq<char>> },
}

impl View for Emoji {
    type V = EmojiView;

    open spec fn view(&self) -> EmojiView {
        match self {
            Emoji::Unicode(s) => EmojiView::Unicode(s@),
            Emoji::Custom { animated, id, name } => EmojiView::Custom {
                animated: *animated,
                id: *id,
                name: opt_string_view(*name),
            },
        }
    }
}

pub open spec fn opt_string_view(s: Option<String>) -> Option<Seq<char>> {
    match s {
        Some(t) => Some(t@),
        None => None,
    }
}

pub open spec fn opt_ids_view(v: Option<Vec<u64>>) -> Option<Seq<u64>> {
    match v {
        Some(ids) => Some(ids@),
        None => None,
    }
}

/// A copy of a list of identifiers.
pub fn copy_ids(v: &Vec<u64>) -> (r: Vec<u64>)
    ensures
        r@ == v@,
{
    let mut r: Vec<u64> = Vec::new();
    let mut i: usize = 0;
    while i < v.len()
        invariant
            i <= v.len(),
            r@ == v@.take(i as int),
        decreases v.len() - i,
    {
        r.push(v[i]);
        i = i + 1;
        assert(r@ =~= v@.take(i as int));
    }
    assert(v@.take(i as int) =~= v@);
    r
}

/// A copy of an optional list of identifiers.
pub fn copy_opt_ids(v: &Option<Vec<u64>>) -> (r: Option<Vec<u64>>)
    ensures
        opt_ids_view(r) == opt_ids_view(*v),
{
    match v {
        Some(ids) => Some(copy_ids(ids)),
        None => None,
    }
}

impl Emoji {
    /// A copy of this emoji.
    pub fn duplicate(&self) -> (r: Emoji)
        ensures
            r@ == self@,
    {
        match self {
            Emoji::Unicode(s) => Emoji::Unicode(s.clone()),
            Emoji::Custom { animated, id, name } => {
                let n = match name {
                    Some(t) => Some(t.clone()),
                    None => None,
                };
                Emoji::Custom { animated: *animated, id: *id, name: n }
            },
        }
    }
}

/// A game offered in the start announcement.
pub struct GameInfo {
    /// The name shown for the game.
    pub name: String,
    /// The reaction that signs a player up for the game.
    pub emoji: Emoji,
    /// The roles that the game's result message mentions.
    pub role_ids: Option<Vec<u64>>,
    /// The channel that the game's result message goes to.
    pub channel_id: u64,
}

pub ghost struct GameInfoView {
    pub name: Seq<char>,
    pub emoji: EmojiView,
    pub role_ids: Option<Seq<u64>>,
    pub channel_id: u64,
}

impl View for GameInfo {
    type V = GameInfoView;

    open spec fn view(&self) -> GameInfoView {
        GameInfoView {
            name: self.name@,
            emoji: self.emoji@,
            role_ids: opt_ids_view(self.role_ids),
            channel_id: self.channel_id,
        }
    }
}

impl GameInfo {
    /// A copy of this game.
    pub fn duplicate(&self) -> (r: GameInfo)
        ensures
            r@ == self@,
    {
        GameInfo {
            name: self.name.clone(),
            emoji: self.emoji.duplicate(),
            role_ids: copy_opt_ids(&self.role_ids),
            channel_id: self.channel_id,
        }
    }
}

pub open spec fn games_view(v: Seq<GameInfo>) -> Seq<GameInfoView> {
    v.map_values(|g: GameInfo| g@)
}

/// The configuration of one guild: the channel of the start announcement, the
/// cron expressions of the start and end events, the roles that the start
/// announcement mentions, and the games it offers.
pub struct GuildConfig {
    pub channel_id: u64,
    pub start: String,
    pub end: String,
    pub role_ids: Option<Vec<u64>>,
    pub games: Vec<GameInfo>,
}

pub ghost struct GuildConfigView {
    pub channel_id: u64,
    pub start: Seq<char>,
    pub end: Seq<char>,
    pub role_ids: Option<Seq<u64>>,
    pub games: Seq<GameInfoView>,
}

impl View for GuildConfig {
    type V = GuildConfigView;

    open spec fn view(&self) -> GuildConfigView {
        GuildConfigView {
            channel_id: self.channel_id,
            start: self.start@,
            end: self.end@,
            role_ids: opt_ids_view(self.role_ids),
            games: games_view(self.games@),
        }
    }
}

/// The configuration that a new draft starts from: no channel, empty
/// expressions, no roles and no games.
pub open spec fn empty_config() -> GuildConfigView {
    GuildConfigView {
        channel_id: 0,
        start: Seq::empty(),
        end: Seq::empty(),
        role_ids: None,
        games: Seq::empty(),
    }
}

impl Default for GuildConfig {
    fn default() -> (r: GuildConfig)
        ensures
            r@ == empty_config(),
    {
        let r = GuildConfig {
            channel_id: 0,
            start: String::new(),
            end: String::new(),
            role_ids: None,
            games: Vec::new(),
        };
        assert(r@.games =~= Seq::<GameInfoView>::empty());
        r
    }
}

impl GuildConfig {
    /// A copy of this configuration.
    pub fn duplicate(&self) -> (r: GuildConfig)
        ensures
            r@ == self@,
    {
        let mut games: Vec<GameInfo> = Vec::new();
        let mut i: usize = 0;
        while i < self.games.len()
            invariant
                i <= self.games.len(),
                games_view(games@) == games_view(self.games@).take(i as int),
            decreases self.games.len() - i,
        {
            let g = self.games[i].duplicate();
            let ghost before = games@;
            games.push(g);
            assert(games_view(games@) =~= games_view(before).push(g@));
            i = i + 1;
            assert(games_view(games@) =~= games_view(self.games@).take(i as int));
        }
        assert(games_view(self.games@).take(i as int) =~= games_view(self.games@));
        GuildConfig {
            channel_id: self.channel_id,
            start: self.start.clone(),
            end: self.end.clone(),
            role_ids: copy_opt_ids(&self.role_ids),
            games,
        }
    }
}

} // verus!
