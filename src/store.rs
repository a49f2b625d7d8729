//! The committed configurations of all guilds, and the drafts that operators
//! edit before committing them.
use vstd::prelude::*;

use std::collections::HashMap;

use crate::cron_expr::{cron_accepts, is_valid_cron};
use crate::model::{copy_ids, empty_config, GameInfo, GameInfoView, GuildConfig, GuildConfigView};

verus! {

broadcast use vstd::std_specs::hash::group_hash_axioms;

/// Both expressions of the configuration parse as cron schedules.
pub open spec fn valid_config(c: GuildConfigView) -> bool {
    cron_accepts(c.start) && cron_accepts(c.end)
}

/// Why a pair of start and end expressions was refused.
#[derive(PartialEq, Eq, Structural, Debug, Clone, Copy)]
pub enum ValidationError {
    /// The start expression does not parse.
    BadStart,
    /// The start expression parses and the end expression does not.
    BadEnd,
}

/// The outcome of checking a start and an end expression.
pub open spec fn check_of(start: Seq<char>, end: Seq<char>) -> Result<(), ValidationError> {
    if !cron_accepts(start) {
        Err(ValidationError::BadStart)
    } else if !cron_accepts(end) {
        Err(ValidationError::BadEnd)
    } else {
        Ok(())
    }
}

/// Checks that both expressions parse, the start expression first.
pub fn check_expressions(start: &str, end: &str) -> (r: Result<(), ValidationError>)
    ensures
        r == check_of(start@, end@),
{
    if !is_valid_cron(start) {
        Err(ValidationError::BadStart)
    } else if !is_valid_cron(end) {
        Err(ValidationError::BadEnd)
    } else {
        Ok(())
    }
}

pub open spec fn configs_view(m: Map<u64, GuildConfig>) -> Map<u64, GuildConfigView> {
    m.map_values(|c: GuildConfig| c@)
}

/// The committed configuration of every guild, keyed by guild id. The ids
/// are also kept in the order in which each guild was first stored.
pub struct ConfigStore {
    configs: HashMap<u64, GuildConfig>,
    order: Vec<u64>,
}

impl View for ConfigStore {
    type V = Map<u64, GuildConfigView>;

    closed spec fn view(&self) -> Map<u64, GuildConfigView> {
        configs_view(self.configs@)
    }
}

/// The map that a list of entries gives, a later entry for a guild replacing
/// an earlier one.
pub open spec fn entries_map(entries: Seq<(u64, GuildConfigView)>) -> Map<u64, GuildConfigView>
    decreases entries.len(),
{
    if entries.len() == 0 {
        Map::empty()
    } else {
        entries_map(entries.drop_last()).insert(entries.last().0, entries.last().1)
    }
}

pub open spec fn entries_view(v: Seq<(u64, GuildConfig)>) -> Seq<(u64, GuildConfigView)> {
    v.map_values(|e: (u64, GuildConfig)| (e.0, e.1@))
}

fn map_insert(m: &mut HashMap<u64, GuildConfig>, guild: u64, config: GuildConfig)
    ensures
        final(m)@ == old(m)@.insert(guild, config),
        configs_view(final(m)@) == configs_view(old(m)@).insert(guild, config@),
{
    let ghost c = config@;
    m.insert(guild, config);
    assert(configs_view(m@) =~= configs_view(old(m)@).insert(guild, c));
}

impl ConfigStore {
    /// The order list holds each stored guild once.
    pub closed spec fn wf(&self) -> bool {
        &&& self.order@.to_set() == self.configs@.dom()
        &&& self.order@.no_duplicates()
    }

    /// A store with no configuration.
    pub fn new() -> (r: ConfigStore)
        ensures
            r.wf(),
            r@ == Map::<u64, GuildConfigView>::empty(),
    {
        let r = ConfigStore { configs: HashMap::new(), order: Vec::new() };
        assert(r@ =~= Map::<u64, GuildConfigView>::empty());
        assert(r.order@.to_set() =~= r.configs@.dom());
        r
    }

    /// A store holding the entries that were read back from storage, a later
    /// entry for a guild replacing an earlier one.
    pub fn from_entries(entries: Vec<(u64, GuildConfig)>) -> (r: ConfigStore)
        ensures
            r.wf(),
            r@ == entries_map(entries_view(entries@)),
    {
        let ghost all = entries_view(entries@);
        let mut entries = entries;
        let mut rest: Vec<(u64, GuildConfig)> = Vec::new();
        // Entries are taken from the back, so reverse them first to keep the
        // order in which later entries win.
        while entries.len() > 0
            invariant
                entries_view(entries@) + entries_view(rest@).reverse() == all,
            decreases entries.len(),
        {
            let ghost before_e = entries@;
            let ghost before_r = rest@;
            let e = entries.pop().unwrap();
            rest.push(e);
            assert(entries_view(before_e) =~= entries_view(entries@).push((e.0, e.1@)));
            assert(entries_view(rest@) =~= entries_view(before_r).push((e.0, e.1@)));
            assert(entries_view(rest@).reverse() =~= seq![(e.0, e.1@)] + entries_view(
                before_r,
            ).reverse());
            assert(entries_view(entries@) + entries_view(rest@).reverse() =~= entries_view(
                before_e,
            ) + entries_view(before_r).reverse());
        }
        assert(entries_view(entries@) =~= Seq::<(u64, GuildConfigView)>::empty());
        let mut store = ConfigStore::new();
        let ghost mut done: Seq<(u64, GuildConfigView)> = Seq::empty();
        while rest.len() > 0
            invariant
                done + entries_view(rest@).reverse() == all,
                store@ == entries_map(done),
                store.wf(),
            decreases rest.len(),
        {
            let ghost before_r = rest@;
            let (guild, config) = rest.pop().unwrap();
            let ghost item = (guild, config@);
            store.upsert(guild, config);
            proof {
                assert(entries_view(before_r) =~= entries_view(rest@).push(item));
                assert(entries_view(before_r).reverse() =~= seq![item] + entries_view(
                    rest@,
                ).reverse());
                assert(done.push(item).drop_last() =~= done);
                done = done.push(item);
                assert(done + entries_view(rest@).reverse() =~= all);
            }
        }
        assert(entries_view(rest@).reverse() =~= Seq::<(u64, GuildConfigView)>::empty());
        assert(done =~= all);
        store
    }

    /// A copy of the configuration of `guild`, if it has one.
    pub fn get(&self, guild: u64) -> (r: Option<GuildConfig>)
        ensures
            r is None <==> !self@.contains_key(guild),
            r matches Some(c) ==> c@ == self@[guild],
    {
        match self.configs.get(&guild) {
            Some(c) => Some(c.duplicate()),
            None => None,
        }
    }

    /// Sets the configuration of `guild`, replacing any earlier one.
    pub fn upsert(&mut self, guild: u64, config: GuildConfig)
        requires
            old(self).wf(),
        ensures
            final(self).wf(),
            final(self)@ == old(self)@.insert(guild, config@),
    {
        if !self.configs.contains_key(&guild) {
            let ghost before = self.order@;
            self.order.push(guild);
            proof {
                before.lemma_push_to_set_commute(guild);
                assert(self.order@.to_set() =~= before.to_set().insert(guild));
                assert(self.order@.no_duplicates()) by {
                    assert forall|i: int, j: int|
                        0 <= i < self.order@.len() && 0 <= j < self.order@.len() && i != j implies
                        self.order@[i] != self.order@[j] by {
                        if i < before.len() && j < before.len() {
                        } else if i < before.len() {
                            assert(before.to_set().contains(before[i]));
                        } else {
                            assert(before.to_set().contains(before[j]));
                        }
                    }
                }
            }
        }
        map_insert(&mut self.configs, guild, config);
        proof {
            assert(self.order@.to_set() =~= self.configs@.dom());
        }
    }

    /// Every guild with a copy of its configuration, each guild once, in the
    /// order in which guilds were first stored: loading them back with
    /// `from_entries` gives this store again.
    pub fn entries(&self) -> (r: Vec<(u64, GuildConfig)>)
        requires
            self.wf(),
        ensures
            entries_map(entries_view(r@)) == self@,
    {
        let mut r: Vec<(u64, GuildConfig)> = Vec::new();
        let mut i: usize = 0;
        while i < self.order.len()
            invariant
                i <= self.order.len(),
                self.wf(),
                entries_map(entries_view(r@)) == self@.restrict(
                    self.order@.take(i as int).to_set(),
                ),
            decreases self.order.len() - i,
        {
            let g = self.order[i];
            proof {
                assert(self.order@.to_set().contains(self.order@[i as int]));
            }
            let c = self.get(g).unwrap();
            let ghost before = r@;
            let ghost item = (g, c@);
            r.push((g, c));
            proof {
                assert(entries_view(r@) =~= entries_view(before).push(item));
                assert(entries_view(r@).drop_last() =~= entries_view(before));
                self.order@.take(i as int).lemma_push_to_set_commute(g);
                assert(self.order@.take(i as int + 1) =~= self.order@.take(i as int).push(g));
                assert(entries_map(entries_view(r@)) =~= self@.restrict(
                    self.order@.take(i as int + 1).to_set(),
                ));
            }
            i = i + 1;
        }
        proof {
            assert(self.order@.take(i as int) =~= self.order@);
            assert(self@.dom() =~= self.configs@.dom());
            assert(self@.restrict(self.order@.to_set()) =~= self@);
        }
        r
    }

    /// The ids of all guilds that have a configuration, each once, in no
    /// particular order.
    pub fn guild_ids(&self) -> (r: Vec<u64>)
        requires
            self.wf(),
        ensures
            r@.to_set() == self@.dom(),
            r@.no_duplicates(),
    {
        assert(self@.dom() =~= self.configs@.dom());
        copy_ids(&self.order)
    }
}

} // verus!

verus! {

/// Why a commit did not happen, or did not reach storage.
#[derive(PartialEq, Eq, Debug)]
pub enum CommitError {
    /// The guild has no draft to commit.
    NoDraft,
    /// The draft holds an expression that does not parse.
    Invalid(ValidationError),
    /// The configuration was stored in memory but writing it to disk failed.
    Persistence(String),
}

/// The draft that an edit of `guild` starts from: its current draft, or an
/// empty configuration.
pub open spec fn base_draft(drafts: Map<u64, GuildConfigView>, guild: u64) -> GuildConfigView {
    if drafts.contains_key(guild) {
        drafts[guild]
    } else {
        empty_config()
    }
}

/// The draft that `get_or_create` settles on: the current draft, else the
/// committed configuration, else an empty one.
pub open spec fn seeded_draft(
    drafts: Map<u64, GuildConfigView>,
    committed: Map<u64, GuildConfigView>,
    guild: u64,
) -> GuildConfigView {
    if drafts.contains_key(guild) {
        drafts[guild]
    } else if committed.contains_key(guild) {
        committed[guild]
    } else {
        empty_config()
    }
}

/// `c` with a new channel and new expressions.
pub open spec fn with_core(
    c: GuildConfigView,
    channel_id: u64,
    start: Seq<char>,
    end: Seq<char>,
) -> GuildConfigView {
    GuildConfigView { channel_id, start, end, role_ids: c.role_ids, games: c.games }
}

/// `c` with `roles` added after the roles it already has.
pub open spec fn with_roles(c: GuildConfigView, roles: Seq<u64>) -> GuildConfigView {
    GuildConfigView {
        channel_id: c.channel_id,
        start: c.start,
        end: c.end,
        role_ids: Some(
            match c.role_ids {
                Some(r) => r + roles,
                None => roles,
            },
        ),
        games: c.games,
    }
}

/// `c` with `game` added after the games it already has.
pub open spec fn with_game(c: GuildConfigView, game: GameInfoView) -> GuildConfigView {
    GuildConfigView {
        channel_id: c.channel_id,
        start: c.start,
        end: c.end,
        role_ids: c.role_ids,
        games: c.games.push(game),
    }
}

/// The configurations that operators are editing, keyed by guild id; at most
/// one draft per guild.
pub struct DraftStore {
    drafts: HashMap<u64, GuildConfig>,
}

impl View for DraftStore {
    type V = Map<u64, GuildConfigView>;

    closed spec fn view(&self) -> Map<u64, GuildConfigView> {
        configs_view(self.drafts@)
    }
}

impl DraftStore {
    /// A store with no draft.
    pub fn new() -> (r: DraftStore)
        ensures
            r@ == Map::<u64, GuildConfigView>::empty(),
    {
        let r = DraftStore { drafts: HashMap::new() };
        assert(r@ =~= Map::<u64, GuildConfigView>::empty());
        r
    }

    /// A copy of the draft of `guild`, if it has one.
    pub fn draft(&self, guild: u64) -> (r: Option<GuildConfig>)
        ensures
            r is None <==> !self@.contains_key(guild),
            r matches Some(c) ==> c@ == self@[guild],
    {
        match self.drafts.get(&guild) {
            Some(c) => Some(c.duplicate()),
            None => None,
        }
    }

    /// Takes the draft of `guild` out of the map, or an empty configuration
    /// where it has none.
    fn take_base(&mut self, guild: u64) -> (r: GuildConfig)
        ensures
            r@ == base_draft(old(self)@, guild),
            final(self)@ == old(self)@.remove(guild),
    {
        let r = match self.drafts.remove(&guild) {
            Some(c) => c,
            None => GuildConfig::default(),
        };
        assert(self@ =~= old(self)@.remove(guild));
        r
    }

    fn put(&mut self, guild: u64, config: GuildConfig)
        ensures
            final(self)@ == old(self)@.insert(guild, config@),
    {
        map_insert(&mut self.drafts, guild, config);
    }

    /// The draft of `guild`, created first where there is none: from its
    /// committed configuration if it has one, else empty.
    pub fn get_or_create(&mut self, store: &ConfigStore, guild: u64) -> (r: GuildConfig)
        ensures
            r@ == seeded_draft(old(self)@, store@, guild),
            final(self)@ == old(self)@.insert(guild, seeded_draft(old(self)@, store@, guild)),
    {
        match self.drafts.get(&guild) {
            Some(c) => {
                let r = c.duplicate();
                assert(self@ =~= old(self)@.insert(guild, r@));
                r
            },
            None => {
                let seed = match store.get(guild) {
                    Some(c) => c,
                    None => GuildConfig::default(),
                };
                let r = seed.duplicate();
                self.put(guild, seed);
                r
            },
        }
    }

    /// Starts a new draft for `guild`, replacing any earlier one, with the
    /// given channel and expressions and no roles or games. Both expressions
    /// are checked first; on a failure nothing changes.
    pub fn create(&mut self, guild: u64, channel_id: u64, start: String, end: String) -> (r: Result<
        (),
        ValidationError,
    >)
        ensures
            r == check_of(start@, end@),
            r is Ok ==> final(self)@ == old(self)@.insert(
                guild,
                with_core(empty_config(), channel_id, start@, end@),
            ),
            r is Err ==> final(self)@ == old(self)@,
    {
        match check_expressions(start.as_str(), end.as_str()) {
            Err(e) => Err(e),
            Ok(()) => {
                let config = GuildConfig {
                    channel_id,
                    start,
                    end,
                    role_ids: None,
                    games: Vec::new(),
                };
                assert(config@.games =~= Seq::<GameInfoView>::empty());
                assert(config@ == with_core(empty_config(), channel_id, start@, end@));
                self.put(guild, config);
                Ok(())
            },
        }
    }

    /// Sets the channel and the expressions of the draft of `guild`, which
    /// is created empty where there is none. Both expressions are checked
    /// before anything changes; on a failure the drafts stay as they were.
    pub fn set_core(&mut self, guild: u64, channel_id: u64, start: String, end: String) -> (r:
        Result<(), ValidationError>)
        ensures
            r == check_of(start@, end@),
            r is Ok ==> final(self)@ == old(self)@.insert(
                guild,
                with_core(base_draft(old(self)@, guild), channel_id, start@, end@),
            ),
            r is Err ==> final(self)@ == old(self)@,
    {
        match check_expressions(start.as_str(), end.as_str()) {
            Err(e) => Err(e),
            Ok(()) => {
                let base = self.take_base(guild);
                let GuildConfig { channel_id: _, start: _, end: _, role_ids, games } = base;
                let config = GuildConfig { channel_id, start, end, role_ids, games };
                self.put(guild, config);
                assert(self@ =~= old(self)@.insert(
                    guild,
                    with_core(base_draft(old(self)@, guild), channel_id, start@, end@),
                ));
                Ok(())
            },
        }
    }

    /// Adds `roles` after the roles of the draft of `guild`, which is created
    /// empty where there is none.
    pub fn add_roles(&mut self, guild: u64, roles: Vec<u64>)
        ensures
            final(self)@ == old(self)@.insert(guild, with_roles(base_draft(old(self)@, guild), roles@)),
    {
        let base = self.take_base(guild);
        let GuildConfig { channel_id, start, end, role_ids, games } = base;
        let merged = match role_ids {
            Some(existing) => {
                let mut existing = existing;
                let mut added = roles;
                existing.append(&mut added);
                existing
            },
            None => roles,
        };
        let config = GuildConfig { channel_id, start, end, role_ids: Some(merged), games };
        self.put(guild, config);
        assert(self@ =~= old(self)@.insert(
            guild,
            with_roles(base_draft(old(self)@, guild), roles@),
        ));
    }

    /// Adds `game` after the games of the draft of `guild`, which is created
    /// empty where there is none.
    pub fn add_game(&mut self, guild: u64, game: GameInfo)
        ensures
            final(self)@ == old(self)@.insert(guild, with_game(base_draft(old(self)@, guild), game@)),
    {
        let base = self.take_base(guild);
        let GuildConfig { channel_id, start, end, role_ids, games } = base;
        let ghost g = game@;
        let mut games = games;
        let ghost before = games@;
        games.push(game);
        assert(crate::model::games_view(games@) =~= crate::model::games_view(before).push(g));
        let config = GuildConfig { channel_id, start, end, role_ids, games };
        self.put(guild, config);
        assert(self@ =~= old(self)@.insert(guild, with_game(base_draft(old(self)@, guild), g)));
    }

    /// Copies the draft of `guild` into the committed configurations, after
    /// checking its expressions. The draft stays. Writing the result to disk
    /// is up to the caller, which reports a failure there as `Persistence`.
    pub fn commit(&self, guild: u64, store: &mut ConfigStore) -> (r: Result<(), CommitError>)
        requires
            old(store).wf(),
        ensures
            final(store).wf(),
            !self@.contains_key(guild) ==> r == Err::<(), CommitError>(CommitError::NoDraft),
            self@.contains_key(guild) ==> match check_of(self@[guild].start, self@[guild].end) {
                Ok(_) => r is Ok,
                Err(e) => r == Err::<(), CommitError>(CommitError::Invalid(e)),
            },
            r is Ok ==> final(store)@ == old(store)@.insert(guild, self@[guild]),
            r is Err ==> final(store)@ == old(store)@,
    {
        match self.drafts.get(&guild) {
            None => Err(CommitError::NoDraft),
            Some(draft) => match check_expressions(draft.start.as_str(), draft.end.as_str()) {
                Err(e) => Err(CommitError::Invalid(e)),
                Ok(()) => {
                    store.upsert(guild, draft.duplicate());
                    Ok(())
                },
            },
        }
    }
}

} // verus!
