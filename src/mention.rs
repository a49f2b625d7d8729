//! Text of mentions and emojis as the chat platform renders them, and the
//! joining of such texts into one line.
use vstd::prelude::*;

use serenity::model::channel::ReactionType;
use serenity::model::id::{ChannelId, EmojiId, RoleId, UserId};
use serenity::model::misc::Mentionable;

use crate::model::{opt_ids_view, Emoji, EmojiView};
use crate::utils::strings_view;

verus! {

/// The decimal digit `d`, for `d < 10`.
pub open spec fn digit_char(d: nat) -> char {
    ((d + 48) as u8) as char
}

/// `n` written in decimal, without sign or leading zeros.
pub open spec fn decimal(n: nat) -> Seq<char>
    decreases n,
{
    if n < 10 {
        seq![digit_char(n)]
    } else {
        decimal(n / 10).push(digit_char(n % 10))
    }
}

/// `<@&id>`: the mention of a role.
pub open spec fn role_mention_text(id: u64) -> Seq<char> {
    seq!['<', '@', '&'] + decimal(id as nat) + seq!['>']
}

/// `<@id>`: the mention of a user.
pub open spec fn user_mention_text(id: u64) -> Seq<char> {
    seq!['<', '@'] + decimal(id as nat) + seq!['>']
}

/// `<#id>`: the mention of a channel.
pub open spec fn channel_mention_text(id: u64) -> Seq<char> {
    seq!['<', '#'] + decimal(id as nat) + seq!['>']
}

/// An emoji as message text: a unicode emoji is its own text, a custom one is
/// `<:name:id>`, with an empty name where it has none.
pub open spec fn emoji_text_of(e: EmojiView) -> Seq<char> {
    match e {
        EmojiView::Unicode(s) => s,
        EmojiView::Custom { id, name, .. } => seq!['<', ':'] + match name {
            Some(n) => n,
            None => Seq::empty(),
        } + seq![':'] + decimal(id as nat) + seq!['>'],
    }
}

/// Relies on serenity's `Mentionable for RoleId`, which formats `<@&{id}>`
/// with the id in decimal.
#[verifier::external_body]
pub(crate) fn role_mention(id: u64) -> (r: String)
    ensures
        r@ == role_mention_text(id),
{
    RoleId(id).mention()
}

/// Relies on serenity's `Mentionable for UserId`, which formats `<@{id}>`
/// with the id in decimal.
#[verifier::external_body]
pub(crate) fn user_mention(id: u64) -> (r: String)
    ensures
        r@ == user_mention_text(id),
{
    UserId(id).mention()
}

/// Relies on serenity's `Mentionable for ChannelId`, which formats `<#{id}>`
/// with the id in decimal.
#[verifier::external_body]
pub(crate) fn channel_mention(id: u64) -> (r: String)
    ensures
        r@ == channel_mention_text(id),
{
    ChannelId(id).mention()
}

/// Relies on serenity's `Display for ReactionType`: the text of a unicode
/// emoji, or `<:name:id>` for a custom one (the name empty where absent).
#[verifier::external_body]
pub(crate) fn emoji_text(e: &Emoji) -> (r: String)
    ensures
        r@ == emoji_text_of(e@),
{
    let reaction = match e {
        Emoji::Unicode(s) => ReactionType::Unicode(s.clone()),
        Emoji::Custom { animated, id, name } => ReactionType::Custom {
            animated: *animated,
            id: EmojiId(*id),
            name: name.clone(),
        },
    };
    reaction.to_string()
}

/// The items, in order, with `sep` between each two of them.
pub open spec fn join(items: Seq<Seq<char>>, sep: Seq<char>) -> Seq<char>
    decreases items.len(),
{
    if items.len() == 0 {
        Seq::empty()
    } else if items.len() == 1 {
        items[0]
    } else {
        join(items.drop_last(), sep) + sep + items.last()
    }
}

/// Joins `items`, in order, with `sep` between each two of them.
pub fn join_strings(items: &Vec<String>, sep: &str) -> (r: String)
    ensures
        r@ == join(strings_view(items@), sep@),
{
    let ghost all = strings_view(items@);
    let mut r = String::new();
    let mut i: usize = 0;
    while i < items.len()
        invariant
            i <= items.len(),
            all == strings_view(items@),
            r@ == join(all.take(i as int), sep@),
        decreases items.len() - i,
    {
        let ghost before = r@;
        if i > 0 {
            r.append(sep);
        }
        r.append(items[i].as_str());
        proof {
            let next = all.take(i as int + 1);
            assert(next.drop_last() =~= all.take(i as int));
            assert(next.last() == items[i as int]@);
            if i == 0 {
                assert(before =~= Seq::<char>::empty());
                assert(r@ =~= next[0]);
            } else {
                assert(r@ =~= before + sep@ + next.last());
            }
        }
        i = i + 1;
    }
    assert(all.take(i as int) =~= all);
    r
}

/// The mentions of `ids` as roles, joined by `, `; empty where there is no
/// list.
pub open spec fn role_mentions_of(ids: Option<Seq<u64>>) -> Seq<char> {
    match ids {
        Some(v) => join(v.map_values(|id: u64| role_mention_text(id)), seq![',', ' ']),
        None => Seq::empty(),
    }
}

/// The line that mentions the configured roles: each role's mention, joined
/// by `, `, or nothing where no roles are configured.
pub fn role_list_to_mentions(roles: &Option<Vec<u64>>) -> (r: String)
    ensures
        r@ == role_mentions_of(opt_ids_view(*roles)),
{
    match roles {
        None => String::new(),
        Some(ids) => {
            let mut mentions: Vec<String> = Vec::new();
            let mut i: usize = 0;
            while i < ids.len()
                invariant
                    i <= ids.len(),
                    strings_view(mentions@) == ids@.take(i as int).map_values(
                        |id: u64| role_mention_text(id),
                    ),
                decreases ids.len() - i,
            {
                let m = role_mention(ids[i]);
                let ghost before = mentions@;
                mentions.push(m);
                assert(strings_view(mentions@) =~= strings_view(before).push(m@));
                i = i + 1;
                assert(ids@.take(i as int).map_values(|id: u64| role_mention_text(id))
                    =~= ids@.take(i as int - 1).map_values(|id: u64| role_mention_text(id)).push(
                    role_mention_text(ids[i - 1]),
                ));
            }
            assert(ids@.take(i as int) =~= ids@);
            let sep = ", ";
            proof {
                reveal_strlit(", ");
            }
            assert(sep@ =~= seq![',', ' ']);
            join_strings(&mentions, sep)
        },
    }
}

} // verus!
