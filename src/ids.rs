//! Lists that pair the mention of each user or role with its id, as the
//! operator's id lookup shows them.
use vstd::prelude::*;

use crate::mention::{
    decimal, role_mention, role_mention_text, user_mention, user_mention_text,
};
use crate::notify::{join_batches, joined_batches, FIELD_BUDGET};
use crate::utils::{all_fit, batches_of, fold_strings, strings_view, FoldError};

verus! {

/// Relies on std's `ToString for u64`, which writes the number in decimal.
#[verifier::external_body]
fn decimal_string(n: u64) -> (r: String)
    ensures
        r@ == decimal(n as nat),
{
    n.to_string()
}

/// ` -> `: what stands between a mention and its id.
pub open spec fn arrow() -> Seq<char> {
    seq![' ', '-', '>', ' ']
}

/// The line `{mention} -> {id}` of each user.
pub open spec fn user_id_lines(ids: Seq<u64>) -> Seq<Seq<char>> {
    ids.map_values(|id: u64| user_mention_text(id) + arrow() + decimal(id as nat))
}

/// The line `{mention} -> {id}` of each role.
pub open spec fn role_id_lines(ids: Seq<u64>) -> Seq<Seq<char>> {
    ids.map_values(|id: u64| role_mention_text(id) + arrow() + decimal(id as nat))
}

/// Packs id lines into field values of at most the field budget, the
/// lines of each joined by newlines.
fn pack_lines(lines: Vec<String>) -> (r: Result<Vec<String>, FoldError>)
    ensures
        r is Err <==> !all_fit(FIELD_BUDGET as nat, strings_view(lines@)),
        r matches Ok(v) ==> strings_view(v@) == joined_batches(
            batches_of(FIELD_BUDGET as nat, strings_view(lines@)),
            seq!['\n'],
        ),
{
    let batches = match fold_strings(FIELD_BUDGET, lines) {
        Ok(b) => b,
        Err(e) => {
            return Err(e);
        },
    };
    let newline = "\n";
    proof {
        reveal_strlit("\n");
    }
    assert(newline@ =~= seq!['\n']);
    let r = join_batches(&batches, newline);
    Ok(r)
}

/// Each user's mention beside its id, packed into field values. Fails with
/// `ItemTooLarge` where a line is longer than the field budget.
pub fn user_list_to_mentions(users: &Vec<u64>) -> (r: Result<Vec<String>, FoldError>)
    ensures
        r is Err <==> !all_fit(FIELD_BUDGET as nat, user_id_lines(users@)),
        r matches Ok(v) ==> strings_view(v@) == joined_batches(
            batches_of(FIELD_BUDGET as nat, user_id_lines(users@)),
            seq!['\n'],
        ),
{
    let arrow_text = " -> ";
    proof {
        reveal_strlit(" -> ");
    }
    assert(arrow_text@ =~= arrow());
    let mut lines: Vec<String> = Vec::new();
    let mut i: usize = 0;
    while i < users.len()
        invariant
            i <= users.len(),
            arrow_text@ == arrow(),
            strings_view(lines@) == user_id_lines(users@).take(i as int),
        decreases users.len() - i,
    {
        let mut line = user_mention(users[i]);
        line.append(arrow_text);
        line.append(decimal_string(users[i]).as_str());
        let ghost before = lines@;
        lines.push(line);
        assert(strings_view(lines@) =~= strings_view(before).push(line@));
        i = i + 1;
        assert(strings_view(lines@) =~= user_id_lines(users@).take(i as int));
    }
    assert(user_id_lines(users@).take(i as int) =~= user_id_lines(users@));
    pack_lines(lines)
}

/// Each role's mention beside its id, packed into field values. Fails with
/// `ItemTooLarge` where a line is longer than the field budget.
pub fn role_list_to_mentions(roles: &Vec<u64>) -> (r: Result<Vec<String>, FoldError>)
    ensures
        r is Err <==> !all_fit(FIELD_BUDGET as nat, role_id_lines(roles@)),
        r matches Ok(v) ==> strings_view(v@) == joined_batches(
            batches_of(FIELD_BUDGET as nat, role_id_lines(roles@)),
            seq!['\n'],
        ),
{
    let arrow_text = " -> ";
    proof {
        reveal_strlit(" -> ");
    }
    assert(arrow_text@ =~= arrow());
    let mut lines: Vec<String> = Vec::new();
    let mut i: usize = 0;
    while i < roles.len()
        invariant
            i <= roles.len(),
            arrow_text@ == arrow(),
            strings_view(lines@) == role_id_lines(roles@).take(i as int),
        decreases roles.len() - i,
    {
        let mut line = role_mention(roles[i]);
        line.append(arrow_text);
        line.append(decimal_string(roles[i]).as_str());
        let ghost before = lines@;
        lines.push(line);
        assert(strings_view(lines@) =~= strings_view(before).push(line@));
        i = i + 1;
        assert(strings_view(lines@) =~= role_id_lines(roles@).take(i as int));
    }
    assert(role_id_lines(roles@).take(i as int) =~= role_id_lines(roles@));
    pack_lines(lines)
}

} // verus!
