use vstd::prelude::*;
use crate::confirm::{
    on_prompt, proposal, reaction_added_next, reaction_choice, thread_created_next, Action, Notice,
    ReactionChoice, ReactionEvent, ThreadCreated,
};
use crate::errors::ErrorType;
use crate::model::{
    active_channel_pairs_from, active_origin, forum_pairs_from, has_reverse, pair_is_active,
    reply_is_for,
    ReplyStatus, StoreModel,
};
use crate::store::{
    answered, lemma_wf_push_reply, lemma_wf_replace_reply, reply_index, reply_row,
    update_status_error, with_replies,
};

verus! {

/// In a well formed store, the reply about a container is the one row
/// about it.
pub proof fn lemma_reply_index_is(m: StoreModel, i: int, guild: i64, channel: i64)
    requires
        m.wf(),
        0 <= i < m.replies.len(),
        reply_is_for(m.replies[i], guild, channel),
    ensures
        m.has_reply(guild, channel),
        reply_index(m.replies, guild, channel) == i,
{
    assert(reply_is_for(m.replies[i], guild, channel));
    let k = reply_index(m.replies, guild, channel);
    if k < i {
        assert(!reply_is_for(m.replies[i], m.replies[k].guild_id, m.replies[k].channel_id));
    } else if k > i {
        assert(!reply_is_for(m.replies[k], m.replies[i].guild_id, m.replies[i].channel_id));
    }
}

/// A plain channel relays only through pairs that were accepted: every pair
/// listed as active for (`guild`, `channel`) starts there and has an active
/// reply, and a pair all of whose replies are undecided or rejected (inactive)
/// is never listed.
pub proof fn law_active_pairs_are_confirmed(m: StoreModel, guild: i64, channel: i64)
    ensures
        forall|k: int|
            0 <= k < active_channel_pairs_from(m.channel_pairs, m.replies, guild, channel).len() ==> {
                let p = #[trigger] active_channel_pairs_from(m.channel_pairs, m.replies, guild, channel)[k];
                &&& p.from_guild == guild
                &&& p.from_channel == channel
                &&& exists|i: int|
                    0 <= i < m.replies.len() && m.replies[i].replication_pairs == p.id
                        && #[trigger] m.replies[i].status == ReplyStatus::Active
            },
        forall|k: int|
            0 <= k < m.channel_pairs.len() && (forall|i: int|
                0 <= i < m.replies.len() && #[trigger] m.replies[i].replication_pairs
                    == m.channel_pairs[k].id ==> m.replies[i].status == ReplyStatus::Inactive)
                ==> !active_channel_pairs_from(m.channel_pairs, m.replies, guild, channel).contains(
                #[trigger] m.channel_pairs[k],
            ),
{
    let pred = active_origin(m.replies, guild, channel);
    let listed = active_channel_pairs_from(m.channel_pairs, m.replies, guild, channel);
    assert forall|k: int|
        0 <= k < m.channel_pairs.len() && (forall|i: int|
            0 <= i < m.replies.len() && #[trigger] m.replies[i].replication_pairs == m.channel_pairs[k].id
                ==> m.replies[i].status == ReplyStatus::Inactive) implies !listed.contains(
        #[trigger] m.channel_pairs[k],
    ) by {
        if listed.contains(m.channel_pairs[k]) {
            let x = choose|x: int| 0 <= x < listed.len() && listed[x] == m.channel_pairs[k];
            m.channel_pairs.lemma_filter_pred(pred, x);
            assert(pair_is_active(m.replies, m.channel_pairs[k].id));
        }
    }
    assert forall|k: int|
        0 <= k < active_channel_pairs_from(m.channel_pairs, m.replies, guild, channel).len() implies {
            let p = #[trigger] active_channel_pairs_from(m.channel_pairs, m.replies, guild, channel)[k];
            &&& p.from_guild == guild
            &&& p.from_channel == channel
            &&& exists|i: int|
                0 <= i < m.replies.len() && m.replies[i].replication_pairs == p.id
                    && #[trigger] m.replies[i].status == ReplyStatus::Active
        } by {
        let p = active_channel_pairs_from(m.channel_pairs, m.replies, guild, channel)[k];
        m.channel_pairs.lemma_filter_pred(pred, k);
        assert(pred(p));
        assert(pair_is_active(m.replies, p.id));
    }
}

/// Creating the same thread twice proposes at most once: whatever the first
/// event did, the second leaves the store as the first left it, and the
/// thread has at most one reply.
pub proof fn law_thread_created_idempotent(m: StoreModel, event: ThreadCreated, now1: i64, now2: i64)
    requires
        m.wf(),
    ensures
        thread_created_next(m, event, now1).0.wf(),
        thread_created_next(thread_created_next(m, event, now1).0, event, now2).0 == thread_created_next(
            m,
            event,
            now1,
        ).0,
        ({
            let m2 = thread_created_next(thread_created_next(m, event, now1).0, event, now2).0;
            forall|i: int, j: int|
                0 <= i < m2.replies.len() && 0 <= j < m2.replies.len() && reply_is_for(
                    #[trigger] m2.replies[i],
                    event.guild_id,
                    event.thread_id,
                ) && reply_is_for(#[trigger] m2.replies[j], event.guild_id, event.thread_id) ==> i == j
        }),
{
    let m1 = thread_created_next(m, event, now1).0;
    let pairs = forum_pairs_from(m.forum_pairs, event.guild_id, event.parent_id);
    if !(pairs.len() == 0 || m.has_reply(event.guild_id, event.thread_id)) {
        if let Some(owner) = event.owner_id {
            if m.next_id != i64::MAX {
                let row = reply_row(
                    proposal(event, pairs[0], owner),
                    m.next_id,
                    now1,
                );
                lemma_wf_push_reply(m, row);
                let last = m.replies.len() as int;
                assert(reply_is_for(m1.replies[last], event.guild_id, event.thread_id));
                assert(m1.forum_pairs == m.forum_pairs);
                assert(m1.has_reply(event.guild_id, event.thread_id));
            }
        }
    }
    let m2 = thread_created_next(m1, event, now2).0;
    assert(m2 == m1);
    assert forall|i: int, j: int|
        0 <= i < m2.replies.len() && 0 <= j < m2.replies.len() && reply_is_for(
            #[trigger] m2.replies[i],
            event.guild_id,
            event.thread_id,
        ) && reply_is_for(#[trigger] m2.replies[j], event.guild_id, event.thread_id) implies i == j by {
        if i < j {
            assert(!reply_is_for(m2.replies[j], m2.replies[i].guild_id, m2.replies[i].channel_id));
        } else if j < i {
            assert(!reply_is_for(m2.replies[i], m2.replies[j].guild_id, m2.replies[j].channel_id));
        }
    }
}

/// A proposal is answered once: after an answer got through, any further
/// answer to the same reply is refused as not found and the status stays the
/// one first given.
pub proof fn law_answer_applies_once(
    m: StoreModel,
    guild: i64,
    channel: i64,
    first: ReplyStatus,
    second: ReplyStatus,
)
    requires
        m.wf(),
        update_status_error(m, guild, channel, true, first) is None,
    ensures
        ({
            let i = reply_index(m.replies, guild, channel);
            let m1 = with_replies(m, m.replies.update(i, answered(m.replies[i], true, first)), m.next_id);
            &&& m1.wf()
            &&& update_status_error(m1, guild, channel, true, second) == Some(ErrorType::NotFound)
            &&& m1.replies[reply_index(m1.replies, guild, channel)].status == first
        }),
{
    let i = reply_index(m.replies, guild, channel);
    let m1 = with_replies(m, m.replies.update(i, answered(m.replies[i], true, first)), m.next_id);
    lemma_wf_replace_reply(m, i, answered(m.replies[i], true, first));
    lemma_reply_index_is(m1, i, guild, channel);
}

/// Two answers racing on one prompt, both by its owner and each an accept or
/// a reject: the first decides the status, and the second changes nothing
/// and is told that the prompt was already answered.
pub proof fn law_accept_reject_race(m: StoreModel, first: ReactionEvent, second: ReactionEvent)
    requires
        m.wf(),
        !first.user_is_bot,
        !second.user_is_bot,
        second.guild_id == first.guild_id,
        second.channel_id == first.channel_id,
        second.message_id == first.message_id,
        second.user_id == first.user_id,
        reaction_choice(first.emoji@) != ReactionChoice::Other,
        reaction_choice(second.emoji@) != ReactionChoice::Other,
    ensures
        reaction_added_next(m, first).0.wf(),
        reaction_added_next(reaction_added_next(m, first).0, second).0 == reaction_added_next(m, first).0,
        on_prompt(m, first) && m.replies[reply_index(
            m.replies,
            first.guild_id,
            first.channel_id,
        )].message_owner == first.user_id ==> reaction_added_next(
            reaction_added_next(m, first).0,
            second,
        ).1 == seq![Action::Notify { channel_id: second.channel_id, notice: Notice::AlreadyResolved }],
{
    let m1 = reaction_added_next(m, first).0;
    if on_prompt(m, first) {
        let i = reply_index(m.replies, first.guild_id, first.channel_id);
        let row = m.replies[i];
        if row.message_owner == first.user_id {
            let status = match reaction_choice(first.emoji@) {
                ReactionChoice::Accept => ReplyStatus::Active,
                _ => ReplyStatus::Inactive,
            };
            let second_status = match reaction_choice(second.emoji@) {
                ReactionChoice::Accept => ReplyStatus::Active,
                _ => ReplyStatus::Inactive,
            };
            if update_status_error(m, first.guild_id, first.channel_id, true, status) is None {
                law_answer_applies_once(m, first.guild_id, first.channel_id, status, second_status);
                lemma_reply_index_is(m1, i, first.guild_id, first.channel_id);
                assert(on_prompt(m1, second));
            } else {
                assert(m1 == m);
                assert(update_status_error(m, first.guild_id, first.channel_id, true, second_status) is Some);
            }
        }
    }
}

/// Thread pairs come in reciprocal couples: for every thread pair A to B the
/// store holds a pair B to A under the same reply (`has_reverse`).
pub proof fn law_thread_pairs_reciprocal(m: StoreModel)
    requires
        m.wf(),
    ensures
        forall|i: int|
            0 <= i < m.thread_pairs.len() ==> has_reverse(m.thread_pairs, #[trigger] m.thread_pairs[i]),
{
}

} // verus!
