use vstd::prelude::*;
use crate::errors::{AppError, ErrorType};
use crate::model::{
    channel_pairs_from, forum_pairs_from, reply_confirmed, ReplicationForumPair, ReplicationPair, ReplicationReplyData, ReplicationThreadPair,
    ReplicationThreadPairData, ReplyStatus, StoreModel,
};
use crate::relay::Marker;
use crate::store::{
    answered, parent_forum_of_prompt, reply_index, reply_key_index, reply_row, reversed,
    thread_pair_row, update_status_error, with_prompt, with_replies, with_thread_pairs,
    PairingStore,
};

verus! {

/// A short notice posted back into the container an event came from.
#[derive(Debug, Clone, Copy, PartialEq, Eq, Structural)]
pub enum Notice {
    /// A thread was created without a known owner, so nobody could confirm.
    NoThreadOwner,
    /// Someone other than the owner answered a prompt.
    NotMessageOwner,
    /// The prompt was already answered; this answer was not applied.
    AlreadyResolved,
    /// The prompt that was sent belongs to no known reply.
    ReplyNotFound,
    /// The store could not record the proposal.
    StoreFailure,
}

/// An outbound effect for the gateway to carry out.
#[derive(Debug, Clone, Copy, PartialEq, Eq, Structural)]
pub enum Action {
    /// Send into (`guild_id`, `channel_id`) the prompt asking whether to pair
    /// with (`to_guild`, `to_channel`).
    SendPrompt { guild_id: i64, channel_id: i64, to_guild: i64, to_channel: i64 },
    /// React with `marker` on a message.
    React { channel_id: i64, message_id: i64, marker: Marker },
    /// Delete a message.
    DeleteMessage { channel_id: i64, message_id: i64 },
    /// Create in `to_forum` of `to_guild` the post mirroring the thread
    /// (`guild_id`, `thread_id`), whose pairing is the reply `reply_id`.
    CreateRemotePost { reply_id: i64, guild_id: i64, thread_id: i64, to_guild: i64, to_forum: i64 },
    /// Post a notice into a container.
    Notify { channel_id: i64, notice: Notice },
}

/// A thread (or forum post) was created under `parent_id`.
#[derive(Debug, Clone, Copy, PartialEq, Eq, Structural)]
pub struct ThreadCreated {
    pub guild_id: i64,
    pub thread_id: i64,
    pub parent_id: i64,
    pub owner_id: Option<i64>,
}

/// A reaction was added to or removed from a message.
#[derive(Debug, Clone)]
pub struct ReactionEvent {
    pub guild_id: i64,
    pub channel_id: i64,
    pub message_id: i64,
    pub user_id: i64,
    pub user_is_bot: bool,
    pub emoji: String,
}

/// What a reaction means on a prompt.
#[derive(Debug, Clone, Copy, PartialEq, Eq, Structural)]
pub enum ReactionChoice {
    Accept,
    Reject,
    Other,
}

/// Thumbs up accepts, thumbs down rejects.
pub open spec fn reaction_choice(emoji: Seq<char>) -> ReactionChoice {
    if emoji == seq!['\u{1F44D}'] {
        ReactionChoice::Accept
    } else if emoji == seq!['\u{1F44E}'] {
        ReactionChoice::Reject
    } else {
        ReactionChoice::Other
    }
}

/// The proposal recorded for `thread`, about the forum pair `pair`.
pub open spec fn proposal(event: ThreadCreated, pair: ReplicationForumPair, owner: i64) -> ReplicationReplyData {
    ReplicationReplyData {
        responded: false,
        status: ReplyStatus::Inactive,
        guild_id: event.guild_id,
        channel_id: event.thread_id,
        replication_pairs: pair.id,
        message_id: None,
        message_owner: owner,
    }
}

/// The store and the effects after a thread was created: when its parent
/// forum is paired and no proposal exists yet for the thread, the first
/// declared pair is proposed to the thread's owner and the prompt is sent.
pub open spec fn thread_created_next(m: StoreModel, event: ThreadCreated, now: i64) -> (StoreModel, Seq<Action>) {
    let pairs = forum_pairs_from(m.forum_pairs, event.guild_id, event.parent_id);
    if pairs.len() == 0 || m.has_reply(event.guild_id, event.thread_id) {
        (m, seq![])
    } else {
        match event.owner_id {
            None => (m, seq![Action::Notify { channel_id: event.thread_id, notice: Notice::NoThreadOwner }]),
            Some(owner) => if m.next_id == i64::MAX {
                (m, seq![Action::Notify { channel_id: event.thread_id, notice: Notice::StoreFailure }])
            } else {
                (
                    with_replies(
                        m,
                        m.replies.push(reply_row(proposal(event, pairs[0], owner), m.next_id, now)),
                        m.next_id + 1,
                    ),
                    seq![
                        Action::SendPrompt {
                            guild_id: event.guild_id,
                            channel_id: event.thread_id,
                            to_guild: pairs[0].to_guild,
                            to_channel: pairs[0].to_forum,
                        },
                    ],
                )
            },
        }
    }
}

/// The proposal recorded for the plain channel (`guild`, `channel`), about
/// the channel pair `pair`, answerable by `owner`.
pub open spec fn channel_proposal(guild: i64, channel: i64, pair: ReplicationPair, owner: i64) -> ReplicationReplyData {
    ReplicationReplyData {
        responded: false,
        status: ReplyStatus::Inactive,
        guild_id: guild,
        channel_id: channel,
        replication_pairs: pair.id,
        message_id: None,
        message_owner: owner,
    }
}

/// The store and the effects after `author` posted in the plain channel
/// (`guild`, `channel`): when the channel has declared pairs and no proposal
/// yet, the first declared pair is proposed to that author and the prompt is
/// sent. Accepting it makes the channel pair active.
pub open spec fn channel_activity_next(m: StoreModel, guild: i64, channel: i64, author: i64, now: i64) -> (StoreModel, Seq<Action>) {
    let pairs = channel_pairs_from(m.channel_pairs, guild, channel);
    if pairs.len() == 0 || m.has_reply(guild, channel) {
        (m, seq![])
    } else if m.next_id == i64::MAX {
        (m, seq![Action::Notify { channel_id: channel, notice: Notice::StoreFailure }])
    } else {
        (
            with_replies(
                m,
                m.replies.push(reply_row(channel_proposal(guild, channel, pairs[0], author), m.next_id, now)),
                m.next_id + 1,
            ),
            seq![
                Action::SendPrompt {
                    guild_id: guild,
                    channel_id: channel,
                    to_guild: pairs[0].to_guild,
                    to_channel: pairs[0].to_channel,
                },
            ],
        )
    }
}

/// The store and the effects once the prompt of the reply about
/// (`guild`, `channel`) was sent as `message_id`: the message is recorded on
/// the reply and the two answer markers are offered on it.
pub open spec fn prompt_sent_next(m: StoreModel, guild: i64, channel: i64, message_id: i64) -> (StoreModel, Seq<Action>) {
    if m.has_reply(guild, channel) {
        let i = reply_index(m.replies, guild, channel);
        (
            with_replies(m, m.replies.update(i, with_prompt(m.replies[i], Some(message_id))), m.next_id),
            seq![
                Action::React { channel_id: channel, message_id, marker: Marker::Accept },
                Action::React { channel_id: channel, message_id, marker: Marker::Reject },
            ],
        )
    } else {
        (m, seq![Action::Notify { channel_id: channel, notice: Notice::ReplyNotFound }])
    }
}

/// The reaction is on the recorded prompt of the reply about its container.
pub open spec fn on_prompt(m: StoreModel, event: ReactionEvent) -> bool {
    m.has_reply(event.guild_id, event.channel_id) && m.replies[reply_index(
        m.replies,
        event.guild_id,
        event.channel_id,
    )].message_id == Some(event.message_id)
}

/// The remote posts to create once a forum proposal is accepted: one in the
/// destination forum of each pair declared from the proposal's forum.
pub open spec fn remote_posts(m: StoreModel, event: ReactionEvent, reply_id: i64) -> Seq<Action> {
    match parent_forum_of_prompt(m, event.guild_id, event.message_id) {
        Some(forum) => forum_pairs_from(m.forum_pairs, event.guild_id, forum).map_values(
            |p: ReplicationForumPair|
                Action::CreateRemotePost {
                    reply_id,
                    guild_id: event.guild_id,
                    thread_id: event.channel_id,
                    to_guild: p.to_guild,
                    to_forum: p.to_forum,
                },
        ),
        None => seq![],
    }
}

/// The store and the effects after a reaction was added. Reactions by bots,
/// reactions on other messages than a prompt, and reactions other than the
/// two markers are ignored. Only the owner of the prompt can answer it:
/// accepting makes the reply active and, for a forum proposal, asks for the
/// remote posts; rejecting keeps it inactive; both mark it answered and
/// delete the prompt. An answer that comes after another changes nothing.
pub open spec fn reaction_added_next(m: StoreModel, event: ReactionEvent) -> (StoreModel, Seq<Action>) {
    let c = event.channel_id;
    if event.user_is_bot {
        (m, seq![])
    } else if !on_prompt(m, event) {
        (m, seq![])
    } else {
        let i = reply_index(m.replies, event.guild_id, c);
        let row = m.replies[i];
        if row.message_owner != event.user_id {
            (m, seq![Action::Notify { channel_id: c, notice: Notice::NotMessageOwner }])
        } else {
            let status = match reaction_choice(event.emoji@) {
                ReactionChoice::Accept => ReplyStatus::Active,
                _ => ReplyStatus::Inactive,
            };
            if reaction_choice(event.emoji@) == ReactionChoice::Other {
                (m, seq![])
            } else if update_status_error(m, event.guild_id, c, true, status) is Some {
                (m, seq![Action::Notify { channel_id: c, notice: Notice::AlreadyResolved }])
            } else {
                let m2 = with_replies(m, m.replies.update(i, answered(row, true, status)), m.next_id);
                let delete = seq![Action::DeleteMessage { channel_id: c, message_id: event.message_id }];
                if status == ReplyStatus::Active {
                    (m2, delete + remote_posts(m2, event, row.id))
                } else {
                    (m2, delete)
                }
            }
        }
    }
}

/// The store and the effects after a reaction was removed: when the owner
/// takes back a reaction on a prompt, the reply and its prompt go away,
/// whether or not the prompt was answered. Retracting is kept apart from
/// rejecting: a rejection records the answer and keeps the reply, so a later
/// answer is refused; a retraction forgets the proposal, so the container
/// can be proposed again. Thread pairs already created stay.
pub open spec fn reaction_removed_next(m: StoreModel, event: ReactionEvent) -> (StoreModel, Seq<Action>) {
    if event.user_is_bot || !on_prompt(m, event) {
        (m, seq![])
    } else {
        let row = m.replies[reply_index(m.replies, event.guild_id, event.channel_id)];
        if row.message_owner != event.user_id {
            (m, seq![])
        } else {
            (
                with_replies(m, m.replies.remove(reply_key_index(m.replies, row.id)), m.next_id),
                seq![Action::DeleteMessage { channel_id: event.channel_id, message_id: event.message_id }],
            )
        }
    }
}

/// What a reaction with `emoji` means on a prompt.
pub fn classify_reaction(emoji: &str) -> (r: ReactionChoice)
    ensures
        r == reaction_choice(emoji@),
{
    let given = emoji.to_owned();
    let accept = "\u{1F44D}".to_owned();
    let reject = "\u{1F44E}".to_owned();
    proof {
        reveal_strlit("\u{1F44D}");
        reveal_strlit("\u{1F44E}");
        assert("\u{1F44D}"@ =~= seq!['\u{1F44D}']);
        assert("\u{1F44E}"@ =~= seq!['\u{1F44E}']);
    }
    if given == accept {
        ReactionChoice::Accept
    } else if given == reject {
        ReactionChoice::Reject
    } else {
        ReactionChoice::Other
    }
}

/// Drives a new thread through the proposal step (see `thread_created_next`).
pub fn on_thread_created(store: &mut PairingStore, event: ThreadCreated, now: i64) -> (r: Vec<Action>)
    requires
        old(store)@.wf(),
    ensures
        final(store)@.wf(),
        (final(store)@, r@) == thread_created_next(old(store)@, event, now),
{
    let pairs = match store.get_replication_forum_pair(event.guild_id, event.parent_id) {
        Ok(pairs) => pairs,
        Err(_) => Vec::new(),
    };
    if pairs.len() == 0 {
        return Vec::new();
    }
    match store.get_replication_reply(event.guild_id, event.thread_id) {
        Ok(_) => {
            return Vec::new();
        },
        Err(_) => {},
    }
    let owner = match event.owner_id {
        Some(owner) => owner,
        None => {
            return vec![Action::Notify { channel_id: event.thread_id, notice: Notice::NoThreadOwner }];
        },
    };
    let first = pairs[0];
    let dto = ReplicationReplyData {
        responded: false,
        status: ReplyStatus::Inactive,
        guild_id: event.guild_id,
        channel_id: event.thread_id,
        replication_pairs: first.id,
        message_id: None,
        message_owner: owner,
    };
    match store.create_replication_reply(dto, now) {
        Ok(_) => {
            let actions = vec![
                Action::SendPrompt {
                    guild_id: event.guild_id,
                    channel_id: event.thread_id,
                    to_guild: first.to_guild,
                    to_channel: first.to_forum,
                },
            ];
            assert(actions@ =~= thread_created_next(old(store)@, event, now).1);
            actions
        },
        Err(_) => {
            let actions = vec![Action::Notify { channel_id: event.thread_id, notice: Notice::StoreFailure }];
            assert(actions@ =~= thread_created_next(old(store)@, event, now).1);
            actions
        },
    }
}

/// Drives a plain channel through the proposal step on a message by
/// `author_id` (see `channel_activity_next`).
pub fn on_channel_activity(store: &mut PairingStore, guild_id: i64, channel_id: i64, author_id: i64, now: i64) -> (r:
    Vec<Action>)
    requires
        old(store)@.wf(),
    ensures
        final(store)@.wf(),
        (final(store)@, r@) == channel_activity_next(old(store)@, guild_id, channel_id, author_id, now),
{
    let pairs = match store.get_replication_pairs(guild_id, channel_id) {
        Ok(pairs) => pairs,
        Err(_) => Vec::new(),
    };
    if pairs.len() == 0 {
        return Vec::new();
    }
    match store.get_replication_reply(guild_id, channel_id) {
        Ok(_) => {
            return Vec::new();
        },
        Err(_) => {},
    }
    let first = pairs[0];
    let dto = ReplicationReplyData {
        responded: false,
        status: ReplyStatus::Inactive,
        guild_id,
        channel_id,
        replication_pairs: first.id,
        message_id: None,
        message_owner: author_id,
    };
    match store.create_replication_reply(dto, now) {
        Ok(_) => {
            let actions = vec![
                Action::SendPrompt { guild_id, channel_id, to_guild: first.to_guild, to_channel: first.to_channel },
            ];
            assert(actions@ =~= channel_activity_next(old(store)@, guild_id, channel_id, author_id, now).1);
            actions
        },
        Err(_) => {
            let actions = vec![Action::Notify { channel_id, notice: Notice::StoreFailure }];
            assert(actions@ =~= channel_activity_next(old(store)@, guild_id, channel_id, author_id, now).1);
            actions
        },
    }
}

/// Records that the prompt of the reply about (`guild_id`, `channel_id`)
/// was sent as `message_id` (see `prompt_sent_next`).
pub fn on_prompt_sent(store: &mut PairingStore, guild_id: i64, channel_id: i64, message_id: i64) -> (r: Vec<
    Action,
>)
    requires
        old(store)@.wf(),
    ensures
        final(store)@.wf(),
        (final(store)@, r@) == prompt_sent_next(old(store)@, guild_id, channel_id, message_id),
{
    match store.update_replication_reply_message_id(guild_id, channel_id, Some(message_id)) {
        Ok(_) => {
            let actions = vec![
                Action::React { channel_id, message_id, marker: Marker::Accept },
                Action::React { channel_id, message_id, marker: Marker::Reject },
            ];
            assert(actions@ =~= prompt_sent_next(old(store)@, guild_id, channel_id, message_id).1);
            actions
        },
        Err(_) => {
            let actions = vec![Action::Notify { channel_id, notice: Notice::ReplyNotFound }];
            assert(actions@ =~= prompt_sent_next(old(store)@, guild_id, channel_id, message_id).1);
            actions
        },
    }
}

/// The remote posts to create for the accepted reply `reply_id`, after the
/// delete of its prompt.
fn accepted_actions(store: &PairingStore, event: &ReactionEvent, reply_id: i64) -> (r: Vec<Action>)
    requires
        store@.wf(),
    ensures
        r@ == seq![Action::DeleteMessage { channel_id: event.channel_id, message_id: event.message_id }]
            + remote_posts(store@, *event, reply_id),
{
    let mut actions = vec![Action::DeleteMessage { channel_id: event.channel_id, message_id: event.message_id }];
    let forum = match store.get_parent_forum_from_message_id(event.guild_id, event.message_id) {
        Ok(forum) => forum,
        Err(_) => {
            assert(actions@ =~= seq![Action::DeleteMessage { channel_id: event.channel_id, message_id: event.message_id }]
                + remote_posts(store@, *event, reply_id));
            return actions;
        },
    };
    let pairs = match store.get_replication_forum_pair(event.guild_id, forum) {
        Ok(pairs) => pairs,
        Err(_) => Vec::new(),
    };
    let mut i: usize = 0;
    while i < pairs.len()
        invariant
            i <= pairs@.len(),
            actions@.len() == i + 1,
            actions@[0] == (Action::DeleteMessage { channel_id: event.channel_id, message_id: event.message_id }),
            forall|j: int|
                0 <= j < i ==> actions@[j + 1] == (Action::CreateRemotePost {
                    reply_id,
                    guild_id: event.guild_id,
                    thread_id: event.channel_id,
                    to_guild: (#[trigger] pairs@[j]).to_guild,
                    to_forum: pairs@[j].to_forum,
                }),
        decreases pairs@.len() - i,
    {
        let p = pairs[i];
        actions.push(
            Action::CreateRemotePost {
                reply_id,
                guild_id: event.guild_id,
                thread_id: event.channel_id,
                to_guild: p.to_guild,
                to_forum: p.to_forum,
            },
        );
        i += 1;
    }
    assert(actions@ =~= seq![Action::DeleteMessage { channel_id: event.channel_id, message_id: event.message_id }]
        + remote_posts(store@, *event, reply_id));
    actions
}

/// Applies a reaction added on a message (see `reaction_added_next`).
pub fn on_reaction_added(store: &mut PairingStore, event: &ReactionEvent) -> (r: Vec<Action>)
    requires
        old(store)@.wf(),
    ensures
        final(store)@.wf(),
        (final(store)@, r@) == reaction_added_next(old(store)@, *event),
{
    let c = event.channel_id;
    if event.user_is_bot {
        return Vec::new();
    }
    let row = match store.get_replication_reply_full(event.guild_id, c, event.message_id) {
        Ok(row) => row,
        Err(_) => {
            return Vec::new();
        },
    };
    if row.message_owner != event.user_id {
        let actions = vec![Action::Notify { channel_id: c, notice: Notice::NotMessageOwner }];
        assert(actions@ =~= reaction_added_next(old(store)@, *event).1);
        return actions;
    }
    let choice = classify_reaction(event.emoji.as_str());
    let status = match choice {
        ReactionChoice::Accept => ReplyStatus::Active,
        ReactionChoice::Reject => ReplyStatus::Inactive,
        ReactionChoice::Other => {
            return Vec::new();
        },
    };
    match store.update_replication_reply_status(event.guild_id, c, true, status) {
        Err(_) => {
            let actions = vec![Action::Notify { channel_id: c, notice: Notice::AlreadyResolved }];
            assert(actions@ =~= reaction_added_next(old(store)@, *event).1);
            actions
        },
        Ok(_) => {
            if status == ReplyStatus::Active {
                accepted_actions(store, event, row.id)
            } else {
                let actions = vec![Action::DeleteMessage { channel_id: c, message_id: event.message_id }];
                assert(actions@ =~= reaction_added_next(old(store)@, *event).1);
                actions
            }
        },
    }
}

/// Applies a reaction removed from a message (see `reaction_removed_next`).
pub fn on_reaction_removed(store: &mut PairingStore, event: &ReactionEvent) -> (r: Vec<Action>)
    requires
        old(store)@.wf(),
    ensures
        final(store)@.wf(),
        (final(store)@, r@) == reaction_removed_next(old(store)@, *event),
{
    if event.user_is_bot {
        return Vec::new();
    }
    let row = match store.get_replication_reply_full(event.guild_id, event.channel_id, event.message_id) {
        Ok(row) => row,
        Err(_) => {
            return Vec::new();
        },
    };
    if row.message_owner != event.user_id {
        return Vec::new();
    }
    proof {
        let i = reply_index(old(store)@.replies, event.guild_id, event.channel_id);
        assert(old(store)@.replies[i].id == row.id);
    }
    let _ = store.delete_replication_reply(row.id);
    let actions = vec![Action::DeleteMessage { channel_id: event.channel_id, message_id: event.message_id }];
    assert(actions@ =~= reaction_removed_next(old(store)@, *event).1);
    actions
}

/// The link from the thread (`guild_id`, `thread_id`) to the remote post
/// (`to_guild`, `to_thread`) created for it, under the reply `reply_id`.
pub open spec fn remote_link(reply_id: i64, guild_id: i64, thread_id: i64, to_guild: i64, to_thread: i64) -> ReplicationThreadPairData {
    ReplicationThreadPairData {
        from_guild: guild_id,
        from_thread: thread_id,
        to_guild,
        to_thread,
        replication_reply_id: reply_id,
    }
}

/// Links the thread (`guild_id`, `thread_id`) and the remote post
/// (`to_guild`, `to_thread`) created for it, both ways, under the reply
/// `reply_id`. `NotFound` unless that reply exists and was accepted, so a
/// thread pair always comes from a confirmed proposal.
pub fn on_remote_post_created(
    store: &mut PairingStore,
    reply_id: i64,
    guild_id: i64,
    thread_id: i64,
    to_guild: i64,
    to_thread: i64,
    now: i64,
) -> (r: Result<(ReplicationThreadPair, ReplicationThreadPair), AppError>)
    requires
        old(store)@.wf(),
    ensures
        final(store)@.wf(),
        ({
            let dto = remote_link(reply_id, guild_id, thread_id, to_guild, to_thread);
            reply_confirmed(old(store)@.replies, reply_id) && old(store)@.next_id < i64::MAX - 1 ==> {
                &&& r is Ok
                &&& r->Ok_0.0 == thread_pair_row(dto, old(store)@.next_id, now)
                &&& r->Ok_0.1 == thread_pair_row(reversed(dto), old(store)@.next_id + 1, now)
                &&& final(store)@ == with_thread_pairs(
                    old(store)@,
                    old(store)@.thread_pairs.push(r->Ok_0.0).push(r->Ok_0.1),
                    old(store)@.next_id + 2,
                )
            }
        }),
        !reply_confirmed(old(store)@.replies, reply_id) ==> r is Err && r->Err_0.err_type == ErrorType::NotFound
            && final(store)@ == old(store)@,
        reply_confirmed(old(store)@.replies, reply_id) && old(store)@.next_id >= i64::MAX - 1 ==> r is Err
            && r->Err_0.err_type == ErrorType::Internal && final(store)@ == old(store)@,
{
    let dto = ReplicationThreadPairData {
        from_guild: guild_id,
        from_thread: thread_id,
        to_guild,
        to_thread,
        replication_reply_id: reply_id,
    };
    store.create_replication_thread_pair(dto, now)
}

/// The name used for a thread whose name could not be looked up.
pub open spec fn default_thread_name() -> Seq<char> {
    "Replicated thread"@
}

/// The thread's name, or a fixed one when it is unknown.
pub fn thread_name_or_default(name: Option<String>) -> (r: String)
    ensures
        name is Some ==> r@ == name->Some_0@,
        name is None ==> r@ == default_thread_name(),
{
    match name {
        Some(n) => n,
        None => String::from_str("Replicated thread"),
    }
}

/// The title of the remote post mirroring the thread `name`.
pub fn remote_post_title(name: &str) -> (r: String)
    ensures
        r@ == name@ + " - REPLICATED"@,
{
    let mut title = String::from_str(name);
    title.append(" - REPLICATED");
    title
}

/// The first message of the remote post mirroring the thread `name`.
pub fn remote_post_body(name: &str) -> (r: String)
    ensures
        r@ == "FIRST MSG - "@ + name@ + " - REPLICATED"@,
{
    let mut body = String::from_str("FIRST MSG - ");
    body.append(name);
    body.append(" - REPLICATED");
    body
}

} // verus!
