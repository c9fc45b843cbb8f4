use pairing_relay::confirm::{
    on_channel_activity, on_prompt_sent, on_reaction_added, on_reaction_removed, on_remote_post_created,
    on_thread_created,
    Action, Notice, ReactionEvent, ThreadCreated,
};
use pairing_relay::errors::ErrorType;
use pairing_relay::model::{ReplicationForumPairData, ReplicationPairData, ReplyStatus};
use pairing_relay::relay::{delivery_marker, plan_relay, ContainerKind, Marker, MessageEvent};
use pairing_relay::store::PairingStore;

const OWNER: i64 = 7;
const OTHER_USER: i64 = 8;
const FOO: i64 = 100;
const PROMPT: i64 = 500;
const REMOTE_POST: i64 = 200;

fn store_with_forum_pair() -> PairingStore {
    let mut store = PairingStore::new();
    store
        .create_replication_forum_pair(
            ReplicationForumPairData { from_guild: 1, from_forum: 10, to_guild: 2, to_forum: 20 },
            1000,
        )
        .unwrap();
    store
}

fn foo_created() -> ThreadCreated {
    ThreadCreated { guild_id: 1, thread_id: FOO, parent_id: 10, owner_id: Some(OWNER) }
}

fn reaction(user: i64, emoji: &str) -> ReactionEvent {
    ReactionEvent {
        guild_id: 1,
        channel_id: FOO,
        message_id: PROMPT,
        user_id: user,
        user_is_bot: false,
        emoji: emoji.to_string(),
    }
}

/// The store after the post "foo" was proposed and its prompt sent.
fn proposed_store() -> PairingStore {
    let mut store = store_with_forum_pair();
    on_thread_created(&mut store, foo_created(), 1001);
    on_prompt_sent(&mut store, 1, FOO, PROMPT);
    store
}

#[test]
fn post_in_paired_forum_is_proposed_to_its_owner() {
    let mut store = store_with_forum_pair();
    let actions = on_thread_created(&mut store, foo_created(), 1001);
    assert_eq!(actions, vec![Action::SendPrompt { guild_id: 1, channel_id: FOO, to_guild: 2, to_channel: 20 }]);
    let replies = store.reply_rows();
    assert_eq!(replies.len(), 1);
    assert_eq!(replies[0].guild_id, 1);
    assert_eq!(replies[0].channel_id, FOO);
    assert_eq!(replies[0].status, ReplyStatus::Inactive);
    assert!(!replies[0].responded);
    assert_eq!(replies[0].message_owner, OWNER);
    assert_eq!(replies[0].message_id, None);

    let actions = on_prompt_sent(&mut store, 1, FOO, PROMPT);
    assert_eq!(
        actions,
        vec![
            Action::React { channel_id: FOO, message_id: PROMPT, marker: Marker::Accept },
            Action::React { channel_id: FOO, message_id: PROMPT, marker: Marker::Reject },
        ]
    );
    assert_eq!(store.reply_rows()[0].message_id, Some(PROMPT));
}

#[test]
fn owner_accept_activates_and_links_threads() {
    let mut store = proposed_store();
    let reply_id = store.reply_rows()[0].id;
    let actions = on_reaction_added(&mut store, &reaction(OWNER, "\u{1F44D}"));
    assert_eq!(
        actions,
        vec![
            Action::DeleteMessage { channel_id: FOO, message_id: PROMPT },
            Action::CreateRemotePost { reply_id, guild_id: 1, thread_id: FOO, to_guild: 2, to_forum: 20 },
        ]
    );
    assert_eq!(store.reply_rows()[0].status, ReplyStatus::Active);
    assert!(store.reply_rows()[0].responded);

    let (first, second) = on_remote_post_created(&mut store, reply_id, 1, FOO, 2, REMOTE_POST, 1002).unwrap();
    assert_eq!((first.from_guild, first.from_thread, first.to_guild, first.to_thread), (1, FOO, 2, REMOTE_POST));
    assert_eq!((second.from_guild, second.from_thread, second.to_guild, second.to_thread), (2, REMOTE_POST, 1, FOO));
    assert_eq!(first.replication_reply_id, reply_id);
    assert_eq!(second.replication_reply_id, reply_id);
    assert_eq!(store.thread_pair_rows().len(), 2);
}

#[test]
fn non_owner_accept_changes_nothing() {
    let mut store = proposed_store();
    let before = store.reply_rows().clone();
    let actions = on_reaction_added(&mut store, &reaction(OTHER_USER, "\u{1F44D}"));
    assert_eq!(actions, vec![Action::Notify { channel_id: FOO, notice: Notice::NotMessageOwner }]);
    assert_eq!(store.reply_rows(), &before);
    assert!(store.thread_pair_rows().is_empty());
}

#[test]
fn message_in_linked_thread_is_relayed() {
    let mut store = proposed_store();
    let reply_id = store.reply_rows()[0].id;
    on_reaction_added(&mut store, &reaction(OWNER, "\u{1F44D}"));
    on_remote_post_created(&mut store, reply_id, 1, FOO, 2, REMOTE_POST, 1002).unwrap();
    let event = MessageEvent {
        guild_id: 1,
        channel_id: FOO,
        kind: ContainerKind::Thread,
        author_is_bot: false,
        author_name: "U".to_string(),
        content: "hello".to_string(),
    };
    let plan = plan_relay(&store, &event).unwrap();
    assert_eq!(plan.text, "`U`: hello");
    assert_eq!(plan.destinations.len(), 1);
    assert_eq!(plan.destinations[0].guild_id, 2);
    assert_eq!(plan.destinations[0].channel_id, REMOTE_POST);
    assert_eq!(delivery_marker(true), Marker::Delivered);
    assert_eq!(delivery_marker(false), Marker::Failed);
}

#[test]
fn remote_post_relays_back() {
    let mut store = proposed_store();
    let reply_id = store.reply_rows()[0].id;
    on_reaction_added(&mut store, &reaction(OWNER, "\u{1F44D}"));
    on_remote_post_created(&mut store, reply_id, 1, FOO, 2, REMOTE_POST, 1002).unwrap();
    let event = MessageEvent {
        guild_id: 2,
        channel_id: REMOTE_POST,
        kind: ContainerKind::Thread,
        author_is_bot: false,
        author_name: "V".to_string(),
        content: "hi back".to_string(),
    };
    let plan = plan_relay(&store, &event).unwrap();
    assert_eq!(plan.text, "`V`: hi back");
    assert_eq!(plan.destinations.len(), 1);
    assert_eq!((plan.destinations[0].guild_id, plan.destinations[0].channel_id), (1, FOO));
}

#[test]
fn bot_messages_are_not_relayed() {
    let store = store_with_forum_pair();
    let event = MessageEvent {
        guild_id: 1,
        channel_id: FOO,
        kind: ContainerKind::Thread,
        author_is_bot: true,
        author_name: "bot".to_string(),
        content: "x".to_string(),
    };
    assert!(plan_relay(&store, &event).is_none());
}

#[test]
fn second_thread_created_event_adds_no_reply() {
    let mut store = store_with_forum_pair();
    on_thread_created(&mut store, foo_created(), 1001);
    let actions = on_thread_created(&mut store, foo_created(), 1005);
    assert!(actions.is_empty());
    assert_eq!(store.reply_rows().len(), 1);
}

#[test]
fn only_first_declared_pair_is_proposed() {
    let mut store = store_with_forum_pair();
    store
        .create_replication_forum_pair(
            ReplicationForumPairData { from_guild: 1, from_forum: 10, to_guild: 3, to_forum: 30 },
            1000,
        )
        .unwrap();
    let actions = on_thread_created(&mut store, foo_created(), 1001);
    assert_eq!(actions, vec![Action::SendPrompt { guild_id: 1, channel_id: FOO, to_guild: 2, to_channel: 20 }]);
    assert_eq!(store.reply_rows().len(), 1);
}

#[test]
fn thread_in_unpaired_forum_is_ignored() {
    let mut store = store_with_forum_pair();
    let event = ThreadCreated { guild_id: 1, thread_id: FOO, parent_id: 11, owner_id: Some(OWNER) };
    assert!(on_thread_created(&mut store, event, 1001).is_empty());
    assert!(store.reply_rows().is_empty());
}

#[test]
fn thread_without_owner_gets_a_notice() {
    let mut store = store_with_forum_pair();
    let event = ThreadCreated { guild_id: 1, thread_id: FOO, parent_id: 10, owner_id: None };
    let actions = on_thread_created(&mut store, event, 1001);
    assert_eq!(actions, vec![Action::Notify { channel_id: FOO, notice: Notice::NoThreadOwner }]);
    assert!(store.reply_rows().is_empty());
}

#[test]
fn accept_then_reject_keeps_the_first_answer() {
    let mut store = proposed_store();
    on_reaction_added(&mut store, &reaction(OWNER, "\u{1F44D}"));
    let actions = on_reaction_added(&mut store, &reaction(OWNER, "\u{1F44E}"));
    assert_eq!(actions, vec![Action::Notify { channel_id: FOO, notice: Notice::AlreadyResolved }]);
    assert_eq!(store.reply_rows()[0].status, ReplyStatus::Active);
}

#[test]
fn reject_then_accept_keeps_the_first_answer() {
    let mut store = proposed_store();
    let actions = on_reaction_added(&mut store, &reaction(OWNER, "\u{1F44E}"));
    assert_eq!(actions, vec![Action::DeleteMessage { channel_id: FOO, message_id: PROMPT }]);
    assert_eq!(store.reply_rows()[0].status, ReplyStatus::Inactive);
    assert!(store.reply_rows()[0].responded);
    let actions = on_reaction_added(&mut store, &reaction(OWNER, "\u{1F44D}"));
    assert_eq!(actions, vec![Action::Notify { channel_id: FOO, notice: Notice::AlreadyResolved }]);
    assert_eq!(store.reply_rows()[0].status, ReplyStatus::Inactive);
}

#[test]
fn other_emoji_is_ignored() {
    let mut store = proposed_store();
    let actions = on_reaction_added(&mut store, &reaction(OWNER, "\u{1F600}"));
    assert!(actions.is_empty());
    assert!(!store.reply_rows()[0].responded);
}

#[test]
fn reaction_on_unknown_message_is_ignored() {
    let mut store = proposed_store();
    let mut event = reaction(OWNER, "\u{1F44D}");
    event.message_id = PROMPT + 1;
    let actions = on_reaction_added(&mut store, &event);
    assert!(actions.is_empty());
    assert!(!store.reply_rows()[0].responded);
}

#[test]
fn retracting_an_answered_reaction_drops_the_reply() {
    let mut store = proposed_store();
    let reply_id = store.reply_rows()[0].id;
    on_reaction_added(&mut store, &reaction(OWNER, "\u{1F44D}"));
    on_remote_post_created(&mut store, reply_id, 1, FOO, 2, REMOTE_POST, 1002).unwrap();
    let actions = on_reaction_removed(&mut store, &reaction(OWNER, "\u{1F44D}"));
    assert_eq!(actions, vec![Action::DeleteMessage { channel_id: FOO, message_id: PROMPT }]);
    assert!(store.reply_rows().is_empty());
    assert_eq!(store.thread_pair_rows().len(), 2);
}

#[test]
fn plain_channel_is_proposed_then_relayed() {
    let mut store = PairingStore::new();
    store
        .create_replication_pair(ReplicationPairData { from_guild: 1, from_channel: 11, to_guild: 2, to_channel: 22 }, 1)
        .unwrap();
    let actions = on_channel_activity(&mut store, 1, 11, OWNER, 2);
    assert_eq!(actions, vec![Action::SendPrompt { guild_id: 1, channel_id: 11, to_guild: 2, to_channel: 22 }]);
    assert_eq!(store.reply_rows()[0].message_owner, OWNER);
    assert!(on_channel_activity(&mut store, 1, 11, OTHER_USER, 3).is_empty());
    assert!(on_channel_activity(&mut store, 1, 12, OWNER, 3).is_empty());
    assert_eq!(store.reply_rows().len(), 1);

    let message = |author: &str| MessageEvent {
        guild_id: 1,
        channel_id: 11,
        kind: ContainerKind::Channel,
        author_is_bot: false,
        author_name: author.to_string(),
        content: "hi".to_string(),
    };
    assert!(plan_relay(&store, &message("U")).unwrap().destinations.is_empty());

    on_prompt_sent(&mut store, 1, 11, PROMPT);
    let mut accept = reaction(OWNER, "\u{1F44D}");
    accept.channel_id = 11;
    let actions = on_reaction_added(&mut store, &accept);
    assert_eq!(actions, vec![Action::DeleteMessage { channel_id: 11, message_id: PROMPT }]);
    let plan = plan_relay(&store, &message("U")).unwrap();
    assert_eq!(plan.destinations.len(), 1);
    assert_eq!((plan.destinations[0].guild_id, plan.destinations[0].channel_id), (2, 22));
}

#[test]
fn remote_post_needs_an_accepted_reply() {
    let mut store = proposed_store();
    let reply_id = store.reply_rows()[0].id;
    let refused = on_remote_post_created(&mut store, reply_id, 1, FOO, 2, REMOTE_POST, 1002);
    assert_eq!(refused.unwrap_err().err_type, ErrorType::NotFound);
    assert!(store.thread_pair_rows().is_empty());
    on_reaction_added(&mut store, &reaction(OWNER, "\u{1F44E}"));
    let refused = on_remote_post_created(&mut store, reply_id, 1, FOO, 2, REMOTE_POST, 1002);
    assert_eq!(refused.unwrap_err().err_type, ErrorType::NotFound);
    assert!(store.thread_pair_rows().is_empty());
}

#[test]
fn bot_reactions_are_ignored() {
    let mut store = proposed_store();
    let mut event = reaction(OWNER, "\u{1F44D}");
    event.user_is_bot = true;
    assert!(on_reaction_added(&mut store, &event).is_empty());
    assert!(on_reaction_removed(&mut store, &event).is_empty());
    assert!(!store.reply_rows()[0].responded);
}

#[test]
fn owner_removing_reaction_drops_the_proposal() {
    let mut store = proposed_store();
    let actions = on_reaction_removed(&mut store, &reaction(OTHER_USER, "\u{1F44D}"));
    assert!(actions.is_empty());
    assert_eq!(store.reply_rows().len(), 1);
    let actions = on_reaction_removed(&mut store, &reaction(OWNER, "\u{1F44D}"));
    assert_eq!(actions, vec![Action::DeleteMessage { channel_id: FOO, message_id: PROMPT }]);
    assert!(store.reply_rows().is_empty());
}

#[test]
fn prompt_sent_for_unknown_reply_is_reported() {
    let mut store = store_with_forum_pair();
    let actions = on_prompt_sent(&mut store, 1, FOO, PROMPT);
    assert_eq!(actions, vec![Action::Notify { channel_id: FOO, notice: Notice::ReplyNotFound }]);
}
