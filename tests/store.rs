use pairing_relay::errors::{AppError, ErrorType, StoreFailure};
use pairing_relay::model::{
    ReplicationForumPairData, ReplicationPairData, ReplicationReplyData, ReplicationThreadPairData,
    ReplyStatus,
};
use pairing_relay::relay::{relay_destinations, ContainerKind};
use pairing_relay::store::PairingStore;

fn proposal(guild_id: i64, channel_id: i64, pair: i64) -> ReplicationReplyData {
    ReplicationReplyData {
        responded: false,
        status: ReplyStatus::Inactive,
        guild_id,
        channel_id,
        replication_pairs: pair,
        message_id: None,
        message_owner: 7,
    }
}

fn channel_link() -> ReplicationPairData {
    ReplicationPairData { from_guild: 1, from_channel: 11, to_guild: 2, to_channel: 22 }
}

#[test]
fn channel_pair_relays_only_once_accepted() {
    let mut store = PairingStore::new();
    let pair = store.create_replication_pair(channel_link(), 5).unwrap();
    assert_eq!(store.get_replication_pairs(1, 11).unwrap().len(), 1);
    assert!(store.get_active_replication_pairs(1, 11).unwrap().is_empty());

    store.create_replication_reply(proposal(1, 11, pair.id), 6).unwrap();
    assert!(store.get_active_replication_pairs(1, 11).unwrap().is_empty());
    assert!(relay_destinations(&store, 1, 11, ContainerKind::Channel).is_empty());

    store.update_replication_reply_status(1, 11, true, ReplyStatus::Active).unwrap();
    let active = store.get_active_replication_pairs(1, 11).unwrap();
    assert_eq!(active, vec![pair]);
    let dests = relay_destinations(&store, 1, 11, ContainerKind::Channel);
    assert_eq!(dests.len(), 1);
    assert_eq!((dests[0].guild_id, dests[0].channel_id), (2, 22));
}

#[test]
fn rejected_channel_pair_is_never_active() {
    let mut store = PairingStore::new();
    let pair = store.create_replication_pair(channel_link(), 5).unwrap();
    store.create_replication_reply(proposal(1, 11, pair.id), 6).unwrap();
    store.update_replication_reply_status(1, 11, true, ReplyStatus::Inactive).unwrap();
    assert!(store.get_active_replication_pairs(1, 11).unwrap().is_empty());
    let second = store.update_replication_reply_status(1, 11, true, ReplyStatus::Active);
    assert_eq!(second.unwrap_err().err_type, ErrorType::NotFound);
    assert!(store.get_active_replication_pairs(1, 11).unwrap().is_empty());
}

#[test]
fn duplicate_pairs_are_bad_requests() {
    let mut store = PairingStore::new();
    let first = store.create_replication_pair(channel_link(), 5).unwrap();
    assert_eq!(first.id, 1);
    assert_eq!(first.created_at, 5);
    let again = store.create_replication_pair(channel_link(), 6);
    assert_eq!(again.unwrap_err().err_type, ErrorType::BadRequest);
    let forum = ReplicationForumPairData { from_guild: 1, from_forum: 10, to_guild: 2, to_forum: 20 };
    let f = store.create_replication_forum_pair(forum, 7).unwrap();
    assert_eq!(f.id, 2);
    assert_eq!(store.create_replication_forum_pair(forum, 8).unwrap_err().err_type, ErrorType::BadRequest);
    assert_eq!(store.channel_pair_rows().len(), 1);
    assert_eq!(store.forum_pair_rows().len(), 1);
}

#[test]
fn one_reply_per_container() {
    let mut store = PairingStore::new();
    let r = store.create_replication_reply(proposal(1, 11, 3), 6).unwrap();
    assert_eq!(r.id, 1);
    assert_eq!(r.created_at, 6);
    let again = store.create_replication_reply(proposal(1, 11, 4), 7);
    assert_eq!(again.unwrap_err().err_type, ErrorType::BadRequest);
    assert_eq!(store.reply_rows().len(), 1);
}

#[test]
fn new_reply_takes_the_given_fields() {
    let mut store = PairingStore::new();
    let mut dto = proposal(1, 11, 3);
    dto.status = ReplyStatus::Active;
    dto.responded = true;
    dto.message_id = Some(9);
    let r = store.create_replication_reply(dto, 6).unwrap();
    assert_eq!((r.guild_id, r.channel_id, r.replication_pairs, r.message_owner), (1, 11, 3, 7));
    assert_eq!((r.responded, r.status, r.message_id, r.created_at), (true, ReplyStatus::Active, Some(9), 6));
    assert_eq!(store.reply_rows().len(), 1);
}

#[test]
fn open_reply_takes_any_status() {
    let mut store = PairingStore::new();
    let before = store.create_replication_reply(proposal(1, 11, 3), 6).unwrap();
    let r = store.update_replication_reply_status(1, 11, false, ReplyStatus::Active).unwrap();
    assert_eq!((r.id, r.responded, r.status), (before.id, false, ReplyStatus::Active));
    assert_eq!(store.reply_rows()[0], r);
    let r = store.update_replication_reply_status(1, 11, true, ReplyStatus::Inactive).unwrap();
    assert_eq!((r.responded, r.status), (true, ReplyStatus::Inactive));
}

#[test]
fn answered_reply_is_not_updated_again() {
    let mut store = PairingStore::new();
    store.create_replication_reply(proposal(1, 11, 3), 6).unwrap();
    store.update_replication_reply_status(1, 11, true, ReplyStatus::Active).unwrap();
    for (responded, status) in [(true, ReplyStatus::Inactive), (false, ReplyStatus::Active), (false, ReplyStatus::Inactive)] {
        let e = store.update_replication_reply_status(1, 11, responded, status).unwrap_err();
        assert_eq!(e.err_type, ErrorType::NotFound);
        assert_eq!(e.message, "ReplicationReply not found");
    }
    assert_eq!(store.reply_rows()[0].status, ReplyStatus::Active);
    assert!(store.reply_rows()[0].responded);
}

#[test]
fn missing_reply_is_not_found() {
    let mut store = PairingStore::new();
    assert_eq!(store.get_replication_reply(1, 11).unwrap_err().err_type, ErrorType::NotFound);
    let e = store.update_replication_reply_status(1, 11, false, ReplyStatus::Active).unwrap_err();
    assert_eq!(e.err_type, ErrorType::NotFound);
    assert_eq!(e.message, "ReplicationReply not found");
    assert_eq!(store.update_replication_reply_message_id(1, 11, Some(9)).unwrap_err().err_type, ErrorType::NotFound);
    assert_eq!(store.get_replication_reply_full(1, 11, 9).unwrap_err().err_type, ErrorType::NotFound);
    assert_eq!(store.delete_replication_reply(1).unwrap(), 0);
}

#[test]
fn reply_is_found_by_prompt() {
    let mut store = PairingStore::new();
    store.create_replication_reply(proposal(1, 11, 3), 6).unwrap();
    assert_eq!(store.get_replication_reply_full(1, 11, 9).unwrap_err().err_type, ErrorType::NotFound);
    let updated = store.update_replication_reply_message_id(1, 11, Some(9)).unwrap();
    assert_eq!(updated.message_id, Some(9));
    assert_eq!(store.get_replication_reply_full(1, 11, 9).unwrap().id, updated.id);
    assert_eq!(store.get_replication_reply(1, 11).unwrap().message_id, Some(9));
    assert_eq!(store.get_replication_reply_full(1, 11, 10).unwrap_err().err_type, ErrorType::NotFound);
}

#[test]
fn delete_removes_one_reply() {
    let mut store = PairingStore::new();
    let a = store.create_replication_reply(proposal(1, 11, 3), 6).unwrap();
    let b = store.create_replication_reply(proposal(1, 12, 3), 6).unwrap();
    assert_eq!(store.delete_replication_reply(a.id).unwrap(), 1);
    assert_eq!(store.reply_rows().len(), 1);
    assert_eq!(store.reply_rows()[0].id, b.id);
    assert_eq!(store.delete_replication_reply(a.id).unwrap(), 0);
    store.update_replication_reply_status(1, 12, true, ReplyStatus::Active).unwrap();
    assert_eq!(store.delete_replication_reply(b.id).unwrap(), 1);
    assert!(store.reply_rows().is_empty());
}

#[test]
fn tearing_down_a_forum_pair_cascades() {
    let mut store = populated_store();
    let forum_id = store.forum_pair_rows()[0].id;
    let channel_id = store.channel_pair_rows()[0].id;
    assert!(store.tear_down_pair(forum_id));
    assert!(store.forum_pair_rows().is_empty());
    assert_eq!(store.channel_pair_rows().len(), 1);
    assert!(store.thread_pair_rows().is_empty());
    assert_eq!(store.reply_rows().len(), 1);
    assert_eq!(store.reply_rows()[0].replication_pairs, channel_id);
    assert!(!store.tear_down_pair(forum_id));
    assert!(store.tear_down_pair(channel_id));
    assert!(store.channel_pair_rows().is_empty());
    assert!(store.reply_rows().is_empty());
}

#[test]
fn tearing_down_an_unknown_pair_changes_nothing() {
    let mut store = populated_store();
    let before = (store.channel_pair_rows().clone(), store.thread_pair_rows().clone(), store.reply_rows().clone());
    assert!(!store.tear_down_pair(999));
    assert_eq!(before, (store.channel_pair_rows().clone(), store.thread_pair_rows().clone(), store.reply_rows().clone()));
}

#[test]
fn parent_forum_is_found_from_prompt() {
    let mut store = PairingStore::new();
    let forum = ReplicationForumPairData { from_guild: 1, from_forum: 10, to_guild: 2, to_forum: 20 };
    let f = store.create_replication_forum_pair(forum, 1).unwrap();
    assert_eq!(store.get_replication_forum_pair_by_id(f.id).unwrap(), f);
    assert_eq!(store.get_replication_forum_pair_by_id(f.id + 10).unwrap_err().err_type, ErrorType::NotFound);
    store.create_replication_reply(proposal(1, 100, f.id), 2).unwrap();
    assert_eq!(store.get_parent_forum_from_message_id(1, 50).unwrap_err().err_type, ErrorType::NotFound);
    store.update_replication_reply_message_id(1, 100, Some(50)).unwrap();
    assert_eq!(store.get_parent_forum_from_message_id(1, 50).unwrap(), 10);
    assert_eq!(store.get_parent_forum_from_message_id(2, 50).unwrap_err().err_type, ErrorType::NotFound);
}

#[test]
fn thread_pairs_are_created_both_ways() {
    let mut store = PairingStore::new();
    let reply = store.create_replication_reply(proposal(1, 100, 3), 8).unwrap();
    let dto = ReplicationThreadPairData { from_guild: 1, from_thread: 100, to_guild: 2, to_thread: 200, replication_reply_id: reply.id };
    assert_eq!(store.create_replication_thread_pair(dto, 9).unwrap_err().err_type, ErrorType::NotFound);
    store.update_replication_reply_status(1, 100, true, ReplyStatus::Active).unwrap();
    let (a, b) = store.create_replication_thread_pair(dto, 9).unwrap();
    assert_eq!((a.id, b.id), (2, 3));
    let rows = store.thread_pair_rows();
    assert_eq!(rows.len(), 2);
    for row in rows.iter() {
        assert!(rows.iter().any(|o| o.from_guild == row.to_guild
            && o.from_thread == row.to_thread
            && o.to_guild == row.from_guild
            && o.to_thread == row.from_thread
            && o.replication_reply_id == row.replication_reply_id));
    }
    assert_eq!(store.get_replication_thread_pairs(1, 100).unwrap(), vec![a]);
    assert_eq!(store.get_replication_thread_pairs(2, 200).unwrap(), vec![b]);
    assert!(store.get_replication_thread_pairs(1, 200).unwrap().is_empty());
}

#[test]
fn forum_pairs_are_listed_by_origin() {
    let mut store = PairingStore::new();
    let a = store
        .create_replication_forum_pair(ReplicationForumPairData { from_guild: 1, from_forum: 10, to_guild: 2, to_forum: 20 }, 1)
        .unwrap();
    store
        .create_replication_forum_pair(ReplicationForumPairData { from_guild: 1, from_forum: 11, to_guild: 2, to_forum: 21 }, 1)
        .unwrap();
    let c = store
        .create_replication_forum_pair(ReplicationForumPairData { from_guild: 1, from_forum: 10, to_guild: 3, to_forum: 30 }, 1)
        .unwrap();
    assert_eq!(store.get_replication_forum_pair(1, 10).unwrap(), vec![a, c]);
    assert!(store.get_replication_forum_pair(2, 10).unwrap().is_empty());
}

#[test]
fn app_error_keeps_message_and_kind() {
    let e = AppError::new("boom", ErrorType::Internal);
    assert_eq!(e.message, "boom");
    assert_eq!(e.err_type, ErrorType::Internal);
}

#[test]
fn store_failures_map_to_error_kinds() {
    assert_eq!(AppError::error_type_for(StoreFailure::UniqueViolation), ErrorType::BadRequest);
    assert_eq!(AppError::error_type_for(StoreFailure::NotFound), ErrorType::NotFound);
    assert_eq!(AppError::error_type_for(StoreFailure::Other), ErrorType::Internal);
    let e = AppError::from_store_failure(StoreFailure::NotFound, "gone", "while reading");
    assert_eq!(e.message, "while reading: gone");
    assert_eq!(e.err_type, ErrorType::NotFound);
}

#[test]
fn diesel_errors_are_classified() {
    let e = AppError::from_diesel_err(diesel::result::Error::NotFound, "while retrieving ReplicationReply");
    assert_eq!(e.err_type, ErrorType::NotFound);
    assert_eq!(e.message, "while retrieving ReplicationReply: NotFound");
    let unique = diesel::result::Error::DatabaseError(
        diesel::result::DatabaseErrorKind::UniqueViolation,
        Box::new("duplicate key".to_string()),
    );
    let e = AppError::from_diesel_err(unique, "while creating ReplicationPair");
    assert_eq!(e.err_type, ErrorType::BadRequest);
    assert_eq!(e.message, "while creating ReplicationPair: duplicate key");
    let other = diesel::result::Error::DatabaseError(
        diesel::result::DatabaseErrorKind::ForeignKeyViolation,
        Box::new("no parent".to_string()),
    );
    assert_eq!(AppError::from_diesel_err(other, "ctx").err_type, ErrorType::Internal);
    let e = AppError::from_diesel_err(diesel::result::Error::__Nonexhaustive, "ctx");
    assert_eq!(e.err_type, ErrorType::Internal);
    assert_eq!(e.message, "ctx: __Nonexhaustive");
    let e = AppError::from_diesel_err(diesel::result::Error::RollbackTransaction, "ctx");
    assert_eq!(e.err_type, ErrorType::Internal);
    assert!(e.message.starts_with("ctx: "));
}

fn populated_store() -> PairingStore {
    let mut store = PairingStore::new();
    let pair = store.create_replication_pair(channel_link(), 5).unwrap();
    let forum = store
        .create_replication_forum_pair(ReplicationForumPairData { from_guild: 1, from_forum: 10, to_guild: 2, to_forum: 20 }, 5)
        .unwrap();
    store.create_replication_reply(proposal(1, 11, pair.id), 6).unwrap();
    let reply = store.create_replication_reply(proposal(1, 100, forum.id), 6).unwrap();
    store.update_replication_reply_status(1, 100, true, ReplyStatus::Active).unwrap();
    let dto = ReplicationThreadPairData { from_guild: 1, from_thread: 100, to_guild: 2, to_thread: 200, replication_reply_id: reply.id };
    store.create_replication_thread_pair(dto, 7).unwrap();
    store
}

#[test]
fn stored_rows_restore_the_same_store() {
    let store = populated_store();
    let mut restored = PairingStore::restore(
        store.channel_pair_rows().clone(),
        store.forum_pair_rows().clone(),
        store.thread_pair_rows().clone(),
        store.reply_rows().clone(),
    )
    .unwrap();
    assert_eq!(restored.channel_pair_rows(), store.channel_pair_rows());
    assert_eq!(restored.forum_pair_rows(), store.forum_pair_rows());
    assert_eq!(restored.thread_pair_rows(), store.thread_pair_rows());
    assert_eq!(restored.reply_rows(), store.reply_rows());
    let next = restored
        .create_replication_pair(ReplicationPairData { from_guild: 3, from_channel: 33, to_guild: 4, to_channel: 44 }, 9)
        .unwrap();
    let largest = store.thread_pair_rows().iter().map(|p| p.id).max().unwrap();
    assert_eq!(next.id, largest + 1);
    let empty = PairingStore::restore(vec![], vec![], vec![], vec![]).unwrap();
    assert!(empty.reply_rows().is_empty());
}

#[test]
fn inconsistent_rows_are_refused() {
    let store = populated_store();
    let cp = store.channel_pair_rows().clone();
    let fp = store.forum_pair_rows().clone();
    let tp = store.thread_pair_rows().clone();
    let rp = store.reply_rows().clone();
    let refused = |r: Result<PairingStore, AppError>| r.err().map(|e| e.err_type) == Some(ErrorType::Validation);

    let mut zero_key = cp.clone();
    zero_key[0].id = 0;
    assert!(refused(PairingStore::restore(zero_key, fp.clone(), tp.clone(), rp.clone())));

    let mut shared_key = fp.clone();
    shared_key[0].id = cp[0].id;
    assert!(refused(PairingStore::restore(cp.clone(), shared_key, tp.clone(), rp.clone())));

    let mut twice = rp.clone();
    twice.push(rp[0]);
    assert!(refused(PairingStore::restore(cp.clone(), fp.clone(), tp.clone(), twice)));

    let mut same_container = rp.clone();
    let mut other = rp[0];
    other.id = 99;
    same_container.push(other);
    assert!(refused(PairingStore::restore(cp.clone(), fp.clone(), tp.clone(), same_container)));

    let mut unaccepted = rp.clone();
    let linked = unaccepted.iter().position(|r| r.id == tp[0].replication_reply_id).unwrap();
    unaccepted[linked].status = ReplyStatus::Inactive;
    assert!(PairingStore::restore(cp.clone(), fp.clone(), tp.clone(), unaccepted).is_ok());
    assert!(PairingStore::restore(cp.clone(), fp.clone(), tp.clone(), vec![]).is_ok());
    let mut unanswered_active = rp.clone();
    unanswered_active[0].status = ReplyStatus::Active;
    unanswered_active[0].responded = false;
    assert!(PairingStore::restore(cp.clone(), fp.clone(), tp.clone(), unanswered_active).is_ok());

    let one_way = vec![tp[0]];
    assert!(refused(PairingStore::restore(cp.clone(), fp.clone(), one_way, rp.clone())));

    let mut top_key = cp.clone();
    top_key[0].id = i64::MAX;
    assert!(refused(PairingStore::restore(top_key, fp, tp, rp)));
}
