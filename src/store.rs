use vstd::prelude::*;
use crate::errors::{AppError, ErrorType};
use crate::model::{
    active_channel_pairs_from, active_origin, channel_origin, channel_pairs_from, forum_origin,
    forum_pairs_from, has_reverse, is_confirmed, is_reverse, lemma_filter_keys_distinct,
    lemma_filter_members, lemma_filter_prefix_step,
    links_symmetric, pair_is_active, reply_confirmed, reply_is_for, thread_origin,
    thread_pairs_from, ReplicationForumPair,
    ReplicationForumPairData, ReplicationPair, ReplicationPairData, ReplicationReply,
    ReplicationReplyData, ReplicationThreadPair, ReplicationThreadPairData, ReplyStatus,
    StoreModel,
};

verus! {

/// The index of the reply about (`guild`, `channel`); meaningful when there is one.
pub open spec fn reply_index(replies: Seq<ReplicationReply>, guild: i64, channel: i64) -> int {
    choose|i: int| 0 <= i < replies.len() && reply_is_for(replies[i], guild, channel)
}

/// The index of the forum pair whose key is `id`; meaningful when there is one.
pub open spec fn forum_pair_index(rows: Seq<ReplicationForumPair>, id: i64) -> int {
    choose|i: int| 0 <= i < rows.len() && rows[i].id == id
}

/// Some forum pair has the key `id`.
pub open spec fn has_forum_pair(rows: Seq<ReplicationForumPair>, id: i64) -> bool {
    exists|i: int| 0 <= i < rows.len() && (#[trigger] rows[i]).id == id
}

/// A reply row of `guild` whose prompt is the message `message_id`.
pub open spec fn prompt_matches(r: ReplicationReply, guild: i64, message_id: i64) -> bool {
    r.guild_id == guild && r.message_id == Some(message_id)
}

/// `i` is the first reply row of `guild` whose prompt is `message_id`.
pub open spec fn is_first_prompt(replies: Seq<ReplicationReply>, guild: i64, message_id: i64, i: int) -> bool {
    &&& 0 <= i < replies.len()
    &&& prompt_matches(replies[i], guild, message_id)
    &&& forall|j: int| 0 <= j < i ==> !prompt_matches(#[trigger] replies[j], guild, message_id)
}

/// The forum a confirmation prompt proposes to pair from: the origin forum
/// of the pair named by the first reply whose prompt is `message_id`.
pub open spec fn parent_forum_of_prompt(m: StoreModel, guild: i64, message_id: i64) -> Option<i64> {
    if exists|i: int| is_first_prompt(m.replies, guild, message_id, i) {
        let i = choose|i: int| is_first_prompt(m.replies, guild, message_id, i);
        let pair_id = m.replies[i].replication_pairs;
        if has_forum_pair(m.forum_pairs, pair_id) {
            Some(m.forum_pairs[forum_pair_index(m.forum_pairs, pair_id)].from_forum)
        } else {
            None
        }
    } else {
        None
    }
}

/// The row recorded for a new reply with key `id`.
pub open spec fn reply_row(dto: ReplicationReplyData, id: int, now: i64) -> ReplicationReply {
    ReplicationReply {
        id: id as i64,
        responded: dto.responded,
        status: dto.status,
        guild_id: dto.guild_id,
        created_at: now,
        channel_id: dto.channel_id,
        replication_pairs: dto.replication_pairs,
        message_id: dto.message_id,
        message_owner: dto.message_owner,
    }
}

/// Why recording a new reply fails, if it does: a container has at most one
/// reply, and the keys must not run out.
pub open spec fn create_reply_error(m: StoreModel, dto: ReplicationReplyData) -> Option<ErrorType> {
    if m.has_reply(dto.guild_id, dto.channel_id) {
        Some(ErrorType::BadRequest)
    } else if m.next_id == i64::MAX {
        Some(ErrorType::Internal)
    } else {
        None
    }
}

/// `m` with its reply rows replaced by `replies` and its next key by `next_id`.
pub open spec fn with_replies(m: StoreModel, replies: Seq<ReplicationReply>, next_id: int) -> StoreModel {
    StoreModel {
        channel_pairs: m.channel_pairs,
        forum_pairs: m.forum_pairs,
        thread_pairs: m.thread_pairs,
        replies,
        next_id,
    }
}

/// A reply row with its answer and status set.
pub open spec fn answered(r: ReplicationReply, responded: bool, status: ReplyStatus) -> ReplicationReply {
    ReplicationReply {
        id: r.id,
        responded,
        status,
        guild_id: r.guild_id,
        created_at: r.created_at,
        channel_id: r.channel_id,
        replication_pairs: r.replication_pairs,
        message_id: r.message_id,
        message_owner: r.message_owner,
    }
}

/// A reply row with its prompt message set.
pub open spec fn with_prompt(r: ReplicationReply, message_id: Option<i64>) -> ReplicationReply {
    ReplicationReply {
        id: r.id,
        responded: r.responded,
        status: r.status,
        guild_id: r.guild_id,
        created_at: r.created_at,
        channel_id: r.channel_id,
        replication_pairs: r.replication_pairs,
        message_id,
        message_owner: r.message_owner,
    }
}

/// Why answering the reply about (`guild`, `channel`) fails, if it does. The
/// update only applies to a reply that nobody has answered yet: once one
/// answer got through, every later one finds no row to update.
pub open spec fn update_status_error(
    m: StoreModel,
    guild: i64,
    channel: i64,
    responded: bool,
    status: ReplyStatus,
) -> Option<ErrorType> {
    if !m.has_reply(guild, channel) {
        Some(ErrorType::NotFound)
    } else if m.replies[reply_index(m.replies, guild, channel)].responded {
        Some(ErrorType::NotFound)
    } else {
        None
    }
}

/// The message of the error for a missing or already answered reply.
pub open spec fn not_found_message() -> Seq<char> {
    "ReplicationReply not found"@
}

/// Some reply row has the key `id`.
pub open spec fn has_reply_key(replies: Seq<ReplicationReply>, id: i64) -> bool {
    exists|i: int| 0 <= i < replies.len() && (#[trigger] replies[i]).id == id
}

/// The index of the reply row whose key is `id`; meaningful when there is one.
pub open spec fn reply_key_index(replies: Seq<ReplicationReply>, id: i64) -> int {
    choose|i: int| 0 <= i < replies.len() && replies[i].id == id
}

/// Replacing a reply row by one about the same container under the same key
/// keeps the store well formed.
pub proof fn lemma_wf_replace_reply(m: StoreModel, i: int, row: ReplicationReply)
    requires
        m.wf(),
        0 <= i < m.replies.len(),
        row.id == m.replies[i].id,
        row.guild_id == m.replies[i].guild_id,
        row.channel_id == m.replies[i].channel_id,
    ensures
        with_replies(m, m.replies.update(i, row), m.next_id).wf(),
{
    let n = with_replies(m, m.replies.update(i, row), m.next_id);
    assert forall|a: int, b: int| 0 <= a < b < n.replies.len() implies n.replies[a].id != n.replies[b].id by {
        assert(m.replies[a].id != m.replies[b].id);
    }
    assert forall|a: int, b: int| 0 <= a < b < n.replies.len() implies !reply_is_for(
        n.replies[b],
        n.replies[a].guild_id,
        n.replies[a].channel_id,
    ) by {
        assert(!reply_is_for(m.replies[b], m.replies[a].guild_id, m.replies[a].channel_id));
    }
    assert forall|a: int| 0 <= a < n.replies.len() implies 1 <= #[trigger] n.replies[a].id < n.next_id by {
        assert(1 <= m.replies[a].id < m.next_id);
    }
    assert(n.thread_pairs == m.thread_pairs);
    assert(n.thread_pairs_symmetric());
}

/// Adding a reply row under the next key, about a container that has none,
/// keeps the store well formed.
pub proof fn lemma_wf_push_reply(m: StoreModel, row: ReplicationReply)
    requires
        m.wf(),
        m.next_id < i64::MAX,
        row.id == m.next_id,
        !m.has_reply(row.guild_id, row.channel_id),
    ensures
        with_replies(m, m.replies.push(row), m.next_id + 1).wf(),
{
    let n = with_replies(m, m.replies.push(row), m.next_id + 1);
    let last = m.replies.len() as int;
    assert forall|a: int, b: int| 0 <= a < b < n.replies.len() implies n.replies[a].id != n.replies[b].id by {
        assert(1 <= m.replies[a].id < m.next_id);
        if b < last {
            assert(m.replies[a].id != m.replies[b].id);
        }
    }
    assert forall|a: int, b: int| 0 <= a < b < n.replies.len() implies !reply_is_for(
        n.replies[b],
        n.replies[a].guild_id,
        n.replies[a].channel_id,
    ) by {
        if b < last {
            assert(!reply_is_for(m.replies[b], m.replies[a].guild_id, m.replies[a].channel_id));
        } else {
            if reply_is_for(row, m.replies[a].guild_id, m.replies[a].channel_id) {
                assert(reply_is_for(m.replies[a], row.guild_id, row.channel_id));
            }
        }
    }
    assert forall|a: int| 0 <= a < n.replies.len() implies 1 <= #[trigger] n.replies[a].id < n.next_id by {
        if a < last {
            assert(1 <= m.replies[a].id < m.next_id);
        }
    }
    assert forall|a: int| 0 <= a < n.channel_pairs.len() implies 1 <= #[trigger] n.channel_pairs[a].id < n.next_id by {
        assert(1 <= m.channel_pairs[a].id < m.next_id);
    }
    assert forall|a: int| 0 <= a < n.forum_pairs.len() implies 1 <= #[trigger] n.forum_pairs[a].id < n.next_id by {
        assert(1 <= m.forum_pairs[a].id < m.next_id);
    }
    assert forall|a: int| 0 <= a < n.thread_pairs.len() implies 1 <= #[trigger] n.thread_pairs[a].id < n.next_id by {
        assert(1 <= m.thread_pairs[a].id < m.next_id);
    }
    assert(n.thread_pairs == m.thread_pairs);
    assert(n.thread_pairs_symmetric());
}

/// Removing a reply row keeps the store well formed.
pub proof fn lemma_wf_remove_reply(m: StoreModel, i: int)
    requires
        m.wf(),
        0 <= i < m.replies.len(),
    ensures
        with_replies(m, m.replies.remove(i), m.next_id).wf(),
{
    let n = with_replies(m, m.replies.remove(i), m.next_id);
    assert forall|a: int| 0 <= a < n.replies.len() implies #[trigger] n.replies[a] == m.replies[if a < i { a } else { a + 1 }] by {}
    assert forall|a: int, b: int| 0 <= a < b < n.replies.len() implies n.replies[a].id != n.replies[b].id by {
        let a2 = if a < i { a } else { a + 1 };
        let b2 = if b < i { b } else { b + 1 };
        assert(n.replies[a] == m.replies[a2]);
        assert(n.replies[b] == m.replies[b2]);
        assert(m.replies[a2].id != m.replies[b2].id);
    }
    assert forall|a: int, b: int| 0 <= a < b < n.replies.len() implies !reply_is_for(
        n.replies[b],
        n.replies[a].guild_id,
        n.replies[a].channel_id,
    ) by {
        let a2 = if a < i { a } else { a + 1 };
        let b2 = if b < i { b } else { b + 1 };
        assert(n.replies[a] == m.replies[a2]);
        assert(n.replies[b] == m.replies[b2]);
        assert(!reply_is_for(m.replies[b2], m.replies[a2].guild_id, m.replies[a2].channel_id));
    }
    assert forall|a: int| 0 <= a < n.replies.len() implies 1 <= #[trigger] n.replies[a].id < n.next_id by {
        let a2 = if a < i { a } else { a + 1 };
        assert(n.replies[a] == m.replies[a2]);
        assert(1 <= m.replies[a2].id < m.next_id);
    }
    assert(n.thread_pairs == m.thread_pairs);
    assert(n.thread_pairs_symmetric());
}

/// The row recorded for a new channel pair with key `id`.
pub open spec fn channel_pair_row(dto: ReplicationPairData, id: int, now: i64) -> ReplicationPair {
    ReplicationPair {
        id: id as i64,
        from_guild: dto.from_guild,
        from_channel: dto.from_channel,
        to_guild: dto.to_guild,
        to_channel: dto.to_channel,
        created_at: now,
    }
}

/// The row recorded for a new forum pair with key `id`.
pub open spec fn forum_pair_row(dto: ReplicationForumPairData, id: int, now: i64) -> ReplicationForumPair {
    ReplicationForumPair {
        id: id as i64,
        from_guild: dto.from_guild,
        from_forum: dto.from_forum,
        to_guild: dto.to_guild,
        to_forum: dto.to_forum,
        created_at: now,
    }
}

/// The row recorded for a new thread pair with key `id`.
pub open spec fn thread_pair_row(dto: ReplicationThreadPairData, id: int, now: i64) -> ReplicationThreadPair {
    ReplicationThreadPair {
        id: id as i64,
        from_guild: dto.from_guild,
        from_thread: dto.from_thread,
        to_guild: dto.to_guild,
        to_thread: dto.to_thread,
        created_at: now,
        replication_reply_id: dto.replication_reply_id,
    }
}

/// The link that leads back along `dto`, for the same reply.
pub open spec fn reversed(dto: ReplicationThreadPairData) -> ReplicationThreadPairData {
    ReplicationThreadPairData {
        from_guild: dto.to_guild,
        from_thread: dto.to_thread,
        to_guild: dto.from_guild,
        to_thread: dto.from_thread,
        replication_reply_id: dto.replication_reply_id,
    }
}

/// Some channel pair already declares the link that `dto` describes.
pub open spec fn has_channel_link(rows: Seq<ReplicationPair>, dto: ReplicationPairData) -> bool {
    exists|i: int|
        0 <= i < rows.len() && (#[trigger] rows[i]).from_guild == dto.from_guild && rows[i].from_channel
            == dto.from_channel && rows[i].to_guild == dto.to_guild && rows[i].to_channel == dto.to_channel
}

/// Some forum pair already declares the link that `dto` describes.
pub open spec fn has_forum_link(rows: Seq<ReplicationForumPair>, dto: ReplicationForumPairData) -> bool {
    exists|i: int|
        0 <= i < rows.len() && (#[trigger] rows[i]).from_guild == dto.from_guild && rows[i].from_forum
            == dto.from_forum && rows[i].to_guild == dto.to_guild && rows[i].to_forum == dto.to_forum
}

/// `m` with its channel pairs replaced by `rows` and its next key by `next_id`.
pub open spec fn with_channel_pairs(m: StoreModel, rows: Seq<ReplicationPair>, next_id: int) -> StoreModel {
    StoreModel {
        channel_pairs: rows,
        forum_pairs: m.forum_pairs,
        thread_pairs: m.thread_pairs,
        replies: m.replies,
        next_id,
    }
}

/// `m` with its forum pairs replaced by `rows` and its next key by `next_id`.
pub open spec fn with_forum_pairs(m: StoreModel, rows: Seq<ReplicationForumPair>, next_id: int) -> StoreModel {
    StoreModel {
        channel_pairs: m.channel_pairs,
        forum_pairs: rows,
        thread_pairs: m.thread_pairs,
        replies: m.replies,
        next_id,
    }
}

/// `m` with its thread pairs replaced by `rows` and its next key by `next_id`.
pub open spec fn with_thread_pairs(m: StoreModel, rows: Seq<ReplicationThreadPair>, next_id: int) -> StoreModel {
    StoreModel {
        channel_pairs: m.channel_pairs,
        forum_pairs: m.forum_pairs,
        thread_pairs: rows,
        replies: m.replies,
        next_id,
    }
}

/// Adding a channel pair under the next key keeps the store well formed.
pub proof fn lemma_wf_push_channel_pair(m: StoreModel, row: ReplicationPair)
    requires
        m.wf(),
        m.next_id < i64::MAX,
        row.id == m.next_id,
    ensures
        with_channel_pairs(m, m.channel_pairs.push(row), m.next_id + 1).wf(),
{
    let n = with_channel_pairs(m, m.channel_pairs.push(row), m.next_id + 1);
    let last = m.channel_pairs.len() as int;
    assert forall|a: int| 0 <= a < n.channel_pairs.len() implies 1 <= #[trigger] n.channel_pairs[a].id < n.next_id by {
        if a < last {
            assert(1 <= m.channel_pairs[a].id < m.next_id);
        }
    }
    assert forall|a: int, b: int| 0 <= a < b < n.channel_pairs.len() implies n.channel_pairs[a].id != n.channel_pairs[b].id by {
        assert(1 <= m.channel_pairs[a].id < m.next_id);
        if b < last {
            assert(m.channel_pairs[a].id != m.channel_pairs[b].id);
        }
    }
    assert forall|a: int, b: int| 0 <= a < n.channel_pairs.len() && 0 <= b < n.forum_pairs.len() implies n.channel_pairs[a].id != n.forum_pairs[b].id by {
        assert(1 <= m.forum_pairs[b].id < m.next_id);
        if a < last {
            assert(m.channel_pairs[a].id != m.forum_pairs[b].id);
        }
    }
    assert forall|a: int| 0 <= a < n.forum_pairs.len() implies 1 <= #[trigger] n.forum_pairs[a].id < n.next_id by {
        assert(1 <= m.forum_pairs[a].id < m.next_id);
    }
    assert forall|a: int| 0 <= a < n.thread_pairs.len() implies 1 <= #[trigger] n.thread_pairs[a].id < n.next_id by {
        assert(1 <= m.thread_pairs[a].id < m.next_id);
    }
    assert forall|a: int| 0 <= a < n.replies.len() implies 1 <= #[trigger] n.replies[a].id < n.next_id by {
        assert(1 <= m.replies[a].id < m.next_id);
    }
    assert(n.thread_pairs == m.thread_pairs && n.replies == m.replies);
    assert(n.thread_pairs_symmetric());
}

/// Adding a forum pair under the next key keeps the store well formed.
pub proof fn lemma_wf_push_forum_pair(m: StoreModel, row: ReplicationForumPair)
    requires
        m.wf(),
        m.next_id < i64::MAX,
        row.id == m.next_id,
    ensures
        with_forum_pairs(m, m.forum_pairs.push(row), m.next_id + 1).wf(),
{
    let n = with_forum_pairs(m, m.forum_pairs.push(row), m.next_id + 1);
    let last = m.forum_pairs.len() as int;
    assert forall|a: int| 0 <= a < n.forum_pairs.len() implies 1 <= #[trigger] n.forum_pairs[a].id < n.next_id by {
        if a < last {
            assert(1 <= m.forum_pairs[a].id < m.next_id);
        }
    }
    assert forall|a: int, b: int| 0 <= a < b < n.forum_pairs.len() implies n.forum_pairs[a].id != n.forum_pairs[b].id by {
        assert(1 <= m.forum_pairs[a].id < m.next_id);
        if b < last {
            assert(m.forum_pairs[a].id != m.forum_pairs[b].id);
        }
    }
    assert forall|a: int, b: int| 0 <= a < n.channel_pairs.len() && 0 <= b < n.forum_pairs.len() implies n.channel_pairs[a].id != n.forum_pairs[b].id by {
        assert(1 <= m.channel_pairs[a].id < m.next_id);
        if b < last {
            assert(m.channel_pairs[a].id != m.forum_pairs[b].id);
        }
    }
    assert forall|a: int| 0 <= a < n.channel_pairs.len() implies 1 <= #[trigger] n.channel_pairs[a].id < n.next_id by {
        assert(1 <= m.channel_pairs[a].id < m.next_id);
    }
    assert forall|a: int| 0 <= a < n.thread_pairs.len() implies 1 <= #[trigger] n.thread_pairs[a].id < n.next_id by {
        assert(1 <= m.thread_pairs[a].id < m.next_id);
    }
    assert forall|a: int| 0 <= a < n.replies.len() implies 1 <= #[trigger] n.replies[a].id < n.next_id by {
        assert(1 <= m.replies[a].id < m.next_id);
    }
    assert(n.thread_pairs == m.thread_pairs && n.replies == m.replies);
    assert(n.thread_pairs_symmetric());
}

/// Adding a thread pair and its reverse under the next two keys keeps the
/// store well formed.
pub proof fn lemma_wf_push_thread_pairs(m: StoreModel, first: ReplicationThreadPair, second: ReplicationThreadPair)
    requires
        m.wf(),
        m.next_id < i64::MAX - 1,
        first.id == m.next_id,
        second.id == m.next_id + 1,
        is_reverse(first, second),
    ensures
        with_thread_pairs(m, m.thread_pairs.push(first).push(second), m.next_id + 2).wf(),
{
    let rows = m.thread_pairs.push(first).push(second);
    let n = with_thread_pairs(m, rows, m.next_id + 2);
    let last = m.thread_pairs.len() as int;
    assert(is_reverse(second, first));
    assert forall|a: int| 0 <= a < n.thread_pairs.len() implies 1 <= #[trigger] n.thread_pairs[a].id < n.next_id by {
        if a < last {
            assert(1 <= m.thread_pairs[a].id < m.next_id);
        }
    }
    assert forall|a: int, b: int| 0 <= a < b < n.thread_pairs.len() implies n.thread_pairs[a].id != n.thread_pairs[b].id by {
        if a < last {
            assert(1 <= m.thread_pairs[a].id < m.next_id);
        }
        if b < last {
            assert(m.thread_pairs[a].id != m.thread_pairs[b].id);
        }
    }
    assert forall|i: int| 0 <= i < rows.len() implies has_reverse(rows, #[trigger] rows[i]) by {
        if i < last {
            assert(has_reverse(m.thread_pairs, m.thread_pairs[i]));
            let j = choose|j: int| 0 <= j < m.thread_pairs.len() && is_reverse(m.thread_pairs[i], #[trigger] m.thread_pairs[j]);
            assert(rows[j] == m.thread_pairs[j]);
            assert(is_reverse(rows[i], rows[j]));
        } else if i == last {
            assert(is_reverse(rows[i], rows[last + 1]));
        } else {
            assert(is_reverse(rows[i], rows[last]));
        }
    }
    assert forall|a: int| 0 <= a < n.channel_pairs.len() implies 1 <= #[trigger] n.channel_pairs[a].id < n.next_id by {
        assert(1 <= m.channel_pairs[a].id < m.next_id);
    }
    assert forall|a: int| 0 <= a < n.forum_pairs.len() implies 1 <= #[trigger] n.forum_pairs[a].id < n.next_id by {
        assert(1 <= m.forum_pairs[a].id < m.next_id);
    }
    assert forall|a: int| 0 <= a < n.replies.len() implies 1 <= #[trigger] n.replies[a].id < n.next_id by {
        assert(1 <= m.replies[a].id < m.next_id);
    }
}

/// The rows form a well formed store under some next key.
pub open spec fn rows_wf(
    channel_pairs: Seq<ReplicationPair>,
    forum_pairs: Seq<ReplicationForumPair>,
    thread_pairs: Seq<ReplicationThreadPair>,
    replies: Seq<ReplicationReply>,
) -> bool {
    exists|n: int|
        (StoreModel { channel_pairs, forum_pairs, thread_pairs, replies, next_id: n }).wf()
}

/// No key occurs twice in `ids`.
pub open spec fn keys_distinct(ids: Seq<i64>) -> bool {
    forall|i: int, j: int| 0 <= i < j < ids.len() ==> ids[i] != ids[j]
}

/// Every key is positive and below `i64::MAX`.
pub open spec fn keys_in_range(ids: Seq<i64>) -> bool {
    forall|i: int| 0 <= i < ids.len() ==> 1 <= #[trigger] ids[i] < i64::MAX
}

/// Whether no key occurs twice in `ids`.
fn all_distinct(ids: &Vec<i64>) -> (r: bool)
    ensures
        r == keys_distinct(ids@),
{
    let mut i: usize = 0;
    while i < ids.len()
        invariant
            i <= ids@.len(),
            forall|a: int, b: int| 0 <= a < i && a < b < ids@.len() ==> ids@[a] != ids@[b],
        decreases ids@.len() - i,
    {
        let mut j: usize = i + 1;
        while j < ids.len()
            invariant
                i < ids@.len(),
                i + 1 <= j <= ids@.len(),
                forall|a: int, b: int| 0 <= a < i && a < b < ids@.len() ==> ids@[a] != ids@[b],
                forall|b: int| i < b < j ==> ids@[i as int] != ids@[b],
            decreases ids@.len() - j,
        {
            if ids[i] == ids[j] {
                return false;
            }
            j += 1;
        }
        i += 1;
    }
    true
}

/// Whether no key occurs in both `a` and `b`.
fn disjoint_keys(a: &Vec<i64>, b: &Vec<i64>) -> (r: bool)
    ensures
        r == forall|i: int, j: int| 0 <= i < a@.len() && 0 <= j < b@.len() ==> a@[i] != b@[j],
{
    let mut i: usize = 0;
    while i < a.len()
        invariant
            i <= a@.len(),
            forall|x: int, y: int| 0 <= x < i && 0 <= y < b@.len() ==> a@[x] != b@[y],
        decreases a@.len() - i,
    {
        let mut j: usize = 0;
        while j < b.len()
            invariant
                i < a@.len(),
                j <= b@.len(),
                forall|x: int, y: int| 0 <= x < i && 0 <= y < b@.len() ==> a@[x] != b@[y],
                forall|y: int| 0 <= y < j ==> a@[i as int] != b@[y],
            decreases b@.len() - j,
        {
            if a[i] == b[j] {
                return false;
            }
            j += 1;
        }
        i += 1;
    }
    true
}

/// Whether every key is positive and below `i64::MAX`; when so, also the
/// largest key (zero for none).
fn check_key_range(ids: &Vec<i64>) -> (r: Option<i64>)
    ensures
        r is Some <==> keys_in_range(ids@),
        r is Some ==> 0 <= r->Some_0 < i64::MAX && forall|i: int| 0 <= i < ids@.len() ==> ids@[i] <= r->Some_0,
{
    let mut max: i64 = 0;
    let mut i: usize = 0;
    while i < ids.len()
        invariant
            i <= ids@.len(),
            0 <= max < i64::MAX,
            forall|k: int| 0 <= k < i ==> 1 <= #[trigger] ids@[k] < i64::MAX && ids@[k] <= max,
        decreases ids@.len() - i,
    {
        let id = ids[i];
        if id < 1 || id == i64::MAX {
            return None;
        }
        if id > max {
            max = id;
        }
        i += 1;
    }
    Some(max)
}

/// No two reply rows are about the same container.
pub open spec fn containers_distinct(replies: Seq<ReplicationReply>) -> bool {
    forall|i: int, j: int|
        0 <= i < j < replies.len() ==> !reply_is_for(replies[j], replies[i].guild_id, replies[i].channel_id)
}


/// The keys of the channel pairs.
fn channel_pair_keys(rows: &Vec<ReplicationPair>) -> (r: Vec<i64>)
    ensures
        r@.len() == rows@.len(),
        forall|k: int| 0 <= k < rows@.len() ==> r@[k] == (#[trigger] rows@[k]).id,
{
    let mut out: Vec<i64> = Vec::new();
    let mut i: usize = 0;
    while i < rows.len()
        invariant
            i <= rows@.len(),
            out@.len() == i,
            forall|k: int| 0 <= k < i ==> out@[k] == (#[trigger] rows@[k]).id,
        decreases rows@.len() - i,
    {
        out.push(rows[i].id);
        i += 1;
    }
    out
}

/// The keys of the forum pairs.
fn forum_pair_keys(rows: &Vec<ReplicationForumPair>) -> (r: Vec<i64>)
    ensures
        r@.len() == rows@.len(),
        forall|k: int| 0 <= k < rows@.len() ==> r@[k] == (#[trigger] rows@[k]).id,
{
    let mut out: Vec<i64> = Vec::new();
    let mut i: usize = 0;
    while i < rows.len()
        invariant
            i <= rows@.len(),
            out@.len() == i,
            forall|k: int| 0 <= k < i ==> out@[k] == (#[trigger] rows@[k]).id,
        decreases rows@.len() - i,
    {
        out.push(rows[i].id);
        i += 1;
    }
    out
}

/// The keys of the thread pairs.
fn thread_pair_keys(rows: &Vec<ReplicationThreadPair>) -> (r: Vec<i64>)
    ensures
        r@.len() == rows@.len(),
        forall|k: int| 0 <= k < rows@.len() ==> r@[k] == (#[trigger] rows@[k]).id,
{
    let mut out: Vec<i64> = Vec::new();
    let mut i: usize = 0;
    while i < rows.len()
        invariant
            i <= rows@.len(),
            out@.len() == i,
            forall|k: int| 0 <= k < i ==> out@[k] == (#[trigger] rows@[k]).id,
        decreases rows@.len() - i,
    {
        out.push(rows[i].id);
        i += 1;
    }
    out
}

/// The keys of the reply rows.
fn reply_keys(rows: &Vec<ReplicationReply>) -> (r: Vec<i64>)
    ensures
        r@.len() == rows@.len(),
        forall|k: int| 0 <= k < rows@.len() ==> r@[k] == (#[trigger] rows@[k]).id,
{
    let mut out: Vec<i64> = Vec::new();
    let mut i: usize = 0;
    while i < rows.len()
        invariant
            i <= rows@.len(),
            out@.len() == i,
            forall|k: int| 0 <= k < i ==> out@[k] == (#[trigger] rows@[k]).id,
        decreases rows@.len() - i,
    {
        out.push(rows[i].id);
        i += 1;
    }
    out
}

/// Whether no two reply rows are about the same container.
fn check_containers_distinct(replies: &Vec<ReplicationReply>) -> (r: bool)
    ensures
        r == containers_distinct(replies@),
{
    let mut i: usize = 0;
    while i < replies.len()
        invariant
            i <= replies@.len(),
            forall|a: int, b: int|
                0 <= a < i && a < b < replies@.len() ==> !reply_is_for(replies@[b], replies@[a].guild_id, replies@[a].channel_id),
        decreases replies@.len() - i,
    {
        let mut j: usize = i + 1;
        while j < replies.len()
            invariant
                i < replies@.len(),
                i + 1 <= j <= replies@.len(),
                forall|a: int, b: int|
                    0 <= a < i && a < b < replies@.len() ==> !reply_is_for(replies@[b], replies@[a].guild_id, replies@[a].channel_id),
                forall|b: int| i < b < j ==> !reply_is_for(replies@[b], replies@[i as int].guild_id, replies@[i as int].channel_id),
            decreases replies@.len() - j,
        {
            if replies[j].guild_id == replies[i].guild_id && replies[j].channel_id == replies[i].channel_id {
                assert(reply_is_for(replies@[j as int], replies@[i as int].guild_id, replies@[i as int].channel_id));
                return false;
            }
            j += 1;
        }
        i += 1;
    }
    true
}

/// Whether every thread pair has its reverse among `rows`.
fn check_links_symmetric(rows: &Vec<ReplicationThreadPair>) -> (r: bool)
    ensures
        r == links_symmetric(rows@),
{
    let mut i: usize = 0;
    while i < rows.len()
        invariant
            i <= rows@.len(),
            forall|k: int| 0 <= k < i ==> has_reverse(rows@, #[trigger] rows@[k]),
        decreases rows@.len() - i,
    {
        let a = rows[i];
        let mut j: usize = 0;
        let mut found = false;
        while j < rows.len() && !found
            invariant
                i < rows@.len(),
                a == rows@[i as int],
                j <= rows@.len(),
                found ==> has_reverse(rows@, a),
                !found ==> forall|y: int| 0 <= y < j ==> !is_reverse(a, #[trigger] rows@[y]),
            decreases rows@.len() - j,
        {
            let b = rows[j];
            if b.from_guild == a.to_guild && b.from_thread == a.to_thread && b.to_guild == a.from_guild
                && b.to_thread == a.from_thread && b.replication_reply_id == a.replication_reply_id {
                assert(is_reverse(a, rows@[j as int]));
                found = true;
            }
            j += 1;
        }
        if !found {
            assert(!has_reverse(rows@, rows@[i as int]));
            return false;
        }
        i += 1;
    }
    true
}

/// What well formed rows satisfy, whatever the next key.
proof fn lemma_rows_wf_facts(
    cp: Seq<ReplicationPair>,
    fp: Seq<ReplicationForumPair>,
    tp: Seq<ReplicationThreadPair>,
    rp: Seq<ReplicationReply>,
)
    requires
        rows_wf(cp, fp, tp, rp),
    ensures
        forall|i: int| 0 <= i < cp.len() ==> 1 <= #[trigger] cp[i].id < i64::MAX,
        forall|i: int| 0 <= i < fp.len() ==> 1 <= #[trigger] fp[i].id < i64::MAX,
        forall|i: int| 0 <= i < tp.len() ==> 1 <= #[trigger] tp[i].id < i64::MAX,
        forall|i: int| 0 <= i < rp.len() ==> 1 <= #[trigger] rp[i].id < i64::MAX,
        forall|i: int, j: int| 0 <= i < j < cp.len() ==> cp[i].id != cp[j].id,
        forall|i: int, j: int| 0 <= i < j < fp.len() ==> fp[i].id != fp[j].id,
        forall|i: int, j: int| 0 <= i < j < tp.len() ==> tp[i].id != tp[j].id,
        forall|i: int, j: int| 0 <= i < j < rp.len() ==> rp[i].id != rp[j].id,
        forall|i: int, j: int| 0 <= i < cp.len() && 0 <= j < fp.len() ==> cp[i].id != fp[j].id,
        containers_distinct(rp),
        links_symmetric(tp),
{
    let n = choose|n: int|
        (StoreModel { channel_pairs: cp, forum_pairs: fp, thread_pairs: tp, replies: rp, next_id: n }).wf();
    let m = StoreModel { channel_pairs: cp, forum_pairs: fp, thread_pairs: tp, replies: rp, next_id: n };
    assert(m.wf());
    assert forall|i: int| 0 <= i < cp.len() implies 1 <= #[trigger] cp[i].id < i64::MAX by {
        assert(1 <= m.channel_pairs[i].id < m.next_id);
    }
    assert forall|i: int| 0 <= i < fp.len() implies 1 <= #[trigger] fp[i].id < i64::MAX by {
        assert(1 <= m.forum_pairs[i].id < m.next_id);
    }
    assert forall|i: int| 0 <= i < tp.len() implies 1 <= #[trigger] tp[i].id < i64::MAX by {
        assert(1 <= m.thread_pairs[i].id < m.next_id);
    }
    assert forall|i: int| 0 <= i < rp.len() implies 1 <= #[trigger] rp[i].id < i64::MAX by {
        assert(1 <= m.replies[i].id < m.next_id);
    }
    assert forall|i: int, j: int| 0 <= i < j < cp.len() implies cp[i].id != cp[j].id by {
        assert(m.channel_pairs[i].id != m.channel_pairs[j].id);
    }
    assert forall|i: int, j: int| 0 <= i < j < fp.len() implies fp[i].id != fp[j].id by {
        assert(m.forum_pairs[i].id != m.forum_pairs[j].id);
    }
    assert forall|i: int, j: int| 0 <= i < j < tp.len() implies tp[i].id != tp[j].id by {
        assert(m.thread_pairs[i].id != m.thread_pairs[j].id);
    }
    assert forall|i: int, j: int| 0 <= i < j < rp.len() implies rp[i].id != rp[j].id by {
        assert(m.replies[i].id != m.replies[j].id);
    }
    assert forall|i: int, j: int| 0 <= i < cp.len() && 0 <= j < fp.len() implies cp[i].id != fp[j].id by {
        assert(m.channel_pairs[i].id != m.forum_pairs[j].id);
    }
}

/// Holds of the channel pairs whose key is not `id`.
pub open spec fn channel_pair_kept(id: i64) -> spec_fn(ReplicationPair) -> bool {
    |p: ReplicationPair| p.id != id
}

/// Holds of the forum pairs whose key is not `id`.
pub open spec fn forum_pair_kept(id: i64) -> spec_fn(ReplicationForumPair) -> bool {
    |p: ReplicationForumPair| p.id != id
}

/// Holds of the replies that do not propose the pair `pair_id`.
pub open spec fn reply_kept(pair_id: i64) -> spec_fn(ReplicationReply) -> bool {
    |r: ReplicationReply| r.replication_pairs != pair_id
}

/// The reply with key `reply_id` proposes the pair `pair_id`.
pub open spec fn proposes(replies: Seq<ReplicationReply>, reply_id: i64, pair_id: i64) -> bool {
    exists|j: int| 0 <= j < replies.len() && (#[trigger] replies[j]).id == reply_id && replies[j].replication_pairs == pair_id
}

/// Holds of the thread pairs that do not come from a reply proposing `pair_id`.
pub open spec fn thread_pair_kept(replies: Seq<ReplicationReply>, pair_id: i64) -> spec_fn(ReplicationThreadPair) -> bool {
    |t: ReplicationThreadPair| !proposes(replies, t.replication_reply_id, pair_id)
}

/// `m` once the channel or forum pair `pair_id` is taken down, with the
/// replies proposing it and the thread pairs those replies led to.
pub open spec fn torn_down(m: StoreModel, pair_id: i64) -> StoreModel {
    StoreModel {
        channel_pairs: m.channel_pairs.filter(channel_pair_kept(pair_id)),
        forum_pairs: m.forum_pairs.filter(forum_pair_kept(pair_id)),
        thread_pairs: m.thread_pairs.filter(thread_pair_kept(m.replies, pair_id)),
        replies: m.replies.filter(reply_kept(pair_id)),
        next_id: m.next_id,
    }
}

/// Taking a pair down keeps the store well formed.
pub proof fn lemma_wf_torn_down(m: StoreModel, pair_id: i64)
    requires
        m.wf(),
    ensures
        torn_down(m, pair_id).wf(),
{
    let n = torn_down(m, pair_id);
    let cp = channel_pair_kept(pair_id);
    let fp = forum_pair_kept(pair_id);
    let tp = thread_pair_kept(m.replies, pair_id);
    let rp = reply_kept(pair_id);
    lemma_filter_members(m.channel_pairs, cp);
    lemma_filter_members(m.forum_pairs, fp);
    lemma_filter_members(m.thread_pairs, tp);
    lemma_filter_members(m.replies, rp);
    let ck = |p: ReplicationPair| p.id;
    let fk = |p: ReplicationForumPair| p.id;
    let tk = |p: ReplicationThreadPair| p.id;
    let rk = |r: ReplicationReply| r.id;
    let rc = |r: ReplicationReply| (r.guild_id, r.channel_id);
    assert forall|i: int, j: int| 0 <= i < j < m.channel_pairs.len() implies ck(m.channel_pairs[i]) != ck(m.channel_pairs[j]) by {}
    assert forall|i: int, j: int| 0 <= i < j < m.forum_pairs.len() implies fk(m.forum_pairs[i]) != fk(m.forum_pairs[j]) by {}
    assert forall|i: int, j: int| 0 <= i < j < m.thread_pairs.len() implies tk(m.thread_pairs[i]) != tk(m.thread_pairs[j]) by {}
    assert forall|i: int, j: int| 0 <= i < j < m.replies.len() implies rk(m.replies[i]) != rk(m.replies[j]) by {}
    assert forall|i: int, j: int| 0 <= i < j < m.replies.len() implies rc(m.replies[i]) != rc(m.replies[j]) by {
        assert(!reply_is_for(m.replies[j], m.replies[i].guild_id, m.replies[i].channel_id));
    }
    lemma_filter_keys_distinct(m.channel_pairs, cp, ck);
    lemma_filter_keys_distinct(m.forum_pairs, fp, fk);
    lemma_filter_keys_distinct(m.thread_pairs, tp, tk);
    lemma_filter_keys_distinct(m.replies, rp, rk);
    lemma_filter_keys_distinct(m.replies, rp, rc);
    assert forall|a: int, b: int| 0 <= a < b < n.channel_pairs.len() implies n.channel_pairs[a].id != n.channel_pairs[b].id by {
        assert(ck(n.channel_pairs[a]) != ck(n.channel_pairs[b]));
    }
    assert forall|a: int, b: int| 0 <= a < b < n.forum_pairs.len() implies n.forum_pairs[a].id != n.forum_pairs[b].id by {
        assert(fk(n.forum_pairs[a]) != fk(n.forum_pairs[b]));
    }
    assert forall|a: int, b: int| 0 <= a < b < n.thread_pairs.len() implies n.thread_pairs[a].id != n.thread_pairs[b].id by {
        assert(tk(n.thread_pairs[a]) != tk(n.thread_pairs[b]));
    }
    assert forall|a: int, b: int| 0 <= a < b < n.replies.len() implies n.replies[a].id != n.replies[b].id by {
        assert(rk(n.replies[a]) != rk(n.replies[b]));
    }
    assert forall|a: int, b: int| 0 <= a < b < n.replies.len() implies !reply_is_for(
        n.replies[b],
        n.replies[a].guild_id,
        n.replies[a].channel_id,
    ) by {
        assert(rc(n.replies[a]) != rc(n.replies[b]));
    }
    assert forall|a: int| 0 <= a < n.channel_pairs.len() implies 1 <= #[trigger] n.channel_pairs[a].id < n.next_id by {
        assert(n.channel_pairs.contains(n.channel_pairs[a]));
        let k = choose|k: int| 0 <= k < m.channel_pairs.len() && m.channel_pairs[k] == n.channel_pairs[a];
        assert(1 <= m.channel_pairs[k].id < m.next_id);
    }
    assert forall|a: int| 0 <= a < n.forum_pairs.len() implies 1 <= #[trigger] n.forum_pairs[a].id < n.next_id by {
        assert(n.forum_pairs.contains(n.forum_pairs[a]));
        let k = choose|k: int| 0 <= k < m.forum_pairs.len() && m.forum_pairs[k] == n.forum_pairs[a];
        assert(1 <= m.forum_pairs[k].id < m.next_id);
    }
    assert forall|a: int| 0 <= a < n.thread_pairs.len() implies 1 <= #[trigger] n.thread_pairs[a].id < n.next_id by {
        assert(n.thread_pairs.contains(n.thread_pairs[a]));
        let k = choose|k: int| 0 <= k < m.thread_pairs.len() && m.thread_pairs[k] == n.thread_pairs[a];
        assert(1 <= m.thread_pairs[k].id < m.next_id);
    }
    assert forall|a: int| 0 <= a < n.replies.len() implies 1 <= #[trigger] n.replies[a].id < n.next_id by {
        assert(n.replies.contains(n.replies[a]));
        let k = choose|k: int| 0 <= k < m.replies.len() && m.replies[k] == n.replies[a];
        assert(1 <= m.replies[k].id < m.next_id);
    }
    assert forall|a: int, b: int| 0 <= a < n.channel_pairs.len() && 0 <= b < n.forum_pairs.len() implies n.channel_pairs[a].id != n.forum_pairs[b].id by {
        assert(n.channel_pairs.contains(n.channel_pairs[a]));
        assert(n.forum_pairs.contains(n.forum_pairs[b]));
        let k = choose|k: int| 0 <= k < m.channel_pairs.len() && m.channel_pairs[k] == n.channel_pairs[a];
        let l = choose|l: int| 0 <= l < m.forum_pairs.len() && m.forum_pairs[l] == n.forum_pairs[b];
        assert(m.channel_pairs[k].id != m.forum_pairs[l].id);
    }
    assert forall|a: int| 0 <= a < n.thread_pairs.len() implies has_reverse(n.thread_pairs, #[trigger] n.thread_pairs[a]) by {
        let t = n.thread_pairs[a];
        assert(n.thread_pairs.contains(t));
        let k = choose|k: int| 0 <= k < m.thread_pairs.len() && m.thread_pairs[k] == t;
        assert(has_reverse(m.thread_pairs, m.thread_pairs[k]));
        let j = choose|j: int| 0 <= j < m.thread_pairs.len() && is_reverse(m.thread_pairs[k], #[trigger] m.thread_pairs[j]);
        assert(tp(t));
        assert(tp(m.thread_pairs[j]));
        assert(n.thread_pairs.contains(m.thread_pairs[j]));
        let x = choose|x: int| 0 <= x < n.thread_pairs.len() && n.thread_pairs[x] == m.thread_pairs[j];
        assert(is_reverse(t, n.thread_pairs[x]));
    }
}

/// Whether the reply with key `reply_id` proposes the pair `pair_id`.
fn reply_proposes(replies: &Vec<ReplicationReply>, reply_id: i64, pair_id: i64) -> (r: bool)
    ensures
        r == proposes(replies@, reply_id, pair_id),
{
    let mut i: usize = 0;
    while i < replies.len()
        invariant
            i <= replies@.len(),
            forall|j: int| 0 <= j < i ==> !((#[trigger] replies@[j]).id == reply_id && replies@[j].replication_pairs == pair_id),
        decreases replies@.len() - i,
    {
        if replies[i].id == reply_id && replies[i].replication_pairs == pair_id {
            return true;
        }
        i += 1;
    }
    false
}

/// The pairing store held in memory: the four relations of the relay and the
/// operations on them, each a single step.
pub struct PairingStore {
    channel_pairs: Vec<ReplicationPair>,
    forum_pairs: Vec<ReplicationForumPair>,
    thread_pairs: Vec<ReplicationThreadPair>,
    replies: Vec<ReplicationReply>,
    next_id: i64,
}

impl View for PairingStore {
    type V = StoreModel;

    closed spec fn view(&self) -> StoreModel {
        StoreModel {
            channel_pairs: self.channel_pairs@,
            forum_pairs: self.forum_pairs@,
            thread_pairs: self.thread_pairs@,
            replies: self.replies@,
            next_id: self.next_id as int,
        }
    }
}

impl PairingStore {
    /// An empty store.
    pub fn new() -> (r: PairingStore)
        ensures
            r@.wf(),
            r@.channel_pairs.len() == 0,
            r@.forum_pairs.len() == 0,
            r@.thread_pairs.len() == 0,
            r@.replies.len() == 0,
            r@.next_id == 1,
    {
        PairingStore {
            channel_pairs: Vec::new(),
            forum_pairs: Vec::new(),
            thread_pairs: Vec::new(),
            replies: Vec::new(),
            next_id: 1,
        }
    }

    /// The declared channel pairs, in insertion order.
    pub fn channel_pair_rows(&self) -> (r: &Vec<ReplicationPair>)
        ensures
            r@ == self@.channel_pairs,
    {
        &self.channel_pairs
    }

    /// The declared forum pairs, in insertion order.
    pub fn forum_pair_rows(&self) -> (r: &Vec<ReplicationForumPair>)
        ensures
            r@ == self@.forum_pairs,
    {
        &self.forum_pairs
    }

    /// The materialized thread pairs, in insertion order.
    pub fn thread_pair_rows(&self) -> (r: &Vec<ReplicationThreadPair>)
        ensures
            r@ == self@.thread_pairs,
    {
        &self.thread_pairs
    }

    /// The reply rows, in insertion order.
    pub fn reply_rows(&self) -> (r: &Vec<ReplicationReply>)
        ensures
            r@ == self@.replies,
    {
        &self.replies
    }

    /// All channel pairs whose origin is (`guild_id`, `channel_id`), whatever
    /// their confirmation.
    pub fn get_replication_pairs(&self, guild_id: i64, channel_id: i64) -> (r: Result<
        Vec<ReplicationPair>,
        AppError,
    >)
        ensures
            r is Ok,
            r->Ok_0@ == channel_pairs_from(self@.channel_pairs, guild_id, channel_id),
    {
        let mut out: Vec<ReplicationPair> = Vec::new();
        let mut i: usize = 0;
        while i < self.channel_pairs.len()
            invariant
                i <= self.channel_pairs@.len(),
                out@ == channel_pairs_from(self.channel_pairs@.subrange(0, i as int), guild_id, channel_id),
            decreases self.channel_pairs@.len() - i,
        {
            let p = self.channel_pairs[i];
            proof {
                lemma_filter_prefix_step(self.channel_pairs@, i as int, channel_origin(guild_id, channel_id));
            }
            if p.from_guild == guild_id && p.from_channel == channel_id {
                out.push(p);
            }
            i += 1;
        }
        assert(self.channel_pairs@.subrange(0, i as int) == self.channel_pairs@);
        Ok(out)
    }

    /// Whether some reply proposing the pair `pair_id` has been accepted.
    fn pair_active(&self, pair_id: i64) -> (r: bool)
        ensures
            r == pair_is_active(self@.replies, pair_id),
    {
        let mut i: usize = 0;
        while i < self.replies.len()
            invariant
                i <= self.replies@.len(),
                forall|j: int|
                    0 <= j < i ==> !(#[trigger] self.replies@[j].replication_pairs == pair_id
                        && self.replies@[j].status == ReplyStatus::Active),
            decreases self.replies@.len() - i,
        {
            let r = self.replies[i];
            if r.replication_pairs == pair_id && r.status == ReplyStatus::Active {
                return true;
            }
            i += 1;
        }
        false
    }

    /// The channel pairs whose origin is (`guild_id`, `channel_id`) and whose
    /// pairing has been accepted: the relay targets of a plain channel.
    pub fn get_active_replication_pairs(&self, guild_id: i64, channel_id: i64) -> (r: Result<
        Vec<ReplicationPair>,
        AppError,
    >)
        ensures
            r is Ok,
            r->Ok_0@ == active_channel_pairs_from(self@.channel_pairs, self@.replies, guild_id, channel_id),
    {
        let mut out: Vec<ReplicationPair> = Vec::new();
        let mut i: usize = 0;
        while i < self.channel_pairs.len()
            invariant
                i <= self.channel_pairs@.len(),
                out@ == active_channel_pairs_from(
                    self.channel_pairs@.subrange(0, i as int),
                    self.replies@,
                    guild_id,
                    channel_id,
                ),
            decreases self.channel_pairs@.len() - i,
        {
            let p = self.channel_pairs[i];
            proof {
                lemma_filter_prefix_step(self.channel_pairs@, i as int, active_origin(self.replies@, guild_id, channel_id));
            }
            if p.from_guild == guild_id && p.from_channel == channel_id && self.pair_active(p.id) {
                out.push(p);
            }
            i += 1;
        }
        assert(self.channel_pairs@.subrange(0, i as int) == self.channel_pairs@);
        Ok(out)
    }

    /// All forum pairs whose origin is (`guild_id`, `forum_id`).
    pub fn get_replication_forum_pair(&self, guild_id: i64, forum_id: i64) -> (r: Result<
        Vec<ReplicationForumPair>,
        AppError,
    >)
        ensures
            r is Ok,
            r->Ok_0@ == forum_pairs_from(self@.forum_pairs, guild_id, forum_id),
    {
        let mut out: Vec<ReplicationForumPair> = Vec::new();
        let mut i: usize = 0;
        while i < self.forum_pairs.len()
            invariant
                i <= self.forum_pairs@.len(),
                out@ == forum_pairs_from(self.forum_pairs@.subrange(0, i as int), guild_id, forum_id),
            decreases self.forum_pairs@.len() - i,
        {
            let p = self.forum_pairs[i];
            proof {
                lemma_filter_prefix_step(self.forum_pairs@, i as int, forum_origin(guild_id, forum_id));
            }
            if p.from_guild == guild_id && p.from_forum == forum_id {
                out.push(p);
            }
            i += 1;
        }
        assert(self.forum_pairs@.subrange(0, i as int) == self.forum_pairs@);
        Ok(out)
    }

    /// The thread pairs whose origin is (`guild_id`, `thread_id`): the relay
    /// targets of a thread.
    pub fn get_replication_thread_pairs(&self, guild_id: i64, thread_id: i64) -> (r: Result<
        Vec<ReplicationThreadPair>,
        AppError,
    >)
        ensures
            r is Ok,
            r->Ok_0@ == thread_pairs_from(self@.thread_pairs, guild_id, thread_id),
    {
        let mut out: Vec<ReplicationThreadPair> = Vec::new();
        let mut i: usize = 0;
        while i < self.thread_pairs.len()
            invariant
                i <= self.thread_pairs@.len(),
                out@ == thread_pairs_from(self.thread_pairs@.subrange(0, i as int), guild_id, thread_id),
            decreases self.thread_pairs@.len() - i,
        {
            let p = self.thread_pairs[i];
            proof {
                lemma_filter_prefix_step(self.thread_pairs@, i as int, thread_origin(guild_id, thread_id));
            }
            if p.from_guild == guild_id && p.from_thread == thread_id {
                out.push(p);
            }
            i += 1;
        }
        assert(self.thread_pairs@.subrange(0, i as int) == self.thread_pairs@);
        Ok(out)
    }
    /// The index of the reply row about (`guild_id`, `channel_id`), if any.
    fn find_reply(&self, guild_id: i64, channel_id: i64) -> (r: Option<usize>)
        requires
            self@.wf(),
        ensures
            match r {
                Some(i) => self@.has_reply(guild_id, channel_id) && i == reply_index(
                    self@.replies,
                    guild_id,
                    channel_id,
                ),
                None => !self@.has_reply(guild_id, channel_id),
            },
    {
        let mut i: usize = 0;
        while i < self.replies.len()
            invariant
                i <= self.replies@.len(),
                self@.wf(),
                forall|j: int| 0 <= j < i ==> !reply_is_for(#[trigger] self.replies@[j], guild_id, channel_id),
            decreases self.replies@.len() - i,
        {
            let r = self.replies[i];
            if r.guild_id == guild_id && r.channel_id == channel_id {
                proof {
                    let k = reply_index(self@.replies, guild_id, channel_id);
                    assert(reply_is_for(self@.replies[i as int], guild_id, channel_id));
                    assert(0 <= k < self@.replies.len() && reply_is_for(self@.replies[k], guild_id, channel_id));
                    if k < i {
                    } else if k > i {
                        assert(!reply_is_for(self@.replies[k], self@.replies[i as int].guild_id, self@.replies[i as int].channel_id));
                    }
                }
                return Some(i);
            }
            i += 1;
        }
        None
    }

    /// The reply about (`guild_id`, `channel_id`); `NotFound` when there is none.
    pub fn get_replication_reply(&self, guild_id: i64, channel_id: i64) -> (r: Result<
        ReplicationReply,
        AppError,
    >)
        requires
            self@.wf(),
        ensures
            r is Ok <==> self@.has_reply(guild_id, channel_id),
            r is Ok ==> r->Ok_0 == self@.replies[reply_index(self@.replies, guild_id, channel_id)],
            r is Err ==> r->Err_0.err_type == ErrorType::NotFound,
    {
        match self.find_reply(guild_id, channel_id) {
            Some(i) => Ok(self.replies[i]),
            None => Err(AppError::new("ReplicationReply not found", ErrorType::NotFound)),
        }
    }

    /// The reply about (`guild_id`, `channel_id`) whose prompt is the message
    /// `message_id`; `NotFound` when there is none.
    pub fn get_replication_reply_full(&self, guild_id: i64, channel_id: i64, message_id: i64) -> (r:
        Result<ReplicationReply, AppError>)
        requires
            self@.wf(),
        ensures
            r is Ok <==> self@.has_reply(guild_id, channel_id) && self@.replies[reply_index(
                self@.replies,
                guild_id,
                channel_id,
            )].message_id == Some(message_id),
            r is Ok ==> r->Ok_0 == self@.replies[reply_index(self@.replies, guild_id, channel_id)],
            r is Err ==> r->Err_0.err_type == ErrorType::NotFound,
    {
        match self.find_reply(guild_id, channel_id) {
            Some(i) => {
                let row = self.replies[i];
                match row.message_id {
                    Some(m) => {
                        if m == message_id {
                            return Ok(row);
                        }
                    },
                    None => {},
                }
                Err(AppError::new("ReplicationReply not found", ErrorType::NotFound))
            },
            None => Err(AppError::new("ReplicationReply not found", ErrorType::NotFound)),
        }
    }

    /// Records a new reply from `dto`, stamped `now`. `BadRequest` when the
    /// container already has one, `Internal` when the keys have run out.
    pub fn create_replication_reply(&mut self, dto: ReplicationReplyData, now: i64) -> (r: Result<
        ReplicationReply,
        AppError,
    >)
        requires
            old(self)@.wf(),
        ensures
            final(self)@.wf(),
            match create_reply_error(old(self)@, dto) {
                Some(e) => r is Err && r->Err_0.err_type == e && final(self)@ == old(self)@,
                None => r is Ok && r->Ok_0 == reply_row(dto, old(self)@.next_id, now) && final(self)@
                    == with_replies(
                    old(self)@,
                    old(self)@.replies.push(r->Ok_0),
                    old(self)@.next_id + 1,
                ),
            },
    {
        if self.find_reply(dto.guild_id, dto.channel_id).is_some() {
            return Err(AppError::new("ReplicationReply already exists", ErrorType::BadRequest));
        }
        if self.next_id == i64::MAX {
            return Err(AppError::new("no identity key left", ErrorType::Internal));
        }
        let row = ReplicationReply {
            id: self.next_id,
            responded: dto.responded,
            status: dto.status,
            guild_id: dto.guild_id,
            created_at: now,
            channel_id: dto.channel_id,
            replication_pairs: dto.replication_pairs,
            message_id: dto.message_id,
            message_owner: dto.message_owner,
        };
        proof {
            lemma_wf_push_reply(old(self)@, row);
        }
        self.replies.push(row);
        self.next_id = self.next_id + 1;
        Ok(row)
    }

    /// Answers the reply about (`guild_id`, `channel_id`) in one conditional
    /// step: the row is updated only while nobody has answered it, so of two
    /// competing answers exactly one gets through and the other sees `NotFound`.
    pub fn update_replication_reply_status(
        &mut self,
        guild_id: i64,
        channel_id: i64,
        responded: bool,
        status: ReplyStatus,
    ) -> (r: Result<ReplicationReply, AppError>)
        requires
            old(self)@.wf(),
        ensures
            final(self)@.wf(),
            match update_status_error(old(self)@, guild_id, channel_id, responded, status) {
                Some(e) => r is Err && r->Err_0.err_type == e && r->Err_0.message@ == not_found_message()
                    && final(self)@ == old(self)@,
                None => {
                    let i = reply_index(old(self)@.replies, guild_id, channel_id);
                    &&& r is Ok
                    &&& r->Ok_0 == answered(old(self)@.replies[i], responded, status)
                    &&& final(self)@ == with_replies(
                        old(self)@,
                        old(self)@.replies.update(i, r->Ok_0),
                        old(self)@.next_id,
                    )
                },
            },
    {
        let i = match self.find_reply(guild_id, channel_id) {
            Some(i) => i,
            None => {
                return Err(AppError::new("ReplicationReply not found", ErrorType::NotFound));
            },
        };
        let old_row = self.replies[i];
        if old_row.responded {
            return Err(AppError::new("ReplicationReply not found", ErrorType::NotFound));
        }
        let row = ReplicationReply {
            id: old_row.id,
            responded,
            status,
            guild_id: old_row.guild_id,
            created_at: old_row.created_at,
            channel_id: old_row.channel_id,
            replication_pairs: old_row.replication_pairs,
            message_id: old_row.message_id,
            message_owner: old_row.message_owner,
        };
        proof {
            lemma_wf_replace_reply(old(self)@, i as int, row);
        }
        self.replies.set(i, row);
        Ok(row)
    }

    /// Records which message carries the prompt of the reply about
    /// (`guild_id`, `channel_id`); `NotFound` when there is no such reply.
    pub fn update_replication_reply_message_id(
        &mut self,
        guild_id: i64,
        channel_id: i64,
        message_id: Option<i64>,
    ) -> (r: Result<ReplicationReply, AppError>)
        requires
            old(self)@.wf(),
        ensures
            final(self)@.wf(),
            r is Ok <==> old(self)@.has_reply(guild_id, channel_id),
            r is Err ==> r->Err_0.err_type == ErrorType::NotFound && final(self)@ == old(self)@,
            r is Ok ==> {
                let i = reply_index(old(self)@.replies, guild_id, channel_id);
                &&& r->Ok_0 == with_prompt(old(self)@.replies[i], message_id)
                &&& final(self)@ == with_replies(
                    old(self)@,
                    old(self)@.replies.update(i, r->Ok_0),
                    old(self)@.next_id,
                )
            },
    {
        let i = match self.find_reply(guild_id, channel_id) {
            Some(i) => i,
            None => {
                return Err(AppError::new("ReplicationReply not found", ErrorType::NotFound));
            },
        };
        let old_row = self.replies[i];
        let row = ReplicationReply {
            id: old_row.id,
            responded: old_row.responded,
            status: old_row.status,
            guild_id: old_row.guild_id,
            created_at: old_row.created_at,
            channel_id: old_row.channel_id,
            replication_pairs: old_row.replication_pairs,
            message_id,
            message_owner: old_row.message_owner,
        };
        proof {
            lemma_wf_replace_reply(old(self)@, i as int, row);
        }
        self.replies.set(i, row);
        Ok(row)
    }

    /// Removes the reply whose key is `id`, whatever its state; the result is
    /// the number of rows removed.
    pub fn delete_replication_reply(&mut self, id: i64) -> (r: Result<usize, AppError>)
        requires
            old(self)@.wf(),
        ensures
            final(self)@.wf(),
            r is Ok,
            has_reply_key(old(self)@.replies, id) ==> r->Ok_0 == 1 && final(self)@ == with_replies(
                old(self)@,
                old(self)@.replies.remove(reply_key_index(old(self)@.replies, id)),
                old(self)@.next_id,
            ),
            !has_reply_key(old(self)@.replies, id) ==> r->Ok_0 == 0 && final(self)@ == old(self)@,
    {
        let mut i: usize = 0;
        while i < self.replies.len()
            invariant
                i <= self.replies@.len(),
                self@ == old(self)@,
                self@.wf(),
                forall|j: int| 0 <= j < i ==> (#[trigger] self.replies@[j]).id != id,
            decreases self.replies@.len() - i,
        {
            if self.replies[i].id == id {
                proof {
                    let k = reply_key_index(self@.replies, id);
                    assert(self@.replies[i as int].id == id);
                    if k > i {
                        assert(self@.replies[i as int].id != self@.replies[k].id);
                    }
                }
                proof {
                    lemma_wf_remove_reply(self@, i as int);
                }
                self.replies.remove(i);
                return Ok(1);
            }
            i += 1;
        }
        Ok(0)
    }

    /// Declares a channel pair, stamped `now`. `BadRequest` when the same link
    /// is already declared, `Internal` when the keys have run out.
    pub fn create_replication_pair(&mut self, dto: ReplicationPairData, now: i64) -> (r: Result<
        ReplicationPair,
        AppError,
    >)
        requires
            old(self)@.wf(),
        ensures
            final(self)@.wf(),
            has_channel_link(old(self)@.channel_pairs, dto) ==> r is Err && r->Err_0.err_type
                == ErrorType::BadRequest && final(self)@ == old(self)@,
            !has_channel_link(old(self)@.channel_pairs, dto) && old(self)@.next_id == i64::MAX ==> r is Err
                && r->Err_0.err_type == ErrorType::Internal && final(self)@ == old(self)@,
            !has_channel_link(old(self)@.channel_pairs, dto) && old(self)@.next_id < i64::MAX ==> r is Ok
                && r->Ok_0 == channel_pair_row(dto, old(self)@.next_id, now) && final(self)@
                == with_channel_pairs(
                old(self)@,
                old(self)@.channel_pairs.push(r->Ok_0),
                old(self)@.next_id + 1,
            ),
    {
        let mut i: usize = 0;
        while i < self.channel_pairs.len()
            invariant
                i <= self.channel_pairs@.len(),
                self@ == old(self)@,
                self@.wf(),
                forall|j: int|
                    0 <= j < i ==> !((#[trigger] self.channel_pairs@[j]).from_guild == dto.from_guild
                        && self.channel_pairs@[j].from_channel == dto.from_channel
                        && self.channel_pairs@[j].to_guild == dto.to_guild
                        && self.channel_pairs@[j].to_channel == dto.to_channel),
            decreases self.channel_pairs@.len() - i,
        {
            let p = self.channel_pairs[i];
            if p.from_guild == dto.from_guild && p.from_channel == dto.from_channel && p.to_guild
                == dto.to_guild && p.to_channel == dto.to_channel {
                return Err(AppError::new("ReplicationPair already exists", ErrorType::BadRequest));
            }
            i += 1;
        }
        if self.next_id == i64::MAX {
            return Err(AppError::new("no identity key left", ErrorType::Internal));
        }
        let row = ReplicationPair {
            id: self.next_id,
            from_guild: dto.from_guild,
            from_channel: dto.from_channel,
            to_guild: dto.to_guild,
            to_channel: dto.to_channel,
            created_at: now,
        };
        proof {
            lemma_wf_push_channel_pair(old(self)@, row);
        }
        self.channel_pairs.push(row);
        self.next_id = self.next_id + 1;
        Ok(row)
    }

    /// Declares a forum pair, stamped `now`. `BadRequest` when the same link
    /// is already declared, `Internal` when the keys have run out.
    pub fn create_replication_forum_pair(&mut self, dto: ReplicationForumPairData, now: i64) -> (r:
        Result<ReplicationForumPair, AppError>)
        requires
            old(self)@.wf(),
        ensures
            final(self)@.wf(),
            has_forum_link(old(self)@.forum_pairs, dto) ==> r is Err && r->Err_0.err_type
                == ErrorType::BadRequest && final(self)@ == old(self)@,
            !has_forum_link(old(self)@.forum_pairs, dto) && old(self)@.next_id == i64::MAX ==> r is Err
                && r->Err_0.err_type == ErrorType::Internal && final(self)@ == old(self)@,
            !has_forum_link(old(self)@.forum_pairs, dto) && old(self)@.next_id < i64::MAX ==> r is Ok
                && r->Ok_0 == forum_pair_row(dto, old(self)@.next_id, now) && final(self)@
                == with_forum_pairs(
                old(self)@,
                old(self)@.forum_pairs.push(r->Ok_0),
                old(self)@.next_id + 1,
            ),
    {
        let mut i: usize = 0;
        while i < self.forum_pairs.len()
            invariant
                i <= self.forum_pairs@.len(),
                self@ == old(self)@,
                self@.wf(),
                forall|j: int|
                    0 <= j < i ==> !((#[trigger] self.forum_pairs@[j]).from_guild == dto.from_guild
                        && self.forum_pairs@[j].from_forum == dto.from_forum
                        && self.forum_pairs@[j].to_guild == dto.to_guild
                        && self.forum_pairs@[j].to_forum == dto.to_forum),
            decreases self.forum_pairs@.len() - i,
        {
            let p = self.forum_pairs[i];
            if p.from_guild == dto.from_guild && p.from_forum == dto.from_forum && p.to_guild
                == dto.to_guild && p.to_forum == dto.to_forum {
                return Err(AppError::new("ReplicationForumPair already exists", ErrorType::BadRequest));
            }
            i += 1;
        }
        if self.next_id == i64::MAX {
            return Err(AppError::new("no identity key left", ErrorType::Internal));
        }
        let row = ReplicationForumPair {
            id: self.next_id,
            from_guild: dto.from_guild,
            from_forum: dto.from_forum,
            to_guild: dto.to_guild,
            to_forum: dto.to_forum,
            created_at: now,
        };
        proof {
            lemma_wf_push_forum_pair(old(self)@, row);
        }
        self.forum_pairs.push(row);
        self.next_id = self.next_id + 1;
        Ok(row)
    }

    /// The index of the forum pair whose key is `id`, if any.
    fn find_forum_pair(&self, id: i64) -> (r: Option<usize>)
        requires
            self@.wf(),
        ensures
            match r {
                Some(i) => has_forum_pair(self@.forum_pairs, id) && i == forum_pair_index(self@.forum_pairs, id),
                None => !has_forum_pair(self@.forum_pairs, id),
            },
    {
        let mut i: usize = 0;
        while i < self.forum_pairs.len()
            invariant
                i <= self.forum_pairs@.len(),
                self@.wf(),
                forall|j: int| 0 <= j < i ==> (#[trigger] self.forum_pairs@[j]).id != id,
            decreases self.forum_pairs@.len() - i,
        {
            if self.forum_pairs[i].id == id {
                proof {
                    let k = forum_pair_index(self@.forum_pairs, id);
                    assert(self@.forum_pairs[i as int].id == id);
                    if k > i {
                        assert(self@.forum_pairs[i as int].id != self@.forum_pairs[k].id);
                    }
                }
                return Some(i);
            }
            i += 1;
        }
        None
    }

    /// The forum pair whose key is `id`; `NotFound` when there is none.
    pub fn get_replication_forum_pair_by_id(&self, id: i64) -> (r: Result<ReplicationForumPair, AppError>)
        requires
            self@.wf(),
        ensures
            r is Ok <==> has_forum_pair(self@.forum_pairs, id),
            r is Ok ==> r->Ok_0 == self@.forum_pairs[forum_pair_index(self@.forum_pairs, id)],
            r is Err ==> r->Err_0.err_type == ErrorType::NotFound,
    {
        match self.find_forum_pair(id) {
            Some(i) => Ok(self.forum_pairs[i]),
            None => Err(AppError::new("ReplicationForumPair not found", ErrorType::NotFound)),
        }
    }

    /// Whether the reply with key `id` exists and was accepted.
    fn has_confirmed_reply(&self, id: i64) -> (r: bool)
        ensures
            r == reply_confirmed(self@.replies, id),
    {
        let mut i: usize = 0;
        while i < self.replies.len()
            invariant
                i <= self.replies@.len(),
                forall|j: int| 0 <= j < i ==> !((#[trigger] self.replies@[j]).id == id && is_confirmed(self.replies@[j])),
            decreases self.replies@.len() - i,
        {
            let row = self.replies[i];
            if row.id == id && row.responded && row.status == ReplyStatus::Active {
                return true;
            }
            i += 1;
        }
        false
    }

    /// Links a thread to another and back in one step, both rows naming the
    /// same reply and stamped `now`. `NotFound` unless that reply exists and
    /// was accepted; `Internal` when the keys have run out.
    pub fn create_replication_thread_pair(&mut self, dto: ReplicationThreadPairData, now: i64) -> (r:
        Result<(ReplicationThreadPair, ReplicationThreadPair), AppError>)
        requires
            old(self)@.wf(),
        ensures
            final(self)@.wf(),
            reply_confirmed(old(self)@.replies, dto.replication_reply_id) && old(self)@.next_id < i64::MAX - 1 ==> {
                &&& r is Ok
                &&& r->Ok_0.0 == thread_pair_row(dto, old(self)@.next_id, now)
                &&& r->Ok_0.1 == thread_pair_row(reversed(dto), old(self)@.next_id + 1, now)
                &&& final(self)@ == with_thread_pairs(
                    old(self)@,
                    old(self)@.thread_pairs.push(r->Ok_0.0).push(r->Ok_0.1),
                    old(self)@.next_id + 2,
                )
            },
            !reply_confirmed(old(self)@.replies, dto.replication_reply_id) ==> r is Err
                && r->Err_0.err_type == ErrorType::NotFound && final(self)@ == old(self)@,
            reply_confirmed(old(self)@.replies, dto.replication_reply_id) && old(self)@.next_id >= i64::MAX - 1
                ==> r is Err && r->Err_0.err_type == ErrorType::Internal && final(self)@ == old(self)@,
    {
        if !self.has_confirmed_reply(dto.replication_reply_id) {
            return Err(AppError::new("no accepted ReplicationReply with that id", ErrorType::NotFound));
        }
        if self.next_id >= i64::MAX - 1 {
            return Err(AppError::new("no identity key left", ErrorType::Internal));
        }
        let first = ReplicationThreadPair {
            id: self.next_id,
            from_guild: dto.from_guild,
            from_thread: dto.from_thread,
            to_guild: dto.to_guild,
            to_thread: dto.to_thread,
            created_at: now,
            replication_reply_id: dto.replication_reply_id,
        };
        let second = ReplicationThreadPair {
            id: self.next_id + 1,
            from_guild: dto.to_guild,
            from_thread: dto.to_thread,
            to_guild: dto.from_guild,
            to_thread: dto.from_thread,
            created_at: now,
            replication_reply_id: dto.replication_reply_id,
        };
        proof {
            lemma_wf_push_thread_pairs(old(self)@, first, second);
        }
        self.thread_pairs.push(first);
        self.thread_pairs.push(second);
        self.next_id = self.next_id + 2;
        Ok((first, second))
    }

    /// The forum whose pair the prompt `message_id` of `guild_id` proposes:
    /// the first reply carrying that prompt names a forum pair, whose origin
    /// forum this is. `NotFound` when either is missing.
    pub fn get_parent_forum_from_message_id(&self, guild_id: i64, message_id: i64) -> (r: Result<
        i64,
        AppError,
    >)
        requires
            self@.wf(),
        ensures
            r is Ok <==> parent_forum_of_prompt(self@, guild_id, message_id) is Some,
            r is Ok ==> Some(r->Ok_0) == parent_forum_of_prompt(self@, guild_id, message_id),
            r is Err ==> r->Err_0.err_type == ErrorType::NotFound,
    {
        let mut i: usize = 0;
        while i < self.replies.len()
            invariant
                i <= self.replies@.len(),
                self@.wf(),
                forall|j: int| 0 <= j < i ==> !prompt_matches(#[trigger] self.replies@[j], guild_id, message_id),
            decreases self.replies@.len() - i,
        {
            let row = self.replies[i];
            let hit = match row.message_id {
                Some(m) => row.guild_id == guild_id && m == message_id,
                None => false,
            };
            if hit {
                proof {
                    assert(is_first_prompt(self@.replies, guild_id, message_id, i as int));
                    let k = choose|k: int| is_first_prompt(self@.replies, guild_id, message_id, k);
                    if k < i {
                        assert(!prompt_matches(self@.replies[k], guild_id, message_id));
                    } else if k > i {
                        assert(!prompt_matches(self@.replies[i as int], guild_id, message_id));
                    }
                }
                return match self.get_replication_forum_pair_by_id(row.replication_pairs) {
                    Ok(pair) => Ok(pair.from_forum),
                    Err(e) => Err(e),
                };
            }
            i += 1;
        }
        proof {
            assert forall|k: int| !is_first_prompt(self@.replies, guild_id, message_id, k) by {
                if 0 <= k < self@.replies.len() {
                    assert(!prompt_matches(self@.replies[k], guild_id, message_id));
                }
            }
        }
        Err(AppError::new("ReplicationReply not found", ErrorType::NotFound))
    }
    /// A store holding the given rows, as read back from durable storage.
    /// `Validation` when no store could hold them: a key out of range or used
    /// twice, two replies about one container, or a thread pair without its
    /// reverse.
    pub fn restore(
        channel_pairs: Vec<ReplicationPair>,
        forum_pairs: Vec<ReplicationForumPair>,
        thread_pairs: Vec<ReplicationThreadPair>,
        replies: Vec<ReplicationReply>,
    ) -> (r: Result<PairingStore, AppError>)
        ensures
            r is Ok <==> rows_wf(channel_pairs@, forum_pairs@, thread_pairs@, replies@),
            r is Ok ==> {
                &&& r->Ok_0@.wf()
                &&& r->Ok_0@.channel_pairs == channel_pairs@
                &&& r->Ok_0@.forum_pairs == forum_pairs@
                &&& r->Ok_0@.thread_pairs == thread_pairs@
                &&& r->Ok_0@.replies == replies@
            },
            r is Err ==> r->Err_0.err_type == ErrorType::Validation,
    {
        let ghost (cp, fp, tp, rp) = (channel_pairs@, forum_pairs@, thread_pairs@, replies@);
        let ck = channel_pair_keys(&channel_pairs);
        let fk = forum_pair_keys(&forum_pairs);
        let tk = thread_pair_keys(&thread_pairs);
        let rk = reply_keys(&replies);
        let invalid = Err(AppError::new("the stored rows do not form a pairing store", ErrorType::Validation));
        let (a, b, c, d) = match (check_key_range(&ck), check_key_range(&fk), check_key_range(&tk), check_key_range(&rk)) {
            (Some(a), Some(b), Some(c), Some(d)) => (a, b, c, d),
            _ => {
                proof {
                    if rows_wf(cp, fp, tp, rp) {
                        lemma_rows_wf_facts(cp, fp, tp, rp);
                        assert forall|i: int| 0 <= i < ck@.len() implies 1 <= #[trigger] ck@[i] < i64::MAX by {
                            assert(ck@[i] == cp[i].id);
                        }
                        assert forall|i: int| 0 <= i < fk@.len() implies 1 <= #[trigger] fk@[i] < i64::MAX by {
                            assert(fk@[i] == fp[i].id);
                        }
                        assert forall|i: int| 0 <= i < tk@.len() implies 1 <= #[trigger] tk@[i] < i64::MAX by {
                            assert(tk@[i] == tp[i].id);
                        }
                        assert forall|i: int| 0 <= i < rk@.len() implies 1 <= #[trigger] rk@[i] < i64::MAX by {
                            assert(rk@[i] == rp[i].id);
                        }
                    }
                }
                return invalid;
            },
        };
        let distinct = all_distinct(&ck) && all_distinct(&fk) && all_distinct(&tk) && all_distinct(&rk)
            && disjoint_keys(&ck, &fk);
        let replies_ok = check_containers_distinct(&replies);
        let links_ok = check_links_symmetric(&thread_pairs);
        if !(distinct && replies_ok && links_ok) {
            proof {
                if rows_wf(cp, fp, tp, rp) {
                    lemma_rows_wf_facts(cp, fp, tp, rp);
                    assert forall|i: int, j: int| 0 <= i < j < ck@.len() implies ck@[i] != ck@[j] by {
                        assert(ck@[i] == cp[i].id && ck@[j] == cp[j].id);
                    }
                    assert forall|i: int, j: int| 0 <= i < j < fk@.len() implies fk@[i] != fk@[j] by {
                        assert(fk@[i] == fp[i].id && fk@[j] == fp[j].id);
                    }
                    assert forall|i: int, j: int| 0 <= i < j < tk@.len() implies tk@[i] != tk@[j] by {
                        assert(tk@[i] == tp[i].id && tk@[j] == tp[j].id);
                    }
                    assert forall|i: int, j: int| 0 <= i < j < rk@.len() implies rk@[i] != rk@[j] by {
                        assert(rk@[i] == rp[i].id && rk@[j] == rp[j].id);
                    }
                    assert forall|i: int, j: int| 0 <= i < ck@.len() && 0 <= j < fk@.len() implies ck@[i] != fk@[j] by {
                        assert(ck@[i] == cp[i].id && fk@[j] == fp[j].id);
                    }
                }
            }
            return invalid;
        }
        let mut max = a;
        if b > max {
            max = b;
        }
        if c > max {
            max = c;
        }
        if d > max {
            max = d;
        }
        let store = PairingStore { channel_pairs, forum_pairs, thread_pairs, replies, next_id: max + 1 };
        proof {
            let m = store@;
            assert(keys_distinct(ck@) && keys_distinct(fk@) && keys_distinct(tk@) && keys_distinct(rk@));
            assert forall|i: int, j: int| 0 <= i < j < m.channel_pairs.len() implies m.channel_pairs[i].id != m.channel_pairs[j].id by {
                assert(ck@[i] != ck@[j]);
            }
            assert forall|i: int, j: int| 0 <= i < j < m.forum_pairs.len() implies m.forum_pairs[i].id != m.forum_pairs[j].id by {
                assert(fk@[i] != fk@[j]);
            }
            assert forall|i: int, j: int| 0 <= i < j < m.thread_pairs.len() implies m.thread_pairs[i].id != m.thread_pairs[j].id by {
                assert(tk@[i] != tk@[j]);
            }
            assert forall|i: int, j: int| 0 <= i < j < m.replies.len() implies m.replies[i].id != m.replies[j].id by {
                assert(rk@[i] != rk@[j]);
            }
            assert forall|i: int, j: int| 0 <= i < m.channel_pairs.len() && 0 <= j < m.forum_pairs.len() implies m.channel_pairs[i].id != m.forum_pairs[j].id by {
                assert(ck@[i] != fk@[j]);
            }
            assert forall|i: int| 0 <= i < m.channel_pairs.len() implies 1 <= #[trigger] m.channel_pairs[i].id < m.next_id by {
                assert(ck@[i] <= a);
                assert(1 <= ck@[i]);
            }
            assert forall|i: int| 0 <= i < m.forum_pairs.len() implies 1 <= #[trigger] m.forum_pairs[i].id < m.next_id by {
                assert(fk@[i] <= b);
                assert(1 <= fk@[i]);
            }
            assert forall|i: int| 0 <= i < m.thread_pairs.len() implies 1 <= #[trigger] m.thread_pairs[i].id < m.next_id by {
                assert(tk@[i] <= c);
                assert(1 <= tk@[i]);
            }
            assert forall|i: int| 0 <= i < m.replies.len() implies 1 <= #[trigger] m.replies[i].id < m.next_id by {
                assert(rk@[i] <= d);
                assert(1 <= rk@[i]);
            }
            assert(m.wf());
        }
        Ok(store)
    }
    /// Takes down the channel or forum pair whose key is `pair_id`, with the
    /// replies proposing it and the thread pairs those replies led to; the
    /// result says whether a pair row was removed.
    pub fn tear_down_pair(&mut self, pair_id: i64) -> (r: bool)
        requires
            old(self)@.wf(),
        ensures
            final(self)@.wf(),
            final(self)@ == torn_down(old(self)@, pair_id),
            r == (final(self)@.channel_pairs.len() < old(self)@.channel_pairs.len()
                || final(self)@.forum_pairs.len() < old(self)@.forum_pairs.len()),
    {
        let ghost m = self@;
        let mut threads: Vec<ReplicationThreadPair> = Vec::new();
        let mut i: usize = 0;
        while i < self.thread_pairs.len()
            invariant
                self@ == m,
                i <= self.thread_pairs@.len(),
                threads@ == self.thread_pairs@.subrange(0, i as int).filter(thread_pair_kept(self.replies@, pair_id)),
            decreases self.thread_pairs@.len() - i,
        {
            proof {
                lemma_filter_prefix_step(self.thread_pairs@, i as int, thread_pair_kept(self.replies@, pair_id));
            }
            let t = self.thread_pairs[i];
            if !reply_proposes(&self.replies, t.replication_reply_id, pair_id) {
                threads.push(t);
            }
            i += 1;
        }
        assert(self.thread_pairs@.subrange(0, i as int) == self.thread_pairs@);
        let mut replies: Vec<ReplicationReply> = Vec::new();
        let mut i: usize = 0;
        while i < self.replies.len()
            invariant
                self@ == m,
                i <= self.replies@.len(),
                replies@ == self.replies@.subrange(0, i as int).filter(reply_kept(pair_id)),
            decreases self.replies@.len() - i,
        {
            proof {
                lemma_filter_prefix_step(self.replies@, i as int, reply_kept(pair_id));
            }
            let r = self.replies[i];
            if r.replication_pairs != pair_id {
                replies.push(r);
            }
            i += 1;
        }
        assert(self.replies@.subrange(0, i as int) == self.replies@);
        let mut channels: Vec<ReplicationPair> = Vec::new();
        let mut i: usize = 0;
        while i < self.channel_pairs.len()
            invariant
                self@ == m,
                i <= self.channel_pairs@.len(),
                channels@ == self.channel_pairs@.subrange(0, i as int).filter(channel_pair_kept(pair_id)),
            decreases self.channel_pairs@.len() - i,
        {
            proof {
                lemma_filter_prefix_step(self.channel_pairs@, i as int, channel_pair_kept(pair_id));
            }
            let p = self.channel_pairs[i];
            if p.id != pair_id {
                channels.push(p);
            }
            i += 1;
        }
        assert(self.channel_pairs@.subrange(0, i as int) == self.channel_pairs@);
        let mut forums: Vec<ReplicationForumPair> = Vec::new();
        let mut i: usize = 0;
        while i < self.forum_pairs.len()
            invariant
                self@ == m,
                i <= self.forum_pairs@.len(),
                forums@ == self.forum_pairs@.subrange(0, i as int).filter(forum_pair_kept(pair_id)),
            decreases self.forum_pairs@.len() - i,
        {
            proof {
                lemma_filter_prefix_step(self.forum_pairs@, i as int, forum_pair_kept(pair_id));
            }
            let p = self.forum_pairs[i];
            if p.id != pair_id {
                forums.push(p);
            }
            i += 1;
        }
        assert(self.forum_pairs@.subrange(0, i as int) == self.forum_pairs@);
        proof {
            lemma_wf_torn_down(m, pair_id);
        }
        let removed = channels.len() < self.channel_pairs.len() || forums.len() < self.forum_pairs.len();
        self.thread_pairs = threads;
        self.replies = replies;
        self.channel_pairs = channels;
        self.forum_pairs = forums;
        removed
    }
}

} // verus!
