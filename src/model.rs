use vstd::prelude::*;

verus! {

/// Confirmation status of a pairing reply.
#[derive(Debug, Clone, Copy, PartialEq, Eq, Structural)]
pub enum ReplyStatus {
    Inactive,
    Active,
}

/// A directed link between two plain channels of different guilds.
#[derive(Debug, Clone, Copy, PartialEq, Eq, Structural)]
pub struct ReplicationPair {
    pub id: i64,
    pub from_guild: i64,
    pub from_channel: i64,
    pub to_guild: i64,
    pub to_channel: i64,
    pub created_at: i64,
}

/// What is given to declare a channel pair.
#[derive(Debug, Clone, Copy, PartialEq, Eq, Structural)]
pub struct ReplicationPairData {
    pub from_guild: i64,
    pub from_channel: i64,
    pub to_guild: i64,
    pub to_channel: i64,
}

/// A directed link between two forums of different guilds; the posts under
/// them are paired one by one through thread pairs.
#[derive(Debug, Clone, Copy, PartialEq, Eq, Structural)]
pub struct ReplicationForumPair {
    pub id: i64,
    pub from_guild: i64,
    pub from_forum: i64,
    pub to_guild: i64,
    pub to_forum: i64,
    pub created_at: i64,
}

/// What is given to declare a forum pair.
#[derive(Debug, Clone, Copy, PartialEq, Eq, Structural)]
pub struct ReplicationForumPairData {
    pub from_guild: i64,
    pub from_forum: i64,
    pub to_guild: i64,
    pub to_forum: i64,
}

/// One confirmation prompt and its outcome. `replication_pairs` is the id of
/// the channel pair or forum pair that the prompt proposes.
#[derive(Debug, Clone, Copy, PartialEq, Eq, Structural)]
pub struct ReplicationReply {
    pub id: i64,
    pub responded: bool,
    pub status: ReplyStatus,
    pub guild_id: i64,
    pub created_at: i64,
    pub channel_id: i64,
    pub replication_pairs: i64,
    pub message_id: Option<i64>,
    pub message_owner: i64,
}

/// What is given to record a new confirmation prompt.
#[derive(Debug, Clone, Copy, PartialEq, Eq, Structural)]
pub struct ReplicationReplyData {
    pub responded: bool,
    pub status: ReplyStatus,
    pub guild_id: i64,
    pub channel_id: i64,
    pub replication_pairs: i64,
    pub message_id: Option<i64>,
    pub message_owner: i64,
}

/// A materialized link from one thread to another, created once a forum
/// pairing was accepted.
#[derive(Debug, Clone, Copy, PartialEq, Eq, Structural)]
pub struct ReplicationThreadPair {
    pub id: i64,
    pub from_guild: i64,
    pub from_thread: i64,
    pub to_guild: i64,
    pub to_thread: i64,
    pub created_at: i64,
    pub replication_reply_id: i64,
}

/// What is given to link a thread to another.
#[derive(Debug, Clone, Copy, PartialEq, Eq, Structural)]
pub struct ReplicationThreadPairData {
    pub from_guild: i64,
    pub from_thread: i64,
    pub to_guild: i64,
    pub to_thread: i64,
    pub replication_reply_id: i64,
}

/// The contents of the pairing store: its four relations, in insertion
/// order, and the next identity key to hand out.
pub struct StoreModel {
    pub channel_pairs: Seq<ReplicationPair>,
    pub forum_pairs: Seq<ReplicationForumPair>,
    pub thread_pairs: Seq<ReplicationThreadPair>,
    pub replies: Seq<ReplicationReply>,
    pub next_id: int,
}

/// The channel pairs whose origin is (`guild`, `channel`), in order.
pub open spec fn channel_pairs_from(rows: Seq<ReplicationPair>, guild: i64, channel: i64) -> Seq<
    ReplicationPair,
> {
    rows.filter(channel_origin(guild, channel))
}

/// Holds of the channel pairs whose origin is (`guild`, `channel`).
pub open spec fn channel_origin(guild: i64, channel: i64) -> spec_fn(ReplicationPair) -> bool {
    |p: ReplicationPair| p.from_guild == guild && p.from_channel == channel
}

/// Holds of the forum pairs whose origin is (`guild`, `forum`).
pub open spec fn forum_origin(guild: i64, forum: i64) -> spec_fn(ReplicationForumPair) -> bool {
    |p: ReplicationForumPair| p.from_guild == guild && p.from_forum == forum
}

/// Holds of the thread pairs whose origin is (`guild`, `thread`).
pub open spec fn thread_origin(guild: i64, thread: i64) -> spec_fn(ReplicationThreadPair) -> bool {
    |p: ReplicationThreadPair| p.from_guild == guild && p.from_thread == thread
}

/// Holds of the channel pairs whose origin is (`guild`, `channel`) and whose
/// pairing has been accepted.
pub open spec fn active_origin(replies: Seq<ReplicationReply>, guild: i64, channel: i64) -> spec_fn(
    ReplicationPair,
) -> bool {
    |p: ReplicationPair|
        p.from_guild == guild && p.from_channel == channel && pair_is_active(replies, p.id)
}

/// Filtering a prefix one element longer adds that element when it is kept.
pub proof fn lemma_filter_prefix_step<A>(s: Seq<A>, i: int, pred: spec_fn(A) -> bool)
    requires
        0 <= i < s.len(),
    ensures
        s.subrange(0, i + 1).filter(pred) == if pred(s[i]) {
            s.subrange(0, i).filter(pred).push(s[i])
        } else {
            s.subrange(0, i).filter(pred)
        },
{
    reveal(Seq::filter);
    assert(s.subrange(0, i + 1).drop_last() =~= s.subrange(0, i));
}

/// The forum pairs whose origin is (`guild`, `forum`), in order.
pub open spec fn forum_pairs_from(rows: Seq<ReplicationForumPair>, guild: i64, forum: i64) -> Seq<
    ReplicationForumPair,
> {
    rows.filter(forum_origin(guild, forum))
}

/// The thread pairs whose origin is (`guild`, `thread`), in order.
pub open spec fn thread_pairs_from(
    rows: Seq<ReplicationThreadPair>,
    guild: i64,
    thread: i64,
) -> Seq<ReplicationThreadPair> {
    rows.filter(thread_origin(guild, thread))
}

/// Some reply proposing the pair `pair_id` has been accepted.
pub open spec fn pair_is_active(replies: Seq<ReplicationReply>, pair_id: i64) -> bool {
    exists|i: int|
        0 <= i < replies.len() && #[trigger] replies[i].replication_pairs == pair_id
            && replies[i].status == ReplyStatus::Active
}

/// The channel pairs whose origin is (`guild`, `channel`) and whose pairing
/// has been accepted, in order.
pub open spec fn active_channel_pairs_from(
    rows: Seq<ReplicationPair>,
    replies: Seq<ReplicationReply>,
    guild: i64,
    channel: i64,
) -> Seq<ReplicationPair> {
    rows.filter(active_origin(replies, guild, channel))
}

/// `b` links back what `a` links, for the same reply.
pub open spec fn is_reverse(a: ReplicationThreadPair, b: ReplicationThreadPair) -> bool {
    &&& b.from_guild == a.to_guild
    &&& b.from_thread == a.to_thread
    &&& b.to_guild == a.from_guild
    &&& b.to_thread == a.from_thread
    &&& b.replication_reply_id == a.replication_reply_id
}

/// Some row of `rows` links back what `a` links.
pub open spec fn has_reverse(rows: Seq<ReplicationThreadPair>, a: ReplicationThreadPair) -> bool {
    exists|j: int| 0 <= j < rows.len() && is_reverse(a, #[trigger] rows[j])
}

/// Every row of `rows` has its reverse among them.
pub open spec fn links_symmetric(rows: Seq<ReplicationThreadPair>) -> bool {
    forall|i: int| 0 <= i < rows.len() ==> has_reverse(rows, #[trigger] rows[i])
}

/// A reply answered and accepted: it is the only kind a thread pair may name.
pub open spec fn is_confirmed(r: ReplicationReply) -> bool {
    r.responded && r.status == ReplyStatus::Active
}

/// The reply with key `id` is in `replies` and was accepted.
pub open spec fn reply_confirmed(replies: Seq<ReplicationReply>, id: i64) -> bool {
    exists|j: int| 0 <= j < replies.len() && (#[trigger] replies[j]).id == id && is_confirmed(replies[j])
}

/// Filtering keeps every kept element, and only elements of the original.
pub proof fn lemma_filter_members<A>(s: Seq<A>, pred: spec_fn(A) -> bool)
    ensures
        forall|x: A| #[trigger] s.filter(pred).contains(x) ==> s.contains(x) && pred(x),
        forall|i: int| 0 <= i < s.len() && pred(s[i]) ==> #[trigger] s.filter(pred).contains(s[i]),
{
    assert forall|x: A| #[trigger] s.filter(pred).contains(x) implies s.contains(x) && pred(x) by {
        s.lemma_filter_contains_rev(pred, x);
        let k = choose|k: int| 0 <= k < s.filter(pred).len() && s.filter(pred)[k] == x;
        s.lemma_filter_pred(pred, k);
    }
    assert forall|i: int| 0 <= i < s.len() && pred(s[i]) implies #[trigger] s.filter(pred).contains(s[i]) by {
        s.lemma_filter_contains(pred, i);
    }
}

/// Filtering a sequence whose elements have pairwise different keys leaves
/// elements with pairwise different keys.
pub proof fn lemma_filter_keys_distinct<A, K>(s: Seq<A>, pred: spec_fn(A) -> bool, key: spec_fn(A) -> K)
    requires
        forall|i: int, j: int| 0 <= i < j < s.len() ==> key(s[i]) != key(s[j]),
    ensures
        forall|i: int, j: int|
            0 <= i < j < s.filter(pred).len() ==> key(s.filter(pred)[i]) != key(s.filter(pred)[j]),
    decreases s.len(),
{
    reveal(Seq::filter);
    if s.len() > 0 {
        let rest = s.drop_last();
        assert forall|i: int, j: int| 0 <= i < j < rest.len() implies key(rest[i]) != key(rest[j]) by {
            assert(rest[i] == s[i] && rest[j] == s[j]);
        }
        lemma_filter_keys_distinct(rest, pred, key);
        if pred(s.last()) {
            let f = rest.filter(pred);
            lemma_filter_members(rest, pred);
            assert forall|i: int| 0 <= i < f.len() implies key(f[i]) != key(s.last()) by {
                assert(f.contains(f[i]));
                let k = choose|k: int| 0 <= k < rest.len() && rest[k] == f[i];
                assert(rest[k] == s[k]);
            }
        }
    }
}

/// A reply row is about the container (`guild`, `channel`).
pub open spec fn reply_is_for(r: ReplicationReply, guild: i64, channel: i64) -> bool {
    r.guild_id == guild && r.channel_id == channel
}

impl StoreModel {
    /// Some reply row is about (`guild`, `channel`).
    pub open spec fn has_reply(self, guild: i64, channel: i64) -> bool {
        exists|i: int| 0 <= i < self.replies.len() && reply_is_for(#[trigger] self.replies[i], guild, channel)
    }

    /// Every identity key handed out is positive and below `next_id`, and no
    /// key is used twice within a relation or by a channel pair and a forum
    /// pair at once.
    pub open spec fn keys_wf(self) -> bool {
        &&& 1 <= self.next_id <= i64::MAX
        &&& forall|i: int|
            0 <= i < self.channel_pairs.len() ==> 1 <= #[trigger] self.channel_pairs[i].id < self.next_id
        &&& forall|i: int|
            0 <= i < self.forum_pairs.len() ==> 1 <= #[trigger] self.forum_pairs[i].id < self.next_id
        &&& forall|i: int|
            0 <= i < self.thread_pairs.len() ==> 1 <= #[trigger] self.thread_pairs[i].id < self.next_id
        &&& forall|i: int| 0 <= i < self.replies.len() ==> 1 <= #[trigger] self.replies[i].id < self.next_id
        &&& forall|i: int, j: int|
            0 <= i < j < self.channel_pairs.len() ==> self.channel_pairs[i].id != self.channel_pairs[j].id
        &&& forall|i: int, j: int|
            0 <= i < j < self.forum_pairs.len() ==> self.forum_pairs[i].id != self.forum_pairs[j].id
        &&& forall|i: int, j: int|
            0 <= i < j < self.thread_pairs.len() ==> self.thread_pairs[i].id != self.thread_pairs[j].id
        &&& forall|i: int, j: int|
            0 <= i < j < self.replies.len() ==> self.replies[i].id != self.replies[j].id
        &&& forall|i: int, j: int|
            0 <= i < self.channel_pairs.len() && 0 <= j < self.forum_pairs.len()
                ==> self.channel_pairs[i].id != self.forum_pairs[j].id
    }

    /// At most one reply per container.
    pub open spec fn replies_wf(self) -> bool {
        forall|i: int, j: int|
            0 <= i < j < self.replies.len() ==> !reply_is_for(
                self.replies[j],
                self.replies[i].guild_id,
                self.replies[i].channel_id,
            )
    }

    /// Every thread pair has its reverse in the store.
    pub open spec fn thread_pairs_symmetric(self) -> bool {
        links_symmetric(self.thread_pairs)
    }

    pub open spec fn wf(self) -> bool {
        &&& self.keys_wf()
        &&& self.replies_wf()
        &&& self.thread_pairs_symmetric()
    }
}

} // verus!
