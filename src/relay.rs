use vstd::prelude::*;
use crate::model::{
    active_channel_pairs_from, thread_pairs_from, ReplicationPair, ReplicationThreadPair,
    StoreModel,
};
use crate::store::PairingStore;

verus! {

/// The kind of container a message was posted in.
#[derive(Debug, Clone, Copy, PartialEq, Eq, Structural)]
pub enum ContainerKind {
    /// A plain channel, relayed through confirmed channel pairs.
    Channel,
    /// A thread or forum post, relayed through thread pairs.
    Thread,
}

/// A remote container that receives a copy.
#[derive(Debug, Clone, Copy, PartialEq, Eq, Structural)]
pub struct Destination {
    pub guild_id: i64,
    pub channel_id: i64,
}

/// Marker reacted on a relayed message.
#[derive(Debug, Clone, Copy, PartialEq, Eq, Structural)]
pub enum Marker {
    /// Offered on a prompt to accept the pairing.
    Accept,
    /// Offered on a prompt to reject the pairing.
    Reject,
    /// The copy reached its destination.
    Delivered,
    /// The copy could not be sent.
    Failed,
}

/// A message posted in a container of a guild.
#[derive(Debug, Clone)]
pub struct MessageEvent {
    pub guild_id: i64,
    pub channel_id: i64,
    pub kind: ContainerKind,
    pub author_is_bot: bool,
    pub author_name: String,
    pub content: String,
}

/// What to send for a posted message: one text, to each destination.
#[derive(Debug, Clone)]
pub struct RelayPlan {
    pub text: String,
    pub destinations: Vec<Destination>,
}

/// The destination a thread pair leads to.
pub open spec fn thread_destination(p: ReplicationThreadPair) -> Destination {
    Destination { guild_id: p.to_guild, channel_id: p.to_thread }
}

/// The destination a channel pair leads to.
pub open spec fn channel_destination(p: ReplicationPair) -> Destination {
    Destination { guild_id: p.to_guild, channel_id: p.to_channel }
}

/// The relay targets of (`guild`, `channel`): for a thread, the far end of
/// each of its thread pairs; for a plain channel, the far end of each of its
/// confirmed channel pairs; in store order.
pub open spec fn relay_targets(m: StoreModel, guild: i64, channel: i64, kind: ContainerKind) -> Seq<
    Destination,
> {
    match kind {
        ContainerKind::Thread => thread_pairs_from(m.thread_pairs, guild, channel).map_values(
            |p: ReplicationThreadPair| thread_destination(p),
        ),
        ContainerKind::Channel => active_channel_pairs_from(
            m.channel_pairs,
            m.replies,
            guild,
            channel,
        ).map_values(|p: ReplicationPair| channel_destination(p)),
    }
}

/// The text of a relayed copy: the author's name in backquotes, a colon,
/// and the content.
pub open spec fn relay_text_of(author: Seq<char>, content: Seq<char>) -> Seq<char> {
    seq!['`'] + author + seq!['`', ':', ' '] + content
}

/// The remote containers that a message posted in (`guild_id`, `channel_id`)
/// is copied to.
pub fn relay_destinations(store: &PairingStore, guild_id: i64, channel_id: i64, kind: ContainerKind) -> (r:
    Vec<Destination>)
    requires
        store@.wf(),
    ensures
        r@ == relay_targets(store@, guild_id, channel_id, kind),
{
    let mut out: Vec<Destination> = Vec::new();
    match kind {
        ContainerKind::Thread => {
            let rows = match store.get_replication_thread_pairs(guild_id, channel_id) {
                Ok(rows) => rows,
                Err(_) => Vec::new(),
            };
            let mut i: usize = 0;
            while i < rows.len()
                invariant
                    i <= rows@.len(),
                    out@.len() == i,
                    forall|j: int| 0 <= j < i ==> out@[j] == thread_destination(#[trigger] rows@[j]),
                decreases rows@.len() - i,
            {
                let p = rows[i];
                out.push(Destination { guild_id: p.to_guild, channel_id: p.to_thread });
                i += 1;
            }
            assert(out@ =~= rows@.map_values(|p: ReplicationThreadPair| thread_destination(p)));
        },
        ContainerKind::Channel => {
            let rows = match store.get_active_replication_pairs(guild_id, channel_id) {
                Ok(rows) => rows,
                Err(_) => Vec::new(),
            };
            let mut i: usize = 0;
            while i < rows.len()
                invariant
                    i <= rows@.len(),
                    out@.len() == i,
                    forall|j: int| 0 <= j < i ==> out@[j] == channel_destination(#[trigger] rows@[j]),
                decreases rows@.len() - i,
            {
                let p = rows[i];
                out.push(Destination { guild_id: p.to_guild, channel_id: p.to_channel });
                i += 1;
            }
            assert(out@ =~= rows@.map_values(|p: ReplicationPair| channel_destination(p)));
        },
    }
    out
}

/// The text of the copy of a message by `author` reading `content`.
pub fn relay_text(author: &str, content: &str) -> (r: String)
    ensures
        r@ == relay_text_of(author@, content@),
{
    let mut text = String::from_str("`");
    text.append(author);
    text.append("`: ");
    text.append(content);
    proof {
        reveal_strlit("`");
        reveal_strlit("`: ");
        assert(text@ =~= relay_text_of(author@, content@));
    }
    text
}

/// What to do with a posted message: nothing when a bot posted it, else
/// its copy and where to send it.
pub fn plan_relay(store: &PairingStore, event: &MessageEvent) -> (r: Option<RelayPlan>)
    requires
        store@.wf(),
    ensures
        event.author_is_bot ==> r is None,
        !event.author_is_bot ==> r is Some && r->Some_0.text@ == relay_text_of(
            event.author_name@,
            event.content@,
        ) && r->Some_0.destinations@ == relay_targets(
            store@,
            event.guild_id,
            event.channel_id,
            event.kind,
        ),
{
    if event.author_is_bot {
        return None;
    }
    let text = relay_text(event.author_name.as_str(), event.content.as_str());
    let destinations = relay_destinations(store, event.guild_id, event.channel_id, event.kind);
    Some(RelayPlan { text, destinations })
}

/// The marker reacted on a message once sending its copy succeeded or failed.
pub fn delivery_marker(sent: bool) -> (r: Marker)
    ensures
        sent ==> r == Marker::Delivered,
        !sent ==> r == Marker::Failed,
{
    if sent {
        Marker::Delivered
    } else {
        Marker::Failed
    }
}

/// The emoji shown for a marker.
pub open spec fn marker_char(m: Marker) -> char {
    match m {
        Marker::Accept => '\u{1F44D}',
        Marker::Reject => '\u{1F44E}',
        Marker::Delivered => '\u{1F680}',
        Marker::Failed => '\u{1F4A5}',
    }
}

/// The emoji shown for a marker: thumbs up, thumbs down, rocket, collision.
pub fn marker_emoji(m: Marker) -> (r: char)
    ensures
        r == marker_char(m),
{
    match m {
        Marker::Accept => '\u{1F44D}',
        Marker::Reject => '\u{1F44E}',
        Marker::Delivered => '\u{1F680}',
        Marker::Failed => '\u{1F4A5}',
    }
}

} // verus!
