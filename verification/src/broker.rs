//! The live-log broker: a keyed publish/subscribe bus with a bounded
//! backlog per task.
//!
//! Every published line gets the next sequence number of its task's
//! channel; the channel keeps the newest [`BROKER_CAP`] of them.  A
//! subscriber starts at the sequence current when it subscribes, so it
//! receives exactly the lines published afterwards, in publish order; one
//! that falls farther behind than the backlog reaches is disconnected
//! rather than blocking the publisher.

use vstd::prelude::*;
use vstd::string::StrSliceExecFns;
use vstd::string::StringExecFns;
use crate::task::LogMessage;

verus! {

/// Messages kept per task: the newest thousand.
pub const BROKER_CAP: usize = 1000;

/// The mathematical value of one published line.
pub ghost struct LogMessageV {
    pub task_id: int,
    pub log: Seq<char>,
    pub timestamp: Seq<char>,
    pub is_progress: bool,
}

/// The mathematical value of a published line.
pub open spec fn mv(m: LogMessage) -> LogMessageV {
    LogMessageV {
        task_id: m.task_id as int,
        log: m.log@,
        timestamp: m.timestamp@,
        is_progress: m.is_progress,
    }
}

/// The views of a list of messages.
pub open spec fn spec_msg_views(items: Seq<LogMessage>) -> Seq<LogMessageV> {
    items.map_values(|m: LogMessage| mv(m))
}

/// One task's channel: the full publish history as ghost state, the newest
/// messages as the real backlog.
pub struct LogChannel {
    task_id: i64,
    next_seq: u64,
    backlog: Vec<LogMessage>,
    history: Ghost<Seq<LogMessageV>>,
}

impl LogChannel {
    /// The task this channel serves.
    pub closed spec fn spec_task_id(&self) -> int {
        self.task_id as int
    }

    /// Everything ever published on this channel, in publish order.
    pub closed spec fn spec_history(&self) -> Seq<LogMessageV> {
        self.history@
    }

    /// The sequence number the next published line will get.
    pub closed spec fn spec_next_seq(&self) -> int {
        self.next_seq as int
    }

    /// The oldest sequence number still held in the backlog.
    pub open spec fn spec_low(&self) -> int {
        self.spec_next_seq() - self.spec_backlog_len()
    }

    /// How many lines the backlog holds.
    pub closed spec fn spec_backlog_len(&self) -> int {
        self.backlog@.len() as int
    }

    /// Well-formedness: the sequence counts the history, and the backlog
    /// holds exactly the newest published lines — everything, until
    /// [`BROKER_CAP`] lines have been published, and the newest
    /// [`BROKER_CAP`] from then on — all carrying this channel's task id.
    pub open spec fn inv(&self) -> bool {
        &&& self.spec_next_seq() == self.spec_history().len()
        &&& self.spec_next_seq() <= u64::MAX - 1
        &&& self.spec_backlog_len() == (if self.spec_next_seq() <= BROKER_CAP {
            self.spec_next_seq()
        } else {
            BROKER_CAP as int
        })
        &&& self.spec_backlog_view() == self.spec_history().subrange(
            self.spec_low(),
            self.spec_next_seq(),
        )
        &&& forall|i: int|
            0 <= i < self.spec_history().len() ==> (#[trigger] self.spec_history()[i]).task_id
                == self.spec_task_id()
    }

    /// The backlog as mathematical values.
    pub closed spec fn spec_backlog_view(&self) -> Seq<LogMessageV> {
        spec_msg_views(self.backlog@)
    }

    /// A fresh channel for a task: nothing published yet.
    pub fn new(task_id: i64) -> (r: Self)
        ensures
            r.inv(),
            r.spec_task_id() == task_id as int,
            r.spec_next_seq() == 0,
            r.spec_history() == Seq::<LogMessageV>::empty(),
    {
        let r = LogChannel {
            task_id,
            next_seq: 0,
            backlog: Vec::new(),
            history: Ghost(Seq::empty()),
        };
        proof {
            assert(r.spec_backlog_view() =~= Seq::<LogMessageV>::empty());
            assert(r.spec_history().subrange(0, 0) =~= Seq::<LogMessageV>::empty());
        }
        r
    }

    /// Publishes one line: it becomes the newest element of the history and
    /// of the backlog; the backlog grows by one until it reaches
    /// [`BROKER_CAP`] lines and from then on drops exactly its oldest
    /// entry, so every subscriber within the cap still receives the line.
    /// With no room left in the sequence space the line is dropped and
    /// nothing changes.
    pub fn publish(&mut self, log: &str, timestamp: &str, is_progress: bool)
        requires
            old(self).inv(),
        ensures
            final(self).inv(),
            final(self).spec_task_id() == old(self).spec_task_id(),
            old(self).spec_next_seq() < u64::MAX - 1 ==> {
                &&& final(self).spec_history() == old(self).spec_history().push(
                    LogMessageV {
                        task_id: old(self).spec_task_id(),
                        log: log@,
                        timestamp: timestamp@,
                        is_progress: is_progress,
                    },
                )
                &&& final(self).spec_next_seq() == old(self).spec_next_seq() + 1
                &&& final(self).spec_backlog_len() == (if old(self).spec_backlog_len() + 1
                    <= BROKER_CAP {
                    old(self).spec_backlog_len() + 1
                } else {
                    BROKER_CAP as int
                })
            },
            old(self).spec_next_seq() >= u64::MAX - 1 ==> *final(self) == *old(self),
    {
        if self.next_seq >= u64::MAX - 1 {
            return ;
        }
        let m = LogMessage {
            task_id: self.task_id,
            log: log.to_owned(),
            timestamp: timestamp.to_owned(),
            is_progress,
        };
        let ghost m_v = mv(m);
        let ghost pre_backlog = self.spec_backlog_view();
        self.backlog.push(m);
        proof {
            assert(spec_msg_views(self.backlog@) =~= pre_backlog.push(m_v));
        }
        if self.backlog.len() > BROKER_CAP {
            let ghost pre2 = spec_msg_views(self.backlog@);
            self.backlog.remove(0);
            proof {
                assert(spec_msg_views(self.backlog@) =~= pre2.subrange(1, pre2.len() as int));
            }
        }
        self.next_seq = self.next_seq + 1;
        proof {
            self.history@ = old(self).spec_history().push(m_v);
        }
        proof {
            assert(self.spec_backlog_view() =~= self.spec_history().subrange(
                self.spec_low(),
                self.spec_next_seq(),
            ));
        }
    }

    /// Subscribes: the returned cursor is the current sequence, so the
    /// subscriber will see exactly the lines published after this call.
    pub fn subscribe(&self) -> (r: u64)
        requires
            self.inv(),
        ensures
            r as int == self.spec_next_seq(),
    {
        self.next_seq
    }

    /// Drains a subscriber's pending lines.  A subscriber within the
    /// backlog receives exactly the history from its cursor on, in publish
    /// order, and its cursor moves to the present; one that fell behind the
    /// backlog is told so and is expected to disconnect.
    pub fn poll(&self, cursor: u64) -> (r: Result<(Vec<LogMessage>, u64), crate::error::AppError>)
        requires
            self.inv(),
            cursor as int <= self.spec_next_seq(),
        ensures
            match r {
                Ok((msgs, next_cursor)) => {
                    &&& self.spec_low() <= cursor as int
                    &&& spec_msg_views(msgs@) == self.spec_history().subrange(
                        cursor as int,
                        self.spec_next_seq(),
                    )
                    &&& next_cursor as int == self.spec_next_seq()
                },
                Err(e) => {
                    &&& e == crate::error::AppError::Cancelled
                    &&& (cursor as int) < self.spec_low()
                },
            },
    {
        let len = self.backlog.len();
        let low = self.next_seq - (len as u64);
        if cursor < low {
            return Err(crate::error::AppError::Cancelled);
        }
        let start = (cursor - low) as usize;
        let mut out: Vec<LogMessage> = Vec::new();
        let mut i: usize = start;
        proof {
            assert(spec_msg_views(out@) =~= self.spec_backlog_view().subrange(
                start as int,
                start as int,
            ));
        }
        while i < len
            invariant
                self.inv(),
                len == self.backlog@.len(),
                start <= i <= len,
                spec_msg_views(out@) == self.spec_backlog_view().subrange(start as int, i as int),
            decreases len - i,
        {
            let ghost pre = spec_msg_views(out@);
            out.push(self.backlog[i].clone());
            proof {
                assert(spec_msg_views(out@) =~= pre.push(self.spec_backlog_view()[i as int]));
                assert(spec_msg_views(out@) =~= self.spec_backlog_view().subrange(
                    start as int,
                    i + 1,
                ));
            }
            i = i + 1;
        }
        proof {
            assert(self.spec_backlog_view().subrange(start as int, len as int)
                =~= self.spec_history().subrange(cursor as int, self.spec_next_seq()));
        }
        Ok((out, self.next_seq))
    }
}

/// Retention: the backlog reaches back exactly [`BROKER_CAP`] lines (or
/// to the beginning, while fewer were published), so a subscriber whose
/// cursor is within the cap of the head is never disconnected and `poll`
/// hands it every line from its cursor on, in publish order.
pub proof fn lemma_backlog_retention(ch: &LogChannel)
    requires
        ch.inv(),
    ensures
        ch.spec_low() == (if ch.spec_next_seq() <= BROKER_CAP {
            0int
        } else {
            ch.spec_next_seq() - BROKER_CAP
        }),
{
}

/// Everything a subscriber is ever handed was published at or after its
/// subscription point: with `n` lines published before it subscribed, it
/// receives only lines `n` and later, each exactly once and in publish
/// order.  In particular a subscriber arriving late never sees the dropped
/// oldest lines.
pub proof fn lemma_subscriber_sees_only_later(ch: &LogChannel, cursor: int, k: int)
    requires
        ch.inv(),
        0 <= cursor <= ch.spec_next_seq(),
        ch.spec_low() <= cursor,
        0 <= k < ch.spec_next_seq() - cursor,
    ensures
        ch.spec_history().subrange(cursor, ch.spec_next_seq())[k] == ch.spec_history()[cursor + k],
        cursor + k >= cursor,
{
}

/// The history a channel held before a publish; empty when the channel
/// did not exist yet.
pub open spec fn spec_prior_history(pre: Broker, task_id: int) -> Seq<LogMessageV> {
    if pre.spec_has_channel(task_id) {
        pre@[pre.spec_channel_index(task_id)].spec_history()
    } else {
        Seq::<LogMessageV>::empty()
    }
}

/// After `broadcast_log`, the task's channel history is the prior history
/// with the published line appended (as long as sequence space remains).
pub open spec fn spec_broadcast_appends(
    pre: Broker,
    post: Broker,
    task_id: int,
    log: Seq<char>,
    timestamp: Seq<char>,
    is_progress: bool,
) -> bool {
    let ch = post@[post.spec_channel_index(task_id)];
    spec_prior_history(pre, task_id).len() < u64::MAX - 1 ==> ch.spec_history()
        == spec_prior_history(pre, task_id).push(
        LogMessageV { task_id: task_id, log: log, timestamp: timestamp, is_progress: is_progress },
    )
}

/// The broker: one channel per task, created on first use.
pub struct Broker {
    channels: Vec<LogChannel>,
}

impl View for Broker {
    type V = Seq<LogChannel>;

    /// The channels, in creation order.
    closed spec fn view(&self) -> Seq<LogChannel> {
        self.channels@
    }
}

impl Broker {
    /// Well-formedness: each channel is well formed and no two serve the
    /// same task.
    pub open spec fn inv(&self) -> bool {
        &&& forall|i: int| 0 <= i < self@.len() ==> (#[trigger] self@[i]).inv()
        &&& forall|i: int, j: int|
            0 <= i < j < self@.len() ==> self@[i].spec_task_id() != self@[j].spec_task_id()
    }

    /// A channel serving `task_id` exists.
    pub open spec fn spec_has_channel(&self, task_id: int) -> bool {
        exists|i: int| 0 <= i < self@.len() && (#[trigger] self@[i]).spec_task_id() == task_id
    }

    /// The position of the channel serving `task_id`.
    pub open spec fn spec_channel_index(&self, task_id: int) -> int {
        choose|i: int| 0 <= i < self@.len() && (#[trigger] self@[i]).spec_task_id() == task_id
    }

    /// A broker with no channels yet.
    pub fn new() -> (r: Self)
        ensures
            r.inv(),
            r@.len() == 0,
    {
        Broker { channels: Vec::new() }
    }

    /// Position of the channel serving `task_id`, if one exists already.
    fn index_of(&self, task_id: i64) -> (r: Option<usize>)
        requires
            self.inv(),
        ensures
            match r {
                Some(ix) => ix < self@.len() && self@[ix as int].spec_task_id() == task_id as int
                    && self.spec_channel_index(task_id as int) == ix as int,
                None => !self.spec_has_channel(task_id as int),
            },
    {
        let n = self.channels.len();
        let mut i: usize = 0;
        while i < n
            invariant
                self.inv(),
                n == self@.len(),
                i <= n,
                forall|j: int| 0 <= j < i ==> (#[trigger] self@[j]).spec_task_id() != task_id as int,
            decreases n - i,
        {
            if self.channels[i].task_id() == task_id {
                proof {
                    assert(self.spec_has_channel(task_id as int));
                    assert(self.spec_channel_index(task_id as int) == i as int);
                }
                return Some(i);
            }
            i = i + 1;
        }
        None
    }

    /// Makes sure a channel serves `task_id` and returns its position.
    fn get_or_create(&mut self, task_id: i64) -> (r: usize)
        requires
            old(self).inv(),
        ensures
            final(self).inv(),
            r < final(self)@.len(),
            final(self)@[r as int].spec_task_id() == task_id as int,
            old(self).spec_has_channel(task_id as int) ==> final(self)@ == old(self)@ && r as int
                == old(self).spec_channel_index(task_id as int),
            !old(self).spec_has_channel(task_id as int) ==> final(self)@ == old(self)@.push(
                final(self)@[r as int],
            ) && final(self)@[r as int].spec_next_seq() == 0 && final(self)@[r as int].inv(),
    {
        match self.index_of(task_id) {
            Some(ix) => ix,
            None => {
                let ch = LogChannel::new(task_id);
                let r = self.channels.len();
                self.channels.push(ch);
                proof {
                    assert(self@ =~= old(self)@.push(self@[r as int]));
                    assert forall|i: int| 0 <= i < self@.len() implies (
                    #[trigger] self@[i]).inv() by {
                        if i < r as int {
                            assert(self@[i] == old(self)@[i]);
                        }
                    }
                    assert forall|i: int, j: int|
                        0 <= i < j < self@.len() implies self@[i].spec_task_id()
                        != self@[j].spec_task_id() by {
                        if j < r as int {
                            assert(self@[i] == old(self)@[i] && self@[j] == old(self)@[j]);
                        } else {
                            assert(self@[i] == old(self)@[i]);
                            assert(!old(self).spec_has_channel(task_id as int));
                            assert(old(self)@[i].spec_task_id() != task_id as int);
                        }
                    }
                }
                r
            },
        }
    }

    /// Delivers one line to the task's channel, creating the channel on
    /// first sight of the task.  Channels of other tasks are untouched.
    pub fn broadcast_log(&mut self, task_id: i64, log: &str, timestamp: &str, is_progress: bool)
        requires
            old(self).inv(),
        ensures
            final(self).inv(),
            final(self).spec_has_channel(task_id as int),
            spec_broadcast_appends(
                *old(self),
                *final(self),
                task_id as int,
                log@,
                timestamp@,
                is_progress,
            ),
            forall|i: int|
                0 <= i < old(self)@.len() && old(self)@[i].spec_task_id() != task_id as int
                    ==> final(self)@[i] == old(self)@[i],
            old(self).spec_has_channel(task_id as int) ==> final(self)@.len() == old(
                self,
            )@.len(),
            !old(self).spec_has_channel(task_id as int) ==> final(self)@.len() == old(
                self,
            )@.len() + 1,
    {
        let ix = self.get_or_create(task_id);
        let ghost pre = self@;
        let ghost pre_ch = self@[ix as int];
        let ch = &mut self.channels[ix];
        ch.publish(log, timestamp, is_progress);
        proof {
            assert(self@ =~= pre.update(ix as int, self@[ix as int]));
            assert(forall|i: int| 0 <= i < self@.len() && i != ix as int ==> self@[i] == pre[i]);
            assert(self@[ix as int].spec_task_id() == task_id as int);
            assert(self.spec_has_channel(task_id as int));
            assert(self.spec_channel_index(task_id as int) == ix as int) by {
                assert(forall|i: int, j: int|
                    0 <= i < j < self@.len() ==> self@[i].spec_task_id()
                        != self@[j].spec_task_id());
            }
            assert forall|i: int| 0 <= i < self@.len() implies (#[trigger] self@[i]).inv() by {
                if i != ix as int {
                    assert(self@[i] == pre[i]);
                }
            }
            if old(self).spec_has_channel(task_id as int) {
                assert(pre == old(self)@);
                assert(ix as int == old(self).spec_channel_index(task_id as int));
                assert(spec_prior_history(*old(self), task_id as int) == pre_ch.spec_history());
            } else {
                assert(pre_ch.spec_history() == Seq::<LogMessageV>::empty());
                assert(spec_prior_history(*old(self), task_id as int) == Seq::<
                    LogMessageV,
                >::empty());
            }
            assert(pre_ch.spec_next_seq() == spec_prior_history(*old(self), task_id as int).len());
        }
    }

    /// Subscribes to a task's live log, creating the channel when none
    /// exists yet: the cursor points past everything already published.
    pub fn subscribe(&mut self, task_id: i64) -> (r: u64)
        requires
            old(self).inv(),
        ensures
            final(self).inv(),
            final(self).spec_has_channel(task_id as int),
            r as int == final(self)@[final(self).spec_channel_index(task_id as int)].spec_next_seq(),
            forall|i: int|
                0 <= i < old(self)@.len() && old(self)@[i].spec_task_id() != task_id as int
                    ==> final(self)@[i] == old(self)@[i],
            old(self).spec_has_channel(task_id as int) ==> final(self)@ == old(self)@,
    {
        let ix = self.get_or_create(task_id);
        let r = self.channels[ix].subscribe();
        proof {
            assert(self.spec_channel_index(task_id as int) == ix as int);
        }
        r
    }

    /// Drains a subscriber of a task's channel; see [`LogChannel::poll`].
    pub fn poll(&self, task_id: i64, cursor: u64) -> (r: Result<
        (Vec<LogMessage>, u64),
        crate::error::AppError,
    >)
        requires
            self.inv(),
            self.spec_has_channel(task_id as int),
            cursor as int <= self@[self.spec_channel_index(task_id as int)].spec_next_seq(),
        ensures
            ({
                let ch = self@[self.spec_channel_index(task_id as int)];
                match r {
                    Ok((msgs, next_cursor)) => {
                        &&& ch.spec_low() <= cursor as int
                        &&& spec_msg_views(msgs@) == ch.spec_history().subrange(
                            cursor as int,
                            ch.spec_next_seq(),
                        )
                        &&& next_cursor as int == ch.spec_next_seq()
                    },
                    Err(e) => {
                        &&& e == crate::error::AppError::Cancelled
                        &&& (cursor as int) < ch.spec_low()
                    },
                }
            }),
    {
        let ix = match self.index_of(task_id) {
            Some(ix) => ix,
            None => unreached(),
        };
        self.channels[ix].poll(cursor)
    }
}

impl LogChannel {
    /// The task this channel serves, as a value.
    pub fn task_id(&self) -> (r: i64)
        ensures
            r as int == self.spec_task_id(),
    {
        self.task_id
    }
}

} // verus!
