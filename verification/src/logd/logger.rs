//! The logger: a bounded queue per channel that drops its oldest record when
//! full, the protocol that drains it to the log daemon's socket, and the
//! sanitising and formatting of records written to the console.

use crate::logd::{LogEnvelope, LOGD_SOCKET_PATH};
use crate::text::{chars_of, push_str};
use std::collections::VecDeque;
use vstd::prelude::*;

verus! {

/// The queue after `item` is pushed with drop-oldest: when it holds
/// `capacity` items, its oldest item is dropped first.
pub open spec fn pushed_drop_oldest<T>(q: Seq<T>, capacity: nat, item: T) -> Seq<T> {
    (if q.len() == capacity && q.len() > 0 {
        q.drop_first()
    } else {
        q
    }).push(item)
}

/// One item put back at the front; the newest item at the back is dropped
/// when that makes the queue longer than `capacity`.
pub open spec fn pushed_front_trimmed<T>(item: T, q: Seq<T>, capacity: nat) -> Seq<T> {
    let t = seq![item] + q;
    if t.len() > capacity {
        t.drop_last()
    } else {
        t
    }
}

/// The queue after `items` are put back at its front, last item first, each
/// followed by trimming to `capacity`.
pub open spec fn requeued_front<T>(items: Seq<T>, q: Seq<T>, capacity: nat) -> Seq<T>
    decreases items.len(),
{
    if items.len() == 0 {
        q
    } else {
        requeued_front(
            items.drop_last(),
            pushed_front_trimmed(items.last(), q, capacity),
            capacity,
        )
    }
}

/// A queue of positive capacity that holds at most `capacity` items still
/// does after a push with drop-oldest, and the pushed item is its newest.
pub proof fn lemma_push_drop_oldest_bounded<T>(q: Seq<T>, capacity: nat, item: T)
    requires
        capacity > 0,
        q.len() <= capacity,
    ensures
        pushed_drop_oldest(q, capacity, item).len() <= capacity,
        pushed_drop_oldest(q, capacity, item).last() == item,
        pushed_drop_oldest(q, capacity, item).drop_last() == (if q.len() == capacity {
            q.drop_first()
        } else {
            q
        }),
{
    let r = pushed_drop_oldest(q, capacity, item);
    if q.len() == capacity {
        assert(r.drop_last() =~= q.drop_first());
    } else {
        assert(r.drop_last() =~= q);
    }
}

/// Putting a batch back at the front of a queue that holds at most
/// `capacity` items gives the first `capacity` items of the batch followed
/// by the queue: nothing of the batch is reordered, and only the newest
/// items are dropped.
pub proof fn lemma_requeue_keeps_front<T>(items: Seq<T>, q: Seq<T>, capacity: nat)
    requires
        q.len() <= capacity,
    ensures
        requeued_front(items, q, capacity) == (items + q).take(
            if items.len() + q.len() <= capacity {
                (items.len() + q.len()) as int
            } else {
                capacity as int
            },
        ),
    decreases items.len(),
{
    if items.len() == 0 {
        assert((items + q).take(q.len() as int) =~= q);
    } else {
        let x = items.last();
        let rest = items.drop_last();
        let t = pushed_front_trimmed(x, q, capacity);
        let whole = seq![x] + q;
        assert(t.len() <= capacity);
        lemma_requeue_keeps_front(rest, t, capacity);
        assert(items =~= rest.push(x));
        if whole.len() > capacity {
            assert(t =~= whole.take(capacity as int));
            let m = capacity as int;
            assert((rest + t).take(m) =~= (items + q).take(m));
        } else {
            assert(rest + t =~= items + q);
        }
    }
}

/// A FIFO queue that never grows past its capacity (for a capacity of at
/// least one): pushing into a full queue drops the oldest item.
pub struct BoundedQueue<T> {
    inner: VecDeque<T>,
    capacity: usize,
}

impl<T> View for BoundedQueue<T> {
    type V = Seq<T>;

    /// The queued items, oldest first.
    closed spec fn view(&self) -> Seq<T> {
        self.inner@
    }
}

impl<T> BoundedQueue<T> {
    /// The capacity the queue was made with.
    pub closed spec fn cap(&self) -> nat {
        self.capacity as nat
    }

    /// A queue of positive capacity holds at most `capacity` items.
    pub open spec fn wf(&self) -> bool {
        self.cap() == 0 || self@.len() <= self.cap()
    }

    /// An empty queue that keeps at most `capacity` items.
    pub fn new(capacity: usize) -> (q: Self)
        ensures
            q.wf(),
            q@ == Seq::<T>::empty(),
            q.cap() == capacity,
    {
        BoundedQueue { inner: VecDeque::with_capacity(capacity), capacity }
    }

    /// The number of queued items.
    pub fn len(&self) -> (n: usize)
        ensures
            n == self@.len(),
    {
        self.inner.len()
    }

    /// The capacity the queue was made with.
    pub fn capacity(&self) -> (c: usize)
        ensures
            c == self.cap(),
    {
        self.capacity
    }

    /// Appends `item`, first dropping the oldest item when the queue is full.
    pub fn push_drop_oldest(&mut self, item: T)
        ensures
            final(self).cap() == old(self).cap(),
            final(self)@ == pushed_drop_oldest(old(self)@, old(self).cap(), item),
            old(self).wf() ==> final(self).wf(),
    {
        if self.inner.len() == self.capacity {
            let _ = self.inner.pop_front();
        }
        self.inner.push_back(item);
        proof {
            if old(self).wf() && old(self).cap() > 0 {
                lemma_push_drop_oldest_bounded(old(self)@, old(self).cap(), item);
            }
            if old(self)@.len() == old(self).cap() && old(self)@.len() > 0 {
                assert(self.inner@ =~= old(self)@.drop_first().push(item));
            } else {
                assert(self.inner@ =~= old(self)@.push(item));
            }
        }
    }

    /// Takes every queued item, oldest first, leaving the queue empty.
    pub fn drain(&mut self) -> (items: Vec<T>)
        ensures
            final(self).cap() == old(self).cap(),
            final(self)@ == Seq::<T>::empty(),
            final(self).wf(),
            items@ == old(self)@,
    {
        let mut items: Vec<T> = Vec::new();
        let ghost all = self.inner@;
        while self.inner.len() > 0
            invariant
                all == items@ + self.inner@,
                self.capacity == old(self).capacity,
            decreases self.inner@.len(),
        {
            let item = self.inner.pop_front().unwrap();
            items.push(item);
            assert(all =~= items@ + self.inner@);
        }
        assert(items@ =~= all);
        items
    }

    /// Puts `items` back at the front of the queue, keeping their order, so
    /// they are taken again first; items past the capacity are dropped from
    /// the back.
    pub fn push_front_batch(&mut self, items: Vec<T>)
        ensures
            final(self).cap() == old(self).cap(),
            final(self)@ == requeued_front(items@, old(self)@, old(self).cap()),
            old(self).wf() ==> final(self).wf(),
    {
        proof {
            if old(self).wf() && old(self).cap() > 0 {
                lemma_requeue_keeps_front(items@, old(self)@, old(self).cap());
            }
        }
        let mut items = items;
        if items.len() == 0 {
            return;
        }
        let ghost target = requeued_front(items@, self.inner@, self.capacity as nat);
        while items.len() > 0
            invariant
                requeued_front(items@, self.inner@, self.capacity as nat) == target,
                self.capacity == old(self).capacity,
            decreases items@.len(),
        {
            let ghost before = items@;
            let item = items.pop().unwrap();
            let ghost q0 = self.inner@;
            self.inner.push_front(item);
            if self.inner.len() > self.capacity {
                let _ = self.inner.pop_back();
            }
            proof {
                assert(items@ == before.drop_last());
                let t = seq![item] + q0;
                if t.len() > self.capacity {
                    assert(self.inner@ =~= t.drop_last());
                } else {
                    assert(self.inner@ =~= t);
                }
            }
        }
    }
}


/// The number of records a channel queue keeps.
pub const QUEUE_CAPACITY: usize = 8192;

/// Logical channels of the logger.
#[derive(Clone, Copy, Debug, PartialEq, Eq, Hash)]
pub enum Ch {
    /// The log daemon.
    Logd,
}

impl Ch {
    /// The Unix socket that records of this channel are sent to.
    pub fn socket_path(self) -> (p: &'static str)
        ensures
            p@ == LOGD_SOCKET_PATH@,
    {
        match self {
            Ch::Logd => LOGD_SOCKET_PATH,
        }
    }
}

/// What draining a channel reports.
#[derive(Clone, Copy, Debug, PartialEq, Eq)]
pub enum DrainState {
    /// No work is left.
    Idle,
    /// Records were put back and the channel should be drained again.
    Pending,
}

/// What the draining side observed since the last step.
#[derive(Clone, Copy, Debug, PartialEq, Eq)]
pub enum DrainEvent {
    /// The queue was drained into a batch of `count` records.
    Taken { count: usize },
    /// A connection attempt to the channel's socket ended.
    Connected { ok: bool },
    /// The record at the cursor could not be encoded and is dropped.
    EncodeFailed,
    /// Sending the record at the cursor ended.
    Sent { ok: bool },
}

/// What the draining side is to do next.
#[derive(Clone, Copy, Debug, PartialEq, Eq)]
pub enum DrainAction {
    /// Stop draining and report this state.
    Finish { state: DrainState },
    /// Connect the channel's socket.
    Connect,
    /// Print, encode and send record `index` of the batch.
    Send { index: usize },
    /// Put records `from..` of the batch back at the front of the queue,
    /// wait briefly, and report `DrainState::Pending`.
    Requeue { from: usize },
}

/// Where the draining of a channel stands.
#[derive(Clone, Copy, Debug, PartialEq, Eq)]
pub struct DrainCursor {
    /// Whether the channel's socket is connected.
    pub connected: bool,
    /// The size of the batch being sent.
    pub count: usize,
    /// The index of the next record of the batch to handle.
    pub next: usize,
}

/// The cursor and action after the record at the cursor was handled
/// (sent, or dropped because it could not be encoded).
pub open spec fn advanced(c: DrainCursor) -> (DrainCursor, DrainAction) {
    let next = c.next + 1;
    let c2 = DrainCursor { connected: c.connected, count: c.count, next: next as usize };
    if next >= c.count {
        (c2, DrainAction::Finish { state: DrainState::Idle })
    } else {
        (c2, DrainAction::Send { index: next as usize })
    }
}

/// The drain protocol of a channel: the cursor and action that follow an
/// event.
pub open spec fn drain_transition(c: DrainCursor, e: DrainEvent) -> (DrainCursor, DrainAction) {
    match e {
        DrainEvent::Taken { count } => {
            let c2 = DrainCursor { connected: c.connected, count, next: 0 };
            if count == 0 {
                (c2, DrainAction::Finish { state: DrainState::Idle })
            } else if !c.connected {
                (c2, DrainAction::Connect)
            } else {
                (c2, DrainAction::Send { index: 0 })
            }
        },
        DrainEvent::Connected { ok } => {
            if ok {
                (
                    DrainCursor { connected: true, count: c.count, next: c.next },
                    if c.next < c.count {
                        DrainAction::Send { index: c.next }
                    } else {
                        DrainAction::Finish { state: DrainState::Idle }
                    },
                )
            } else {
                (
                    DrainCursor { connected: false, count: c.count, next: c.next },
                    DrainAction::Requeue { from: c.next },
                )
            }
        },
        DrainEvent::EncodeFailed => {
            if c.next < c.count {
                advanced(c)
            } else {
                (c, DrainAction::Finish { state: DrainState::Idle })
            }
        },
        DrainEvent::Sent { ok } => {
            if c.next >= c.count {
                (c, DrainAction::Finish { state: DrainState::Idle })
            } else if ok {
                advanced(c)
            } else {
                (
                    DrainCursor { connected: false, count: c.count, next: c.next },
                    DrainAction::Requeue { from: c.next },
                )
            }
        },
    }
}

impl DrainCursor {
    /// A cursor for a channel whose socket is or is not yet connected.
    pub fn new(connected: bool) -> (c: DrainCursor)
        ensures
            c == (DrainCursor { connected, count: 0, next: 0 }),
    {
        DrainCursor { connected, count: 0, next: 0 }
    }

    /// Advances the drain protocol by one event and returns what to do next.
    ///
    /// A batch is sent in order once the socket is connected; a failed
    /// connection puts the whole batch back, and a failed send marks the
    /// socket disconnected and puts back the failed record and every record
    /// after it. The channel reports `Idle` only when the batch was empty or
    /// every record of it was handled.
    pub fn step(&mut self, event: DrainEvent) -> (action: DrainAction)
        ensures
            (*final(self), action) == drain_transition(*old(self), event),
    {
        match event {
            DrainEvent::Taken { count } => {
                self.count = count;
                self.next = 0;
                if count == 0 {
                    DrainAction::Finish { state: DrainState::Idle }
                } else if !self.connected {
                    DrainAction::Connect
                } else {
                    DrainAction::Send { index: 0 }
                }
            },
            DrainEvent::Connected { ok } => {
                if ok {
                    self.connected = true;
                    if self.next < self.count {
                        DrainAction::Send { index: self.next }
                    } else {
                        DrainAction::Finish { state: DrainState::Idle }
                    }
                } else {
                    self.connected = false;
                    DrainAction::Requeue { from: self.next }
                }
            },
            DrainEvent::EncodeFailed => {
                if self.next < self.count {
                    self.advance()
                } else {
                    DrainAction::Finish { state: DrainState::Idle }
                }
            },
            DrainEvent::Sent { ok } => {
                if self.next >= self.count {
                    DrainAction::Finish { state: DrainState::Idle }
                } else if ok {
                    self.advance()
                } else {
                    self.connected = false;
                    DrainAction::Requeue { from: self.next }
                }
            },
        }
    }

    /// Moves past the record at the cursor.
    fn advance(&mut self) -> (action: DrainAction)
        requires
            old(self).next < old(self).count,
        ensures
            (*final(self), action) == advanced(*old(self)),
    {
        self.next = self.next + 1;
        if self.next >= self.count {
            DrainAction::Finish { state: DrainState::Idle }
        } else {
            DrainAction::Send { index: self.next }
        }
    }
}

/// The drain protocol never reports `Idle` with records of the batch left
/// unhandled, and a requeue always starts at the record that was not sent.
pub proof fn lemma_drain_idle_only_when_done(c: DrainCursor, e: DrainEvent)
    requires
        c.next <= c.count,
    ensures
        ({
            let (c2, a) = drain_transition(c, e);
            &&& a == (DrainAction::Finish { state: DrainState::Idle }) ==> c2.next >= c2.count
            &&& a matches DrainAction::Requeue { from } ==> from == c.next && !c2.connected
            &&& a matches DrainAction::Send { index } ==> index == c2.next && index < c2.count
            &&& c2.next <= c2.count
        }),
{
}

/// A send settles the record at the cursor and nothing else: a successful
/// send moves the cursor past exactly that record, keeping the socket's
/// state; a failed send, whether or not the record is the last of the
/// batch, marks the socket disconnected, keeps the cursor, and puts that
/// record and every later one back, so a failed send is never reported
/// `Idle`.
pub proof fn lemma_send_settles_one_record(c: DrainCursor, ok: bool)
    requires
        c.next < c.count,
    ensures
        ({
            let (c2, a) = drain_transition(c, DrainEvent::Sent { ok });
            &&& c2.count == c.count
            &&& ok ==> c2.next == c.next + 1 && c2.connected == c.connected
            &&& ok ==> (a == DrainAction::Finish { state: DrainState::Idle } <==> c.next + 1
                == c.count)
            &&& !ok ==> c2.next == c.next && !c2.connected && a == (DrainAction::Requeue {
                from: c.next,
            })
        }),
{
}

/// A new batch starts at its first record: an empty batch is `Idle` at
/// once; otherwise the socket is connected first where it is not, and the
/// first record is sent where it is. A failed connection keeps the cursor
/// and puts the whole unsent rest back; a successful one sends the record at
/// the cursor, or reports `Idle` where none is left.
pub proof fn lemma_batch_start_and_connect(c: DrainCursor, count: usize, ok: bool)
    requires
        c.next <= c.count,
    ensures
        ({
            let (c2, a) = drain_transition(c, DrainEvent::Taken { count });
            &&& c2.next == 0 && c2.count == count && c2.connected == c.connected
            &&& count == 0 ==> a == DrainAction::Finish { state: DrainState::Idle }
            &&& count > 0 && !c.connected ==> a == DrainAction::Connect
            &&& count > 0 && c.connected ==> a == (DrainAction::Send { index: 0 })
        }),
        ({
            let (c2, a) = drain_transition(c, DrainEvent::Connected { ok });
            &&& c2.next == c.next && c2.count == c.count && c2.connected == ok
            &&& !ok ==> a == (DrainAction::Requeue { from: c.next })
            &&& ok && c.next < c.count ==> a == (DrainAction::Send { index: c.next })
            &&& ok && c.next == c.count ==> a == DrainAction::Finish { state: DrainState::Idle }
        }),
{
}

/// Puts the records `from..` of `batch` back at the front of `q`: the
/// records a failed connection or send left unsent.
pub fn requeue_from<T>(q: &mut BoundedQueue<T>, batch: Vec<T>, from: usize)
    requires
        from <= batch@.len(),
    ensures
        final(q).cap() == old(q).cap(),
        final(q)@ == requeued_front(batch@.skip(from as int), old(q)@, old(q).cap()),
        old(q).wf() ==> final(q).wf(),
{
    let mut batch = batch;
    let rest = batch.split_off(from);
    q.push_front_batch(rest);
}


/// The characters a single character is written as in console output:
/// a line feed as `\n` and a carriage return as `\r`, both as two visible
/// characters; every other character as itself.
pub open spec fn escaped_char(c: char) -> Seq<char> {
    if c == '\n' {
        seq!['\\', 'n']
    } else if c == '\r' {
        seq!['\\', 'r']
    } else {
        seq![c]
    }
}

/// `s` with every line feed and carriage return replaced by its visible
/// escape sequence.
pub open spec fn sanitized(s: Seq<char>) -> Seq<char>
    decreases s.len(),
{
    if s.len() == 0 {
        Seq::empty()
    } else {
        sanitized(s.drop_last()) + escaped_char(s.last())
    }
}

/// A sanitized message holds no line feed or carriage return, so it cannot
/// forge further lines of a log.
pub proof fn lemma_sanitized_single_line(s: Seq<char>)
    ensures
        !sanitized(s).contains('\n'),
        !sanitized(s).contains('\r'),
    decreases s.len(),
{
    if s.len() > 0 {
        lemma_sanitized_single_line(s.drop_last());
        let a = sanitized(s.drop_last());
        let b = escaped_char(s.last());
        assert(sanitized(s) == a + b);
        assert forall|i: int| 0 <= i < (a + b).len() implies (a + b)[i] != '\n' && (a + b)[i]
            != '\r' by {
            if i < a.len() {
                assert((a + b)[i] == a[i]);
                assert(a.contains(a[i]));
            } else {
                assert((a + b)[i] == b[i - a.len()]);
            }
        }
    }
}

/// A message with no line feed or carriage return is left unchanged.
pub proof fn lemma_sanitize_clean_identity(s: Seq<char>)
    requires
        !s.contains('\n'),
        !s.contains('\r'),
    ensures
        sanitized(s) == s,
    decreases s.len(),
{
    if s.len() > 0 {
        assert(!s.drop_last().contains('\n') && !s.drop_last().contains('\r')) by {
            if s.drop_last().contains('\n') {
                let i = choose|i: int| 0 <= i < s.drop_last().len() && s.drop_last()[i] == '\n';
                assert(s[i] == '\n');
            }
            if s.drop_last().contains('\r') {
                let i = choose|i: int| 0 <= i < s.drop_last().len() && s.drop_last()[i] == '\r';
                assert(s[i] == '\r');
            }
        }
        lemma_sanitize_clean_identity(s.drop_last());
        assert(s[s.len() - 1] != '\n' && s[s.len() - 1] != '\r');
        assert(sanitized(s) =~= s);
    }
}

/// Appends `msg` to `out` with line feeds and carriage returns escaped.
fn push_sanitized(out: &mut String, msg: &str)
    ensures
        final(out)@ == old(out)@ + sanitized(msg@),
{
    let chars = chars_of(msg);
    let mut i: usize = 0;
    while i < chars.len()
        invariant
            0 <= i <= chars@.len(),
            chars@ == msg@,
            out@ == old(out)@ + sanitized(chars@.take(i as int)),
        decreases chars@.len() - i,
    {
        let c = chars[i];
        if c == '\n' {
            out.push('\\');
            out.push('n');
        } else if c == '\r' {
            out.push('\\');
            out.push('r');
        } else {
            out.push(c);
        }
        assert(chars@.take(i + 1).drop_last() =~= chars@.take(i as int));
        i = i + 1;
        assert(out@ =~= old(out)@ + sanitized(chars@.take(i as int)));
    }
    assert(chars@.take(chars@.len() as int) =~= msg@);
}

/// Sanitizes a log message: every line feed becomes the two characters `\n`
/// and every carriage return the two characters `\r`, so that no message
/// can forge extra lines in the log.
pub fn sanitize_log_message(msg: &str) -> (out: String)
    ensures
        out@ == sanitized(msg@),
{
    let mut out = String::new();
    push_sanitized(&mut out, msg);
    out
}

/// The one-letter label of a severity level.
pub open spec fn level_label(level: i32) -> Seq<char> {
    if level == 1 {
        seq!['V']
    } else if level == 2 {
        seq!['D']
    } else if level == 3 {
        seq!['I']
    } else if level == 4 {
        seq!['W']
    } else if level == 5 {
        seq!['E']
    } else if level == 6 {
        seq!['F']
    } else {
        seq!['?']
    }
}

/// The one-letter label of a severity level: V, D, I, W, E, F for 1 to 6,
/// and `?` for any other value.
pub fn level_letter(level: i32) -> (c: char)
    ensures
        seq![c] == level_label(level),
{
    if level == 1 {
        'V'
    } else if level == 2 {
        'D'
    } else if level == 3 {
        'I'
    } else if level == 4 {
        'W'
    } else if level == 5 {
        'E'
    } else if level == 6 {
        'F'
    } else {
        '?'
    }
}

/// `s` padded on the right with spaces to at least `width` characters.
pub open spec fn padded_right(s: Seq<char>, width: nat) -> Seq<char> {
    if s.len() >= width {
        s
    } else {
        s + Seq::new((width - s.len()) as nat, |i: int| ' ')
    }
}

/// Appends `fill` spaces to `out`.
fn push_spaces(out: &mut String, fill: usize)
    ensures
        final(out)@ == old(out)@ + Seq::new(fill as nat, |i: int| ' '),
{
    let mut k: usize = 0;
    while k < fill
        invariant
            0 <= k <= fill,
            out@ == old(out)@ + Seq::new(k as nat, |i: int| ' '),
        decreases fill - k,
    {
        out.push(' ');
        k = k + 1;
        assert(out@ =~= old(out)@ + Seq::new(k as nat, |i: int| ' '));
    }
}

/// Appends `chars` to `out`, then spaces up to `width` characters in all.
fn push_padded(out: &mut String, chars: &Vec<char>, width: usize)
    ensures
        final(out)@ == old(out)@ + padded_right(chars@, width as nat),
{
    let mut i: usize = 0;
    while i < chars.len()
        invariant
            0 <= i <= chars@.len(),
            out@ == old(out)@ + chars@.take(i as int),
        decreases chars@.len() - i,
    {
        out.push(chars[i]);
        i = i + 1;
        assert(out@ =~= old(out)@ + chars@.take(i as int));
    }
    assert(chars@.take(chars@.len() as int) =~= chars@);
    if chars.len() < width {
        push_spaces(out, width - chars.len());
    }
    assert(out@ =~= old(out)@ + padded_right(chars@, width as nat));
}

/// The characters of `s`, with line feeds and carriage returns escaped.
fn sanitized_chars(s: &str) -> (v: Vec<char>)
    ensures
        v@ == sanitized(s@),
{
    let t = sanitize_log_message(s);
    chars_of(t.as_str())
}

/// The column separator of console log lines.
pub open spec fn column_separator() -> Seq<char> {
    seq![' ', '\u{2502}', ' ']
}

/// The console line of a record whose time was formatted as `time`: the
/// time padded to 24 characters, the level letter padded to 2, the
/// sanitized tag padded to 30, and the sanitized message, separated by
/// ` │ `.
pub open spec fn console_line(time: Seq<char>, env: LogEnvelope) -> Seq<char> {
    padded_right(time, 24) + column_separator() + padded_right(level_label(env.level), 2)
        + column_separator() + padded_right(sanitized(env.tag@), 30) + column_separator()
        + sanitized(env.message@)
}

/// The line a record is printed as on standard output, given its time as
/// the local date and time text.
pub fn format_log_line(time: &str, env: &LogEnvelope) -> (line: String)
    ensures
        line@ == console_line(time@, *env),
{
    let mut out = String::new();
    let time_chars = chars_of(time);
    push_padded(&mut out, &time_chars, 24);
    let ghost a = out@;
    push_str(&mut out, " \u{2502} ");
    proof {
        reveal_strlit(" \u{2502} ");
    }
    let mut level: Vec<char> = Vec::new();
    level.push(level_letter(env.level));
    push_padded(&mut out, &level, 2);
    push_str(&mut out, " \u{2502} ");
    let tag = sanitized_chars(env.tag.as_str());
    push_padded(&mut out, &tag, 30);
    push_str(&mut out, " \u{2502} ");
    push_sanitized(&mut out, env.message.as_str());
    assert(out@ =~= console_line(time@, *env));
    out
}

/// A character of a formatted date and time: a digit, `-`, `:`, `.` or a
/// space.
pub open spec fn is_time_char(c: char) -> bool {
    ('0' <= c && c <= '9') || c == '-' || c == ':' || c == '.' || c == ' '
}

/// Neither a line feed nor a carriage return occurs in `s`.
pub open spec fn single_line(s: Seq<char>) -> bool {
    forall|i: int| 0 <= i < s.len() ==> #[trigger] s[i] != '\n' && s[i] != '\r'
}

proof fn lemma_single_line_concat(a: Seq<char>, b: Seq<char>)
    requires
        single_line(a),
        single_line(b),
    ensures
        single_line(a + b),
{
    assert forall|i: int| 0 <= i < (a + b).len() implies #[trigger] (a + b)[i] != '\n' && (a
        + b)[i] != '\r' by {
        if i < a.len() {
            assert((a + b)[i] == a[i]);
        } else {
            assert((a + b)[i] == b[i - a.len()]);
        }
    }
}

proof fn lemma_single_line_padded(s: Seq<char>, width: nat)
    requires
        single_line(s),
    ensures
        single_line(padded_right(s, width)),
{
    if s.len() < width {
        let fill = Seq::new((width - s.len()) as nat, |i: int| ' ');
        assert(single_line(fill));
        lemma_single_line_concat(s, fill);
    }
}

proof fn lemma_single_line_sanitized(s: Seq<char>)
    ensures
        single_line(sanitized(s)),
{
    lemma_sanitized_single_line(s);
    let t = sanitized(s);
    assert forall|i: int| 0 <= i < t.len() implies #[trigger] t[i] != '\n' && t[i] != '\r' by {
        assert(t.contains(t[i]));
    }
}

/// A record's console line is one line wherever its time text is: the tag
/// and the message are escaped, and nothing else holds a line break.
pub proof fn lemma_console_line_single_line(time: Seq<char>, env: LogEnvelope)
    requires
        single_line(time),
    ensures
        !console_line(time, env).contains('\n'),
        !console_line(time, env).contains('\r'),
{
    let sep = column_separator();
    let label = level_label(env.level);
    assert(single_line(sep));
    assert(single_line(label));
    lemma_single_line_padded(time, 24);
    lemma_single_line_padded(label, 2);
    lemma_single_line_sanitized(env.tag@);
    lemma_single_line_sanitized(env.message@);
    lemma_single_line_padded(sanitized(env.tag@), 30);
    let p1 = padded_right(time, 24);
    let p2 = padded_right(label, 2);
    let p3 = padded_right(sanitized(env.tag@), 30);
    let m = sanitized(env.message@);
    lemma_single_line_concat(p1, sep);
    lemma_single_line_concat(p1 + sep, p2);
    lemma_single_line_concat(p1 + sep + p2, sep);
    lemma_single_line_concat(p1 + sep + p2 + sep, p3);
    lemma_single_line_concat(p1 + sep + p2 + sep + p3, sep);
    lemma_single_line_concat(p1 + sep + p2 + sep + p3 + sep, m);
    let line = console_line(time, env);
    assert(single_line(line));
    if line.contains('\n') {
        let i = choose|i: int| 0 <= i < line.len() && line[i] == '\n';
        assert(line[i] != '\n');
    }
    if line.contains('\r') {
        let i = choose|i: int| 0 <= i < line.len() && line[i] == '\r';
        assert(line[i] != '\r');
    }
}

/// Whether `y` is a leap year of the Gregorian calendar.
pub open spec fn is_leap_year(y: int) -> bool {
    y % 4 == 0 && (y % 100 != 0 || y % 400 == 0)
}

/// The number of days of the year `y`.
pub open spec fn year_days(y: int) -> int {
    if is_leap_year(y) {
        366
    } else {
        365
    }
}

/// The number of days of month `m` (1 to 12) of year `y`.
pub open spec fn month_days(y: int, m: int) -> int {
    if m == 2 {
        if is_leap_year(y) {
            29
        } else {
            28
        }
    } else if m == 4 || m == 6 || m == 9 || m == 11 {
        30
    } else {
        31
    }
}

/// The days of year `y` before the first of month `m`.
pub open spec fn days_before_month(y: int, m: int) -> int
    decreases m,
{
    if m <= 1 {
        0
    } else {
        days_before_month(y, m - 1) + month_days(y, m - 1)
    }
}

/// The days from 1 January 1970 to 1 January of year `y` (negative before
/// 1970).
pub open spec fn days_to_year(y: int) -> int
    decreases (if y >= 1970 {
        y - 1970
    } else {
        1970 - y
    }),
{
    if y == 1970 {
        0
    } else if y > 1970 {
        days_to_year(y - 1) + year_days(y - 1)
    } else {
        days_to_year(y + 1) - year_days(y)
    }
}

/// The character of a decimal digit.
pub open spec fn digit_char(n: int) -> char {
    if n == 0 {
        '0'
    } else if n == 1 {
        '1'
    } else if n == 2 {
        '2'
    } else if n == 3 {
        '3'
    } else if n == 4 {
        '4'
    } else if n == 5 {
        '5'
    } else if n == 6 {
        '6'
    } else if n == 7 {
        '7'
    } else if n == 8 {
        '8'
    } else {
        '9'
    }
}

/// The last `width` decimal digits of `n`, with leading zeros.
pub open spec fn digits(n: nat, width: nat) -> Seq<char>
    decreases width,
{
    if width == 0 {
        Seq::empty()
    } else {
        digits(n / 10, (width - 1) as nat).push(digit_char((n % 10) as int))
    }
}

/// `YYYY-MM-DD hh:mm:ss.mmm`.
pub open spec fn date_time_text(y: nat, mo: nat, d: nat, h: nat, mi: nat, sec: nat, ms: nat) -> Seq<
    char,
> {
    digits(y, 4) + seq!['-'] + digits(mo, 2) + seq!['-'] + digits(d, 2) + seq![' '] + digits(h, 2)
        + seq![':'] + digits(mi, 2) + seq![':'] + digits(sec, 2) + seq!['.'] + digits(ms, 3)
}

/// `time` is the calendar date and time of the instant `ts_ns` nanoseconds
/// after the Unix epoch, shifted by a time zone offset of less than a day,
/// with the milliseconds of the instant: the local date and time of the
/// instant wherever the machine is.
pub open spec fn local_time_of(time: Seq<char>, ts_ns: u64) -> bool {
    exists|y: nat, mo: nat, d: nat, h: nat, mi: nat, sec: nat, off: int|
        #![trigger date_time_text(y, mo, d, h, mi, sec, (ts_ns as nat / 1_000_000) % 1000), ts_ns as int / 1_000_000_000 + off]
        -86400 < off < 86400 && 1 <= mo <= 12 && 1 <= d <= month_days(y as int, mo as int) && h < 24
            && mi < 60 && sec < 60 && (days_to_year(y as int) + days_before_month(y as int, mo as int)
            + d - 1) * 86400 + h * 3600 + mi * 60 + sec == ts_ns as int / 1_000_000_000 + off
            && time == date_time_text(y, mo, d, h, mi, sec, (ts_ns as nat / 1_000_000) % 1000)
}

/// Calls `chrono` to format the instant `ts_ns` nanoseconds after the Unix
/// epoch in the local time zone as `%Y-%m-%d %H:%M:%S%.3f`. Claimed: the text
/// is the calendar date and time of the instant under some offset of less
/// than a day (chrono's `FixedOffset` bound), with its milliseconds; it is 23
/// characters long (a four-digit year, since a `u64` of nanoseconds reaches
/// only the year 2554), each a digit, `-`, `:`, `.` or a space, as that
/// format writes them. Which offset applies depends on the machine's time
/// zone and is left unsaid.
#[verifier::external_body]
fn local_time_text(ts_ns: u64) -> (s: String)
    ensures
        local_time_of(s@, ts_ns),
        s@.len() == 23,
        forall|i: int| 0 <= i < s@.len() ==> is_time_char(#[trigger] s@[i]),
{
    let sys_time = std::time::UNIX_EPOCH + std::time::Duration::from_nanos(ts_ns);
    let local: chrono::DateTime<chrono::Local> = chrono::DateTime::from(sys_time);
    local.format("%Y-%m-%d %H:%M:%S%.3f").to_string()
}

/// The line a record is printed as on standard output: the record's own
/// date and time in the local time zone (23 characters of digits, `-`, `:`,
/// `.` and spaces), level letter, sanitized tag and message; it holds no
/// line break.
pub fn stdout_line(env: &LogEnvelope) -> (line: String)
    ensures
        exists|time: Seq<char>|
            local_time_of(time, env.ts_real_ns) && time.len() == 23 && (forall|i: int|
                0 <= i < time.len() ==> is_time_char(#[trigger] time[i])) && line@ == console_line(
                time,
                *env,
            ),
        !line@.contains('\n'),
        !line@.contains('\r'),
{
    let time = local_time_text(env.ts_real_ns);
    let line = format_log_line(time.as_str(), env);
    proof {
        assert(single_line(time@));
        lemma_console_line_single_line(time@, *env);
    }
    assert(local_time_of(time@, env.ts_real_ns) && time@.len() == 23 && (forall|i: int|
        0 <= i < time@.len() ==> is_time_char(#[trigger] time@[i])) && line@ == console_line(
        time@,
        *env,
    ));
    line
}

/// Nanoseconds since the Unix epoch of a `timespec` reading.
pub fn timespec_to_ns(tv_sec: u64, tv_nsec: u64) -> (ns: u64)
    requires
        tv_sec * 1_000_000_000 + tv_nsec <= u64::MAX,
    ensures
        ns == tv_sec * 1_000_000_000 + tv_nsec,
{
    tv_sec * 1_000_000_000u64 + tv_nsec
}

/// Why a record could not be queued.
#[derive(Clone, Copy, Debug, PartialEq, Eq)]
pub enum LoggerError {
    /// The logger was never initialized.
    NotInitialized,
    /// The worker that drains the queues is gone.
    WorkerNotRunning,
}

impl LoggerError {
    /// The error text.
    pub fn message(&self) -> (m: &'static str)
        ensures
            *self == LoggerError::NotInitialized ==> m@ == "logger not initialized"@,
            *self == LoggerError::WorkerNotRunning ==> m@ == "logger worker not running"@,
    {
        match self {
            LoggerError::NotInitialized => "logger not initialized",
            LoggerError::WorkerNotRunning => "logger worker not running",
        }
    }
}

/// How waking the worker after a record was queued went.
#[derive(Clone, Copy, Debug, PartialEq, Eq)]
pub enum NotifyOutcome {
    /// The wake-up was delivered.
    Sent,
    /// A wake-up is already pending.
    Full,
    /// The worker's receiving end is closed.
    Closed,
}

/// The outcome of queuing a record, from how waking the worker went: a
/// pending wake-up is as good as a delivered one.
pub fn notify_status(outcome: NotifyOutcome) -> (res: Result<(), LoggerError>)
    ensures
        outcome == NotifyOutcome::Closed ==> res == Err::<(), LoggerError>(
            LoggerError::WorkerNotRunning,
        ),
        outcome != NotifyOutcome::Closed ==> res is Ok,
{
    match outcome {
        NotifyOutcome::Sent => Ok(()),
        NotifyOutcome::Full => Ok(()),
        NotifyOutcome::Closed => Err(LoggerError::WorkerNotRunning),
    }
}

/// The state of an initialized logger: the tag stamped on its records and
/// the queue of its channel.
pub struct LoggerState {
    /// The tag of this process.
    pub tag: String,
    /// The records waiting for the worker.
    pub queue: BoundedQueue<LogEnvelope>,
}

impl LoggerState {
    /// A logger for `tag` with an empty queue of `QUEUE_CAPACITY` records.
    pub fn new(tag: &str) -> (s: LoggerState)
        ensures
            s.tag@ == tag@,
            s.queue@ == Seq::<LogEnvelope>::empty(),
            s.queue.cap() == QUEUE_CAPACITY,
            s.queue.wf(),
    {
        LoggerState { tag: crate::text::string_of(tag), queue: BoundedQueue::new(QUEUE_CAPACITY) }
    }
}

/// Queues `message` at `level`, stamped `ts_real_ns` and the logger's tag;
/// a logger that was never initialized refuses the record.
pub fn enqueue_record(logger: &mut Option<LoggerState>, ts_real_ns: u64, level: i32, message: String) -> (res:
    Result<(), LoggerError>)
    ensures
        *old(logger) is None ==> res == Err::<(), LoggerError>(LoggerError::NotInitialized)
            && *final(logger) is None,
        *old(logger) is Some ==> res is Ok && *final(logger) is Some,
        *old(logger) matches Some(l) ==> ({
            let l2 = (*final(logger))->0;
            &&& l2.tag == l.tag
            &&& l2.queue.cap() == l.queue.cap()
            &&& l.queue.wf() ==> l2.queue.wf()
            &&& l2.queue@ == pushed_drop_oldest(
                l.queue@,
                l.queue.cap(),
                LogEnvelope { ts_real_ns, tag: l.tag, level, message },
            )
        }),
{
    match logger {
        None => Err(LoggerError::NotInitialized),
        Some(l) => {
            let env = LogEnvelope { ts_real_ns, tag: l.tag.clone(), level, message };
            l.queue.push_drop_oldest(env);
            Ok(())
        },
    }
}

/// The text written to standard error when a record could not be queued.
pub fn enqueue_failure_report(err: &str) -> (line: String)
    ensures
        line@ == "[LOGGER ERROR] logger enqueue failed: "@ + sanitized(err@),
{
    let mut out = String::new();
    push_str(&mut out, "[LOGGER ERROR] logger enqueue failed: ");
    push_sanitized(&mut out, err);
    out
}

/// The text written to standard error when a record is logged outside an
/// async runtime and therefore dropped.
pub fn no_runtime_report(message: &str) -> (line: String)
    ensures
        line@ == "[LOGGER WARNING] logger not running inside a Tokio runtime; dropping log: "@
            + sanitized(message@),
{
    let mut out = String::new();
    push_str(&mut out, "[LOGGER WARNING] logger not running inside a Tokio runtime; dropping log: ");
    push_sanitized(&mut out, message);
    out
}

} // verus!
