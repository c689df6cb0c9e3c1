//! The log relay: a bounded replay cache of recent log lines and the set of
//! registered subscribers that each new line is fanned out to.
use std::collections::VecDeque;
use vstd::prelude::*;

verus! {

/// Severity of a log line.
#[derive(PartialEq, Eq, Structural, Clone, Copy, Debug)]
pub enum LogLevel {
    Trace,
    Debug,
    Info,
    Warn,
    Error,
}

/// The wire code of a severity.
pub open spec fn level_code(level: LogLevel) -> i32 {
    match level {
        LogLevel::Trace => 0,
        LogLevel::Debug => 1,
        LogLevel::Info => 2,
        LogLevel::Warn => 3,
        LogLevel::Error => 4,
    }
}

/// The severity that a line of a produced event is relayed with: trace
/// events are reported at `Info`, the others keep their severity.
pub open spec fn reported_level(level: LogLevel) -> LogLevel {
    match level {
        LogLevel::Trace => LogLevel::Info,
        _ => level,
    }
}

impl LogLevel {
    /// The severity with wire code `code`; codes outside 0..=4 name none.
    pub fn from_code(code: i32) -> (r: Option<LogLevel>)
        ensures
            r matches Some(l) ==> level_code(l) == code,
            r is None <==> !(0 <= code <= 4),
    {
        if code == 0 {
            Some(LogLevel::Trace)
        } else if code == 1 {
            Some(LogLevel::Debug)
        } else if code == 2 {
            Some(LogLevel::Info)
        } else if code == 3 {
            Some(LogLevel::Warn)
        } else if code == 4 {
            Some(LogLevel::Error)
        } else {
            None
        }
    }

    /// The wire code of this severity.
    pub fn code(&self) -> (r: i32)
        ensures
            r == level_code(*self),
    {
        match self {
            LogLevel::Trace => 0,
            LogLevel::Debug => 1,
            LogLevel::Info => 2,
            LogLevel::Warn => 3,
            LogLevel::Error => 4,
        }
    }
}

/// The severity that an event of severity `level` is relayed with.
pub fn convert_level(level: LogLevel) -> (r: LogLevel)
    ensures
        r == reported_level(level),
{
    match level {
        LogLevel::Trace => LogLevel::Info,
        LogLevel::Debug => LogLevel::Debug,
        LogLevel::Info => LogLevel::Info,
        LogLevel::Warn => LogLevel::Warn,
        LogLevel::Error => LogLevel::Error,
    }
}

/// One log record: a severity and its text.
pub struct LogLine {
    pub level: LogLevel,
    pub text: String,
}

impl View for LogLine {
    type V = (LogLevel, Seq<char>);

    open spec fn view(&self) -> (LogLevel, Seq<char>) {
        (self.level, self.text@)
    }
}

pub open spec fn lines_view(lines: Seq<LogLine>) -> Seq<(LogLevel, Seq<char>)> {
    lines.map_values(|l: LogLine| l@)
}

impl LogLine {
    pub fn new(level: LogLevel, text: String) -> (r: LogLine)
        ensures
            r@ == (level, text@),
    {
        LogLine { level, text }
    }

    /// A copy that holds the same severity and text.
    pub fn duplicate(&self) -> (r: LogLine)
        ensures
            r@ == self@,
    {
        LogLine { level: self.level, text: self.text.clone() }
    }
}

/// The log lines an observer has received, in arrival order.
pub struct ServerLog {
    pub logs: Vec<LogLine>,
}

impl ServerLog {
    pub fn new() -> (r: ServerLog)
        ensures
            r.logs@.len() == 0,
    {
        ServerLog { logs: Vec::new() }
    }

    /// Appends a received line.
    pub fn push(&mut self, log_line: LogLine)
        ensures
            final(self).logs@ == old(self).logs@.push(log_line),
    {
        self.logs.push(log_line);
    }
}

/// The replay cache of the relay that a process sets up by default.
pub const MAX_CACHE_SIZE: usize = 1000;

/// The cache after one more line is relayed: the line is appended, and when
/// the cache was full its oldest line is dropped first.
pub open spec fn cached(
    cache: Seq<(LogLevel, Seq<char>)>,
    capacity: nat,
    line: (LogLevel, Seq<char>),
) -> Seq<(LogLevel, Seq<char>)> {
    if cache.len() >= capacity {
        cache.drop_first().push(line)
    } else {
        cache.push(line)
    }
}

/// The cache of a relay, created empty, after `lines` were relayed in order.
pub open spec fn cache_after(capacity: nat, lines: Seq<(LogLevel, Seq<char>)>) -> Seq<
    (LogLevel, Seq<char>),
>
    decreases lines.len(),
{
    if lines.len() == 0 {
        Seq::empty()
    } else {
        cached(cache_after(capacity, lines.drop_last()), capacity, lines.last())
    }
}

/// No id occurs twice.
pub open spec fn distinct_ids(ids: Seq<u128>) -> bool {
    forall|i: int, j: int| 0 <= i < ids.len() && 0 <= j < ids.len() && #[trigger] ids[i] == #[trigger] ids[j] ==> i == j
}

/// The relay's shared state: recent lines for replay, and the ids of the
/// subscribers that new lines go to. Delivery itself happens outside, to the
/// ids that `relay` hands back.
pub struct LogRelay {
    cache: VecDeque<LogLine>,
    capacity: usize,
    senders: Vec<u128>,
}

impl LogRelay {
    pub closed spec fn cache_view(&self) -> Seq<(LogLevel, Seq<char>)> {
        lines_view(self.cache@)
    }

    pub closed spec fn capacity_view(&self) -> nat {
        self.capacity as nat
    }

    pub closed spec fn senders_view(&self) -> Seq<u128> {
        self.senders@
    }

    pub open spec fn wf(&self) -> bool {
        &&& self.capacity_view() > 0
        &&& self.cache_view().len() <= self.capacity_view()
        &&& distinct_ids(self.senders_view())
    }

    /// A relay that replays at most `capacity` lines.
    pub fn new(capacity: usize) -> (r: LogRelay)
        requires
            capacity > 0,
        ensures
            r.wf(),
            r.capacity_view() == capacity,
            r.cache_view() == Seq::<(LogLevel, Seq<char>)>::empty(),
            r.senders_view() == Seq::<u128>::empty(),
    {
        let r = LogRelay { cache: VecDeque::new(), capacity, senders: Vec::new() };
        assert(r.cache_view() =~= Seq::<(LogLevel, Seq<char>)>::empty());
        r
    }

    /// Records `line` in the replay cache and returns the subscribers to
    /// deliver it to, in registration order.
    pub fn relay(&mut self, line: LogLine) -> (r: Vec<u128>)
        requires
            old(self).wf(),
        ensures
            final(self).wf(),
            final(self).cache_view() == cached(
                old(self).cache_view(),
                old(self).capacity_view(),
                line@,
            ),
            final(self).capacity_view() == old(self).capacity_view(),
            final(self).senders_view() == old(self).senders_view(),
            r@ == old(self).senders_view(),
    {
        let ghost before = self.cache@;
        if self.cache.len() == self.capacity {
            self.cache.pop_front();
            assert(lines_view(self.cache@) =~= lines_view(before).drop_first());
        }
        let ghost mid = self.cache@;
        self.cache.push_back(line);
        assert(lines_view(self.cache@) =~= lines_view(mid).push(line@));
        self.senders.clone()
    }

    /// Registers subscriber `id` and returns the lines to replay to it, oldest
    /// first. An id that is already registered is refused with `None`, and
    /// the relay is left as it was.
    pub fn add_sender(&mut self, id: u128) -> (r: Option<Vec<LogLine>>)
        requires
            old(self).wf(),
        ensures
            final(self).wf(),
            final(self).cache_view() == old(self).cache_view(),
            final(self).capacity_view() == old(self).capacity_view(),
            r is None <==> old(self).senders_view().contains(id),
            r is None ==> final(self).senders_view() == old(self).senders_view(),
            r matches Some(backlog) ==> lines_view(backlog@) == old(self).cache_view()
                && final(self).senders_view() == old(self).senders_view().push(id),
    {
        match self.find_sender(id) {
            Some(_) => None,
            None => {
                let backlog = self.send_cache();
                let ghost before = self.senders@;
                self.senders.push(id);
                assert(distinct_ids(self.senders@)) by {
                    assert forall|i: int, j: int|
                        0 <= i < self.senders@.len() && 0 <= j < self.senders@.len()
                            && #[trigger] self.senders@[i] == #[trigger] self.senders@[j] implies i == j by {
                        if i < before.len() && j == before.len() {
                            assert(before[i] == id);
                        }
                        if j < before.len() && i == before.len() {
                            assert(before[j] == id);
                        }
                    }
                }
                Some(backlog)
            },
        }
    }

    /// The lines to replay to a new subscriber: the whole cache, oldest first.
    fn send_cache(&self) -> (r: Vec<LogLine>)
        ensures
            lines_view(r@) == self.cache_view(),
    {
        let mut backlog: Vec<LogLine> = Vec::new();
        let mut i: usize = 0;
        while i < self.cache.len()
            invariant
                i <= self.cache@.len(),
                lines_view(backlog@) == lines_view(self.cache@).subrange(0, i as int),
            decreases self.cache@.len() - i,
        {
            let ghost before = backlog@;
            let item = self.cache[i].duplicate();
            assert(item@ == lines_view(self.cache@)[i as int]);
            backlog.push(item);
            assert(lines_view(backlog@) =~= lines_view(before).push(item@));
            assert(lines_view(backlog@) =~= lines_view(self.cache@).subrange(0, i + 1));
            i = i + 1;
        }
        assert(lines_view(self.cache@).subrange(0, self.cache@.len() as int) =~= lines_view(
            self.cache@,
        ));
        backlog
    }

    /// Unregisters subscriber `id`; returns whether it was registered. The
    /// other subscribers keep their order.
    pub fn remove_sender(&mut self, id: u128) -> (r: bool)
        requires
            old(self).wf(),
        ensures
            final(self).wf(),
            final(self).cache_view() == old(self).cache_view(),
            final(self).capacity_view() == old(self).capacity_view(),
            r == old(self).senders_view().contains(id),
            !final(self).senders_view().contains(id),
            !r ==> final(self).senders_view() == old(self).senders_view(),
            r ==> exists|k: int|
                0 <= k < old(self).senders_view().len() && old(self).senders_view()[k] == id
                    && final(self).senders_view() == old(self).senders_view().remove(k),
    {
        match self.find_sender(id) {
            Some(i) => {
                let ghost before = self.senders@;
                self.senders.remove(i);
                assert(self.senders@ =~= before.remove(i as int));
                assert forall|a: int, b: int|
                    0 <= a < self.senders@.len() && 0 <= b < self.senders@.len()
                        && #[trigger] self.senders@[a] == #[trigger] self.senders@[b] implies a == b by {
                    let fa = if a < i { a } else { a + 1 };
                    let fb = if b < i { b } else { b + 1 };
                    assert(before[fa] == before[fb]);
                }
                proof {
                    if self.senders@.contains(id) {
                        let a = choose|a: int| 0 <= a < self.senders@.len() && self.senders@[a] == id;
                        let fa = if a < i { a } else { a + 1 };
                        assert(before[fa] == before[i as int]);
                    }
                }
                true
            },
            None => false,
        }
    }

    /// The position of subscriber `id`, if registered.
    fn find_sender(&self, id: u128) -> (r: Option<usize>)
        ensures
            r is None <==> !self.senders_view().contains(id),
            r matches Some(i) ==> i < self.senders_view().len() && self.senders_view()[i as int] == id,
    {
        let mut i: usize = 0;
        while i < self.senders.len()
            invariant
                i <= self.senders@.len(),
                forall|j: int| 0 <= j < i ==> self.senders@[j] != id,
            decreases self.senders@.len() - i,
        {
            if self.senders[i] == id {
                return Some(i);
            }
            i = i + 1;
        }
        None
    }

    /// The number of registered subscribers.
    pub fn subscriber_count(&self) -> (r: usize)
        ensures
            r == self.senders_view().len(),
    {
        self.senders.len()
    }
}

impl Default for LogRelay {
    fn default() -> (r: LogRelay)
        ensures
            r.wf(),
            r.capacity_view() == MAX_CACHE_SIZE,
            r.cache_view() == Seq::<(LogLevel, Seq<char>)>::empty(),
            r.senders_view() == Seq::<u128>::empty(),
    {
        LogRelay::new(MAX_CACHE_SIZE)
    }
}

/// A relay created empty holds, after any sequence of relayed lines, exactly
/// the last `capacity` of them (all of them when there are fewer), in the
/// order they were relayed.
pub proof fn lemma_cache_is_suffix(capacity: nat, lines: Seq<(LogLevel, Seq<char>)>)
    requires
        capacity > 0,
    ensures
        lines.len() <= capacity ==> cache_after(capacity, lines) == lines,
        lines.len() > capacity ==> cache_after(capacity, lines) == lines.subrange(
            lines.len() - capacity,
            lines.len() as int,
        ),
    decreases lines.len(),
{
    if lines.len() > 0 {
        let prefix = lines.drop_last();
        lemma_cache_is_suffix(capacity, prefix);
        let c = cache_after(capacity, prefix);
        if lines.len() <= capacity {
            assert(c.push(lines.last()) =~= lines);
        } else if prefix.len() <= capacity {
            assert(c == prefix);
            assert(prefix.len() == capacity);
            assert(c.drop_first().push(lines.last()) =~= lines.subrange(
                lines.len() - capacity,
                lines.len() as int,
            ));
        } else {
            assert(c.drop_first().push(lines.last()) =~= lines.subrange(
                lines.len() - capacity,
                lines.len() as int,
            ));
        }
    }
}

/// A subscriber that joins after at most `capacity` lines were relayed is
/// replayed exactly those lines, in the order they were relayed.
pub proof fn lemma_replay_complete(capacity: nat, lines: Seq<(LogLevel, Seq<char>)>)
    requires
        capacity > 0,
        lines.len() <= capacity,
    ensures
        cache_after(capacity, lines) == lines,
{
    lemma_cache_is_suffix(capacity, lines);
}

/// Once `capacity + 1` lines were relayed, a new subscriber is replayed all
/// but the oldest: the cache holds the lines relayed second to last.
pub proof fn lemma_oldest_evicted(capacity: nat, lines: Seq<(LogLevel, Seq<char>)>)
    requires
        capacity > 0,
        lines.len() == capacity + 1,
    ensures
        cache_after(capacity, lines) == lines.drop_first(),
        cache_after(capacity, lines).len() == capacity,
{
    lemma_cache_is_suffix(capacity, lines);
    assert(lines.subrange(1, lines.len() as int) =~= lines.drop_first());
}

} // verus!
