//! The change monitor: a dynamically growing recursive watch set and a
//! debouncer that coalesces raw filesystem events into logical ones.
//!
//! Raw events for one path inside one debounce window collapse to a single
//! logical event carrying the latest kind; the window closes a fixed quantum
//! after the first raw event opened it. A `Created` path is registered into
//! the watch set before its event is handed to the consumer, so no live path
//! under a watched root ever goes unwatched.

use vstd::prelude::*;
use vstd::string::StringExecFns;

use crate::text::str_eq;

verus! {

/// The kind of a raw notification from the watch backend.
#[derive(Clone, Copy, PartialEq, Eq, Structural, Debug)]
pub enum RawKind {
    Create,
    Write,
    Remove,
}

/// One raw event held back until its debounce window closes.
pub struct Pending {
    pub path: String,
    pub kind: RawKind,
    pub deadline_ms: u64,
}

/// Mathematical image of a pending entry.
pub struct PendingView {
    pub path: Seq<char>,
    pub kind: RawKind,
    pub deadline_ms: u64,
}

impl View for Pending {
    type V = PendingView;

    open spec fn view(&self) -> PendingView {
        PendingView { path: self.path@, kind: self.kind, deadline_ms: self.deadline_ms }
    }
}

/// One debounced, logical notification, as the dispatcher consumes it.
pub enum ChangeEvent {
    Created { path: String },
    Modified { path: String },
    Removed { path: String },
    Error { message: String },
}

/// Mathematical image of a logical event.
pub enum ChangeEventView {
    Created { path: Seq<char> },
    Modified { path: Seq<char> },
    Removed { path: Seq<char> },
    Error { message: Seq<char> },
}

impl View for ChangeEvent {
    type V = ChangeEventView;

    open spec fn view(&self) -> ChangeEventView {
        match self {
            ChangeEvent::Created { path } => ChangeEventView::Created { path: path@ },
            ChangeEvent::Modified { path } => ChangeEventView::Modified { path: path@ },
            ChangeEvent::Removed { path } => ChangeEventView::Removed { path: path@ },
            ChangeEvent::Error { message } => ChangeEventView::Error { message: message@ },
        }
    }
}

/// The logical event a closed debounce window delivers.
pub open spec fn event_of(e: PendingView) -> ChangeEventView {
    match e.kind {
        RawKind::Create => ChangeEventView::Created { path: e.path },
        RawKind::Write => ChangeEventView::Modified { path: e.path },
        RawKind::Remove => ChangeEventView::Removed { path: e.path },
    }
}

/// Views of a vector of pending entries.
pub open spec fn pendings_view(s: Seq<Pending>) -> Seq<PendingView> {
    s.map_values(|e: Pending| e@)
}

/// Views of a vector of logical events.
pub open spec fn events_view(s: Seq<ChangeEvent>) -> Seq<ChangeEventView> {
    s.map_values(|e: ChangeEvent| e@)
}

/// Some window for `path` is open.
pub open spec fn has_pending(p: Seq<PendingView>, path: Seq<char>) -> bool {
    exists|i: int| 0 <= i < p.len() && p[i].path == path
}

/// At most one window per path is open.
pub open spec fn wf_pending(p: Seq<PendingView>) -> bool {
    forall|i: int, j: int| 0 <= i < j < p.len() ==> p[i].path != p[j].path
}

/// How many pending entries hold `path`.
pub open spec fn count_for(p: Seq<PendingView>, path: Seq<char>) -> nat
    decreases p.len(),
{
    if p.len() == 0 {
        0
    } else {
        count_for(p.drop_last(), path) + if p.last().path == path {
            1nat
        } else {
            0nat
        }
    }
}

/// Merging one raw event into the pending buffer: an event for a path whose
/// window is open replaces that entry's kind (the latest kind wins and the
/// window keeps its deadline); a first event opens a window with `deadline`.
pub open spec fn merge_pending(
    p: Seq<PendingView>,
    path: Seq<char>,
    kind: RawKind,
    deadline: u64,
) -> Seq<PendingView> {
    if has_pending(p, path) {
        p.map_values(
            |e: PendingView|
                if e.path == path {
                    PendingView { path: e.path, kind: kind, deadline_ms: e.deadline_ms }
                } else {
                    e
                },
        )
    } else {
        p.push(PendingView { path: path, kind: kind, deadline_ms: deadline })
    }
}

/// The entries whose windows have closed by `now`, in order.
pub open spec fn due_of(p: Seq<PendingView>, now: u64) -> Seq<PendingView>
    decreases p.len(),
{
    if p.len() == 0 {
        Seq::empty()
    } else if p.last().deadline_ms <= now {
        due_of(p.drop_last(), now) + seq![p.last()]
    } else {
        due_of(p.drop_last(), now)
    }
}

/// The entries whose windows are still open at `now`, in order.
pub open spec fn rest_of(p: Seq<PendingView>, now: u64) -> Seq<PendingView>
    decreases p.len(),
{
    if p.len() == 0 {
        Seq::empty()
    } else if p.last().deadline_ms <= now {
        rest_of(p.drop_last(), now)
    } else {
        rest_of(p.drop_last(), now) + seq![p.last()]
    }
}

/// The logical events a batch of closed windows delivers, in order.
pub open spec fn events_of(due: Seq<PendingView>) -> Seq<ChangeEventView>
    decreases due.len(),
{
    if due.len() == 0 {
        Seq::empty()
    } else {
        events_of(due.drop_last()) + seq![event_of(due.last())]
    }
}

/// The watch monitor: the roots it was given, the grown watch set, the
/// debounce quantum, and the open debounce windows.
pub struct Monitor {
    pub debounce_ms: u64,
    pub paths: Vec<String>,
    pub watched: Vec<String>,
    pub pending: Vec<Pending>,
}

/// Mathematical image of the monitor.
pub struct MonitorView {
    pub debounce_ms: u64,
    pub paths: Seq<Seq<char>>,
    pub watched: Seq<Seq<char>>,
    pub pending: Seq<PendingView>,
}

impl View for Monitor {
    type V = MonitorView;

    open spec fn view(&self) -> MonitorView {
        MonitorView {
            debounce_ms: self.debounce_ms,
            paths: self.paths.deep_view(),
            watched: self.watched.deep_view(),
            pending: pendings_view(self.pending@),
        }
    }
}

/// What the watch loop must do with one logical event: extend the watch set
/// first when the event created a path, then hand the event on.
pub struct WatchStep {
    pub register: Option<String>,
    pub event: ChangeEvent,
}

impl Monitor {
    /// At most one debounce window per path is open.
    pub open spec fn wf(&self) -> bool {
        wf_pending(self@.pending)
    }

    /// A monitor that debounces raw events over a window of `debounce_ms`.
    pub fn new(debounce_ms: u64) -> (m: Monitor)
        ensures
            m@.debounce_ms == debounce_ms,
            m@.paths == Seq::<Seq<char>>::empty(),
            m@.watched == Seq::<Seq<char>>::empty(),
            m@.pending == Seq::<PendingView>::empty(),
            m.wf(),
    {
        let m = Monitor { debounce_ms, paths: Vec::new(), watched: Vec::new(), pending: Vec::new() };
        proof {
            assert(m@.paths =~~= Seq::<Seq<char>>::empty());
            assert(m@.watched =~~= Seq::<Seq<char>>::empty());
            assert(m@.pending =~= Seq::<PendingView>::empty());
        }
        m
    }

    /// Adds a root to be watched recursively; the root joins the watch set at
    /// once.
    pub fn path(self, p: &str) -> (m: Monitor)
        ensures
            m@.debounce_ms == self@.debounce_ms,
            m@.paths == self@.paths.push(p@),
            m@.watched == if self@.watched.contains(p@) {
                self@.watched
            } else {
                self@.watched.push(p@)
            },
            m@.watched.contains(p@),
            m@.pending == self@.pending,
            self.wf() ==> m.wf(),
    {
        let ghost v0 = self@;
        let mut m = self;
        m.register(p);
        m.paths.push(String::from_str(p));
        proof {
            assert(m.paths.deep_view() =~~= v0.paths.push(p@));
        }
        m
    }

    /// Puts `p` into the watch set; already-watched paths are left alone.
    pub fn register(&mut self, p: &str)
        ensures
            final(self)@.debounce_ms == old(self)@.debounce_ms,
            final(self)@.paths == old(self)@.paths,
            final(self)@.pending == old(self)@.pending,
            final(self)@.watched == if old(self)@.watched.contains(p@) {
                old(self)@.watched
            } else {
                old(self)@.watched.push(p@)
            },
            final(self)@.watched.contains(p@),
            old(self).wf() ==> final(self).wf(),
    {
        let n = self.watched.len();
        let mut i: usize = 0;
        while i < n
            invariant
                n == self.watched.len(),
                i <= n,
                forall|j: int| 0 <= j < i ==> self.watched.deep_view()[j] != p@,
            decreases n - i,
        {
            if str_eq(&self.watched[i], p) {
                proof {
                    assert(old(self)@.watched[i as int] == p@);
                }
                return ;
            }
            proof {
                assert(self.watched.deep_view()[i as int] == self.watched@[i as int]@);
            }
            i += 1;
        }
        self.watched.push(String::from_str(p));
        proof {
            assert(final(self).watched.deep_view() =~~= old(self).watched.deep_view().push(p@));
            assert(!old(self)@.watched.contains(p@));
            assert(final(self)@.watched.last() == p@);
        }
    }

    /// Feeds one raw event into the debouncer at time `now_ms`: it merges
    /// into the open window for its path, or opens a new one.
    pub fn accept(&mut self, now_ms: u64, path: &str, kind: RawKind)
        requires
            old(self).wf(),
            now_ms + old(self).debounce_ms <= u64::MAX,
        ensures
            final(self).wf(),
            final(self)@.pending == merge_pending(
                old(self)@.pending,
                path@,
                kind,
                (now_ms + old(self).debounce_ms) as u64,
            ),
            final(self)@.debounce_ms == old(self)@.debounce_ms,
            final(self)@.paths == old(self)@.paths,
            final(self)@.watched == old(self)@.watched,
    {
        let n = self.pending.len();
        let mut i: usize = 0;
        while i < n
            invariant
                n == self.pending.len(),
                i <= n,
                *self == *old(self),
                forall|j: int| 0 <= j < i ==> pendings_view(self.pending@)[j].path != path@,
            decreases n - i,
        {
            proof {
                assert(pendings_view(self.pending@)[i as int] == self.pending@[i as int]@);
            }
            if str_eq(&self.pending[i].path, path) {
                let d = self.pending[i].deadline_ms;
                let entry = Pending { path: String::from_str(path), kind, deadline_ms: d };
                self.pending.set(i, entry);
                proof {
                    let p0 = old(self)@.pending;
                    assert(p0[i as int].path == path@);
                    assert(has_pending(p0, path@));
                    assert forall|j: int| 0 <= j < p0.len() && j != i implies p0[j].path != path@ by {
                        if j < i {
                            assert(p0[j].path != path@);
                        } else {
                            assert(p0[i as int].path != p0[j].path);
                        }
                    }
                    assert(final(self)@.pending =~= merge_pending(
                        p0,
                        path@,
                        kind,
                        (now_ms + old(self).debounce_ms) as u64,
                    ));
                    assert forall|a: int, b: int|
                        0 <= a < b < final(self)@.pending.len() implies final(self)@.pending[a].path
                        != final(self)@.pending[b].path by {
                        assert(final(self)@.pending[a].path == p0[a].path);
                        assert(final(self)@.pending[b].path == p0[b].path);
                    }
                }
                return ;
            }
            i += 1;
        }
        let deadline = now_ms + self.debounce_ms;
        self.pending.push(Pending { path: String::from_str(path), kind, deadline_ms: deadline });
        proof {
            let p0 = old(self)@.pending;
            assert(!has_pending(p0, path@));
            assert(final(self)@.pending =~= p0.push(
                PendingView { path: path@, kind: kind, deadline_ms: deadline },
            ));
            assert forall|a: int, b: int|
                0 <= a < b < final(self)@.pending.len() implies final(self)@.pending[a].path
                != final(self)@.pending[b].path by {
                if b < p0.len() {
                    assert(final(self)@.pending[a].path == p0[a].path);
                    assert(final(self)@.pending[b].path == p0[b].path);
                } else {
                    assert(final(self)@.pending[a].path == p0[a].path);
                    assert(final(self)@.pending[b].path == path@);
                }
            }
        }
    }

    /// Delivers the logical events of every window closed by `now_ms`, in
    /// order, and keeps the still-open windows.
    pub fn poll(&mut self, now_ms: u64) -> (out: Vec<ChangeEvent>)
        requires
            old(self).wf(),
        ensures
            final(self).wf(),
            final(self)@.pending == rest_of(old(self)@.pending, now_ms),
            events_view(out@) == events_of(due_of(old(self)@.pending, now_ms)),
            final(self)@.debounce_ms == old(self)@.debounce_ms,
            final(self)@.paths == old(self)@.paths,
            final(self)@.watched == old(self)@.watched,
    {
        let ghost s = pendings_view(old(self).pending@);
        let n = self.pending.len();
        let mut out: Vec<ChangeEvent> = Vec::new();
        let mut rest: Vec<Pending> = Vec::new();
        let mut i: usize = 0;
        proof {
            assert(s.take(0) =~= Seq::<PendingView>::empty());
            assert(events_view(out@) =~= Seq::<ChangeEventView>::empty());
            assert(pendings_view(rest@) =~= Seq::<PendingView>::empty());
        }
        while i < n
            invariant
                n == self.pending.len(),
                i <= n,
                self.pending@ == old(self).pending@,
                s == pendings_view(self.pending@),
                events_view(out@) == events_of(due_of(s.take(i as int), now_ms)),
                pendings_view(rest@) == rest_of(s.take(i as int), now_ms),
            decreases n - i,
        {
            proof {
                assert(s[i as int] == self.pending@[i as int]@);
                lemma_due_take_step(s, now_ms, i as int);
            }
            let due_now = self.pending[i].deadline_ms <= now_ms;
            if due_now {
                let ev = match self.pending[i].kind {
                    RawKind::Create => ChangeEvent::Created { path: self.pending[i].path.clone() },
                    RawKind::Write => ChangeEvent::Modified { path: self.pending[i].path.clone() },
                    RawKind::Remove => ChangeEvent::Removed { path: self.pending[i].path.clone() },
                };
                proof {
                    assert(ev@ == event_of(s[i as int]));
                }
                out.push(ev);
                proof {
                    lemma_events_snoc(due_of(s.take(i as int), now_ms), s[i as int]);
                    assert(events_view(out@) =~= events_of(due_of(s.take(i as int + 1), now_ms)));
                }
            } else {
                let entry = Pending {
                    path: self.pending[i].path.clone(),
                    kind: self.pending[i].kind,
                    deadline_ms: self.pending[i].deadline_ms,
                };
                rest.push(entry);
                proof {
                    assert(pendings_view(rest@) =~= rest_of(s.take(i as int + 1), now_ms));
                }
            }
            i += 1;
        }
        proof {
            assert(s.take(n as int) =~= s);
            lemma_rest_wf(s, now_ms);
        }
        self.pending = rest;
        out
    }

    /// Handles one delivered logical event: a created path joins the watch
    /// set before the event goes on to the dispatcher, so the watch set
    /// extends itself the moment new paths appear.
    pub fn on_event(&mut self, event: ChangeEvent) -> (step: WatchStep)
        ensures
            step.event == event,
            final(self)@.debounce_ms == old(self)@.debounce_ms,
            final(self)@.paths == old(self)@.paths,
            final(self)@.pending == old(self)@.pending,
            old(self).wf() ==> final(self).wf(),
            match event@ {
                ChangeEventView::Created { path } => {
                    &&& final(self)@.watched == if old(self)@.watched.contains(path) {
                        old(self)@.watched
                    } else {
                        old(self)@.watched.push(path)
                    }
                    &&& final(self)@.watched.contains(path)
                    &&& step.register matches Some(r) && r@ == path
                },
                _ => final(self)@.watched == old(self)@.watched && step.register is None,
            },
    {
        match &event {
            ChangeEvent::Created { path } => {
                self.register(path.as_str());
                let r = path.clone();
                WatchStep { register: Some(r), event }
            },
            _ => WatchStep { register: None, event },
        }
    }
} // impl Monitor

/// One scan step: how the due and still-open partitions of a prefix grow.
pub proof fn lemma_due_take_step(s: Seq<PendingView>, now: u64, i: int)
    requires
        0 <= i < s.len(),
    ensures
        due_of(s.take(i + 1), now) == if s[i].deadline_ms <= now {
            due_of(s.take(i), now) + seq![s[i]]
        } else {
            due_of(s.take(i), now)
        },
        rest_of(s.take(i + 1), now) == if s[i].deadline_ms <= now {
            rest_of(s.take(i), now)
        } else {
            rest_of(s.take(i), now) + seq![s[i]]
        },
{
    assert(s.take(i + 1).drop_last() =~= s.take(i));
    assert(s.take(i + 1).last() == s[i]);
}

/// Delivering one more closed window appends one more logical event.
pub proof fn lemma_events_snoc(d: Seq<PendingView>, x: PendingView)
    ensures
        events_of(d + seq![x]) == events_of(d) + seq![event_of(x)],
{
    assert((d + seq![x]).drop_last() =~= d);
    assert((d + seq![x]).last() == x);
}

/// Every still-open entry comes from the buffer it was filtered out of.
pub proof fn lemma_rest_membership(s: Seq<PendingView>, now: u64, k: int)
    requires
        0 <= k < rest_of(s, now).len(),
    ensures
        exists|j: int| 0 <= j < s.len() && rest_of(s, now)[k] == s[j],
    decreases s.len(),
{
    if s.len() == 0 {
    } else if s.last().deadline_ms <= now {
        lemma_rest_membership(s.drop_last(), now, k);
        let j = choose|j: int|
            0 <= j < s.drop_last().len() && rest_of(s.drop_last(), now)[k] == s.drop_last()[j];
        assert(s.drop_last()[j] == s[j]);
    } else {
        let r = rest_of(s.drop_last(), now);
        if k < r.len() {
            lemma_rest_membership(s.drop_last(), now, k);
            let j = choose|j: int| 0 <= j < s.drop_last().len() && r[k] == s.drop_last()[j];
            assert(s.drop_last()[j] == s[j]);
            assert((r + seq![s.last()])[k] == r[k]);
        } else {
            assert((r + seq![s.last()])[k] == s.last());
            assert(s.last() == s[s.len() - 1]);
        }
    }
}

/// Filtering the closed windows out keeps windows unique per path.
pub proof fn lemma_rest_wf(s: Seq<PendingView>, now: u64)
    requires
        wf_pending(s),
    ensures
        wf_pending(rest_of(s, now)),
    decreases s.len(),
{
    if s.len() == 0 {
    } else {
        assert forall|a: int, b: int|
            0 <= a < b < s.drop_last().len() implies s.drop_last()[a].path
            != s.drop_last()[b].path by {
            assert(s.drop_last()[a] == s[a]);
            assert(s.drop_last()[b] == s[b]);
        }
        lemma_rest_wf(s.drop_last(), now);
        if s.last().deadline_ms <= now {
        } else {
            let r = rest_of(s.drop_last(), now);
            let w = r + seq![s.last()];
            assert forall|a: int, b: int| 0 <= a < b < w.len() implies w[a].path != w[b].path by {
                if b < r.len() {
                    assert(w[a] == r[a]);
                    assert(w[b] == r[b]);
                } else {
                    assert(w[b] == s.last());
                    assert(w[a] == r[a]);
                    lemma_rest_membership(s.drop_last(), now, a);
                    let j = choose|j: int| 0 <= j < s.drop_last().len() && r[a] == s.drop_last()[j];
                    assert(s.drop_last()[j] == s[j]);
                    assert(s[j].path != s[s.len() - 1].path);
                }
            }
        }
    }
}

/// No entry holds `path` exactly when the count for `path` is zero.
pub proof fn lemma_count_zero(q: Seq<PendingView>, path: Seq<char>)
    ensures
        count_for(q, path) == 0 <==> (forall|i: int| 0 <= i < q.len() ==> q[i].path != path),
    decreases q.len(),
{
    if q.len() == 0 {
    } else {
        lemma_count_zero(q.drop_last(), path);
        assert forall|i: int| 0 <= i < q.len() - 1 implies q.drop_last()[i] == q[i] by {}
        assert(q.last() == q[q.len() - 1]);
    }
}

/// Feeding a burst of raw kinds for one path, in order, each with the
/// deadline its own arrival would open a window with.
pub open spec fn feed_burst(
    p: Seq<PendingView>,
    path: Seq<char>,
    kinds: Seq<RawKind>,
    deadlines: Seq<u64>,
) -> Seq<PendingView>
    decreases kinds.len(),
{
    if kinds.len() == 0 || deadlines.len() == 0 {
        p
    } else {
        feed_burst(
            merge_pending(p, path, kinds[0], deadlines[0]),
            path,
            kinds.drop_first(),
            deadlines.drop_first(),
        )
    }
}

/// While a window for `path` is open as the buffer's last entry, further raw
/// events only replace its kind: the latest kind wins and the deadline holds.
proof fn lemma_feed_on_open_window(
    q: Seq<PendingView>,
    path: Seq<char>,
    k: RawKind,
    d: u64,
    kinds: Seq<RawKind>,
    deadlines: Seq<u64>,
)
    requires
        count_for(q, path) == 0,
        deadlines.len() == kinds.len(),
    ensures
        feed_burst(q.push(PendingView { path: path, kind: k, deadline_ms: d }), path, kinds, deadlines)
            == q.push(
            PendingView {
                path: path,
                kind: if kinds.len() == 0 {
                    k
                } else {
                    kinds.last()
                },
                deadline_ms: d,
            },
        ),
    decreases kinds.len(),
{
    lemma_count_zero(q, path);
    let e = PendingView { path: path, kind: k, deadline_ms: d };
    let s = q.push(e);
    if kinds.len() == 0 {
    } else {
        assert(s[q.len() as int].path == path);
        assert(has_pending(s, path));
        let e1 = PendingView { path: path, kind: kinds[0], deadline_ms: d };
        assert(merge_pending(s, path, kinds[0], deadlines[0]) =~= q.push(e1));
        lemma_feed_on_open_window(q, path, kinds[0], d, kinds.drop_first(), deadlines.drop_first());
        if kinds.len() > 1 {
            assert(kinds.drop_first().last() == kinds.last());
        }
    }
}

/// No closed window for `path` comes out when no window for it was open.
pub proof fn lemma_due_count_zero(p: Seq<PendingView>, path: Seq<char>, now: u64)
    requires
        count_for(p, path) == 0,
    ensures
        count_for(due_of(p, now), path) == 0,
    decreases p.len(),
{
    lemma_count_zero(p, path);
    if p.len() == 0 {
    } else {
        assert forall|i: int| 0 <= i < p.len() - 1 implies p.drop_last()[i] == p[i] by {}
        lemma_count_zero(p.drop_last(), path);
        lemma_due_count_zero(p.drop_last(), path, now);
        if p.last().deadline_ms <= now {
            let d = due_of(p.drop_last(), now);
            assert((d + seq![p.last()]).drop_last() =~= d);
            assert((d + seq![p.last()]).last() == p.last());
            assert(p.last() == p[p.len() - 1]);
        }
    }
}

/// A burst of raw events on one path inside one debounce window reaches the
/// dispatcher as exactly one logical event, and that event carries the
/// latest kind of the burst.
pub proof fn lemma_burst_coalesces(
    p0: Seq<PendingView>,
    path: Seq<char>,
    kinds: Seq<RawKind>,
    deadlines: Seq<u64>,
    poll_ms: u64,
)
    requires
        count_for(p0, path) == 0,
        kinds.len() >= 1,
        deadlines.len() == kinds.len(),
        deadlines[0] <= poll_ms,
    ensures
        ({
            let due = due_of(feed_burst(p0, path, kinds, deadlines), poll_ms);
            &&& count_for(due, path) == 1
            &&& events_of(due).contains(
                event_of(PendingView { path: path, kind: kinds.last(), deadline_ms: deadlines[0] }),
            )
        }),
{
    lemma_count_zero(p0, path);
    assert(!has_pending(p0, path));
    let e0 = PendingView { path: path, kind: kinds[0], deadline_ms: deadlines[0] };
    assert(merge_pending(p0, path, kinds[0], deadlines[0]) == p0.push(e0));
    lemma_feed_on_open_window(
        p0,
        path,
        kinds[0],
        deadlines[0],
        kinds.drop_first(),
        deadlines.drop_first(),
    );
    if kinds.len() > 1 {
        assert(kinds.drop_first().last() == kinds.last());
    }
    let e = PendingView { path: path, kind: kinds.last(), deadline_ms: deadlines[0] };
    let fed = feed_burst(p0, path, kinds, deadlines);
    assert(fed == p0.push(e));
    assert(fed.drop_last() =~= p0);
    assert(fed.last() == e);
    let due0 = due_of(p0, poll_ms);
    assert(due_of(fed, poll_ms) == due0 + seq![e]);
    lemma_due_count_zero(p0, path, poll_ms);
    let due = due_of(fed, poll_ms);
    assert(due.drop_last() =~= due0);
    assert(due.last() == e);
    assert(count_for(due, path) == count_for(due0, path) + 1);
    lemma_events_snoc(due0, e);
    assert(events_of(due) == events_of(due0) + seq![event_of(e)]);
    assert(events_of(due)[events_of(due).len() - 1] == event_of(e));
}

} // verus!
