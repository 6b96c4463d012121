use vstd::prelude::*;
use crate::bus::{Bus, ThreadMessage};
use crate::registry::{append_spec, has_key, keys_unique, position, EntryView, Registry};

verus! {

/// The severity of a diagnostic line.
#[derive(Clone, Copy, Debug, PartialEq, Eq, Structural)]
pub enum MessageType {
    Info,
    Warning,
    Error,
}

/// The diagnostic log and which severities it shows.
pub struct LoggingTab {
    pub lines: Vec<(String, MessageType)>,
    pub errors: bool,
    pub warnings: bool,
    pub info: bool,
}

/// A log line as text and severity.
pub type LineView = (Seq<char>, MessageType);

pub open spec fn lines_view(lines: Seq<(String, MessageType)>) -> Seq<LineView> {
    lines.map_values(|l: (String, MessageType)| (l.0@, l.1))
}

impl LoggingTab {
    /// A log holding the one warning that the server is not running, with
    /// every severity shown.
    pub fn new() -> (r: Self)
        ensures
            lines_view(r.lines@) == seq![("Server is not running!"@, MessageType::Warning)],
            r.errors && r.warnings && r.info,
    {
        let mut lines: Vec<(String, MessageType)> = Vec::new();
        lines.push(("Server is not running!".to_owned(), MessageType::Warning));
        let r = LoggingTab { lines, errors: true, warnings: true, info: true };
        assert(lines_view(r.lines@) =~= seq![("Server is not running!"@, MessageType::Warning)]);
        r
    }

    pub open spec fn shows(&self, m: MessageType) -> bool {
        match m {
            MessageType::Info => self.info,
            MessageType::Warning => self.warnings,
            MessageType::Error => self.errors,
        }
    }

    /// Whether lines of severity `m` are shown.
    pub fn is_shown(&self, m: MessageType) -> (r: bool)
        ensures
            r == self.shows(m),
    {
        match m {
            MessageType::Info => self.info,
            MessageType::Warning => self.warnings,
            MessageType::Error => self.errors,
        }
    }

    /// The lines whose severity is shown, in log order.
    pub fn visible_lines(&self) -> (r: Vec<(&String, MessageType)>)
        ensures
            r@.map_values(|l: (&String, MessageType)| (l.0@, l.1)) == lines_view(self.lines@).filter(
                |l: LineView| self.shows(l.1),
            ),
    {
        let mut r: Vec<(&String, MessageType)> = Vec::new();
        let mut i: usize = 0;
        let ghost all = lines_view(self.lines@);
        let ghost keep = |l: LineView| self.shows(l.1);
        while i < self.lines.len()
            invariant
                i <= self.lines@.len(),
                all == lines_view(self.lines@),
                keep == (|l: LineView| self.shows(l.1)),
                r@.map_values(|l: (&String, MessageType)| (l.0@, l.1)) == all.take(i as int).filter(keep),
            decreases self.lines@.len() - i,
        {
            let ghost prev = all.take(i as int);
            assert(all.take(i + 1) =~= prev.push(all[i as int]));
            reveal(Seq::filter);
            assert(prev.push(all[i as int]).drop_last() =~= prev);
            let l = &self.lines[i];
            if self.is_shown(l.1) {
                let ghost rv = r@;
                r.push((&l.0, l.1));
                assert(r@.map_values(|l: (&String, MessageType)| (l.0@, l.1)) =~= rv.map_values(
                    |l: (&String, MessageType)| (l.0@, l.1),
                ).push(all[i as int]));
            }
            i = i + 1;
        }
        assert(all.take(self.lines@.len() as int) =~= all);
        r
    }
}

/// The registry and the log, as ingestion sees them.
pub type StateView<T> = (Seq<EntryView<T>>, Seq<LineView>);

/// The effect of one event: diagnostics go to the log; a bare sample goes
/// to the active channel, a targeted one to its channel, each only where
/// that channel exists.
pub open spec fn apply_event<T>(st: StateView<T>, active: Seq<char>, e: ThreadMessage<T>) -> StateView<T> {
    match e {
        ThreadMessage::Error(t) => (st.0, st.1.push((t@, MessageType::Error))),
        ThreadMessage::Warning(t) => (st.0, st.1.push((t@, MessageType::Warning))),
        ThreadMessage::Info(t) => (st.0, st.1.push((t@, MessageType::Info))),
        ThreadMessage::PlotPoint(v) => (append_spec(st.0, active, v), st.1),
        ThreadMessage::PlotOnLine(k, v) => (append_spec(st.0, k@, v), st.1),
    }
}

/// The effect of a batch of events, applied in order.
pub open spec fn apply_all<T>(st: StateView<T>, active: Seq<char>, es: Seq<ThreadMessage<T>>) -> StateView<T>
    decreases es.len(),
{
    if es.len() == 0 {
        st
    } else {
        apply_all(apply_event(st, active, es[0]), active, es.skip(1))
    }
}

/// The presentation side's state: channels, log, and the active channel
/// that bare samples go to.
pub struct Console<T> {
    pub channels: Registry<T>,
    pub logging_tab: LoggingTab,
    pub current_channel_hash: String,
}

impl<T> Console<T> {
    pub open spec fn wf(&self) -> bool {
        self.channels.wf()
    }

    pub open spec fn state(&self) -> StateView<T> {
        (self.channels@, lines_view(self.logging_tab.lines@))
    }

    /// An empty registry, a fresh log, and no active channel.
    pub fn new() -> (r: Self)
        ensures
            r.wf(),
            r.channels@ == Seq::<EntryView<T>>::empty(),
            lines_view(r.logging_tab.lines@) == seq![("Server is not running!"@, MessageType::Warning)],
            r.current_channel_hash@ == Seq::<char>::empty(),
    {
        Console { channels: Registry::new(), logging_tab: LoggingTab::new(), current_channel_hash: String::new() }
    }

    /// Applies one event.
    pub fn apply(&mut self, e: ThreadMessage<T>)
        requires
            old(self).wf(),
        ensures
            final(self).wf(),
            final(self).state() == apply_event(old(self).state(), old(self).current_channel_hash@, e),
            final(self).current_channel_hash == old(self).current_channel_hash,
            final(self).logging_tab.errors == old(self).logging_tab.errors,
            final(self).logging_tab.warnings == old(self).logging_tab.warnings,
            final(self).logging_tab.info == old(self).logging_tab.info,
    {
        let ghost ev = e;
        let ghost lines = self.logging_tab.lines@;
        match e {
            ThreadMessage::Error(t) => {
                self.logging_tab.lines.push((t, MessageType::Error));
            },
            ThreadMessage::Warning(t) => {
                self.logging_tab.lines.push((t, MessageType::Warning));
            },
            ThreadMessage::Info(t) => {
                self.logging_tab.lines.push((t, MessageType::Info));
            },
            ThreadMessage::PlotPoint(v) => {
                self.channels.append(&self.current_channel_hash, v);
            },
            ThreadMessage::PlotOnLine(k, v) => {
                self.channels.append(&k, v);
            },
        }
        assert(self.state() =~= apply_event(old(self).state(), old(self).current_channel_hash@, ev));
    }

    /// Applies a batch of events, in order, before returning.
    pub fn ingest(&mut self, events: Vec<ThreadMessage<T>>)
        requires
            old(self).wf(),
        ensures
            final(self).wf(),
            final(self).state() == apply_all(old(self).state(), old(self).current_channel_hash@, events@),
            final(self).current_channel_hash == old(self).current_channel_hash,
            final(self).logging_tab.errors == old(self).logging_tab.errors,
            final(self).logging_tab.warnings == old(self).logging_tab.warnings,
            final(self).logging_tab.info == old(self).logging_tab.info,
    {
        let mut rest = events;
        while rest.len() > 0
            invariant
                self.wf(),
                self.current_channel_hash == old(self).current_channel_hash,
                self.logging_tab.errors == old(self).logging_tab.errors,
                self.logging_tab.warnings == old(self).logging_tab.warnings,
                self.logging_tab.info == old(self).logging_tab.info,
                apply_all(self.state(), self.current_channel_hash@, rest@) == apply_all(
                    old(self).state(),
                    old(self).current_channel_hash@,
                    events@,
                ),
            decreases rest@.len(),
        {
            let ghost before = rest@;
            let e = rest.remove(0);
            assert(rest@ =~= before.skip(1));
            self.apply(e);
        }
        proof {
            lemma_apply_none::<T>(self.state(), self.current_channel_hash@, rest@);
        }
    }

    /// Drains every pending event from `bus` and applies them in order.
    pub fn receive_messages(&mut self, bus: &mut Bus<T>)
        requires
            old(self).wf(),
            old(bus).wf(),
        ensures
            final(self).wf(),
            final(bus).wf(),
            final(self).state() == apply_all(old(self).state(), old(self).current_channel_hash@, old(bus).pending()),
            final(bus).pending() == Seq::<ThreadMessage<T>>::empty(),
            final(bus).sent() == old(bus).sent(),
            final(bus).delivered() == old(bus).delivered() + old(bus).pending(),
            final(bus).is_closed() == old(bus).is_closed(),
            final(self).current_channel_hash == old(self).current_channel_hash,
            final(self).logging_tab.errors == old(self).logging_tab.errors,
            final(self).logging_tab.warnings == old(self).logging_tab.warnings,
            final(self).logging_tab.info == old(self).logging_tab.info,
    {
        let events = bus.drain();
        self.ingest(events);
    }
}

/// Applying two batches one after the other is applying them joined, in
/// the same order: splitting a stream of events over several drains changes
/// nothing.
pub proof fn lemma_apply_split<T>(
    st: StateView<T>,
    active: Seq<char>,
    q1: Seq<ThreadMessage<T>>,
    q2: Seq<ThreadMessage<T>>,
)
    ensures
        apply_all(apply_all(st, active, q1), active, q2) == apply_all(st, active, q1 + q2),
    decreases q1.len(),
{
    if q1.len() > 0 {
        assert((q1 + q2).skip(1) =~= q1.skip(1) + q2);
        assert((q1 + q2)[0] == q1[0]);
        lemma_apply_split(apply_event(st, active, q1[0]), active, q1.skip(1), q2);
    } else {
        assert(q1 + q2 =~= q2);
    }
}

/// The samples in `es` that go to the channel named `k`, in order: those
/// targeted at `k`, and the bare ones when `k` is the active channel.
pub open spec fn routed_to<T>(es: Seq<ThreadMessage<T>>, active: Seq<char>, k: Seq<char>) -> Seq<T>
    decreases es.len(),
{
    if es.len() == 0 {
        Seq::<T>::empty()
    } else {
        let rest = routed_to(es.skip(1), active, k);
        match es[0] {
            ThreadMessage::PlotOnLine(k2, v) => if k2@ == k {
                seq![v] + rest
            } else {
                rest
            },
            ThreadMessage::PlotPoint(v) => if active == k {
                seq![v] + rest
            } else {
                rest
            },
            _ => rest,
        }
    }
}

proof fn lemma_append_keeps_entry<T>(s: Seq<EntryView<T>>, k2: Seq<char>, v: T, k: Seq<char>)
    requires
        keys_unique(s),
        has_key(s, k),
    ensures
        ({
            let a = append_spec(s, k2, v);
            &&& keys_unique(a)
            &&& has_key(a, k)
            &&& a.len() == s.len()
            &&& position(a, k) == position(s, k)
            &&& a[position(a, k)].1 == if k2 == k {
                s[position(s, k)].1.push(v)
            } else {
                s[position(s, k)].1
            }
        }),
{
    let a = append_spec(s, k2, v);
    assert forall|i: int| 0 <= i < a.len() implies a[i].0 == s[i].0 by {}
    let p = position(s, k);
    assert(a[p].0 == k);
    let q = position(a, k);
    assert(s[q].0 == k);
    if has_key(s, k2) {
        let j = position(s, k2);
        if k2 == k {
            assert(j == p);
        } else {
            assert(j != p);
        }
    }
}

/// Ingesting a batch extends each existing channel's samples by exactly the
/// samples of the batch routed to it, in the order they were sent; the
/// channel stays, and no channel is added or dropped.
pub proof fn lemma_ingest_per_channel<T>(
    st: StateView<T>,
    active: Seq<char>,
    es: Seq<ThreadMessage<T>>,
    k: Seq<char>,
)
    requires
        keys_unique(st.0),
        has_key(st.0, k),
    ensures
        ({
            let after = apply_all(st, active, es).0;
            &&& keys_unique(after)
            &&& has_key(after, k)
            &&& after.len() == st.0.len()
            &&& after[position(after, k)].1 == st.0[position(st.0, k)].1 + routed_to(es, active, k)
        }),
    decreases es.len(),
{
    if es.len() == 0 {
        assert(st.0[position(st.0, k)].1 + routed_to(es, active, k) =~= st.0[position(st.0, k)].1);
    } else {
        let st1 = apply_event(st, active, es[0]);
        match es[0] {
            ThreadMessage::PlotOnLine(k2, v) => {
                lemma_append_keeps_entry(st.0, k2@, v, k);
            },
            ThreadMessage::PlotPoint(v) => {
                lemma_append_keeps_entry(st.0, active, v, k);
            },
            _ => {},
        }
        lemma_ingest_per_channel(st1, active, es.skip(1), k);
        let s0 = st.0[position(st.0, k)].1;
        let rest = routed_to(es.skip(1), active, k);
        match es[0] {
            ThreadMessage::PlotOnLine(k2, v) => {
                if k2@ == k {
                    assert(s0.push(v) + rest =~= s0 + (seq![v] + rest));
                }
            },
            ThreadMessage::PlotPoint(v) => {
                if active == k {
                    assert(s0.push(v) + rest =~= s0 + (seq![v] + rest));
                }
            },
            _ => {},
        }
    }
}

proof fn lemma_apply_none<T>(st: StateView<T>, active: Seq<char>, es: Seq<ThreadMessage<T>>)
    requires
        es.len() == 0,
    ensures
        apply_all(st, active, es) == st,
{
}

} // verus!
