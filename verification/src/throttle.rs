//! Login throttling: per-source counts of recent failures and of verifications in
//! flight, with a bounded source table.
use vstd::prelude::*;

verus! {

broadcast use vstd::seq_lib::group_seq_properties;

/// The rolling failure window, in seconds.
pub const WINDOW: i64 = 900;

/// Recent failures plus verifications in flight allowed per source.
pub const MAX_ATTEMPTS: usize = 10;

/// The most sources the table tracks at once.
pub const MAX_SOURCES: usize = 4096;

/// Password verifications allowed at once over all sources; a login beyond them is
/// refused at once, never queued.
pub const MAX_VERIFYING: usize = 2;

/// The earliest clock reading (Unix seconds) the throttle computes with: -2^61.
pub const MIN_TIME: i64 = -0x2000_0000_0000_0000;

/// The latest clock reading (Unix seconds) the throttle computes with: 2^61.
pub const MAX_TIME: i64 = 0x2000_0000_0000_0000;

/// Whether a clock reading is one the throttle computes with. The wait it answers is
/// `first + WINDOW - now` for a stored failure time `first` and the current reading `now`,
/// which may lie on either side of each other when the clock is set back; with both
/// within ±2^61 the difference and the window stay far inside `i64` (and so do
/// `now - WINDOW`, a preparation cutoff `now - timeout` with a timeout up to 2^61, and the
/// session expiry `now + 43_200`). The range covers about ±7·10^10 years; the service
/// answers 503 for a reading outside it.
pub open spec fn valid_time(t: i64) -> bool {
    MIN_TIME <= t <= MAX_TIME
}

/// A client address: IPv4 (`v6 == false`, the address in the low 32 bits) or IPv6.
#[derive(Clone, Copy, PartialEq, Eq, Structural, Debug)]
pub struct Source {
    pub v6: bool,
    pub bits: u128,
}

/// What the table keeps for one source: failure times and verifications in flight.
pub struct Attempts {
    pub source: Source,
    pub failures: Vec<i64>,
    pub pending: usize,
}

/// One source's entry as a mathematical value.
pub type EntryView = (Source, Seq<i64>, nat);

pub open spec fn entry_view(e: Attempts) -> EntryView {
    (e.source, e.failures@, e.pending as nat)
}

/// The failure times of `f` still inside the window that ends at `now`.
pub open spec fn recent(f: Seq<i64>, now: i64) -> Seq<i64> {
    f.filter(|t: i64| t > now - WINDOW)
}

pub open spec fn prune_entry(e: EntryView, now: i64) -> EntryView {
    (e.0, recent(e.1, now), e.2)
}

/// Whether an entry still counts for something: a verification in flight or a recent failure.
pub open spec fn is_live(e: EntryView) -> bool {
    e.2 > 0 || e.1.len() > 0
}

/// The table once old failures are dropped and idle sources forgotten.
pub open spec fn prune(es: Seq<EntryView>, now: i64) -> Seq<EntryView> {
    es.map_values(|e: EntryView| prune_entry(e, now)).filter(|e: EntryView| is_live(e))
}

pub open spec fn has_source(es: Seq<EntryView>, s: Source) -> bool {
    exists|i: int| 0 <= i < es.len() && #[trigger] es[i].0 == s
}

pub open spec fn source_index(es: Seq<EntryView>, s: Source) -> int {
    choose|i: int| 0 <= i < es.len() && #[trigger] es[i].0 == s
}

pub open spec fn distinct_sources(es: Seq<EntryView>) -> bool {
    forall|i: int, j: int| 0 <= i < es.len() && 0 <= j < es.len() && i != j ==> es[i].0 != es[j].0
}

/// The seconds a refused source is told to wait: until its earliest recent failure
/// leaves the window (1 when it has none).
pub open spec fn retry_after(f: Seq<i64>, now: i64) -> int {
    if f.len() > 0 {
        f[0] + WINDOW - now
    } else {
        1
    }
}

/// The table after `s` is let through: its verifications in flight grow by one.
pub open spec fn grant(es: Seq<EntryView>, s: Source) -> Seq<EntryView> {
    if has_source(es, s) {
        let i = source_index(es, s);
        es.update(i, (s, es[i].1, es[i].2 + 1))
    } else {
        es.push((s, Seq::<i64>::empty(), 1))
    }
}

/// The table after a verification of `s` ends at `now`: one fewer in flight, and one
/// more failure if it failed.
pub open spec fn finish_entry(es: Seq<EntryView>, s: Source, now: i64, failed: bool) -> Seq<EntryView> {
    let i = source_index(es, s);
    es.update(i, (s, if failed { es[i].1.push(now) } else { es[i].1 }, (es[i].2 - 1) as nat))
}

/// The answer to a login attempt before its password is verified.
#[derive(Clone, Copy, PartialEq, Eq, Structural, Debug)]
pub enum Admission {
    Admitted,
    /// Refused; the value is the raw wait in seconds.
    Limited(i64),
}

/// The login attempt table of the service.
pub struct Throttle {
    entries: Vec<Attempts>,
    verifying: usize,
}

impl View for Throttle {
    type V = Seq<EntryView>;

    closed spec fn view(&self) -> Seq<EntryView> {
        table_view(self.entries@)
    }
}

/// A table's entries as mathematical values.
pub open spec fn table_view(v: Seq<Attempts>) -> Seq<EntryView> {
    v.map_values(|e: Attempts| entry_view(e))
}

/// What holds of the table between calls: sources are distinct, at most 4096 of them
/// are tracked, each has at most 10 recent failures plus verifications in flight, and
/// every failure time is a valid clock reading.
pub open spec fn throttle_inv(es: Seq<EntryView>) -> bool {
    &&& distinct_sources(es)
    &&& es.len() <= MAX_SOURCES
    &&& forall|i: int| 0 <= i < es.len() ==> #[trigger] es[i].1.len() + es[i].2 <= MAX_ATTEMPTS
    &&& forall|i: int, k: int| 0 <= i < es.len() && 0 <= k < es[i].1.len() ==> valid_time(#[trigger] es[i].1[k])
}

fn recent_failures(f: &Vec<i64>, now: i64) -> (r: Vec<i64>)
    requires
        valid_time(now),
    ensures
        r@ == recent(f@, now),
{
    let ghost pred = |t: i64| t > now - WINDOW;
    let mut r: Vec<i64> = Vec::new();
    let mut i: usize = 0;
    while i < f.len()
        invariant
            i <= f.len(),
            valid_time(now),
            pred == (|t: i64| t > now - WINDOW),
            r@ == f@.take(i as int).filter(pred),
        decreases f.len() - i,
    {
        let t = f[i];
        proof {
            assert(f@.take(i + 1) == f@.take(i as int).push(t));
            f@.take(i as int).lemma_filter_push(t, pred);
        }
        if t > now - WINDOW {
            r.push(t);
        }
        i = i + 1;
    }
    proof {
        assert(f@.take(f.len() as int) == f@);
    }
    r
}

proof fn lemma_filter_subset<A>(s: Seq<A>, p: spec_fn(A) -> bool, j: int)
    requires
        0 <= j < s.filter(p).len(),
    ensures
        s.contains(s.filter(p)[j]),
{
    assert(s.filter(p).contains(s.filter(p)[j]));
    s.lemma_filter_contains_rev(p, s.filter(p)[j]);
}

fn pruned(entries: &Vec<Attempts>, now: i64) -> (out: Vec<Attempts>)
    requires
        throttle_inv(table_view(entries@)),
        valid_time(now),
    ensures
        table_view(out@) == prune(table_view(entries@), now),
        throttle_inv(table_view(out@)),
{
    let ghost es = table_view(entries@);
    let ghost f = |e: EntryView| prune_entry(e, now);
    let ghost live = |e: EntryView| is_live(e);
    let mut out: Vec<Attempts> = Vec::new();
    let mut i: usize = 0;
    while i < entries.len()
        invariant
            es == table_view(entries@),
            throttle_inv(es),
            valid_time(now),
            i <= entries.len(),
            f == (|e: EntryView| prune_entry(e, now)),
            live == (|e: EntryView| is_live(e)),
            out@.map_values(|e: Attempts| entry_view(e)) == es.take(i as int).map_values(f).filter(live),
            out@.len() <= i,
            forall|j: int| 0 <= j < out@.len() ==> exists|k: int| 0 <= k < i && #[trigger] out@[j].source == es[k].0,
            forall|j: int| 0 <= j < out@.len() ==> #[trigger] out@[j].failures@.len() + out@[j].pending <= MAX_ATTEMPTS,
            forall|j: int, k: int| 0 <= j < out@.len() && 0 <= k < out@[j].failures@.len() ==> valid_time(#[trigger] out@[j].failures@[k]),
            forall|x: int, y: int| 0 <= x < out@.len() && 0 <= y < out@.len() && x != y ==> out@[x].source != out@[y].source,
        decreases entries.len() - i,
    {
        let e = &entries[i];
        let failures = recent_failures(&e.failures, now);
        let ghost ev = es[i as int];
        proof {
            assert(ev == entry_view(entries@[i as int]));
            assert(es.take(i + 1).map_values(f) =~= es.take(i as int).map_values(f).push(f(ev)));
            es.take(i as int).map_values(f).lemma_filter_push(f(ev), live);
            ev.1.lemma_filter_len(|t: i64| t > now - WINDOW);
            assert forall|k: int| 0 <= k < failures@.len() implies valid_time(#[trigger] failures@[k]) by {
                lemma_filter_subset(ev.1, |t: i64| t > now - WINDOW, k);
                let m = choose|m: int| 0 <= m < ev.1.len() && ev.1[m] == failures@[k];
                assert(valid_time(es[i as int].1[m]));
            }
        }
        if e.pending > 0 || failures.len() > 0 {
            let ghost old_out = out@;
            out.push(Attempts { source: e.source, failures, pending: e.pending });
            proof {
                assert(out@.map_values(|e: Attempts| entry_view(e)) =~= old_out.map_values(|e: Attempts| entry_view(e)).push(f(ev)));
                assert forall|x: int, y: int| 0 <= x < out@.len() && 0 <= y < out@.len() && x != y implies out@[x].source != out@[y].source by {
                    if x == out@.len() - 1 {
                        let k = choose|k: int| 0 <= k < i && #[trigger] out@[y].source == es[k].0;
                        assert(out@[y] == old_out[y]);
                    } else if y == out@.len() - 1 {
                        let k = choose|k: int| 0 <= k < i && #[trigger] out@[x].source == es[k].0;
                        assert(out@[x] == old_out[x]);
                    } else {
                        assert(out@[x] == old_out[x] && out@[y] == old_out[y]);
                    }
                }
                assert forall|j: int| 0 <= j < out@.len() implies exists|k: int| 0 <= k < i + 1 && #[trigger] out@[j].source == es[k].0 by {
                    if j < out@.len() - 1 {
                        assert(out@[j] == old_out[j]);
                        let k = choose|k: int| 0 <= k < i && #[trigger] old_out[j].source == es[k].0;
                        assert(out@[j].source == es[k].0);
                    } else {
                        assert(out@[j].source == es[i as int].0);
                    }
                }
            }
        } else {
            proof {
                assert forall|j: int| 0 <= j < out@.len() implies exists|k: int| 0 <= k < i + 1 && #[trigger] out@[j].source == es[k].0 by {
                    let k = choose|k: int| 0 <= k < i && #[trigger] out@[j].source == es[k].0;
                    assert(out@[j].source == es[k].0);
                }
            }
        }
        i = i + 1;
    }
    proof {
        assert(es.take(es.len() as int) == es);
    }
    out
}

fn find_source(entries: &Vec<Attempts>, source: Source) -> (r: Option<usize>)
    requires
        distinct_sources(table_view(entries@)),
    ensures
        r is Some <==> has_source(table_view(entries@), source),
        r matches Some(i) ==> i == source_index(table_view(entries@), source) && i < entries@.len(),
{
    let mut i: usize = 0;
    while i < entries.len()
        invariant
            i <= entries.len(),
            distinct_sources(table_view(entries@)),
            forall|k: int| 0 <= k < i ==> #[trigger] table_view(entries@)[k].0 != source,
        decreases entries.len() - i,
    {
        proof {
            assert(table_view(entries@)[i as int] == entry_view(entries@[i as int]));
        }
        if entries[i].source == source {
            proof {
                let c = source_index(table_view(entries@), source);
                assert(table_view(entries@)[i as int].0 == source);
                assert(0 <= c < table_view(entries@).len() && table_view(entries@)[c].0 == source);
                if c != i {
                    assert(table_view(entries@)[c].0 != table_view(entries@)[i as int].0);
                }
            }
            return Some(i);
        }
        i = i + 1;
    }
    None
}

impl Throttle {
    /// An empty table.
    pub fn new() -> (t: Throttle)
        ensures
            t@ == Seq::<EntryView>::empty(),
            t.active() == 0,
            throttle_inv(t@),
    {
        let entries: Vec<Attempts> = Vec::new();
        proof {
            assert(table_view(entries@) =~= Seq::<EntryView>::empty());
        }
        Throttle { entries, verifying: 0 }
    }

    /// Every table keeps [`throttle_inv`] between calls, and never more than
    /// [`MAX_VERIFYING`] verifications run at once.
    #[verifier::type_invariant]
    spec fn well_formed(self) -> bool {
        throttle_inv(self@) && self.verifying <= MAX_VERIFYING
    }

    /// The password verifications running now, over all sources.
    pub closed spec fn active(&self) -> nat {
        self.verifying as nat
    }

    /// The password verifications running now, over all sources.
    pub fn verifications(&self) -> (r: usize)
        ensures
            r == self.active(),
            r <= MAX_VERIFYING,
    {
        proof {
            use_type_invariant(self);
        }
        self.verifying
    }

    /// Starts a login attempt from `source` at `now`: refuses it (wait: 1 second, table
    /// untouched) while two verifications run; otherwise drops failures older than the
    /// window and idle sources, refuses a new source when 4096 are tracked (wait: the window),
    /// refuses a source whose recent failures plus verifications in flight reach 10 (wait:
    /// until its earliest failure leaves the window), and otherwise reserves one
    /// verification for it.
    pub fn begin(&mut self, source: Source, now: i64) -> (r: Admission)
        requires
            valid_time(now),
        ensures
            throttle_inv(final(self)@),
            final(self).active() == old(self).active() + (if r == Admission::Admitted { 1nat } else { 0nat }),
            ({
                let p = prune(old(self)@, now);
                if old(self).active() >= MAX_VERIFYING {
                    r == Admission::Limited(1) && final(self)@ == old(self)@
                } else if !has_source(p, source) && p.len() >= MAX_SOURCES {
                    r == Admission::Limited(WINDOW) && final(self)@ == p
                } else if has_source(p, source) && p[source_index(p, source)].1.len()
                    + p[source_index(p, source)].2 >= MAX_ATTEMPTS {
                    &&& r == Admission::Limited(retry_after(p[source_index(p, source)].1, now) as i64)
                    &&& final(self)@ == p
                } else {
                    r == Admission::Admitted && final(self)@ == grant(p, source)
                }
            }),
    {
        proof {
            use_type_invariant(&*self);
        }
        if self.verifying >= MAX_VERIFYING {
            return Admission::Limited(1);
        }
        let mut entries = pruned(&self.entries, now);
        let ghost p = table_view(entries@);
        match find_source(&entries, source) {
            None => {
                if entries.len() >= MAX_SOURCES {
                    self.entries = entries;
                    return Admission::Limited(WINDOW);
                }
                entries.push(Attempts { source, failures: Vec::new(), pending: 1 });
                proof {
                    assert(table_view(entries@) =~= p.push((source, Seq::<i64>::empty(), 1)));
                    assert forall|x: int, y: int| 0 <= x < table_view(entries@).len() && 0 <= y < table_view(entries@).len() && x != y implies table_view(entries@)[x].0 != table_view(entries@)[y].0 by {
                        if x == p.len() {
                            assert(table_view(entries@)[y] == p[y]);
                        } else if y == p.len() {
                            assert(table_view(entries@)[x] == p[x]);
                        } else {
                            assert(table_view(entries@)[x] == p[x] && table_view(entries@)[y] == p[y]);
                        }
                    }
                }
                self.entries = entries;
                self.verifying = self.verifying + 1;
                Admission::Admitted
            },
            Some(i) => {
                proof {
                    assert(p[i as int] == entry_view(entries@[i as int]));
                }
                let count = entries[i].failures.len() + entries[i].pending;
                if count >= MAX_ATTEMPTS {
                    let wait = if entries[i].failures.len() > 0 {
                        let first = entries[i].failures[0];
                        proof {
                            assert(first == p[i as int].1[0]);
                            assert(valid_time(p[i as int].1[0]));
                        }
                        first + WINDOW - now
                    } else {
                        1
                    };
                    self.entries = entries;
                    return Admission::Limited(wait);
                }
                let mut e = entries.remove(i);
                e.pending = e.pending + 1;
                entries.insert(i, e);
                proof {
                    assert(table_view(entries@) =~= p.update(i as int, (source, p[i as int].1, p[i as int].2 + 1)));
                }
                self.entries = entries;
                self.verifying = self.verifying + 1;
                Admission::Admitted
            },
        }
    }

    /// The verifications of `source` in flight (0 for an untracked source).
    pub fn in_flight(&self, source: Source) -> (r: usize)
        ensures
            r == if has_source(self@, source) { self@[source_index(self@, source)].2 } else { 0 },
    {
        proof {
            use_type_invariant(self);
        }
        match find_source(&self.entries, source) {
            Some(i) => {
                proof {
                    assert(self@[i as int] == entry_view(self.entries@[i as int]));
                }
                self.entries[i].pending
            },
            None => 0,
        }
    }

    /// Ends a verification of `source` at `now`: one fewer in flight, and the time is
    /// recorded as a failure if the credentials were refused.
    pub fn finish(&mut self, source: Source, now: i64, failed: bool)
        requires
            valid_time(now),
            has_source(old(self)@, source),
            old(self)@[source_index(old(self)@, source)].2 > 0,
            old(self).active() > 0,
        ensures
            throttle_inv(final(self)@),
            final(self)@ == finish_entry(old(self)@, source, now, failed),
            final(self).active() == old(self).active() - 1,
    {
        proof {
            use_type_invariant(&*self);
        }
        let ghost p = self@;
        let mut entries: Vec<Attempts> = Vec::new();
        proof {
            assert(table_view(entries@) =~= Seq::<EntryView>::empty());
        }
        std::mem::swap(&mut entries, &mut self.entries);
        let i = find_source(&entries, source).unwrap();
        proof {
            assert(p[i as int] == entry_view(entries@[i as int]));
        }
        let mut e = entries.remove(i);
        e.pending = e.pending - 1;
        if failed {
            e.failures.push(now);
        }
        entries.insert(i, e);
        proof {
            assert(table_view(entries@) =~= finish_entry(p, source, now, failed));
        }
        self.entries = entries;
        self.verifying = self.verifying - 1;
    }
}

/// A login that finishes without failing gives its budget back: once the table is pruned,
/// letting `s` through and then finishing its verification successfully leaves the
/// table as it was.
pub proof fn lemma_success_returns_budget(es: Seq<EntryView>, s: Source, now: i64)
    requires
        throttle_inv(es),
        has_source(es, s) ==> es[source_index(es, s)].1.len() + es[source_index(es, s)].2 < MAX_ATTEMPTS,
        !has_source(es, s) ==> es.len() < MAX_SOURCES,
    ensures
        has_source(grant(es, s), s),
        grant(es, s)[source_index(grant(es, s), s)].2 > 0,
        finish_entry(grant(es, s), s, now, false) == (if has_source(es, s) {
            es
        } else {
            es.push((s, Seq::<i64>::empty(), 0))
        }),
{
    let g = grant(es, s);
    if has_source(es, s) {
        let i = source_index(es, s);
        assert(g[i].0 == s);
        let j = source_index(g, s);
        assert(0 <= j < g.len() && g[j].0 == s);
        if j != i {
            assert(g[j] == es[j]);
            assert(es[j].0 != es[i].0);
        }
        assert(finish_entry(g, s, now, false) =~= es);
    } else {
        let i = es.len() as int;
        assert(g[i].0 == s);
        let j = source_index(g, s);
        assert(0 <= j < g.len() && g[j].0 == s);
        if j != i {
            assert(g[j] == es[j]);
            assert(has_source(es, s));
        }
        assert(finish_entry(g, s, now, false) =~= es.push((s, Seq::<i64>::empty(), 0)));
    }
}

proof fn lemma_prune_origin(es: Seq<EntryView>, now: i64)
    requires
        distinct_sources(es),
    ensures
        distinct_sources(prune(es, now)),
        forall|j: int| 0 <= j < prune(es, now).len() ==> exists|k: int| 0 <= k < es.len()
            && #[trigger] prune(es, now)[j] == prune_entry(es[k], now),
    decreases es.len(),
{
    let f = |e: EntryView| prune_entry(e, now);
    let live = |e: EntryView| is_live(e);
    if es.len() == 0 {
        assert(es.map_values(f) =~= Seq::<EntryView>::empty());
        assert(prune(es, now) =~= Seq::<EntryView>::empty()) by {
            reveal(Seq::filter);
        }
    } else {
        let e0 = es.drop_last();
        let x = es.last();
        assert(distinct_sources(e0)) by {
            assert forall|i: int, j: int| 0 <= i < e0.len() && 0 <= j < e0.len() && i != j implies e0[i].0 != e0[j].0 by {
                assert(e0[i] == es[i] && e0[j] == es[j]);
            }
        }
        lemma_prune_origin(e0, now);
        let p0 = prune(e0, now);
        assert(es.map_values(f) =~= e0.map_values(f).push(f(x)));
        e0.map_values(f).lemma_filter_push(f(x), live);
        let p = prune(es, now);
        assert forall|j: int| 0 <= j < p.len() implies exists|k: int| 0 <= k < es.len() && #[trigger] p[j] == prune_entry(es[k], now) by {
            if j < p0.len() {
                assert(p[j] == p0[j]);
                let k = choose|k: int| 0 <= k < e0.len() && #[trigger] p0[j] == prune_entry(e0[k], now);
                assert(es[k] == e0[k]);
            } else {
                assert(p[j] == f(x));
                assert(es[es.len() - 1] == x);
            }
        }
        assert forall|i: int, j: int| 0 <= i < p.len() && 0 <= j < p.len() && i != j implies p[i].0 != p[j].0 by {
            if i < p0.len() && j < p0.len() {
                assert(p[i] == p0[i] && p[j] == p0[j]);
            } else if i < p0.len() {
                let k = choose|k: int| 0 <= k < e0.len() && #[trigger] p0[i] == prune_entry(e0[k], now);
                assert(p[i] == p0[i]);
                assert(es[k] == e0[k]);
                assert(es[k].0 != es[es.len() - 1].0);
            } else if j < p0.len() {
                let k = choose|k: int| 0 <= k < e0.len() && #[trigger] p0[j] == prune_entry(e0[k], now);
                assert(p[j] == p0[j]);
                assert(es[k] == e0[k]);
                assert(es[k].0 != es[es.len() - 1].0);
            }
        }
    }
}

/// Ten failures inside the window lock a source out: when the failures of a tracked
/// source that are still inside the window at `now` number ten or more, the pruned table
/// still holds the source with at least ten recent failures plus verifications in flight,
/// so [`Throttle::begin`] refuses it until the earliest of them leaves the window.
pub proof fn lemma_failures_lock_out(es: Seq<EntryView>, s: Source, now: i64)
    requires
        throttle_inv(es),
        has_source(es, s),
        recent(es[source_index(es, s)].1, now).len() >= MAX_ATTEMPTS,
    ensures
        has_source(prune(es, now), s),
        prune(es, now)[source_index(prune(es, now), s)].1 == recent(es[source_index(es, s)].1, now),
        prune(es, now)[source_index(prune(es, now), s)].1.len() + prune(es, now)[source_index(prune(es, now), s)].2
            >= MAX_ATTEMPTS,
{
    let i = source_index(es, s);
    let f = |e: EntryView| prune_entry(e, now);
    let live = |e: EntryView| is_live(e);
    let m = es.map_values(f);
    assert(m[i] == prune_entry(es[i], now));
    assert(live(m[i]));
    m.lemma_filter_contains(live, i);
    let p = prune(es, now);
    assert(p == m.filter(live));
    assert(p.contains(m[i]));
    let j = choose|j: int| 0 <= j < p.len() && p[j] == m[i];
    assert(p[j].0 == s);
    lemma_prune_origin(es, now);
    let c = source_index(p, s);
    assert(0 <= c < p.len() && p[c].0 == s);
    if c != j {
        assert(p[c].0 != p[j].0);
    }
}

/// The `Retry-After` value sent with a refusal: at least one second.
pub fn retry_after_seconds(seconds: i64) -> (r: i64)
    ensures
        r == if seconds < 1 { 1 } else { seconds },
{
    if seconds < 1 {
        1
    } else {
        seconds
    }
}

} // verus!
