use vstd::prelude::*;
use crate::sim::{SimulationSummary, summaries_fit};

verus! {

/// The counters of a summary, in order: wins, pushes, losses, early endings,
/// winnings, player blackjacks, hands played.
pub open spec fn counters(s: SimulationSummary) -> Seq<int> {
    seq![
        s.wins as int,
        s.pushes as int,
        s.losses as int,
        s.early_endings as int,
        s.winnings as int,
        s.player_blackjacks as int,
        s.hands_played as int,
    ]
}

pub open spec fn add_counters(a: Seq<int>, b: Seq<int>) -> Seq<int> {
    Seq::new(7, |j: int| a[j] + b[j])
}

pub open spec fn zero_counters() -> Seq<int> {
    Seq::new(7, |j: int| 0)
}

/// What the aggregator knows: the ids still running, and for each id that
/// has reported, the sum of its reports.
pub type AggregateView = (Set<usize>, Map<usize, Seq<int>>);

/// The state before any message, with workers `1..=k` running.
pub open spec fn initial_view(k: usize) -> AggregateView {
    (Set::new(|id: usize| 1 <= id <= k), Map::empty())
}

/// One message: a report is added to its worker's running sum (created on
/// first use); a sentinel retires its worker's id.
pub open spec fn step(v: AggregateView, msg: Option<SimulationSummary>, id: usize) -> AggregateView {
    match msg {
        Some(d) => (
            v.0,
            v.1.insert(
                id,
                if v.1.contains_key(id) {
                    add_counters(v.1[id], counters(d))
                } else {
                    counters(d)
                },
            ),
        ),
        None => (v.0.remove(id), v.1),
    }
}

/// The state after `msgs`, in order.
pub open spec fn after(v: AggregateView, msgs: Seq<(Option<SimulationSummary>, usize)>) -> AggregateView
    decreases msgs.len(),
{
    if msgs.len() == 0 {
        v
    } else {
        step(after(v, msgs.drop_last()), msgs.last().0, msgs.last().1)
    }
}

/// Whether `msgs` holds the sentinel of `id`.
pub open spec fn sentinel_sent(msgs: Seq<(Option<SimulationSummary>, usize)>, id: usize) -> bool {
    exists|i: int| 0 <= i < msgs.len() && (#[trigger] msgs[i]).0.is_none() && msgs[i].1 == id
}

/// Whether `msgs` holds a report from `id`.
pub open spec fn report_sent(msgs: Seq<(Option<SimulationSummary>, usize)>, id: usize) -> bool {
    exists|i: int| 0 <= i < msgs.len() && (#[trigger] msgs[i]).0.is_some() && msgs[i].1 == id
}

/// The sum of the counters of every report from `id` in `msgs`.
pub open spec fn reports_sum(msgs: Seq<(Option<SimulationSummary>, usize)>, id: usize) -> Seq<int>
    decreases msgs.len(),
{
    if msgs.len() == 0 {
        zero_counters()
    } else {
        let rest = reports_sum(msgs.drop_last(), id);
        match msgs.last().0 {
            Some(d) => if msgs.last().1 == id {
                add_counters(rest, counters(d))
            } else {
                rest
            },
            None => rest,
        }
    }
}

/// Aggregation is complete exactly when every worker's sentinel has
/// arrived, whatever the interleaving, and each worker's merged totals are
/// the sums of all its reports.
pub proof fn lemma_aggregation(k: usize, msgs: Seq<(Option<SimulationSummary>, usize)>)
    ensures
        after(initial_view(k), msgs).0 == Set::new(
            |id: usize| 1 <= id <= k && !sentinel_sent(msgs, id),
        ),
        after(initial_view(k), msgs).0.is_empty() <==> forall|id: usize|
            1 <= id <= k ==> #[trigger] sentinel_sent(msgs, id),
        forall|id: usize|
            #[trigger] after(initial_view(k), msgs).1.contains_key(id) <==> report_sent(msgs, id),
        forall|id: usize|
            report_sent(msgs, id) ==> #[trigger] after(initial_view(k), msgs).1[id] =~= reports_sum(
                msgs,
                id,
            ),
    decreases msgs.len(),
{
    let v = after(initial_view(k), msgs);
    if msgs.len() == 0 {
        assert(v.0 =~= Set::new(|id: usize| 1 <= id <= k && !sentinel_sent(msgs, id)));
    } else {
        let pre = msgs.drop_last();
        let (m, id0) = msgs.last();
        lemma_aggregation(k, pre);
        let u = after(initial_view(k), pre);
        assert forall|id: usize| sentinel_sent(msgs, id) <==> (sentinel_sent(pre, id) || (m.is_none()
            && id == id0)) by {
            if sentinel_sent(msgs, id) {
                let i = choose|i: int|
                    0 <= i < msgs.len() && (#[trigger] msgs[i]).0.is_none() && msgs[i].1 == id;
                if i < pre.len() {
                    assert(pre[i] == msgs[i]);
                }
            }
            if sentinel_sent(pre, id) {
                let i = choose|i: int|
                    0 <= i < pre.len() && (#[trigger] pre[i]).0.is_none() && pre[i].1 == id;
                assert(msgs[i] == pre[i]);
            }
            if m.is_none() && id == id0 {
                assert(msgs[msgs.len() - 1] == msgs.last());
            }
        }
        assert forall|id: usize| report_sent(msgs, id) <==> (report_sent(pre, id) || (m.is_some()
            && id == id0)) by {
            if report_sent(msgs, id) {
                let i = choose|i: int|
                    0 <= i < msgs.len() && (#[trigger] msgs[i]).0.is_some() && msgs[i].1 == id;
                if i < pre.len() {
                    assert(pre[i] == msgs[i]);
                }
            }
            if report_sent(pre, id) {
                let i = choose|i: int|
                    0 <= i < pre.len() && (#[trigger] pre[i]).0.is_some() && pre[i].1 == id;
                assert(msgs[i] == pre[i]);
            }
            if m.is_some() && id == id0 {
                assert(msgs[msgs.len() - 1] == msgs.last());
            }
        }
        assert(v.0 =~= Set::new(|id: usize| 1 <= id <= k && !sentinel_sent(msgs, id)));
        assert forall|id: usize| report_sent(msgs, id) implies #[trigger] v.1[id] =~= reports_sum(
            msgs,
            id,
        ) by {
            if !report_sent(pre, id) {
                assert(reports_sum(pre, id) =~= zero_counters()) by {
                    lemma_no_reports(pre, id);
                }
            }
        }
    }
    let p = Set::new(|id: usize| 1 <= id <= k && !sentinel_sent(msgs, id));
    assert(v.0 == p);
    if v.0.is_empty() {
        assert forall|id: usize| 1 <= id <= k implies #[trigger] sentinel_sent(msgs, id) by {
            if !sentinel_sent(msgs, id) {
                assert(p.contains(id));
            }
        }
    }
    if forall|id: usize| 1 <= id <= k ==> #[trigger] sentinel_sent(msgs, id) {
        assert(p =~= Set::empty());
    }
}

/// Without a report from `id`, its sum is zero.
proof fn lemma_no_reports(msgs: Seq<(Option<SimulationSummary>, usize)>, id: usize)
    requires
        !report_sent(msgs, id),
    ensures
        reports_sum(msgs, id) =~= zero_counters(),
    decreases msgs.len(),
{
    if msgs.len() > 0 {
        let pre = msgs.drop_last();
        assert(!report_sent(pre, id)) by {
            if report_sent(pre, id) {
                let i = choose|i: int|
                    0 <= i < pre.len() && (#[trigger] pre[i]).0.is_some() && pre[i].1 == id;
                assert(msgs[i] == pre[i]);
            }
        }
        lemma_no_reports(pre, id);
        if msgs.last().0.is_some() && msgs.last().1 == id {
            assert(msgs[msgs.len() - 1] == msgs.last());
        }
    }
}

/// Merges the reports of workers `1..=k` and tracks which are still running.
pub struct Aggregator {
    /// The merged report of worker `id`, at `id - 1`; `None` before its first.
    pub merged: Vec<Option<SimulationSummary>>,
    /// Whether worker `id` has sent its sentinel, at `id - 1`.
    pub finished: Vec<bool>,
}

impl Aggregator {
    pub open spec fn wf(&self) -> bool {
        self.merged@.len() == self.finished@.len()
    }

    pub open spec fn view(&self) -> AggregateView {
        (
            Set::new(|id: usize| 1 <= id <= self.finished@.len() && !self.finished@[id - 1]),
            Map::new(
                |id: usize| 1 <= id <= self.merged@.len() && self.merged@[id - 1].is_some(),
                |id: usize| counters(self.merged@[id - 1].unwrap()),
            ),
        )
    }

    /// An aggregator waiting on workers `1..=k`.
    pub fn new(k: usize) -> (a: Aggregator)
        ensures
            a.wf(),
            a.merged@.len() == k,
            a.view() == initial_view(k),
    {
        let mut merged: Vec<Option<SimulationSummary>> = Vec::new();
        let mut finished: Vec<bool> = Vec::new();
        let mut i: usize = 0;
        while i < k
            invariant
                i <= k,
                merged@.len() == i,
                finished@.len() == i,
                forall|j: int| 0 <= j < i ==> (#[trigger] merged@[j]).is_none(),
                forall|j: int| 0 <= j < i ==> !(#[trigger] finished@[j]),
            decreases k - i,
        {
            merged.push(None);
            finished.push(false);
            i = i + 1;
        }
        let a = Aggregator { merged, finished };
        assert(a.view().0 =~= initial_view(k).0);
        assert(a.view().1 =~= initial_view(k).1);
        a
    }

    /// Whether `msg` from `id` can be taken in: `id` is one of the workers,
    /// and a report does not overflow its worker's merged totals.
    pub open spec fn accepts(&self, msg: &Option<SimulationSummary>, id: usize) -> bool {
        &&& 1 <= id <= self.merged@.len()
        &&& msg matches Some(d) ==> (self.merged@[id - 1] matches Some(m) ==> summaries_fit(&m, d))
    }

    /// Whether `msg` from `id` can be taken in.
    pub fn can_receive(&self, msg: &Option<SimulationSummary>, id: usize) -> (b: bool)
        requires
            self.wf(),
        ensures
            b == self.accepts(msg, id),
    {
        if id < 1 || id > self.merged.len() {
            return false;
        }
        match msg {
            Some(d) => match &self.merged[id - 1] {
                Some(m) => m.can_merge(d),
                None => true,
            },
            None => true,
        }
    }

    /// Takes in one message from worker `id`.
    pub fn receive(&mut self, msg: Option<SimulationSummary>, id: usize)
        requires
            old(self).wf(),
            old(self).accepts(&msg, id),
        ensures
            final(self).wf(),
            final(self).merged@.len() == old(self).merged@.len(),
            final(self).view() == step(old(self).view(), msg, id),
    {
        let ghost v0 = self.view();
        let ghost m0 = msg;
        match msg {
            Some(d) => {
                let slot = self.merged.remove(id - 1);
                let merged = match slot {
                    Some(mut m) => {
                        m.merge(&d);
                        m
                    },
                    None => d,
                };
                let ghost mc = merged;
                self.merged.insert(id - 1, Some(merged));
                proof {
                    assert(self.view().0 =~= v0.0);
                    assert(counters(mc) =~= (if v0.1.contains_key(id) {
                        add_counters(v0.1[id], counters(m0.unwrap()))
                    } else {
                        counters(m0.unwrap())
                    }));
                    assert(self.view().1 =~= step(v0, m0, id).1);
                }
            },
            None => {
                self.finished.set(id - 1, true);
                proof {
                    assert(self.view().0 =~= v0.0.remove(id));
                    assert(self.view().1 =~= v0.1);
                }
            },
        }
    }

    /// Whether every worker has sent its sentinel.
    pub fn is_complete(&self) -> (b: bool)
        requires
            self.wf(),
        ensures
            b == self.view().0.is_empty(),
    {
        let n = self.finished.len();
        let mut i: usize = 0;
        while i < n
            invariant
                n == self.finished@.len(),
                i <= n,
                forall|j: int| 0 <= j < i ==> #[trigger] self.finished@[j],
            decreases n - i,
        {
            if !self.finished[i] {
                assert(self.view().0.contains((i + 1) as usize));
                return false;
            }
            i = i + 1;
        }
        assert(self.view().0 =~= Set::empty());
        true
    }
}

} // verus!
