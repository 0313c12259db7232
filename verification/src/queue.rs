//! The work queue of tracks waiting to be downloaded and separated.
//!
//! `pending` is the order in which jobs are handed out; `queued` holds every
//! track id that is waiting or being worked on, so that a track is never
//! enqueued twice.
use std::collections::VecDeque;
use vstd::prelude::*;

use crate::text::str_eq;

verus! {

/// A job: the track to work on and the yt-dlp query (or local path) for it.
pub struct WorkItem {
    pub track_id: String,
    pub query: String,
}

/// A work item seen as `(track id, query)`.
pub type ItemView = (Seq<char>, Seq<char>);

impl View for WorkItem {
    type V = ItemView;

    open spec fn view(&self) -> ItemView {
        (self.track_id@, self.query@)
    }
}

impl WorkItem {
    pub fn new(track_id: String, query: String) -> (w: WorkItem)
        ensures
            w.track_id == track_id,
            w.query == query,
    {
        WorkItem { track_id, query }
    }
}

/// The track ids of a sequence of items, in order.
pub open spec fn ids_of(p: Seq<ItemView>) -> Seq<Seq<char>> {
    p.map_values(|w: ItemView| w.0)
}

/// `k` is the first index of an item for track `id`.
pub open spec fn is_first_pos(p: Seq<ItemView>, id: Seq<char>, k: int) -> bool {
    &&& 0 <= k < p.len()
    &&& p[k].0 == id
    &&& forall|j: int| 0 <= j < k ==> p[j].0 != id
}

/// The position of the first item for track `id`, if any.
pub open spec fn first_pos(p: Seq<ItemView>, id: Seq<char>) -> Option<int> {
    if exists|k: int| is_first_pos(p, id, k) {
        Some(choose|k: int| is_first_pos(p, id, k))
    } else {
        None
    }
}

/// `p` without the items for track `id`, the others kept in order.
pub open spec fn without_id(p: Seq<ItemView>, id: Seq<char>) -> Seq<ItemView>
    decreases p.len(),
{
    if p.len() == 0 {
        p
    } else if p.last().0 == id {
        without_id(p.drop_last(), id)
    } else {
        without_id(p.drop_last(), id).push(p.last())
    }
}

/// The pending order after `enqueue(item, front)`.
pub open spec fn enqueue_pending(
    p: Seq<ItemView>,
    q: Set<Seq<char>>,
    item: ItemView,
    front: bool,
) -> Seq<ItemView> {
    if q.contains(item.0) {
        if front {
            match first_pos(p, item.0) {
                Some(k) => seq![p[k]] + p.remove(k),
                None => p,
            }
        } else {
            p
        }
    } else if front {
        seq![item] + p
    } else {
        p.push(item)
    }
}

/// The set of queued ids after `enqueue(item, _)`.
pub open spec fn enqueue_queued(q: Set<Seq<char>>, item: ItemView) -> Set<Seq<char>> {
    q.insert(item.0)
}

/// The two lanes of the queue: the waiting jobs in order, and the ids of
/// every track waiting or being worked on.
struct Lanes {
    pending: VecDeque<WorkItem>,
    queued: Vec<String>,
}

impl Lanes {
    /// The waiting items, in the order they will be handed out.
    spec fn pending_view(&self) -> Seq<ItemView> {
        self.pending@.map_values(|w: WorkItem| w@)
    }

    /// The ids of every track waiting or being worked on.
    spec fn queued_view(&self) -> Set<Seq<char>> {
        self.queued@.map_values(|s: String| s@).to_set()
    }

    /// What every operation keeps: no track id is waiting twice, no id is
    /// recorded twice, and every waiting item is recorded as queued.
    spec fn wf(&self) -> bool {
        &&& ids_of(self.pending_view()).no_duplicates()
        &&& self.queued@.map_values(|s: String| s@).no_duplicates()
        &&& forall|i: int|
            0 <= i < self.pending_view().len() ==> self.queued_view().contains(
                #[trigger] self.pending_view()[i].0,
            )
    }

    /// An empty queue.
    fn new() -> (q: Lanes)
        ensures
            q.wf(),
            q.pending_view() == Seq::<ItemView>::empty(),
            q.queued_view() == Set::<Seq<char>>::empty(),
    {
        let q = Lanes { pending: VecDeque::new(), queued: Vec::new() };
        assert(q.pending_view() =~= Seq::<ItemView>::empty());
        assert(q.queued_view() =~= Set::<Seq<char>>::empty());
        q
    }

    /// Index of `id` in `queued`, if present.
    fn queued_index(&self, id: &str) -> (r: Option<usize>)
        ensures
            match r {
                Some(i) => i < self.queued@.len() && self.queued@[i as int]@ == id@,
                None => !self.queued_view().contains(id@),
            },
    {
        let mut i: usize = 0;
        while i < self.queued.len()
            invariant
                i <= self.queued@.len(),
                forall|j: int| 0 <= j < i ==> self.queued@[j]@ != id@,
            decreases self.queued.len() - i,
        {
            if str_eq(self.queued[i].as_str(), id) {
                return Some(i);
            }
            i = i + 1;
        }
        proof {
            if self.queued_view().contains(id@) {
                let s = self.queued@.map_values(|s: String| s@);
                assert(s.contains(id@));
                let k = choose|k: int| 0 <= k < s.len() && s[k] == id@;
                assert(self.queued@[k]@ == id@);
            }
        }
        None
    }

    /// Position of the first waiting item for `id`.
    fn pending_position(&self, id: &str) -> (r: Option<usize>)
        ensures
            match r {
                Some(k) => first_pos(self.pending_view(), id@) == Some(k as int),
                None => first_pos(self.pending_view(), id@) is None,
            },
    {
        let ghost p = self.pending_view();
        let mut i: usize = 0;
        while i < self.pending.len()
            invariant
                p == self.pending_view(),
                i <= self.pending@.len(),
                forall|j: int| 0 <= j < i ==> p[j].0 != id@,
            decreases self.pending.len() - i,
        {
            if str_eq(self.pending[i].track_id.as_str(), id) {
                proof {
                    assert(is_first_pos(p, id@, i as int));
                    lemma_first_pos_unique(p, id@, i as int);
                }
                return Some(i);
            }
            i = i + 1;
        }
        proof {
            assert(!exists|k: int| is_first_pos(p, id@, k));
        }
        None
    }

    /// Adds a job. A track that is already queued is not added again; with
    /// `front`, a waiting job for that track moves to the front instead.
    fn enqueue(&mut self, item: WorkItem, front: bool)
        requires
            old(self).wf(),
        ensures
            final(self).wf(),
            final(self).pending_view() == enqueue_pending(
                old(self).pending_view(),
                old(self).queued_view(),
                item@,
                front,
            ),
            final(self).queued_view() == enqueue_queued(old(self).queued_view(), item@),
    {
        let ghost p = self.pending_view();
        let ghost q = self.queued_view();
        let found = self.queued_index(item.track_id.as_str());
        if let Some(qi) = found {
            assert(q.contains(item@.0)) by {
                let s = self.queued@.map_values(|s: String| s@);
                assert(s[qi as int] == item@.0);
            }
            assert(enqueue_queued(q, item@) =~= q);
            if front {
                match self.pending_position(item.track_id.as_str()) {
                    Some(pos) => {
                        let existing = self.pending.remove(pos);
                        match existing {
                            Some(w) => {
                                self.pending.push_front(w);
                                proof {
                                    assert(self.pending_view() =~= seq![p[pos as int]] + p.remove(
                                        pos as int,
                                    ));
                                    lemma_move_front(p, pos as int);
                                    let np = self.pending_view();
                                    assert forall|i: int| 0 <= i < np.len() implies q.contains(
                                        #[trigger] np[i].0,
                                    ) by {
                                        let j = choose|j: int| 0 <= j < p.len() && p[j] == np[i];
                                        assert(q.contains(p[j].0));
                                    }
                                }
                            },
                            None => {},
                        }
                    },
                    None => {},
                }
            }
            return ;
        }
        let ghost qs = self.queued@.map_values(|s: String| s@);
        let id = item.track_id.clone();
        self.queued.push(id);
        proof {
            assert(self.queued@.map_values(|s: String| s@) =~= qs.push(item@.0));
            lemma_push_no_dup(qs, item@.0);
            lemma_to_set_push(qs, item@.0);
        }
        if front {
            self.pending.push_front(item);
            assert(self.pending_view() =~= seq![item@] + p);
        } else {
            self.pending.push_back(item);
            assert(self.pending_view() =~= p.push(item@));
        }
        proof {
            let np = self.pending_view();
            assert forall|i: int, j: int|
                0 <= i < ids_of(np).len() && 0 <= j < ids_of(np).len() && i != j implies ids_of(
                np,
            )[i] != ids_of(np)[j] by {
                if front {
                    if i > 0 && j > 0 {
                        assert(ids_of(p)[i - 1] == np[i].0);
                        assert(ids_of(p)[j - 1] == np[j].0);
                    } else if i == 0 {
                        assert(q.contains(p[j - 1].0));
                    } else {
                        assert(q.contains(p[i - 1].0));
                    }
                } else {
                    if i < p.len() && j < p.len() {
                        assert(ids_of(p)[i] == np[i].0);
                        assert(ids_of(p)[j] == np[j].0);
                    } else if i == p.len() {
                        assert(q.contains(p[j].0));
                    } else {
                        assert(q.contains(p[i].0));
                    }
                }
            }
            assert forall|i: int| 0 <= i < np.len() implies self.queued_view().contains(
                #[trigger] np[i].0,
            ) by {
                if front {
                    if i > 0 {
                        assert(q.contains(p[i - 1].0));
                    }
                } else {
                    if i < p.len() {
                        assert(q.contains(p[i].0));
                    }
                }
            }
        }
    }

    /// Marks a job as done: its track is no longer queued and no longer waiting.
    fn finish(&mut self, track_id: &str)
        requires
            old(self).wf(),
        ensures
            final(self).wf(),
            final(self).pending_view() == without_id(old(self).pending_view(), track_id@),
            final(self).queued_view() == old(self).queued_view().remove(track_id@),
    {
        let ghost p = self.pending_view();
        let ghost q = self.queued_view();
        let ghost qs = self.queued@.map_values(|s: String| s@);
        match self.queued_index(track_id) {
            Some(i) => {
                self.queued.remove(i);
                proof {
                    assert(self.queued@.map_values(|s: String| s@) =~= qs.remove(i as int));
                    lemma_remove_no_dup(qs, i as int);
                }
            },
            None => {
                assert(q.remove(track_id@) =~= q);
            },
        }
        assert(self.queued_view() == q.remove(track_id@));
        let ghost nqs = self.queued@.map_values(|s: String| s@);
        let mut kept: VecDeque<WorkItem> = VecDeque::new();
        assert(p.skip(0) =~= p);
        assert(p.take(0) =~= Seq::<ItemView>::empty());
        assert(kept@.map_values(|w: WorkItem| w@) =~= Seq::<ItemView>::empty());
        while self.pending.len() > 0
            invariant
                self.pending@.len() <= p.len(),
                self.queued@.map_values(|s: String| s@) == nqs,
                nqs.to_set() == q.remove(track_id@),
                nqs.no_duplicates(),
                kept@.map_values(|w: WorkItem| w@) == without_id(
                    p.take(p.len() - self.pending@.len()),
                    track_id@,
                ),
                self.pending@.map_values(|w: WorkItem| w@) == p.skip(
                    p.len() - self.pending@.len(),
                ),
            decreases self.pending@.len(),
        {
            let ghost before = self.pending@.len();
            let ghost k = p.len() - before;
            let ghost oldpv = self.pending@;
            let w = self.pending.pop_front();
            match w {
                Some(w) => {
                    assert(p.skip(k)[0] == p[k]);
                    assert(w@ == p[k]);
                    assert(p.take(k + 1).drop_last() =~= p.take(k));
                    assert(p.take(k + 1).last() == p[k]);
                    if !str_eq(w.track_id.as_str(), track_id) {
                        kept.push_back(w);
                        assert(kept@.map_values(|w: WorkItem| w@) =~= without_id(
                            p.take(k),
                            track_id@,
                        ).push(p[k]));
                    }
                    assert forall|i: int|
                        0 <= i < self.pending@.len() implies #[trigger] self.pending@[i]@ == p.skip(
                        k + 1,
                    )[i] by {
                        assert(self.pending@[i] == oldpv[i + 1]);
                        assert(oldpv.map_values(|w: WorkItem| w@)[i + 1] == p.skip(k)[i + 1]);
                    }
                    assert(self.pending@.map_values(|w: WorkItem| w@) =~= p.skip(k + 1));
                },
                None => {},
            }
        }
        assert(p.take(p.len() as int) =~= p);
        self.pending = kept;
        proof {
            lemma_without_id_props(p, track_id@);
            let np = self.pending_view();
            let nq = self.queued_view();
            assert(np == without_id(p, track_id@));
            assert forall|i: int| 0 <= i < np.len() implies nq.contains(#[trigger] np[i].0) by {
                assert(np[i].0 != track_id@);
                assert(p.contains(np[i]));
                let j = choose|j: int| 0 <= j < p.len() && p[j] == np[i];
                assert(q.contains(p[j].0));
            }
            lemma_without_id_no_dup(p, track_id@);
        }
    }

    /// Hands out the next waiting job. Its track stays queued until `finish`.
    fn pop(&mut self) -> (r: Option<WorkItem>)
        requires
            old(self).wf(),
        ensures
            final(self).wf(),
            final(self).queued_view() == old(self).queued_view(),
            match r {
                Some(w) => old(self).pending_view().len() > 0 && w@ == old(
                    self,
                ).pending_view()[0] && final(self).pending_view() == old(
                    self,
                ).pending_view().drop_first(),
                None => old(self).pending_view().len() == 0 && final(self).pending_view() == old(
                    self,
                ).pending_view(),
            },
    {
        let ghost p = self.pending_view();
        let r = self.pending.pop_front();
        proof {
            if r is Some {
                assert(self.pending_view() =~= p.drop_first());
                let np = self.pending_view();
                assert forall|i: int, j: int|
                    0 <= i < ids_of(np).len() && 0 <= j < ids_of(np).len() && i != j implies ids_of(
                    np,
                )[i] != ids_of(np)[j] by {
                    assert(ids_of(p)[i + 1] == np[i].0);
                    assert(ids_of(p)[j + 1] == np[j].0);
                }
                assert forall|i: int| 0 <= i < np.len() implies self.queued_view().contains(
                    #[trigger] np[i].0,
                ) by {
                    assert(np[i] == p[i + 1]);
                }
            }
        }
        r
    }
}


/// A work queue shared by the job runner and the commands that add jobs.
/// No track is waiting twice, and every waiting track is recorded as
/// queued until it is finished.
pub struct WorkQueue {
    lanes: Lanes,
}

impl WorkQueue {
    /// What every operation keeps: no track id is waiting twice, no id is
    /// recorded twice, and every waiting item is recorded as queued.
    #[verifier::type_invariant]
    spec fn well_formed(self) -> bool {
        self.lanes.wf()
    }

    /// The waiting items, in the order they will be handed out.
    pub closed spec fn pending_view(&self) -> Seq<ItemView> {
        self.lanes.pending_view()
    }

    /// The ids of every track waiting or being worked on.
    pub closed spec fn queued_view(&self) -> Set<Seq<char>> {
        self.lanes.queued_view()
    }

    /// An empty queue.
    pub fn new() -> (q: WorkQueue)
        ensures
            q.pending_view() == Seq::<ItemView>::empty(),
            q.queued_view() == Set::<Seq<char>>::empty(),
    {
        WorkQueue { lanes: Lanes::new() }
    }

    /// Adds a job. A track that is already queued is not added again; with
    /// `front`, a waiting job for that track moves to the front instead.
    pub fn enqueue(&mut self, item: WorkItem, front: bool)
        ensures
            final(self).pending_view() == enqueue_pending(
                old(self).pending_view(),
                old(self).queued_view(),
                item@,
                front,
            ),
            final(self).queued_view() == enqueue_queued(old(self).queued_view(), item@),
    {
        proof {
            use_type_invariant(&*self);
        }
        let mut lanes = Lanes::new();
        std::mem::swap(&mut lanes, &mut self.lanes);
        lanes.enqueue(item, front);
        self.lanes = lanes;
    }

    /// Marks a job as done: its track is no longer queued and no longer waiting.
    pub fn finish(&mut self, track_id: &str)
        ensures
            final(self).pending_view() == without_id(old(self).pending_view(), track_id@),
            final(self).queued_view() == old(self).queued_view().remove(track_id@),
    {
        proof {
            use_type_invariant(&*self);
        }
        let mut lanes = Lanes::new();
        std::mem::swap(&mut lanes, &mut self.lanes);
        lanes.finish(track_id);
        self.lanes = lanes;
    }

    /// Hands out the next waiting job. Its track stays queued until `finish`.
    pub fn pop(&mut self) -> (r: Option<WorkItem>)
        ensures
            final(self).queued_view() == old(self).queued_view(),
            match r {
                Some(w) => old(self).pending_view().len() > 0 && w@ == old(
                    self,
                ).pending_view()[0] && final(self).pending_view() == old(
                    self,
                ).pending_view().drop_first(),
                None => old(self).pending_view().len() == 0 && final(self).pending_view() == old(
                    self,
                ).pending_view(),
            },
    {
        proof {
            use_type_invariant(&*self);
        }
        let mut lanes = Lanes::new();
        std::mem::swap(&mut lanes, &mut self.lanes);
        let r = lanes.pop();
        self.lanes = lanes;
        r
    }

    /// How many jobs are waiting.
    pub fn waiting(&self) -> (n: usize)
        ensures
            n == self.pending_view().len(),
    {
        self.lanes.pending.len()
    }
}

/// Enqueueing a track that is already queued adds nothing: the number of
/// waiting jobs and the set of queued tracks stay the same.
pub proof fn law_enqueue_is_idempotent(
    p: Seq<ItemView>,
    q: Set<Seq<char>>,
    item: ItemView,
    front: bool,
)
    requires
        q.contains(item.0),
    ensures
        enqueue_pending(p, q, item, front).len() == p.len(),
        enqueue_queued(q, item) == q,
{
    if front {
        if let Some(k) = first_pos(p, item.0) {
            let c = choose|c: int| is_first_pos(p, item.0, c);
            assert(is_first_pos(p, item.0, c));
        }
    }
    assert(q.insert(item.0) =~= q);
}

/// Enqueueing, without priority, a track that is already queued changes
/// nothing: the waiting jobs keep their order and the queued set stays.
pub proof fn law_enqueue_queued_without_priority_keeps_order(
    p: Seq<ItemView>,
    q: Set<Seq<char>>,
    item: ItemView,
)
    requires
        q.contains(item.0),
    ensures
        enqueue_pending(p, q, item, false) == p,
        enqueue_queued(q, item) == q,
{
    assert(q.insert(item.0) =~= q);
}

/// Enqueueing a new track without priority puts it last, after every job
/// already waiting, which keep their order.
pub proof fn law_enqueue_new_goes_last(p: Seq<ItemView>, q: Set<Seq<char>>, item: ItemView)
    requires
        !q.contains(item.0),
    ensures
        enqueue_pending(p, q, item, false).len() == p.len() + 1,
        enqueue_pending(p, q, item, false).last() == item,
        enqueue_pending(p, q, item, false).take(p.len() as int) == p,
        enqueue_queued(q, item).contains(item.0),
{
    assert(p.push(item).take(p.len() as int) =~= p);
}

/// A prioritised job goes first: after enqueueing with `front`, the first
/// waiting job is for that track, unless the track is already being worked on.
pub proof fn law_enqueue_front_goes_first(p: Seq<ItemView>, q: Set<Seq<char>>, item: ItemView)
    requires
        !q.contains(item.0) || first_pos(p, item.0) is Some,
    ensures
        enqueue_pending(p, q, item, true).len() > 0,
        enqueue_pending(p, q, item, true)[0].0 == item.0,
{
    if q.contains(item.0) {
        let c = choose|c: int| is_first_pos(p, item.0, c);
        assert(is_first_pos(p, item.0, c));
    }
}

/// A finished track is forgotten: no waiting job is left for it and it is
/// no longer queued, so it can be enqueued again.
pub proof fn law_finish_forgets(p: Seq<ItemView>, q: Set<Seq<char>>, id: Seq<char>)
    ensures
        forall|i: int| 0 <= i < without_id(p, id).len() ==> #[trigger] without_id(p, id)[i].0 != id,
        !q.remove(id).contains(id),
{
    lemma_without_id_props(p, id);
}

/// Finishing a track that was just enqueued (and was not queued before)
/// restores the queue exactly.
pub proof fn law_finish_undoes_enqueue(
    p: Seq<ItemView>,
    q: Set<Seq<char>>,
    item: ItemView,
    front: bool,
)
    requires
        !q.contains(item.0),
        forall|i: int| 0 <= i < p.len() ==> q.contains(#[trigger] p[i].0),
    ensures
        without_id(enqueue_pending(p, q, item, front), item.0) == p,
        enqueue_queued(q, item).remove(item.0) == q,
{
    lemma_without_id_absent(p, item.0);
    let one = seq![item];
    lemma_without_id_concat(one, p, item.0);
    lemma_without_id_concat(p, one, item.0);
    assert(one.drop_last() =~= Seq::<ItemView>::empty());
    assert(one.last() == item);
    assert(without_id(Seq::<ItemView>::empty(), item.0) == Seq::<ItemView>::empty());
    assert(without_id(one, item.0) =~= Seq::<ItemView>::empty());
    assert(p.push(item) =~= p + one);
    assert(Seq::<ItemView>::empty() + p =~= p);
    assert(p + Seq::<ItemView>::empty() =~= p);
    assert(q.insert(item.0).remove(item.0) =~= q);
}

proof fn lemma_without_id_absent(p: Seq<ItemView>, id: Seq<char>)
    requires
        forall|i: int| 0 <= i < p.len() ==> #[trigger] p[i].0 != id,
    ensures
        without_id(p, id) == p,
    decreases p.len(),
{
    if p.len() > 0 {
        let d = p.drop_last();
        assert forall|i: int| 0 <= i < d.len() implies #[trigger] d[i].0 != id by {
            assert(d[i] == p[i]);
        }
        lemma_without_id_absent(d, id);
        assert(p[p.len() - 1].0 != id);
        assert(d.push(p.last()) =~= p);
    }
}

proof fn lemma_without_id_concat(a: Seq<ItemView>, b: Seq<ItemView>, id: Seq<char>)
    ensures
        without_id(a + b, id) == without_id(a, id) + without_id(b, id),
    decreases b.len(),
{
    if b.len() == 0 {
        assert(a + b =~= a);
        assert(without_id(a, id) + without_id(b, id) =~= without_id(a, id));
    } else {
        lemma_without_id_concat(a, b.drop_last(), id);
        assert((a + b).drop_last() =~= a + b.drop_last());
        assert((a + b).last() == b.last());
        if b.last().0 != id {
            assert(without_id(a, id) + without_id(b.drop_last(), id).push(b.last()) =~= (
            without_id(a, id) + without_id(b.drop_last(), id)).push(b.last()));
        }
    }
}

proof fn lemma_first_pos_unique(p: Seq<ItemView>, id: Seq<char>, k: int)
    requires
        is_first_pos(p, id, k),
    ensures
        first_pos(p, id) == Some(k),
{
    let c = choose|c: int| is_first_pos(p, id, c);
    assert(c == k) by {
        if c < k {
            assert(p[c].0 != id);
        } else if c > k {
            assert(p[k].0 != id);
        }
    }
}

proof fn lemma_move_front(p: Seq<ItemView>, pos: int)
    requires
        0 <= pos < p.len(),
        ids_of(p).no_duplicates(),
    ensures
        ids_of(seq![p[pos]] + p.remove(pos)).no_duplicates(),
        forall|i: int|
            0 <= i < (seq![p[pos]] + p.remove(pos)).len() ==> p.contains(
                #[trigger] (seq![p[pos]] + p.remove(pos))[i],
            ),
{
    let np = seq![p[pos]] + p.remove(pos);
    assert(np.len() == p.len());
    assert forall|i: int| 0 <= i < np.len() implies np[i] == p[if i == 0 {
        pos
    } else if i <= pos {
        i - 1
    } else {
        i
    }] by {}
    assert forall|i: int| 0 <= i < np.len() implies p.contains(#[trigger] np[i]) by {
        let j = if i == 0 {
            pos
        } else if i <= pos {
            i - 1
        } else {
            i
        };
        assert(np[i] == p[j]);
    }
    assert forall|i: int, j: int|
        0 <= i < ids_of(np).len() && 0 <= j < ids_of(np).len() && i != j implies ids_of(np)[i]
        != ids_of(np)[j] by {
        let a = if i == 0 {
            pos
        } else if i <= pos {
            i - 1
        } else {
            i
        };
        let b = if j == 0 {
            pos
        } else if j <= pos {
            j - 1
        } else {
            j
        };
        assert(np[i] == p[a]);
        assert(np[j] == p[b]);
        assert(ids_of(p)[a] == p[a].0);
        assert(ids_of(p)[b] == p[b].0);
    }
}

proof fn lemma_push_no_dup(qs: Seq<Seq<char>>, x: Seq<char>)
    requires
        qs.no_duplicates(),
        !qs.contains(x),
    ensures
        qs.push(x).no_duplicates(),
{
    assert forall|i: int, j: int|
        0 <= i < qs.push(x).len() && 0 <= j < qs.push(x).len() && i != j implies qs.push(x)[i]
        != qs.push(x)[j] by {
        if i == qs.len() {
            assert(qs[j] != x);
        } else if j == qs.len() {
            assert(qs[i] != x);
        }
    }
}

proof fn lemma_to_set_push(qs: Seq<Seq<char>>, x: Seq<char>)
    ensures
        qs.push(x).to_set() == qs.to_set().insert(x),
{
    assert forall|y: Seq<char>| qs.push(x).to_set().contains(y) <==> qs.to_set().insert(
        x,
    ).contains(y) by {
        if qs.push(x).contains(y) {
            let i = choose|i: int| 0 <= i < qs.push(x).len() && qs.push(x)[i] == y;
            if i < qs.len() {
                assert(qs[i] == y);
                assert(qs.contains(y));
            }
        }
        if qs.contains(y) {
            let i = choose|i: int| 0 <= i < qs.len() && qs[i] == y;
            assert(qs.push(x)[i] == y);
        }
        if y == x {
            assert(qs.push(x)[qs.len() as int] == y);
        }
    }
    assert(qs.push(x).to_set() =~= qs.to_set().insert(x));
}

proof fn lemma_remove_no_dup(qs: Seq<Seq<char>>, i: int)
    requires
        qs.no_duplicates(),
        0 <= i < qs.len(),
    ensures
        qs.remove(i).no_duplicates(),
        qs.remove(i).to_set() == qs.to_set().remove(qs[i]),
{
    let r = qs.remove(i);
    assert forall|a: int| 0 <= a < r.len() implies r[a] == qs[if a < i {
        a
    } else {
        a + 1
    }] by {}
    assert forall|a: int, b: int| 0 <= a < r.len() && 0 <= b < r.len() && a != b implies r[a]
        != r[b] by {
        let x = if a < i {
            a
        } else {
            a + 1
        };
        let y = if b < i {
            b
        } else {
            b + 1
        };
        assert(r[a] == qs[x]);
        assert(r[b] == qs[y]);
    }
    assert forall|y: Seq<char>| r.contains(y) <==> (qs.contains(y) && y != qs[i]) by {
        if r.contains(y) {
            let a = choose|a: int| 0 <= a < r.len() && r[a] == y;
            let x = if a < i {
                a
            } else {
                a + 1
            };
            assert(qs[x] == y);
        }
        if qs.contains(y) && y != qs[i] {
            let x = choose|x: int| 0 <= x < qs.len() && qs[x] == y;
            let a = if x < i {
                x
            } else {
                x - 1
            };
            assert(r[a] == y);
        }
    }
    assert(r.to_set() =~= qs.to_set().remove(qs[i]));
}

proof fn lemma_without_id_props(p: Seq<ItemView>, id: Seq<char>)
    ensures
        forall|i: int|
            0 <= i < without_id(p, id).len() ==> #[trigger] without_id(p, id)[i].0 != id
                && p.contains(without_id(p, id)[i]),
    decreases p.len(),
{
    if p.len() > 0 {
        let d = p.drop_last();
        lemma_without_id_props(d, id);
        let w = without_id(p, id);
        assert forall|i: int| 0 <= i < w.len() implies #[trigger] w[i].0 != id && p.contains(
            w[i],
        ) by {
            let wd = without_id(d, id);
            if i < wd.len() {
                assert(w[i] == wd[i]);
                assert(wd[i].0 != id);
                assert(d.contains(wd[i]));
                let j = choose|j: int| 0 <= j < d.len() && d[j] == wd[i];
                assert(p[j] == w[i]);
            } else {
                assert(w[i] == p.last());
                assert(p[p.len() - 1] == w[i]);
            }
        }
    }
}

proof fn lemma_without_id_no_dup(p: Seq<ItemView>, id: Seq<char>)
    requires
        ids_of(p).no_duplicates(),
    ensures
        ids_of(without_id(p, id)).no_duplicates(),
    decreases p.len(),
{
    if p.len() > 0 {
        let d = p.drop_last();
        assert forall|i: int, j: int|
            0 <= i < ids_of(d).len() && 0 <= j < ids_of(d).len() && i != j implies ids_of(d)[i]
            != ids_of(d)[j] by {
            assert(ids_of(d)[i] == ids_of(p)[i]);
            assert(ids_of(d)[j] == ids_of(p)[j]);
        }
        lemma_without_id_no_dup(d, id);
        lemma_without_id_props(d, id);
        let wd = without_id(d, id);
        if p.last().0 != id {
            let w = wd.push(p.last());
            assert forall|i: int, j: int|
                0 <= i < ids_of(w).len() && 0 <= j < ids_of(w).len() && i != j implies ids_of(w)[i]
                != ids_of(w)[j] by {
                if i < wd.len() && j < wd.len() {
                    assert(ids_of(wd)[i] == w[i].0);
                    assert(ids_of(wd)[j] == w[j].0);
                } else {
                    let k = if i < wd.len() {
                        i
                    } else {
                        j
                    };
                    assert(wd[k].0 != id);
                    assert(d.contains(wd[k]));
                    let m = choose|m: int| 0 <= m < d.len() && d[m] == wd[k];
                    assert(ids_of(p)[m] == wd[k].0);
                    assert(ids_of(p)[p.len() - 1] == p.last().0);
                }
            }
        }
    }
}

} // verus!
