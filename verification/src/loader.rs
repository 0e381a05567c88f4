//! The keyed batch loader.
//!
//! Callers register the keys they need while a batch window is collecting;
//! dispatching seals the window into a plan holding one fetch per distinct
//! key; resolving a plan against the fetch outcomes builds the result map
//! and hands every caller its answers in the order it asked for them.

use vstd::prelude::*;

use crate::types::{clone_ids, Item, ItemView};
use crate::FetchError;

verus! {

/// What one upstream fetch produced for its key.
pub enum FetchOutcome {
    /// Upstream returned a decoded item.
    Present(Item),
    /// Upstream knows no such key: it answered with an empty body.
    Absent,
    /// The fetch failed; the error is recorded here but never surfaced to
    /// callers, who see a plain omission instead.
    Failed(FetchError),
}

/// Ghost image of a [`FetchOutcome`].
#[verifier::ext_equal]
pub enum FetchOutcomeView {
    Present(ItemView),
    Absent,
    Failed(FetchError),
}

impl View for FetchOutcome {
    type V = FetchOutcomeView;

    open spec fn view(&self) -> FetchOutcomeView {
        match self {
            FetchOutcome::Present(item) => FetchOutcomeView::Present(item@),
            FetchOutcome::Absent => FetchOutcomeView::Absent,
            FetchOutcome::Failed(e) => FetchOutcomeView::Failed(*e),
        }
    }
}

/// One key's fetch and how it ended.
pub struct FetchResult {
    /// The key the fetch was issued for.
    pub key: u32,
    /// How the fetch ended.
    pub outcome: FetchOutcome,
}

/// Ghost image of a [`FetchResult`].
#[verifier::ext_equal]
pub struct FetchResultView {
    pub key: u32,
    pub outcome: FetchOutcomeView,
}

impl View for FetchResult {
    type V = FetchResultView;

    open spec fn view(&self) -> FetchResultView {
        FetchResultView { key: self.key, outcome: self.outcome@ }
    }
}

impl FetchResult {
    /// Record that the fetch for `key` returned `item`.
    pub fn present(key: u32, item: Item) -> (r: FetchResult)
        ensures
            r@ == (FetchResultView { key, outcome: FetchOutcomeView::Present(item@) }),
    {
        FetchResult { key, outcome: FetchOutcome::Present(item) }
    }

    /// Record that upstream knows no item under `key`.
    pub fn absent(key: u32) -> (r: FetchResult)
        ensures
            r@ == (FetchResultView { key, outcome: FetchOutcomeView::Absent }),
    {
        FetchResult { key, outcome: FetchOutcome::Absent }
    }

    /// Record that the fetch for `key` failed with `e`.
    pub fn failed(key: u32, e: FetchError) -> (r: FetchResult)
        ensures
            r@ == (FetchResultView { key, outcome: FetchOutcomeView::Failed(e) }),
    {
        FetchResult { key, outcome: FetchOutcome::Failed(e) }
    }
}

/// Ghost images of a sequence of fetch results.
pub open spec fn results_view(s: Seq<FetchResult>) -> Seq<FetchResultView> {
    s.map_values(|fr: FetchResult| fr@)
}

/// The keys of a sequence of fetch results, in order.
pub open spec fn result_keys(s: Seq<FetchResultView>) -> Seq<u32> {
    s.map_values(|fr: FetchResultView| fr.key)
}

/// The result map an outcome sequence gives rise to: exactly the keys whose
/// fetch returned an item, each bound to that item. Absent keys and failed
/// fetches leave no trace.
pub open spec fn successes(s: Seq<FetchResultView>) -> Map<u32, ItemView>
    decreases s.len(),
{
    if s.len() == 0 {
        Map::empty()
    } else {
        let m = successes(s.drop_last());
        match s.last().outcome {
            FetchOutcomeView::Present(v) => m.insert(s.last().key, v),
            FetchOutcomeView::Absent => m,
            FetchOutcomeView::Failed(_) => m,
        }
    }
}

/// What a caller reads for one key: the mapped item, or omission.
pub open spec fn lookup(m: Map<u32, ItemView>, k: u32) -> Option<ItemView> {
    if m.contains_key(k) {
        Option::Some(m[k])
    } else {
        Option::None
    }
}

/// A caller's slice of the result map, position by position in the order
/// the caller requested its keys.
pub open spec fn selection(req: Seq<u32>, m: Map<u32, ItemView>) -> Seq<Option<ItemView>> {
    Seq::new(req.len(), |i: int| lookup(m, req[i]))
}

/// Ghost image of one optional item.
pub open spec fn opt_item_view(o: Option<Item>) -> Option<ItemView> {
    match o {
        Option::Some(item) => Option::Some(item@),
        Option::None => Option::None,
    }
}

/// Ghost images of a sequence of optional items.
pub open spec fn opts_view(s: Seq<Option<Item>>) -> Seq<Option<ItemView>> {
    s.map_values(|o: Option<Item>| opt_item_view(o))
}

/// Ghost images of a sequence of items.
pub open spec fn items_view(s: Seq<Item>) -> Seq<ItemView> {
    s.map_values(|item: Item| item@)
}

/// The present answers of a caller's slice, omissions removed, order kept.
pub open spec fn present_views(s: Seq<Option<ItemView>>) -> Seq<ItemView>
    decreases s.len(),
{
    if s.len() == 0 {
        Seq::empty()
    } else {
        let rest = present_views(s.drop_last());
        match s.last() {
            Option::Some(v) => rest.push(v),
            Option::None => rest,
        }
    }
}

/// Every key in the domain of `successes` was fetched, with an item as
/// outcome.
pub proof fn lemma_successes_dom(s: Seq<FetchResultView>)
    ensures
        forall|k: u32| #[trigger] successes(s).contains_key(k)
            ==> exists|i: int| 0 <= i < s.len() && (#[trigger] s[i]).key == k
                && s[i].outcome is Present,
    decreases s.len(),
{
    if s.len() > 0 {
        lemma_successes_dom(s.drop_last());
        assert forall|k: u32| #[trigger] successes(s).contains_key(k)
            implies exists|i: int| 0 <= i < s.len() && (#[trigger] s[i]).key == k
                && s[i].outcome is Present by {
            if s.last().outcome is Present && s.last().key == k {
                assert(s[s.len() - 1].key == k && s[s.len() - 1].outcome is Present);
            } else {
                assert(successes(s.drop_last()).contains_key(k));
                let i = choose|i: int| 0 <= i < s.drop_last().len()
                    && (#[trigger] s.drop_last()[i]).key == k
                    && s.drop_last()[i].outcome is Present;
                assert(s[i].key == k && s[i].outcome is Present);
            }
        }
    }
}

/// A key whose fetch returned an item is in the domain of `successes`.
pub proof fn lemma_successes_contains(s: Seq<FetchResultView>, i: int)
    requires
        0 <= i < s.len(),
        s[i].outcome is Present,
    ensures
        successes(s).contains_key(s[i].key),
    decreases s.len(),
{
    if i < s.len() - 1 {
        assert(s.drop_last()[i] == s[i]);
        lemma_successes_contains(s.drop_last(), i);
    }
}

/// Under distinct keys, `successes` binds a fetched key to the very item its
/// own fetch returned.
pub proof fn lemma_successes_at(s: Seq<FetchResultView>, i: int)
    requires
        result_keys(s).no_duplicates(),
        0 <= i < s.len(),
        s[i].outcome is Present,
    ensures
        successes(s).contains_key(s[i].key),
        (match s[i].outcome {
            FetchOutcomeView::Present(v) => successes(s)[s[i].key] == v,
            _ => true,
        }),
    decreases s.len(),
{
    assert(result_keys(s)[i] == s[i].key);
    lemma_successes_contains(s, i);
    if i == s.len() - 1 {
    } else {
        assert(result_keys(s.drop_last()) =~= result_keys(s).drop_last());
        lemma_successes_at(s.drop_last(), i);
        if s.last().outcome is Present {
            assert(result_keys(s)[s.len() - 1] == s.last().key);
            assert(s.last().key != s[i].key);
        }
    }
}

/// The keys of a sequence of map entries, in order.
pub open spec fn entry_keys(s: Seq<(u32, ItemView)>) -> Seq<u32> {
    s.map_values(|p: (u32, ItemView)| p.0)
}

/// The map an entry list denotes.
pub open spec fn map_of(s: Seq<(u32, ItemView)>) -> Map<u32, ItemView>
    decreases s.len(),
{
    if s.len() == 0 {
        Map::empty()
    } else {
        map_of(s.drop_last()).insert(s.last().0, s.last().1)
    }
}

/// Every key in the domain of `map_of` stands in some listed entry.
pub proof fn lemma_map_of_dom(s: Seq<(u32, ItemView)>)
    ensures
        forall|k: u32| #[trigger] map_of(s).contains_key(k)
            ==> exists|i: int| 0 <= i < s.len() && (#[trigger] s[i]).0 == k,
    decreases s.len(),
{
    if s.len() > 0 {
        lemma_map_of_dom(s.drop_last());
        assert forall|k: u32| #[trigger] map_of(s).contains_key(k)
            implies exists|i: int| 0 <= i < s.len() && (#[trigger] s[i]).0 == k by {
            if k == s.last().0 {
                assert(s[s.len() - 1].0 == k);
            } else {
                assert(map_of(s.drop_last()).contains_key(k));
                let i = choose|i: int| 0 <= i < s.drop_last().len()
                    && (#[trigger] s.drop_last()[i]).0 == k;
                assert(s[i].0 == k);
            }
        }
    }
}

/// A listed key is in the domain of `map_of`.
pub proof fn lemma_map_of_contains(s: Seq<(u32, ItemView)>, i: int)
    requires
        0 <= i < s.len(),
    ensures
        map_of(s).contains_key(s[i].0),
    decreases s.len(),
{
    if i < s.len() - 1 {
        assert(s.drop_last()[i] == s[i]);
        lemma_map_of_contains(s.drop_last(), i);
    }
}

/// Under distinct keys, `map_of` binds each listed key to its listed item.
pub proof fn lemma_map_of_at(s: Seq<(u32, ItemView)>, i: int)
    requires
        entry_keys(s).no_duplicates(),
        0 <= i < s.len(),
    ensures
        map_of(s).contains_key(s[i].0),
        map_of(s)[s[i].0] == s[i].1,
    decreases s.len(),
{
    assert(entry_keys(s)[i] == s[i].0);
    if i == s.len() - 1 {
    } else {
        assert(entry_keys(s.drop_last()) =~= entry_keys(s).drop_last());
        lemma_map_of_at(s.drop_last(), i);
        assert(entry_keys(s)[s.len() - 1] == s.last().0);
        assert(s.last().0 != s[i].0);
    }
}

/// The result map of one resolved window: only the keys whose fetch
/// succeeded with an item appear in it.
pub struct ResultMap {
    entries: Vec<(u32, Item)>,
}

/// Ghost images of a list of map entries.
pub open spec fn entries_view(s: Seq<(u32, Item)>) -> Seq<(u32, ItemView)> {
    s.map_values(|p: (u32, Item)| (p.0, p.1@))
}

impl View for ResultMap {
    type V = Map<u32, ItemView>;

    closed spec fn view(&self) -> Map<u32, ItemView> {
        map_of(entries_view(self.entries@))
    }
}

impl ResultMap {
    /// Each key appears in at most one entry.
    pub closed spec fn wf(self) -> bool {
        entry_keys(entries_view(self.entries@)).no_duplicates()
    }

    /// The map with no resolved keys at all.
    pub fn empty() -> (r: ResultMap)
        ensures
            r.wf(),
            r@ == Map::<u32, ItemView>::empty(),
    {
        let r = ResultMap { entries: Vec::new() };
        proof {
            assert(entries_view(r.entries@) =~= Seq::<(u32, ItemView)>::empty());
        }
        r
    }

    /// Bind a key that is not yet in the map to its fetched item.
    fn insert_new(&mut self, key: u32, item: Item)
        requires
            old(self).wf(),
            !old(self)@.contains_key(key),
        ensures
            final(self).wf(),
            final(self)@ == old(self)@.insert(key, item@),
    {
        self.entries.push((key, item));
        proof {
            let s = entries_view(old(self).entries@);
            let t = entries_view(self.entries@);
            assert(t =~= s.push((key, item@)));
            assert(t.drop_last() =~= s);
            assert forall|i: int, j: int| 0 <= i < j < entry_keys(t).len()
                implies entry_keys(t)[i] != entry_keys(t)[j] by {
                assert(entry_keys(t)[i] == t[i].0 && entry_keys(t)[j] == t[j].0);
                if j < t.len() - 1 {
                    assert(entry_keys(s)[i] == s[i].0 && entry_keys(s)[j] == s[j].0);
                } else {
                    lemma_map_of_contains(s, i);
                    assert(s[i].0 != key);
                }
            }
        }
    }

    /// Read one key: the item its fetch returned, or `None` where the key
    /// was never resolved in this window.
    pub fn get(&self, key: u32) -> (r: Option<&Item>)
        requires
            self.wf(),
        ensures
            (match r {
                Option::Some(item) => self@.contains_key(key) && item@ == self@[key],
                Option::None => !self@.contains_key(key),
            }),
    {
        let ghost s = entries_view(self.entries@);
        let mut i: usize = 0;
        while i < self.entries.len()
            invariant
                self.wf(),
                s == entries_view(self.entries@),
                i <= self.entries@.len(),
                forall|j: int| 0 <= j < i ==> (#[trigger] s[j]).0 != key,
            decreases self.entries@.len() - i,
        {
            if self.entries[i].0 == key {
                proof {
                    assert(s[i as int].0 == key && s[i as int].1 == self.entries@[i as int].1@);
                    lemma_map_of_at(s, i as int);
                }
                return Option::Some(&self.entries[i].1);
            }
            proof {
                assert(s[i as int].0 == self.entries@[i as int].0);
            }
            i = i + 1;
        }
        proof {
            lemma_map_of_dom(s);
            if map_of(s).contains_key(key) {
                let i = choose|i: int| 0 <= i < s.len() && (#[trigger] s[i]).0 == key;
                assert(false);
            }
        }
        Option::None
    }
}

/// Some caller of the window submitted key `k`.
pub open spec fn submitted_contains(reqs: Seq<Seq<u32>>, k: u32) -> bool {
    exists|i: int| 0 <= i < reqs.len() && (#[trigger] reqs[i]).contains(k)
}

/// The set of all keys submitted during a window, over all its callers.
pub open spec fn submitted_key_set(reqs: Seq<Seq<u32>>) -> Set<u32> {
    Set::new(|k: u32| submitted_contains(reqs, k))
}

/// Registering one more caller extends the submitted key set by exactly that
/// caller's keys.
pub proof fn lemma_submitted_push(reqs: Seq<Seq<u32>>, req: Seq<u32>)
    ensures
        forall|k: u32| #[trigger] submitted_contains(reqs.push(req), k)
            <==> submitted_contains(reqs, k) || req.contains(k),
{
    assert forall|k: u32| #[trigger] submitted_contains(reqs.push(req), k)
        implies submitted_contains(reqs, k) || req.contains(k) by {
        let i = choose|i: int| 0 <= i < reqs.push(req).len()
            && (#[trigger] reqs.push(req)[i]).contains(k);
        if i < reqs.len() {
            assert(reqs[i].contains(k));
        } else {
            assert(reqs.push(req)[i] == req);
        }
    }
    assert forall|k: u32| submitted_contains(reqs, k) || req.contains(k)
        implies #[trigger] submitted_contains(reqs.push(req), k) by {
        if submitted_contains(reqs, k) {
            let i = choose|i: int| 0 <= i < reqs.len() && (#[trigger] reqs[i]).contains(k);
            assert(reqs.push(req)[i].contains(k));
        } else {
            assert(reqs.push(req)[reqs.len() as int].contains(k));
        }
    }
}

/// The window's key list after one caller's keys join it: each key of
/// `req`, in order, is appended once unless the list already holds it.
pub open spec fn merge_keys(keys: Seq<u32>, req: Seq<u32>) -> Seq<u32>
    decreases req.len(),
{
    if req.len() == 0 {
        keys
    } else {
        let m = merge_keys(keys, req.drop_last());
        if m.contains(req.last()) {
            m
        } else {
            m.push(req.last())
        }
    }
}

/// Does the list of ids hold this key?
fn has_key(v: &Vec<u32>, key: u32) -> (r: bool)
    ensures
        r == v@.contains(key),
{
    let mut i: usize = 0;
    while i < v.len()
        invariant
            i <= v@.len(),
            forall|j: int| 0 <= j < i ==> v@[j] != key,
        decreases v@.len() - i,
    {
        if v[i] == key {
            proof {
                assert(v@[i as int] == key);
            }
            return true;
        }
        i = i + 1;
    }
    proof {
        if v@.contains(key) {
            let j = choose|j: int| 0 <= j < v@.len() && v@[j] == key;
            assert(false);
        }
    }
    false
}

/// The batch loader: one collecting window at a time.
///
/// While the window collects, callers register interest in keys through
/// [`ItemLoader::load`] and [`ItemLoader::load_many`] and hold the returned
/// ticket. [`ItemLoader::dispatch`] seals the window into a
/// [`DispatchPlan`] — one fetch per distinct key — and opens a fresh, empty
/// window: keys submitted from then on belong to the next window and can
/// never join a plan already dispatched. The loader keeps no results across
/// windows, so a key loaded again later is fetched again.
pub struct ItemLoader {
    keys: Vec<u32>,
    requests: Vec<Vec<u32>>,
}

impl ItemLoader {
    /// The distinct keys of the collecting window, in first-submission
    /// order.
    pub closed spec fn window_keys(self) -> Seq<u32> {
        self.keys@
    }

    /// Every caller's requested key sequence, in registration order.
    pub closed spec fn submitted(self) -> Seq<Seq<u32>> {
        self.requests@.map_values(|v: Vec<u32>| v@)
    }

    /// The window's key list is duplicate-free and holds exactly the keys
    /// its callers submitted.
    pub open spec fn wf(self) -> bool {
        &&& self.window_keys().no_duplicates()
        &&& forall|k: u32| #[trigger] self.window_keys().contains(k)
            <==> submitted_contains(self.submitted(), k)
    }

    /// A loader whose first window is empty.
    pub fn new() -> (r: ItemLoader)
        ensures
            r.wf(),
            r.window_keys() == Seq::<u32>::empty(),
            r.submitted() == Seq::<Seq<u32>>::empty(),
    {
        let r = ItemLoader { keys: Vec::new(), requests: Vec::new() };
        proof {
            assert(r.submitted() =~= Seq::<Seq<u32>>::empty());
        }
        r
    }

    /// Register one caller's ordered key sequence in the collecting window.
    ///
    /// Every key not yet in the window joins its key list once; keys the
    /// window has already seen are not added again. The ticket is the
    /// caller's index into the window's eventual resolution.
    pub fn load_many(&mut self, req: &Vec<u32>) -> (ticket: usize)
        requires
            old(self).wf(),
        ensures
            final(self).wf(),
            final(self).submitted() == old(self).submitted().push(req@),
            ticket == old(self).submitted().len(),
            final(self).window_keys() == merge_keys(old(self).window_keys(), req@),
            forall|k: u32| #[trigger] final(self).window_keys().contains(k)
                <==> old(self).window_keys().contains(k) || req@.contains(k),
            old(self).window_keys().is_prefix_of(final(self).window_keys()),
    {
        proof {
            broadcast use vstd::seq_lib::lemma_seq_contains_after_push;
        }
        let mut i: usize = 0;
        while i < req.len()
            invariant
                self.requests@ == old(self).requests@,
                self.keys@.no_duplicates(),
                i <= req@.len(),
                self.keys@ == merge_keys(old(self).keys@, req@.take(i as int)),
                forall|k: u32| #[trigger] self.keys@.contains(k)
                    <==> old(self).keys@.contains(k) || req@.take(i as int).contains(k),
                old(self).keys@.is_prefix_of(self.keys@),
            decreases req@.len() - i,
        {
            proof {
                broadcast use vstd::seq_lib::lemma_seq_contains_after_push;
                assert(req@.take(i + 1) =~= req@.take(i as int).push(req@[i as int]));
            }
            let ghost keys_pre = self.keys@;
            let k = req[i];
            if !has_key(&self.keys, k) {
                self.keys.push(k);
                proof {
                    assert(self.keys@ == keys_pre.push(k));
                    assert(keys_pre.is_prefix_of(self.keys@));
                }
            }
            proof {
                assert(req@.take(i as int + 1).drop_last() =~= req@.take(i as int));
                assert(req@.take(i as int + 1).last() == req@[i as int]);
                assert(merge_keys(old(self).keys@, req@.take(i as int + 1)) == self.keys@) by {
                    if keys_pre.contains(req@[i as int]) {
                    } else {
                    }
                }
            }
            i = i + 1;
        }
        proof {
            assert(req@.take(req@.len() as int) =~= req@);
        }
        let ticket = self.requests.len();
        self.requests.push(clone_ids(req));
        proof {
            assert(self.submitted() =~= old(self).submitted().push(req@));
            lemma_submitted_push(old(self).submitted(), req@);
            assert forall|k: u32| #[trigger] self.window_keys().contains(k)
                <==> submitted_contains(self.submitted(), k) by {
                assert(old(self).window_keys().contains(k)
                    <==> submitted_contains(old(self).submitted(), k));
            }
        }
        ticket
    }

    /// Register one caller's interest in a single key.
    pub fn load(&mut self, key: u32) -> (ticket: usize)
        requires
            old(self).wf(),
        ensures
            final(self).wf(),
            final(self).submitted() == old(self).submitted().push(seq![key]),
            ticket == old(self).submitted().len(),
            final(self).window_keys() == merge_keys(old(self).window_keys(), seq![key]),
            forall|k: u32| #[trigger] final(self).window_keys().contains(k)
                <==> old(self).window_keys().contains(k) || k == key,
            old(self).window_keys().is_prefix_of(final(self).window_keys()),
    {
        let mut req: Vec<u32> = Vec::new();
        req.push(key);
        proof {
            assert(req@ =~= seq![key]);
            assert forall|k: u32| req@.contains(k) <==> k == key by {
                assert(req@[0] == key);
            }
        }
        self.load_many(&req)
    }

    /// Seal the collecting window into a dispatch plan and open a fresh,
    /// empty window.
    ///
    /// The plan owns the sealed window outright: keys submitted after this
    /// call land in the new window and cannot join the plan.
    pub fn dispatch(&mut self) -> (plan: DispatchPlan)
        requires
            old(self).wf(),
        ensures
            plan.wf(),
            plan.fetch_keys() == old(self).window_keys(),
            plan.requests_view() == old(self).submitted(),
            final(self).wf(),
            final(self).window_keys() == Seq::<u32>::empty(),
            final(self).submitted() == Seq::<Seq<u32>>::empty(),
    {
        let mut keys: Vec<u32> = Vec::new();
        let mut requests: Vec<Vec<u32>> = Vec::new();
        core::mem::swap(&mut keys, &mut self.keys);
        core::mem::swap(&mut requests, &mut self.requests);
        let plan = DispatchPlan { keys, requests };
        proof {
            assert(plan.requests_view() =~= old(self).submitted());
            assert(self.submitted() =~= Seq::<Seq<u32>>::empty());
        }
        plan
    }
}

/// A sealed batch window, ready to fetch: one upstream call per distinct
/// key, and the record of what each caller asked for.
pub struct DispatchPlan {
    keys: Vec<u32>,
    requests: Vec<Vec<u32>>,
}

impl DispatchPlan {
    /// The distinct keys to fetch, in first-submission order.
    pub closed spec fn fetch_keys(self) -> Seq<u32> {
        self.keys@
    }

    /// Every caller's requested key sequence, in registration order.
    pub closed spec fn requests_view(self) -> Seq<Seq<u32>> {
        self.requests@.map_values(|v: Vec<u32>| v@)
    }

    /// The fetch list is duplicate-free and covers exactly the submitted
    /// keys.
    pub open spec fn wf(self) -> bool {
        &&& self.fetch_keys().no_duplicates()
        &&& forall|k: u32| #[trigger] self.fetch_keys().contains(k)
            <==> submitted_contains(self.requests_view(), k)
    }

    /// The keys to fetch, one upstream call each.
    pub fn distinct_keys(&self) -> (r: &Vec<u32>)
        ensures
            r@ == self.fetch_keys(),
    {
        &self.keys
    }

    /// How many upstream calls this window will issue.
    pub fn num_fetches(&self) -> (n: usize)
        ensures
            n == self.fetch_keys().len(),
    {
        self.keys.len()
    }

    /// How many callers await this window.
    pub fn num_callers(&self) -> (n: usize)
        ensures
            n == self.requests_view().len(),
    {
        self.requests.len()
    }

    /// Release every caller of the sealed window from the fetch outcomes.
    ///
    /// The result holds one slice per ticket, in registration order; slice
    /// `c` answers caller `c`'s keys position by position in the order that
    /// caller submitted them, with `None` for every key whose fetch failed
    /// or found nothing.
    pub fn resolve(self, outcomes: &Vec<FetchResult>) -> (r: Vec<Vec<Option<Item>>>)
        requires
            self.wf(),
            result_keys(results_view(outcomes@)) == self.fetch_keys(),
        ensures
            r@.len() == self.requests_view().len(),
            forall|c: int| 0 <= c < r@.len()
                ==> opts_view((#[trigger] r@[c])@)
                    == selection(self.requests_view()[c], successes(results_view(outcomes@))),
    {
        let m = collect_results(outcomes);
        let mut r: Vec<Vec<Option<Item>>> = Vec::new();
        let mut c: usize = 0;
        while c < self.requests.len()
            invariant
                m.wf(),
                m@ == successes(results_view(outcomes@)),
                c <= self.requests@.len(),
                r@.len() == c,
                forall|j: int| 0 <= j < c
                    ==> opts_view((#[trigger] r@[j])@) == selection(self.requests_view()[j], m@),
            decreases self.requests@.len() - c,
        {
            let slice = select_in_order(&self.requests[c], &m);
            proof {
                assert(self.requests_view()[c as int] == self.requests@[c as int]@);
            }
            r.push(slice);
            c = c + 1;
        }
        r
    }
}

/// Build the window's result map from its fetch outcomes: exactly the keys
/// whose fetch returned an item, each bound to that item.
pub fn collect_results(outcomes: &Vec<FetchResult>) -> (m: ResultMap)
    requires
        result_keys(results_view(outcomes@)).no_duplicates(),
    ensures
        m.wf(),
        m@ == successes(results_view(outcomes@)),
{
    let ghost s = results_view(outcomes@);
    let mut m = ResultMap::empty();
    let mut i: usize = 0;
    while i < outcomes.len()
        invariant
            s == results_view(outcomes@),
            result_keys(s).no_duplicates(),
            i <= outcomes@.len(),
            m.wf(),
            m@ == successes(s.take(i as int)),
        decreases outcomes@.len() - i,
    {
        proof {
            assert(s.take(i as int + 1).drop_last() =~= s.take(i as int));
            assert(s[i as int] == outcomes@[i as int]@);
        }
        match &outcomes[i].outcome {
            FetchOutcome::Present(item) => {
                proof {
                    lemma_successes_dom(s.take(i as int));
                    if m@.contains_key(outcomes@[i as int].key) {
                        let j = choose|j: int| 0 <= j < s.take(i as int).len()
                            && (#[trigger] s.take(i as int)[j]).key == outcomes@[i as int].key
                            && s.take(i as int)[j].outcome is Present;
                        assert(result_keys(s)[j] == s[j].key);
                        assert(result_keys(s)[i as int] == s[i as int].key);
                        assert(false);
                    }
                }
                let key = outcomes[i].key;
                m.insert_new(key, item.clone());
            },
            FetchOutcome::Absent => {},
            FetchOutcome::Failed(_) => {},
        }
        i = i + 1;
    }
    proof {
        assert(s.take(s.len() as int) =~= s);
    }
    m
}

/// Answer one caller's ordered key sequence out of the result map: the
/// `i`-th answer is the map's item for the `i`-th requested key, or `None`
/// where that key was not resolved.
pub fn select_in_order(req: &Vec<u32>, m: &ResultMap) -> (r: Vec<Option<Item>>)
    requires
        m.wf(),
    ensures
        r@.len() == req@.len(),
        opts_view(r@) == selection(req@, m@),
{
    let mut r: Vec<Option<Item>> = Vec::new();
    let mut i: usize = 0;
    while i < req.len()
        invariant
            m.wf(),
            i <= req@.len(),
            r@.len() == i,
            forall|j: int| 0 <= j < i
                ==> opt_item_view(#[trigger] r@[j]) == lookup(m@, req@[j]),
        decreases req@.len() - i,
    {
        match m.get(req[i]) {
            Option::Some(item) => {
                r.push(Option::Some(item.clone()));
            },
            Option::None => {
                r.push(Option::None);
            },
        }
        i = i + 1;
    }
    proof {
        assert(opts_view(r@) =~= selection(req@, m@));
    }
    r
}

/// Keep a resolved slice's present answers, omissions removed, order kept.
pub fn present_in_order(slice: &Vec<Option<Item>>) -> (r: Vec<Item>)
    ensures
        items_view(r@) == present_views(opts_view(slice@)),
{
    let ghost ov = opts_view(slice@);
    let mut r: Vec<Item> = Vec::new();
    let mut i: usize = 0;
    while i < slice.len()
        invariant
            ov == opts_view(slice@),
            i <= slice@.len(),
            items_view(r@) == present_views(ov.take(i as int)),
        decreases slice@.len() - i,
    {
        proof {
            assert(ov.take(i as int + 1).drop_last() =~= ov.take(i as int));
            assert(ov[i as int] == opt_item_view(slice@[i as int]));
        }
        match &slice[i] {
            Option::Some(item) => {
                let it = item.clone();
                let ghost prev = r@;
                r.push(it);
                proof {
                    assert(items_view(r@) =~= items_view(prev).push(it@));
                }
            },
            Option::None => {},
        }
        i = i + 1;
    }
    proof {
        assert(ov.take(slice@.len() as int) =~= ov);
    }
    r
}

/// `n` clamped to a sequence length.
pub open spec fn clamped(n: usize, len: nat) -> int {
    if n <= len {
        n as int
    } else {
        len as int
    }
}

/// The first `n` ids of a list, or the whole list when it is shorter.
pub fn first_n(ids: &Vec<u32>, n: usize) -> (r: Vec<u32>)
    ensures
        r@ == ids@.take(clamped(n, ids@.len())),
{
    let mut r: Vec<u32> = Vec::new();
    let mut i: usize = 0;
    while i < n && i < ids.len()
        invariant
            i <= n,
            i <= ids@.len(),
            r@ == ids@.take(i as int),
        decreases ids@.len() - i,
    {
        let ghost prev = r@;
        r.push(ids[i]);
        proof {
            assert(ids@.take(i as int + 1) =~= prev.push(ids@[i as int]));
        }
        i = i + 1;
    }
    proof {
        assert(i == n || i == ids@.len());
        assert(ids@.take(i as int) =~= ids@.take(clamped(n, ids@.len())));
    }
    r
}

/// The number of stories the "top" query serves when none is asked for.
pub open spec fn top_limit(limit: Option<usize>) -> usize {
    match limit {
        Option::Some(l) => l,
        Option::None => 10,
    }
}

/// The story ids one "top stories" query resolves: the first `limit` of the
/// ranked id list, ten when no limit is given.
pub fn top_selection(ids: &Vec<u32>, limit: Option<usize>) -> (r: Vec<u32>)
    ensures
        r@ == ids@.take(clamped(top_limit(limit), ids@.len())),
{
    match limit {
        Option::Some(l) => first_n(ids, l),
        Option::None => first_n(ids, 10),
    }
}

/// Law: one window, one fetch per distinct key. A sealed window's fetch
/// list is duplicate-free and covers exactly the keys its callers
/// submitted, so the number of upstream calls it issues is the number of
/// distinct submitted keys — however many callers asked, and however often
/// each key was repeated.
pub proof fn lemma_fetch_count(plan: DispatchPlan)
    requires
        plan.wf(),
    ensures
        plan.fetch_keys().no_duplicates(),
        plan.fetch_keys().to_set() == submitted_key_set(plan.requests_view()),
        plan.fetch_keys().len() == submitted_key_set(plan.requests_view()).len(),
{
    plan.fetch_keys().unique_seq_to_set();
    assert(plan.fetch_keys().to_set() =~= submitted_key_set(plan.requests_view()));
}

/// Law: a caller's answers follow its own key order. The `i`-th answer of a
/// resolved slice is the result-map entry for the `i`-th key the caller
/// submitted, so repeating a key gives the same answer at every position it
/// occupies, without a second fetch.
pub proof fn lemma_selection_order(req: Seq<u32>, m: Map<u32, ItemView>)
    ensures
        selection(req, m).len() == req.len(),
        forall|i: int| 0 <= i < req.len() ==> #[trigger] selection(req, m)[i] == lookup(m, req[i]),
        forall|i: int, j: int| 0 <= i < req.len() && 0 <= j < req.len() && req[i] == req[j]
            ==> selection(req, m)[i] == selection(req, m)[j],
{
}

/// Law: a key upstream does not know is an omission, not an error. Where
/// the fetch for a key found nothing, the result map omits the key, and
/// every caller position that asked for it reads `None`.
pub proof fn lemma_absent_is_omission(outs: Seq<FetchResultView>, i: int, req: Seq<u32>, j: int)
    requires
        result_keys(outs).no_duplicates(),
        0 <= i < outs.len(),
        outs[i].outcome is Absent,
        0 <= j < req.len(),
        req[j] == outs[i].key,
    ensures
        !successes(outs).contains_key(outs[i].key),
        selection(req, successes(outs))[j] is None,
{
    lemma_successes_dom(outs);
    if successes(outs).contains_key(outs[i].key) {
        let w = choose|w: int| 0 <= w < outs.len() && (#[trigger] outs[w]).key == outs[i].key
            && outs[w].outcome is Present;
        assert(result_keys(outs)[w] == outs[w].key);
        assert(result_keys(outs)[i] == outs[i].key);
        assert(false);
    }
}

/// Law: one key's failure is isolated to that key. A failed fetch — a
/// timeout as much as any transport or decode failure — leaves its own key
/// out of the result map, while every key whose own fetch returned an item
/// still resolves to exactly that item.
pub proof fn lemma_partial_failure_isolation(outs: Seq<FetchResultView>, i: int, j: int)
    requires
        result_keys(outs).no_duplicates(),
        0 <= i < outs.len(),
        0 <= j < outs.len(),
        outs[i].outcome is Failed,
        outs[j].outcome is Present,
    ensures
        lookup(successes(outs), outs[i].key) is None,
        (match outs[j].outcome {
            FetchOutcomeView::Present(v) => lookup(successes(outs), outs[j].key)
                == Option::Some(v),
            _ => true,
        }),
{
    lemma_successes_dom(outs);
    if successes(outs).contains_key(outs[i].key) {
        let w = choose|w: int| 0 <= w < outs.len() && (#[trigger] outs[w]).key == outs[i].key
            && outs[w].outcome is Present;
        assert(result_keys(outs)[w] == outs[w].key);
        assert(result_keys(outs)[i] == outs[i].key);
        assert(false);
    }
    lemma_successes_at(outs, j);
}

/// Law: windows share nothing. What a window fetches is determined by its
/// own submissions alone, so a key submitted in two separate windows stands
/// in both fetch lists — each window issues its own upstream call for it,
/// with no cache in between.
pub proof fn lemma_no_cross_window_reuse(first: DispatchPlan, second: DispatchPlan, k: u32)
    requires
        first.wf(),
        second.wf(),
        submitted_contains(first.requests_view(), k),
        submitted_contains(second.requests_view(), k),
    ensures
        first.fetch_keys().contains(k),
        second.fetch_keys().contains(k),
{
}

} // verus!
