use vstd::prelude::*;
use vstd::hash_set::StringHashSet;
use vstd::string::*;

verus! {

/// Whether the pointer was over one item's region during a frame.
pub struct HoverReport {
    pub key: String,
    pub contained: bool,
}

/// The display names of the items under the pointer.
pub struct HoverSet {
    keys: StringHashSet,
}

impl View for HoverSet {
    type V = Set<Seq<char>>;

    closed spec fn view(&self) -> Self::V {
        self.keys@
    }
}

/// The hover set after `reports` are applied in order, starting from an
/// empty set: a containing report adds its key, any other removes it.
pub open spec fn hovered_after(reports: Seq<HoverReport>) -> Set<Seq<char>>
    decreases reports.len(),
{
    if reports.len() == 0 {
        Set::empty()
    } else {
        let before = hovered_after(reports.drop_last());
        let last = reports.last();
        if last.contained {
            before.insert(last.key@)
        } else {
            before.remove(last.key@)
        }
    }
}

/// No two reports concern the same item.
pub open spec fn distinct_keys(reports: Seq<HoverReport>) -> bool {
    forall|i: int, j: int|
        0 <= i < j < reports.len() ==> #[trigger] reports[i].key@ != #[trigger] reports[j].key@
}

/// The keys of the reports that found the pointer inside their region.
pub open spec fn reported_inside(reports: Seq<HoverReport>) -> Set<Seq<char>> {
    Set::new(|k: Seq<char>| exists|i: int| 0 <= i < reports.len() && reports[i].contained && #[trigger] reports[i].key@ == k)
}

/// After a frame in which every item reports once, the hover set is exactly
/// the set of items that reported the pointer inside their region.
pub proof fn lemma_frame_hover_exact(reports: Seq<HoverReport>)
    requires
        distinct_keys(reports),
    ensures
        hovered_after(reports) == reported_inside(reports),
    decreases reports.len(),
{
    if reports.len() > 0 {
        let init = reports.drop_last();
        let n = reports.len() - 1;
        assert(distinct_keys(init)) by {
            assert forall|i: int, j: int| 0 <= i < j < init.len() implies #[trigger] init[i].key@ != #[trigger] init[j].key@ by {
                assert(init[i] == reports[i] && init[j] == reports[j]);
            }
        }
        lemma_frame_hover_exact(init);
        assert forall|k: Seq<char>| hovered_after(reports).contains(k) == reported_inside(reports).contains(k) by {
            if reported_inside(init).contains(k) {
                let i = choose|i: int| 0 <= i < init.len() && init[i].contained && #[trigger] init[i].key@ == k;
                assert(reports[i] == init[i]);
            }
            if reported_inside(reports).contains(k) {
                let i = choose|i: int| 0 <= i < reports.len() && reports[i].contained && #[trigger] reports[i].key@ == k;
                if i < n {
                    assert(init[i] == reports[i]);
                }
            }
        }
        assert(hovered_after(reports) =~= reported_inside(reports));
    }
}

/// After a frame in which no item reports the pointer inside its region, the
/// hover set is empty.
pub proof fn lemma_quiet_frame_clears(reports: Seq<HoverReport>)
    requires
        forall|i: int| 0 <= i < reports.len() ==> !(#[trigger] reports[i]).contained,
    ensures
        hovered_after(reports) == Set::<Seq<char>>::empty(),
    decreases reports.len(),
{
    if reports.len() > 0 {
        let init = reports.drop_last();
        assert forall|i: int| 0 <= i < init.len() implies !(#[trigger] init[i]).contained by {
            assert(init[i] == reports[i]);
        }
        lemma_quiet_frame_clears(init);
        assert(hovered_after(reports) =~= Set::<Seq<char>>::empty());
    }
}

impl HoverSet {
    /// A set with no hovered item.
    pub fn new() -> (r: Self)
        ensures
            r@ == Set::<Seq<char>>::empty(),
    {
        HoverSet { keys: StringHashSet::new() }
    }

    /// Whether the item named `key` is hovered.
    pub fn contains(&self, key: &str) -> (r: bool)
        ensures
            r == self@.contains(key@),
    {
        self.keys.contains(key)
    }

    /// Applies one item's containment result: adds `key` when the pointer is
    /// over the item, removes it otherwise.
    pub fn record(&mut self, key: &str, contained: bool)
        ensures
            contained ==> final(self)@ == old(self)@.insert(key@),
            !contained ==> final(self)@ == old(self)@.remove(key@),
    {
        if contained {
            self.keys.insert(String::from_str(key));
        } else {
            self.keys.remove(key);
        }
    }

    /// Recomputes the set from one frame's reports, in order. Keys of items
    /// that did not report this frame do not carry over.
    pub fn apply_frame(&mut self, reports: &Vec<HoverReport>)
        ensures
            final(self)@ == hovered_after(reports@),
    {
        self.keys.clear();
        let mut i: usize = 0;
        while i < reports.len()
            invariant
                i <= reports@.len(),
                self@ == hovered_after(reports@.take(i as int)),
            decreases reports@.len() - i,
        {
            let report = &reports[i];
            self.record(report.key.as_str(), report.contained);
            assert(reports@.take(i as int + 1).drop_last() =~= reports@.take(i as int));
            i = i + 1;
        }
        assert(reports@.take(reports@.len() as int) =~= reports@);
    }
}

} // verus!
