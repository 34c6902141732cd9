//! A non-empty, numerically sorted collection of items sharing one naming
//! scheme, with sequence-wide statistics and batch planning.

use vstd::prelude::*;
use vstd::multiset::Multiset;
use vstd::seq_lib::to_multiset_insert;

use crate::components::clone_opt_string;
use crate::components::opt_string_eq;
use crate::components::opt_view;
use crate::components::Components;
use crate::components::ComponentsView;
use crate::error::SequenceError;
use crate::item::frame_of;
use crate::item::item_rename_plan;
use crate::item::lemma_apply_wf;
use crate::item::path_view;
use crate::item::relocate_target;
use crate::item::rename_target;
use crate::item::Item;
use crate::item::ItemView;
use crate::operation::OperationPlan;
use crate::operation::OpView;
use crate::operation::Planned;

verus! {

broadcast use {vstd::seq_lib::group_to_multiset_ensures, vstd::multiset::group_multiset_axioms};

/// Whether every item of `s` is well-formed.
pub open spec fn all_wf(s: Seq<Item>) -> bool {
    forall|i: int| 0 <= i < s.len() ==> (#[trigger] s[i]).wf()
}

/// Whether `s` is sorted by numeric frame number, ascending.
pub open spec fn sorted_by_frame(s: Seq<Item>) -> bool {
    forall|i: int, j: int|
        0 <= i <= j < s.len() ==> #[trigger] frame_of(s[i]@) <= #[trigger] frame_of(s[j]@)
}

/// The frame number of the first item.
pub open spec fn seq_first_frame(s: Seq<Item>) -> nat {
    frame_of(s[0]@)
}

/// The frame number of the last item.
pub open spec fn seq_last_frame(s: Seq<Item>) -> nat {
    frame_of(s[s.len() - 1]@)
}

/// Whether some item of `s` carries the frame number `f`.
pub open spec fn frame_present(s: Seq<Item>, f: nat) -> bool {
    exists|i: int| 0 <= i < s.len() && frame_of(#[trigger] s[i]@) == f
}

/// The shared override `c` specialized to one item: the item's own frame
/// number overrides the frame field, preserving its numeric identity.
pub open spec fn per_item_comps(c: ComponentsView, i: ItemView) -> ComponentsView {
    ComponentsView { frame_number: Some(frame_of(i)), ..c }
}

/// The plan a sequence-wide rename emits: the concatenation of every
/// item's own rename plan, in item order.
pub open spec fn seq_rename_plan(items: Seq<Item>, c: ComponentsView) -> Seq<OpView>
    decreases items.len(),
{
    if items.len() == 0 {
        Seq::<OpView>::empty()
    } else {
        seq_rename_plan(items.drop_last(), c) + item_rename_plan(
            items.last()@,
            per_item_comps(c, items.last()@),
        )
    }
}

/// A non-empty collection of items sorted by frame number. "Mutating"
/// operations never alter the value: they return a proposed new sequence
/// paired with the plan that would realize it.
#[derive(Debug, Clone)]
pub struct FileSequence {
    pub items: Vec<Item>,
}

impl FileSequence {
    /// A well-formed sequence: non-empty, every item well-formed, sorted
    /// ascending by numeric frame number.
    pub open spec fn wf(&self) -> bool {
        &&& self.items@.len() > 0
        &&& all_wf(self.items@)
        &&& sorted_by_frame(self.items@)
    }

    /// Builds a sequence from the given items, sorted by numeric frame
    /// number; fails if and only if no items were given. The result holds
    /// exactly the given items, reordered.
    pub fn new(items: Vec<Item>) -> (r: Result<FileSequence, SequenceError>)
        requires
            all_wf(items@),
        ensures
            match r {
                Ok(s) => {
                    &&& items@.len() > 0
                    &&& s.wf()
                    &&& s.items@.len() == items@.len()
                    &&& s.items@.to_multiset() == items@.to_multiset()
                },
                Err(e) => items@.len() == 0 && e is EmptySequence,
            },
    {
        if items.is_empty() {
            return Err(SequenceError::EmptySequence);
        }
        let ghost orig = items@;
        let mut rest = items;
        let mut out: Vec<Item> = Vec::new();
        proof {
            vstd::multiset::lemma_multiset_empty_len(out@.to_multiset());
            assert(out@.to_multiset().add(rest@.to_multiset()) =~= orig.to_multiset());
        }
        while rest.len() > 0
            invariant
                all_wf(rest@),
                all_wf(out@),
                sorted_by_frame(out@),
                out@.len() + rest@.len() == orig.len(),
                out@.to_multiset().add(rest@.to_multiset()) == orig.to_multiset(),
            decreases rest@.len(),
        {
            let ghost rest_before = rest@;
            let ghost out_before = out@;
            let item = rest.pop().unwrap();
            proof {
                assert(rest_before =~= rest@.push(item));
                vstd::seq_lib::to_multiset_build(rest@, item);
            }
            let f = item.frame_number();
            let mut pos: usize = 0;
            while pos < out.len() && out[pos].frame_number() <= f
                invariant
                    0 <= pos <= out@.len(),
                    all_wf(out@),
                    item.wf(),
                    f as nat == frame_of(item@),
                    forall|k: int| 0 <= k < pos ==> #[trigger] frame_of(out@[k]@) <= f as nat,
                decreases out@.len() - pos,
            {
                pos = pos + 1;
            }
            proof {
                to_multiset_insert(out_before, pos as int, item);
                out_before.insert_ensures(pos as int, item);
            }
            out.insert(pos, item);
            proof {
                assert forall|i: int, j: int| 0 <= i <= j < out@.len() implies #[trigger] frame_of(
                    out@[i]@,
                ) <= #[trigger] frame_of(out@[j]@) by {
                    let p = pos as int;
                    if i < p {
                        assert(out@[i] == out_before[i]);
                    } else if i == p {
                        assert(out@[i] == item);
                    } else {
                        assert(out@[i] == out_before[i - 1]);
                    }
                    if j < p {
                        assert(out@[j] == out_before[j]);
                    } else if j == p {
                        assert(out@[j] == item);
                    } else {
                        assert(out@[j] == out_before[j - 1]);
                    }
                    if i < p && j == p {
                        assert(frame_of(out_before[i]@) <= f as nat);
                    }
                    if i == p && j > p {
                        assert(frame_of(out_before[j - 1]@) >= f as nat);
                    }
                }
                assert forall|i: int| 0 <= i < out@.len() implies (#[trigger] out@[i]).wf() by {
                    let p = pos as int;
                    if i < p {
                        assert(out@[i] == out_before[i]);
                    } else if i == p {
                        assert(out@[i] == item);
                    } else {
                        assert(out@[i] == out_before[i - 1]);
                    }
                }
                assert(out@.to_multiset().add(rest@.to_multiset()) =~= orig.to_multiset());
            }
        }
        proof {
            vstd::multiset::lemma_multiset_empty_len(rest@.to_multiset());
            assert(rest@.to_multiset() =~= Multiset::<Item>::empty());
            assert(out@.to_multiset() =~= orig.to_multiset());
        }
        Ok(FileSequence { items: out })
    }

    /// The number of items.
    pub fn len(&self) -> (n: usize)
        ensures
            n == self.items@.len(),
    {
        self.items.len()
    }

    /// Whether the sequence holds no items; never true of a well-formed
    /// sequence.
    pub fn is_empty(&self) -> (r: bool)
        ensures
            r == (self.items@.len() == 0),
    {
        self.items.is_empty()
    }

    /// The smallest frame number in the sequence.
    pub fn first_frame(&self) -> (f: u32)
        requires
            self.wf(),
        ensures
            f as nat == seq_first_frame(self.items@),
            frame_present(self.items@, f as nat),
            forall|i: int|
                0 <= i < self.items@.len() ==> f as nat <= #[trigger] frame_of(self.items@[i]@),
    {
        let r = self.items[0].frame_number();
        proof {
            assert(frame_of(self.items@[0]@) == r as nat);
        }
        r
    }

    /// The largest frame number in the sequence.
    pub fn last_frame(&self) -> (f: u32)
        requires
            self.wf(),
        ensures
            f as nat == seq_last_frame(self.items@),
            frame_present(self.items@, f as nat),
            forall|i: int|
                0 <= i < self.items@.len() ==> f as nat >= #[trigger] frame_of(self.items@[i]@),
    {
        let n = self.items.len();
        let r = self.items[n - 1].frame_number();
        proof {
            assert(frame_of(self.items@[self.items@.len() - 1]@) == r as nat);
        }
        r
    }

    /// The frame numbers actually present, in item order.
    pub fn existing_frames(&self) -> (r: Vec<u32>)
        requires
            self.wf(),
        ensures
            r@.len() == self.items@.len(),
            forall|i: int|
                0 <= i < r@.len() ==> r@[i] as nat == #[trigger] frame_of(self.items@[i]@),
    {
        let mut out: Vec<u32> = Vec::new();
        let mut i: usize = 0;
        while i < self.items.len()
            invariant
                0 <= i <= self.items@.len(),
                self.wf(),
                out@.len() == i,
                forall|k: int|
                    0 <= k < i ==> out@[k] as nat == #[trigger] frame_of(self.items@[k]@),
            decreases self.items@.len() - i,
        {
            out.push(self.items[i].frame_number());
            i = i + 1;
        }
        out
    }

    /// Whether some item carries the frame number `f`.
    fn contains_frame(&self, f: u32) -> (b: bool)
        requires
            self.wf(),
        ensures
            b == frame_present(self.items@, f as nat),
    {
        let mut i: usize = 0;
        while i < self.items.len()
            invariant
                0 <= i <= self.items@.len(),
                self.wf(),
                forall|k: int| 0 <= k < i ==> frame_of(#[trigger] self.items@[k]@) != f as nat,
            decreases self.items@.len() - i,
        {
            if self.items[i].frame_number() == f {
                proof {
                    assert(frame_of(self.items@[i as int]@) == f as nat);
                }
                return true;
            }
            i = i + 1;
        }
        false
    }

    /// The frame numbers absent from the closed range between the first
    /// and the last frame, ascending: exactly those values in the range
    /// that no item carries.
    pub fn missing_frames(&self) -> (r: Vec<u32>)
        requires
            self.wf(),
        ensures
            forall|k: int|
                0 <= k < r@.len() ==> seq_first_frame(self.items@) <= #[trigger] r@[k] as nat
                    <= seq_last_frame(self.items@) && !frame_present(self.items@, r@[k] as nat),
            forall|g: u32|
                seq_first_frame(self.items@) <= g as nat <= seq_last_frame(self.items@)
                    && !(#[trigger] frame_present(self.items@, g as nat)) ==> exists|k: int|
                    0 <= k < r@.len() && r@[k] == g,
            forall|a: int, b: int| 0 <= a < b < r@.len() ==> r@[a] < r@[b],
    {
        let first = self.first_frame();
        let last = self.last_frame();
        let mut out: Vec<u32> = Vec::new();
        if first == last {
            return out;
        }
        let mut f = first + 1;
        while f < last
            invariant
                self.wf(),
                first as nat == seq_first_frame(self.items@),
                last as nat == seq_last_frame(self.items@),
                frame_present(self.items@, first as nat),
                frame_present(self.items@, last as nat),
                first < f <= last,
                forall|k: int|
                    0 <= k < out@.len() ==> first < #[trigger] out@[k] < f && !frame_present(
                        self.items@,
                        out@[k] as nat,
                    ),
                forall|g: u32|
                    first < g && g < f && !(#[trigger] frame_present(self.items@, g as nat))
                        ==> exists|k: int| 0 <= k < out@.len() && out@[k] == g,
                forall|a: int, b: int| 0 <= a < b < out@.len() ==> out@[a] < out@[b],
            decreases last - f,
        {
            let ghost out_old = out@;
            if !self.contains_frame(f) {
                out.push(f);
                proof {
                    assert forall|g: u32|
                        first < g && (g as nat) < (f as nat) + 1 && !(#[trigger] frame_present(
                            self.items@,
                            g as nat,
                        )) implies exists|k: int| 0 <= k < out@.len() && out@[k] == g by {
                        if g < f {
                            assert(exists|k: int| 0 <= k < out_old.len() && out_old[k] == g);
                            let k = choose|k: int| 0 <= k < out_old.len() && out_old[k] == g;
                            assert(out@[k] == g);
                        } else {
                            assert(out@[out@.len() - 1] == f);
                        }
                    }
                }
            }
            f = f + 1;
        }
        out
    }

    /// The prefix shared by every item; fails when items disagree.
    pub fn prefix(&self) -> (r: Result<String, SequenceError>)
        requires
            self.wf(),
        ensures
            match r {
                Ok(p) => p@ == self.items@[0]@.prefix && forall|i: int|
                    0 <= i < self.items@.len() ==> (#[trigger] self.items@[i]@).prefix
                        == self.items@[0]@.prefix,
                Err(e) => (exists|i: int|
                    0 <= i < self.items@.len() && (#[trigger] self.items@[i]@).prefix
                        != self.items@[0]@.prefix) && match e {
                    SequenceError::InconsistentProperty(n) => n@ == "prefix"@,
                    _ => false,
                },
            },
    {
        let mut i: usize = 1;
        while i < self.items.len()
            invariant
                1 <= i <= self.items@.len(),
                self.wf(),
                forall|k: int|
                    0 <= k < i ==> (#[trigger] self.items@[k]@).prefix == self.items@[0]@.prefix,
            decreases self.items@.len() - i,
        {
            if !self.items[i].prefix.eq(&self.items[0].prefix) {
                return Err(SequenceError::InconsistentProperty("prefix"));
            }
            i = i + 1;
        }
        Ok(self.items[0].prefix.clone())
    }

    /// The extension shared by every item; fails when items disagree.
    pub fn extension(&self) -> (r: Result<String, SequenceError>)
        requires
            self.wf(),
        ensures
            match r {
                Ok(p) => p@ == self.items@[0]@.extension && forall|i: int|
                    0 <= i < self.items@.len() ==> (#[trigger] self.items@[i]@).extension
                        == self.items@[0]@.extension,
                Err(e) => (exists|i: int|
                    0 <= i < self.items@.len() && (#[trigger] self.items@[i]@).extension
                        != self.items@[0]@.extension) && match e {
                    SequenceError::InconsistentProperty(n) => n@ == "extension"@,
                    _ => false,
                },
            },
    {
        let mut i: usize = 1;
        while i < self.items.len()
            invariant
                1 <= i <= self.items@.len(),
                self.wf(),
                forall|k: int|
                    0 <= k < i ==> (#[trigger] self.items@[k]@).extension
                        == self.items@[0]@.extension,
            decreases self.items@.len() - i,
        {
            if !self.items[i].extension.eq(&self.items[0].extension) {
                return Err(SequenceError::InconsistentProperty("extension"));
            }
            i = i + 1;
        }
        Ok(self.items[0].extension.clone())
    }

    /// The delimiter shared by every item (possibly absent); fails when
    /// items disagree.
    pub fn delimiter(&self) -> (r: Result<Option<String>, SequenceError>)
        requires
            self.wf(),
        ensures
            match r {
                Ok(d) => opt_view(d) == self.items@[0]@.delimiter && forall|i: int|
                    0 <= i < self.items@.len() ==> (#[trigger] self.items@[i]@).delimiter
                        == self.items@[0]@.delimiter,
                Err(e) => (exists|i: int|
                    0 <= i < self.items@.len() && (#[trigger] self.items@[i]@).delimiter
                        != self.items@[0]@.delimiter) && match e {
                    SequenceError::InconsistentProperty(n) => n@ == "delimiter"@,
                    _ => false,
                },
            },
    {
        let mut i: usize = 1;
        while i < self.items.len()
            invariant
                1 <= i <= self.items@.len(),
                self.wf(),
                forall|k: int|
                    0 <= k < i ==> (#[trigger] self.items@[k]@).delimiter
                        == self.items@[0]@.delimiter,
            decreases self.items@.len() - i,
        {
            if !opt_string_eq(&self.items[i].delimiter, &self.items[0].delimiter) {
                return Err(SequenceError::InconsistentProperty("delimiter"));
            }
            i = i + 1;
        }
        Ok(clone_opt_string(&self.items[0].delimiter))
    }

    /// The directory shared by every item (possibly absent); fails when
    /// items disagree.
    pub fn directory(&self) -> (r: Result<Option<String>, SequenceError>)
        requires
            self.wf(),
        ensures
            match r {
                Ok(d) => opt_view(d) == self.items@[0]@.directory && forall|i: int|
                    0 <= i < self.items@.len() ==> (#[trigger] self.items@[i]@).directory
                        == self.items@[0]@.directory,
                Err(e) => (exists|i: int|
                    0 <= i < self.items@.len() && (#[trigger] self.items@[i]@).directory
                        != self.items@[0]@.directory) && match e {
                    SequenceError::InconsistentProperty(n) => n@ == "directory"@,
                    _ => false,
                },
            },
    {
        let mut i: usize = 1;
        while i < self.items.len()
            invariant
                1 <= i <= self.items@.len(),
                self.wf(),
                forall|k: int|
                    0 <= k < i ==> (#[trigger] self.items@[k]@).directory
                        == self.items@[0]@.directory,
            decreases self.items@.len() - i,
        {
            if !opt_string_eq(&self.items[i].directory, &self.items[0].directory) {
                return Err(SequenceError::InconsistentProperty("directory"));
            }
            i = i + 1;
        }
        Ok(clone_opt_string(&self.items[0].directory))
    }

    /// The zero-padding width shared by every item; fails when items
    /// disagree.
    pub fn padding(&self) -> (r: Result<usize, SequenceError>)
        requires
            self.wf(),
        ensures
            match r {
                Ok(p) => p as nat == self.items@[0]@.frame_string.len() && forall|i: int|
                    0 <= i < self.items@.len() ==> (#[trigger] self.items@[i]@).frame_string.len()
                        == self.items@[0]@.frame_string.len(),
                Err(e) => (exists|i: int|
                    0 <= i < self.items@.len() && (#[trigger] self.items@[i]@).frame_string.len()
                        != self.items@[0]@.frame_string.len()) && match e {
                    SequenceError::InconsistentProperty(n) => n@ == "padding"@,
                    _ => false,
                },
            },
    {
        let first = self.items[0].padding();
        let mut i: usize = 1;
        while i < self.items.len()
            invariant
                1 <= i <= self.items@.len(),
                self.wf(),
                first as nat == self.items@[0]@.frame_string.len(),
                forall|k: int|
                    0 <= k < i ==> (#[trigger] self.items@[k]@).frame_string.len()
                        == self.items@[0]@.frame_string.len(),
            decreases self.items@.len() - i,
        {
            if self.items[i].padding() != first {
                return Err(SequenceError::InconsistentProperty("padding"));
            }
            i = i + 1;
        }
        Ok(first)
    }

    /// Plans the deletion of every item: one delete operation per item, in
    /// item order.
    pub fn delete(&self) -> (r: OperationPlan)
        ensures
            r@.len() == self.items@.len(),
            forall|i: int|
                0 <= i < r@.len() ==> r@[i] == (OpView::Delete {
                    source: path_view(self.items@[i]@),
                }),
    {
        let mut plan = OperationPlan::new();
        let mut i: usize = 0;
        while i < self.items.len()
            invariant
                0 <= i <= self.items@.len(),
                plan@.len() == i,
                forall|k: int|
                    0 <= k < i ==> plan@[k] == (OpView::Delete {
                        source: path_view(self.items@[k]@),
                    }),
            decreases self.items@.len() - i,
        {
            plan.extend(self.items[i].delete());
            i = i + 1;
        }
        plan
    }

    /// Plans a sequence-wide rename: applies the shared override to every
    /// item with that item's own frame number preserved, aggregating the
    /// per-item plans in item order into one plan and the proposed items
    /// into one proposed sequence.
    pub fn rename(&self, new_name: Components) -> (r: Planned<FileSequence>)
        requires
            self.wf(),
        ensures
            r.proposed.wf(),
            r.proposed.items@.len() == self.items@.len(),
            forall|i: int|
                0 <= i < self.items@.len() ==> (#[trigger] r.proposed.items@[i]@) == rename_target(
                    self.items@[i]@,
                    per_item_comps(new_name@, self.items@[i]@),
                ),
            r.plan@ == seq_rename_plan(self.items@, new_name@),
    {
        let mut plan = OperationPlan::new();
        let mut new_items: Vec<Item> = Vec::new();
        let mut i: usize = 0;
        while i < self.items.len()
            invariant
                0 <= i <= self.items@.len(),
                self.wf(),
                new_items@.len() == i,
                forall|k: int|
                    0 <= k < i ==> (#[trigger] new_items@[k]@) == rename_target(
                        self.items@[k]@,
                        per_item_comps(new_name@, self.items@[k]@),
                    ),
                forall|k: int| 0 <= k < i ==> (#[trigger] new_items@[k]).wf(),
                forall|k: int|
                    0 <= k < i ==> frame_of(#[trigger] new_items@[k]@) == frame_of(
                        self.items@[k]@,
                    ),
                plan@ == seq_rename_plan(self.items@.take(i as int), new_name@),
            decreases self.items@.len() - i,
        {
            let item = &self.items[i];
            let comps = new_name.with_frame_number(item.frame_number());
            let planned = item.rename(comps);
            proof {
                assert(comps@ == per_item_comps(new_name@, item@));
                lemma_apply_wf(item@, comps@, item@.directory);
                assert(self.items@.take(i + 1).drop_last() =~= self.items@.take(i as int));
                assert(self.items@.take(i + 1).last() == self.items@[i as int]);
            }
            new_items.push(planned.proposed);
            plan.extend(planned.plan);
            i = i + 1;
        }
        proof {
            assert(self.items@.take(self.items@.len() as int) =~= self.items@);
        }
        let proposed = FileSequence { items: new_items };
        proof {
            assert forall|a: int, b: int| 0 <= a <= b < proposed.items@.len() implies #[trigger] frame_of(
                proposed.items@[a]@,
            ) <= #[trigger] frame_of(proposed.items@[b]@) by {
                assert(frame_of(self.items@[a]@) <= frame_of(self.items@[b]@));
            }
        }
        Planned { proposed, plan }
    }

    /// Plans a sequence-wide relocation: moves every item to `directory`,
    /// preserving every other name part, with one move operation per item
    /// in item order.
    pub fn move_to(&self, directory: &str) -> (r: Planned<FileSequence>)
        requires
            self.wf(),
        ensures
            r.proposed.wf(),
            r.proposed.items@.len() == self.items@.len(),
            forall|i: int|
                0 <= i < self.items@.len() ==> (#[trigger] r.proposed.items@[i]@)
                    == relocate_target(self.items@[i]@, None, Some(directory@)),
            r.plan@.len() == self.items@.len(),
            forall|i: int|
                0 <= i < r.plan@.len() ==> r.plan@[i] == (OpView::Move {
                    source: path_view(self.items@[i]@),
                    destination: path_view(r.proposed.items@[i]@),
                }),
    {
        let mut plan = OperationPlan::new();
        let mut new_items: Vec<Item> = Vec::new();
        let mut i: usize = 0;
        while i < self.items.len()
            invariant
                0 <= i <= self.items@.len(),
                self.wf(),
                new_items@.len() == i,
                forall|k: int|
                    0 <= k < i ==> (#[trigger] new_items@[k]@) == relocate_target(
                        self.items@[k]@,
                        None,
                        Some(directory@),
                    ),
                forall|k: int| 0 <= k < i ==> (#[trigger] new_items@[k]).wf(),
                plan@.len() == i,
                forall|k: int|
                    0 <= k < i ==> plan@[k] == (OpView::Move {
                        source: path_view(self.items@[k]@),
                        destination: path_view(new_items@[k]@),
                    }),
            decreases self.items@.len() - i,
        {
            let item = &self.items[i];
            let planned = item.move_to(None, Some(directory.to_owned()));
            new_items.push(planned.proposed);
            plan.extend(planned.plan);
            i = i + 1;
        }
        let proposed = FileSequence { items: new_items };
        proof {
            assert forall|a: int, b: int| 0 <= a <= b < proposed.items@.len() implies #[trigger] frame_of(
                proposed.items@[a]@,
            ) <= #[trigger] frame_of(proposed.items@[b]@) by {
                assert(frame_of(self.items@[a]@) <= frame_of(self.items@[b]@));
            }
        }
        Planned { proposed, plan }
    }
}

/// Sequence-wide rename preserves per-item identity: every proposed item
/// keeps its source item's frame number, while each overridden name part
/// takes the shared override's value.
pub proof fn lemma_rename_preserves_frames(items: Seq<Item>, c: ComponentsView)
    requires
        all_wf(items),
    ensures
        forall|i: int|
            0 <= i < items.len() ==> frame_of(
                #[trigger] rename_target(items[i]@, per_item_comps(c, items[i]@)),
            ) == frame_of(items[i]@),
        forall|i: int|
            0 <= i < items.len() ==> (#[trigger] rename_target(
                items[i]@,
                per_item_comps(c, items[i]@),
            )).prefix == match c.prefix {
                Some(p) => p,
                None => items[i]@.prefix,
            },
{
    assert forall|i: int| 0 <= i < items.len() implies frame_of(
        #[trigger] rename_target(items[i]@, per_item_comps(c, items[i]@)),
    ) == frame_of(items[i]@) by {
        assert(items[i].wf());
        lemma_apply_wf(items[i]@, per_item_comps(c, items[i]@), items[i]@.directory);
    }
}

} // verus!
