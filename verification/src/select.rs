//! The choice of one image among the slices of a container.

use vstd::prelude::*;
use crate::arch::{architecture_matches, same_architecture};
use crate::error::{Error, ErrorView};
use crate::uuid::Uuid;

verus! {

/// One image of a container: its architecture name, its identifier where it
/// carries one, and the bytes of the container that it occupies.
#[derive(Debug, PartialEq, Eq)]
pub struct Slice {
    pub architecture: String,
    pub identifier: Option<Uuid>,
    pub offset: u64,
    pub size: u64,
}

/// A slice with its texts as plain values.
pub struct SliceView {
    pub architecture: Seq<char>,
    pub identifier: Option<Seq<u8>>,
    pub offset: u64,
    pub size: u64,
}

impl View for Slice {
    type V = SliceView;

    open spec fn view(&self) -> SliceView {
        SliceView {
            architecture: self.architecture@,
            identifier: match self.identifier {
                Some(id) => Some(id@),
                None => None,
            },
            offset: self.offset,
            size: self.size,
        }
    }
}

/// The views of the slices of a list.
pub open spec fn slice_views(slices: Seq<Slice>) -> Seq<SliceView> {
    Seq::new(slices.len(), |i: int| slices[i]@)
}

impl Slice {
    /// A slice equal to this one.
    pub fn copy(&self) -> (r: Slice)
        ensures
            r == *self,
    {
        Slice {
            architecture: self.architecture.clone(),
            identifier: self.identifier,
            offset: self.offset,
            size: self.size,
        }
    }
}

/// What the caller asks of the image to be chosen.
#[derive(Debug, PartialEq, Eq)]
pub struct SelectionFilter {
    pub architecture: Option<String>,
    pub identifier: Option<Uuid>,
}

/// A filter with its texts as plain values.
pub struct FilterView {
    pub architecture: Option<Seq<char>>,
    pub identifier: Option<Seq<u8>>,
}

impl View for SelectionFilter {
    type V = FilterView;

    open spec fn view(&self) -> FilterView {
        FilterView {
            architecture: match self.architecture {
                Some(name) => Some(name@),
                None => None,
            },
            identifier: match self.identifier {
                Some(id) => Some(id@),
                None => None,
            },
        }
    }
}

impl FilterView {
    /// The filter asks nothing.
    pub open spec fn is_empty(&self) -> bool {
        self.architecture is None && self.identifier is None
    }

    /// `slice` meets everything the filter asks: the architecture names name
    /// one architecture, and the identifiers are equal.
    pub open spec fn admits(&self, slice: SliceView) -> bool {
        &&& self.architecture matches Some(name) ==> same_architecture(name, slice.architecture)
        &&& self.identifier matches Some(id) ==> slice.identifier == Some(id)
    }
}

impl SelectionFilter {
    /// The filter that asks nothing.
    pub fn none() -> (r: SelectionFilter)
        ensures
            r@.is_empty(),
    {
        SelectionFilter { architecture: None, identifier: None }
    }

    /// Whether `slice` meets everything the filter asks.
    pub fn accepts(&self, slice: &Slice) -> (r: bool)
        ensures
            r == self@.admits(slice@),
    {
        let by_architecture = match &self.architecture {
            Some(name) => architecture_matches(name.as_str(), slice.architecture.as_str()),
            None => true,
        };
        let by_identifier = match &self.identifier {
            Some(id) => match &slice.identifier {
                Some(found) => found.same(id),
                None => false,
            },
            None => true,
        };
        by_architecture && by_identifier
    }
}

/// The positions of the slices that `filter` admits, in the order of the container.
pub open spec fn admitted_positions(slices: Seq<SliceView>, filter: FilterView) -> Seq<int>
    decreases slices.len(),
{
    if slices.len() == 0 {
        Seq::empty()
    } else if filter.admits(slices.last()) {
        admitted_positions(slices.drop_last(), filter).push(slices.len() - 1)
    } else {
        admitted_positions(slices.drop_last(), filter)
    }
}

/// The slices at `positions`.
pub open spec fn slices_at(slices: Seq<SliceView>, positions: Seq<int>) -> Seq<SliceView> {
    Seq::new(positions.len(), |k: int| slices[positions[k]])
}

/// The admitted positions are the positions of admitted slices, each once and
/// in rising order.
pub proof fn lemma_admitted_positions(slices: Seq<SliceView>, filter: FilterView)
    ensures
        forall|k: int|
            0 <= k < admitted_positions(slices, filter).len() ==> 0 <= (
            #[trigger] admitted_positions(slices, filter)[k]) < slices.len() && filter.admits(
                slices[admitted_positions(slices, filter)[k]],
            ),
        forall|k: int, l: int|
            0 <= k < l < admitted_positions(slices, filter).len() ==> admitted_positions(
                slices,
                filter,
            )[k] < admitted_positions(slices, filter)[l],
        forall|i: int|
            0 <= i < slices.len() && filter.admits(#[trigger] slices[i]) ==> admitted_positions(
                slices,
                filter,
            ).contains(i),
        admitted_positions(slices, filter).len() <= slices.len(),
    decreases slices.len(),
{
    if slices.len() > 0 {
        let front = slices.drop_last();
        lemma_admitted_positions(front, filter);
        let before = admitted_positions(front, filter);
        let all = admitted_positions(slices, filter);
        assert forall|i: int| 0 <= i < slices.len() && filter.admits(#[trigger] slices[i]) implies all.contains(
            i,
        ) by {
            if i < slices.len() - 1 {
                assert(front[i] == slices[i]);
                assert(before.contains(i));
                let k = choose|k: int| 0 <= k < before.len() && before[k] == i;
                assert(all[k] == i);
            } else {
                assert(all[all.len() - 1] == i);
            }
        }
        assert forall|k: int| 0 <= k < all.len() implies 0 <= (#[trigger] all[k]) < slices.len()
            && filter.admits(slices[all[k]]) by {
            if k < before.len() {
                assert(all[k] == before[k]);
                assert(front[before[k]] == slices[before[k]]);
            }
        }
    }
}

/// With a filter that asks nothing every position is admitted.
pub proof fn lemma_empty_filter_admits_all(slices: Seq<SliceView>, filter: FilterView)
    requires
        filter.is_empty(),
    ensures
        admitted_positions(slices, filter) == Seq::new(slices.len(), |i: int| i),
        slices_at(slices, admitted_positions(slices, filter)) == slices,
    decreases slices.len(),
{
    if slices.len() > 0 {
        lemma_empty_filter_admits_all(slices.drop_last(), filter);
    }
    assert(admitted_positions(slices, filter) =~= Seq::new(slices.len(), |i: int| i));
    assert(slices_at(slices, admitted_positions(slices, filter)) =~= slices);
}

/// The selection among the slices of a fat container: the position of the one
/// admitted slice; no match, with all slices as candidates, where none is
/// admitted; ambiguous, with the admitted slices as candidates, where several
/// are. A filter that asks nothing admits every slice.
pub open spec fn selection(slices: Seq<SliceView>, filter: FilterView) -> Result<int, ErrorView> {
    let positions = admitted_positions(slices, filter);
    if positions.len() == 1 {
        Ok(positions[0])
    } else if positions.len() == 0 {
        Err(ErrorView::SelectionNoMatch(slices))
    } else {
        Err(ErrorView::SelectionAmbiguous(slices_at(slices, positions)))
    }
}

/// The view of a position or the error in its place.
pub open spec fn position_result_view(r: Result<usize, Error>) -> Result<int, ErrorView> {
    match r {
        Ok(i) => Ok(i as int),
        Err(e) => Err(e@),
    }
}

/// Chooses the one slice that `filter` admits.
pub fn select_slice(slices: &Vec<Slice>, filter: &SelectionFilter) -> (r: Result<usize, Error>)
    ensures
        position_result_view(r) == selection(slice_views(slices@), filter@),
        r matches Ok(i) ==> i < slices@.len() && filter@.admits(slices@[i as int]@),
{
    let ghost views = slice_views(slices@);
    let mut positions: Vec<usize> = Vec::new();
    let mut i: usize = 0;
    while i < slices.len()
        invariant
            i <= slices.len(),
            views == slice_views(slices@),
            positions@.len() == admitted_positions(views.take(i as int), filter@).len(),
            forall|k: int|
                0 <= k < positions@.len() ==> positions@[k] == admitted_positions(
                    views.take(i as int),
                    filter@,
                )[k],
        decreases slices.len() - i,
    {
        proof {
            assert(views.take(i + 1).drop_last() =~= views.take(i as int));
            assert(views.take(i + 1).last() == slices@[i as int]@);
        }
        if filter.accepts(&slices[i]) {
            positions.push(i);
        }
        i += 1;
    }
    proof {
        assert(views.take(views.len() as int) =~= views);
        lemma_admitted_positions(views, filter@);
    }
    let ghost admitted = admitted_positions(views, filter@);
    if positions.len() == 1 {
        assert(positions@[0] == admitted[0]);
        Ok(positions[0])
    } else if positions.len() == 0 {
        let mut listed: Vec<Slice> = Vec::new();
        let mut k: usize = 0;
        while k < slices.len()
            invariant
                k <= slices.len(),
                listed@ == slices@.take(k as int),
            decreases slices.len() - k,
        {
            listed.push(slices[k].copy());
            assert(slices@.take(k + 1) =~= slices@.take(k as int).push(slices@[k as int]));
            k += 1;
        }
        assert(listed@ =~= slices@);
        Err(Error::SelectionNoMatch(listed))
    } else {
        let mut listed: Vec<Slice> = Vec::new();
        let mut k: usize = 0;
        while k < positions.len()
            invariant
                k <= positions.len(),
                views == slice_views(slices@),
                positions@.len() == admitted.len(),
                forall|l: int| 0 <= l < positions@.len() ==> positions@[l] == admitted[l],
                forall|l: int| 0 <= l < admitted.len() ==> 0 <= #[trigger] admitted[l] < slices@.len(),
                listed@.len() == k,
                slice_views(listed@) == slices_at(views, admitted).take(k as int),
            decreases positions.len() - k,
        {
            assert(positions@[k as int] == admitted[k as int]);
            assert(0 <= admitted[k as int] < slices@.len());
            let ghost before = listed@;
            listed.push(slices[positions[k]].copy());
            assert forall|l: int| 0 <= l < k + 1 implies slice_views(listed@)[l] == slices_at(
                views,
                admitted,
            ).take(k + 1)[l] by {
                if l < k {
                    assert(listed@[l] == before[l]);
                    assert(slice_views(before)[l] == slices_at(views, admitted).take(k as int)[l]);
                } else {
                    assert(views[admitted[k as int]] == slices@[admitted[k as int]]@);
                }
            }
            assert(slice_views(listed@) =~= slices_at(views, admitted).take(k + 1));
            k += 1;
        }
        assert(slice_views(listed@) =~= slices_at(views, admitted));
        Err(Error::SelectionAmbiguous(listed))
    }
}

/// What has been read of a file: one image, or the slices of a fat container.
#[derive(Debug)]
pub enum Container {
    Single(Slice),
    Fat(Vec<Slice>),
}

/// A container with its slices as plain values.
pub enum ContainerView {
    Single(SliceView),
    Fat(Seq<SliceView>),
}

impl View for Container {
    type V = ContainerView;

    open spec fn view(&self) -> ContainerView {
        match self {
            Container::Single(image) => ContainerView::Single(image@),
            Container::Fat(slices) => ContainerView::Fat(slice_views(slices@)),
        }
    }
}

impl ContainerView {
    /// The slices of the container; a single image counts as one slice.
    pub open spec fn slices(&self) -> Seq<SliceView> {
        match self {
            ContainerView::Single(image) => seq![*image],
            ContainerView::Fat(slices) => *slices,
        }
    }
}

/// The choice of an image of `container`: the position of the chosen slice (0
/// for a single image), or the error.
///
/// A single image is chosen where it meets the filter and refused as a mismatch
/// where it does not: there is no other slice to fall back on. Among the slices
/// of a fat container the choice is `selection`.
pub open spec fn choice(container: ContainerView, filter: FilterView) -> Result<int, ErrorView> {
    match container {
        ContainerView::Single(image) => if filter.admits(image) {
            Ok(0)
        } else {
            Err(ErrorView::FilterMismatch(image))
        },
        ContainerView::Fat(slices) => selection(slices, filter),
    }
}

/// Chooses the image of `container` that `filter` asks for.
pub fn select(container: &Container, filter: &SelectionFilter) -> (r: Result<usize, Error>)
    ensures
        position_result_view(r) == choice(container@, filter@),
        r matches Ok(i) ==> i < container@.slices().len(),
{
    match container {
        Container::Single(image) => {
            if filter.accepts(image) {
                Ok(0)
            } else {
                Err(Error::FilterMismatch(image.copy()))
            }
        },
        Container::Fat(slices) => select_slice(slices, filter),
    }
}

/// A single image is always chosen where the filter asks nothing.
pub proof fn lemma_single_image_chosen(image: SliceView, filter: FilterView)
    requires
        filter.is_empty(),
    ensures
        choice(ContainerView::Single(image), filter) == Ok::<int, ErrorView>(0),
{
}

/// A fat container of one slice is chosen from as a single image is, where the
/// filter asks nothing: the one slice is chosen.
pub proof fn lemma_one_slice_chosen(slices: Seq<SliceView>, filter: FilterView)
    requires
        filter.is_empty(),
        slices.len() == 1,
    ensures
        choice(ContainerView::Fat(slices), filter) == Ok::<int, ErrorView>(0),
        choice(ContainerView::Fat(slices), filter) == choice(ContainerView::Single(slices[0]), filter),
{
    lemma_empty_filter_admits_all(slices, filter);
}

/// Among several slices a filter that asks nothing chooses none: the selection
/// is ambiguous and lists every slice of the container, in order.
pub proof fn lemma_many_slices_ambiguous(slices: Seq<SliceView>, filter: FilterView)
    requires
        filter.is_empty(),
        slices.len() > 1,
    ensures
        choice(ContainerView::Fat(slices), filter) == Err::<int, ErrorView>(
            ErrorView::SelectionAmbiguous(slices),
        ),
{
    lemma_empty_filter_admits_all(slices, filter);
}

/// Whatever the filter, exactly one slice is chosen only where it is the one
/// that the filter admits; the candidates of a failed selection among several
/// slices are never fewer than two where it is ambiguous.
pub proof fn lemma_selection_sound(slices: Seq<SliceView>, filter: FilterView)
    ensures
        match selection(slices, filter) {
            Ok(i) => 0 <= i < slices.len() && filter.admits(slices[i]) && forall|j: int|
                0 <= j < slices.len() && j != i ==> !filter.admits(#[trigger] slices[j]),
            Err(ErrorView::SelectionNoMatch(listed)) => listed == slices && forall|j: int|
                0 <= j < slices.len() ==> !filter.admits(#[trigger] slices[j]),
            Err(ErrorView::SelectionAmbiguous(listed)) => listed.len() >= 2 && forall|k: int|
                0 <= k < listed.len() ==> filter.admits(#[trigger] listed[k]),
            Err(_) => false,
        },
{
    lemma_admitted_positions(slices, filter);
    let positions = admitted_positions(slices, filter);
    if positions.len() == 1 {
        assert forall|j: int| 0 <= j < slices.len() && j != positions[0] implies !filter.admits(
            #[trigger] slices[j],
        ) by {
            if filter.admits(slices[j]) {
                assert(positions.contains(j));
            }
        }
    } else if positions.len() == 0 {
        assert forall|j: int| 0 <= j < slices.len() implies !filter.admits(#[trigger] slices[j]) by {
            if filter.admits(slices[j]) {
                assert(positions.contains(j));
            }
        }
    } else {
        let listed = slices_at(slices, positions);
        assert forall|k: int| 0 <= k < listed.len() implies filter.admits(#[trigger] listed[k]) by {
            assert(filter.admits(slices[positions[k]]));
        }
    }
}

} // verus!
