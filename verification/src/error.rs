//! The ways in which a lookup session or a single lookup fails.

use vstd::prelude::*;
use crate::select::{slice_views, Slice, SliceView};
use crate::uuid::rendered;

verus! {

/// Why an address cannot be taken into the address space of an image.
#[derive(Clone, Copy, Debug, PartialEq, Eq, Structural)]
pub enum AddressFault {
    /// The address lies below the load address.
    BelowLoadAddress,
    /// The sum with the code segment's base does not fit in 64 bits.
    Overflow,
}

/// An error of the library. The first four fail a whole session or batch; an
/// invalid address and a symbol that is not found concern one address only.
#[derive(Debug)]
pub enum Error {
    /// The file, or the chosen slice of it, is no image that can be read.
    Parse(String),
    /// More than one slice meets the filter; the candidates are listed.
    SelectionAmbiguous(Vec<Slice>),
    /// No slice meets the filter; all slices are listed.
    SelectionNoMatch(Vec<Slice>),
    /// The file is a single image and does not meet the filter.
    FilterMismatch(Slice),
    /// The address cannot be normalised.
    InvalidAddress(AddressFault),
    /// A text that should write an identifier does not.
    InvalidIdentifier,
    /// Neither the debug data nor the symbol table covers the address.
    NotFound,
}

/// An error with its texts and candidates as plain values.
pub enum ErrorView {
    Parse(Seq<char>),
    SelectionAmbiguous(Seq<SliceView>),
    SelectionNoMatch(Seq<SliceView>),
    FilterMismatch(SliceView),
    InvalidAddress(AddressFault),
    InvalidIdentifier,
    NotFound,
}

impl View for Error {
    type V = ErrorView;

    open spec fn view(&self) -> ErrorView {
        match self {
            Error::Parse(message) => ErrorView::Parse(message@),
            Error::SelectionAmbiguous(listed) => ErrorView::SelectionAmbiguous(slice_views(listed@)),
            Error::SelectionNoMatch(listed) => ErrorView::SelectionNoMatch(slice_views(listed@)),
            Error::FilterMismatch(found) => ErrorView::FilterMismatch(found@),
            Error::InvalidAddress(fault) => ErrorView::InvalidAddress(*fault),
            Error::InvalidIdentifier => ErrorView::InvalidIdentifier,
            Error::NotFound => ErrorView::NotFound,
        }
    }
}

/// The candidates of a selection, one to a line: the architecture name, a
/// space, and the identifier in its canonical form or `-` where the slice
/// carries none.
pub open spec fn listing(slices: Seq<SliceView>) -> Seq<char>
    decreases slices.len(),
{
    if slices.len() == 0 {
        Seq::empty()
    } else {
        listing(slices.drop_last()) + "\n  "@ + slices.last().architecture + " "@ + (
        match slices.last().identifier {
            Some(id) => rendered(id),
            None => "-"@,
        })
    }
}

/// The text that tells a user of the error.
pub open spec fn message_text(e: ErrorView) -> Seq<char> {
    match e {
        ErrorView::Parse(message) => "cannot read the object file: "@ + message,
        ErrorView::SelectionAmbiguous(listed) =>
            "more than one slice matches; choose one by architecture or identifier:"@ + listing(
                listed,
            ),
        ErrorView::SelectionNoMatch(listed) => "no slice matches; the file holds:"@ + listing(listed),
        ErrorView::FilterMismatch(found) => "the image does not match; the file holds:"@ + listing(
            seq![found],
        ),
        ErrorView::InvalidAddress(AddressFault::BelowLoadAddress) =>
            "address is smaller than load address"@,
        ErrorView::InvalidAddress(AddressFault::Overflow) =>
            "address does not fit with the base of the code segment"@,
        ErrorView::InvalidIdentifier => "invalid identifier"@,
        ErrorView::NotFound => "failed search symbol"@,
    }
}

fn push_listing(out: &mut String, slices: &Vec<Slice>)
    ensures
        final(out)@ == old(out)@ + listing(slice_views(slices@)),
{
    let ghost views = slice_views(slices@);
    let mut i: usize = 0;
    assert(views.take(0) =~= Seq::<SliceView>::empty());
    assert(out@ =~= old(out)@ + listing(views.take(0)));
    while i < slices.len()
        invariant
            i <= slices.len(),
            views == slice_views(slices@),
            out@ == old(out)@ + listing(views.take(i as int)),
        decreases slices.len() - i,
    {
        let ghost before = out@;
        proof {
            assert(views.take(i + 1).drop_last() =~= views.take(i as int));
            assert(views.take(i + 1).last() == slices@[i as int]@);
        }
        out.append("\n  ");
        out.append(slices[i].architecture.as_str());
        out.append(" ");
        match &slices[i].identifier {
            Some(id) => {
                let text = id.render();
                out.append(text.as_str());
            },
            None => {
                out.append("-");
            },
        }
        assert(out@ =~= old(out)@ + listing(views.take(i + 1)));
        i += 1;
    }
    assert(views.take(views.len() as int) =~= views);
}

impl Error {
    /// The text that tells a user of the error.
    pub fn message(&self) -> (r: String)
        ensures
            r@ == message_text(self@),
    {
        let mut out = String::new();
        match self {
            Error::Parse(message) => {
                out.append("cannot read the object file: ");
                out.append(message.as_str());
                assert(out@ =~= message_text(self@));
            },
            Error::SelectionAmbiguous(listed) => {
                out.append("more than one slice matches; choose one by architecture or identifier:");
                push_listing(&mut out, listed);
                assert(out@ =~= message_text(self@));
            },
            Error::SelectionNoMatch(listed) => {
                out.append("no slice matches; the file holds:");
                push_listing(&mut out, listed);
                assert(out@ =~= message_text(self@));
            },
            Error::FilterMismatch(found) => {
                out.append("the image does not match; the file holds:");
                let mut one: Vec<Slice> = Vec::new();
                one.push(found.copy());
                assert(slice_views(one@) =~= seq![found@]);
                push_listing(&mut out, &one);
                assert(out@ =~= message_text(self@));
            },
            Error::InvalidAddress(AddressFault::BelowLoadAddress) => {
                out.append("address is smaller than load address");
                assert(out@ =~= message_text(self@));
            },
            Error::InvalidAddress(AddressFault::Overflow) => {
                out.append("address does not fit with the base of the code segment");
                assert(out@ =~= message_text(self@));
            },
            Error::InvalidIdentifier => {
                out.append("invalid identifier");
                assert(out@ =~= message_text(self@));
            },
            Error::NotFound => {
                out.append("failed search symbol");
                assert(out@ =~= message_text(self@));
            },
        }
        out
    }
}

} // verus!
