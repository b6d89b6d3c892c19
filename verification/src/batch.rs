//! The entry point: from the bytes of a file, a load address and a batch of
//! addresses to one line of output for each address.

use vstd::prelude::*;
use crate::address::AddressMode;
use crate::error::{Error, ErrorView};
use crate::image::{init_file_obj, session_of};
use crate::select::{FilterView, SelectionFilter};
use crate::symbolize::{is_batch, print_addresses};
use crate::uuid::{identifier_of_text, Uuid};

verus! {

/// What the caller chooses for a batch.
#[derive(Debug)]
pub struct Options {
    pub address_mode: AddressMode,
    /// The architecture of the image to choose in a fat container.
    pub architecture_filter: Option<String>,
    /// The identifier of the image to choose, as text.
    pub identifier_filter: Option<String>,
    /// The caller wants diagnostics beside the lines of output; the lines
    /// themselves do not depend on it.
    pub verbose: bool,
}

/// The options with their texts as sequences of characters.
pub struct OptionsView {
    pub address_mode: AddressMode,
    pub architecture_filter: Option<Seq<char>>,
    pub identifier_filter: Option<Seq<char>>,
    pub verbose: bool,
}

impl View for Options {
    type V = OptionsView;

    open spec fn view(&self) -> OptionsView {
        OptionsView {
            address_mode: self.address_mode,
            architecture_filter: match self.architecture_filter {
                Some(name) => Some(name@),
                None => None,
            },
            identifier_filter: match self.identifier_filter {
                Some(text) => Some(text@),
                None => None,
            },
            verbose: self.verbose,
        }
    }
}

/// The filter that the options ask for. An identifier that is not written as
/// one is refused before anything is read.
pub open spec fn filter_of(options: OptionsView) -> Result<FilterView, ErrorView> {
    match options.identifier_filter {
        None => Ok(FilterView { architecture: options.architecture_filter, identifier: None }),
        Some(text) => match identifier_of_text(text) {
            Some(id) => Ok(
                FilterView { architecture: options.architecture_filter, identifier: Some(id) },
            ),
            None => Err(ErrorView::InvalidIdentifier),
        },
    }
}

/// The view of a filter or the error in its place.
pub open spec fn filter_result_view(r: Result<SelectionFilter, Error>) -> Result<FilterView, ErrorView> {
    match r {
        Ok(filter) => Ok(filter@),
        Err(e) => Err(e@),
    }
}

impl Options {
    /// The filter that the options ask for.
    pub fn filter(&self) -> (r: Result<SelectionFilter, Error>)
        ensures
            filter_result_view(r) == filter_of(self@),
    {
        let architecture = match &self.architecture_filter {
            Some(name) => Some(name.clone()),
            None => None,
        };
        match &self.identifier_filter {
            None => Ok(SelectionFilter { architecture, identifier: None }),
            Some(text) => match Uuid::parse(text.as_str()) {
                Ok(id) => Ok(SelectionFilter { architecture, identifier: Some(id) }),
                Err(_) => Err(Error::InvalidIdentifier),
            },
        }
    }
}

/// What `resolve_batch` returns: the error of the filter, else the error of
/// opening the session, else the batch of the chosen image.
pub open spec fn is_resolved_batch(
    r: Result<Vec<String>, Error>,
    file_name: Seq<char>,
    bytes: Seq<u8>,
    load_address: u64,
    addresses: Seq<u64>,
    options: OptionsView,
) -> bool {
    match filter_of(options) {
        Err(e) => r matches Err(found) && found@ == e,
        Ok(filter) => match session_of(file_name, bytes, filter) {
            Err(e) => r matches Err(found) && found@ == e,
            Ok(image) => is_batch(r, image, load_address, addresses, options.address_mode, image.rich),
        },
    }
}

/// Resolves a batch of addresses in the file `object_bytes`, which is reported
/// under the name `object_filename`.
pub fn resolve_batch(
    object_filename: &str,
    object_bytes: &[u8],
    load_address: u64,
    addresses: &Vec<u64>,
    options: &Options,
) -> (r: Result<Vec<String>, Error>)
    ensures
        is_resolved_batch(r, object_filename@, object_bytes@, load_address, addresses@, options@),
{
    let filter = match options.filter() {
        Ok(filter) => filter,
        Err(e) => {
            return Err(e);
        },
    };
    let object = match init_file_obj(object_filename, object_bytes, &filter) {
        Ok(object) => object,
        Err(e) => {
            return Err(e);
        },
    };
    print_addresses(&object, load_address, addresses, options.address_mode)
}

} // verus!
