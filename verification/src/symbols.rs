//! The symbol map of an image: the map from addresses to symbol names that the
//! object crate builds, and the search in it for the symbol nearest at or below
//! an address.

use object::read::{SymbolMap, SymbolMapName};
use object::Object;
use vstd::prelude::*;

verus! {

/// One defined symbol: its address in the image and its name as the image holds it.
#[derive(Debug, PartialEq, Eq)]
pub struct Symbol {
    pub address: u64,
    pub name: String,
}

impl View for Symbol {
    type V = (u64, Seq<char>);

    open spec fn view(&self) -> (u64, Seq<char>) {
        (self.address, self.name@)
    }
}

/// The symbol map of an image. It borrows the names from the bytes of the image.
///
/// The map is `object::read::SymbolMap`, which cannot be declared to the
/// verifier as it is; nothing is known of a value of this type but what the
/// functions below state of it.
#[verifier::external_body]
pub struct SymbolTable<'a> {
    map: SymbolMap<SymbolMapName<'a>>,
}

/// The entries of the map, each an address and a name, in the order in which
/// the map holds them.
pub uninterp spec fn map_entries(table: SymbolTable<'_>) -> Seq<(u64, Seq<char>)>;

/// The entries of the symbol map that the object crate builds for the image in
/// `image`; `None` where the image cannot be read.
pub uninterp spec fn symbol_entries(image: Seq<u8>) -> Option<Seq<(u64, Seq<char>)>>;

/// The position that `SymbolMap::get` finds for `address` in a map that holds
/// `entries`.
pub uninterp spec fn map_position(entries: Seq<(u64, Seq<char>)>, address: u64) -> Option<int>;

/// The entry at `i` is nearest at or below `address`: its address is not above
/// `address`, and no entry at or below `address` has a greater address.
pub open spec fn is_nearest(entries: Seq<(u64, Seq<char>)>, address: u64, i: int) -> bool {
    &&& 0 <= i < entries.len()
    &&& entries[i].0 <= address
    &&& forall|j: int|
        0 <= j < entries.len() && (#[trigger] entries[j]).0 <= address ==> entries[j].0 <= entries[i].0
}

/// Every entry lies above `address`.
pub open spec fn all_above(entries: Seq<(u64, Seq<char>)>, address: u64) -> bool {
    forall|j: int| 0 <= j < entries.len() ==> (#[trigger] entries[j]).0 > address
}

/// The greatest image base with which the symbol map is built. For a symbol
/// of a PE image object adds the image base, the address of the symbol's
/// section and the value of the symbol, the last two of 32 bits each, without
/// a test; up to this base the sum fits in 64 bits.
pub const MAX_IMAGE_BASE: u64 = 0xffff_fffe_0000_0001;

/// The image has no base, or one with which the symbol map is built.
pub open spec fn base_fits(base: Option<u64>) -> bool {
    base matches Some(b) ==> b <= MAX_IMAGE_BASE
}

/// Calls `object::File::parse` and `Object::symbol_map`, and keeps the map.
/// On a PE image `Object::symbol_map` adds the image base to the address of
/// each symbol, and panics where the sum leaves 64 bits and overflow is
/// checked: the `requires` leaves out the images whose base is above
/// `MAX_IMAGE_BASE`.
/// The contract only names what the map holds and is not proved.
#[verifier::external_body]
pub(crate) fn read_symbol_map<'a>(image: &'a [u8]) -> (r: Option<SymbolTable<'a>>)
    requires
        base_fits(crate::object_data::address_base(image@)),
    ensures
        r is Some <==> symbol_entries(image@) is Some,
        r matches Some(table) ==> symbol_entries(image@) == Some(map_entries(table)),
{
    Some(SymbolTable { map: object::File::parse(image).ok()?.symbol_map() })
}

impl<'a> SymbolTable<'a> {
    /// Calls `SymbolMap::get` and hands out the address and name of the entry
    /// that it gives. The map holds its entries sorted by address, and `get`
    /// searches them for `address`: it gives an entry at `address` where there
    /// is one, else the last entry below `address`, and none where every entry
    /// lies above `address`. Which of several entries with one address it
    /// gives is left open. The contract is taken from the source of the object
    /// crate and is not proved.
    #[verifier::external_body]
    pub(crate) fn lookup(&self, address: u64) -> (r: Option<Symbol>)
        ensures
            match r {
                None => map_position(map_entries(*self), address) is None && all_above(
                    map_entries(*self),
                    address,
                ),
                Some(found) => map_position(map_entries(*self), address) matches Some(i)
                    && is_nearest(map_entries(*self), address, i) && map_entries(*self)[i] == found@,
            },
    {
        self.map.get(address).map(|s| Symbol { address: s.address(), name: s.name().to_string() })
    }
}

} // verus!
