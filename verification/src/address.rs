//! The text form of a contract address, in which it is stored and found
//! again.

use vstd::prelude::*;
use crate::control::PersistedRecord;
use crate::model::ContractAddress;

verus! {

#[verifier::external_type_specification]
#[verifier::external_body]
pub struct ExAddressError(alloy::primitives::AddressError);

/// The checksummed text of the twenty bytes of an address: `0x` and forty
/// hexadecimal digits, the case of the letters carrying a checksum.
pub uninterp spec fn checksummed_text(bytes: Seq<u8>) -> Seq<char>;

/// `text` is the stored form of `address`.
pub open spec fn names(text: Seq<char>, address: ContractAddress) -> bool {
    text == checksummed_text(address.bytes@)
}

/// Reading `text` gives `found`: an address only if `text` is its stored
/// form, and the address of every text that is one.
pub open spec fn reads_as(text: Seq<char>, found: Option<ContractAddress>) -> bool {
    &&& found matches Some(address) ==> names(text, address)
    &&& forall|address: ContractAddress| #[trigger]
        names(text, address) ==> found == Some(address)
}

/// `Display` of `alloy::primitives::Address`, which writes the address in
/// its checksummed form.
#[verifier::external_body]
fn render_address(address: &ContractAddress) -> (text: String)
    ensures
        text@ == checksummed_text(address.bytes@),
{
    alloy::primitives::Address::new(address.bytes).to_string()
}

/// `alloy::primitives::Address::parse_checksummed`, without a chain id. It
/// returns an address only if the text is that address's checksummed form,
/// and it returns the address of every text that is one.
#[verifier::external_body]
fn parse_address(text: &str) -> (outcome: Result<ContractAddress, alloy::primitives::AddressError>)
    ensures
        reads_as(
            text@,
            match outcome {
                Ok(address) => Some(address),
                Err(_) => None,
            },
        ),
{
    alloy::primitives::Address::parse_checksummed(text, None).map(
        |address| ContractAddress { bytes: address.into_array() },
    )
}

impl ContractAddress {
    /// The text under which the address is stored.
    pub fn to_text(&self) -> (text: String)
        ensures
            names(text@, *self),
    {
        render_address(self)
    }

    /// The address that `text` is the stored form of, if it is one. A text
    /// written by [`ContractAddress::to_text`] gives back the address it was
    /// written for.
    pub fn from_text(text: &str) -> (found: Option<ContractAddress>)
        ensures
            reads_as(text@, found),
    {
        match parse_address(text) {
            Ok(address) => Some(address),
            Err(_) => None,
        }
    }
}

/// `record` is what `stored` says of the contract: no record where nothing
/// is stored; the address, where the text is one's stored form; a record
/// that cannot be read, where the text is no address's stored form.
pub open spec fn is_record_of(stored: Option<Seq<char>>, record: PersistedRecord) -> bool {
    match stored {
        None => record is Absent,
        Some(text) => match record {
            PersistedRecord::Absent => false,
            PersistedRecord::Found { address } => reads_as(text, Some(address)),
            PersistedRecord::Unreadable => reads_as(text, None),
        },
    }
}

/// What a stored text says of the contract: nothing stored, nothing
/// deployed yet; an address; or a record that is no address, which must not
/// be taken for an empty one.
pub fn read_record(stored: Option<&str>) -> (record: PersistedRecord)
    ensures
        is_record_of(
            match stored {
                Some(text) => Some(text@),
                None => None,
            },
            record,
        ),
{
    match stored {
        None => PersistedRecord::Absent,
        Some(text) => match ContractAddress::from_text(text) {
            Some(address) => PersistedRecord::Found { address },
            None => PersistedRecord::Unreadable,
        },
    }
}

} // verus!
