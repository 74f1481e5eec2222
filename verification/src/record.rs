//! The parsed identifier record and its mathematical model.

use vstd::prelude::*;

verus! {

/// Data of one parsed UVCI (unique vaccination certificate identifier).
/// Absence of information is expressed by zero or empty field values,
/// never by an error: a malformed identifier parses to a record with
/// fewer populated fields.
#[derive(Clone)]
pub struct Uvci {
    /// Schema version, two digits; 0 when unknown.
    pub version: u8,
    /// Country code as found in the identifier, not validated further.
    pub country: String,
    /// Which of the three field layouts the opaque block uses; 0 when unknown.
    pub schema_option_number: u8,
    /// Human-readable label of the schema option; empty when unknown.
    pub schema_option_desc: String,
    /// The authority that issued the certificate (options 1 and 3 only).
    pub issuing_entity: String,
    /// Vaccine product identifier (option 1 only).
    pub vaccine_id: String,
    /// The opaque payload of the identifier (all options).
    pub opaque_unique_string: String,
    /// First nine characters of the opaque payload (Swedish EHM identifiers only).
    pub opaque_id: String,
    /// Last four characters of the opaque payload (Swedish EHM identifiers only).
    pub opaque_issuance: String,
    /// Estimated vaccination month, 1 to 12; 0 when unset.
    pub opaque_vaccination_month: u8,
    /// Estimated four-digit vaccination year; 0 when unset.
    pub opaque_vaccination_year: u16,
    /// The trailing check character; empty when the identifier has none.
    pub checksum: String,
    /// Whether the identifier passed the Luhn mod-38 integrity check.
    pub checksum_verification: bool,
}

/// The mathematical image of a record: every string as a character
/// sequence, every number as a natural.
#[verifier::ext_equal]
pub ghost struct UvciModel {
    pub version: nat,
    pub country: Seq<char>,
    pub schema_option_number: nat,
    pub schema_option_desc: Seq<char>,
    pub issuing_entity: Seq<char>,
    pub vaccine_id: Seq<char>,
    pub opaque_unique_string: Seq<char>,
    pub opaque_id: Seq<char>,
    pub opaque_issuance: Seq<char>,
    pub opaque_vaccination_month: nat,
    pub opaque_vaccination_year: nat,
    pub checksum: Seq<char>,
    pub checksum_verification: bool,
}

impl View for Uvci {
    type V = UvciModel;

    open spec fn view(&self) -> UvciModel {
        UvciModel {
            version: self.version as nat,
            country: self.country@,
            schema_option_number: self.schema_option_number as nat,
            schema_option_desc: self.schema_option_desc@,
            issuing_entity: self.issuing_entity@,
            vaccine_id: self.vaccine_id@,
            opaque_unique_string: self.opaque_unique_string@,
            opaque_id: self.opaque_id@,
            opaque_issuance: self.opaque_issuance@,
            opaque_vaccination_month: self.opaque_vaccination_month as nat,
            opaque_vaccination_year: self.opaque_vaccination_year as nat,
            checksum: self.checksum@,
            checksum_verification: self.checksum_verification,
        }
    }
}

/// The all-default record: every number zero, every string empty, the
/// checksum unverified.
pub open spec fn spec_default() -> UvciModel {
    UvciModel {
        version: 0,
        country: Seq::<char>::empty(),
        schema_option_number: 0,
        schema_option_desc: Seq::<char>::empty(),
        issuing_entity: Seq::<char>::empty(),
        vaccine_id: Seq::<char>::empty(),
        opaque_unique_string: Seq::<char>::empty(),
        opaque_id: Seq::<char>::empty(),
        opaque_issuance: Seq::<char>::empty(),
        opaque_vaccination_month: 0,
        opaque_vaccination_year: 0,
        checksum: Seq::<char>::empty(),
        checksum_verification: false,
    }
}

/// Builds the all-default record.
pub fn default_record() -> (r: Uvci)
    ensures
        r@ == spec_default(),
{
    let r = Uvci {
        version: 0,
        country: String::new(),
        schema_option_number: 0,
        schema_option_desc: String::new(),
        issuing_entity: String::new(),
        vaccine_id: String::new(),
        opaque_unique_string: String::new(),
        opaque_id: String::new(),
        opaque_issuance: String::new(),
        opaque_vaccination_month: 0,
        opaque_vaccination_year: 0,
        checksum: String::new(),
        checksum_verification: false,
    };
    proof {
        assert(r@ =~~= spec_default());
    }
    r
}

} // verus!
