//! Flat and readable renderings of a parsed record.

use vstd::prelude::*;
use vstd::string::StringExecFns;
use crate::parser::{parse, spec_parse};
use crate::record::{Uvci, UvciModel};
use crate::text::{spec_dec, u64_to_string};

verus! {

/// `true` or `false`, spelled out.
pub open spec fn spec_bool(b: bool) -> Seq<char> {
    if b {
        "true"@
    } else {
        "false"@
    }
}

/// The flat comma-joined line for a record: the thirteen fields in
/// data-model order, numbers in decimal, the verification flag spelled
/// `true` or `false`, without quoting.
pub open spec fn spec_to_csv(m: UvciModel) -> Seq<char> {
    spec_dec(m.version) + ","@ + m.country + ","@ + spec_dec(m.schema_option_number) + ","@
        + m.schema_option_desc + ","@ + m.issuing_entity + ","@ + m.vaccine_id + ","@
        + m.opaque_unique_string + ","@ + m.opaque_id + ","@ + m.opaque_issuance + ","@
        + spec_dec(m.opaque_vaccination_month) + ","@ + spec_dec(m.opaque_vaccination_year) + ","@
        + m.checksum + ","@ + spec_bool(m.checksum_verification)
}

/// Renders a parsed record as its flat comma-joined line.
pub fn to_csv(uvci: Uvci) -> (r: String)
    ensures
        r@ == spec_to_csv(uvci@),
{
    let mut out = String::new();
    let version = u64_to_string(uvci.version as u64);
    out.append(version.as_str());
    out.append(",");
    out.append(uvci.country.as_str());
    out.append(",");
    let schema = u64_to_string(uvci.schema_option_number as u64);
    out.append(schema.as_str());
    out.append(",");
    out.append(uvci.schema_option_desc.as_str());
    out.append(",");
    out.append(uvci.issuing_entity.as_str());
    out.append(",");
    out.append(uvci.vaccine_id.as_str());
    out.append(",");
    out.append(uvci.opaque_unique_string.as_str());
    out.append(",");
    out.append(uvci.opaque_id.as_str());
    out.append(",");
    out.append(uvci.opaque_issuance.as_str());
    out.append(",");
    let month = u64_to_string(uvci.opaque_vaccination_month as u64);
    out.append(month.as_str());
    out.append(",");
    let year = u64_to_string(uvci.opaque_vaccination_year as u64);
    out.append(year.as_str());
    out.append(",");
    out.append(uvci.checksum.as_str());
    out.append(",");
    if uvci.checksum_verification {
        out.append("true");
    } else {
        out.append("false");
    }
    proof {
        assert(out@ =~= spec_to_csv(uvci@));
    }
    out
}

/// Parses an identifier and renders the record as its flat line.
pub fn uvci_to_csv(cert_id: &str) -> (r: String)
    ensures
        r@ == spec_to_csv(spec_parse(cert_id@)),
{
    to_csv(parse(cert_id))
}

/// The readable multi-line listing for a record: one aligned
/// `name : value` line per field, in data-model order.
pub open spec fn spec_listing(m: UvciModel) -> Seq<char> {
    "version                  : "@ + spec_dec(m.version) + "\n"@
        + "country                  : "@ + m.country + "\n"@
        + "schema_option_number     : "@ + spec_dec(m.schema_option_number) + "\n"@
        + "schema_option_desc       : "@ + m.schema_option_desc + "\n"@
        + "issuing_entity           : "@ + m.issuing_entity + "\n"@
        + "vaccine_id               : "@ + m.vaccine_id + "\n"@
        + "opaque_unique_string     : "@ + m.opaque_unique_string + "\n"@
        + "opaque_id                : "@ + m.opaque_id + "\n"@
        + "opaque_issuance          : "@ + m.opaque_issuance + "\n"@
        + "opaque_vaccination_month : "@ + spec_dec(m.opaque_vaccination_month) + "\n"@
        + "opaque_vaccination_year  : "@ + spec_dec(m.opaque_vaccination_year) + "\n"@
        + "checksum                 : "@ + m.checksum + "\n"@
        + "checksum_verification    : "@ + spec_bool(m.checksum_verification) + "\n"@
}

impl Uvci {
    /// Renders the record as its readable multi-line listing.
    pub fn listing(&self) -> (r: String)
        ensures
            r@ == spec_listing(self@),
    {
        let mut out = String::new();
        out.append("version                  : ");
        let version = u64_to_string(self.version as u64);
        out.append(version.as_str());
        out.append("\n");
        out.append("country                  : ");
        out.append(self.country.as_str());
        out.append("\n");
        out.append("schema_option_number     : ");
        let schema = u64_to_string(self.schema_option_number as u64);
        out.append(schema.as_str());
        out.append("\n");
        out.append("schema_option_desc       : ");
        out.append(self.schema_option_desc.as_str());
        out.append("\n");
        out.append("issuing_entity           : ");
        out.append(self.issuing_entity.as_str());
        out.append("\n");
        out.append("vaccine_id               : ");
        out.append(self.vaccine_id.as_str());
        out.append("\n");
        out.append("opaque_unique_string     : ");
        out.append(self.opaque_unique_string.as_str());
        out.append("\n");
        out.append("opaque_id                : ");
        out.append(self.opaque_id.as_str());
        out.append("\n");
        out.append("opaque_issuance          : ");
        out.append(self.opaque_issuance.as_str());
        out.append("\n");
        out.append("opaque_vaccination_month : ");
        let month = u64_to_string(self.opaque_vaccination_month as u64);
        out.append(month.as_str());
        out.append("\n");
        out.append("opaque_vaccination_year  : ");
        let year = u64_to_string(self.opaque_vaccination_year as u64);
        out.append(year.as_str());
        out.append("\n");
        out.append("checksum                 : ");
        out.append(self.checksum.as_str());
        out.append("\n");
        out.append("checksum_verification    : ");
        if self.checksum_verification {
            out.append("true");
        } else {
            out.append("false");
        }
        out.append("\n");
        proof {
            assert(out@ =~= spec_listing(self@));
        }
        out
    }
}

} // verus!
