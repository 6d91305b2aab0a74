//! Manufacturer lookup in the OUI registry that `mac_oui` embeds.

use mac_oui::Oui;
use vstd::prelude::*;

verus! {

/// `mac_oui::Oui`, the registry of vendor prefixes: carried as it is, and
/// read only through the lookup below.
#[verifier::external_type_specification]
#[verifier::external_body]
pub struct ExOui(Oui);

/// What a registry holds: for each address text that it can resolve, the
/// name of the company owning the block that the address lies in.
pub uninterp spec fn oui_companies(db: Oui) -> Map<Seq<char>, Seq<char>>;

/// `Oui::default`: the registry built from the embedded table, or nothing
/// where the table cannot be read.
#[verifier::external_body]
pub(crate) fn load_registry() -> (db: Option<Oui>) {
    Oui::default().ok()
}

/// `Oui::lookup_by_mac`: the company name of the entry found for the
/// address text; nothing where the text is no address or no block holds it.
#[verifier::external_body]
pub(crate) fn lookup_company(db: &Oui, mac: &str) -> (name: Option<String>)
    ensures
        match name {
            Some(n) => oui_companies(*db).contains_key(mac@) && oui_companies(*db)[mac@] == n@,
            None => !oui_companies(*db).contains_key(mac@),
        },
{
    match db.lookup_by_mac(mac) {
        Ok(Some(entry)) => Some(entry.company_name.clone()),
        _ => None,
    }
}

} // verus!
