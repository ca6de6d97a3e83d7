//! Where a client is: the record that a location service keeps of an
//! address, and the steps by which such a record is had, from the caller's
//! store or from the service.

use vstd::prelude::*;
use vstd::string::*;

verus! {

/// What a location service knows of an address.
#[derive(Debug)]
pub struct IpInfo {
    pub ip: String,
    pub asn: String,
    pub as_name: String,
    pub as_domain: String,
    pub country_code: String,
    pub country: String,
    pub continent_code: String,
    pub continent: String,
}

impl Clone for IpInfo {
    fn clone(&self) -> (copy: Self)
        ensures
            copy == *self,
    {
        IpInfo {
            ip: self.ip.clone(),
            asn: self.asn.clone(),
            as_name: self.as_name.clone(),
            as_domain: self.as_domain.clone(),
            country_code: self.country_code.clone(),
            country: self.country.clone(),
            continent_code: self.continent_code.clone(),
            continent: self.continent.clone(),
        }
    }
}

/// The address under which the location service answers for `ip` to the
/// holder of `token`.
pub open spec fn spec_lookup_url(ip: Seq<char>, token: Seq<char>) -> Seq<char> {
    "https://api.ipinfo.io/lite/"@ + ip + "?token="@ + token
}

/// The address under which the location service answers for `ip` to the
/// holder of `token`.
pub fn lookup_url(ip: &str, token: &str) -> (url: String)
    ensures
        url@ == spec_lookup_url(ip@, token@),
{
    let mut url = "https://api.ipinfo.io/lite/".to_owned();
    url.append(ip);
    url.append("?token=");
    url.append(token);
    url
}

/// What is to be done for the record of an address once the store has been
/// asked for it.
#[derive(Debug)]
pub enum GeoStep {
    /// The store had the record: this is it, and nothing is fetched.
    Found(IpInfo),
    /// The store had none: the record is to be fetched from `url` and to be
    /// stored under the address before it is used.
    Fetch { url: String },
}

/// Decides what is to be done for the record of `ip`, given what the store
/// holds for it.
pub fn get_geo_data(cached: Option<IpInfo>, ip: &str, token: &str) -> (step: GeoStep)
    ensures
        match cached {
            Some(info) => step == GeoStep::Found(info),
            None => step matches GeoStep::Fetch { url } && url@ == spec_lookup_url(ip@, token@),
        },
{
    match cached {
        Some(info) => GeoStep::Found(info),
        None => GeoStep::Fetch { url: lookup_url(ip, token) },
    }
}

} // verus!
