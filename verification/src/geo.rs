//! The geolocation database: from an address to the record of its country.
//!
//! The database is read by the `maxminddb` crate. What a lookup returns is not
//! described here; it has a name, [`geo_answer`], and the rest of the library
//! is proved for whatever that name stands for.

use crate::ip::{IpAddress, IpView};
use maxminddb::geoip2;
use maxminddb::MaxMindDbError;
use maxminddb::Reader;
use vstd::prelude::*;

verus! {

/// The error type of `maxminddb`. It is carried through as it is; nothing is
/// read of it.
#[verifier::external_type_specification]
#[verifier::external_body]
pub struct ExMaxMindDbError(MaxMindDbError);

/// A geolocation database, loaded into memory: a `maxminddb::Reader` over the
/// bytes of a database file. It is never changed once it is made. The
/// verifier sees nothing of the reader: all that is known of a database is
/// what [`geo_answer`] names.
#[verifier::external_body]
pub struct GeoDatabase {
    reader: Reader<Vec<u8>>,
}

/// What the database holds of a country: its ISO code, if it has one.
#[derive(Clone, Debug, PartialEq, Eq)]
pub struct CountryRecord {
    pub iso_code: Option<String>,
}

/// What a lookup ended with.
pub enum GeoAnswer {
    /// The lookup failed, or the record could not be read.
    Failed,
    /// The database holds nothing for the address.
    Unknown,
    /// The database holds a record for the address, with this ISO code.
    Record(Option<Seq<char>>),
}

/// The answer that the result of a lookup stands for.
pub open spec fn answer_of(found: Result<Option<CountryRecord>, MaxMindDbError>) -> GeoAnswer {
    match found {
        Err(_) => GeoAnswer::Failed,
        Ok(None) => GeoAnswer::Unknown,
        Ok(Some(record)) => GeoAnswer::Record(
            match record.iso_code {
                Some(code) => Some(code@),
                None => None,
            },
        ),
    }
}

/// The country code that an answer gives, if it gives one.
pub open spec fn resolved_code(answer: GeoAnswer) -> Option<Seq<char>> {
    match answer {
        GeoAnswer::Record(code) => code,
        _ => None,
    }
}

/// What the database `db` answers for the address `ip`.
pub uninterp spec fn geo_answer(db: GeoDatabase, ip: IpView) -> GeoAnswer;

impl GeoDatabase {
    /// Opens a database from the bytes of a database file.
    ///
    /// Calls `maxminddb::Reader::from_source`. Nothing is claimed of the
    /// result: the crate decides which bytes it accepts.
    #[verifier::external_body]
    pub fn from_source(buf: Vec<u8>) -> (r: Result<GeoDatabase, MaxMindDbError>) {
        Ok(GeoDatabase { reader: Reader::from_source(buf)? })
    }

    /// Looks an address up.
    ///
    /// Calls `maxminddb::Reader::lookup` with the address and then
    /// `LookupResult::decode` for a `geoip2::Country`, and hands back the ISO
    /// code of the record's `country`. The reader does not change and the
    /// lookup reads nothing else, so the same database gives the same answer
    /// for the same address: the contract gives that answer the name
    /// [`geo_answer`] and claims no more. The crate checks the layout of the
    /// file when the reader is made and bounds every read by it, so that a
    /// damaged file ends in an error, not in a panic.
    #[verifier::external_body]
    pub(crate) fn lookup(&self, ip: IpAddress) -> (r: Result<Option<CountryRecord>, MaxMindDbError>)
        ensures
            answer_of(r) == geo_answer(*self, ip@),
    {
        let addr = match ip {
            IpAddress::V4(octets) => octets.into(),
            IpAddress::V6(groups) => groups.into(),
        };
        let found = self.reader.lookup(addr)?.decode::<geoip2::Country>()?;
        Ok(found.map(|c| CountryRecord { iso_code: c.country.iso_code.map(String::from) }))
    }
}

} // verus!
