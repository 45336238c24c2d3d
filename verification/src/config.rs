//! The configuration of the middleware, and the decision that it takes for a
//! request: how long to hold it back, if at all.
//!
//! Nothing on this path fails. A request without a client address, an address
//! that the database does not know, a record without a country code and a
//! country without a tariff all end in the same way: no delay.

use crate::geo::{answer_of, geo_answer, resolved_code, CountryRecord, GeoDatabase};
use crate::ip::{IpAddress, IpView};
use crate::request::{client_ip_of, extract_client_ip, RequestContext, RequestView};
use crate::service::TariffLayer;
use crate::tariff::{delay_in, uppercase, TariffTable};
use maxminddb::MaxMindDbError;
use std::time::Duration;
use vstd::prelude::*;

verus! {

/// The delay that `table` sets for a resolved country code: the entry under
/// the code in upper case. Without a code there is no delay.
pub open spec fn tariff_for(table: Map<Seq<char>, Duration>, code: Option<Seq<char>>) -> Option<
    Duration,
> {
    match code {
        Some(c) => delay_in(table, uppercase(c)),
        None => None,
    }
}

/// The delay for a client address: that of the country which the database
/// answers for it. Without an address there is no delay.
pub open spec fn delay_for(table: Map<Seq<char>, Duration>, db: GeoDatabase, ip: Option<IpView>)
    -> Option<Duration> {
    match ip {
        Some(a) => tariff_for(table, resolved_code(geo_answer(db, a))),
        None => None,
    }
}

/// The delay for a request: that of its client address.
pub open spec fn decision(table: Map<Seq<char>, Duration>, db: GeoDatabase, req: RequestView)
    -> Option<Duration> {
    delay_for(table, db, client_ip_of(req))
}

/// A tariff table and the geolocation database by which requests are matched
/// against it.
pub struct Config {
    tariffs: TariffTable,
    db: GeoDatabase,
}

impl Config {
    /// The tariff table: country codes in upper case, each with its delay.
    pub closed spec fn tariffs(&self) -> Map<Seq<char>, Duration> {
        self.tariffs@
    }

    /// The geolocation database.
    pub closed spec fn database(&self) -> GeoDatabase {
        self.db
    }

    /// A configuration with the given database and no tariff.
    pub fn new(db: GeoDatabase) -> (r: Self)
        ensures
            r.tariffs() == Map::<Seq<char>, Duration>::empty(),
            r.database() == db,
    {
        Config { tariffs: TariffTable::new(), db }
    }

    /// The configuration with `delay` for the country `code`, in place of what
    /// it held for that country. `code` may be in any case.
    pub fn with(self, code: &str, delay: Duration) -> (r: Self)
        ensures
            r.tariffs() == self.tariffs().insert(uppercase(code@), delay),
            r.database() == self.database(),
    {
        Config { tariffs: self.tariffs.insert(code, delay), db: self.db }
    }

    /// Makes the configuration final: the layer that comes back shares it,
    /// unchanged, with every service that it wraps.
    pub fn into_layer(self) -> (r: TariffLayer)
        ensures
            r.config() == self,
    {
        TariffLayer::new(self)
    }

    /// The delay for a country code that the database gave, if it gave one.
    pub fn delay_for_code(&self, code: Option<&str>) -> (r: Option<Duration>)
        ensures
            r == tariff_for(
                self.tariffs(),
                match code {
                    Some(c) => Some(c@),
                    None => None,
                },
            ),
    {
        match code {
            Some(c) => self.tariffs.lookup(c),
            None => None,
        }
    }

    /// The delay that follows from the result of a lookup in the database.
    pub fn delay_for_lookup(&self, found: &Result<Option<CountryRecord>, MaxMindDbError>) -> (r:
        Option<Duration>)
        ensures
            r == tariff_for(self.tariffs(), resolved_code(answer_of(*found))),
    {
        match found {
            Ok(Some(record)) => match &record.iso_code {
                Some(code) => self.delay_for_code(Some(code.as_str())),
                None => None,
            },
            _ => None,
        }
    }

    /// The delay for the client address `ip`: the tariff of the country that
    /// the database answers for it.
    pub fn get_delay_for_ip(&self, ip: IpAddress) -> (r: Option<Duration>)
        ensures
            r == delay_for(self.tariffs(), self.database(), Some(ip@)),
    {
        let found = self.db.lookup(ip);
        self.delay_for_lookup(&found)
    }

    /// The delay for a request: the tariff of the country of its client
    /// address, or none where any step gives nothing.
    pub fn decide(&self, req: &RequestContext) -> (r: Option<Duration>)
        ensures
            r == decision(self.tariffs(), self.database(), req@),
    {
        match extract_client_ip(req) {
            Some(ip) => self.get_delay_for_ip(ip),
            None => None,
        }
    }
}

} // verus!
