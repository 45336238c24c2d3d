//! Holds HTTP requests back by the country of the client's address.
//!
//! A [`Config`] pairs a table of tariffs, each a delay for one country, with a
//! geolocation database. For every request the library derives the client's
//! address, asks the database for its country and looks the country up in the
//! table: [`Config::decide`] returns the delay, or nothing where any of these
//! steps gives nothing. The caller waits for that long and then passes the
//! request on.
//!
//! - [`text`] and [`ip`] read byte strings: fields, white space, addresses.
//! - [`request`] derives the client's address from headers and peer address.
//! - [`tariff`] is the table from country codes to delays.
//! - [`geo`] is the database, read by the `maxminddb` crate.
//! - [`config`] and [`service`] put these together.
//! - [`laws`] states what holds of every request and configuration.

pub mod config;
pub mod geo;
pub mod ip;
pub mod laws;
pub mod request;
pub mod service;
pub mod tariff;
pub mod text;

pub use config::Config;
pub use geo::{CountryRecord, GeoDatabase};
pub use ip::{parse_ip, IpAddress, SocketAddress};
pub use request::{extract_client_ip, Header, RequestContext};
pub use service::{TariffLayer, TariffService};
pub use tariff::TariffTable;
