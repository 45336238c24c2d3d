//! What holds of every request and every configuration.
//!
//! Each proof function states one law over the functions by which the rest of
//! the library states its contracts.

use crate::config::{decision, tariff_for};
use crate::geo::{geo_answer, resolved_code, GeoAnswer, GeoDatabase};
use crate::ip::{ip_of, IpView};
use crate::request::{
    client_ip_of, first_entry, header_value, is_text, RequestView, COMMA, FORWARDED_FOR,
};
use crate::tariff::{delay_in, uppercase};
use crate::text::{lemma_find_is, lemma_split_first, trim};
use std::time::Duration;
use vstd::prelude::*;

verus! {

/// A request whose client address resolves to a country that the table holds
/// is held back by exactly the delay configured for that country.
pub proof fn law_configured_delay_applies(
    table: Map<Seq<char>, Duration>,
    db: GeoDatabase,
    req: RequestView,
    ip: IpView,
    code: Seq<char>,
    delay: Duration,
)
    requires
        client_ip_of(req) == Some(ip),
        geo_answer(db, ip) == GeoAnswer::Record(Some(code)),
        delay_in(table, uppercase(code)) == Some(delay),
    ensures
        decision(table, db, req) == Some(delay),
{
}

/// Of two tariffs entered for the same country, the later one counts and the
/// earlier one leaves no trace: the table is as if only the later one had been
/// entered.
pub proof fn law_last_tariff_wins(
    table: Map<Seq<char>, Duration>,
    first_code: Seq<char>,
    first_delay: Duration,
    code: Seq<char>,
    delay: Duration,
)
    requires
        uppercase(first_code) == uppercase(code),
    ensures
        table.insert(uppercase(first_code), first_delay).insert(uppercase(code), delay)
            == table.insert(uppercase(code), delay),
        tariff_for(
            table.insert(uppercase(first_code), first_delay).insert(uppercase(code), delay),
            Some(code),
        ) == Some(delay),
{
    assert(table.insert(uppercase(first_code), first_delay).insert(uppercase(code), delay)
        =~= table.insert(uppercase(code), delay));
}

/// A tariff entered for one country changes the delay of no other country.
pub proof fn law_tariffs_are_independent(
    table: Map<Seq<char>, Duration>,
    code: Seq<char>,
    delay: Duration,
    other: Seq<char>,
)
    requires
        uppercase(other) != uppercase(code),
    ensures
        tariff_for(table.insert(uppercase(code), delay), Some(other)) == tariff_for(
            table,
            Some(other),
        ),
{
}

/// A request is not held back where its client address does not resolve to a
/// country code, or resolves to one for which the table holds no tariff.
pub proof fn law_no_tariff_no_delay(
    table: Map<Seq<char>, Duration>,
    db: GeoDatabase,
    req: RequestView,
    ip: IpView,
)
    requires
        client_ip_of(req) == Some(ip),
        match resolved_code(geo_answer(db, ip)) {
            Some(code) => !table.contains_key(uppercase(code)),
            None => true,
        },
    ensures
        decision(table, db, req) is None,
{
}

/// There is no delay but a configured one: where a request is held back, the
/// delay is one that the table holds for some country.
pub proof fn law_delay_is_a_configured_one(
    table: Map<Seq<char>, Duration>,
    db: GeoDatabase,
    req: RequestView,
)
    ensures
        decision(table, db, req) matches Some(delay) ==> exists|key: Seq<char>|
            table.contains_key(key) && #[trigger] table[key] == delay,
{
    if let Some(delay) = decision(table, db, req) {
        let ip = client_ip_of(req).unwrap();
        let key = uppercase(resolved_code(geo_answer(db, ip)).unwrap());
        assert(table.contains_key(key) && table[key] == delay);
    }
}

/// An empty table holds no request back.
pub proof fn law_empty_table_delays_nothing(db: GeoDatabase, req: RequestView)
    ensures
        decision(Map::<Seq<char>, Duration>::empty(), db, req) is None,
{
}

/// A tariff is found whatever the case in which its country code was entered
/// or is resolved: two codes with the same upper-case form are one country.
pub proof fn law_codes_match_in_any_case(
    table: Map<Seq<char>, Duration>,
    configured: Seq<char>,
    resolved: Seq<char>,
    delay: Duration,
)
    requires
        uppercase(configured) == uppercase(resolved),
    ensures
        tariff_for(table.insert(uppercase(configured), delay), Some(resolved)) == Some(delay),
{
}

/// Of a comma-separated forwarding header only the first entry counts:
/// whatever follows the first comma, the entry read is the first one, trimmed.
pub proof fn law_first_entry_decides(first: Seq<u8>, rest: Seq<u8>)
    requires
        forall|i: int| 0 <= i < first.len() ==> first[i] != COMMA,
    ensures
        first_entry(first + seq![COMMA] + rest) == trim(first),
        first_entry(first) == trim(first),
        ip_of(first_entry(first + seq![COMMA] + rest)) == ip_of(first_entry(first)),
{
    let v = first + seq![COMMA] + rest;
    lemma_find_is(v, COMMA, first.len() as int);
    lemma_split_first(v, COMMA);
    assert(v.take(first.len() as int) == first);
    lemma_find_is(first, COMMA, first.len() as int);
    lemma_split_first(first, COMMA);
    assert(first.take(first.len() as int) == first);
}

/// A forwarding header that reads as text decides alone. Where its first
/// entry writes no address, the request has no client address and is not held
/// back, whatever peer address it carries.
pub proof fn law_forwarding_header_is_final(
    table: Map<Seq<char>, Duration>,
    db: GeoDatabase,
    req: RequestView,
    value: Seq<u8>,
)
    requires
        header_value(req.headers, FORWARDED_FOR@) == Some(value),
        is_text(value),
    ensures
        client_ip_of(req) == ip_of(first_entry(value)),
        ip_of(first_entry(value)) is None ==> client_ip_of(req) is None && decision(table, db, req)
            is None,
{
}

/// Without a forwarding header the client address is the peer's.
pub proof fn law_peer_address_without_header(req: RequestView)
    requires
        header_value(req.headers, FORWARDED_FOR@) is None,
    ensures
        client_ip_of(req) == req.peer,
{
}

/// A request with neither a forwarding header nor a peer address is not held
/// back, whatever the table holds.
pub proof fn law_no_address_no_delay(
    table: Map<Seq<char>, Duration>,
    db: GeoDatabase,
    req: RequestView,
)
    requires
        header_value(req.headers, FORWARDED_FOR@) is None,
        req.peer is None,
    ensures
        decision(table, db, req) is None,
{
}

} // verus!
