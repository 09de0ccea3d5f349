//! Deciding the delay of one request.
//!
//! An explicit `X-Request-Delay` wins over everything else, a delay of zero
//! included. Without one, an `X-Client-Location` that states two numbers,
//! together with an upstream host that has a site, asks for a delay from the
//! distance model. In every other case the request is not delayed.

use crate::delay_header::override_delay_ns;
use crate::delay_header::spec_override_delay_ns;
use crate::headers::first_value;
use crate::headers::header_value;
use crate::headers::is_plain_name;
use crate::location_header::parse_location;
use crate::location_header::spec_parse_location;
use crate::location_header::CoordinateText;
use crate::sites::spec_site_of;
use crate::sites::SiteTable;
use hyper::header::HeaderValue;
use hyper::HeaderMap;
use vstd::prelude::*;

verus! {

/// The name of the header that states a delay outright, as header maps store
/// it.
pub const DELAY_HEADER: &'static str = "x-request-delay";

/// The name of the header that states where the client is, as header maps
/// store it.
pub const LOCATION_HEADER: &'static str = "x-client-location";

/// How the delay of a request is determined.
#[derive(Debug, Clone, PartialEq, Eq)]
pub enum Resolution {
    /// The request states its delay; nothing else is consulted.
    Override { total_delay_ns: u64 },
    /// The delay follows from the distance between the client, whose
    /// coordinates are given as text, and the replica site of this number.
    Geographic { client: CoordinateText, site: usize },
    /// The request is not delayed.
    NoDelay,
}

/// A `Resolution` as a mathematical value.
pub enum ResolutionView {
    /// The request states its delay.
    Override { total_delay_ns: u64 },
    /// The delay follows from the distance between the client at these
    /// coordinates, written as text, and the replica site of this number.
    Geographic { latitude: Seq<u8>, longitude: Seq<u8>, site: usize },
    /// The request is not delayed.
    NoDelay,
}

impl View for Resolution {
    type V = ResolutionView;

    open spec fn view(&self) -> ResolutionView {
        match *self {
            Resolution::Override { total_delay_ns } => ResolutionView::Override { total_delay_ns },
            Resolution::Geographic { client, site } => ResolutionView::Geographic {
                latitude: client.latitude@,
                longitude: client.longitude@,
                site,
            },
            Resolution::NoDelay => ResolutionView::NoDelay,
        }
    }
}

/// The bytes behind an optional byte slice.
pub open spec fn bytes_of(value: Option<&[u8]>) -> Option<Seq<u8>> {
    match value {
        Some(bytes) => Some(bytes@),
        None => None,
    }
}

/// What the location header and the upstream host ask for when no delay is
/// stated outright.
pub open spec fn spec_resolve_location(
    location: Option<Seq<u8>>,
    host: Option<Seq<u8>>,
    sites: Seq<Seq<u8>>,
) -> ResolutionView {
    match (location, host) {
        (Some(value), Some(name)) => match (spec_parse_location(value), spec_site_of(sites, name)) {
            (Some((latitude, longitude)), Some(site)) => ResolutionView::Geographic {
                latitude,
                longitude,
                site,
            },
            _ => ResolutionView::NoDelay,
        },
        _ => ResolutionView::NoDelay,
    }
}

/// How the delay of a request is determined, given the values of its two
/// headers, its upstream host and the known sites.
pub open spec fn spec_resolve(
    delay: Option<Seq<u8>>,
    location: Option<Seq<u8>>,
    host: Option<Seq<u8>>,
    sites: Seq<Seq<u8>>,
) -> ResolutionView {
    match delay {
        Some(value) => match spec_override_delay_ns(value) {
            Some(total_delay_ns) => ResolutionView::Override { total_delay_ns },
            None => spec_resolve_location(location, host, sites),
        },
        None => spec_resolve_location(location, host, sites),
    }
}

/// The total delay of a request in nanoseconds, once the distance model has
/// been asked where it had to be: `modelled_ns` is its answer, `None` where it
/// has none.
pub open spec fn spec_total_delay_ns(resolution: ResolutionView, modelled_ns: Option<u64>) -> u64 {
    match resolution {
        ResolutionView::Override { total_delay_ns } => total_delay_ns,
        ResolutionView::Geographic { .. } => match modelled_ns {
            Some(ns) => ns,
            None => 0,
        },
        ResolutionView::NoDelay => 0,
    }
}

/// A request that states its delay gets exactly that delay: neither its
/// location header, nor its upstream host, nor the known sites, nor the
/// distance model have a say.
pub proof fn lemma_override_wins(
    delay: Seq<u8>,
    location: Option<Seq<u8>>,
    host: Option<Seq<u8>>,
    sites: Seq<Seq<u8>>,
    modelled_ns: Option<u64>,
)
    requires
        spec_override_delay_ns(delay) is Some,
    ensures
        spec_resolve(Some(delay), location, host, sites) == (ResolutionView::Override {
            total_delay_ns: spec_override_delay_ns(delay).unwrap(),
        }),
        spec_total_delay_ns(spec_resolve(Some(delay), location, host, sites), modelled_ns)
            == spec_override_delay_ns(delay).unwrap(),
{
}

/// A request that states no delay, and either gives no location that can be
/// read or goes to a host without a site, is not delayed, whatever the
/// distance model would say.
pub proof fn lemma_without_site_no_delay(
    delay: Option<Seq<u8>>,
    location: Option<Seq<u8>>,
    host: Option<Seq<u8>>,
    sites: Seq<Seq<u8>>,
    modelled_ns: Option<u64>,
)
    requires
        delay is None || spec_override_delay_ns(delay.unwrap()) is None,
        location is None || spec_parse_location(location.unwrap()) is None || host is None
            || spec_site_of(sites, host.unwrap()) is None,
    ensures
        spec_resolve(delay, location, host, sites) == ResolutionView::NoDelay,
        spec_total_delay_ns(spec_resolve(delay, location, host, sites), modelled_ns) == 0,
{
}

/// A request that states no delay, gives a location that can be read and goes
/// to a host with a site is delayed by what the distance model answers for
/// that location and that site.
pub proof fn lemma_location_asks_the_model(
    delay: Option<Seq<u8>>,
    location: Seq<u8>,
    host: Seq<u8>,
    sites: Seq<Seq<u8>>,
    modelled_ns: u64,
)
    requires
        delay is None || spec_override_delay_ns(delay.unwrap()) is None,
        spec_parse_location(location) is Some,
        spec_site_of(sites, host) is Some,
    ensures
        spec_resolve(delay, Some(location), Some(host), sites) == (ResolutionView::Geographic {
            latitude: spec_parse_location(location).unwrap().0,
            longitude: spec_parse_location(location).unwrap().1,
            site: spec_site_of(sites, host).unwrap(),
        }),
        spec_total_delay_ns(
            spec_resolve(delay, Some(location), Some(host), sites),
            Some(modelled_ns),
        ) == modelled_ns,
{
}

/// With everything else the same, a larger answer of the distance model never
/// makes the total delay smaller.
pub proof fn lemma_total_delay_follows_the_model(
    resolution: ResolutionView,
    smaller_ns: u64,
    larger_ns: u64,
)
    requires
        smaller_ns <= larger_ns,
    ensures
        spec_total_delay_ns(resolution, Some(smaller_ns)) <= spec_total_delay_ns(
            resolution,
            Some(larger_ns),
        ),
{
}

/// Decides from the values of the two headers, where the request has them.
pub fn resolve_values(
    delay: Option<&[u8]>,
    location: Option<&[u8]>,
    host: Option<&[u8]>,
    sites: &SiteTable,
) -> (r: Resolution)
    ensures
        r@ == spec_resolve(bytes_of(delay), bytes_of(location), bytes_of(host), sites@),
{
    if let Some(value) = delay {
        if let Some(total_delay_ns) = override_delay_ns(value) {
            return Resolution::Override { total_delay_ns };
        }
    }
    let value = match location {
        Some(value) => value,
        None => {
            return Resolution::NoDelay;
        },
    };
    let client = match parse_location(value) {
        Some(client) => client,
        None => {
            return Resolution::NoDelay;
        },
    };
    let host = match host {
        Some(host) => host,
        None => {
            return Resolution::NoDelay;
        },
    };
    match sites.site_of(host) {
        Some(site) => Resolution::Geographic { client, site },
        None => Resolution::NoDelay,
    }
}

/// Decides from the headers of a request.
pub fn resolve(headers: &HeaderMap<HeaderValue>, host: Option<&[u8]>, sites: &SiteTable) -> (r:
    Resolution)
    ensures
        r@ == spec_resolve(
            header_value(*headers, DELAY_HEADER@),
            header_value(*headers, LOCATION_HEADER@),
            bytes_of(host),
            sites@,
        ),
{
    proof {
        reveal_strlit("x-request-delay");
        reveal_strlit("x-client-location");
        assert(is_plain_name(DELAY_HEADER@));
        assert(is_plain_name(LOCATION_HEADER@));
    }
    let delay = first_value(headers, DELAY_HEADER);
    let location = first_value(headers, LOCATION_HEADER);
    resolve_values(delay, location, host, sites)
}

impl Resolution {
    /// The total delay in nanoseconds. For a geographic resolution it is what
    /// the distance model answered, or zero where it had no answer; otherwise
    /// the model's answer is not looked at.
    pub fn total_delay_ns(&self, modelled_ns: Option<u64>) -> (total: u64)
        ensures
            total == spec_total_delay_ns(self@, modelled_ns),
    {
        match self {
            Resolution::Override { total_delay_ns } => *total_delay_ns,
            Resolution::Geographic { .. } => match modelled_ns {
                Some(ns) => ns,
                None => 0,
            },
            Resolution::NoDelay => 0,
        }
    }
}

} // verus!
