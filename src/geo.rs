use vstd::prelude::*;
use vstd::string::*;

use crate::fields::pair_view;

verus! {

/// What an autonomous-system lookup found.
#[derive(Debug, Clone)]
pub struct AsnRecord {
    pub number: Option<u32>,
    pub organization: Option<String>,
}

/// What a city lookup found: the city's names by locale, in the database's
/// order, and the coordinates as decimal text.
#[derive(Debug, Clone)]
pub struct CityRecord {
    pub names: Vec<(String, String)>,
    pub latitude: Option<String>,
    pub longitude: Option<String>,
}

/// What a country lookup found: the ISO code and the names by locale.
#[derive(Debug, Clone)]
pub struct CountryRecord {
    pub iso_code: Option<String>,
    pub names: Vec<(String, String)>,
}

/// Geolocation of an address; each field is present or not on its own.
#[derive(Debug, Clone)]
pub struct GeoInfo {
    pub asn: Option<u32>,
    pub asn_org: Option<String>,
    pub city: Option<String>,
    pub country_code: Option<String>,
    pub country: Option<String>,
    pub lat: Option<String>,
    pub lng: Option<String>,
}

/// The mathematical content of a `GeoInfo`.
pub struct GeoView {
    pub asn: Option<u32>,
    pub asn_org: Option<Seq<char>>,
    pub city: Option<Seq<char>>,
    pub country_code: Option<Seq<char>>,
    pub country: Option<Seq<char>>,
    pub lat: Option<Seq<char>>,
    pub lng: Option<Seq<char>>,
}

pub open spec fn opt_view(o: Option<String>) -> Option<Seq<char>> {
    match o {
        Some(s) => Some(s@),
        None => None,
    }
}

impl GeoInfo {
    pub open spec fn view(&self) -> GeoView {
        GeoView {
            asn: self.asn,
            asn_org: opt_view(self.asn_org),
            city: opt_view(self.city),
            country_code: opt_view(self.country_code),
            country: opt_view(self.country),
            lat: opt_view(self.lat),
            lng: opt_view(self.lng),
        }
    }
}

pub open spec fn english() -> Seq<char> {
    seq!['e', 'n']
}

/// The value of the first pair whose key is `k`.
pub open spec fn first_value_of(ns: Seq<(Seq<char>, Seq<char>)>, k: Seq<char>) -> Option<Seq<char>>
    decreases ns.len(),
{
    if ns.len() == 0 {
        None
    } else if ns[0].0 == k {
        Some(ns[0].1)
    } else {
        first_value_of(ns.drop_first(), k)
    }
}

/// The English name where there is one, otherwise the first name listed.
pub open spec fn preferred_name(ns: Seq<(Seq<char>, Seq<char>)>) -> Option<Seq<char>> {
    if first_value_of(ns, english()) is Some {
        first_value_of(ns, english())
    } else if ns.len() > 0 {
        Some(ns[0].1)
    } else {
        None
    }
}

pub open spec fn names_view(ns: Vec<(String, String)>) -> Seq<(Seq<char>, Seq<char>)> {
    ns@.map_values(|p: (String, String)| pair_view(p))
}

/// What `enrich` makes of the three lookups.
pub open spec fn enrich_view(
    asn: Option<AsnRecord>,
    city: Option<CityRecord>,
    country: Option<CountryRecord>,
) -> GeoView {
    GeoView {
        asn: match asn { Some(a) => a.number, None => None },
        asn_org: match asn { Some(a) => opt_view(a.organization), None => None },
        city: match city { Some(c) => preferred_name(names_view(c.names)), None => None },
        country_code: match country { Some(c) => opt_view(c.iso_code), None => None },
        country: match country { Some(c) => preferred_name(names_view(c.names)), None => None },
        lat: match city { Some(c) => opt_view(c.latitude), None => None },
        lng: match city { Some(c) => opt_view(c.longitude), None => None },
    }
}

/// Every field present in `a` is present in `b` with the same value.
pub open spec fn geo_le(a: GeoView, b: GeoView) -> bool {
    &&& (a.asn is Some ==> b.asn == a.asn)
    &&& (a.asn_org is Some ==> b.asn_org == a.asn_org)
    &&& (a.city is Some ==> b.city == a.city)
    &&& (a.country_code is Some ==> b.country_code == a.country_code)
    &&& (a.country is Some ==> b.country == a.country)
    &&& (a.lat is Some ==> b.lat == a.lat)
    &&& (a.lng is Some ==> b.lng == a.lng)
}

/// Supplying a lookup that was absent, and keeping the others, removes no
/// field of the merged geolocation and changes none.
pub proof fn lemma_enrich_monotone(
    asn1: Option<AsnRecord>,
    city1: Option<CityRecord>,
    country1: Option<CountryRecord>,
    asn2: Option<AsnRecord>,
    city2: Option<CityRecord>,
    country2: Option<CountryRecord>,
)
    requires
        asn1 is Some ==> asn2 == asn1,
        city1 is Some ==> city2 == city1,
        country1 is Some ==> country2 == country1,
    ensures
        geo_le(enrich_view(asn1, city1, country1), enrich_view(asn2, city2, country2)),
{
}

fn clone_opt(o: &Option<String>) -> (r: Option<String>)
    ensures
        opt_view(r) == opt_view(*o),
{
    match o {
        Some(s) => Some(s.clone()),
        None => None,
    }
}

/// Picks the English name, or the first one listed, or none.
pub fn pick_name(names: &Vec<(String, String)>) -> (r: Option<String>)
    ensures
        opt_view(r) == preferred_name(names_view(*names)),
{
    let ghost ns = names_view(*names);
    let en = String::from_str("en");
    proof {
        reveal_strlit("en");
        assert(en@ =~= english());
        assert(ns.subrange(0, ns.len() as int) =~= ns);
    }
    let mut i: usize = 0;
    while i < names.len()
        invariant
            i <= names.len(),
            ns == names_view(*names),
            en@ == english(),
            first_value_of(ns, english()) == first_value_of(ns.subrange(i as int, ns.len() as int), english()),
        decreases names.len() - i,
    {
        let ghost tail = ns.subrange(i as int, ns.len() as int);
        assert(tail.drop_first() =~= ns.subrange(i + 1, ns.len() as int));
        assert(tail[0] == pair_view(names@[i as int]));
        if names[i].0 == en {
            return Some(names[i].1.clone());
        }
        i = i + 1;
    }
    assert(ns.subrange(i as int, ns.len() as int).len() == 0);
    if names.len() > 0 {
        assert(ns[0] == pair_view(names@[0]));
        Some(names[0].1.clone())
    } else {
        None
    }
}

/// Merges the three optional lookups into one geolocation.
pub fn enrich(
    asn: Option<&AsnRecord>,
    city: Option<&CityRecord>,
    country: Option<&CountryRecord>,
) -> (r: GeoInfo)
    ensures
        r.view() == enrich_view(
            match asn { Some(a) => Some(*a), None => None },
            match city { Some(c) => Some(*c), None => None },
            match country { Some(c) => Some(*c), None => None },
        ),
{
    let (asn_n, asn_org) = match asn {
        Some(a) => (a.number, clone_opt(&a.organization)),
        None => (None, None),
    };
    let (city_name, lat, lng) = match city {
        Some(c) => (pick_name(&c.names), clone_opt(&c.latitude), clone_opt(&c.longitude)),
        None => (None, None, None),
    };
    let (country_code, country_name) = match country {
        Some(c) => (clone_opt(&c.iso_code), pick_name(&c.names)),
        None => (None, None),
    };
    GeoInfo {
        asn: asn_n,
        asn_org,
        city: city_name,
        country_code,
        country: country_name,
        lat,
        lng,
    }
}

} // verus!
