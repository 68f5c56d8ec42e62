use vstd::prelude::*;

verus! {

/// Spatial reference identifier of WGS 84 longitude/latitude degrees.
pub const WGS84_SRID: u32 = 4326;

/// One row of the dataset, as bound to fields by header name.
///
/// `C` is the coordinate type: the text of the column while the row is
/// being bound, a number once it has been parsed.
pub struct CityRecord<C> {
    pub country: String,
    pub city: String,
    pub accent_city: String,
    pub region: String,
    pub latitude: C,
    pub longitude: C,
}

/// A geometry point tagged with a spatial reference identifier.
pub struct GeoPoint<C> {
    pub x: C,
    pub y: C,
    pub srid: u32,
}

/// A city in the shape in which it is inserted into the table.
pub struct NewCity<C> {
    pub country: String,
    pub city: String,
    pub accent_city: String,
    pub region: String,
    pub location: GeoPoint<C>,
}

/// The insertable city for a record: the four names verbatim, and the
/// point at x = longitude, y = latitude in WGS 84.
pub open spec fn new_city_of<C>(r: CityRecord<C>) -> NewCity<C> {
    NewCity {
        country: r.country,
        city: r.city,
        accent_city: r.accent_city,
        region: r.region,
        location: GeoPoint { x: r.longitude, y: r.latitude, srid: WGS84_SRID },
    }
}

impl<C> From<CityRecord<C>> for NewCity<C> {
    fn from(r: CityRecord<C>) -> (c: NewCity<C>)
        ensures
            c == new_city_of(r),
    {
        NewCity {
            country: r.country,
            city: r.city,
            accent_city: r.accent_city,
            region: r.region,
            location: GeoPoint { x: r.longitude, y: r.latitude, srid: WGS84_SRID },
        }
    }
}

impl<C> vstd::std_specs::convert::FromSpecImpl<CityRecord<C>> for NewCity<C> {
    open spec fn obeys_from_spec() -> bool {
        true
    }

    open spec fn from_spec(r: CityRecord<C>) -> NewCity<C> {
        new_city_of(r)
    }
}

} // verus!
