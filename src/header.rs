use vstd::prelude::*;
use crate::record::CityRecord;
use crate::text::str_eq;

verus! {

/// The fields of a record, in the order in which they are declared.
#[derive(Clone, Copy, Debug, PartialEq, Eq, Structural)]
pub enum Field {
    Country,
    City,
    AccentCity,
    Region,
    Latitude,
    Longitude,
}

/// The field at a position of the declaration order.
pub open spec fn field_at(k: int) -> Field {
    if k == 0 {
        Field::Country
    } else if k == 1 {
        Field::City
    } else if k == 2 {
        Field::AccentCity
    } else if k == 3 {
        Field::Region
    } else if k == 4 {
        Field::Latitude
    } else {
        Field::Longitude
    }
}

impl Field {
    /// Position of the field in the declaration order.
    pub open spec fn rank(self) -> int {
        match self {
            Field::Country => 0,
            Field::City => 1,
            Field::AccentCity => 2,
            Field::Region => 3,
            Field::Latitude => 4,
            Field::Longitude => 5,
        }
    }

    pub fn rank_of(self) -> (r: usize)
        ensures
            r == self.rank(),
    {
        match self {
            Field::Country => 0,
            Field::City => 1,
            Field::AccentCity => 2,
            Field::Region => 3,
            Field::Latitude => 4,
            Field::Longitude => 5,
        }
    }
}

/// The field that a header name binds to: the field's own name or its
/// alias, exactly as written (case and spacing count).
pub open spec fn field_of(h: Seq<char>) -> Option<Field> {
    if h == "country"@ || h == "Country"@ {
        Some(Field::Country)
    } else if h == "city"@ || h == "City"@ {
        Some(Field::City)
    } else if h == "accent_city"@ || h == "Accent City"@ {
        Some(Field::AccentCity)
    } else if h == "region"@ || h == "Region"@ {
        Some(Field::Region)
    } else if h == "latitude"@ || h == "Latitude"@ {
        Some(Field::Latitude)
    } else if h == "longitude"@ || h == "Longitude"@ {
        Some(Field::Longitude)
    } else {
        None
    }
}

/// Finds the field that a header name binds to, if any.
pub fn field_for_header(h: &str) -> (r: Option<Field>)
    ensures
        r == field_of(h@),
{
    if str_eq(h, "country") || str_eq(h, "Country") {
        Some(Field::Country)
    } else if str_eq(h, "city") || str_eq(h, "City") {
        Some(Field::City)
    } else if str_eq(h, "accent_city") || str_eq(h, "Accent City") {
        Some(Field::AccentCity)
    } else if str_eq(h, "region") || str_eq(h, "Region") {
        Some(Field::Region)
    } else if str_eq(h, "latitude") || str_eq(h, "Latitude") {
        Some(Field::Latitude)
    } else if str_eq(h, "longitude") || str_eq(h, "Longitude") {
        Some(Field::Longitude)
    } else {
        None
    }
}

/// Why a header cannot bind a record.
#[derive(Clone, Copy, Debug, PartialEq, Eq, Structural)]
pub enum HeaderError {
    /// No column binds to the field.
    MissingColumn(Field),
    /// Two columns bind to the field.
    DuplicateColumn(Field),
}

/// Column `i` binds to a field that an earlier column already binds to.
pub open spec fn repeats_at(hs: Seq<Seq<char>>, i: int) -> bool {
    &&& 0 <= i < hs.len()
    &&& field_of(hs[i]) is Some
    &&& exists|j: int| 0 <= j < i && field_of(hs[j]) == field_of(hs[i])
}

/// No column binds to a field bound by an earlier one.
pub open spec fn no_repeats(hs: Seq<Seq<char>>) -> bool {
    forall|i: int| 0 <= i < hs.len() ==> !repeats_at(hs, i)
}

/// Some column binds to the field.
pub open spec fn has_column(hs: Seq<Seq<char>>, f: Field) -> bool {
    exists|i: int| 0 <= i < hs.len() && field_of(hs[i]) == Some(f)
}

/// What a header binds to: the first repeated column's field if a column
/// is repeated; else the first field, in declaration order, that no
/// column binds to; else every field to its one column.
pub open spec fn header_outcome(hs: Seq<Seq<char>>, r: Result<ColumnMap, HeaderError>) -> bool {
    match r {
        Err(HeaderError::DuplicateColumn(f)) => exists|i: int|
            #![trigger repeats_at(hs, i)]
            {
                &&& repeats_at(hs, i)
                &&& field_of(hs[i]) == Some(f)
                &&& forall|j: int| 0 <= j < i ==> !repeats_at(hs, j)
            },
        Err(HeaderError::MissingColumn(f)) => {
            &&& no_repeats(hs)
            &&& !has_column(hs, f)
            &&& forall|k: int| 0 <= k < f.rank() ==> has_column(hs, #[trigger] field_at(k))
        },
        Ok(m) => {
            &&& no_repeats(hs)
            &&& forall|k: int|
                0 <= k < 6 ==> {
                    let f = #[trigger] field_at(k);
                    &&& m.column(f) < hs.len()
                    &&& field_of(hs[m.column(f) as int]) == Some(f)
                }
        },
    }
}

/// The column of each field.
#[derive(Clone, Copy, Debug, PartialEq, Eq, Structural)]
pub struct ColumnMap {
    pub country: usize,
    pub city: usize,
    pub accent_city: usize,
    pub region: usize,
    pub latitude: usize,
    pub longitude: usize,
}

impl ColumnMap {
    pub open spec fn column(self, f: Field) -> usize {
        match f {
            Field::Country => self.country,
            Field::City => self.city,
            Field::AccentCity => self.accent_city,
            Field::Region => self.region,
            Field::Latitude => self.latitude,
            Field::Longitude => self.longitude,
        }
    }
}

proof fn lemma_field_at_rank(f: Field)
    ensures
        field_at(f.rank()) == f,
        0 <= f.rank() < 6,
{
}

/// Binds the fields of a record to the columns of a CSV header.
pub fn bind_header(headers: &Vec<String>) -> (r: Result<ColumnMap, HeaderError>)
    ensures
        header_outcome(headers.deep_view(), r),
{
    let ghost hs = headers.deep_view();
    let mut slots: Vec<Option<usize>> = vec![None, None, None, None, None, None];
    let mut i: usize = 0;
    while i < headers.len()
        invariant
            hs == headers.deep_view(),
            hs.len() == headers@.len(),
            i <= hs.len(),
            slots@.len() == 6,
            forall|j: int| 0 <= j < i ==> !repeats_at(hs, j),
            forall|k: int|
                0 <= k < 6 ==> match #[trigger] slots@[k] {
                    Some(c) => c < i && field_of(hs[c as int]) == Some(field_at(k)),
                    None => forall|j: int| 0 <= j < i ==> field_of(hs[j]) != Some(field_at(k)),
                },
        decreases headers.len() - i,
    {
        assert(hs[i as int] == headers@[i as int]@);
        match field_for_header(headers[i].as_str()) {
            Some(f) => {
                let k = f.rank_of();
                proof {
                    lemma_field_at_rank(f);
                }
                match slots[k] {
                    Some(c) => {
                        assert(repeats_at(hs, i as int));
                        return Err(HeaderError::DuplicateColumn(f));
                    },
                    None => {
                        assert forall|j: int| 0 <= j < i implies field_of(hs[j]) != field_of(hs[i as int])
                            by {
                            assert(field_at(k as int) == f);
                        }
                        slots.set(k, Some(i));
                    },
                }
            },
            None => {},
        }
        i = i + 1;
    }
    assert forall|k: int| 0 <= k < 6 && slots@[k] is None implies !has_column(hs, field_at(k))
        by {
        assert(slots@[k] is None);
    }
    assert forall|k: int| 0 <= k < 6 && slots@[k] is Some implies has_column(hs, #[trigger] field_at(k))
        by {
        let c = slots@[k]->Some_0;
        assert(field_of(hs[c as int]) == Some(field_at(k)));
    }
    assert(no_repeats(hs));
    let mut cols: Vec<usize> = Vec::new();
    let mut k: usize = 0;
    while k < 6
        invariant
            k <= 6,
            slots@.len() == 6,
            cols@.len() == k,
            forall|q: int| 0 <= q < k ==> slots@[q] == Some(#[trigger] cols@[q]),
            no_repeats(hs),
            hs == headers.deep_view(),
            forall|q: int| 0 <= q < 6 && slots@[q] is None ==> !has_column(hs, #[trigger] field_at(q)),
            forall|q: int| 0 <= q < 6 && slots@[q] is Some ==> has_column(hs, #[trigger] field_at(q)),
            forall|q: int|
                0 <= q < 6 ==> match #[trigger] slots@[q] {
                    Some(c) => c < hs.len() && field_of(hs[c as int]) == Some(field_at(q)),
                    None => true,
                },
        decreases 6 - k,
    {
        match slots[k] {
            Some(c) => cols.push(c),
            None => {
                assert forall|q: int| 0 <= q < k implies has_column(hs, #[trigger] field_at(q)) by {
                    assert(slots@[q] == Some(cols@[q]));
                }
                let f = if k == 0 {
                    Field::Country
                } else if k == 1 {
                    Field::City
                } else if k == 2 {
                    Field::AccentCity
                } else if k == 3 {
                    Field::Region
                } else if k == 4 {
                    Field::Latitude
                } else {
                    Field::Longitude
                };
                assert(f == field_at(k as int));
                assert(f.rank() == k as int);
                assert(!has_column(hs, field_at(k as int)));
                return Err(HeaderError::MissingColumn(f));
            },
        }
        k = k + 1;
    }
    let m = ColumnMap {
        country: cols[0],
        city: cols[1],
        accent_city: cols[2],
        region: cols[3],
        latitude: cols[4],
        longitude: cols[5],
    };
    assert forall|k: int| 0 <= k < 6 implies (#[trigger] slots@[k]) == Some(m.column(field_at(k))) by {
    }
    Ok(m)
}

/// Why a row cannot become a record.
#[derive(Clone, Copy, Debug, PartialEq, Eq, Structural)]
pub enum RowError {
    /// The header does not bind every field to one column.
    Header(HeaderError),
    /// The row has another number of fields than the header.
    FieldCount { expected: usize, found: usize },
}

/// Every field's column is below `n`.
pub open spec fn columns_below(m: ColumnMap, n: int) -> bool {
    &&& m.country < n
    &&& m.city < n
    &&& m.accent_city < n
    &&& m.region < n
    &&& m.latitude < n
    &&& m.longitude < n
}

/// The record that a row of fields gives under a column map, its
/// coordinates still as text.
pub open spec fn record_of_row(m: ColumnMap, fs: Seq<Seq<char>>, r: CityRecord<String>) -> bool {
    &&& r.country@ == fs[m.country as int]
    &&& r.city@ == fs[m.city as int]
    &&& r.accent_city@ == fs[m.accent_city as int]
    &&& r.region@ == fs[m.region as int]
    &&& r.latitude@ == fs[m.latitude as int]
    &&& r.longitude@ == fs[m.longitude as int]
}

/// Turns the rows of one CSV file into records, by the file's header.
pub struct RowBinder {
    /// How the header binds the fields.
    pub columns: Result<ColumnMap, HeaderError>,
    /// The number of columns of the header.
    pub width: usize,
}

impl RowBinder {
    /// Reads the header. A header that binds no record is not an error
    /// yet: a file with no rows loads nothing, whatever its header.
    pub fn new(headers: &Vec<String>) -> (b: RowBinder)
        ensures
            header_outcome(headers.deep_view(), b.columns),
            b.width == headers@.len(),
            b.columns matches Ok(m) ==> columns_below(m, b.width as int),
    {
        let columns = bind_header(headers);
        proof {
            if let Ok(m) = columns {
                assert(field_at(0) == Field::Country);
                assert(field_at(1) == Field::City);
                assert(field_at(2) == Field::AccentCity);
                assert(field_at(3) == Field::Region);
                assert(field_at(4) == Field::Latitude);
                assert(field_at(5) == Field::Longitude);
            }
        }
        RowBinder { columns, width: headers.len() }
    }

    /// Binds one row: each name field takes the text of its column, and
    /// each coordinate the text of its column, to be parsed by the caller.
    pub fn bind(&self, fields: &Vec<String>) -> (r: Result<CityRecord<String>, RowError>)
        ensures
            match self.columns {
                Err(e) => r == Err::<CityRecord<String>, RowError>(RowError::Header(e)),
                Ok(m) => if fields@.len() != self.width || !columns_below(m, fields@.len() as int) {
                    r == Err::<CityRecord<String>, RowError>(
                        RowError::FieldCount { expected: self.width, found: fields.len() },
                    )
                } else {
                    r matches Ok(rec) && record_of_row(m, fields.deep_view(), rec)
                },
            },
    {
        let m = match self.columns {
            Err(e) => {
                return Err(RowError::Header(e));
            },
            Ok(m) => m,
        };
        let n = fields.len();
        if n != self.width || m.country >= n || m.city >= n || m.accent_city >= n || m.region >= n
            || m.latitude >= n || m.longitude >= n {
            return Err(RowError::FieldCount { expected: self.width, found: n });
        }
        let rec = CityRecord {
            country: fields[m.country].clone(),
            city: fields[m.city].clone(),
            accent_city: fields[m.accent_city].clone(),
            region: fields[m.region].clone(),
            latitude: fields[m.latitude].clone(),
            longitude: fields[m.longitude].clone(),
        };
        Ok(rec)
    }
}

} // verus!
