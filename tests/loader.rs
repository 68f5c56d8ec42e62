use cities::batch::{Batcher, LoadStep, BATCH_SIZE};
use cities::header::{bind_header, field_for_header, ColumnMap, Field, HeaderError, RowBinder, RowError};
use cities::record::{CityRecord, NewCity, WGS84_SRID};
use cities::text::str_eq;

fn strings(v: &[&str]) -> Vec<String> {
    v.iter().map(|s| s.to_string()).collect()
}

fn standard_header() -> Vec<String> {
    strings(&["Country", "City", "Accent City", "Region", "Latitude", "Longitude"])
}

#[test]
fn str_eq_compares_characters() {
    assert!(str_eq("Accent City", "Accent City"));
    assert!(!str_eq("Accent City", "Accent city"));
    assert!(!str_eq("City", "Cit"));
    assert!(str_eq("", ""));
}

#[test]
fn header_names_and_aliases() {
    assert_eq!(field_for_header("Country"), Some(Field::Country));
    assert_eq!(field_for_header("country"), Some(Field::Country));
    assert_eq!(field_for_header("Accent City"), Some(Field::AccentCity));
    assert_eq!(field_for_header("accent_city"), Some(Field::AccentCity));
    assert_eq!(field_for_header("AccentCity"), None);
    assert_eq!(field_for_header("LATITUDE"), None);
    assert_eq!(field_for_header("Longitude"), Some(Field::Longitude));
    assert_eq!(field_for_header("Population"), None);
}

#[test]
fn standard_header_binds_in_order() {
    let m = bind_header(&standard_header()).unwrap();
    assert_eq!(
        m,
        ColumnMap { country: 0, city: 1, accent_city: 2, region: 3, latitude: 4, longitude: 5 }
    );
}

#[test]
fn header_with_extra_and_reordered_columns() {
    let h = strings(&["Longitude", "Population", "region", "city", "Country", "Accent City", "latitude"]);
    let m = bind_header(&h).unwrap();
    assert_eq!(
        m,
        ColumnMap { country: 4, city: 3, accent_city: 5, region: 2, latitude: 6, longitude: 0 }
    );
}

#[test]
fn header_missing_column() {
    let h = strings(&["Country", "City", "Region", "Latitude"]);
    assert_eq!(bind_header(&h), Err(HeaderError::MissingColumn(Field::AccentCity)));
    let empty: Vec<String> = Vec::new();
    assert_eq!(bind_header(&empty), Err(HeaderError::MissingColumn(Field::Country)));
}

#[test]
fn header_duplicate_column() {
    let h = strings(&["Country", "City", "Accent City", "Region", "Latitude", "Longitude", "country"]);
    assert_eq!(bind_header(&h), Err(HeaderError::DuplicateColumn(Field::Country)));
    let h2 = strings(&["latitude", "Latitude", "city", "City"]);
    assert_eq!(bind_header(&h2), Err(HeaderError::DuplicateColumn(Field::Latitude)));
}

#[test]
fn row_binds_by_column() {
    let b = RowBinder::new(&standard_header());
    assert_eq!(b.width, 6);
    let rec = b.bind(&strings(&["fr", "paris", "Paris", "A8", "48.85", "2.35"])).unwrap();
    assert_eq!(rec.country, "fr");
    assert_eq!(rec.city, "paris");
    assert_eq!(rec.accent_city, "Paris");
    assert_eq!(rec.region, "A8");
    assert_eq!(rec.latitude, "48.85");
    assert_eq!(rec.longitude, "2.35");
}

#[test]
fn row_with_wrong_field_count() {
    let b = RowBinder::new(&standard_header());
    let r = b.bind(&strings(&["fr", "paris", "Paris", "A8", "48.85"]));
    assert_eq!(r.err(), Some(RowError::FieldCount { expected: 6, found: 5 }));
}

#[test]
fn row_under_bad_header() {
    let b = RowBinder::new(&strings(&["Country", "City"]));
    let r = b.bind(&strings(&["fr", "paris"]));
    assert_eq!(r.err(), Some(RowError::Header(HeaderError::MissingColumn(Field::AccentCity))));
}

#[test]
fn new_city_point_is_longitude_latitude() {
    let rec = CityRecord {
        country: "fr".to_string(),
        city: "paris".to_string(),
        accent_city: "Paris".to_string(),
        region: "A8".to_string(),
        latitude: 48.85f64,
        longitude: 2.35f64,
    };
    let c = NewCity::from(rec);
    assert_eq!(c.country, "fr");
    assert_eq!(c.city, "paris");
    assert_eq!(c.accent_city, "Paris");
    assert_eq!(c.region, "A8");
    assert_eq!(c.location.x, 2.35f64);
    assert_eq!(c.location.y, 48.85f64);
    assert_eq!(c.location.srid, 4326);
    assert_eq!(WGS84_SRID, 4326);
}

fn load(n: u32, size: usize) -> (Vec<(u64, Vec<u32>)>, u64) {
    let mut b: Batcher<u32> = Batcher::new(size);
    let mut out = Vec::new();
    for i in 0..n {
        if let Some(batch) = b.push(i) {
            out.push((batch.number, batch.rows));
        }
    }
    let sent = b.batches_sent();
    if let Some(batch) = b.finish() {
        out.push((batch.number, batch.rows));
    }
    (out, sent)
}

#[test]
fn load_of_25000_rows_takes_three_batches() {
    let (batches, full) = load(25000, BATCH_SIZE);
    assert_eq!(full, 2);
    assert_eq!(batches.len(), 3);
    let sizes: Vec<usize> = batches.iter().map(|b| b.1.len()).collect();
    assert_eq!(sizes, vec![10000, 10000, 5000]);
    let numbers: Vec<u64> = batches.iter().map(|b| b.0).collect();
    assert_eq!(numbers, vec![1, 2, 3]);
    let all: Vec<u32> = batches.into_iter().flat_map(|b| b.1).collect();
    assert_eq!(all, (0..25000).collect::<Vec<u32>>());
}

#[test]
fn empty_file_issues_no_insert() {
    let (batches, full) = load(0, BATCH_SIZE);
    assert_eq!(full, 0);
    assert!(batches.is_empty());
}

#[test]
fn exactly_one_batch_of_rows() {
    let mut b: Batcher<u32> = Batcher::new(BATCH_SIZE);
    let mut inserts = 0;
    for i in 0..10000u32 {
        if let Some(batch) = b.push(i) {
            inserts += 1;
            assert_eq!(batch.number, 1);
            assert_eq!(batch.rows.len(), 10000);
            assert_eq!(i, 9999);
        }
    }
    assert!(b.finish().is_none());
    assert_eq!(inserts, 1);
}

#[test]
fn small_batches_keep_order() {
    let (batches, _) = load(7, 3);
    assert_eq!(batches, vec![(1, vec![0, 1, 2]), (2, vec![3, 4, 5]), (3, vec![6])]);
}

#[test]
fn bad_row_aborts_and_is_in_no_batch() {
    let mut b: Batcher<u32> = Batcher::new(2);
    assert!(matches!(b.accept(Ok::<u32, &str>(1)), LoadStep::Continue));
    match b.accept(Err::<u32, &str>("latitude is not a number")) {
        LoadStep::Abort(e) => assert_eq!(e, "latitude is not a number"),
        _ => panic!("a bad row must abort the load"),
    }
    assert_eq!(b.batches_sent(), 0);
    match b.accept(Ok::<u32, &str>(2)) {
        LoadStep::Insert(batch) => assert_eq!(batch.rows, vec![1, 2]),
        _ => panic!("the second good row fills the batch"),
    }
}
