//! The station layout table: which block of columns belongs to which counting
//! location and which counter pairs that location has, together with the fixed
//! header row that a well-formed export file must carry.

use vstd::prelude::*;

verus! {

/// One station's place in a row: its location id, the column where its slice
/// starts (the slice begins with the station's total column), how many columns
/// the slice spans, and which counter pairs the station has.
#[derive(Clone, Copy, Debug, PartialEq, Eq, Structural)]
pub struct StationEntry {
    pub location_id: i32,
    pub start: usize,
    pub span: usize,
    pub has_ped: bool,
    pub has_bike: bool,
}

/// A layout table plus the total number of columns a data row must have
/// (the timestamp column, every station slice, and one trailing spare).
pub struct Layout {
    pub entries: Vec<StationEntry>,
    pub width: usize,
}

impl Layout {
    /// Structural invariant: the first slice starts right after the timestamp
    /// column, the slices are contiguous with no gaps or overlaps, and every
    /// slice fits strictly inside the row.
    pub open spec fn wf(self) -> bool {
        &&& self.width >= 2
        &&& (self.entries@.len() > 0 ==> self.entries@[0].start == 1)
        &&& (forall|i: int|
            1 <= i < self.entries@.len() ==> (#[trigger] self.entries@[i]).start
                == self.entries@[i - 1].start + self.entries@[i - 1].span)
        &&& (forall|i: int|
            0 <= i < self.entries@.len() ==> (#[trigger] self.entries@[i]).start
                + self.entries@[i].span < self.width)
    }
}

/// The fixed station table of the export format, in column order.
pub open spec fn spec_station_entries() -> Seq<StationEntry> {
    seq![
        StationEntry { location_id: 16, start: 1, span: 5, has_ped: true, has_bike: true },
        StationEntry { location_id: 1, start: 6, span: 5, has_ped: true, has_bike: true },
        StationEntry { location_id: 11, start: 11, span: 5, has_ped: true, has_bike: true },
        StationEntry { location_id: 3, start: 16, span: 5, has_ped: true, has_bike: true },
        StationEntry { location_id: 12, start: 21, span: 5, has_ped: true, has_bike: true },
        StationEntry { location_id: 5, start: 26, span: 5, has_ped: true, has_bike: true },
        StationEntry { location_id: 8, start: 31, span: 5, has_ped: true, has_bike: true },
        StationEntry { location_id: 10, start: 36, span: 5, has_ped: true, has_bike: true },
        StationEntry { location_id: 2, start: 41, span: 5, has_ped: true, has_bike: true },
        StationEntry { location_id: 24, start: 46, span: 3, has_ped: false, has_bike: true },
        StationEntry { location_id: 7, start: 49, span: 5, has_ped: true, has_bike: true },
        StationEntry { location_id: 6, start: 54, span: 5, has_ped: true, has_bike: true },
        StationEntry { location_id: 13, start: 59, span: 5, has_ped: true, has_bike: true },
        StationEntry { location_id: 25, start: 64, span: 3, has_ped: false, has_bike: true },
        StationEntry { location_id: 23, start: 67, span: 5, has_ped: true, has_bike: true },
        StationEntry { location_id: 14, start: 72, span: 5, has_ped: true, has_bike: true },
        StationEntry { location_id: 9, start: 77, span: 5, has_ped: true, has_bike: true },
        StationEntry { location_id: 15, start: 82, span: 5, has_ped: true, has_bike: true },
        StationEntry { location_id: 26, start: 87, span: 5, has_ped: true, has_bike: true },
        StationEntry { location_id: 4, start: 92, span: 5, has_ped: true, has_bike: true },
    ]
}

/// The number of columns of a data row: the timestamp, the 96 station
/// columns, and one trailing spare matching the empty last header field.
pub const ROW_WIDTH: usize = 98;

/// Build the canonical layout table. Its twenty slices cover columns 1
/// through 96 exactly, leaving the timestamp column and the trailing spare.
pub fn canonical_layout() -> (r: Layout)
    ensures
        r.wf(),
        r.entries@ == spec_station_entries(),
        r.width == ROW_WIDTH,
{
    let mut entries: Vec<StationEntry> = Vec::new();
    entries.push(StationEntry { location_id: 16, start: 1, span: 5, has_ped: true, has_bike: true });
    entries.push(StationEntry { location_id: 1, start: 6, span: 5, has_ped: true, has_bike: true });
    entries.push(StationEntry { location_id: 11, start: 11, span: 5, has_ped: true, has_bike: true });
    entries.push(StationEntry { location_id: 3, start: 16, span: 5, has_ped: true, has_bike: true });
    entries.push(StationEntry { location_id: 12, start: 21, span: 5, has_ped: true, has_bike: true });
    entries.push(StationEntry { location_id: 5, start: 26, span: 5, has_ped: true, has_bike: true });
    entries.push(StationEntry { location_id: 8, start: 31, span: 5, has_ped: true, has_bike: true });
    entries.push(StationEntry { location_id: 10, start: 36, span: 5, has_ped: true, has_bike: true });
    entries.push(StationEntry { location_id: 2, start: 41, span: 5, has_ped: true, has_bike: true });
    entries.push(StationEntry { location_id: 24, start: 46, span: 3, has_ped: false, has_bike: true });
    entries.push(StationEntry { location_id: 7, start: 49, span: 5, has_ped: true, has_bike: true });
    entries.push(StationEntry { location_id: 6, start: 54, span: 5, has_ped: true, has_bike: true });
    entries.push(StationEntry { location_id: 13, start: 59, span: 5, has_ped: true, has_bike: true });
    entries.push(StationEntry { location_id: 25, start: 64, span: 3, has_ped: false, has_bike: true });
    entries.push(StationEntry { location_id: 23, start: 67, span: 5, has_ped: true, has_bike: true });
    entries.push(StationEntry { location_id: 14, start: 72, span: 5, has_ped: true, has_bike: true });
    entries.push(StationEntry { location_id: 9, start: 77, span: 5, has_ped: true, has_bike: true });
    entries.push(StationEntry { location_id: 15, start: 82, span: 5, has_ped: true, has_bike: true });
    entries.push(StationEntry { location_id: 26, start: 87, span: 5, has_ped: true, has_bike: true });
    entries.push(StationEntry { location_id: 4, start: 92, span: 5, has_ped: true, has_bike: true });
    assert(entries@ =~= spec_station_entries());
    Layout { entries, width: ROW_WIDTH }
}

/// The canonical table and the expected header describe the same row shape:
/// the header carries one field per column, and the station slices cover the
/// columns after the timestamp contiguously, leaving only the trailing spare.
pub proof fn lemma_canonical_layout_matches_header()
    ensures
        spec_expected_header().len() == ROW_WIDTH,
        spec_station_entries().len() == 20,
        spec_station_entries()[0].start == 1,
        spec_station_entries().last().start + spec_station_entries().last().span == ROW_WIDTH - 1,
{
}

/// The header row that row 1 of a well-formed export must equal, field for
/// field: one name per station column, in layout order, with a trailing
/// empty field. Stated in blocks of twenty columns.
pub open spec fn spec_expected_header() -> Seq<Seq<char>> {
    spec_header_block_a() + spec_header_block_b() + spec_header_block_c() + spec_header_block_d()
        + spec_header_block_e()
}

pub open spec fn spec_header_block_a() -> Seq<Seq<char>> {
    seq![
        "Time"@,
        "Bartram's Garden"@,
        "Bartram's Garden Pedestrians NB - Bartram's Garden"@,
        "Bartram's Garden Pedestrians SB - Bartram's Garden"@,
        "Bartram's Garden Cyclists NB - Bartram's Garden"@,
        "Bartram's Garden Cyclists SB - Bartram's Garden"@,
        "Chester Valley Trail - East Whiteland Twp"@,
        "Chester Valley Trail - East Whiteland Twp CVT - EB - Pedestrian"@,
        "Chester Valley Trail - East Whiteland Twp CVT - WB - Pedestrian"@,
        "Chester Valley Trail - East Whiteland Twp CVT - EB - Bicycle"@,
        "Chester Valley Trail - East Whiteland Twp CVT - WB - Bicycle"@,
        "Cooper River Trail"@,
        "Cooper River Trail - EB Pedestrian"@,
        "Cooper River Trail - WB Pedestrian"@,
        "Cooper River Trail - EB Bicycle"@,
        "Cooper River Trail - WB Bicycle"@,
        "Cynwyd Heritage Trail"@,
        "Cynwyd Heritage Trail Pedestrian IN"@,
        "Cynwyd Heritage Trail Pedestrian OUT"@,
        "Cynwyd Heritage Trail CHT - WB - Bicycle"@,
    ]
}

fn header_block_a() -> (r: Vec<String>)
    ensures
        r@.map_values(|s: String| s@) =~= spec_header_block_a(),
{
    let mut h: Vec<String> = Vec::new();
    h.push("Time".to_owned());
    h.push("Bartram's Garden".to_owned());
    h.push("Bartram's Garden Pedestrians NB - Bartram's Garden".to_owned());
    h.push("Bartram's Garden Pedestrians SB - Bartram's Garden".to_owned());
    h.push("Bartram's Garden Cyclists NB - Bartram's Garden".to_owned());
    h.push("Bartram's Garden Cyclists SB - Bartram's Garden".to_owned());
    h.push("Chester Valley Trail - East Whiteland Twp".to_owned());
    h.push("Chester Valley Trail - East Whiteland Twp CVT - EB - Pedestrian".to_owned());
    h.push("Chester Valley Trail - East Whiteland Twp CVT - WB - Pedestrian".to_owned());
    h.push("Chester Valley Trail - East Whiteland Twp CVT - EB - Bicycle".to_owned());
    h.push("Chester Valley Trail - East Whiteland Twp CVT - WB - Bicycle".to_owned());
    h.push("Cooper River Trail".to_owned());
    h.push("Cooper River Trail - EB Pedestrian".to_owned());
    h.push("Cooper River Trail - WB Pedestrian".to_owned());
    h.push("Cooper River Trail - EB Bicycle".to_owned());
    h.push("Cooper River Trail - WB Bicycle".to_owned());
    h.push("Cynwyd Heritage Trail".to_owned());
    h.push("Cynwyd Heritage Trail Pedestrian IN".to_owned());
    h.push("Cynwyd Heritage Trail Pedestrian OUT".to_owned());
    h.push("Cynwyd Heritage Trail CHT - WB - Bicycle".to_owned());
    assert(h@.map_values(|s: String| s@) =~= spec_header_block_a());
    h
}

pub open spec fn spec_header_block_b() -> Seq<Seq<char>> {
    seq![
        "Cynwyd Heritage Trail CHT - EB - Bicycle"@,
        "Darby Creek Trail"@,
        "Darby Creek Trail - Pedestrians - SB"@,
        "Darby Creek Trail - Pedestrians - NB"@,
        "Darby Creek Trail - Bicycle - SB"@,
        "Darby Creek Trail - Bicycle - NB"@,
        "Kelly Dr - Schuylkill River Trail"@,
        "Kelly Dr - Schuylkill River Trail Kelly Drive - Pedestrians - NB"@,
        "Kelly Dr - Schuylkill River Trail Kelly Drive - Pedestrians - SB"@,
        "Kelly Dr - Schuylkill River Trail Kelly Drive - Bicycle - NB"@,
        "Kelly Dr - Schuylkill River Trail Kelly Drive - Bicycle - SB"@,
        "Lawrence - Hopewell Trail"@,
        "Lawrence - Hopewell Trail LHT - Pedestrian - NB"@,
        "Lawrence - Hopewell Trail LHT - Pedestrian - SB"@,
        "Lawrence - Hopewell Trail LHT - Bicycle - NB"@,
        "Lawrence - Hopewell Trail LHT - Bicycle - SB"@,
        "Monroe Twp"@,
        "Monroe Twp Pedestrian IN"@,
        "Monroe Twp Pedestrian OUT"@,
        "Monroe Twp Monroe - Bicycle - EB"@,
    ]
}

fn header_block_b() -> (r: Vec<String>)
    ensures
        r@.map_values(|s: String| s@) =~= spec_header_block_b(),
{
    let mut h: Vec<String> = Vec::new();
    h.push("Cynwyd Heritage Trail CHT - EB - Bicycle".to_owned());
    h.push("Darby Creek Trail".to_owned());
    h.push("Darby Creek Trail - Pedestrians - SB".to_owned());
    h.push("Darby Creek Trail - Pedestrians - NB".to_owned());
    h.push("Darby Creek Trail - Bicycle - SB".to_owned());
    h.push("Darby Creek Trail - Bicycle - NB".to_owned());
    h.push("Kelly Dr - Schuylkill River Trail".to_owned());
    h.push("Kelly Dr - Schuylkill River Trail Kelly Drive - Pedestrians - NB".to_owned());
    h.push("Kelly Dr - Schuylkill River Trail Kelly Drive - Pedestrians - SB".to_owned());
    h.push("Kelly Dr - Schuylkill River Trail Kelly Drive - Bicycle - NB".to_owned());
    h.push("Kelly Dr - Schuylkill River Trail Kelly Drive - Bicycle - SB".to_owned());
    h.push("Lawrence - Hopewell Trail".to_owned());
    h.push("Lawrence - Hopewell Trail LHT - Pedestrian - NB".to_owned());
    h.push("Lawrence - Hopewell Trail LHT - Pedestrian - SB".to_owned());
    h.push("Lawrence - Hopewell Trail LHT - Bicycle - NB".to_owned());
    h.push("Lawrence - Hopewell Trail LHT - Bicycle - SB".to_owned());
    h.push("Monroe Twp".to_owned());
    h.push("Monroe Twp Pedestrian IN".to_owned());
    h.push("Monroe Twp Pedestrian OUT".to_owned());
    h.push("Monroe Twp Monroe - Bicycle - EB".to_owned());
    assert(h@.map_values(|s: String| s@) =~= spec_header_block_b());
    h
}

pub open spec fn spec_header_block_c() -> Seq<Seq<char>> {
    seq![
        "Monroe Twp Monroe - Bicycle - WB"@,
        "Pawlings Rd - Schuylkill River Trail"@,
        "Pawlings Rd - Schuylkill River Trail Pawlings Rd - WB Pedestrian"@,
        "Pawlings Rd - Schuylkill River Trail Pawlings Rd - EB Pedestrian"@,
        "Pawlings Rd - Schuylkill River Trail Pawlings Rd - WB - Bicycle"@,
        "Pawlings Rd - Schuylkill River Trail Pawlings Rd - EB - Bicycle"@,
        "Pine St"@,
        "Pine St Pedestrian IN"@,
        "Pine St Pedestrian OUT"@,
        "Port Richmond"@,
        "Port Richmond - WB - Pedestrian"@,
        "Port Richmond - EB - Pedestrian"@,
        "Port Richmond - WB - Bicycle"@,
        "Port Richmond - EB - Bicycle"@,
        "Schuylkill Banks"@,
        "Schuylkill Banks - Pedestrian - NB"@,
        "Schuylkill Banks - Pedestrian - SB"@,
        "Schuylkill Banks - Bicycle - NB"@,
        "Schuylkill Banks - Bicycle - SB"@,
        "Spring Mill Station"@,
    ]
}

fn header_block_c() -> (r: Vec<String>)
    ensures
        r@.map_values(|s: String| s@) =~= spec_header_block_c(),
{
    let mut h: Vec<String> = Vec::new();
    h.push("Monroe Twp Monroe - Bicycle - WB".to_owned());
    h.push("Pawlings Rd - Schuylkill River Trail".to_owned());
    h.push("Pawlings Rd - Schuylkill River Trail Pawlings Rd - WB Pedestrian".to_owned());
    h.push("Pawlings Rd - Schuylkill River Trail Pawlings Rd - EB Pedestrian".to_owned());
    h.push("Pawlings Rd - Schuylkill River Trail Pawlings Rd - WB - Bicycle".to_owned());
    h.push("Pawlings Rd - Schuylkill River Trail Pawlings Rd - EB - Bicycle".to_owned());
    h.push("Pine St".to_owned());
    h.push("Pine St Pedestrian IN".to_owned());
    h.push("Pine St Pedestrian OUT".to_owned());
    h.push("Port Richmond".to_owned());
    h.push("Port Richmond - WB - Pedestrian".to_owned());
    h.push("Port Richmond - EB - Pedestrian".to_owned());
    h.push("Port Richmond - WB - Bicycle".to_owned());
    h.push("Port Richmond - EB - Bicycle".to_owned());
    h.push("Schuylkill Banks".to_owned());
    h.push("Schuylkill Banks - Pedestrian - NB".to_owned());
    h.push("Schuylkill Banks - Pedestrian - SB".to_owned());
    h.push("Schuylkill Banks - Bicycle - NB".to_owned());
    h.push("Schuylkill Banks - Bicycle - SB".to_owned());
    h.push("Spring Mill Station".to_owned());
    assert(h@.map_values(|s: String| s@) =~= spec_header_block_c());
    h
}

pub open spec fn spec_header_block_d() -> Seq<Seq<char>> {
    seq![
        "Spring Mill Station Pedestrians EB - To Philadelphia"@,
        "Spring Mill Station Pedestrians WB - To Conshohocken"@,
        "Spring Mill Station Cyclists EB - To Philadelphia"@,
        "Spring Mill Station Cyclists WB - To Conshohocken"@,
        "Spruce St"@,
        "Spruce St Pedestrian IN"@,
        "Spruce St Pedestrian OUT"@,
        "Tinicum Park - D&L Trail"@,
        "Tinicum Park - D&L Trail Hugh Moore Park - D&L Trail Pedestrians Wilkes-Barre (Bethlehem)"@,
        "Tinicum Park - D&L Trail Pedestrians Bristol (New Hope)"@,
        "Tinicum Park - D&L Trail Hugh Moore Park - D&L Trail Cyclists Wilkes-Barre (Bethlehem)"@,
        "Tinicum Park - D&L Trail Cyclists Bristol (New Hope)"@,
        "Tullytown"@,
        "Tullytown Pedestrians NB - Towards Trenton - IN"@,
        "Tullytown Pedestrians SB - Towards Tullytown - OUT"@,
        "Tullytown Cyclists NB - Towards Trenton - IN"@,
        "Tullytown Cyclists SB - Towards Tullytown - OUT"@,
        "US 202 Parkway Trail"@,
        "US 202 Parkway Trail US 202 Parkway - SB - Pedestrian"@,
        "US 202 Parkway Trail US 202 Parkway - NB - Pedestrian"@,
    ]
}

fn header_block_d() -> (r: Vec<String>)
    ensures
        r@.map_values(|s: String| s@) =~= spec_header_block_d(),
{
    let mut h: Vec<String> = Vec::new();
    h.push("Spring Mill Station Pedestrians EB - To Philadelphia".to_owned());
    h.push("Spring Mill Station Pedestrians WB - To Conshohocken".to_owned());
    h.push("Spring Mill Station Cyclists EB - To Philadelphia".to_owned());
    h.push("Spring Mill Station Cyclists WB - To Conshohocken".to_owned());
    h.push("Spruce St".to_owned());
    h.push("Spruce St Pedestrian IN".to_owned());
    h.push("Spruce St Pedestrian OUT".to_owned());
    h.push("Tinicum Park - D&L Trail".to_owned());
    h.push("Tinicum Park - D&L Trail Hugh Moore Park - D&L Trail Pedestrians Wilkes-Barre (Bethlehem)".to_owned());
    h.push("Tinicum Park - D&L Trail Pedestrians Bristol (New Hope)".to_owned());
    h.push("Tinicum Park - D&L Trail Hugh Moore Park - D&L Trail Cyclists Wilkes-Barre (Bethlehem)".to_owned());
    h.push("Tinicum Park - D&L Trail Cyclists Bristol (New Hope)".to_owned());
    h.push("Tullytown".to_owned());
    h.push("Tullytown Pedestrians NB - Towards Trenton - IN".to_owned());
    h.push("Tullytown Pedestrians SB - Towards Tullytown - OUT".to_owned());
    h.push("Tullytown Cyclists NB - Towards Trenton - IN".to_owned());
    h.push("Tullytown Cyclists SB - Towards Tullytown - OUT".to_owned());
    h.push("US 202 Parkway Trail".to_owned());
    h.push("US 202 Parkway Trail US 202 Parkway - SB - Pedestrian".to_owned());
    h.push("US 202 Parkway Trail US 202 Parkway - NB - Pedestrian".to_owned());
    assert(h@.map_values(|s: String| s@) =~= spec_header_block_d());
    h
}

pub open spec fn spec_header_block_e() -> Seq<Seq<char>> {
    seq![
        "US 202 Parkway Trail US 202 Parkway - SB - Bicycle"@,
        "US 202 Parkway Trail US 202 Parkway - NB - Bicycle"@,
        "Washington Crossing"@,
        "Washington Crossing Pedestrians NB - To New Hope - IN"@,
        "Washington Crossing Pedestrians SB - To Yardley - OUT"@,
        "Washington Crossing Cyclists NB - To New Hope - IN"@,
        "Washington Crossing Cyclists SB - To Yardley - OUT"@,
        "Waterfront Display"@,
        "Waterfront Display Pedestrian IN"@,
        "Waterfront Display Pedestrian OUT"@,
        "Waterfront Display Cyclist IN"@,
        "Waterfront Display Cyclist OUT"@,
        "Wissahickon Trail"@,
        "Wissahickon Trail - Pedestrians - SB"@,
        "Wissahickon Trail - Pedestrians - NB"@,
        "Wissahickon Trail - Bicycles - SB"@,
        "Wissahickon Trail - Bicycles - NB"@,
        ""@,
    ]
}

fn header_block_e() -> (r: Vec<String>)
    ensures
        r@.map_values(|s: String| s@) =~= spec_header_block_e(),
{
    let mut h: Vec<String> = Vec::new();
    h.push("US 202 Parkway Trail US 202 Parkway - SB - Bicycle".to_owned());
    h.push("US 202 Parkway Trail US 202 Parkway - NB - Bicycle".to_owned());
    h.push("Washington Crossing".to_owned());
    h.push("Washington Crossing Pedestrians NB - To New Hope - IN".to_owned());
    h.push("Washington Crossing Pedestrians SB - To Yardley - OUT".to_owned());
    h.push("Washington Crossing Cyclists NB - To New Hope - IN".to_owned());
    h.push("Washington Crossing Cyclists SB - To Yardley - OUT".to_owned());
    h.push("Waterfront Display".to_owned());
    h.push("Waterfront Display Pedestrian IN".to_owned());
    h.push("Waterfront Display Pedestrian OUT".to_owned());
    h.push("Waterfront Display Cyclist IN".to_owned());
    h.push("Waterfront Display Cyclist OUT".to_owned());
    h.push("Wissahickon Trail".to_owned());
    h.push("Wissahickon Trail - Pedestrians - SB".to_owned());
    h.push("Wissahickon Trail - Pedestrians - NB".to_owned());
    h.push("Wissahickon Trail - Bicycles - SB".to_owned());
    h.push("Wissahickon Trail - Bicycles - NB".to_owned());
    h.push("".to_owned());
    assert(h@.map_values(|s: String| s@) =~= spec_header_block_e());
    h
}

/// Build the expected header row as owned strings.
pub fn expected_header() -> (r: Vec<String>)
    ensures
        r@.map_values(|s: String| s@) =~= spec_expected_header(),
{
    let mut h = header_block_a();
    let mut b = header_block_b();
    h.append(&mut b);
    let mut cb = header_block_c();
    h.append(&mut cb);
    let mut d = header_block_d();
    h.append(&mut d);
    let mut e = header_block_e();
    h.append(&mut e);
    h
}

/// Whether a declared header row matches the expected one, field for field.
pub fn validate_header(row: &Vec<String>) -> (r: bool)
    ensures
        r <==> row@.map_values(|s: String| s@) == spec_expected_header(),
{
    let expected = expected_header();
    if row.len() != expected.len() {
        assert(row@.map_values(|s: String| s@).len() != spec_expected_header().len());
        return false;
    }
    let n = row.len();
    let mut i: usize = 0;
    while i < n
        invariant
            0 <= i <= n,
            n == row@.len(),
            row@.len() == expected@.len(),
            expected@.map_values(|s: String| s@) =~= spec_expected_header(),
            forall|j: int| 0 <= j < i ==> row@[j]@ == #[trigger] spec_expected_header()[j],
        decreases n - i,
    {
        if !(row[i] == expected[i]) {
            assert(row@.map_values(|s: String| s@)[i as int] != spec_expected_header()[i as int]);
            return false;
        }
        i += 1;
    }
    assert(row@.map_values(|s: String| s@) =~= spec_expected_header());
    true
}

} // verus!
