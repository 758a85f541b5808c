//! The listing of the store: a header and one row of text per record.

use vstd::prelude::*;
use crate::numeral::{decimal_text, to_decimal};
use crate::record::{IpInfo, Record};

verus! {

/// The titles of the seven columns.
pub open spec fn header_text() -> Seq<Seq<char>> {
    seq!["ID"@, "IP"@, "Subnet"@, "Gateway"@, "Description"@, "Port"@, "Status"@]
}

/// What the status column shows for a device that answered, and for one
/// that did not.
pub open spec fn status_text(online: bool) -> Seq<char> {
    if online {
        "Online"@
    } else {
        "Offline"@
    }
}

/// The row of a record: its fields in column order, id and port as decimal
/// numerals, and its status last.
pub open spec fn row_text(record: Record, online: bool) -> Seq<Seq<char>> {
    seq![
        decimal_text(record.id as nat),
        record.ip,
        record.subnet,
        record.gateway,
        record.description,
        decimal_text(record.port as nat),
        status_text(online),
    ]
}

/// Whether the record at `at` answered its probe. A record that has no
/// probe result counts as offline.
pub open spec fn answered(online: Seq<bool>, at: int) -> bool {
    0 <= at < online.len() && online[at]
}

/// The whole listing: the header, then the rows in store order.
pub open spec fn table_text(records: Seq<Record>, online: Seq<bool>) -> Seq<Seq<Seq<char>>> {
    seq![header_text()] + Seq::new(
        records.len(),
        |at: int| row_text(records[at], answered(online, at)),
    )
}

/// The header row.
pub fn table_header() -> (row: Vec<String>)
    ensures
        row.deep_view() == header_text(),
{
    let mut row: Vec<String> = Vec::new();
    row.push("ID".to_owned());
    row.push("IP".to_owned());
    row.push("Subnet".to_owned());
    row.push("Gateway".to_owned());
    row.push("Description".to_owned());
    row.push("Port".to_owned());
    row.push("Status".to_owned());
    proof {
        assert(row.deep_view() =~= header_text());
    }
    row
}

/// The text of the status column.
pub fn status_label(online: bool) -> (label: &'static str)
    ensures
        label@ == status_text(online),
{
    if online {
        "Online"
    } else {
        "Offline"
    }
}

/// The row that lists one record.
pub fn table_row(info: &IpInfo, online: bool) -> (row: Vec<String>)
    ensures
        row.deep_view() == row_text(info@, online),
{
    let mut row: Vec<String> = Vec::new();
    row.push(to_decimal(info.id as u64));
    row.push(info.ip.clone());
    row.push(info.subnet.clone());
    row.push(info.gateway.clone());
    row.push(info.description.clone());
    row.push(to_decimal(info.port as u64));
    row.push(status_label(online).to_owned());
    proof {
        assert(row.deep_view() =~= row_text(info@, online));
    }
    row
}

/// Lays out the listing of the store. `online` holds the probe results in
/// store order; the content of every other column depends on the records
/// alone.
pub fn display_table(ip_info: &[IpInfo], online: &[bool]) -> (table: Vec<Vec<String>>)
    ensures
        table.deep_view() == table_text(ip_info.deep_view(), online@),
        table.len() == ip_info.len() + 1,
        table[0].deep_view() == header_text(),
        forall|n: int|
            0 <= n < ip_info.len() ==> (#[trigger] table[n + 1]).deep_view() == row_text(
                ip_info@[n]@,
                answered(online@, n),
            ),
{
    let mut table: Vec<Vec<String>> = Vec::new();
    table.push(table_header());
    let mut at: usize = 0;
    while at < ip_info.len()
        invariant
            at <= ip_info.len(),
            table.deep_view() == table_text(ip_info.deep_view().take(at as int), online@),
        decreases ip_info.len() - at,
    {
        let up = at < online.len() && online[at];
        let row = table_row(&ip_info[at], up);
        let ghost before = table.deep_view();
        table.push(row);
        proof {
            assert(table.deep_view() =~= before.push(row.deep_view()));
            assert(table.deep_view() =~= table_text(
                ip_info.deep_view().take(at + 1),
                online@,
            ));
        }
        at += 1;
    }
    proof {
        assert(ip_info.deep_view().take(at as int) =~= ip_info.deep_view());
        assert(table.deep_view()[0] == table[0].deep_view());
        assert forall|n: int| 0 <= n < ip_info.len() implies (#[trigger] table[n + 1]).deep_view()
            == row_text(ip_info@[n]@, answered(online@, n)) by {
            assert(table.deep_view()[n + 1] == table[n + 1].deep_view());
        }
    }
    table
}

/// Two listings of the same records differ at most in the status column,
/// whatever the probes answered.
pub proof fn lemma_listing_is_stable(records: Seq<Record>, first: Seq<bool>, second: Seq<bool>)
    ensures
        table_text(records, first).len() == table_text(records, second).len(),
        table_text(records, first).len() == records.len() + 1,
        forall|row: int, column: int|
            0 <= row <= records.len() && 0 <= column < 6 ==> #[trigger] table_text(
                records,
                first,
            )[row][column] == table_text(records, second)[row][column],
        forall|row: int|
            0 <= row <= records.len() ==> #[trigger] table_text(records, first)[row].len() == 7
                && table_text(records, second)[row].len() == 7,
        first == second ==> table_text(records, first) == table_text(records, second),
{
}

} // verus!
