//! The registry of spaces and the rules of the bridge, both rendered from the list of spaces.
use crate::ids::{is_color, is_slug, is_rrggbb, slug_ok};
use crate::json::{
    array_of, as_str, as_u64, fields_view, get, items_view, lemma_view, object, opt_view, put,
    str_of, u64_of, Json, JsonView,
};
use crate::names::{ipv4_of, mac_of, space_ipv4, space_mac, space_tap, tap_name};
use crate::order::{
    insert_by, is_sorted, lemma_insert_at, lemma_sort_by_contains, lemma_sort_by_multiset,
    lemma_sort_by_of_sorted, lemma_sort_by_sorted, sort_by,
};
use crate::text::{dec, push_text, str_equal, terminate, terminated, texts, u32_to_string};
use crate::toml::{is_flat, is_table_list, parse_toml, toml_read, toml_string, toml_text};
use vstd::prelude::*;

verus! {

/// The network machine: its id is no space's, and the registry always holds it.
pub const MIYORI_NET_ID: &'static str = "miyori-net";

pub const MIYORI_NET_CID: u32 = 9;

pub const MIYORI_NET_LABEL: &'static str = "trusted";

pub const MIYORI_NET_COLOR: &'static str = "#2f9e44";

/// The address and the hardware address of a space have one octet for its context id.
pub const MAX_CID: u32 = 255;

#[derive(Debug, PartialEq, Eq)]
pub struct RegistryEntry {
    pub id: String,
    pub cid: u32,
    pub label: String,
    pub color: String,
}

#[verifier::ext_equal]
pub struct RegistryRow {
    pub id: Seq<char>,
    pub cid: u32,
    pub label: Seq<char>,
    pub color: Seq<char>,
}

impl View for RegistryEntry {
    type V = RegistryRow;

    open spec fn view(&self) -> RegistryRow {
        RegistryRow { id: self.id@, cid: self.cid, label: self.label@, color: self.color@ }
    }
}

pub open spec fn entry_rows(entries: Seq<RegistryEntry>) -> Seq<RegistryRow> {
    entries.map_values(|e: RegistryEntry| e@)
}

impl RegistryEntry {
    pub fn copy(&self) -> (r: RegistryEntry)
        ensures
            r@ == self@,
    {
        RegistryEntry {
            id: self.id.clone(),
            cid: self.cid,
            label: self.label.clone(),
            color: self.color.clone(),
        }
    }
}

pub open spec fn net_row() -> RegistryRow {
    RegistryRow {
        id: MIYORI_NET_ID@,
        cid: MIYORI_NET_CID,
        label: MIYORI_NET_LABEL@,
        color: MIYORI_NET_COLOR@,
    }
}

fn miyori_net_entry() -> (r: RegistryEntry)
    ensures
        r@ == net_row(),
{
    RegistryEntry {
        id: MIYORI_NET_ID.to_owned(),
        cid: MIYORI_NET_CID,
        label: MIYORI_NET_LABEL.to_owned(),
        color: MIYORI_NET_COLOR.to_owned(),
    }
}

pub open spec fn by_cid() -> spec_fn(RegistryRow, RegistryRow) -> bool {
    |a: RegistryRow, b: RegistryRow| a.cid <= b.cid
}

/// The rows that are spaces, not the network machine.
pub open spec fn space_rows(rows: Seq<RegistryRow>) -> Seq<RegistryRow>
    decreases rows.len(),
{
    if rows.len() == 0 {
        seq![]
    } else if rows.last().id == MIYORI_NET_ID@ {
        space_rows(rows.drop_last())
    } else {
        space_rows(rows.drop_last()).push(rows.last())
    }
}

/// The rows of the registry: the spaces and the network machine, by context id.
pub open spec fn registry_rows(rows: Seq<RegistryRow>) -> Seq<RegistryRow> {
    sort_by(space_rows(rows).push(net_row()), by_cid())
}

fn insert_entry(out: &mut Vec<RegistryEntry>, e: RegistryEntry)
    ensures
        entry_rows(final(out)@) == insert_by(entry_rows(old(out)@), e@, by_cid()),
{
    let ghost rows = entry_rows(out@);
    let mut pos: usize = out.len();
    while pos > 0 && !(out[pos - 1].cid <= e.cid)
        invariant
            pos <= out@.len(),
            rows == entry_rows(out@),
            forall|j: int| pos <= j < rows.len() ==> !by_cid()(#[trigger] rows[j], e@),
        decreases pos,
    {
        assert(rows[pos - 1] == out@[pos - 1]@);
        pos = pos - 1;
    }
    proof {
        if pos > 0 {
            assert(rows[pos - 1] == out@[pos - 1]@);
        }
        lemma_insert_at(rows, e@, by_cid(), pos as int);
    }
    out.insert(pos, e);
    assert(entry_rows(out@) =~= rows.insert(pos as int, e@));
}

fn sorted_spaces(entries: &Vec<RegistryEntry>) -> (r: Vec<RegistryEntry>)
    ensures
        entry_rows(r@) == sort_by(space_rows(entry_rows(entries@)), by_cid()),
{
    let ghost all = entry_rows(entries@);
    let mut out: Vec<RegistryEntry> = Vec::new();
    assert(all.take(0) =~= seq![]);
    assert(entry_rows(out@) =~= seq![]);
    for i in 0..entries.len()
        invariant
            all == entry_rows(entries@),
            entry_rows(out@) == sort_by(space_rows(all.take(i as int)), by_cid()),
    {
        assert(all.take(i + 1).drop_last() =~= all.take(i as int));
        assert(all.take(i + 1).last() == entries@[i as int]@);
        if !str_equal(entries[i].id.as_str(), MIYORI_NET_ID) {
            let ghost before = space_rows(all.take(i as int));
            let e = entries[i].copy();
            assert(before.push(e@).drop_last() =~= before);
            insert_entry(&mut out, e);
        }
    }
    assert(all.take(entries@.len() as int) =~= all);
    out
}

/// A row of the registry as a table.
pub open spec fn row_table(row: RegistryRow) -> JsonView {
    JsonView::Object(
        seq![
            ("id"@, JsonView::Str(row.id)),
            ("cid"@, JsonView::Unsigned(row.cid as u64)),
            ("label"@, JsonView::Str(row.label)),
            ("color"@, JsonView::Str(row.color)),
        ],
    )
}

/// The document of the registry: a list of tables under the key `space`.
pub open spec fn registry_document(rows: Seq<RegistryRow>) -> JsonView {
    JsonView::Object(
        seq![("space"@, JsonView::Array(rows.map_values(|r: RegistryRow| row_table(r))))],
    )
}

proof fn lemma_row_keys()
    ensures
        "id"@ != "cid"@,
        "id"@ != "label"@,
        "id"@ != "color"@,
        "cid"@ != "label"@,
        "cid"@ != "color"@,
        "label"@ != "color"@,
{
    reveal_strlit("id");
    reveal_strlit("cid");
    reveal_strlit("label");
    reveal_strlit("color");
    assert("id"@.len() == 2 && "cid"@.len() == 3 && "label"@.len() == 5 && "color"@.len() == 5);
    assert("label"@[0] != "color"@[0]);
}

proof fn lemma_row_table_flat(row: RegistryRow)
    ensures
        is_flat(row_table(row)),
{
    lemma_row_keys();
    let fields = row_table(row)->Object_0;
    assert forall|i: int, j: int| 0 <= i < j < fields.len() implies #[trigger] fields[i].0
        != #[trigger] fields[j].0 by {
        assert(i == 0 || i == 1 || i == 2);
        assert(j == 1 || j == 2 || j == 3);
    }
}

fn row_to_json(e: &RegistryEntry) -> (r: Json)
    ensures
        r@ == row_table(e@),
{
    let mut f: Vec<(String, Json)> = Vec::new();
    assert(fields_view(f@) =~= seq![]);
    put(&mut f, "id", Json::Str(e.id.clone()));
    put(&mut f, "cid", Json::Unsigned(e.cid as u64));
    put(&mut f, "label", Json::Str(e.label.clone()));
    put(&mut f, "color", Json::Str(e.color.clone()));
    assert(fields_view(f@) =~= row_table(e@)->Object_0);
    object(f)
}

/// The text of the registry.
pub fn render_registry(entries: &Vec<RegistryEntry>) -> (r: String)
    ensures
        r@ == toml_text(registry_document(registry_rows(entry_rows(entries@)))),
        toml_read(r@) == Some(registry_document(registry_rows(entry_rows(entries@)))),
{
    let mut rows = sorted_spaces(entries);
    let ghost spaces = space_rows(entry_rows(entries@));
    assert(spaces.push(net_row()).drop_last() =~= spaces);
    insert_entry(&mut rows, miyori_net_entry());
    let ghost all = registry_rows(entry_rows(entries@));
    assert(entry_rows(rows@) == all);
    let ghost tables = all.map_values(|r: RegistryRow| row_table(r));
    let mut items: Vec<Json> = Vec::new();
    assert(items_view(items@) =~= tables.take(0));
    for i in 0..rows.len()
        invariant
            all == entry_rows(rows@),
            tables == all.map_values(|r: RegistryRow| row_table(r)),
            items_view(items@) == tables.take(i as int),
    {
        let item = row_to_json(&rows[i]);
        let ghost before = items_view(items@);
        items.push(item);
        assert(items_view(items@) =~= before.push(item@));
        assert(tables[i as int] == row_table(rows@[i as int]@));
        assert(items_view(items@) =~= tables.take(i + 1));
    }
    assert(tables.take(rows@.len() as int) =~= tables);
    let list = crate::json::array(items);
    let mut f: Vec<(String, Json)> = Vec::new();
    assert(fields_view(f@) =~= seq![]);
    put(&mut f, "space", list);
    let document = object(f);
    assert(document@ =~= registry_document(all));
    proof {
        lemma_sort_by_multiset(spaces.push(net_row()), by_cid());
        assert forall|i: int| 0 <= i < tables.len() implies is_flat(#[trigger] tables[i]) by {
            lemma_row_table_flat(all[i]);
        }
        assert(is_table_list(document@));
    }
    toml_string(&document)
}

/// Why a registry cannot be used.
#[derive(Debug, Clone, Copy, PartialEq, Eq, Structural)]
pub enum RegistryError {
    /// The text is no such document.
    Malformed,
    /// An id, a label or a colour does not have its shape.
    BadIdentity,
    /// An entry claims the address of the host itself.
    LocalAddress,
}

/// A field of a row of the registry: under its name in a table, or at its place in a list of
/// exactly the four.
pub open spec fn row_field(v: JsonView, key: Seq<char>, at: int) -> Option<JsonView> {
    match v {
        JsonView::Array(items) => if items.len() == 4 {
            Some(items[at])
        } else {
            None
        },
        _ => get(v, key),
    }
}

/// The fields of a row of the registry.
pub open spec fn row_of_table(v: JsonView) -> Option<RegistryRow> {
    match (
        as_str(row_field(v, "id"@, 0)),
        as_u64(row_field(v, "cid"@, 1)),
        as_str(row_field(v, "label"@, 2)),
        as_str(row_field(v, "color"@, 3)),
    ) {
        (Some(id), Some(cid), Some(label), Some(color)) => if cid <= u32::MAX {
            Some(RegistryRow { id, cid: cid as u32, label, color })
        } else {
            None
        },
        _ => None,
    }
}

pub open spec fn row_is_valid(row: RegistryRow) -> bool {
    is_slug(row.id) && is_slug(row.label) && is_color(row.color)
}

/// The rows of a document. A document without the list has none.
pub open spec fn rows_of_document(v: JsonView) -> Result<Seq<RegistryRow>, RegistryError> {
    match get(v, "space"@) {
        None => if v is Object {
            Ok(seq![])
        } else {
            Err(RegistryError::Malformed)
        },
        Some(JsonView::Array(tables)) => if exists|i: int|
            0 <= i < tables.len() && (#[trigger] row_of_table(tables[i])) is None {
            Err(RegistryError::Malformed)
        } else if exists|i: int|
            0 <= i < tables.len() && !row_is_valid(#[trigger] row_of_table(tables[i])->0) {
            Err(RegistryError::BadIdentity)
        } else {
            Ok(Seq::new(tables.len(), |i: int| row_of_table(tables[i])->0))
        },
        Some(_) => Err(RegistryError::Malformed),
    }
}

pub open spec fn same_rows(
    r: Result<Vec<RegistryEntry>, RegistryError>,
    s: Result<Seq<RegistryRow>, RegistryError>,
) -> bool {
    match (r, s) {
        (Ok(a), Ok(b)) => entry_rows(a@) == b,
        (Err(a), Err(b)) => a == b,
        _ => false,
    }
}

fn field_of<'a>(v: &'a Json, key: &str, at: usize) -> (r: Option<&'a Json>)
    requires
        at < 4,
    ensures
        opt_view(r) == row_field(v@, key@, at as int),
{
    proof {
        lemma_view(*v);
    }
    match v {
        Json::Array(items) => {
            assert(items_view(items@).len() == items@.len());
            if items.len() == 4 {
                assert(items_view(items@)[at as int] == items@[at as int]@);
                Some(&items[at])
            } else {
                None
            }
        },
        _ => v.get(key),
    }
}

fn entry_of_table(v: &Json) -> (r: Option<RegistryEntry>)
    ensures
        r is Some <==> row_of_table(v@) is Some,
        r matches Some(e) ==> Some(e@) == row_of_table(v@),
{
    let id = str_of(field_of(v, "id", 0))?;
    let cid: u64 = u64_of(field_of(v, "cid", 1))?;
    let label = str_of(field_of(v, "label", 2))?;
    let color = str_of(field_of(v, "color", 3))?;
    if cid > u32::MAX as u64 {
        return None;
    }
    Some(RegistryEntry { id, cid: cid as u32, label, color })
}

/// The entries of a registry that has been read.
pub fn registry_entries(document: &Json) -> (r: Result<Vec<RegistryEntry>, RegistryError>)
    ensures
        same_rows(r, rows_of_document(document@)),
{
    let list = match document.get("space") {
        Some(list) => list,
        None => {
            if document.is_object() {
                let none: Vec<RegistryEntry> = Vec::new();
                assert(entry_rows(none@) =~= seq![]);
                return Ok(none);
            }
            return Err(RegistryError::Malformed);
        },
    };
    let tables = match array_of(Some(list)) {
        Some(tables) => tables,
        None => return Err(RegistryError::Malformed),
    };
    let ghost all = items_view(tables@);
    let mut out: Vec<RegistryEntry> = Vec::new();
    for i in 0..tables.len()
        invariant
            all == items_view(tables@),
            get(document@, "space"@) == Some(JsonView::Array(all)),
            out@.len() == i,
            forall|j: int| 0 <= j < i ==> Some(out@[j]@) == #[trigger] row_of_table(all[j]),
    {
        assert(all[i as int] == tables@[i as int]@);
        match entry_of_table(&tables[i]) {
            Some(e) => out.push(e),
            None => {
                assert(row_of_table(all[i as int]) is None);
                return Err(RegistryError::Malformed);
            },
        }
    }
    for i in 0..out.len()
        invariant
            get(document@, "space"@) == Some(JsonView::Array(all)),
            out@.len() == all.len(),
            forall|j: int|
                0 <= j < all.len() ==> Some(out@[j]@) == #[trigger] row_of_table(all[j]),
            forall|j: int| 0 <= j < i ==> row_is_valid(#[trigger] row_of_table(all[j])->0),
    {
        let e = &out[i];
        assert(Some(e@) == row_of_table(all[i as int]));
        if !(slug_ok(e.id.as_str()) && slug_ok(e.label.as_str()) && is_rrggbb(e.color.as_str())) {
            assert(!row_is_valid(row_of_table(all[i as int])->0));
            return Err(RegistryError::BadIdentity);
        }
    }
    assert(entry_rows(out@) =~= Seq::new(all.len(), |i: int| row_of_table(all[i])->0));
    Ok(out)
}

/// The entries of a registry, from the text of its file.
pub fn load_registry_file(src: &str) -> (r: Result<Vec<RegistryEntry>, RegistryError>)
    ensures
        match toml_read(src@) {
            Some(document) => same_rows(r, rows_of_document(document)),
            None => r == Err::<Vec<RegistryEntry>, RegistryError>(RegistryError::Malformed),
        },
{
    match parse_toml(src) {
        Some(document) => registry_entries(&document),
        None => Err(RegistryError::Malformed),
    }
}

proof fn lemma_row_of_table(row: RegistryRow)
    ensures
        row_of_table(row_table(row)) == Some(row),
{
    lemma_row_keys();
    let v = row_table(row);
    let fields = v->Object_0;
    reveal_with_fuel(crate::json::find_field, 5);
    assert(fields.skip(1)[0] == fields[1]);
    assert(fields.skip(1).skip(1)[0] == fields[2]);
    assert(fields.skip(1).skip(1).skip(1)[0] == fields[3]);
}

/// A registry reads back as the rows that were written, and what was read is written as the same
/// text again.
pub proof fn registry_roundtrip(rows: Seq<RegistryRow>)
    requires
        forall|i: int| 0 <= i < rows.len() ==> row_is_valid(#[trigger] rows[i]),
    ensures
        registry_rows(registry_rows(rows)) == registry_rows(rows),
        rows_of_document(registry_document(registry_rows(rows))) == Ok::<
            Seq<RegistryRow>,
            RegistryError,
        >(registry_rows(rows)),
{
    let all = registry_rows(rows);
    let tables = all.map_values(|r: RegistryRow| row_table(r));
    let document = registry_document(all);
    reveal_with_fuel(crate::json::find_field, 2);
    assert(get(document, "space"@) == Some(JsonView::Array(tables)));
    assert forall|i: int| 0 <= i < all.len() implies #[trigger] row_of_table(tables[i]) == Some(
        all[i],
    ) && row_is_valid(all[i]) by {
        lemma_row_of_table(all[i]);
        lemma_sort_by_contains(space_rows(rows).push(net_row()), by_cid(), all[i]);
        assert(all.contains(all[i]));
        let k = choose|k: int|
            0 <= k < space_rows(rows).push(net_row()).len() && space_rows(rows).push(net_row())[k]
                == all[i];
        if k < space_rows(rows).len() {
            lemma_space_rows_among(rows, k);
        } else {
            reveal_strlit("miyori-net");
            reveal_strlit("trusted");
            reveal_strlit("#2f9e44");
            assert forall|j: int| 0 <= j < 10 implies crate::ids::is_slug_char(
                #[trigger] "miyori-net"@[j],
            ) by {}
            assert forall|j: int| 0 <= j < 7 implies crate::ids::is_slug_char(
                #[trigger] "trusted"@[j],
            ) by {}
            assert forall|j: int| 1 <= j < 7 implies crate::text::is_hex_digit(
                #[trigger] "#2f9e44"@[j],
            ) by {}
        }
    }
    assert(Seq::new(tables.len(), |i: int| row_of_table(tables[i])->0) =~= all);
    writing_again_changes_nothing(rows);
}

/// Rows without the network machine are all spaces.
proof fn lemma_space_rows_all(rows: Seq<RegistryRow>)
    requires
        forall|i: int| 0 <= i < rows.len() ==> (#[trigger] rows[i]).id != MIYORI_NET_ID@,
    ensures
        space_rows(rows) == rows,
        space_rows(rows.push(net_row())) == rows,
    decreases rows.len(),
{
    assert(rows.push(net_row()).drop_last() =~= rows);
    if rows.len() > 0 {
        lemma_space_rows_all(rows.drop_last());
        assert(rows.drop_last().push(rows.last()) =~= rows);
    }
}

/// Wherever the network machine is put among spaces, the spaces are the same.
proof fn lemma_space_rows_of_inserted(rows: Seq<RegistryRow>)
    requires
        forall|i: int| 0 <= i < rows.len() ==> (#[trigger] rows[i]).id != MIYORI_NET_ID@,
    ensures
        space_rows(insert_by(rows, net_row(), by_cid())) == rows,
    decreases rows.len(),
{
    lemma_space_rows_all(rows);
    if rows.len() > 0 && !by_cid()(rows.last(), net_row()) {
        let front = rows.drop_last();
        lemma_space_rows_of_inserted(front);
        let inserted = insert_by(front, net_row(), by_cid());
        assert(inserted.push(rows.last()).drop_last() =~= inserted);
        assert(front.push(rows.last()) =~= rows);
    }
}

/// The rows of a registry are the rows of the registry that is made of them, whatever they are.
pub proof fn writing_again_changes_nothing(rows: Seq<RegistryRow>)
    ensures
        registry_rows(registry_rows(rows)) == registry_rows(rows),
        registry_rows(rows).to_multiset() == space_rows(rows).to_multiset().insert(net_row()),
{
    let plain = space_rows(rows);
    let sorted = sort_by(plain, by_cid());
    assert(plain.push(net_row()).drop_last() =~= plain);
    assert(registry_rows(rows) == insert_by(sorted, net_row(), by_cid()));
    assert forall|i: int| 0 <= i < sorted.len() implies (#[trigger] sorted[i]).id
        != MIYORI_NET_ID@ by {
        assert(sorted.contains(sorted[i]));
        lemma_sort_by_contains(plain, by_cid(), sorted[i]);
        let k = choose|k: int| 0 <= k < plain.len() && plain[k] == sorted[i];
        lemma_space_rows_among(rows, k);
    }
    lemma_space_rows_of_inserted(sorted);
    lemma_sort_by_sorted(plain, by_cid());
    lemma_sort_by_of_sorted(sorted, by_cid());
    assert(sorted.push(net_row()).drop_last() =~= sorted);
    lemma_sort_by_multiset(plain.push(net_row()), by_cid());
    plain.to_multiset_ensures();
}

pub proof fn lemma_space_rows_among(rows: Seq<RegistryRow>, k: int)
    requires
        0 <= k < space_rows(rows).len(),
    ensures
        space_rows(rows)[k].id != MIYORI_NET_ID@,
        exists|j: int| 0 <= j < rows.len() && rows[j] == space_rows(rows)[k],
    decreases rows.len(),
{
    let front = rows.drop_last();
    if rows.last().id != MIYORI_NET_ID@ && k == space_rows(front).len() {
        assert(rows[rows.len() - 1] == space_rows(rows)[k]);
    } else {
        lemma_space_rows_among(front, k);
        let j = choose|j: int| 0 <= j < front.len() && front[j] == space_rows(front)[k];
        assert(rows[j] == space_rows(rows)[k]);
    }
}

/// Whatever spaces there are, the registry holds the network machine once, holds every other
/// entry that it was given, and is sorted by context id.
pub proof fn registry_holds_the_network_machine_once(rows: Seq<RegistryRow>)
    ensures
        registry_rows(rows).contains(net_row()),
        forall|i: int, j: int|
            0 <= i < registry_rows(rows).len() && 0 <= j < registry_rows(rows).len()
                && #[trigger] registry_rows(rows)[i].id == MIYORI_NET_ID@
                && #[trigger] registry_rows(rows)[j].id == MIYORI_NET_ID@ ==> i == j,
        forall|k: int|
            0 <= k < rows.len() && (#[trigger] rows[k]).id != MIYORI_NET_ID@ ==> registry_rows(
                rows,
            ).contains(rows[k]),
        is_sorted(registry_rows(rows), by_cid()),
{
    let plain = space_rows(rows).push(net_row());
    let all = registry_rows(rows);
    lemma_sort_by_sorted(plain, by_cid());
    lemma_sort_by_contains(plain, by_cid(), net_row());
    assert(plain[plain.len() - 1] == net_row());
    assert forall|k: int| 0 <= k < rows.len() && (#[trigger] rows[k]).id
        != MIYORI_NET_ID@ implies all.contains(rows[k]) by {
        lemma_space_rows_keep(rows, k);
        let p = choose|p: int| 0 <= p < space_rows(rows).len() && space_rows(rows)[p] == rows[k];
        assert(plain[p] == rows[k]);
        lemma_sort_by_contains(plain, by_cid(), rows[k]);
    }
    assert forall|i: int, j: int|
        0 <= i < all.len() && 0 <= j < all.len() && #[trigger] all[i].id == MIYORI_NET_ID@
            && #[trigger] all[j].id == MIYORI_NET_ID@ implies i == j by {
        lemma_net_only(rows, all[i]);
        lemma_net_only(rows, all[j]);
        assert(all.contains(all[i]));
        assert(all.contains(all[j]));
        lemma_sort_by_contains(plain, by_cid(), all[i]);
        lemma_sort_by_contains(plain, by_cid(), all[j]);
        lemma_sort_by_multiset(plain, by_cid());
        lemma_net_count(rows);
        if i != j {
            let one = if i < j {
                all.remove(j)
            } else {
                all.remove(i)
            };
            let at = if i < j {
                j
            } else {
                i
            };
            all.to_multiset_ensures();
            one.to_multiset_ensures();
            assert(one.insert(at, net_row()) =~= all);
            vstd::seq_lib::to_multiset_insert(one, at, net_row());
            assert(one.contains(net_row())) by {
                let other = if i < j {
                    i
                } else {
                    j
                };
                assert(one[other] == net_row());
            }
            assert(all.to_multiset().count(net_row()) >= 2);
        }
    }
}

proof fn lemma_net_only(rows: Seq<RegistryRow>, row: RegistryRow)
    requires
        row.id == MIYORI_NET_ID@,
        registry_rows(rows).contains(row),
    ensures
        row == net_row(),
{
    let plain = space_rows(rows).push(net_row());
    lemma_sort_by_contains(plain, by_cid(), row);
    let k = choose|k: int| 0 <= k < plain.len() && plain[k] == row;
    if k < space_rows(rows).len() {
        lemma_space_rows_among(rows, k);
    }
}

proof fn lemma_net_count(rows: Seq<RegistryRow>)
    ensures
        registry_rows(rows).to_multiset().count(net_row()) == 1,
{
    let spaces = space_rows(rows);
    let plain = spaces.push(net_row());
    lemma_sort_by_multiset(plain, by_cid());
    spaces.to_multiset_ensures();
    plain.to_multiset_ensures();
    if spaces.contains(net_row()) {
        let k = choose|k: int| 0 <= k < spaces.len() && spaces[k] == net_row();
        lemma_space_rows_among(rows, k);
    }
    assert(spaces.to_multiset().count(net_row()) == 0);
}

pub proof fn lemma_space_rows_keep(rows: Seq<RegistryRow>, k: int)
    requires
        0 <= k < rows.len(),
        rows[k].id != MIYORI_NET_ID@,
    ensures
        exists|p: int| 0 <= p < space_rows(rows).len() && space_rows(rows)[p] == rows[k],
    decreases rows.len(),
{
    let front = rows.drop_last();
    if k == rows.len() - 1 {
        assert(space_rows(rows)[space_rows(front).len() as int] == rows[k]);
    } else {
        lemma_space_rows_keep(front, k);
        let p = choose|p: int| 0 <= p < space_rows(front).len() && space_rows(front)[p] == front[k];
        assert(space_rows(rows)[p] == rows[k]);
    }
}

// ---------------------------------------------------------------------------------------------
// The rules of the bridge
// ---------------------------------------------------------------------------------------------

/// What stands before the rules of the spaces.
pub open spec fn head_lines() -> Seq<Seq<char>> {
    seq![
        "#!/usr/sbin/nft -f"@,
        "# анти-спуфинг вместо DHCP-lease в miyori-net: демон lease — лишний TCB в роутере,"@,
        "# а лгущего гостя он всё равно не остановит — останавливает только эта фильтрация"@,
        "add table bridge miyori"@,
        "flush table bridge miyori"@,
        ""@,
        "table bridge miyori {"@,
        "\tchain spaces {"@,
        "\t\ttype filter hook forward priority filter; policy accept;"@,
        ""@,
        "\t\t# не трогаем чужие мосты хоста: docker, libvirt, br-captive"@,
        "\t\tmeta ibrname != \"br-spaces\" accept"@,
        ""@,
        "\t\tiifname \"tap-spaces\" accept"@,
        ""@,
    ]
}

/// What stands behind them: whatever no rule admitted is dropped.
pub open spec fn tail_lines() -> Seq<Seq<char>> {
    seq![
        ""@,
        "\t\t# спуф MAC/IP/ARP и весь IPv6 с портов спейсов падают сюда"@,
        "\t\tdrop"@,
        "\t}"@,
        ""@,
        "\t# находка теста 52: хост отвечал спейсу по link-local IPv6. Кадры, адресованные"@,
        "\t# самому мосту, идут через input и под цепочку forward не попадают вовсе."@,
        "\t# Хост не участник этого моста — ему отсюда не адресуют ничего"@,
        "\tchain to-host {"@,
        "\t\ttype filter hook input priority filter; policy accept;"@,
        "\t\tmeta ibrname != \"br-spaces\" accept"@,
        "\t\tcounter drop"@,
        "\t}"@,
        "}"@,
    ]
}

/// What admits the packets of a space: its tap, its hardware address and its address together.
pub open spec fn ip_line(cid: u32) -> Seq<char> {
    "\t\tiifname \""@ + tap_name(cid) + "\" ether saddr "@ + mac_of(cid) + " ip saddr "@ + ipv4_of(
        cid,
    ) + " accept"@
}

/// What admits its address resolution, bound in the same way.
pub open spec fn arp_line(cid: u32) -> Seq<char> {
    "\t\tiifname \""@ + tap_name(cid) + "\" ether saddr "@ + mac_of(cid) + " arp saddr ip "@
        + ipv4_of(cid) + " accept"@
}

/// Two lines for every space, and no others.
pub open spec fn rule_lines(rows: Seq<RegistryRow>) -> Seq<Seq<char>>
    decreases rows.len(),
{
    if rows.len() == 0 {
        seq![]
    } else {
        rule_lines(rows.drop_last()) + seq![ip_line(rows.last().cid), arp_line(rows.last().cid)]
    }
}

/// The spaces in the order of their context ids.
pub open spec fn ordered_spaces(rows: Seq<RegistryRow>) -> Seq<RegistryRow> {
    sort_by(space_rows(rows), by_cid())
}

pub open spec fn nft_lines(rows: Seq<RegistryRow>) -> Seq<Seq<char>> {
    head_lines() + rule_lines(ordered_spaces(rows)) + tail_lines()
}

pub open spec fn nft_text(rows: Seq<RegistryRow>) -> Seq<char> {
    terminated(nft_lines(rows))
}

/// The first space whose context id does not fit in one octet.
pub open spec fn first_oversized(rows: Seq<RegistryRow>) -> Option<u32>
    decreases rows.len(),
{
    if rows.len() == 0 {
        None
    } else if rows[0].id != MIYORI_NET_ID@ && rows[0].cid > MAX_CID {
        Some(rows[0].cid)
    } else {
        first_oversized(rows.skip(1))
    }
}

pub open spec fn oversized_text(cid: u32) -> Seq<char> {
    "cid "@ + dec(cid as nat) + " превышает 255: адрес и MAC спейса строятся из одного октета"@
}

fn push_head(out: &mut Vec<String>)
    requires
        old(out)@.len() == 0,
    ensures
        texts(final(out)@) == head_lines(),
{
    assert(texts(out@) =~= seq![]);
    push_text(out, "#!/usr/sbin/nft -f");
    push_text(out, "# анти-спуфинг вместо DHCP-lease в miyori-net: демон lease — лишний TCB в роутере,");
    push_text(out, "# а лгущего гостя он всё равно не остановит — останавливает только эта фильтрация");
    push_text(out, "add table bridge miyori");
    push_text(out, "flush table bridge miyori");
    push_text(out, "");
    push_text(out, "table bridge miyori {");
    push_text(out, "\tchain spaces {");
    push_text(out, "\t\ttype filter hook forward priority filter; policy accept;");
    push_text(out, "");
    push_text(out, "\t\t# не трогаем чужие мосты хоста: docker, libvirt, br-captive");
    push_text(out, "\t\tmeta ibrname != \"br-spaces\" accept");
    push_text(out, "");
    push_text(out, "\t\tiifname \"tap-spaces\" accept");
    push_text(out, "");
    assert(texts(out@) =~= head_lines());
}

fn push_tail(out: &mut Vec<String>)
    ensures
        texts(final(out)@) == texts(old(out)@) + tail_lines(),
{
    push_text(out, "");
    push_text(out, "\t\t# спуф MAC/IP/ARP и весь IPv6 с портов спейсов падают сюда");
    push_text(out, "\t\tdrop");
    push_text(out, "\t}");
    push_text(out, "");
    push_text(out, "\t# находка теста 52: хост отвечал спейсу по link-local IPv6. Кадры, адресованные");
    push_text(out, "\t# самому мосту, идут через input и под цепочку forward не попадают вовсе.");
    push_text(out, "\t# Хост не участник этого моста — ему отсюда не адресуют ничего");
    push_text(out, "\tchain to-host {");
    push_text(out, "\t\ttype filter hook input priority filter; policy accept;");
    push_text(out, "\t\tmeta ibrname != \"br-spaces\" accept");
    push_text(out, "\t\tcounter drop");
    push_text(out, "\t}");
    push_text(out, "}");
    assert(texts(out@) =~= texts(old(out)@) + tail_lines());
}

fn push_rules(out: &mut Vec<String>, cid: u32)
    ensures
        texts(final(out)@) == texts(old(out)@) + seq![ip_line(cid), arp_line(cid)],
{
    let tap = space_tap(cid);
    let mac = space_mac(cid);
    let ip = space_ipv4(cid);
    let bound = "\t\tiifname \"".to_owned().concat(tap.as_str()).concat("\" ether saddr ").concat(
        mac.as_str(),
    );
    push_text(
        out,
        bound.clone().concat(" ip saddr ").concat(ip.as_str()).concat(" accept").as_str(),
    );
    push_text(out, bound.concat(" arp saddr ip ").concat(ip.as_str()).concat(" accept").as_str());
    assert(texts(out@) =~= texts(old(out)@) + seq![ip_line(cid), arp_line(cid)]);
}

/// The rules of the bridge.
pub fn render_nft(entries: &Vec<RegistryEntry>) -> (r: Result<String, String>)
    ensures
        match first_oversized(entry_rows(entries@)) {
            Some(cid) => r matches Err(message) && message@ == oversized_text(cid),
            None => r matches Ok(text) && text@ == nft_text(entry_rows(entries@)),
        },
{
    let ghost all = entry_rows(entries@);
    assert(all.skip(0) =~= all);
    for i in 0..entries.len()
        invariant
            all == entry_rows(entries@),
            first_oversized(all.skip(i as int)) == first_oversized(all),
    {
        assert(all.skip(i as int)[0] == entries@[i as int]@);
        let e = &entries[i];
        if !str_equal(e.id.as_str(), MIYORI_NET_ID) && e.cid > MAX_CID {
            return Err(
                "cid ".to_owned().concat(u32_to_string(e.cid).as_str()).concat(
                    " превышает 255: адрес и MAC спейса строятся из одного октета",
                ),
            );
        }
        assert(all.skip(i as int).skip(1) =~= all.skip(i + 1));
    }
    assert(all.skip(entries@.len() as int) =~= seq![]);
    let spaces = sorted_spaces(entries);
    let ghost sorted = entry_rows(spaces@);
    let mut out: Vec<String> = Vec::new();
    push_head(&mut out);
    assert(sorted.take(0) =~= seq![]);
    assert(head_lines() + rule_lines(seq![]) =~= head_lines());
    for i in 0..spaces.len()
        invariant
            sorted == entry_rows(spaces@),
            texts(out@) == head_lines() + rule_lines(sorted.take(i as int)),
    {
        assert(sorted.take(i + 1).drop_last() =~= sorted.take(i as int));
        assert(sorted.take(i + 1).last() == spaces@[i as int]@);
        push_rules(&mut out, spaces[i].cid);
        assert(texts(out@) =~= head_lines() + rule_lines(sorted.take(i + 1)));
    }
    assert(sorted.take(spaces@.len() as int) =~= sorted);
    push_tail(&mut out);
    Ok(terminate(&out))
}

} // verus!
