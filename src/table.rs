//! The result normalizer and the table exporter: a heterogeneous array of
//! JSON objects becomes a table with a stable column list, and a table
//! becomes CSV.

use vstd::prelude::*;
use crate::json::{
    false_text, json_text, lemma_list_view, lemma_members_view, list_view, null_text,
    to_json_text, true_text, Json, JsonObject, JsonValue,
};
use crate::text::views;
use vstd::utf8::encode_utf8;

verus! {

/// The value of the first member of `members` named `key`.
pub open spec fn lookup(members: Seq<(Seq<char>, Json)>, key: Seq<char>) -> Option<Json>
    decreases members.len(),
{
    if members.len() == 0 {
        None
    } else if members[0].0 == key {
        Some(members[0].1)
    } else {
        lookup(members.drop_first(), key)
    }
}

/// The text of a value in a table cell: a string as itself, a number as its
/// decimal text, `true`, `false`, `null`, and any other value as its compact
/// JSON text.
pub open spec fn cell_text(j: Json) -> Seq<char> {
    match j {
        Json::Str(s) => s,
        Json::Number(t) => t,
        Json::Bool(b) => if b {
            true_text()
        } else {
            false_text()
        },
        Json::Null => null_text(),
        _ => json_text(j),
    }
}

/// `cols` with `key` appended, unless it is there already.
pub open spec fn add_column(cols: Seq<Seq<char>>, key: Seq<char>) -> Seq<Seq<char>> {
    if cols.contains(key) {
        cols
    } else {
        cols.push(key)
    }
}

/// `cols` with each of `keys` added in turn.
pub open spec fn add_columns(cols: Seq<Seq<char>>, keys: Seq<Seq<char>>) -> Seq<Seq<char>>
    decreases keys.len(),
{
    if keys.len() == 0 {
        cols
    } else {
        add_column(add_columns(cols, keys.drop_last()), keys.last())
    }
}

/// The names of the members of an object, in order.
pub open spec fn member_keys(members: Seq<(Seq<char>, Json)>) -> Seq<Seq<char>> {
    members.map_values(|m: (Seq<char>, Json)| m.0)
}

/// The columns of a result array: every member name of its objects, in the
/// order first seen; elements that are not objects add none.
pub open spec fn columns_of(items: Seq<Json>) -> Seq<Seq<char>>
    decreases items.len(),
{
    if items.len() == 0 {
        seq![]
    } else {
        let cols = columns_of(items.drop_last());
        match items.last() {
            Json::Object(members) => add_columns(cols, member_keys(members)),
            _ => cols,
        }
    }
}

/// The cell of an object in a column: the text of its value, or empty when
/// the object has no such member.
pub open spec fn cell_of(members: Seq<(Seq<char>, Json)>, col: Seq<char>) -> Seq<char> {
    match lookup(members, col) {
        Some(v) => cell_text(v),
        None => seq![],
    }
}

/// The row of an object: one cell per column.
pub open spec fn row_of(cols: Seq<Seq<char>>, members: Seq<(Seq<char>, Json)>) -> Seq<Seq<char>> {
    cols.map_values(|c: Seq<char>| cell_of(members, c))
}

/// The rows of a result array: one per object, in order.
pub open spec fn rows_of(cols: Seq<Seq<char>>, items: Seq<Json>) -> Seq<Seq<Seq<char>>>
    decreases items.len(),
{
    if items.len() == 0 {
        seq![]
    } else {
        let rows = rows_of(cols, items.drop_last());
        match items.last() {
            Json::Object(members) => rows.push(row_of(cols, members)),
            _ => rows,
        }
    }
}

/// The name of the member that holds a result's array.
pub open spec fn return_key() -> Seq<char> {
    "return"@
}

/// The table of a service result: columns and rows of its non-empty
/// `"return"` array, or nothing when there is no such array.
pub open spec fn table_of(result: Seq<(Seq<char>, Json)>) -> Option<
    (Seq<Seq<char>>, Seq<Seq<Seq<char>>>),
> {
    match lookup(result, return_key()) {
        Some(Json::Array(items)) => if items.len() == 0 {
            None
        } else {
            Some((columns_of(items), rows_of(columns_of(items), items)))
        },
        _ => None,
    }
}

/// A normalized result: named columns, and rows holding one cell per column.
#[derive(Debug, PartialEq, Eq)]
pub struct TableData {
    /// The column names, each once, in the order first seen.
    pub columns: Vec<String>,
    /// The rows; the cell at index `j` belongs to column `j`.
    pub rows: Vec<Vec<String>>,
}

impl View for TableData {
    type V = (Seq<Seq<char>>, Seq<Seq<Seq<char>>>);

    open spec fn view(&self) -> (Seq<Seq<char>>, Seq<Seq<Seq<char>>>) {
        (views(self.columns@), self.rows@.map_values(|r: Vec<String>| views(r@)))
    }
}

impl TableData {
    /// The cell of row `row` in the column named `column`, if both exist.
    pub fn cell(&self, row: usize, column: &String) -> (r: Option<&String>)
        requires
            self.wf(),
        ensures
            row < self.rows@.len() && views(self.columns@).contains(column@) ==> (r matches Some(
                c,
            ) && exists|j: int|
                0 <= j < self.columns@.len() && self.columns@[j]@ == column@ && c
                    == self.rows@[row as int]@[j]),
            !(row < self.rows@.len() && views(self.columns@).contains(column@)) ==> r is None,
    {
        if row >= self.rows.len() {
            return None;
        }
        let n = self.columns.len();
        let mut j: usize = 0;
        while j < n
            invariant
                self.wf(),
                row < self.rows@.len(),
                n == self.columns@.len(),
                j <= n,
                forall|k: int| 0 <= k < j ==> self.columns@[k]@ != column@,
            decreases n - j,
        {
            if self.columns[j] == *column {
                assert(self.rows@[row as int].len() == n);
                assert(views(self.columns@)[j as int] == column@);
                return Some(&self.rows[row][j]);
            }
            j = j + 1;
        }
        assert(!views(self.columns@).contains(column@)) by {
            if views(self.columns@).contains(column@) {
                let k = choose|k: int|
                    0 <= k < views(self.columns@).len() && views(self.columns@)[k] == column@;
                assert(self.columns@[k]@ == column@);
            }
        }
        None
    }

    /// Column names are distinct and every row has one cell per column.
    pub open spec fn wf(&self) -> bool {
        &&& views(self.columns@).no_duplicates()
        &&& forall|i: int|
            0 <= i < self.rows@.len() ==> #[trigger] self.rows@[i].len() == self.columns@.len()
    }
}

/// `t` is what normalizing `result` gives.
pub open spec fn normalized(result: Seq<(Seq<char>, Json)>, t: Option<TableData>) -> bool {
    match t {
        Some(t) => table_of(result) == Some(t@) && t.wf(),
        None => table_of(result) is None,
    }
}

proof fn lemma_lookup_at(members: Seq<(Seq<char>, Json)>, key: Seq<char>, i: int)
    requires
        0 <= i < members.len(),
        members[i].0 == key,
        forall|k: int| 0 <= k < i ==> members[k].0 != key,
    ensures
        lookup(members, key) == Some(members[i].1),
    decreases i,
{
    if i > 0 {
        lemma_lookup_at(members.drop_first(), key, i - 1);
    }
}

proof fn lemma_lookup_absent(members: Seq<(Seq<char>, Json)>, key: Seq<char>)
    requires
        forall|k: int| 0 <= k < members.len() ==> members[k].0 != key,
    ensures
        lookup(members, key) is None,
    decreases members.len(),
{
    if members.len() > 0 {
        lemma_lookup_absent(members.drop_first(), key);
    }
}

/// The value of the first member of `o` named `key`.
pub fn find_member<'a>(o: &'a JsonObject, key: &String) -> (r: Option<&'a JsonValue>)
    ensures
        match r {
            Some(v) => lookup(o@, key@) == Some(v@),
            None => lookup(o@, key@) is None,
        },
{
    proof {
        lemma_members_view(o.entries@);
    }
    let n = o.entries.len();
    let mut i: usize = 0;
    while i < n
        invariant
            n == o.entries@.len(),
            i <= n,
            o@.len() == n,
            forall|k: int| 0 <= k < n ==> #[trigger] o@[k] == (o.entries@[k].0@, o.entries@[k].1@),
            forall|k: int| 0 <= k < i ==> o@[k].0 != key@,
        decreases n - i,
    {
        if o.entries[i].0 == *key {
            proof {
                lemma_lookup_at(o@, key@, i as int);
            }
            return Some(&o.entries[i].1);
        }
        i = i + 1;
    }
    proof {
        lemma_lookup_absent(o@, key@);
    }
    None
}

/// The text of `v` in a table cell.
pub fn value_to_string(v: &JsonValue) -> (r: String)
    ensures
        r@ == cell_text(v@),
{
    proof {
        reveal_strlit("true");
        reveal_strlit("false");
        reveal_strlit("null");
    }
    match v {
        JsonValue::Str(s) => s.clone(),
        JsonValue::Number(t) => t.clone(),
        JsonValue::Bool(b) => if *b {
            "true".to_owned()
        } else {
            "false".to_owned()
        },
        JsonValue::Null => "null".to_owned(),
        _ => to_json_text(v),
    }
}

/// Whether `key` is among `cols`.
fn contains_name(cols: &Vec<String>, key: &String) -> (r: bool)
    ensures
        r == views(cols@).contains(key@),
{
    let n = cols.len();
    let mut i: usize = 0;
    while i < n
        invariant
            n == cols@.len(),
            i <= n,
            forall|k: int| 0 <= k < i ==> cols@[k]@ != key@,
        decreases n - i,
    {
        if cols[i] == *key {
            assert(views(cols@)[i as int] == key@);
            return true;
        }
        i = i + 1;
    }
    assert(!views(cols@).contains(key@)) by {
        if views(cols@).contains(key@) {
            let k = choose|k: int| 0 <= k < views(cols@).len() && views(cols@)[k] == key@;
            assert(cols@[k]@ == key@);
        }
    }
    false
}

/// The columns of the objects among `items`, in the order first seen.
fn discover_columns(items: &Vec<JsonValue>) -> (r: Vec<String>)
    ensures
        views(r@) == columns_of(list_view(items@)),
        views(r@).no_duplicates(),
{
    proof {
        lemma_list_view(items@);
    }
    let ghost models = list_view(items@);
    let mut cols: Vec<String> = Vec::new();
    let n = items.len();
    let mut i: usize = 0;
    while i < n
        invariant
            n == items@.len(),
            i <= n,
            models == list_view(items@),
            models.len() == n,
            forall|k: int| 0 <= k < n ==> #[trigger] models[k] == items@[k]@,
            views(cols@) == columns_of(models.take(i as int)),
            views(cols@).no_duplicates(),
        decreases n - i,
    {
        assert(models.take(i + 1).drop_last() =~= models.take(i as int));
        assert(models.take(i + 1).last() == items@[i as int]@);
        match &items[i] {
            JsonValue::Object(o) => {
                proof {
                    lemma_members_view(o.entries@);
                }
                let ghost keys = member_keys(o@);
                let ghost base = columns_of(models.take(i as int));
                let m = o.entries.len();
                let mut j: usize = 0;
                while j < m
                    invariant
                        m == o.entries@.len(),
                        j <= m,
                        o@.len() == m,
                        keys == member_keys(o@),
                        forall|k: int|
                            0 <= k < m ==> #[trigger] o@[k] == (
                                o.entries@[k].0@,
                                o.entries@[k].1@,
                            ),
                        views(cols@) == add_columns(base, keys.take(j as int)),
                        views(cols@).no_duplicates(),
                    decreases m - j,
                {
                    assert(keys.take(j + 1).drop_last() =~= keys.take(j as int));
                    assert(keys.take(j + 1).last() == o.entries@[j as int].0@);
                    let key = &o.entries[j].0;
                    if !contains_name(&cols, key) {
                        let ghost before = cols@;
                        cols.push(key.clone());
                        assert(views(cols@) =~= views(before).push(key@));
                    }
                    j = j + 1;
                }
                assert(keys.take(m as int) =~= keys);
            },
            _ => {},
        }
        i = i + 1;
    }
    assert(models.take(n as int) =~= models);
    cols
}

/// The row of object `o` under `cols`.
fn build_row(cols: &Vec<String>, o: &JsonObject) -> (r: Vec<String>)
    ensures
        views(r@) == row_of(views(cols@), o@),
        r@.len() == cols@.len(),
{
    let n = cols.len();
    let mut row: Vec<String> = Vec::new();
    let mut i: usize = 0;
    while i < n
        invariant
            n == cols@.len(),
            i <= n,
            row@.len() == i,
            forall|k: int| 0 <= k < i ==> #[trigger] row@[k]@ == cell_of(o@, cols@[k]@),
        decreases n - i,
    {
        let cell = match find_member(o, &cols[i]) {
            Some(v) => value_to_string(v),
            None => String::new(),
        };
        row.push(cell);
        i = i + 1;
    }
    assert(views(row@) =~= row_of(views(cols@), o@));
    row
}

/// The rows of the objects among `items` under `cols`.
fn build_rows(cols: &Vec<String>, items: &Vec<JsonValue>) -> (r: Vec<Vec<String>>)
    ensures
        r@.map_values(|row: Vec<String>| views(row@)) == rows_of(views(cols@), list_view(items@)),
        forall|k: int| 0 <= k < r@.len() ==> #[trigger] r@[k].len() == cols@.len(),
{
    proof {
        lemma_list_view(items@);
    }
    let ghost models = list_view(items@);
    let ghost names = views(cols@);
    let mut rows: Vec<Vec<String>> = Vec::new();
    let n = items.len();
    let mut i: usize = 0;
    while i < n
        invariant
            n == items@.len(),
            i <= n,
            models == list_view(items@),
            names == views(cols@),
            models.len() == n,
            forall|k: int| 0 <= k < n ==> #[trigger] models[k] == items@[k]@,
            rows@.map_values(|row: Vec<String>| views(row@)) == rows_of(names, models.take(i as int)),
            forall|k: int| 0 <= k < rows@.len() ==> #[trigger] rows@[k].len() == cols@.len(),
        decreases n - i,
    {
        assert(models.take(i + 1).drop_last() =~= models.take(i as int));
        assert(models.take(i + 1).last() == items@[i as int]@);
        match &items[i] {
            JsonValue::Object(o) => {
                let row = build_row(cols, o);
                let ghost before = rows@;
                rows.push(row);
                assert(rows@.map_values(|row: Vec<String>| views(row@)) =~= before.map_values(
                    |row: Vec<String>| views(row@),
                ).push(views(row@)));
            },
            _ => {},
        }
        i = i + 1;
    }
    assert(models.take(n as int) =~= models);
    rows
}

/// Normalizes a service result into a table.
///
/// The table is built from the `"return"` member when it is a non-empty
/// array: its columns are the member names of its objects in the order first
/// seen, and each object gives one row, with an empty cell where it lacks a
/// column. Elements that are not objects are skipped. Without such an array
/// there is no table.
pub fn normalize(result: &JsonObject) -> (r: Option<TableData>)
    ensures
        normalized(result@, r),
{
    let key = "return".to_owned();
    match find_member(result, &key) {
        Some(JsonValue::Array(items)) => {
            if items.len() == 0 {
                return None;
            }
            let columns = discover_columns(items);
            let rows = build_rows(&columns, items);
            Some(TableData { columns, rows })
        },
        _ => None,
    }
}

/// Normalizing the same object twice gives structurally identical tables:
/// both absent, or both with the same columns in the same order and the same
/// rows holding the same values.
pub proof fn normalize_is_deterministic(
    result: JsonObject,
    first: Option<TableData>,
    second: Option<TableData>,
)
    requires
        normalized(result@, first),
        normalized(result@, second),
    ensures
        first is Some <==> second is Some,
        first is Some ==> first->0@ == second->0@,
{
}

/// Why a table could not be exported.
#[derive(Debug, PartialEq, Eq, Structural)]
pub enum ExportError {
    /// The CSV bytes could not be written out.
    WriteFailed,
}

/// Whether csv's writer, with its default settings, quotes a field: when it
/// holds the delimiter, the quote character or a line break.
pub open spec fn field_needs_quotes(f: Seq<char>) -> bool {
    f.contains(',') || f.contains('"') || f.contains('\r') || f.contains('\n')
}

/// `f` with each quote character doubled.
pub open spec fn doubled_quotes(f: Seq<char>) -> Seq<char>
    decreases f.len(),
{
    if f.len() == 0 {
        seq![]
    } else {
        doubled_quotes(f.drop_last()) + if f.last() == '"' {
            seq!['"', '"']
        } else {
            seq![f.last()]
        }
    }
}

/// A field as written in a record: as itself, or in quotes with its quotes
/// doubled when it needs quoting.
pub open spec fn csv_field(f: Seq<char>) -> Seq<char> {
    if field_needs_quotes(f) {
        seq!['"'] + doubled_quotes(f) + seq!['"']
    } else {
        f
    }
}

/// The written fields, separated by commas.
pub open spec fn csv_fields(fields: Seq<Seq<char>>) -> Seq<char>
    decreases fields.len(),
{
    if fields.len() == 0 {
        seq![]
    } else if fields.len() == 1 {
        csv_field(fields[0])
    } else {
        csv_fields(fields.drop_last()) + seq![','] + csv_field(fields.last())
    }
}

/// The text of one record: its fields, then a line feed. A record that would
/// otherwise hold no character (no fields, or one empty field) is written
/// as `""`.
pub open spec fn csv_line(fields: Seq<Seq<char>>) -> Seq<char> {
    if fields.len() == 0 || (fields.len() == 1 && fields[0].len() == 0) {
        seq!['"', '"', '\n']
    } else {
        csv_fields(fields) + seq!['\n']
    }
}

/// The bytes that csv's writer, with its default settings, emits for one
/// record: the UTF-8 encoding of its text.
pub open spec fn csv_record(fields: Seq<Seq<char>>) -> Seq<u8> {
    encode_utf8(csv_line(fields))
}

/// Relies on csv::Writer with default settings (`Writer::from_writer`,
/// `Writer::write_record`, `Writer::into_inner`) to encode one record into
/// memory: the first record of a new writer passes its field-count check,
/// and writing into a `Vec` cannot fail.
#[verifier::external_body]
fn encode_record(fields: &Vec<String>) -> (r: Option<Vec<u8>>)
    ensures
        r is Some,
        r matches Some(bytes) ==> bytes@ == csv_record(views(fields@)),
{
    let mut writer = csv::Writer::from_writer(Vec::new());
    writer.write_record(fields).ok()?;
    writer.into_inner().ok()
}

/// The CSV records of `rows`, one after the other.
pub open spec fn csv_rows(rows: Seq<Seq<Seq<char>>>) -> Seq<u8>
    decreases rows.len(),
{
    if rows.len() == 0 {
        seq![]
    } else {
        csv_rows(rows.drop_last()) + csv_record(rows.last())
    }
}

/// The CSV text of a table: the header record of the column names, then one
/// record per row.
pub open spec fn csv_document(columns: Seq<Seq<char>>, rows: Seq<Seq<Seq<char>>>) -> Seq<u8> {
    csv_record(columns) + csv_rows(rows)
}

impl TableData {
    /// The table as CSV: a header record of the columns, then one record per
    /// row, in order. Encoding into memory always succeeds; `WriteFailed`
    /// belongs to writing the bytes out.
    pub fn export_to_csv(&self) -> (r: Result<Vec<u8>, ExportError>)
        ensures
            r matches Ok(bytes) && bytes@ == csv_document(self@.0, self@.1),
    {
        let mut out = match encode_record(&self.columns) {
            Some(bytes) => bytes,
            None => return Err(ExportError::WriteFailed),
        };
        let ghost cells = self@.1;
        let n = self.rows.len();
        let mut i: usize = 0;
        while i < n
            invariant
                n == self.rows@.len(),
                i <= n,
                cells == self@.1,
                cells.len() == n,
                out@ == csv_record(self@.0) + csv_rows(cells.take(i as int)),
            decreases n - i,
        {
            let mut bytes = match encode_record(&self.rows[i]) {
                Some(bytes) => bytes,
                None => return Err(ExportError::WriteFailed),
            };
            assert(cells.take(i + 1).drop_last() =~= cells.take(i as int));
            assert(cells.take(i + 1).last() == views(self.rows@[i as int]@));
            out.append(&mut bytes);
            assert(out@ =~= csv_record(self@.0) + csv_rows(cells.take(i + 1)));
            i = i + 1;
        }
        assert(cells.take(n as int) =~= cells);
        Ok(out)
    }
}

} // verus!
