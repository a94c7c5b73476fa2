//! Importing issues from CSV and JSON files.
use vstd::prelude::*;
use vstd::string::*;
use vstd::utf8;

use crate::api::{Request, RequestView};
use crate::error::{Failure, FailureView};
use crate::json;
use crate::json::{Json, JsonNumber, JsonNumberView, JsonView};
use crate::json_text;
use crate::text;
use crate::text::{count_text, eq_ignore_case, joined2, joined3, joined5, no_texts};

verus! {

#[derive(Debug)]
pub enum ImportCommands {
    /// Import issues from a CSV file
    Csv {
        /// CSV file path
        file: String,
        /// Team key or name (required for new issues)
        team: String,
        /// Preview without creating (dry run)
        dry_run: bool,
    },
    /// Import issues from a JSON file
    Json {
        /// JSON file path (array of issue objects)
        file: String,
        /// Team key or name
        team: String,
        /// Preview without creating (dry run)
        dry_run: bool,
    },
}

impl ImportCommands {
    pub open spec fn source(self) -> (Seq<char>, Seq<char>, bool) {
        match self {
            ImportCommands::Csv { file, team, dry_run } => (file@, team@, dry_run),
            ImportCommands::Json { file, team, dry_run } => (file@, team@, dry_run),
        }
    }

    /// The file that is read.
    pub fn file(&self) -> (r: &str)
        ensures
            r@ == self.source().0,
    {
        match self {
            ImportCommands::Csv { file, .. } => file.as_str(),
            ImportCommands::Json { file, .. } => file.as_str(),
        }
    }

    /// The team that gets the issues.
    pub fn team(&self) -> (r: &str)
        ensures
            r@ == self.source().1,
    {
        match self {
            ImportCommands::Csv { team, .. } => team.as_str(),
            ImportCommands::Json { team, .. } => team.as_str(),
        }
    }

    /// Whether the issues are only previewed.
    pub fn is_dry_run(&self) -> (r: bool)
        ensures
            r == self.source().2,
    {
        match self {
            ImportCommands::Csv { dry_run, .. } => *dry_run,
            ImportCommands::Json { dry_run, .. } => *dry_run,
        }
    }
}

/// A CSV file: the header row, and the records or why one cannot be read.
pub struct CsvTable {
    pub headers: Vec<String>,
    pub records: Vec<Result<Vec<String>, String>>,
}

#[verifier::ext_equal]
pub struct CsvTableView {
    pub headers: Seq<Seq<char>>,
    pub records: Seq<Result<Seq<Seq<char>>, Seq<char>>>,
}

impl View for CsvTable {
    type V = CsvTableView;

    open spec fn view(&self) -> CsvTableView {
        CsvTableView {
            headers: self.headers.deep_view(),
            records: Seq::new(
                self.records@.len(),
                |i: int|
                    match self.records@[i] {
                        Ok(record) => Ok(record.deep_view()),
                        Err(fault) => Err(fault@),
                    },
            ),
        }
    }
}

/// What `csv::Reader` makes of the bytes of a file: a table, or the fault of its
/// header row.
pub uninterp spec fn csv_contents(bytes: Seq<u8>) -> Result<CsvTableView, Seq<char>>;

/// `csv::Reader::from_reader`, with the header row and the records that the
/// reader hands out, and its errors as texts.
#[verifier::external_body]
fn read_csv(bytes: &[u8]) -> (r: Result<CsvTable, String>)
    ensures
        match r {
            Ok(table) => csv_contents(bytes@) == Ok::<CsvTableView, Seq<char>>(table@),
            Err(fault) => csv_contents(bytes@) == Err::<CsvTableView, Seq<char>>(fault@),
        },
{
    let mut reader = csv::Reader::from_reader(bytes);
    let headers = reader.headers().map_err(|fault| fault.to_string())?;
    let headers = headers.iter().map(|field| field.to_string()).collect();
    let records = reader.records().map(|record| match record {
        Ok(record) => Ok(record.iter().map(|field| field.to_string()).collect()),
        Err(fault) => Err(fault.to_string()),
    });
    let records = records.collect();
    Ok(CsvTable { headers, records })
}

/// An estimate as it stands in a file.
#[derive(Debug)]
pub enum Estimate {
    Text(String),
    Number(JsonNumber),
}

#[verifier::ext_equal]
pub enum EstimateView {
    Text(Seq<char>),
    Number(JsonNumberView),
}

impl View for Estimate {
    type V = EstimateView;

    open spec fn view(&self) -> EstimateView {
        match self {
            Estimate::Text(s) => EstimateView::Text(s@),
            Estimate::Number(n) => EstimateView::Number(n@),
        }
    }
}

/// A parsed row, ready for issue creation.
#[derive(Debug)]
pub struct ImportRow {
    pub title: String,
    pub description: Option<String>,
    pub priority: Option<i64>,
    pub status: Option<String>,
    pub assignee: Option<String>,
    pub labels: Vec<String>,
    pub estimate: Option<Estimate>,
    pub due_date: Option<String>,
}

#[verifier::ext_equal]
pub struct ImportRowView {
    pub title: Seq<char>,
    pub description: Option<Seq<char>>,
    pub priority: Option<i64>,
    pub status: Option<Seq<char>>,
    pub assignee: Option<Seq<char>>,
    pub labels: Seq<Seq<char>>,
    pub estimate: Option<EstimateView>,
    pub due_date: Option<Seq<char>>,
}

impl View for ImportRow {
    type V = ImportRowView;

    open spec fn view(&self) -> ImportRowView {
        ImportRowView {
            title: self.title@,
            description: self.description.deep_view(),
            priority: self.priority,
            status: self.status.deep_view(),
            assignee: self.assignee.deep_view(),
            labels: self.labels.deep_view(),
            estimate: match self.estimate {
                Some(estimate) => Some(estimate@),
                None => None,
            },
            due_date: self.due_date.deep_view(),
        }
    }
}

/// The rows of a file, and the numbers of those without a title, counted from one.
#[derive(Debug)]
pub struct ImportRows {
    pub rows: Vec<ImportRow>,
    pub skipped: Vec<usize>,
}

#[verifier::ext_equal]
pub struct ImportRowsView {
    pub rows: Seq<ImportRowView>,
    pub skipped: Seq<usize>,
}

pub open spec fn row_views(rows: Seq<ImportRow>) -> Seq<ImportRowView> {
    Seq::new(rows.len(), |i: int| rows[i]@)
}

impl View for ImportRows {
    type V = ImportRowsView;

    open spec fn view(&self) -> ImportRowsView {
        ImportRowsView { rows: row_views(self.rows@), skipped: self.skipped@ }
    }
}

impl ImportRowsView {
    pub open spec fn none() -> ImportRowsView {
        ImportRowsView { rows: Seq::empty(), skipped: Seq::empty() }
    }

    /// The rows with what was made of one more, or with its number where it was
    /// skipped.
    pub open spec fn and(self, row: Option<ImportRowView>, number: usize) -> ImportRowsView {
        match row {
            Some(row) => ImportRowsView { rows: self.rows.push(row), ..self },
            None => ImportRowsView { skipped: self.skipped.push(number), ..self },
        }
    }
}

fn empty_rows() -> (r: ImportRows)
    ensures
        r@ == ImportRowsView::none(),
{
    let r = ImportRows { rows: Vec::new(), skipped: Vec::new() };
    assert(r@ =~= ImportRowsView::none());
    r
}

fn add_row(rows: &mut ImportRows, row: Option<ImportRow>, number: usize)
    ensures
        final(rows)@ == old(rows)@.and(
            (match row {
                Some(row) => Some(row@),
                None => None,
            }),
            number,
        ),
{
    match row {
        Some(row) => {
            rows.rows.push(row);
            assert(rows@.rows =~= old(rows)@.rows.push(row@));
        },
        None => {
            rows.skipped.push(number);
        },
    }
}

/// The position of the first column of a name, in any case.
pub open spec fn column(headers: Seq<Seq<char>>, name: Seq<char>) -> Option<int>
    decreases headers.len(),
{
    if headers.len() == 0 {
        None
    } else if text::same_ignoring_case(headers[0], name) {
        Some(0)
    } else {
        match column(headers.drop_first(), name) {
            Some(i) => Some(i + 1),
            None => None,
        }
    }
}

/// The field of a record in a column, where there is one that is not empty.
pub open spec fn csv_field(
    headers: Seq<Seq<char>>,
    record: Seq<Seq<char>>,
    name: Seq<char>,
) -> Option<Seq<char>> {
    match column(headers, name) {
        Some(i) => if i < record.len() && record[i].len() > 0 {
            Some(record[i])
        } else {
            None
        },
        None => None,
    }
}

pub open spec fn signed_number(value: Option<Seq<char>>) -> Option<i64> {
    match value {
        Some(s) => match text::within(
            text::signed_value(s),
            i64::MIN as int,
            i64::MAX as int,
        ) {
            Some(n) => Some(n as i64),
            None => None,
        },
        None => None,
    }
}

pub open spec fn listed(value: Option<Seq<char>>) -> Seq<Seq<char>> {
    match value {
        Some(s) => text::list_items(s),
        None => Seq::empty(),
    }
}

pub open spec fn first_of(a: Option<Seq<char>>, b: Option<Seq<char>>) -> Option<Seq<char>> {
    if a is Some {
        a
    } else {
        b
    }
}

/// What is made of a record; nothing where it has no title.
pub open spec fn csv_row(headers: Seq<Seq<char>>, record: Seq<Seq<char>>) -> Option<
    ImportRowView,
> {
    match csv_field(headers, record, "title"@) {
        Some(title) => Some(
            ImportRowView {
                title,
                description: csv_field(headers, record, "description"@),
                priority: signed_number(csv_field(headers, record, "priority"@)),
                status: csv_field(headers, record, "status"@),
                assignee: csv_field(headers, record, "assignee"@),
                labels: listed(csv_field(headers, record, "labels"@)),
                estimate: match csv_field(headers, record, "estimate"@) {
                    Some(s) => Some(EstimateView::Text(s)),
                    None => None,
                },
                due_date: first_of(
                    csv_field(headers, record, "dueDate"@),
                    csv_field(headers, record, "due_date"@),
                ),
            },
        ),
        None => None,
    }
}

pub open spec fn row_failure(number: int, fault: Seq<char>) -> FailureView {
    FailureView::message(fault).with_context(
        "Failed to parse CSV row "@ + text::decimal(number as nat),
    )
}

/// What is made of the records of a file: the first that cannot be read fails the
/// import.
pub open spec fn csv_records(
    headers: Seq<Seq<char>>,
    records: Seq<Result<Seq<Seq<char>>, Seq<char>>>,
) -> Result<ImportRowsView, FailureView>
    decreases records.len(),
{
    if records.len() == 0 {
        Ok(ImportRowsView::none())
    } else {
        match csv_records(headers, records.drop_last()) {
            Ok(rows) => match records.last() {
                Ok(record) => Ok(rows.and(csv_row(headers, record), records.len() as usize)),
                Err(fault) => Err(row_failure(records.len() as int, fault)),
            },
            Err(failure) => Err(failure),
        }
    }
}

pub open spec fn no_title_column(headers: Seq<Seq<char>>) -> Seq<char> {
    "CSV file must have a 'title' column. Found columns: "@ + text::join_with(headers, ", "@)
}

/// What is made of a CSV file.
pub open spec fn csv_rows(contents: Result<CsvTableView, Seq<char>>) -> Result<
    ImportRowsView,
    FailureView,
> {
    match contents {
        Ok(table) => if column(table.headers, "title"@) is Some {
            csv_records(table.headers, table.records)
        } else {
            Err(FailureView::message(no_title_column(table.headers)))
        },
        Err(fault) => Err(FailureView::message(fault)),
    }
}

pub open spec fn rows_result(
    r: Result<ImportRows, Failure>,
    expected: Result<ImportRowsView, FailureView>,
) -> bool {
    match expected {
        Ok(rows) => r is Ok && r->Ok_0@ == rows,
        Err(failure) => r is Err && r->Err_0@ == failure,
    }
}

fn find_column(headers: &Vec<String>, name: &str) -> (r: Option<usize>)
    ensures
        match r {
            Some(i) => i < headers@.len() && column(headers.deep_view(), name@) == Some(i as int),
            None => column(headers.deep_view(), name@) is None,
        },
{
    let ghost all = headers.deep_view();
    let mut i: usize = 0;
    assert(all.skip(0) =~= all);
    while i < headers.len()
        invariant
            i <= headers@.len(),
            all == headers.deep_view(),
            all.len() == headers@.len(),
            column(all, name@) == (match column(all.skip(i as int), name@) {
                Some(k) => Some(k + i as int),
                None => None::<int>,
            }),
        decreases headers@.len() - i,
    {
        assert(all.skip(i as int)[0] == headers@[i as int]@);
        if eq_ignore_case(headers[i].as_str(), name) {
            return Some(i);
        }
        assert(all.skip(i as int).drop_first() =~= all.skip(i + 1));
        i += 1;
    }
    None
}

fn get_field(headers: &Vec<String>, record: &Vec<String>, name: &str) -> (r: Option<String>)
    ensures
        r.deep_view() == csv_field(headers.deep_view(), record.deep_view(), name@),
{
    match find_column(headers, name) {
        Some(i) => if i < record.len() && !record[i].as_str().is_empty() {
            Some(record[i].clone())
        } else {
            None
        },
        None => None,
    }
}

fn row_of_record(headers: &Vec<String>, record: &Vec<String>) -> (r: Option<ImportRow>)
    ensures
        match r {
            Some(row) => csv_row(headers.deep_view(), record.deep_view()) == Some(row@),
            None => csv_row(headers.deep_view(), record.deep_view()) is None,
        },
{
    let title = match get_field(headers, record, "title") {
        Some(title) => title,
        None => {
            return None;
        },
    };
    let priority = match get_field(headers, record, "priority") {
        Some(p) => text::parse_i64(p.as_str()),
        None => None,
    };
    let labels = match get_field(headers, record, "labels") {
        Some(l) => text::split_list(l.as_str()),
        None => no_texts(),
    };
    let estimate = match get_field(headers, record, "estimate") {
        Some(e) => Some(Estimate::Text(e)),
        None => None,
    };
    let due_date = match get_field(headers, record, "dueDate") {
        Some(d) => Some(d),
        None => get_field(headers, record, "due_date"),
    };
    Some(
        ImportRow {
            title,
            description: get_field(headers, record, "description"),
            priority,
            status: get_field(headers, record, "status"),
            assignee: get_field(headers, record, "assignee"),
            labels,
            estimate,
            due_date,
        },
    )
}

/// The rows of a CSV table. It must have a title column.
pub fn csv_table_rows(table: &CsvTable) -> (r: Result<ImportRows, Failure>)
    ensures
        rows_result(r, csv_rows(Ok::<CsvTableView, Seq<char>>(table@))),
{
    if find_column(&table.headers, "title").is_none() {
        return Err(
            Failure::message(
                joined2(
                    "CSV file must have a 'title' column. Found columns: ",
                    text::join_texts(&table.headers, ", ").as_str(),
                ).as_str(),
            ),
        );
    }
    let ghost headers = table@.headers;
    let ghost records = table@.records;
    let mut rows = empty_rows();
    let mut i: usize = 0;
    assert(records.take(0).len() == 0);
    while i < table.records.len()
        invariant
            i <= table.records@.len(),
            headers == table@.headers,
            column(headers, "title"@) is Some,
            records == table@.records,
            records.len() == table.records@.len(),
            csv_records(headers, records.take(i as int)) == Ok::<ImportRowsView, FailureView>(
                rows@,
            ),
        decreases table.records@.len() - i,
    {
        let ghost upto = records.take(i + 1);
        assert(upto.drop_last() =~= records.take(i as int));
        assert(upto.last() == records[i as int]);
        match &table.records[i] {
            Ok(record) => {
                let row = row_of_record(&table.headers, record);
                add_row(&mut rows, row, i + 1);
            },
            Err(fault) => {
                proof {
                    csv_records_fail_early(headers, records, i + 1);
                }
                let context = joined2(
                    "Failed to parse CSV row ",
                    count_text(i + 1).as_str(),
                );
                return Err(Failure::message(fault.as_str()).with_context(context.as_str()));
            },
        }
        i += 1;
    }
    assert(records.take(i as int) =~= records);
    Ok(rows)
}

/// A failure in the first records fails the import.
proof fn csv_records_fail_early(
    headers: Seq<Seq<char>>,
    records: Seq<Result<Seq<Seq<char>>, Seq<char>>>,
    count: int,
)
    requires
        0 <= count <= records.len(),
        csv_records(headers, records.take(count)) is Err,
    ensures
        csv_records(headers, records) == csv_records(headers, records.take(count)),
    decreases records.len() - count,
{
    if count < records.len() {
        let longer = records.take(count + 1);
        assert(longer.drop_last() =~= records.take(count));
        csv_records_fail_early(headers, records, count + 1);
    } else {
        assert(records.take(count) =~= records);
    }
}

/// The rows of a CSV file, from its bytes.
pub fn parse_csv_rows(bytes: &[u8]) -> (r: Result<ImportRows, Failure>)
    ensures
        rows_result(r, csv_rows(csv_contents(bytes@))),
{
    match read_csv(bytes) {
        Ok(table) => csv_table_rows(&table),
        Err(fault) => Err(Failure::message(fault.as_str())),
    }
}

/// The texts in a list of values.
pub open spec fn texts_in(items: Seq<JsonView>) -> Seq<Seq<char>>
    decreases items.len(),
{
    if items.len() == 0 {
        Seq::empty()
    } else {
        let before = texts_in(items.drop_last());
        match items.last().as_str() {
            Some(s) => before.push(s),
            None => before,
        }
    }
}

pub open spec fn json_labels(labels: JsonView) -> Seq<Seq<char>> {
    match labels {
        JsonView::Array(items) => texts_in(items),
        JsonView::Text(s) => text::list_items(s),
        _ => Seq::empty(),
    }
}

/// What is made of a JSON object; nothing where it has no title.
pub open spec fn json_row(item: JsonView) -> Option<ImportRowView> {
    match item.at("title"@).as_str() {
        Some(title) => if title.len() > 0 {
            Some(
                ImportRowView {
                    title,
                    description: item.at("description"@).as_str(),
                    priority: item.at("priority"@).as_i64(),
                    status: item.at("status"@).as_str(),
                    assignee: item.at("assignee"@).as_str(),
                    labels: json_labels(item.at("labels"@)),
                    estimate: match item.at("estimate"@) {
                        JsonView::Number(n) => Some(EstimateView::Number(n)),
                        _ => None,
                    },
                    due_date: first_of(
                        item.at("dueDate"@).as_str(),
                        item.at("due_date"@).as_str(),
                    ),
                },
            )
        } else {
            None
        },
        None => None,
    }
}

pub open spec fn json_items(items: Seq<JsonView>) -> ImportRowsView
    decreases items.len(),
{
    if items.len() == 0 {
        ImportRowsView::none()
    } else {
        json_items(items.drop_last()).and(json_row(items.last()), items.len() as usize)
    }
}

pub const NOT_ISSUES: &'static str =
    "JSON file must contain an array of issue objects or a single object";

/// What is made of the value in a JSON file: an array of objects, or one object.
pub open spec fn json_data_rows(data: JsonView) -> Result<ImportRowsView, FailureView> {
    match data {
        JsonView::Array(items) => Ok(json_items(items)),
        JsonView::Object(_) => Ok(json_items(seq![data])),
        _ => Err(FailureView::message(NOT_ISSUES@)),
    }
}

pub open spec fn json_unreadable(file: Seq<char>, fault: Seq<char>) -> FailureView {
    FailureView::message(fault).with_context("Failed to parse JSON file: "@ + file)
}

pub open spec fn json_rows(parsed: Result<JsonView, Seq<char>>, file: Seq<char>) -> Result<
    ImportRowsView,
    FailureView,
> {
    match parsed {
        Ok(data) => json_data_rows(data),
        Err(fault) => Err(json_unreadable(file, fault)),
    }
}

fn collect_texts(items: &[Json]) -> (r: Vec<String>)
    ensures
        r.deep_view() == texts_in(json::json_views(items@)),
{
    let ghost all = json::json_views(items@);
    let mut out: Vec<String> = Vec::new();
    let mut i: usize = 0;
    assert(all.take(0).len() == 0);
    assert(out.deep_view() =~= texts_in(all.take(0)));
    while i < items.len()
        invariant
            i <= items@.len(),
            all == json::json_views(items@),
            out.deep_view() == texts_in(all.take(i as int)),
        decreases items@.len() - i,
    {
        assert(all.take(i + 1).drop_last() =~= all.take(i as int));
        assert(all.take(i + 1).last() == items@[i as int]@);
        let ghost before = out.deep_view();
        match items[i].as_text() {
            Some(s) => {
                out.push(s);
                assert(out.deep_view() =~= before.push(s@));
            },
            None => {},
        }
        i += 1;
    }
    assert(all.take(i as int) =~= all);
    out
}

fn row_of_item(item: &Json) -> (r: Option<ImportRow>)
    ensures
        match r {
            Some(row) => json_row(item@) == Some(row@),
            None => json_row(item@) is None,
        },
{
    let title = match item.at("title").as_text() {
        Some(title) => title,
        None => {
            return None;
        },
    };
    if title.as_str().is_empty() {
        return None;
    }
    let labels = match item.at("labels") {
        Json::Array(items) => {
            assert(json::json_views(items@) =~= item@.at("labels"@)->Array_0);
            collect_texts(items.as_slice())
        },
        Json::Text(s) => text::split_list(s.as_str()),
        _ => no_texts(),
    };
    let estimate = match item.at("estimate") {
        Json::Number(n) => Some(Estimate::Number(json::copy_number(n))),
        _ => None,
    };
    let due_date = match item.at("dueDate").as_text() {
        Some(d) => Some(d),
        None => item.at("due_date").as_text(),
    };
    Some(
        ImportRow {
            title,
            description: item.at("description").as_text(),
            priority: item.at("priority").as_i64(),
            status: item.at("status").as_text(),
            assignee: item.at("assignee").as_text(),
            labels,
            estimate,
            due_date,
        },
    )
}

fn rows_of_items(items: &[Json]) -> (r: ImportRows)
    ensures
        r@ == json_items(json::json_views(items@)),
{
    let ghost all = json::json_views(items@);
    let mut rows = empty_rows();
    let mut i: usize = 0;
    assert(all.take(0).len() == 0);
    while i < items.len()
        invariant
            i <= items@.len(),
            all == json::json_views(items@),
            rows@ == json_items(all.take(i as int)),
        decreases items@.len() - i,
    {
        assert(all.take(i + 1).drop_last() =~= all.take(i as int));
        assert(all.take(i + 1).last() == items@[i as int]@);
        let row = row_of_item(&items[i]);
        add_row(&mut rows, row, i + 1);
        i += 1;
    }
    assert(all.take(i as int) =~= all);
    rows
}

/// The rows of the value in a JSON file.
pub fn json_value_rows(data: Json) -> (r: Result<ImportRows, Failure>)
    ensures
        rows_result(r, json_data_rows(data@)),
{
    if data.is_array() {
        return Ok(rows_of_items(data.items()));
    }
    if data.is_object() {
        let ghost whole = data@;
        let mut one: Vec<Json> = Vec::new();
        one.push(data);
        assert(json::json_views(one@) =~= seq![whole]);
        return Ok(rows_of_items(one.as_slice()));
    }
    Err(Failure::message(NOT_ISSUES))
}

/// The rows of a JSON file, from its text.
pub fn parse_json_rows(content: &str, file: &str) -> (r: Result<ImportRows, Failure>)
    ensures
        rows_result(r, json_rows(json_text::parsed_json(content@), file@)),
{
    match json_text::parse_json(content) {
        Ok(data) => json_value_rows(data),
        Err(fault) => Err(
            Failure::message(fault.as_str()).with_context(
                joined2("Failed to parse JSON file: ", file).as_str(),
            ),
        ),
    }
}

/// Every row of a file is imported or skipped: none is lost, and none comes
/// without a title.
pub proof fn csv_rows_account_for_all_records(
    headers: Seq<Seq<char>>,
    records: Seq<Result<Seq<Seq<char>>, Seq<char>>>,
)
    requires
        csv_records(headers, records) is Ok,
    ensures
        ({
            let rows = csv_records(headers, records)->Ok_0;
            &&& rows.rows.len() + rows.skipped.len() == records.len()
            &&& forall|i: int| 0 <= i < rows.rows.len() ==> (#[trigger] rows.rows[i]).title.len() > 0
        }),
    decreases records.len(),
{
    if records.len() > 0 {
        csv_rows_account_for_all_records(headers, records.drop_last());
    }
}

/// Every item of a file is imported or skipped: none is lost, and none comes
/// without a title.
pub proof fn json_rows_account_for_all_items(items: Seq<JsonView>)
    ensures
        json_items(items).rows.len() + json_items(items).skipped.len() == items.len(),
        forall|i: int|
            0 <= i < json_items(items).rows.len() ==> (#[trigger] json_items(
                items,
            ).rows[i]).title.len() > 0,
    decreases items.len(),
{
    if items.len() > 0 {
        json_rows_account_for_all_items(items.drop_last());
    }
}

/// `issue` or `issues`, for a count.
pub open spec fn issues(count: int) -> Seq<char> {
    if count == 1 {
        " issue"@
    } else {
        " issues"@
    }
}

fn issues_text(count: usize) -> (r: &'static str)
    ensures
        r@ == issues(count as int),
{
    if count == 1 {
        " issue"
    } else {
        " issues"
    }
}

pub open spec fn heading(total: nat, team: Seq<char>) -> Seq<char> {
    "Importing "@ + text::decimal(total) + (issues(total as int) + " into team "@) + team + "..."@
}

/// The line that announces an import.
pub fn import_heading(total: usize, team: &str) -> (r: String)
    ensures
        r@ == heading(total as nat, team@),
{
    joined5(
        "Importing ",
        count_text(total).as_str(),
        joined2(issues_text(total), " into team ").as_str(),
        team,
        "...",
    )
}

/// The place of a row among all of them.
pub open spec fn place(index: int, total: int) -> Seq<char> {
    "["@ + text::decimal((index + 1) as nat) + "/"@ + text::decimal(total as nat) + "]"@
}

pub fn place_text(index: usize, total: usize) -> (r: String)
    requires
        index < total,
    ensures
        r@ == place(index as int, total as int),
{
    joined5("[", count_text(index + 1).as_str(), "/", count_text(total).as_str(), "]")
}

/// The start of a long description.
pub open spec fn description_preview(description: Seq<char>) -> Seq<char> {
    if utf8::encode_utf8(description).len() > 80 {
        text::head(description, 80) + "..."@
    } else {
        description
    }
}

fn preview_of(description: &str) -> (r: String)
    ensures
        r@ == description_preview(description@),
{
    if description.as_bytes().len() > 80 {
        joined2(text::first_chars(description, 80).as_str(), "...")
    } else {
        description.to_string()
    }
}

/// A labelled line, where there is something to show.
pub open spec fn labelled(label: Seq<char>, value: Option<Seq<char>>) -> Seq<Seq<char>> {
    match value {
        Some(value) => seq![label + value],
        None => Seq::empty(),
    }
}

/// The lines that preview a row, under its title; the estimate is shown as given.
pub open spec fn preview(row: ImportRowView, estimate: Option<Seq<char>>) -> Seq<Seq<char>> {
    labelled(
        "    Description: "@,
        match row.description {
            Some(description) => Some(description_preview(description)),
            None => None,
        },
    ) + labelled(
        "    Priority:    "@,
        match row.priority {
            Some(p) => Some(text::signed_decimal(p as int)),
            None => None,
        },
    ) + labelled("    Status:      "@, row.status) + labelled("    Assignee:    "@, row.assignee)
        + labelled(
        "    Labels:      "@,
        if row.labels.len() == 0 {
            None
        } else {
            Some(text::join_with(row.labels, ", "@))
        },
    ) + labelled("    Estimate:    "@, estimate) + labelled("    Due Date:    "@, row.due_date)
}

fn add_line(lines: &mut Vec<String>, label: &str, value: &Option<String>)
    ensures
        final(lines).deep_view() == old(lines).deep_view() + labelled(label@, value.deep_view()),
{
    match value {
        Some(value) => {
            lines.push(joined2(label, value.as_str()));
            assert(lines.deep_view() =~= old(lines).deep_view() + seq![label@ + value@]);
        },
        None => {
            assert(lines.deep_view() =~= old(lines).deep_view() + Seq::<Seq<char>>::empty());
        },
    }
}

/// The lines that preview a row in a dry run.
pub fn preview_lines(row: &ImportRow, estimate: &Option<String>) -> (r: Vec<String>)
    ensures
        r.deep_view() == preview(row@, estimate.deep_view()),
{
    let mut lines = no_texts();
    let description = match &row.description {
        Some(description) => Some(preview_of(description.as_str())),
        None => None,
    };
    let priority = match row.priority {
        Some(p) => Some(text::signed_text(p)),
        None => None,
    };
    let labels = if row.labels.len() == 0 {
        None
    } else {
        Some(text::join_texts(&row.labels, ", "))
    };
    add_line(&mut lines, "    Description: ", &description);
    add_line(&mut lines, "    Priority:    ", &priority);
    add_line(&mut lines, "    Status:      ", &row.status);
    add_line(&mut lines, "    Assignee:    ", &row.assignee);
    add_line(&mut lines, "    Labels:      ", &labels);
    add_line(&mut lines, "    Estimate:    ", estimate);
    add_line(&mut lines, "    Due Date:    ", &row.due_date);
    assert(lines.deep_view() =~= preview(row@, estimate.deep_view()));
    lines
}

/// What the names in a row were resolved to: an ID, or why there is none.
pub struct Resolved {
    pub state: Option<Result<String, Failure>>,
    pub assignee: Option<Result<String, Failure>>,
    /// One for each label of the row.
    pub labels: Vec<Result<String, Failure>>,
    /// The estimate as a number.
    pub estimate: Option<Json>,
    /// The due date in the form that the API takes.
    pub due_date: Option<String>,
}

pub open spec fn ids_of(results: Seq<Result<String, Failure>>) -> Seq<Seq<char>>
    decreases results.len(),
{
    if results.len() == 0 {
        Seq::empty()
    } else {
        let before = ids_of(results.drop_last());
        match results.last() {
            Ok(id) => before.push(id@),
            Err(_) => before,
        }
    }
}

/// The warning that a name was not resolved.
pub open spec fn warning(at: Seq<char>, what: Seq<char>, name: Seq<char>, failure: FailureView) -> Seq<
    char,
> {
    at + (" Warning: Could not resolve "@ + what + " '"@) + name + "': "@ + failure.shown()
}

pub open spec fn warnings_for(
    at: Seq<char>,
    what: Seq<char>,
    names: Seq<Seq<char>>,
    results: Seq<Result<String, Failure>>,
) -> Seq<Seq<char>>
    decreases results.len(),
{
    if results.len() == 0 {
        Seq::empty()
    } else {
        let before = warnings_for(at, what, names, results.drop_last());
        match results.last() {
            Ok(_) => before,
            Err(failure) => before.push(
                warning(at, what, names[results.len() - 1], failure@),
            ),
        }
    }
}

pub open spec fn one_name(name: Option<Seq<char>>) -> Seq<Seq<char>> {
    match name {
        Some(name) => seq![name],
        None => Seq::empty(),
    }
}

pub open spec fn one_result(result: Option<Result<String, Failure>>) -> Seq<
    Result<String, Failure>,
> {
    match result {
        Some(result) => seq![result],
        None => Seq::empty(),
    }
}

/// The ID that a name was resolved to.
pub open spec fn resolved_id(result: Option<Result<String, Failure>>) -> Option<Seq<char>> {
    match result {
        Some(Ok(id)) => Some(id@),
        _ => None,
    }
}

/// A field set where there is a value.
pub open spec fn with_value(object: JsonView, key: Seq<char>, value: Option<JsonView>) -> JsonView {
    match value {
        Some(value) => object.with(key, value),
        None => object,
    }
}

/// The input that creates the issue of a row. What could not be resolved is left
/// out; a due date in no known form is passed on as it is.
pub open spec fn issue_input(row: ImportRowView, team_id: Seq<char>, resolved: Resolved) -> JsonView {
    let ids = ids_of(resolved.labels@);
    let base = JsonView::object().with("title"@, JsonView::Text(row.title)).with(
        "teamId"@,
        JsonView::Text(team_id),
    ).with_some("description"@, row.description);
    let with_priority = with_value(
        base,
        "priority"@,
        match row.priority {
            Some(p) => Some(JsonView::integer(p)),
            None => None,
        },
    );
    let named = with_priority.with_some("stateId"@, resolved_id(resolved.state)).with_some(
        "assigneeId"@,
        resolved_id(resolved.assignee),
    );
    let labelled = if ids.len() == 0 {
        named
    } else {
        named.with("labelIds"@, JsonView::texts(ids))
    };
    with_value(labelled, "estimate"@, resolved.estimate.deep_view()).with_some(
        "dueDate"@,
        match row.due_date {
            Some(d) => Some(
                match resolved.due_date.deep_view() {
                    Some(parsed) => parsed,
                    None => d,
                },
            ),
            None => None,
        },
    )
}

/// The warnings for what could not be resolved: status, assignee, labels.
pub open spec fn row_warnings(
    row: ImportRowView,
    resolved: Resolved,
    index: int,
    total: int,
) -> Seq<Seq<char>> {
    let at = place(index, total);
    warnings_for(at, "status"@, one_name(row.status), one_result(resolved.state)) + warnings_for(
        at,
        "assignee"@,
        one_name(row.assignee),
        one_result(resolved.assignee),
    ) + warnings_for(at, "label"@, row.labels, resolved.labels@)
}

/// The names of a row and what they were resolved to belong together.
pub open spec fn resolves(row: ImportRowView, resolved: Resolved) -> bool {
    &&& resolved.state is Some <==> row.status is Some
    &&& resolved.assignee is Some <==> row.assignee is Some
    &&& resolved.labels@.len() == row.labels.len()
}

fn id_text(result: &Option<Result<String, Failure>>) -> (r: Option<String>)
    ensures
        r.deep_view() == resolved_id(*result),
{
    match result {
        Some(Ok(id)) => Some(id.clone()),
        _ => None,
    }
}

fn collect_ids(results: &Vec<Result<String, Failure>>) -> (r: Vec<String>)
    ensures
        r.deep_view() == ids_of(results@),
{
    let mut out = no_texts();
    let mut i: usize = 0;
    assert(results@.take(0).len() == 0);
    while i < results.len()
        invariant
            i <= results@.len(),
            out.deep_view() == ids_of(results@.take(i as int)),
        decreases results@.len() - i,
    {
        assert(results@.take(i + 1).drop_last() =~= results@.take(i as int));
        let ghost before = out.deep_view();
        match &results[i] {
            Ok(id) => {
                out.push(id.clone());
                assert(out.deep_view() =~= before.push(id@));
            },
            Err(_) => {},
        }
        i += 1;
    }
    assert(results@.take(i as int) =~= results@);
    out
}

fn warning_text(at: &str, what: &str, name: &str, failure: &Failure) -> (r: String)
    ensures
        r@ == warning(at@, what@, name@, failure@),
{
    joined5(
        at,
        joined3(" Warning: Could not resolve ", what, " '").as_str(),
        name,
        "': ",
        failure.to_string().as_str(),
    )
}

fn warn_of_one(
    lines: &mut Vec<String>,
    at: &str,
    what: &str,
    name: &Option<String>,
    result: &Option<Result<String, Failure>>,
)
    requires
        name is Some <==> result is Some,
    ensures
        final(lines).deep_view() == old(lines).deep_view() + warnings_for(
            at@,
            what@,
            one_name(name.deep_view()),
            one_result(*result),
        ),
{
    reveal_with_fuel(warnings_for, 2);
    let ghost names = one_name(name.deep_view());
    let ghost results = one_result(*result);
    match (name, result) {
        (Some(name), Some(Err(failure))) => {
            lines.push(warning_text(at, what, name.as_str(), failure));
            assert(results.drop_last() =~= Seq::<Result<String, Failure>>::empty());
            assert(lines.deep_view() =~= old(lines).deep_view() + seq![
                warning(at@, what@, name@, failure@),
            ]);
            assert(warnings_for(at@, what@, names, results) =~= seq![
                warning(at@, what@, name@, failure@),
            ]);
        },
        _ => {
            assert(warnings_for(at@, what@, names, results) =~= Seq::<Seq<char>>::empty()) by {
                if results.len() == 1 {
                    assert(results.drop_last() =~= Seq::<Result<String, Failure>>::empty());
                }
            }
            assert(lines.deep_view() =~= old(lines).deep_view() + Seq::<Seq<char>>::empty());
        },
    }
}

fn warn_of_labels(
    lines: &mut Vec<String>,
    at: &str,
    names: &Vec<String>,
    results: &Vec<Result<String, Failure>>,
)
    requires
        results@.len() == names@.len(),
    ensures
        final(lines).deep_view() == old(lines).deep_view() + warnings_for(
            at@,
            "label"@,
            names.deep_view(),
            results@,
        ),
{
    let ghost start = lines.deep_view();
    let mut i: usize = 0;
    assert(results@.take(0).len() == 0);
    assert(lines.deep_view() =~= start + Seq::<Seq<char>>::empty());
    while i < results.len()
        invariant
            i <= results@.len(),
            results@.len() == names@.len(),
            lines.deep_view() == start + warnings_for(
                at@,
                "label"@,
                names.deep_view(),
                results@.take(i as int),
            ),
        decreases results@.len() - i,
    {
        assert(results@.take(i + 1).drop_last() =~= results@.take(i as int));
        let ghost before = lines.deep_view();
        match &results[i] {
            Ok(_) => {},
            Err(failure) => {
                lines.push(warning_text(at, "label", names[i].as_str(), failure));
                assert(names.deep_view()[i as int] == names@[i as int]@);
                assert(lines.deep_view() =~= before.push(
                    warning(at@, "label"@, names.deep_view()[i as int], failure@),
                ));
            },
        }
        i += 1;
        assert(lines.deep_view() =~= start + warnings_for(
            at@,
            "label"@,
            names.deep_view(),
            results@.take(i as int),
        ));
    }
    assert(results@.take(i as int) =~= results@);
}

/// The input of a row, and the warnings for what could not be resolved.
pub fn build_issue_input(
    row: &ImportRow,
    team_id: &str,
    resolved: &Resolved,
    index: usize,
    total: usize,
) -> (r: (Json, Vec<String>))
    requires
        index < total,
        resolves(row@, *resolved),
    ensures
        r.0@ == issue_input(row@, team_id@, *resolved),
        r.1.deep_view() == row_warnings(row@, *resolved, index as int, total as int),
{
    let mut input = Json::object().with("title", Json::text(row.title.as_str())).with(
        "teamId",
        Json::text(team_id),
    ).with_some("description", &row.description);
    match row.priority {
        Some(p) => {
            input = input.with("priority", Json::integer(p));
        },
        None => {},
    }
    input = input.with_some("stateId", &id_text(&resolved.state));
    input = input.with_some("assigneeId", &id_text(&resolved.assignee));
    let label_ids = collect_ids(&resolved.labels);
    assert(label_ids.deep_view().len() == label_ids@.len());
    if label_ids.len() > 0 {
        input = input.with("labelIds", Json::texts(&label_ids));
    }
    match &resolved.estimate {
        Some(estimate) => {
            input = input.with("estimate", estimate.copy());
        },
        None => {},
    }
    match &row.due_date {
        Some(d) => {
            let date = match &resolved.due_date {
                Some(parsed) => parsed.clone(),
                None => d.clone(),
            };
            input = input.with("dueDate", Json::Text(date));
        },
        None => {},
    }
    let at = place_text(index, total);
    let mut lines = no_texts();
    warn_of_one(&mut lines, at.as_str(), "status", &row.status, &resolved.state);
    warn_of_one(&mut lines, at.as_str(), "assignee", &row.assignee, &resolved.assignee);
    warn_of_labels(&mut lines, at.as_str(), &row.labels, &resolved.labels);
    assert(lines.deep_view() =~= row_warnings(row@, *resolved, index as int, total as int));
    (input, lines)
}

pub const CREATE_MUTATION: &'static str = r#"
        mutation($input: IssueCreateInput!) {
            issueCreate(input: $input) {
                success
                issue {
                    id
                    identifier
                    title
                    url
                }
            }
        }
    "#;

pub open spec fn creation(input: JsonView) -> RequestView {
    RequestView::with(CREATE_MUTATION@, JsonView::object().with("input"@, input))
}

/// The request that creates an issue.
pub fn create_request(input: Json) -> (r: Request)
    ensures
        r@ == creation(input@),
{
    Request::with(CREATE_MUTATION, Json::object().with("input", input))
}

/// What is done with the rows of a file.
#[derive(Debug, Clone, Copy, PartialEq, Eq, Structural)]
pub enum ImportPlan {
    /// There is no row.
    Nothing,
    /// The rows are only shown.
    Preview,
    /// An issue is created for each row.
    Create,
}

pub open spec fn plan(rows: nat, dry_run: bool) -> ImportPlan {
    if rows == 0 {
        ImportPlan::Nothing
    } else if dry_run {
        ImportPlan::Preview
    } else {
        ImportPlan::Create
    }
}

/// Decides on an import: nothing is created where there is no row, or in a dry run.
pub fn import_plan(rows: usize, dry_run: bool) -> (r: ImportPlan)
    ensures
        r == plan(rows as nat, dry_run),
{
    if rows == 0 {
        ImportPlan::Nothing
    } else if dry_run {
        ImportPlan::Preview
    } else {
        ImportPlan::Create
    }
}

/// Each row has what its names were resolved to.
pub open spec fn all_resolve(rows: Seq<ImportRow>, resolved: Seq<Resolved>) -> bool {
    &&& rows.len() == resolved.len()
    &&& forall|i: int| 0 <= i < rows.len() ==> #[trigger] resolves(rows[i]@, resolved[i])
}

/// The requests for rows, one for each and in their order.
pub open spec fn creations(rows: Seq<ImportRow>, team_id: Seq<char>, resolved: Seq<Resolved>) -> Seq<
    RequestView,
> {
    Seq::new(
        rows.len(),
        |i: int| creation(issue_input(rows[i]@, team_id, resolved[i])),
    )
}

/// The warnings for the first rows of a file.
pub open spec fn all_warnings(
    rows: Seq<ImportRow>,
    resolved: Seq<Resolved>,
    count: int,
) -> Seq<Seq<char>>
    decreases count,
{
    if count <= 0 {
        Seq::empty()
    } else {
        all_warnings(rows, resolved, count - 1) + row_warnings(
            rows[count - 1]@,
            resolved[count - 1],
            count - 1,
            rows.len() as int,
        )
    }
}

pub open spec fn request_views(requests: Seq<Request>) -> Seq<RequestView> {
    Seq::new(requests.len(), |i: int| requests[i]@)
}

/// The requests that create the issues of all rows, one for each row and in their
/// order, and the warnings for what could not be resolved.
pub fn create_requests(rows: &Vec<ImportRow>, team_id: &str, resolved: &Vec<Resolved>) -> (r: (
    Vec<Request>,
    Vec<String>,
))
    requires
        all_resolve(rows@, resolved@),
    ensures
        request_views(r.0@) == creations(rows@, team_id@, resolved@),
        r.1.deep_view() == all_warnings(rows@, resolved@, rows@.len() as int),
{
    let mut requests: Vec<Request> = Vec::new();
    let mut warnings = no_texts();
    let mut i: usize = 0;
    while i < rows.len()
        invariant
            i <= rows@.len(),
            all_resolve(rows@, resolved@),
            requests@.len() == i,
            forall|k: int|
                0 <= k < i ==> (#[trigger] requests@[k])@ == creation(
                    issue_input(rows@[k]@, team_id@, resolved@[k]),
                ),
            warnings.deep_view() == all_warnings(rows@, resolved@, i as int),
        decreases rows@.len() - i,
    {
        assert(resolves(rows@[i as int]@, resolved@[i as int]));
        let ghost before = warnings.deep_view();
        let (input, lines) = build_issue_input(&rows[i], team_id, &resolved[i], i, rows.len());
        let ghost added = lines.deep_view();
        let mut lines = lines;
        requests.push(create_request(input));
        warnings.append(&mut lines);
        assert(warnings.deep_view() =~= before + added);
        i += 1;
    }
    assert(request_views(requests@) =~= creations(rows@, team_id@, resolved@));
    (requests, warnings)
}

proof fn other_field_is_kept(
    object: JsonView,
    key: Seq<char>,
    value: Option<JsonView>,
    other: Seq<char>,
)
    requires
        object is Object,
        key.len() > 6,
        other.len() <= 6,
    ensures
        with_value(object, key, value) is Object,
        with_value(object, key, value).at(other) == object.at(other),
{
    match value {
        Some(value) => {
            json::field_set_is_read_back(object, key, value, other);
        },
        None => {},
    }
}

pub open spec fn text_value(value: Option<Seq<char>>) -> Option<JsonView> {
    match value {
        Some(s) => Some(JsonView::Text(s)),
        None => None,
    }
}

proof fn short_field_is_kept(
    row: ImportRowView,
    team_id: Seq<char>,
    resolved: Resolved,
    other: Seq<char>,
)
    requires
        other.len() <= 6,
    ensures
        issue_input(row, team_id, resolved).at(other) == JsonView::object().with(
            "title"@,
            JsonView::Text(row.title),
        ).with("teamId"@, JsonView::Text(team_id)).at(other),
{
    reveal_strlit("description");
    reveal_strlit("priority");
    reveal_strlit("stateId");
    reveal_strlit("assigneeId");
    reveal_strlit("labelIds");
    reveal_strlit("estimate");
    reveal_strlit("dueDate");
    let ids = ids_of(resolved.labels@);
    let start = JsonView::object().with("title"@, JsonView::Text(row.title)).with(
        "teamId"@,
        JsonView::Text(team_id),
    );
    other_field_is_kept(start, "description"@, text_value(row.description), other);
    let described = start.with_some("description"@, row.description);
    let priority = match row.priority {
        Some(p) => Some(JsonView::integer(p)),
        None => None,
    };
    other_field_is_kept(described, "priority"@, priority, other);
    let ranked = with_value(described, "priority"@, priority);
    other_field_is_kept(ranked, "stateId"@, text_value(resolved_id(resolved.state)), other);
    let in_state = ranked.with_some("stateId"@, resolved_id(resolved.state));
    let assignee = resolved_id(resolved.assignee);
    other_field_is_kept(in_state, "assigneeId"@, text_value(assignee), other);
    let named = in_state.with_some("assigneeId"@, assignee);
    other_field_is_kept(named, "labelIds"@, Some(JsonView::texts(ids)), other);
    let labelled = if ids.len() == 0 {
        named
    } else {
        named.with("labelIds"@, JsonView::texts(ids))
    };
    let estimate = resolved.estimate.deep_view();
    other_field_is_kept(labelled, "estimate"@, estimate, other);
    let estimated = with_value(labelled, "estimate"@, estimate);
    let due = match row.due_date {
        Some(d) => Some(
            match resolved.due_date.deep_view() {
                Some(parsed) => parsed,
                None => d,
            },
        ),
        None => None,
    };
    other_field_is_kept(estimated, "dueDate"@, text_value(due), other);
}

/// An import that goes ahead sends as many requests as there are rows, and the
/// request of a row creates an issue with its title in the team.
pub proof fn one_issue_is_created_for_each_row(
    rows: Seq<ImportRow>,
    team_id: Seq<char>,
    resolved: Seq<Resolved>,
    i: int,
)
    requires
        all_resolve(rows, resolved),
        0 <= i < rows.len(),
    ensures
        creations(rows, team_id, resolved).len() == rows.len(),
        creations(rows, team_id, resolved)[i] == creation(
            issue_input(rows[i]@, team_id, resolved[i]),
        ),
        issue_input(rows[i]@, team_id, resolved[i]).at("title"@) == JsonView::Text(rows[i]@.title),
        issue_input(rows[i]@, team_id, resolved[i]).at("teamId"@) == JsonView::Text(team_id),
{
    reveal_strlit("title");
    reveal_strlit("teamId");
    let titled = JsonView::object().with("title"@, JsonView::Text(rows[i]@.title));
    json::field_set_is_read_back(
        JsonView::object(),
        "title"@,
        JsonView::Text(rows[i]@.title),
        "title"@,
    );
    json::field_set_is_read_back(titled, "teamId"@, JsonView::Text(team_id), "title"@);
    short_field_is_kept(rows[i]@, team_id, resolved[i], "title"@);
    short_field_is_kept(rows[i]@, team_id, resolved[i], "teamId"@);
}

/// What the answer to a create request says.
#[derive(Debug)]
pub enum CreateAnswer {
    Created { identifier: String, url: String },
    /// It was refused, perhaps with a reason.
    Refused(Option<Json>),
    Failed(String),
}

#[verifier::ext_equal]
pub enum CreateAnswerView {
    Created { identifier: Seq<char>, url: Seq<char> },
    Refused(Option<JsonView>),
    Failed(Seq<char>),
}

impl View for CreateAnswer {
    type V = CreateAnswerView;

    open spec fn view(&self) -> CreateAnswerView {
        match self {
            CreateAnswer::Created { identifier, url } => CreateAnswerView::Created {
                identifier: identifier@,
                url: url@,
            },
            CreateAnswer::Refused(reason) => CreateAnswerView::Refused(reason.deep_view()),
            CreateAnswer::Failed(message) => CreateAnswerView::Failed(message@),
        }
    }
}

pub open spec fn create_answer(answer: Result<Json, Failure>) -> CreateAnswerView {
    match answer {
        Ok(response) => {
            let created = response@.at("data"@).at("issueCreate"@);
            if created.at("success"@).is_true() {
                CreateAnswerView::Created {
                    identifier: created.at("issue"@).at("identifier"@).text_or("???"@),
                    url: created.at("issue"@).at("url"@).text_or(""@),
                }
            } else {
                CreateAnswerView::Refused(
                    match created.get("error"@) {
                        Some(error) => Some(error),
                        None => created.get("errors"@),
                    },
                )
            }
        },
        Err(failure) => CreateAnswerView::Failed(failure@.shown()),
    }
}

/// Reads the answer to a create request.
pub fn read_create_answer(answer: Result<Json, Failure>) -> (r: CreateAnswer)
    ensures
        r@ == create_answer(answer),
{
    match answer {
        Ok(response) => {
            let created = response.at("data").at("issueCreate");
            if created.at("success").is_true() {
                let issue = created.at("issue");
                CreateAnswer::Created {
                    identifier: issue.at("identifier").text_or("???"),
                    url: issue.at("url").text_or(""),
                }
            } else {
                match created.get("error") {
                    Some(error) => CreateAnswer::Refused(Some(error.copy())),
                    None => match created.get("errors") {
                        Some(errors) => CreateAnswer::Refused(Some(errors.copy())),
                        None => CreateAnswer::Refused(None),
                    },
                }
            }
        },
        Err(failure) => CreateAnswer::Failed(failure.to_string()),
    }
}

/// What became of a row: the identifier of its issue, or why there is none.
#[derive(Debug)]
pub struct ImportResult {
    pub index: usize,
    pub title: String,
    pub outcome: Result<String, String>,
}

#[verifier::ext_equal]
pub struct ImportResultView {
    pub index: usize,
    pub title: Seq<char>,
    pub outcome: Result<Seq<char>, Seq<char>>,
}

impl View for ImportResult {
    type V = ImportResultView;

    open spec fn view(&self) -> ImportResultView {
        ImportResultView {
            index: self.index,
            title: self.title@,
            outcome: match self.outcome {
                Ok(identifier) => Ok(identifier@),
                Err(message) => Err(message@),
            },
        }
    }
}

/// What became of a row, given the notation of the reason where the answer gives
/// one.
pub open spec fn row_result(
    index: usize,
    title: Seq<char>,
    answer: CreateAnswerView,
    notation: Seq<char>,
) -> ImportResultView {
    ImportResultView {
        index,
        title,
        outcome: match answer {
            CreateAnswerView::Created { identifier, .. } => Ok(identifier),
            CreateAnswerView::Refused(Some(_)) => Err(notation),
            CreateAnswerView::Refused(None) => Err("Unknown error"@),
            CreateAnswerView::Failed(message) => Err(message),
        },
    }
}

/// The notation of the reason that an answer gives.
pub open spec fn reason_notation(answer: CreateAnswerView) -> Seq<char> {
    match answer {
        CreateAnswerView::Refused(Some(reason)) => json_text::json_notation(
            json_text::held(reason),
        ),
        _ => ""@,
    }
}

/// What became of a row. A refusal with a reason is told by the notation of the
/// reason.
pub fn import_result(index: usize, title: &str, answer: CreateAnswer) -> (r: ImportResult)
    ensures
        r@ == row_result(index, title@, answer@, reason_notation(answer@)),
        answer@ matches CreateAnswerView::Refused(Some(reason)) ==> json_text::is_plain(reason)
            ==> r@.outcome == Err::<Seq<char>, Seq<char>>(json_text::json_notation(reason)),
{
    let notation = match &answer {
        CreateAnswer::Refused(Some(reason)) => json_text::notation(reason),
        _ => "".to_string(),
    };
    result_with_notation(index, title, answer, notation.as_str())
}

/// What became of a row, given the notation of the reason where the answer gives
/// one.
pub fn result_with_notation(
    index: usize,
    title: &str,
    answer: CreateAnswer,
    notation: &str,
) -> (r: ImportResult)
    ensures
        r@ == row_result(index, title@, answer@, notation@),
{
    let outcome = match answer {
        CreateAnswer::Created { identifier, .. } => Ok(identifier),
        CreateAnswer::Refused(Some(_)) => Err(notation.to_string()),
        CreateAnswer::Refused(None) => Err("Unknown error".to_string()),
        CreateAnswer::Failed(message) => Err(message),
    };
    ImportResult { index, title: title.to_string(), outcome }
}

/// The results stand in the order of their rows.
pub open spec fn in_row_order(results: Seq<ImportResult>) -> bool {
    forall|i: int, j: int| 0 <= i <= j < results.len() ==> results[i].index <= results[j].index
}

/// The results of one row, in order.
pub open spec fn of_row(results: Seq<ImportResult>, index: usize) -> Seq<ImportResult> {
    results.filter(|result: ImportResult| result.index == index)
}

proof fn inserting_keeps_rows(before: Seq<ImportResult>, at: int, item: ImportResult, index: usize)
    requires
        0 <= at <= before.len(),
        forall|k: int| at <= k < before.len() ==> (#[trigger] before[k]).index > item.index,
    ensures
        of_row(before.insert(at, item), index) == of_row(before.push(item), index),
{
    let pred = |result: ImportResult| result.index == index;
    let a = before.take(at);
    let b = before.skip(at);
    let one = seq![item];
    assert(before.insert(at, item) =~= a + one + b);
    assert(before.push(item) =~= a + b + one);
    Seq::filter_distributes_over_add(a + one, b, pred);
    Seq::filter_distributes_over_add(a, one, pred);
    Seq::filter_distributes_over_add(a + b, one, pred);
    Seq::filter_distributes_over_add(a, b, pred);
    if item.index == index {
        none_of_row(b, index);
    } else {
        none_of_row(one, index);
    }
    assert(of_row(before.insert(at, item), index) =~= of_row(before.push(item), index));
}

proof fn none_of_row(results: Seq<ImportResult>, index: usize)
    requires
        forall|k: int| 0 <= k < results.len() ==> (#[trigger] results[k]).index != index,
    ensures
        of_row(results, index) == Seq::<ImportResult>::empty(),
    decreases results.len(),
{
    reveal(Seq::filter);
    if results.len() > 0 {
        assert(results.last() == results[results.len() - 1]);
        none_of_row(results.drop_last(), index);
    }
}

/// Puts results in the order of their rows; the results of one row keep theirs.
pub fn sort_results(results: Vec<ImportResult>) -> (r: Vec<ImportResult>)
    ensures
        in_row_order(r@),
        r@.len() == results@.len(),
        forall|index: usize| #[trigger] of_row(r@, index) == of_row(results@, index),
{
    let mut left = results;
    let ghost all = left@;
    let mut out: Vec<ImportResult> = Vec::new();
    let ghost mut done: int = 0;
    assert(all.take(0) =~= Seq::<ImportResult>::empty());
    while left.len() > 0
        invariant
            0 <= done <= all.len(),
            left@ == all.skip(done),
            out@.len() == done,
            in_row_order(out@),
            forall|index: usize| #[trigger] of_row(out@, index) == of_row(all.take(done), index),
        decreases left@.len(),
    {
        let item = left.remove(0);
        assert(item == all[done]);
        let mut at: usize = out.len();
        while at > 0 && out[at - 1].index > item.index
            invariant
                at <= out@.len(),
                forall|k: int| at <= k < out@.len() ==> (#[trigger] out@[k]).index > item.index,
            decreases at,
        {
            at -= 1;
        }
        let ghost before = out@;
        out.insert(at, item);
        proof {
            assert(all.take(done + 1) =~= all.take(done).push(item));
            assert forall|index: usize| #[trigger] of_row(out@, index) == of_row(
                all.take(done + 1),
                index,
            ) by {
                inserting_keeps_rows(before, at as int, item, index);
                let pred = |result: ImportResult| result.index == index;
                assert(before.push(item) =~= before + seq![item]);
                assert(all.take(done).push(item) =~= all.take(done) + seq![item]);
                Seq::filter_distributes_over_add(before, seq![item], pred);
                Seq::filter_distributes_over_add(all.take(done), seq![item], pred);
                assert(of_row(before, index) == of_row(all.take(done), index));
            }
            assert forall|i: int, j: int| 0 <= i <= j < out@.len() implies out@[i].index
                <= out@[j].index by {
                let old_at = |k: int|
                    if k < at {
                        k
                    } else {
                        k - 1
                    };
                if i != at {
                    assert(out@[i] == before[old_at(i)]);
                }
                if j != at {
                    assert(out@[j] == before[old_at(j)]);
                }
            }
            done = done + 1;
            assert(left@ =~= all.skip(done));
        }
    }
    assert(all.take(done) =~= all);
    out
}

/// How many results are successes.
pub open spec fn successes(results: Seq<ImportResult>) -> nat
    decreases results.len(),
{
    if results.len() == 0 {
        0
    } else {
        successes(results.drop_last()) + if results.last().outcome is Ok {
            1nat
        } else {
            0nat
        }
    }
}

/// The successes and failures among results.
pub fn tally(results: &Vec<ImportResult>) -> (r: (usize, usize))
    ensures
        r.0 == successes(results@),
        r.0 + r.1 == results@.len(),
{
    let mut created: usize = 0;
    let mut failed: usize = 0;
    let mut i: usize = 0;
    assert(results@.take(0).len() == 0);
    while i < results.len()
        invariant
            i <= results@.len(),
            created == successes(results@.take(i as int)),
            created + failed == i,
        decreases results@.len() - i,
    {
        assert(results@.take(i + 1).drop_last() =~= results@.take(i as int));
        if results[i].outcome.is_ok() {
            created += 1;
        } else {
            failed += 1;
        }
        i += 1;
    }
    assert(results@.take(i as int) =~= results@);
    (created, failed)
}

pub open spec fn summary(created: nat, failed: nat) -> Seq<char> {
    if failed == 0 {
        "Created "@ + text::decimal(created) + issues(created as int)
    } else {
        "Created "@ + text::decimal(created) + issues(created as int) + " ("@ + (text::decimal(
            failed,
        ) + " failed)"@)
    }
}

/// The line that ends an import.
pub fn import_summary(created: usize, failed: usize) -> (r: String)
    ensures
        r@ == summary(created as nat, failed as nat),
{
    let number = count_text(created);
    if failed == 0 {
        joined3("Created ", number.as_str(), issues_text(created))
    } else {
        joined5(
            "Created ",
            number.as_str(),
            issues_text(created),
            " (",
            joined2(count_text(failed).as_str(), " failed)").as_str(),
        )
    }
}

/// Every label of a row becomes an ID or a warning.
pub proof fn labels_are_resolved_or_warned_of(
    at: Seq<char>,
    names: Seq<Seq<char>>,
    results: Seq<Result<String, Failure>>,
)
    ensures
        ids_of(results).len() + warnings_for(at, "label"@, names, results).len() == results.len(),
    decreases results.len(),
{
    if results.len() > 0 {
        labels_are_resolved_or_warned_of(at, names, results.drop_last());
    }
}

// ---------------------------------------------------------------------------
// What a file says and what becomes of it
// ---------------------------------------------------------------------------

/// A column is the first one that is headed by a name, in any case.
pub open spec fn first_headed(headers: Seq<Seq<char>>, at: int, name: Seq<char>) -> bool {
    &&& 0 <= at < headers.len()
    &&& text::same_ignoring_case(headers[at], name)
    &&& forall|k: int| 0 <= k < at ==> !text::same_ignoring_case(#[trigger] headers[k], name)
}

/// No column is headed by a name.
pub open spec fn none_headed(headers: Seq<Seq<char>>, name: Seq<char>) -> bool {
    forall|k: int| 0 <= k < headers.len() ==> !text::same_ignoring_case(
        #[trigger] headers[k],
        name,
    )
}

proof fn column_is_first_headed(headers: Seq<Seq<char>>, name: Seq<char>)
    ensures
        match column(headers, name) {
            Some(at) => first_headed(headers, at, name),
            None => none_headed(headers, name),
        },
    decreases headers.len(),
{
    if headers.len() > 0 && !text::same_ignoring_case(headers[0], name) {
        let rest = headers.drop_first();
        column_is_first_headed(rest, name);
        assert(forall|k: int| 0 < k < headers.len() ==> #[trigger] headers[k] == rest[k - 1]);
    }
}

proof fn headed_column_is_found(headers: Seq<Seq<char>>, at: int, name: Seq<char>)
    requires
        first_headed(headers, at, name),
    ensures
        column(headers, name) == Some(at),
{
    column_is_first_headed(headers, name);
    if column(headers, name) is Some {
        let found = column(headers, name)->0;
        assert(text::same_ignoring_case(headers[found], name));
        assert(text::same_ignoring_case(headers[at], name));
    } else {
        assert(!text::same_ignoring_case(headers[at], name));
    }
}

/// A record has a title: the first column that is headed `title` has a cell that is not
/// empty.
pub open spec fn has_title(headers: Seq<Seq<char>>, record: Seq<Seq<char>>) -> bool {
    exists|at: int| #[trigger]
        first_headed(headers, at, "title"@) && at < record.len() && record[at].len() > 0
}

/// A record becomes a row exactly where it has a title, and the cell of each column becomes
/// the field that the column is named after: the title, the description, the status, the
/// assignee, the estimate and the due date.
pub proof fn cells_become_the_fields_they_are_headed_by(
    headers: Seq<Seq<char>>,
    record: Seq<Seq<char>>,
    at: int,
)
    requires
        has_title(headers, record),
        0 <= at < record.len(),
        record[at].len() > 0,
    ensures
        csv_row(headers, record) is Some,
        ({
            let row = csv_row(headers, record)->0;
            &&& first_headed(headers, at, "title"@) ==> row.title == record[at]
            &&& first_headed(headers, at, "description"@) ==> row.description == Some(record[at])
            &&& first_headed(headers, at, "status"@) ==> row.status == Some(record[at])
            &&& first_headed(headers, at, "assignee"@) ==> row.assignee == Some(record[at])
            &&& first_headed(headers, at, "estimate"@) ==> row.estimate == Some(
                EstimateView::Text(record[at]),
            )
            &&& first_headed(headers, at, "dueDate"@) ==> row.due_date == Some(record[at])
            &&& first_headed(headers, at, "due_date"@) && none_headed(headers, "dueDate"@)
                ==> row.due_date == Some(record[at])
            &&& first_headed(headers, at, "labels"@) ==> row.labels == text::list_items(record[at])
            &&& first_headed(headers, at, "labels"@) && !record[at].contains(',') && text::trim(
                record[at],
            ).len() > 0 ==> row.labels == seq![text::trim(record[at])]
            &&& forall|n: i64|
                first_headed(headers, at, "priority"@) && record[at] == #[trigger] text::signed_decimal(
                    n as int,
                ) ==> row.priority == Some(n)
        }),
{
    let title = choose|title: int| #[trigger]
        first_headed(headers, title, "title"@) && title < record.len() && record[title].len() > 0;
    headed_column_is_found(headers, title, "title"@);
    let names = seq![
        "title"@,
        "description"@,
        "status"@,
        "assignee"@,
        "estimate"@,
        "dueDate"@,
        "due_date"@,
        "labels"@,
        "priority"@,
    ];
    assert forall|k: int| 0 <= k < names.len() && first_headed(headers, at, #[trigger] names[k]) implies csv_field(
        headers,
        record,
        names[k],
    ) == Some(record[at]) by {
        headed_column_is_found(headers, at, names[k]);
    }
    assert(names[0] == "title"@);
    assert(names[1] == "description"@);
    assert(names[2] == "status"@);
    assert(names[3] == "assignee"@);
    assert(names[4] == "estimate"@);
    assert(names[5] == "dueDate"@);
    assert(names[6] == "due_date"@);
    assert(names[7] == "labels"@);
    assert(names[8] == "priority"@);
    column_is_first_headed(headers, "dueDate"@);
    if !record[at].contains(',') {
        text::list_holds_what_stands_between_commas(record[at], Seq::empty());
    }
    assert forall|n: i64|
        first_headed(headers, at, "priority"@) && record[at] == #[trigger] text::signed_decimal(
            n as int,
        ) implies csv_row(headers, record)->0.priority == Some(n) by {
        text::written_number_is_read_back(n as int, 0);
    }
}

/// A record without a title is no row, and a field whose column is missing, or whose cell is
/// missing or empty, is left out.
pub proof fn missing_cells_are_left_out(headers: Seq<Seq<char>>, record: Seq<Seq<char>>)
    ensures
        csv_row(headers, record) is Some <==> has_title(headers, record),
        csv_row(headers, record) matches Some(row) ==> {
            let missing = |name: Seq<char>|
                none_headed(headers, name) || exists|at: int| #[trigger]
                    first_headed(headers, at, name) && (at >= record.len() || record[at].len() == 0);
            &&& missing("description"@) ==> row.description is None
            &&& missing("status"@) ==> row.status is None
            &&& missing("assignee"@) ==> row.assignee is None
            &&& missing("estimate"@) ==> row.estimate is None
            &&& missing("priority"@) ==> row.priority is None
            &&& missing("labels"@) ==> row.labels.len() == 0
            &&& missing("dueDate"@) && missing("due_date"@) ==> row.due_date is None
        },
{
    missing_cell_is_no_field(headers, record, "title"@);
    missing_cell_is_no_field(headers, record, "description"@);
    missing_cell_is_no_field(headers, record, "status"@);
    missing_cell_is_no_field(headers, record, "assignee"@);
    missing_cell_is_no_field(headers, record, "estimate"@);
    missing_cell_is_no_field(headers, record, "priority"@);
    missing_cell_is_no_field(headers, record, "labels"@);
    missing_cell_is_no_field(headers, record, "dueDate"@);
    missing_cell_is_no_field(headers, record, "due_date"@);
    if csv_row(headers, record) is Some {
        column_is_first_headed(headers, "title"@);
        let at = column(headers, "title"@)->0;
        assert(first_headed(headers, at, "title"@));
    }
    if has_title(headers, record) {
        let at = choose|at: int| #[trigger]
            first_headed(headers, at, "title"@) && at < record.len() && record[at].len() > 0;
        headed_column_is_found(headers, at, "title"@);
    }
}

proof fn missing_cell_is_no_field(
    headers: Seq<Seq<char>>,
    record: Seq<Seq<char>>,
    name: Seq<char>,
)
    ensures
        none_headed(headers, name) ==> csv_field(headers, record, name) is None,
        (exists|at: int| #[trigger]
            first_headed(headers, at, name) && (at >= record.len() || record[at].len() == 0))
            ==> csv_field(headers, record, name) is None,
{
    column_is_first_headed(headers, name);
    if none_headed(headers, name) && column(headers, name) is Some {
        assert(!text::same_ignoring_case(headers[column(headers, name)->0], name));
    }
    if exists|at: int| #[trigger]
        first_headed(headers, at, name) && (at >= record.len() || record[at].len() == 0) {
        let at = choose|at: int| #[trigger]
            first_headed(headers, at, name) && (at >= record.len() || record[at].len() == 0);
        headed_column_is_found(headers, at, name);
    }
}

/// The records of a table become its rows in their order: those with a title are rows, and
/// the numbers of the others, counted from one, are skipped.
pub proof fn records_become_rows_in_order(
    headers: Seq<Seq<char>>,
    records: Seq<Result<Seq<Seq<char>>, Seq<char>>>,
    record: Seq<Seq<char>>,
)
    requires
        !none_headed(headers, "title"@),
        csv_rows(Ok(CsvTableView { headers, records })) is Ok,
        records.len() < usize::MAX,
    ensures
        csv_rows(Ok(CsvTableView { headers, records: Seq::empty() })) is Ok,
        csv_rows(Ok(CsvTableView { headers, records: Seq::empty() }))->Ok_0.rows.len() == 0,
        csv_rows(Ok(CsvTableView { headers, records: Seq::empty() }))->Ok_0.skipped.len() == 0,
        ({
            let before = csv_rows(Ok(CsvTableView { headers, records }))->Ok_0;
            let after = csv_rows(
                Ok(CsvTableView { headers, records: records.push(Ok(record)) }),
            );
            &&& after is Ok
            &&& has_title(headers, record) ==> after->Ok_0.rows == before.rows.push(
                csv_row(headers, record)->0,
            ) && after->Ok_0.skipped == before.skipped
            &&& !has_title(headers, record) ==> after->Ok_0.rows == before.rows
                && after->Ok_0.skipped == before.skipped.push((records.len() + 1) as usize)
        }),
{
    column_is_first_headed(headers, "title"@);
    missing_cells_are_left_out(headers, record);
    assert(records.push(Ok(record)).drop_last() =~= records);
}

/// A table without a title column is refused, and a record that cannot be read fails the
/// whole import, with its number.
pub proof fn unreadable_files_are_refused(
    headers: Seq<Seq<char>>,
    records: Seq<Result<Seq<Seq<char>>, Seq<char>>>,
    fault: Seq<char>,
)
    ensures
        none_headed(headers, "title"@) ==> csv_rows(Ok(CsvTableView { headers, records })) is Err,
        csv_rows(Err(fault)) is Err,
        csv_rows(Ok(CsvTableView { headers, records: records.push(Err(fault)) })) is Err,
        csv_rows(Ok(CsvTableView { headers, records })) is Ok ==> text::contains_text(
            csv_rows(
                Ok(CsvTableView { headers, records: records.push(Err(fault)) }),
            )->Err_0.shown(),
            text::decimal((records.len() + 1) as nat),
        ),
{
    column_is_first_headed(headers, "title"@);
    if none_headed(headers, "title"@) && column(headers, "title"@) is Some {
        assert(!text::same_ignoring_case(headers[column(headers, "title"@)->0], "title"@));
    }
    let longer = records.push(Err(fault));
    assert(longer.drop_last() =~= records);
    if csv_rows(Ok(CsvTableView { headers, records })) is Ok {
        let shown = row_failure(longer.len() as int, fault).shown();
        let from = "Failed to parse CSV row "@.len() as int;
        assert(shown.subrange(from, shown.len() as int) =~= text::decimal(longer.len()));
        text::subrange_occurs(shown, from, shown.len() as int);
    }
}

/// An object in a file becomes a row exactly where it has a title, and its fields become the
/// fields of the row that they are named after.
pub proof fn object_fields_become_row_fields(item: JsonView)
    ensures
        json_row(item) is Some <==> (item.at("title"@) is Text && item.at("title"@)->Text_0.len()
            > 0),
        json_row(item) matches Some(row) ==> {
            &&& item.at("title"@) == JsonView::Text(row.title)
            &&& item.at("description"@) is Text ==> row.description == Some(
                item.at("description"@)->Text_0,
            )
            &&& !(item.at("description"@) is Text) ==> row.description is None
            &&& item.at("status"@) is Text ==> row.status == Some(item.at("status"@)->Text_0)
            &&& !(item.at("status"@) is Text) ==> row.status is None
            &&& item.at("assignee"@) is Text ==> row.assignee == Some(item.at("assignee"@)->Text_0)
            &&& !(item.at("assignee"@) is Text) ==> row.assignee is None
            &&& forall|n: i64|
                item.at("priority"@) == #[trigger] JsonView::integer(n) ==> row.priority == Some(n)
            &&& !(item.at("priority"@) is Number) ==> row.priority is None
            &&& item.at("estimate"@) is Number ==> row.estimate == Some(
                EstimateView::Number(item.at("estimate"@)->Number_0),
            )
            &&& !(item.at("estimate"@) is Number) ==> row.estimate is None
            &&& item.at("dueDate"@) is Text ==> row.due_date == Some(item.at("dueDate"@)->Text_0)
            &&& !(item.at("dueDate"@) is Text) && item.at("due_date"@) is Text ==> row.due_date
                == Some(item.at("due_date"@)->Text_0)
            &&& !(item.at("dueDate"@) is Text) && !(item.at("due_date"@) is Text)
                ==> row.due_date is None
            &&& item.at("labels"@) is Text ==> row.labels == text::list_items(
                item.at("labels"@)->Text_0,
            )
            &&& !(item.at("labels"@) is Text) && !(item.at("labels"@) is Array)
                ==> row.labels.len() == 0
        },
        forall|names: Seq<Seq<char>>|
            item.at("labels"@) == #[trigger] JsonView::texts(names) && json_row(item) is Some
                ==> json_row(item)->0.labels == names,
{
    assert forall|names: Seq<Seq<char>>|
        item.at("labels"@) == #[trigger] JsonView::texts(names) && json_row(
            item,
        ) is Some implies json_row(item)->0.labels == names by {
        texts_are_found_again(names);
    }
}

proof fn texts_are_found_again(names: Seq<Seq<char>>)
    ensures
        texts_in(JsonView::texts(names)->Array_0) == names,
    decreases names.len(),
{
    let items = JsonView::texts(names)->Array_0;
    if names.len() == 0 {
        assert(texts_in(items) =~= names);
    } else {
        let rest = names.drop_last();
        texts_are_found_again(rest);
        assert(items.drop_last() =~= JsonView::texts(rest)->Array_0);
        assert(items.last() == JsonView::Text(names.last()));
        assert(texts_in(items) =~= names);
    }
}

/// The items of a JSON file become its rows in their order, and a single object is a file of
/// one item.
pub proof fn items_become_rows_in_order(items: Seq<JsonView>, item: JsonView)
    requires
        items.len() < usize::MAX,
    ensures
        json_data_rows(JsonView::Array(Seq::empty())) == Ok::<ImportRowsView, FailureView>(
            ImportRowsView { rows: Seq::empty(), skipped: Seq::empty() },
        ),
        json_data_rows(JsonView::Array(items)) is Ok,
        ({
            let before = json_data_rows(JsonView::Array(items))->Ok_0;
            let after = json_data_rows(JsonView::Array(items.push(item)))->Ok_0;
            match json_row(item) {
                Some(row) => after.rows == before.rows.push(row) && after.skipped == before.skipped,
                None => after.rows == before.rows && after.skipped == before.skipped.push(
                    (items.len() + 1) as usize,
                ),
            }
        }),
        item is Object ==> json_data_rows(item) == json_data_rows(JsonView::Array(seq![item])),
        !(item is Object) && !(item is Array) ==> json_data_rows(item) is Err,
{
    assert(items.push(item).drop_last() =~= items);
}

proof fn input_keys_differ()
    ensures
        ({
            let keys = seq![
                "title"@,
                "teamId"@,
                "description"@,
                "priority"@,
                "stateId"@,
                "assigneeId"@,
                "labelIds"@,
                "estimate"@,
                "dueDate"@,
            ];
            forall|i: int, j: int|
                0 <= i < keys.len() && 0 <= j < keys.len() && i != j ==> #[trigger] keys[i]
                    != #[trigger] keys[j]
        }),
{
    reveal_strlit("title");
    reveal_strlit("teamId");
    reveal_strlit("description");
    reveal_strlit("priority");
    reveal_strlit("stateId");
    reveal_strlit("assigneeId");
    reveal_strlit("labelIds");
    reveal_strlit("estimate");
    reveal_strlit("dueDate");
    assert("title"@.len() == 5 && "teamId"@.len() == 6 && "description"@.len() == 11);
    assert("assigneeId"@.len() == 10);
    assert("priority"@.len() == 8 && "labelIds"@.len() == 8 && "estimate"@.len() == 8);
    assert("stateId"@.len() == 7 && "dueDate"@.len() == 7);
    assert("priority"@[0] != "labelIds"@[0]);
    assert("priority"@[0] != "estimate"@[0]);
    assert("labelIds"@[0] != "estimate"@[0]);
    assert("stateId"@[0] != "dueDate"@[0]);
}

/// The input that creates an issue carries every field of its row: the title and the team,
/// the description, the priority, the IDs that the status, the assignee and the labels were
/// resolved to, the estimate and the due date. What the row does not have, or what was not
/// resolved, is left out.
pub proof fn input_carries_the_row(row: ImportRowView, team_id: Seq<char>, resolved: Resolved)
    ensures
        ({
            let input = issue_input(row, team_id, resolved);
            &&& input.get("title"@) == Some(JsonView::Text(row.title))
            &&& input.get("teamId"@) == Some(JsonView::Text(team_id))
            &&& match row.description {
                Some(s) => input.get("description"@) == Some(JsonView::Text(s)),
                None => input.get("description"@) is None,
            }
            &&& match row.priority {
                Some(p) => input.get("priority"@) == Some(JsonView::integer(p)),
                None => input.get("priority"@) is None,
            }
            &&& match resolved.state {
                Some(Ok(id)) => input.get("stateId"@) == Some(JsonView::Text(id@)),
                _ => input.get("stateId"@) is None,
            }
            &&& match resolved.assignee {
                Some(Ok(id)) => input.get("assigneeId"@) == Some(JsonView::Text(id@)),
                _ => input.get("assigneeId"@) is None,
            }
            &&& match resolved.estimate {
                Some(number) => input.get("estimate"@) == Some(number@),
                None => input.get("estimate"@) is None,
            }
            &&& match (row.due_date, resolved.due_date) {
                (Some(_), Some(date)) => input.get("dueDate"@) == Some(JsonView::Text(date@)),
                (Some(given), None) => input.get("dueDate"@) == Some(JsonView::Text(given)),
                (None, _) => input.get("dueDate"@) is None,
            }
            &&& (forall|i: int|
                0 <= i < resolved.labels@.len() ==> (#[trigger] resolved.labels@[i]) is Ok) ==> if resolved.labels@.len()
                == 0 {
                input.get("labelIds"@) is None
            } else {
                input.get("labelIds"@) == Some(
                    JsonView::texts(
                        Seq::new(resolved.labels@.len(), |i: int| resolved.labels@[i]->Ok_0@),
                    ),
                )
            }
        }),
{
    broadcast use json::group_fields;

    input_keys_differ();
    let keys = seq![
        "title"@,
        "teamId"@,
        "description"@,
        "priority"@,
        "stateId"@,
        "assigneeId"@,
        "labelIds"@,
        "estimate"@,
        "dueDate"@,
    ];
    assert(keys[0] == "title"@);
    assert(keys[1] == "teamId"@);
    assert(keys[2] == "description"@);
    assert(keys[3] == "priority"@);
    assert(keys[4] == "stateId"@);
    assert(keys[5] == "assigneeId"@);
    assert(keys[6] == "labelIds"@);
    assert(keys[7] == "estimate"@);
    assert(keys[8] == "dueDate"@);
    if forall|i: int| 0 <= i < resolved.labels@.len() ==> (#[trigger] resolved.labels@[i]) is Ok {
        all_ids_are_taken(resolved.labels@);
    }
}

proof fn all_ids_are_taken(results: Seq<Result<String, Failure>>)
    requires
        forall|i: int| 0 <= i < results.len() ==> (#[trigger] results[i]) is Ok,
    ensures
        ids_of(results) == Seq::new(results.len(), |i: int| results[i]->Ok_0@),
    decreases results.len(),
{
    if results.len() > 0 {
        let rest = results.drop_last();
        assert forall|i: int| 0 <= i < rest.len() implies (#[trigger] rest[i]) is Ok by {
            assert(results[i] is Ok);
        }
        all_ids_are_taken(rest);
        assert(results[results.len() - 1] is Ok);
    }
    assert(ids_of(results) =~= Seq::new(results.len(), |i: int| results[i]->Ok_0@));
}

/// The labels that were resolved are sent in the order of the labels, and one that was not
/// is left out and nothing else with it.
pub proof fn resolved_labels_are_sent_in_order(
    results: Seq<Result<String, Failure>>,
    result: Result<String, Failure>,
)
    ensures
        ids_of(Seq::empty()).len() == 0,
        ids_of(results.push(result)) == (match result {
            Ok(id) => ids_of(results).push(id@),
            Err(_) => ids_of(results),
        }),
{
    assert(results.push(result).drop_last() =~= results);
}

/// The request that creates an issue carries its input.
pub proof fn creation_carries_the_input(input: JsonView)
    ensures
        creation(input).variables is Some,
        creation(input).variables->0.get("input"@) == Some(input),
{
    broadcast use json::group_fields;

}

/// A name that was not resolved is warned of by name, with the reason.
pub proof fn unresolved_names_are_warned_of(
    row: ImportRowView,
    resolved: Resolved,
    index: int,
    total: int,
    failure: Failure,
    name: Seq<char>,
)
    requires
        resolves(row, resolved),
    ensures
        ({
            let warned = |line: Seq<char>|
                row_warnings(row, resolved, index, total).contains(line) && text::contains_text(
                    line,
                    name,
                ) && text::contains_text(line, failure@.shown());
            &&& resolved.state == Some(Err::<String, Failure>(failure)) && row.status == Some(name)
                ==> exists|line: Seq<char>| #[trigger] warned(line)
            &&& resolved.assignee == Some(Err::<String, Failure>(failure)) && row.assignee == Some(
                name,
            ) ==> exists|line: Seq<char>| #[trigger] warned(line)
            &&& (exists|k: int|
                0 <= k < row.labels.len() && #[trigger] row.labels[k] == name && resolved.labels@[k]
                    == Err::<String, Failure>(failure)) ==> exists|line: Seq<char>| #[trigger]
                warned(line)
        }),
{
    let at = place(index, total);
    let all = row_warnings(row, resolved, index, total);
    let warned = |line: Seq<char>|
        all.contains(line) && text::contains_text(line, name) && text::contains_text(
            line,
            failure@.shown(),
        );
    let a = warnings_for(at, "status"@, one_name(row.status), one_result(resolved.state));
    let b = warnings_for(at, "assignee"@, one_name(row.assignee), one_result(resolved.assignee));
    let c = warnings_for(at, "label"@, row.labels, resolved.labels@);
    assert(all == a + b + c);
    if resolved.state == Some(Err::<String, Failure>(failure)) && row.status == Some(name) {
        let line = warning(at, "status"@, name, failure@);
        warning_is_among(at, "status"@, one_name(row.status), one_result(resolved.state), 0);
        warning_names_both(at, "status"@, name, failure@);
        let k = choose|k: int| 0 <= k < a.len() && a[k] == line;
        assert(all[k] == line);
        assert(warned(line));
    }
    if resolved.assignee == Some(Err::<String, Failure>(failure)) && row.assignee == Some(name) {
        let line = warning(at, "assignee"@, name, failure@);
        warning_is_among(at, "assignee"@, one_name(row.assignee), one_result(resolved.assignee), 0);
        warning_names_both(at, "assignee"@, name, failure@);
        let k = choose|k: int| 0 <= k < b.len() && b[k] == line;
        assert(all[a.len() + k] == line);
        assert(warned(line));
    }
    if exists|k: int|
        0 <= k < row.labels.len() && #[trigger] row.labels[k] == name && resolved.labels@[k]
            == Err::<String, Failure>(failure) {
        let at_label = choose|k: int|
            0 <= k < row.labels.len() && #[trigger] row.labels[k] == name && resolved.labels@[k]
                == Err::<String, Failure>(failure);
        let line = warning(at, "label"@, name, failure@);
        warning_is_among(at, "label"@, row.labels, resolved.labels@, at_label);
        warning_names_both(at, "label"@, name, failure@);
        let k = choose|k: int| 0 <= k < c.len() && c[k] == line;
        assert(all[a.len() + b.len() + k] == line);
        assert(warned(line));
    }
}

proof fn warning_is_among(
    at: Seq<char>,
    what: Seq<char>,
    names: Seq<Seq<char>>,
    results: Seq<Result<String, Failure>>,
    k: int,
)
    requires
        0 <= k < results.len(),
        results[k] is Err,
    ensures
        warnings_for(at, what, names, results).contains(
            warning(at, what, names[k], results[k]->Err_0@),
        ),
    decreases results.len(),
{
    let line = warning(at, what, names[k], results[k]->Err_0@);
    let all = warnings_for(at, what, names, results);
    let before = warnings_for(at, what, names, results.drop_last());
    if k < results.len() - 1 {
        warning_is_among(at, what, names, results.drop_last(), k);
        let i = choose|i: int| 0 <= i < before.len() && before[i] == line;
        assert(all[i] == line);
    } else {
        assert(all[all.len() - 1] == line);
    }
}

proof fn warning_names_both(at: Seq<char>, what: Seq<char>, name: Seq<char>, failure: FailureView)
    ensures
        text::contains_text(warning(at, what, name, failure), name),
        text::contains_text(warning(at, what, name, failure), failure.shown()),
{
    let line = warning(at, what, name, failure);
    let from = at.len() + (" Warning: Could not resolve "@ + what + " '"@).len() as int;
    assert(line.subrange(from, from + name.len()) =~= name);
    text::subrange_occurs(line, from, from + name.len());
    let last = line.len() - failure.shown().len();
    assert(line.subrange(last, line.len() as int) =~= failure.shown());
    text::subrange_occurs(line, last, line.len() as int);
}

/// An issue counts as created exactly where the answer confirms it, under the identifier
/// that the answer gives; a request that failed is told by its failure.
pub proof fn only_confirmed_issues_are_created(
    index: usize,
    title: Seq<char>,
    answer: Result<Json, Failure>,
    notation: Seq<char>,
)
    ensures
        ({
            let result = row_result(index, title, create_answer(answer), notation);
            &&& result.index == index
            &&& result.title == title
            &&& match answer {
                Ok(response) => {
                    let created = response@.at("data"@).at("issueCreate"@);
                    if created.at("success"@) == JsonView::Bool(true) {
                        &&& result.outcome is Ok
                        &&& created.at("issue"@).at("identifier"@) is Text ==> result.outcome
                            == Ok::<Seq<char>, Seq<char>>(
                            created.at("issue"@).at("identifier"@)->Text_0,
                        )
                    } else {
                        &&& result.outcome is Err
                        &&& created.get("error"@) is Some || created.get("errors"@) is Some
                            ==> result.outcome == Err::<Seq<char>, Seq<char>>(notation)
                    }
                },
                Err(failure) => result.outcome == Err::<Seq<char>, Seq<char>>(failure@.shown()),
            }
        }),
{
}

/// A refusal gives the error, or where there is none the errors, for its reason.
pub proof fn refusal_gives_the_error_first(response: Json)
    requires
        response@.at("data"@).at("issueCreate"@).at("success"@) != JsonView::Bool(true),
    ensures
        ({
            let created = response@.at("data"@).at("issueCreate"@);
            let reason = if created.get("error"@) is Some {
                created.get("error"@)
            } else {
                created.get("errors"@)
            };
            let answer = create_answer(Ok(response));
            &&& answer == CreateAnswerView::Refused(reason)
            &&& reason matches Some(inner) ==> reason_notation(answer) == json_text::json_notation(
                json_text::held(inner),
            )
        }),
{
}

/// The successes are the results that are successes.
pub proof fn successes_are_counted(results: Seq<ImportResult>)
    ensures
        successes(results) == results.filter(|result: ImportResult| result.outcome is Ok).len(),
    decreases results.len(),
{
    reveal(Seq::filter);
    if results.len() > 0 {
        successes_are_counted(results.drop_last());
    }
}

/// Issues are created exactly where there are rows and it is no dry run.
pub proof fn dry_run_creates_nothing(rows: nat, dry_run: bool)
    ensures
        plan(rows, dry_run) == ImportPlan::Create <==> rows > 0 && !dry_run,
        plan(rows, dry_run) == ImportPlan::Preview <==> rows > 0 && dry_run,
        plan(rows, dry_run) == ImportPlan::Nothing <==> rows == 0,
{
}

/// What an import announces and how it ends tell its numbers and its team.
pub proof fn numbers_of_an_import_are_told(
    total: nat,
    team: Seq<char>,
    created: nat,
    failed: nat,
)
    ensures
        text::contains_text(heading(total, team), text::decimal(total)),
        text::contains_text(heading(total, team), team),
        text::contains_text(summary(created, failed), text::decimal(created)),
        failed > 0 ==> text::contains_text(
            summary(created, failed),
            text::decimal(failed) + " failed"@,
        ),
        failed == 0 ==> summary(created, failed) == "Created "@ + text::decimal(created) + (
        if created == 1 {
            " issue"@
        } else {
            " issues"@
        }),
{
    let h = heading(total, team);
    let from = "Importing "@.len() as int;
    let number = text::decimal(total);
    assert(h.subrange(from, from + number.len()) =~= number);
    text::subrange_occurs(h, from, from + number.len());
    let to = h.len() - "..."@.len();
    assert(h.subrange(to - team.len(), to) =~= team);
    text::subrange_occurs(h, to - team.len(), to);
    let s = summary(created, failed);
    let made = text::decimal(created);
    let start = "Created "@.len() as int;
    assert(s.subrange(start, start + made.len()) =~= made);
    text::subrange_occurs(s, start, start + made.len());
    if failed > 0 {
        reveal_strlit(" failed)");
        reveal_strlit(" failed");
        let told = text::decimal(failed) + " failed"@;
        assert(s.subrange(s.len() - 1 - told.len(), s.len() - 1) =~= told);
        text::subrange_occurs(s, s.len() - 1 - told.len(), s.len() - 1);
    }
}

/// A preview shows each field that the row has.
pub proof fn preview_shows_the_fields(row: ImportRowView, estimate: Option<Seq<char>>)
    ensures
        ({
            let lines = preview(row, estimate);
            &&& row.status matches Some(s) ==> lines.contains("    Status:      "@ + s)
            &&& row.assignee matches Some(s) ==> lines.contains("    Assignee:    "@ + s)
            &&& row.due_date matches Some(s) ==> lines.contains("    Due Date:    "@ + s)
            &&& estimate matches Some(s) ==> lines.contains("    Estimate:    "@ + s)
            &&& row.priority matches Some(p) ==> lines.contains(
                "    Priority:    "@ + text::signed_decimal(p as int),
            )
            &&& row.labels.len() > 0 ==> lines.contains(
                "    Labels:      "@ + text::join_with(row.labels, ", "@),
            )
            &&& row.description matches Some(s) ==> (utf8::encode_utf8(s).len() <= 80
                ==> lines.contains("    Description: "@ + s))
        }),
{
    let lines = preview(row, estimate);
    let description = match row.description {
        Some(description) => Some(description_preview(description)),
        None => None,
    };
    let priority = match row.priority {
        Some(p) => Some(text::signed_decimal(p as int)),
        None => None,
    };
    let labels = if row.labels.len() == 0 {
        None
    } else {
        Some(text::join_with(row.labels, ", "@))
    };
    let a = labelled("    Description: "@, description);
    let b = labelled("    Priority:    "@, priority);
    let c = labelled("    Status:      "@, row.status);
    let d = labelled("    Assignee:    "@, row.assignee);
    let e = labelled("    Labels:      "@, labels);
    let f = labelled("    Estimate:    "@, estimate);
    let g = labelled("    Due Date:    "@, row.due_date);
    assert(lines == a + b + c + d + e + f + g);
    let n1 = a.len() as int;
    let n2 = n1 + b.len();
    let n3 = n2 + c.len();
    let n4 = n3 + d.len();
    let n5 = n4 + e.len();
    let n6 = n5 + f.len();
    if a.len() > 0 {
        assert(lines[0] == a[0]);
    }
    if b.len() > 0 {
        assert(lines[n1] == b[0]);
    }
    if c.len() > 0 {
        assert(lines[n2] == c[0]);
    }
    if d.len() > 0 {
        assert(lines[n3] == d[0]);
    }
    if e.len() > 0 {
        assert(lines[n4] == e[0]);
    }
    if f.len() > 0 {
        assert(lines[n5] == f[0]);
    }
    if g.len() > 0 {
        assert(lines[n6] == g[0]);
    }
}

/// The place of a row is counted from one.
pub proof fn place_is_counted_from_one(index: nat, total: nat)
    ensures
        text::starts_with(
            place(index as int, total as int),
            "["@ + text::decimal(index + 1) + "/"@,
        ),
        text::contains_text(place(index as int, total as int), text::decimal(total)),
{
    let shown = place(index as int, total as int);
    let first = "["@ + text::decimal(index + 1) + "/"@;
    let number = text::decimal(total);
    let from = first.len() as int;
    assert(shown.subrange(0, from) =~= first);
    assert(shown.subrange(from, from + number.len()) =~= number);
    text::subrange_occurs(shown, from, from + number.len());
}

} // verus!
