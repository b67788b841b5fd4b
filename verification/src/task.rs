use vstd::prelude::*;

use crate::record::{contains_string, copy_strings, string_views, Record};
use crate::table::{csv_encoding, csv_table, header_columns, parse_csv_records, record_view, table_records, write_csv_table};

verus! {

/// A group of recipients and the column values whose rows go to them.
pub struct TargetValues {
    pub targets: Vec<String>,
    pub values: Vec<String>,
}

/// How the rows of a CSV file are split among groups of recipients: by the value of
/// `column_name`, looked up in `target_to_value`.
pub struct SplitOptions {
    pub column_name: String,
    pub target_to_value: Vec<TargetValues>,
    pub output_options: OutputOptions,
}

/// The columns to drop from every row.
pub struct FilterOptions {
    pub filter_column_name: Vec<String>,
}

/// What to do with an uploaded CSV file.
pub struct ParseConfig {
    pub filter_options: Option<FilterOptions>,
    pub split_options: Option<SplitOptions>,
    pub file_type: FileType,
}

/// The kind of file each group's rows are written to.
pub enum FileType {
    CSV,
    EXCEL,
}

/// Where a written file goes: by e-mail to the group's recipients, and/or over SFTP.
pub struct OutputOptions {
    pub smtp: Option<bool>,
    pub sftp: Option<bool>,
}

/// A request: the CSV file to read and what to do with it.
pub struct ExecuteOptions {
    pub parse_config: Option<ParseConfig>,
    pub csv_file: String,
}

/// One file to write and hand on: the rows whose column value belongs to the group that
/// `value` is assigned to, under the header row `header`, for the recipients `targets`.
pub struct Export {
    pub value: String,
    pub targets: Vec<String>,
    pub header: Vec<String>,
    pub rows: Vec<Vec<String>>,
}

/// Why rows could not be split.
pub enum SplitError {
    /// The row at this position (after the header row) could not be read.
    UnreadableRecord(usize),
    /// No row went to the group of this value, so there is no header row to write.
    EmptyGroup(String),
    /// A row of the group of this value lacks a column of the group's header row.
    IncompleteRecord(String),
}

/// What the caller is to do with a written file.
pub enum ExportAction {
    /// E-mail the file at `file_path` to `recipients`.
    SendEmail { recipients: Vec<String>, file_path: String },
    /// Report that the file goes over SFTP.
    NotifySftp,
}

/// `t` lists the column value `v`.
pub open spec fn lists_value(t: TargetValues, v: Seq<char>) -> bool {
    string_views(t.values@).contains(v)
}

/// The last of the `n` first groups that lists `v`, if any.
pub open spec fn last_group_upto(groups: Seq<TargetValues>, v: Seq<char>, n: int) -> Option<int>
    decreases n,
{
    if n <= 0 {
        None
    } else if lists_value(groups[n - 1], v) {
        Some(n - 1)
    } else {
        last_group_upto(groups, v, n - 1)
    }
}

/// The group a column value is assigned to: the last one that lists it, since a later group
/// takes a value over from an earlier one.
pub open spec fn group_of(groups: Seq<TargetValues>, v: Seq<char>) -> Option<int> {
    last_group_upto(groups, v, groups.len() as int)
}

/// Some group lists `v`.
pub open spec fn is_listed(groups: Seq<TargetValues>, v: Seq<char>) -> bool {
    exists|t: int| 0 <= t < groups.len() && lists_value(#[trigger] groups[t], v)
}

/// The map of a row that was read (the empty map for one that was not).
pub open spec fn row_map(row: Option<Record>) -> Map<Seq<char>, Seq<char>> {
    match row {
        Some(r) => r@,
        None => Map::empty(),
    }
}

/// The column names of a row that was read.
pub open spec fn row_columns(row: Option<Record>) -> Seq<Seq<char>> {
    match row {
        Some(r) => r.columns(),
        None => Seq::empty(),
    }
}

/// Every row was read.
pub open spec fn all_read(rows: Seq<Option<Record>>) -> bool {
    forall|i: int| 0 <= i < rows.len() ==> #[trigger] rows[i] is Some
}

/// The values of a row at the given columns.
pub open spec fn row_values(m: Map<Seq<char>, Seq<char>>, header: Seq<Seq<char>>) -> Seq<Seq<char>> {
    header.map_values(|k: Seq<char>| m[k])
}

impl SplitOptions {
    /// The group a row goes to: that of its value in the split column, if it has that column
    /// and the value is listed.
    pub open spec fn record_group(self, m: Map<Seq<char>, Seq<char>>) -> Option<int> {
        if m.contains_key(self.column_name@) {
            group_of(self.target_to_value@, m[self.column_name@])
        } else {
            None
        }
    }

    /// The positions, among the `n` first rows, of the rows that go to group `g`, in order.
    pub open spec fn members(self, rows: Seq<Option<Record>>, g: int, n: int) -> Seq<int>
        decreases n,
    {
        if n <= 0 {
            Seq::empty()
        } else if self.record_group(row_map(rows[n - 1])) == Some(g) {
            self.members(rows, g, n - 1).push(n - 1)
        } else {
            self.members(rows, g, n - 1)
        }
    }

    /// The positions of all the rows that go to group `g`.
    pub open spec fn group_rows(self, rows: Seq<Option<Record>>, g: int) -> Seq<int> {
        self.members(rows, g, rows.len() as int)
    }

    /// The header row of group `g`: the columns of its first row (none when no row goes to it).
    pub open spec fn group_header(self, rows: Seq<Option<Record>>, g: int) -> Seq<Seq<char>> {
        if self.group_rows(rows, g).len() > 0 {
            row_columns(rows[self.group_rows(rows, g)[0]])
        } else {
            Seq::empty()
        }
    }

    /// The rows of group `g` have a value for every column of its header row.
    pub open spec fn group_complete(self, rows: Seq<Option<Record>>, g: int) -> bool {
        forall|i: int, k: Seq<char>|
            0 <= i < self.group_rows(rows, g).len() && self.group_header(rows, g).contains(k)
                ==> #[trigger] row_map(rows[self.group_rows(rows, g)[i]]).contains_key(k)
    }

    /// The table written for group `g`: the values of each of its rows under its header row.
    pub open spec fn group_table(self, rows: Seq<Option<Record>>, g: int) -> Seq<Seq<Seq<char>>> {
        self.group_rows(rows, g).map_values(
            |j: int| row_values(row_map(rows[j]), self.group_header(rows, g)),
        )
    }

    /// The group of value `v` can be written: at least one row goes to it, and all its rows
    /// have every column of its header row.
    pub open spec fn value_writable(self, rows: Seq<Option<Record>>, v: Seq<char>) -> bool {
        let g: int = group_of(self.target_to_value@, v)->0;
        &&& self.group_rows(rows, g).len() > 0
        &&& self.group_complete(rows, g)
    }

    /// Splitting succeeds: every row was read and the group of every listed value can be
    /// written.
    pub open spec fn split_succeeds(self, rows: Seq<Option<Record>>) -> bool {
        &&& all_read(rows)
        &&& forall|v: Seq<char>| is_listed(self.target_to_value@, v) ==> #[trigger] self.value_writable(rows, v)
    }

    /// `e` is the file written for its value: the recipients, header row and rows of the group
    /// that the value is assigned to.
    pub open spec fn export_matches(self, rows: Seq<Option<Record>>, e: Export) -> bool {
        let g = group_of(self.target_to_value@, e.value@);
        &&& g is Some
        &&& string_views(e.targets@) == string_views(self.target_to_value@[g->0].targets@)
        &&& string_views(e.header@) == self.group_header(rows, g->0)
        &&& e.rows.deep_view() == self.group_table(rows, g->0)
    }

    /// Whether the group `t` lists `v`.
    fn group_lists(&self, t: usize, v: &String) -> (b: bool)
        requires
            t < self.target_to_value@.len(),
        ensures
            b == lists_value(self.target_to_value@[t as int], v@),
    {
        contains_string(&self.target_to_value[t].values, v)
    }

    /// The group that the column value `v` is assigned to.
    fn group_for(&self, v: &String) -> (g: Option<usize>)
        ensures
            match g {
                Some(t) => group_of(self.target_to_value@, v@) == Some(t as int),
                None => group_of(self.target_to_value@, v@) is None,
            },
    {
        let mut n: usize = self.target_to_value.len();
        while n > 0
            invariant
                n <= self.target_to_value@.len(),
                group_of(self.target_to_value@, v@) == last_group_upto(self.target_to_value@, v@, n as int),
            decreases n,
        {
            if self.group_lists(n - 1, v) {
                return Some(n - 1);
            }
            n = n - 1;
        }
        None
    }

    /// The group that a row goes to.
    fn row_group(&self, rec: &Record) -> (g: Option<usize>)
        ensures
            match g {
                Some(t) => self.record_group(rec@) == Some(t as int),
                None => self.record_group(rec@) is None,
            },
    {
        match rec.get(&self.column_name) {
            Some(v) => self.group_for(v),
            None => None,
        }
    }

    /// The positions of the rows that go to group `g`, in order.
    fn rows_of_group(&self, rows: &Vec<Option<Record>>, g: usize) -> (ms: Vec<usize>)
        requires
            all_read(rows@),
        ensures
            ms@.map_values(|x: usize| x as int) == self.group_rows(rows@, g as int),
            forall|i: int| 0 <= i < ms@.len() ==> #[trigger] ms@[i] < rows@.len(),
    {
        let mut ms: Vec<usize> = Vec::new();
        let mut j: usize = 0;
        while j < rows.len()
            invariant
                j <= rows@.len(),
                all_read(rows@),
                ms@.map_values(|x: usize| x as int) == self.members(rows@, g as int, j as int),
                forall|i: int| 0 <= i < ms@.len() ==> #[trigger] ms@[i] < j,
            decreases rows@.len() - j,
        {
            assert(rows@[j as int] is Some);
            let rec = rows[j].as_ref().unwrap();
            let rg = self.row_group(rec);
            let ghost before = ms@;
            if rg == Some(g) {
                ms.push(j);
                proof {
                    assert(ms@.map_values(|x: usize| x as int) =~= before.map_values(
                        |x: usize| x as int,
                    ).push(j as int));
                }
            }
            j = j + 1;
        }
        ms
    }
}

/// The group a value is assigned to lists it; a value is assigned to a group exactly when
/// some group lists it.
pub proof fn lemma_group_of(groups: Seq<TargetValues>, v: Seq<char>, n: int)
    requires
        0 <= n <= groups.len(),
    ensures
        last_group_upto(groups, v, n) matches Some(g) ==> 0 <= g < n && lists_value(groups[g], v),
        last_group_upto(groups, v, n) is Some <==> exists|t: int| 0 <= t < n && lists_value(#[trigger] groups[t], v),
        last_group_upto(groups, v, n) matches Some(g) ==> forall|t: int| g < t < n ==> !lists_value(#[trigger] groups[t], v),
    decreases n,
{
    if n > 0 {
        lemma_group_of(groups, v, n - 1);
        if lists_value(groups[n - 1], v) {
        } else {
            assert forall|t: int| 0 <= t < n && lists_value(#[trigger] groups[t], v) implies t < n - 1 by {}
        }
    }
}

impl SplitOptions {
    /// The values listed by the groups, each once.
    fn listed_values(&self) -> (vs: Vec<String>)
        ensures
            string_views(vs@).no_duplicates(),
            forall|v: Seq<char>| string_views(vs@).contains(v) <==> is_listed(self.target_to_value@, v),
    {
        let groups = &self.target_to_value;
        let mut vs: Vec<String> = Vec::new();
        let mut t: usize = 0;
        while t < groups.len()
            invariant
                t <= groups@.len(),
                groups@ == self.target_to_value@,
                string_views(vs@).no_duplicates(),
                forall|v: Seq<char>| string_views(vs@).contains(v) ==> is_listed(groups@, v),
                forall|t2: int, v: Seq<char>|
                    0 <= t2 < t && #[trigger] lists_value(groups@[t2], v) ==> string_views(vs@).contains(v),
            decreases groups@.len() - t,
        {
            let values = &groups[t].values;
            let mut j: usize = 0;
            while j < values.len()
                invariant
                    t < groups@.len(),
                    groups@ == self.target_to_value@,
                    values@ == groups@[t as int].values@,
                    j <= values@.len(),
                    string_views(vs@).no_duplicates(),
                    forall|v: Seq<char>| string_views(vs@).contains(v) ==> is_listed(groups@, v),
                    forall|t2: int, v: Seq<char>|
                        0 <= t2 < t && #[trigger] lists_value(groups@[t2], v) ==> string_views(vs@).contains(v),
                    forall|j2: int| 0 <= j2 < j ==> string_views(vs@).contains(#[trigger] values@[j2]@),
                decreases values@.len() - j,
            {
                let ghost before = vs@;
                proof {
                    assert(string_views(values@)[j as int] == values@[j as int]@);
                    assert(lists_value(groups@[t as int], values@[j as int]@));
                }
                if !contains_string(&vs, &values[j]) {
                    vs.push(values[j].clone());
                    proof {
                        assert(string_views(vs@) =~= string_views(before).push(values@[j as int]@));
                        assert(string_views(vs@)[before.len() as int] == values@[j as int]@);
                        assert forall|v: Seq<char>| string_views(vs@).contains(v) implies is_listed(groups@, v) by {
                            if v != values@[j as int]@ {
                                let i: int = choose|i: int| 0 <= i < string_views(vs@).len() && string_views(vs@)[i] == v;
                                assert(string_views(before)[i] == v);
                            }
                        }
                        assert forall|x: Seq<char>| string_views(before).contains(x) implies string_views(vs@).contains(x) by {
                            let i: int = choose|i: int| 0 <= i < string_views(before).len() && string_views(before)[i] == x;
                            assert(string_views(vs@)[i] == x);
                        }
                    }
                }
                j = j + 1;
            }
            proof {
                assert forall|t2: int, v: Seq<char>|
                    0 <= t2 < t + 1 && #[trigger] lists_value(groups@[t2], v) implies string_views(vs@).contains(v) by {
                    if t2 == t {
                        let i: int = choose|i: int| 0 <= i < string_views(values@).len() && string_views(values@)[i] == v;
                        assert(string_views(vs@).contains(values@[i]@));
                    }
                }
            }
            t = t + 1;
        }
        vs
    }
}

/// The values of the exports, in order.
pub open spec fn export_values(exps: Seq<Export>) -> Seq<Seq<char>> {
    exps.map_values(|e: Export| e.value@)
}

impl SplitOptions {
    /// What splitting `rows` gives: success exactly when `split_succeeds`; the first unread
    /// row when there is one; for each other failure, a value whose group cannot be written;
    /// on success, one export per listed value, each matching its group.
    pub open spec fn split_outcome(self, rows: Seq<Option<Record>>, r: Result<Vec<Export>, SplitError>) -> bool {
        let groups = self.target_to_value@;
        &&& (r is Ok <==> self.split_succeeds(rows))
        &&& (!all_read(rows) ==> (r matches Err(SplitError::UnreadableRecord(i)) && i < rows.len()
            && rows[i as int] is None && forall|j: int| 0 <= j < i ==> #[trigger] rows[j] is Some))
        &&& (r matches Err(SplitError::UnreadableRecord(_)) ==> !all_read(rows))
        &&& (r matches Err(SplitError::EmptyGroup(v)) ==> all_read(rows) && is_listed(groups, v@)
            && self.group_rows(rows, group_of(groups, v@)->0).len() == 0)
        &&& (r matches Err(SplitError::IncompleteRecord(v)) ==> all_read(rows) && is_listed(groups, v@)
            && self.group_rows(rows, group_of(groups, v@)->0).len() > 0
            && !self.group_complete(rows, group_of(groups, v@)->0))
        &&& (r matches Ok(exps) ==> {
            &&& export_values(exps@).no_duplicates()
            &&& forall|v: Seq<char>| export_values(exps@).contains(v) <==> is_listed(groups, v)
            &&& forall|i: int| 0 <= i < exps@.len() ==> #[trigger] self.export_matches(rows, exps@[i])
        })
    }

    /// The values of `rec` under `header`; `None` when it lacks one of those columns.
    fn values_under(rec: &Record, header: &Vec<String>) -> (r: Option<Vec<String>>)
        ensures
            match r {
                Some(vals) => (forall|i: int| 0 <= i < header@.len() ==> #[trigger] rec@.contains_key(header@[i]@))
                    && vals.deep_view() == row_values(rec@, string_views(header@)),
                None => exists|i: int| 0 <= i < header@.len() && !#[trigger] rec@.contains_key(header@[i]@),
            },
    {
        let mut vals: Vec<String> = Vec::new();
        let mut h: usize = 0;
        while h < header.len()
            invariant
                h <= header@.len(),
                vals@.len() == h,
                forall|i: int| 0 <= i < h ==> #[trigger] rec@.contains_key(header@[i]@),
                forall|i: int| 0 <= i < h ==> #[trigger] vals@[i]@ == rec@[header@[i]@],
            decreases header@.len() - h,
        {
            match rec.get(&header[h]) {
                Some(x) => {
                    vals.push(x.clone());
                },
                None => {
                    return None;
                },
            }
            h = h + 1;
        }
        proof {
            assert(vals.deep_view() =~= row_values(rec@, string_views(header@)));
        }
        Some(vals)
    }

    /// Splits the rows among the groups: one export per listed value, carrying the rows of
    /// the group that the value is assigned to. Fails on the first row that could not be
    /// read, and on a group that cannot be written.
    pub fn split_records(&self, rows: &Vec<Option<Record>>) -> (r: Result<Vec<Export>, SplitError>)
        ensures
            self.split_outcome(rows@, r),
    {
        let mut i: usize = 0;
        while i < rows.len()
            invariant
                i <= rows@.len(),
                forall|j: int| 0 <= j < i ==> #[trigger] rows@[j] is Some,
            decreases rows@.len() - i,
        {
            if rows[i].is_none() {
                return Err(SplitError::UnreadableRecord(i));
            }
            i = i + 1;
        }
        let vs = self.listed_values();
        let mut exps: Vec<Export> = Vec::new();
        let mut s: usize = 0;
        while s < vs.len()
            invariant
                all_read(rows@),
                s <= vs@.len(),
                string_views(vs@).no_duplicates(),
                forall|v: Seq<char>| string_views(vs@).contains(v) <==> is_listed(self.target_to_value@, v),
                export_values(exps@) =~= string_views(vs@).take(s as int),
                forall|k: int| 0 <= k < exps@.len() ==> #[trigger] self.export_matches(rows@, exps@[k]),
                forall|k: int| 0 <= k < s ==> #[trigger] self.value_writable(rows@, string_views(vs@)[k]),
            decreases vs@.len() - s,
        {
            let v = &vs[s];
            proof {
                assert(string_views(vs@)[s as int] == v@);
                assert(is_listed(self.target_to_value@, v@));
                lemma_group_of(self.target_to_value@, v@, self.target_to_value@.len() as int);
            }
            let g: usize = self.group_for(v).unwrap();
            let ms = self.rows_of_group(rows, g);
            let ghost grs = self.group_rows(rows@, g as int);
            proof {
                assert(ms@.map_values(|x: usize| x as int).len() == ms@.len());
            }
            if ms.len() == 0 {
                proof {
                    assert(grs.len() == 0);
                    assert(!self.value_writable(rows@, v@));
                }
                return Err(SplitError::EmptyGroup(v.clone()));
            }
            proof {
                assert(ms@.map_values(|x: usize| x as int)[0] == ms@[0] as int);
                assert(rows@[ms@[0] as int] is Some);
            }
            let first = rows[ms[0]].as_ref().unwrap();
            let header = first.keys();
            let ghost hv = self.group_header(rows@, g as int);
            proof {
                assert(hv == string_views(header@));
            }
            let mut table: Vec<Vec<String>> = Vec::new();
            let mut m: usize = 0;
            while m < ms.len()
                invariant
                    all_read(rows@),
                    m <= ms@.len(),
                    ms@.map_values(|x: usize| x as int) == grs,
                    grs == self.group_rows(rows@, g as int),
                    hv == self.group_header(rows@, g as int),
                    group_of(self.target_to_value@, v@) == Some(g as int),
                    is_listed(self.target_to_value@, v@),
                    forall|q: int| 0 <= q < ms@.len() ==> #[trigger] ms@[q] < rows@.len(),
                    hv == string_views(header@),
                    table@.len() == m,
                    forall|q: int, k: Seq<char>| 0 <= q < m && hv.contains(k) ==> #[trigger] row_map(rows@[ms@[q] as int]).contains_key(k),
                    forall|q: int| 0 <= q < m ==> #[trigger] table@[q].deep_view() == row_values(row_map(rows@[ms@[q] as int]), hv),
                decreases ms@.len() - m,
            {
                assert(rows@[ms@[m as int] as int] is Some);
                let rec = rows[ms[m]].as_ref().unwrap();
                match Self::values_under(rec, &header) {
                    Some(vals) => {
                        proof {
                            assert forall|k: Seq<char>| hv.contains(k) implies #[trigger] row_map(rows@[ms@[m as int] as int]).contains_key(k) by {
                                let i: int = choose|i: int| 0 <= i < hv.len() && hv[i] == k;
                                assert(header@[i]@ == k);
                            }
                        }
                        table.push(vals);
                    },
                    None => {
                        proof {
                            let i: int = choose|i: int| 0 <= i < header@.len() && !#[trigger] rec@.contains_key(header@[i]@);
                            assert(grs[m as int] == ms@[m as int] as int);
                            assert(hv[i] == header@[i]@);
                            assert(!row_map(rows@[grs[m as int]]).contains_key(hv[i]));
                            assert(hv.contains(hv[i]));
                            assert(0 <= m < grs.len());
                            assert(!self.group_complete(rows@, g as int));
                            assert(!self.value_writable(rows@, v@));
                        }
                        return Err(SplitError::IncompleteRecord(v.clone()));
                    },
                }
                m = m + 1;
            }
            let targets = copy_strings(&self.target_to_value[g].targets);
            let e = Export { value: v.clone(), targets, header, rows: table };
            proof {
                assert(table.deep_view() =~= self.group_table(rows@, g as int));
                assert(self.group_complete(rows@, g as int)) by {
                    assert forall|q: int, k: Seq<char>|
                        0 <= q < grs.len() && hv.contains(k) implies #[trigger] row_map(rows@[grs[q]]).contains_key(k) by {
                        assert(grs[q] == ms@[q] as int);
                    }
                }
                assert(self.value_writable(rows@, v@));
            }
            let ghost before = exps@;
            exps.push(e);
            proof {
                assert(export_values(exps@) =~= export_values(before).push(v@));
                assert(string_views(vs@).take(s + 1) =~= string_views(vs@).take(s as int).push(v@));
            }
            s = s + 1;
        }
        proof {
            assert(string_views(vs@).take(s as int) =~= string_views(vs@));
            assert forall|v: Seq<char>| is_listed(self.target_to_value@, v) implies #[trigger] self.value_writable(rows@, v) by {
                let k: int = choose|k: int| 0 <= k < string_views(vs@).len() && string_views(vs@)[k] == v;
            }
        }
        Ok(exps)
    }
}

/// `rows` are the records that `bytes` reads into, row by row.
pub open spec fn read_from(rows: Seq<Option<Record>>, bytes: Seq<u8>) -> bool {
    &&& rows.len() == csv_table(bytes).1.len()
    &&& forall|i: int| 0 <= i < rows.len() ==> #[trigger] record_view(rows[i]) == table_records(
        csv_table(bytes).0,
        csv_table(bytes).1,
    )[i]
    &&& forall|i: int| 0 <= i < rows.len() ==> (#[trigger] rows[i] matches Some(rec) ==> rec.columns()
        == header_columns(csv_table(bytes).0))
}

impl SplitOptions {
    /// Reads the CSV data and splits its rows among the groups.
    pub fn execute(&self, csv: &[u8]) -> (r: Result<Vec<Export>, SplitError>)
        ensures
            exists|rows: Seq<Option<Record>>| read_from(rows, csv@) && self.split_outcome(rows, r),
    {
        let rows = parse_csv_records(csv);
        let r = self.split_records(&rows);
        assert(read_from(rows@, csv@));
        r
    }
}

impl ParseConfig {
    /// What carrying out the configuration on the CSV data `csv` gives: the outcome of the
    /// configured split on the records the data reads into; with no split, nothing to write.
    pub open spec fn parse_outcome(self, csv: Seq<u8>, r: Result<Vec<Export>, SplitError>) -> bool {
        match self.split_options {
            Some(so) => exists|rows: Seq<Option<Record>>| read_from(rows, csv) && so.split_outcome(rows, r),
            None => r matches Ok(exps) && exps@.len() == 0,
        }
    }

    /// Carries out the configured split on the CSV data; with no split configured there is
    /// nothing to write.
    pub fn parse_csv(&self, csv: &[u8]) -> (r: Result<Vec<Export>, SplitError>)
        ensures
            self.parse_outcome(csv@, r),
    {
        match &self.split_options {
            Some(so) => so.execute(csv),
            None => Ok(Vec::new()),
        }
    }
}

impl ExecuteOptions {
    /// Carries out the request on the contents of its CSV file; with no configuration there
    /// is nothing to write.
    pub fn execute(&self, csv: &[u8]) -> (r: Result<Vec<Export>, SplitError>)
        ensures
            match self.parse_config {
                Some(pc) => match pc.split_options {
                    Some(so) => exists|rows: Seq<Option<Record>>| read_from(rows, csv@) && so.split_outcome(rows, r),
                    None => r matches Ok(exps) && exps@.len() == 0,
                },
                None => r matches Ok(exps) && exps@.len() == 0,
            },
    {
        match &self.parse_config {
            Some(pc) => pc.parse_csv(csv),
            None => Ok(Vec::new()),
        }
    }
}

impl FilterOptions {
    /// A row with the filtered columns dropped.
    pub open spec fn filtered(self, m: Map<Seq<char>, Seq<char>>) -> Map<Seq<char>, Seq<char>> {
        m.remove_keys(string_views(self.filter_column_name@).to_set())
    }

    /// The output for one row: the row without the filtered columns, or an empty row when it
    /// could not be read.
    pub open spec fn filtered_row(self, row: Option<Map<Seq<char>, Seq<char>>>) -> Map<Seq<char>, Seq<char>> {
        match row {
            Some(m) => self.filtered(m),
            None => Map::empty(),
        }
    }

    /// Drops the filtered columns from every row; a row that could not be read becomes an
    /// empty row.
    pub fn filter_records(&self, rows: &Vec<Option<Record>>) -> (out: Vec<Record>)
        ensures
            out@.len() == rows@.len(),
            forall|i: int| 0 <= i < out@.len() ==> #[trigger] out@[i]@ == self.filtered_row(record_view(rows@[i])),
    {
        let mut out: Vec<Record> = Vec::new();
        let mut i: usize = 0;
        while i < rows.len()
            invariant
                i <= rows@.len(),
                out@.len() == i,
                forall|j: int| 0 <= j < i ==> #[trigger] out@[j]@ == self.filtered_row(record_view(rows@[j])),
            decreases rows@.len() - i,
        {
            let rec = match &rows[i] {
                Some(r) => {
                    let mut rec = r.duplicate();
                    let mut c: usize = 0;
                    while c < self.filter_column_name.len()
                        invariant
                            c <= self.filter_column_name@.len(),
                            rec@ == r@.remove_keys(string_views(self.filter_column_name@).take(c as int).to_set()),
                        decreases self.filter_column_name@.len() - c,
                    {
                        let ghost before = rec@;
                        rec.remove(&self.filter_column_name[c]);
                        proof {
                            let cols = string_views(self.filter_column_name@);
                            assert(cols.take(c + 1) =~= cols.take(c as int).push(cols[c as int]));
                            cols.take(c as int).lemma_push_to_set_commute(cols[c as int]);
                            assert(rec@ =~= r@.remove_keys(cols.take(c + 1).to_set()));
                        }
                        c = c + 1;
                    }
                    proof {
                        let cols = string_views(self.filter_column_name@);
                        assert(cols.take(c as int) =~= cols);
                    }
                    rec
                },
                None => Record::new(),
            };
            out.push(rec);
            i = i + 1;
        }
        out
    }

    /// Reads the CSV data and drops the filtered columns from every row; a row that could
    /// not be read becomes an empty row.
    pub fn execute_on_csv_record(&self, csv: &[u8]) -> (out: Vec<Record>)
        ensures
            out@.len() == csv_table(csv@).1.len(),
            forall|i: int| 0 <= i < out@.len() ==> #[trigger] out@[i]@ == self.filtered_row(
                table_records(csv_table(csv@).0, csv_table(csv@).1)[i],
            ),
    {
        let rows = parse_csv_records(csv);
        self.filter_records(&rows)
    }
}

impl OutputOptions {
    /// The actions that send on a written file: an e-mail to the recipients when `smtp` is
    /// set to true, then the SFTP notice when `sftp` is set to true.
    pub fn export(&self, targets: Vec<String>, file_path: String) -> (actions: Vec<ExportAction>)
        ensures
            actions@.len() == (if self.smtp == Some(true) { 1int } else { 0int }) + (if self.sftp == Some(true) { 1int } else { 0int }),
            self.smtp == Some(true) ==> actions@[0] == (ExportAction::SendEmail { recipients: targets, file_path }),
            self.sftp == Some(true) ==> actions@[actions@.len() - 1] is NotifySftp,
    {
        let mut actions: Vec<ExportAction> = Vec::new();
        if self.smtp == Some(true) {
            actions.push(ExportAction::SendEmail { recipients: targets, file_path });
        }
        if self.sftp == Some(true) {
            actions.push(ExportAction::NotifySftp);
        }
        actions
    }
}

impl SplitOptions {
    /// The members of a group are the rows that go to it, in increasing order.
    pub proof fn lemma_members(self, rows: Seq<Option<Record>>, g: int, n: int)
        requires
            0 <= n <= rows.len(),
        ensures
            forall|j: int| 0 <= j < n ==> (self.members(rows, g, n).contains(j) <==> self.record_group(
                row_map(#[trigger] rows[j]),
            ) == Some(g)),
            forall|a: int| 0 <= a < self.members(rows, g, n).len() ==> 0 <= #[trigger] self.members(rows, g, n)[a] < n,
            forall|a: int, b: int|
                0 <= a < b < self.members(rows, g, n).len() ==> #[trigger] self.members(rows, g, n)[a]
                    < #[trigger] self.members(rows, g, n)[b],
        decreases n,
    {
        if n > 0 {
            self.lemma_members(rows, g, n - 1);
            let prev = self.members(rows, g, n - 1);
            let cur = self.members(rows, g, n);
            assert forall|j: int| 0 <= j < n implies (cur.contains(j) <==> self.record_group(
                row_map(#[trigger] rows[j]),
            ) == Some(g)) by {
                if self.record_group(row_map(rows[n - 1])) == Some(g) {
                    assert(cur == prev.push(n - 1));
                    if j == n - 1 {
                        assert(cur[prev.len() as int] == j);
                    } else {
                        if prev.contains(j) {
                            let a: int = choose|a: int| 0 <= a < prev.len() && prev[a] == j;
                            assert(cur[a] == j);
                        }
                        if cur.contains(j) {
                            let a: int = choose|a: int| 0 <= a < cur.len() && cur[a] == j;
                            assert(a < prev.len());
                            assert(prev[a] == j);
                        }
                    }
                } else {
                    if j == n - 1 && cur.contains(j) {
                        let a: int = choose|a: int| 0 <= a < prev.len() && prev[a] == j;
                        assert(prev[a] < n - 1);
                    }
                }
            }
        }
    }
}

/// Two values assigned to the same group get the same file: the same recipients, the same
/// header row and the same rows.
pub proof fn law_same_group_same_file(s: SplitOptions, rows: Seq<Option<Record>>, e1: Export, e2: Export)
    requires
        s.export_matches(rows, e1),
        s.export_matches(rows, e2),
        group_of(s.target_to_value@, e1.value@) == group_of(s.target_to_value@, e2.value@),
    ensures
        string_views(e1.targets@) == string_views(e2.targets@),
        string_views(e1.header@) == string_views(e2.header@),
        e1.rows.deep_view() == e2.rows.deep_view(),
{
}

/// Every row that goes to the group of an export's value is among the export's rows,
/// written under the export's header row.
pub proof fn law_group_rows_are_exported(s: SplitOptions, rows: Seq<Option<Record>>, e: Export, j: int)
    requires
        s.export_matches(rows, e),
        0 <= j < rows.len(),
        s.record_group(row_map(rows[j])) == group_of(s.target_to_value@, e.value@),
    ensures
        e.rows.deep_view().contains(row_values(row_map(rows[j]), string_views(e.header@))),
{
    let g: int = group_of(s.target_to_value@, e.value@)->0;
    s.lemma_members(rows, g, rows.len() as int);
    let grs = s.group_rows(rows, g);
    assert(grs.contains(j));
    let a: int = choose|a: int| 0 <= a < grs.len() && grs[a] == j;
    assert(e.rows.deep_view()[a] == row_values(row_map(rows[j]), string_views(e.header@)));
}

/// Every row of an export comes from a row of the input that goes to the group of the
/// export's value, and the rows keep the order of the input.
pub proof fn law_exported_rows_come_from_group(s: SplitOptions, rows: Seq<Option<Record>>, e: Export, i: int)
    requires
        s.export_matches(rows, e),
        0 <= i < e.rows@.len(),
    ensures
        exists|j: int|
            0 <= j < rows.len() && s.record_group(row_map(#[trigger] rows[j])) == group_of(s.target_to_value@, e.value@)
                && e.rows.deep_view()[i] == row_values(row_map(rows[j]), string_views(e.header@)),
        forall|a: int, b: int|
            0 <= a < b < s.group_rows(rows, group_of(s.target_to_value@, e.value@)->0).len() ==>
                #[trigger] s.group_rows(rows, group_of(s.target_to_value@, e.value@)->0)[a]
                < #[trigger] s.group_rows(rows, group_of(s.target_to_value@, e.value@)->0)[b],
{
    let g: int = group_of(s.target_to_value@, e.value@)->0;
    s.lemma_members(rows, g, rows.len() as int);
    let grs = s.group_rows(rows, g);
    assert(e.rows.deep_view().len() == e.rows@.len());
    let j: int = grs[i];
    assert(grs.contains(j));
    assert(s.record_group(row_map(rows[j])) == Some(g));
}

/// Filtering drops exactly the listed columns and keeps the value of every other column.
pub proof fn law_filter_drops_only_listed(f: FilterOptions, m: Map<Seq<char>, Seq<char>>)
    ensures
        forall|k: Seq<char>| #[trigger] f.filtered(m).contains_key(k) <==> (m.contains_key(k)
            && !string_views(f.filter_column_name@).contains(k)),
        forall|k: Seq<char>| #[trigger] f.filtered(m).contains_key(k) ==> f.filtered(m)[k] == m[k],
{
}

/// A value listed by two groups belongs to the later one: a later group takes a value over
/// from an earlier one.
pub proof fn law_later_group_takes_value(groups: Seq<TargetValues>, v: Seq<char>, t1: int, t2: int)
    requires
        0 <= t1 < t2 < groups.len(),
        lists_value(groups[t1], v),
        lists_value(groups[t2], v),
    ensures
        group_of(groups, v) is Some,
        group_of(groups, v) != Some(t1),
        group_of(groups, v)->0 >= t2,
{
    lemma_group_of(groups, v, groups.len() as int);
}

impl Export {
    /// The CSV file of the export: its header row, then its rows.
    pub fn to_csv(&self) -> (b: Vec<u8>)
        requires
            forall|i: int| 0 <= i < self.rows@.len() ==> #[trigger] self.rows@[i]@.len() == self.header@.len(),
        ensures
            b@ == csv_encoding(seq![self.header.deep_view()] + self.rows.deep_view()),
    {
        write_csv_table(&self.header, &self.rows)
    }
}

/// Every row of an export has one value per column of its header row, so the export can be
/// written as CSV.
pub proof fn law_export_rows_fit_header(s: SplitOptions, rows: Seq<Option<Record>>, e: Export)
    requires
        s.export_matches(rows, e),
    ensures
        forall|i: int| 0 <= i < e.rows@.len() ==> #[trigger] e.rows@[i]@.len() == e.header@.len(),
{
    assert forall|i: int| 0 <= i < e.rows@.len() implies #[trigger] e.rows@[i]@.len() == e.header@.len() by {
        let g: int = group_of(s.target_to_value@, e.value@)->0;
        let grs = s.group_rows(rows, g);
        let hdr = s.group_header(rows, g);
        assert(e.rows.deep_view().len() == e.rows@.len());
        assert(e.rows.deep_view()[i] == e.rows@[i].deep_view());
        assert(s.group_table(rows, g)[i] == row_values(row_map(rows[grs[i]]), hdr));
        assert(string_views(e.header@).len() == e.header@.len());
    }
}

/// The file type does not change what is split: two configurations with the same split give
/// the same outcome on the same data, whatever file type each writes.
pub proof fn law_split_ignores_file_type(
    p1: ParseConfig,
    p2: ParseConfig,
    csv: Seq<u8>,
    r: Result<Vec<Export>, SplitError>,
)
    requires
        p1.split_options == p2.split_options,
    ensures
        p1.parse_outcome(csv, r) == p2.parse_outcome(csv, r),
{
}

/// Two filter lists that name the same columns of a row give the same row: the order of the
/// names, repeated names and names the row lacks make no difference.
pub proof fn law_filter_depends_on_named_columns(f1: FilterOptions, f2: FilterOptions, m: Map<Seq<char>, Seq<char>>)
    requires
        forall|k: Seq<char>| #[trigger] m.contains_key(k) ==> (string_views(f1.filter_column_name@).contains(k)
            <==> string_views(f2.filter_column_name@).contains(k)),
    ensures
        f1.filtered(m) == f2.filtered(m),
        f1.filtered_row(Some(m)) == f2.filtered_row(Some(m)),
{
    assert(f1.filtered(m) =~= f2.filtered(m));
}

/// Two lists of rows that read alike: row by row, both were read or neither was, with the
/// same map and the same columns.
pub open spec fn rows_alike(rows1: Seq<Option<Record>>, rows2: Seq<Option<Record>>) -> bool {
    &&& rows1.len() == rows2.len()
    &&& forall|i: int| 0 <= i < rows1.len() ==> (#[trigger] rows1[i] is Some <==> rows2[i] is Some)
    &&& forall|i: int| 0 <= i < rows1.len() ==> #[trigger] row_map(rows1[i]) == row_map(rows2[i])
    &&& forall|i: int| 0 <= i < rows1.len() ==> #[trigger] row_columns(rows1[i]) == row_columns(rows2[i])
}

/// Two lists of rows read from the same bytes read alike.
proof fn lemma_read_alike(rows1: Seq<Option<Record>>, rows2: Seq<Option<Record>>, csv: Seq<u8>)
    requires
        read_from(rows1, csv),
        read_from(rows2, csv),
    ensures
        rows_alike(rows1, rows2),
{
    assert forall|i: int| 0 <= i < rows1.len() implies (#[trigger] rows1[i] is Some <==> rows2[i] is Some)
        && row_map(rows1[i]) == row_map(rows2[i]) && row_columns(rows1[i]) == row_columns(rows2[i]) by {
        assert(record_view(rows1[i]) == record_view(rows2[i]));
    }
}

impl SplitOptions {
    /// Rows that read alike go to the same groups.
    proof fn lemma_members_alike(self, rows1: Seq<Option<Record>>, rows2: Seq<Option<Record>>, g: int, n: int)
        requires
            rows_alike(rows1, rows2),
            n <= rows1.len(),
        ensures
            self.members(rows1, g, n) == self.members(rows2, g, n),
        decreases n,
    {
        if n > 0 {
            self.lemma_members_alike(rows1, rows2, g, n - 1);
            assert(row_map(rows1[n - 1]) == row_map(rows2[n - 1]));
        }
    }

    /// Splitting rows that read alike gives the same outcome.
    proof fn lemma_split_alike(self, rows1: Seq<Option<Record>>, rows2: Seq<Option<Record>>)
        requires
            rows_alike(rows1, rows2),
        ensures
            self.split_succeeds(rows1) == self.split_succeeds(rows2),
            forall|e: Export| #[trigger] self.export_matches(rows1, e) == self.export_matches(rows2, e),
    {
        assert forall|g: int| #[trigger] self.group_rows(rows1, g) == self.group_rows(rows2, g) by {
            self.lemma_members_alike(rows1, rows2, g, rows1.len() as int);
        }
        assert forall|g: int| #[trigger] self.group_header(rows1, g) == self.group_header(rows2, g) by {
            assert(self.group_rows(rows1, g) == self.group_rows(rows2, g));
            let grs = self.group_rows(rows1, g);
            if grs.len() > 0 {
                self.lemma_members(rows1, g, rows1.len() as int);
                assert(0 <= grs[0] < rows1.len());
                assert(row_columns(rows1[grs[0]]) == row_columns(rows2[grs[0]]));
            }
        }
        assert forall|g: int| #[trigger] self.group_table(rows1, g) == self.group_table(rows2, g) by {
            assert(self.group_rows(rows1, g) == self.group_rows(rows2, g));
            assert(self.group_header(rows1, g) == self.group_header(rows2, g));
            let grs = self.group_rows(rows1, g);
            self.lemma_members(rows1, g, rows1.len() as int);
            assert forall|a: int| 0 <= a < grs.len() implies #[trigger] self.group_table(rows1, g)[a]
                == self.group_table(rows2, g)[a] by {
                assert(row_map(rows1[grs[a]]) == row_map(rows2[grs[a]]));
            }
            assert(self.group_table(rows1, g) =~= self.group_table(rows2, g));
        }
        assert forall|g: int| #[trigger] self.group_complete(rows1, g) == self.group_complete(rows2, g) by {
            let grs = self.group_rows(rows1, g);
            let hdr = self.group_header(rows1, g);
            assert(self.group_rows(rows1, g) == self.group_rows(rows2, g));
            assert(self.group_header(rows1, g) == self.group_header(rows2, g));
            self.lemma_members(rows1, g, rows1.len() as int);
            if self.group_complete(rows1, g) {
                assert forall|i: int, k: Seq<char>| 0 <= i < grs.len() && hdr.contains(k) implies
                    #[trigger] row_map(rows2[self.group_rows(rows2, g)[i]]).contains_key(k) by {
                    assert(row_map(rows1[grs[i]]).contains_key(k));
                    assert(row_map(rows1[grs[i]]) == row_map(rows2[grs[i]]));
                }
            }
            if self.group_complete(rows2, g) {
                assert forall|i: int, k: Seq<char>| 0 <= i < grs.len() && hdr.contains(k) implies
                    #[trigger] row_map(rows1[self.group_rows(rows1, g)[i]]).contains_key(k) by {
                    assert(row_map(rows2[self.group_rows(rows2, g)[i]]).contains_key(k));
                    assert(row_map(rows1[grs[i]]) == row_map(rows2[grs[i]]));
                }
            }
        }
        assert forall|v: Seq<char>| #[trigger] self.value_writable(rows1, v) == self.value_writable(rows2, v) by {
            let g = group_of(self.target_to_value@, v)->0;
            assert(self.group_rows(rows1, g) == self.group_rows(rows2, g));
            assert(self.group_complete(rows1, g) == self.group_complete(rows2, g));
        }
        assert(all_read(rows1) == all_read(rows2)) by {
            if all_read(rows1) {
                assert forall|i: int| 0 <= i < rows2.len() implies #[trigger] rows2[i] is Some by {
                    assert(rows1[i] is Some);
                }
            }
            if all_read(rows2) {
                assert forall|i: int| 0 <= i < rows1.len() implies #[trigger] rows1[i] is Some by {
                    assert(rows2[i] is Some);
                }
            }
        }
        assert(self.split_succeeds(rows1) == self.split_succeeds(rows2)) by {
            if self.split_succeeds(rows1) {
                assert forall|v: Seq<char>| is_listed(self.target_to_value@, v) implies #[trigger] self.value_writable(rows2, v) by {
                    assert(self.value_writable(rows1, v));
                }
            }
            if self.split_succeeds(rows2) {
                assert forall|v: Seq<char>| is_listed(self.target_to_value@, v) implies #[trigger] self.value_writable(rows1, v) by {
                    assert(self.value_writable(rows2, v));
                }
            }
        }
        assert forall|e: Export| #[trigger] self.export_matches(rows1, e) == self.export_matches(rows2, e) by {
            let g = group_of(self.target_to_value@, e.value@);
            if g is Some {
                assert(self.group_header(rows1, g->0) == self.group_header(rows2, g->0));
                assert(self.group_table(rows1, g->0) == self.group_table(rows2, g->0));
            }
        }
    }
}

/// Carrying out the same split on the same data gives the same files, whatever file type each
/// configuration writes: both succeed or both fail, and on success there are as many exports,
/// each export of one matching an export of the other with the same value, recipients, header
/// row and rows.
pub proof fn law_same_split_same_files(
    p1: ParseConfig,
    p2: ParseConfig,
    csv: Seq<u8>,
    r1: Result<Vec<Export>, SplitError>,
    r2: Result<Vec<Export>, SplitError>,
)
    requires
        p1.split_options == p2.split_options,
        p1.parse_outcome(csv, r1),
        p2.parse_outcome(csv, r2),
    ensures
        r1 is Ok <==> r2 is Ok,
        (r1 is Ok && r2 is Ok) ==> r1->Ok_0@.len() == r2->Ok_0@.len(),
        (r1 is Ok && r2 is Ok) ==> forall|i: int|
            0 <= i < r1->Ok_0@.len() ==> exists|j: int|
                0 <= j < r2->Ok_0@.len() && (#[trigger] r1->Ok_0@[i]).value@ == r2->Ok_0@[j].value@
                    && string_views(r1->Ok_0@[i].targets@) == string_views(r2->Ok_0@[j].targets@)
                    && string_views(r1->Ok_0@[i].header@) == string_views(r2->Ok_0@[j].header@)
                    && r1->Ok_0@[i].rows.deep_view() == r2->Ok_0@[j].rows.deep_view(),
{
    match p1.split_options {
        None => {
            assert(r1->Ok_0@.len() == 0);
        },
        Some(so) => {
            let rows1 = choose|rows: Seq<Option<Record>>| read_from(rows, csv) && so.split_outcome(rows, r1);
            let rows2 = choose|rows: Seq<Option<Record>>| read_from(rows, csv) && so.split_outcome(rows, r2);
            lemma_read_alike(rows1, rows2, csv);
            so.lemma_split_alike(rows1, rows2);
            if r1 is Ok && r2 is Ok {
                let a = r1->Ok_0@;
                let b = r2->Ok_0@;
                let va = export_values(a);
                let vb = export_values(b);
                assert(so.split_outcome(rows1, r1));
                assert(so.split_outcome(rows2, r2));
                assert(forall|v: Seq<char>| va.contains(v) <==> is_listed(so.target_to_value@, v));
                assert(forall|v: Seq<char>| vb.contains(v) <==> is_listed(so.target_to_value@, v));
                assert(va.to_set() =~= vb.to_set()) by {
                    assert forall|v: Seq<char>| va.to_set().contains(v) <==> vb.to_set().contains(v) by {
                        assert(va.contains(v) <==> is_listed(so.target_to_value@, v));
                        assert(vb.contains(v) <==> is_listed(so.target_to_value@, v));
                    }
                }
                va.unique_seq_to_set();
                vb.unique_seq_to_set();
                assert forall|i: int| 0 <= i < r1->Ok_0@.len() implies exists|j: int|
                    0 <= j < r2->Ok_0@.len() && (#[trigger] r1->Ok_0@[i]).value@ == r2->Ok_0@[j].value@
                        && string_views(r1->Ok_0@[i].targets@) == string_views(r2->Ok_0@[j].targets@)
                        && string_views(r1->Ok_0@[i].header@) == string_views(r2->Ok_0@[j].header@)
                        && r1->Ok_0@[i].rows.deep_view() == r2->Ok_0@[j].rows.deep_view() by {
                    let v = a[i].value@;
                    assert(va[i] == v);
                    assert(va.contains(v));
                    assert(vb.contains(v));
                    let j = choose|j: int| 0 <= j < vb.len() && vb[j] == v;
                    assert(b[j].value@ == v);
                    assert(so.export_matches(rows1, a[i]));
                    assert(so.export_matches(rows2, b[j]));
                    assert(so.export_matches(rows1, b[j]));
                    assert(string_views(a[i].targets@) == string_views(b[j].targets@));
                    assert(string_views(a[i].header@) == string_views(b[j].header@));
                    assert(a[i].rows.deep_view() == b[j].rows.deep_view());
                }
            }
        },
    }
}

/// The file of a row that was read keeps every column that is not listed, with its value
/// (empty or not), and drops exactly the listed ones.
pub proof fn law_filtered_row_keeps_unlisted(f: FilterOptions, m: Map<Seq<char>, Seq<char>>)
    ensures
        forall|k: Seq<char>| #[trigger] f.filtered_row(Some(m)).contains_key(k) <==> (m.contains_key(k)
            && !string_views(f.filter_column_name@).contains(k)),
        forall|k: Seq<char>| #[trigger] f.filtered_row(Some(m)).contains_key(k) ==> f.filtered_row(Some(m))[k]
            == m[k],
{
}

/// The header row of an export is the list of all the columns of the first row that goes to
/// its group, whatever the values in that row; that row was read.
pub proof fn law_header_is_first_row_columns(s: SplitOptions, rows: Seq<Option<Record>>, e: Export, j: int)
    requires
        s.export_matches(rows, e),
        0 <= j < rows.len(),
        s.record_group(row_map(rows[j])) == group_of(s.target_to_value@, e.value@),
        forall|i: int| 0 <= i < j ==> s.record_group(row_map(#[trigger] rows[i])) != group_of(
            s.target_to_value@,
            e.value@,
        ),
    ensures
        rows[j] is Some,
        string_views(e.header@) == row_columns(rows[j]),
{
    let g: int = group_of(s.target_to_value@, e.value@)->0;
    s.lemma_members(rows, g, rows.len() as int);
    let grs = s.group_rows(rows, g);
    assert(grs.contains(j));
    let a: int = choose|a: int| 0 <= a < grs.len() && grs[a] == j;
    assert(0 <= grs[0] < rows.len());
    assert(grs.contains(grs[0]));
    assert(s.record_group(row_map(rows[grs[0]])) == Some(g));
    if a > 0 {
        assert(grs[0] < grs[a]);
    }
    assert(grs[0] == j);
    if rows[j] is None {
        assert(!row_map(rows[j]).contains_key(s.column_name@));
    }
}

/// For rows read from CSV data, the header row of every export that has rows is the CSV
/// header row's columns: every column of the input is written, whatever the values in it.
pub proof fn law_header_is_csv_header(s: SplitOptions, rows: Seq<Option<Record>>, csv: Seq<u8>, e: Export)
    requires
        read_from(rows, csv),
        s.export_matches(rows, e),
        e.rows@.len() > 0,
    ensures
        string_views(e.header@) == header_columns(csv_table(csv).0),
{
    let g: int = group_of(s.target_to_value@, e.value@)->0;
    s.lemma_members(rows, g, rows.len() as int);
    let grs = s.group_rows(rows, g);
    assert(e.rows.deep_view().len() == e.rows@.len());
    assert(grs.len() > 0);
    let j = grs[0];
    assert(0 <= j < rows.len());
    assert(grs.contains(j));
    assert(s.record_group(row_map(rows[j])) == Some(g));
    if rows[j] is None {
        assert(!row_map(rows[j]).contains_key(s.column_name@));
    }
    assert(rows[j] matches Some(rec) ==> rec.columns() == header_columns(csv_table(csv).0));
}

} // verus!
