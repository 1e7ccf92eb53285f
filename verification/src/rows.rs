//! Per-table row counting: walking the dump's lines and adding the
//! VALUES-tuple count of every line of an `INSERT ` statement — multi-line
//! statements included — to the accumulator of the table it belongs to.

use vstd::prelude::*;
use crate::ascii::ascii_chars;
use crate::filter::opt_pattern_view;
use crate::filter::spec_should_skip;
use crate::filter::should_skip;
use crate::filter::Pattern;
use crate::ident::is_table_ddl_line;
use crate::ident::spec_is_table_ddl_line;
use crate::ident::spec_table_name;
use crate::ident::table_name_from_ddl_line;
use crate::scan::contains_name;
use crate::scan::is_insert_line;
use crate::scan::lemma_key_at;
use crate::scan::note_encountered;
use crate::scan::lemma_key_at_same_keys;
use crate::scan::sat_add;
use crate::scan::sat_add_usize;
use crate::scan::spec_is_insert_line;
use crate::scan::spec_key_at;
use crate::tuples::count_insert_values_tuples_line;
use crate::tuples::spec_count_line;
use crate::tuples::threaded_flag_from;
use crate::tuples::threaded_total_from;

verus! {

/// A table's name and its accumulated row (tuple) count.
#[derive(Clone, Debug)]
pub struct TableRows {
    pub name: String,
    pub rows: usize,
}

impl View for TableRows {
    type V = (Seq<char>, nat);

    open spec fn view(&self) -> (Seq<char>, nat) {
        (self.name@, self.rows as nat)
    }
}

impl Default for TableRows {
    fn default() -> (r: TableRows)
        ensures
            r.name@ == Seq::<char>::empty(),
            r.rows == 0,
    {
        TableRows { name: String::new(), rows: 0 }
    }
}

impl PartialEq for TableRows {
    /// Tables are identified by name alone.
    fn eq(&self, other: &Self) -> bool {
        self.name.eq(&other.name)
    }
}

impl Eq for TableRows {}

impl vstd::std_specs::cmp::PartialEqSpecImpl for TableRows {
    open spec fn obeys_eq_spec() -> bool {
        true
    }

    open spec fn eq_spec(&self, other: &TableRows) -> bool {
        self.name@ == other.name@
    }
}

/// The name/count pairs a list of row accumulators holds.
pub open spec fn rows_view(s: Seq<TableRows>) -> Seq<(Seq<char>, nat)> {
    s.map_values(|t: TableRows| t.view())
}

/// The row-counting cursor: the skip flag, the selected table, whether an
/// `INSERT ` statement is still open from an earlier line, whether its
/// `VALUES` keyword has been passed, every name met so far — skipped
/// tables included — and the accumulators in the order the tables were
/// first accepted.
pub ghost struct RowScan {
    pub skip: bool,
    pub current: Option<Seq<char>>,
    pub in_insert: bool,
    pub after_values: bool,
    pub encountered: Seq<Seq<char>>,
    pub tables: Seq<(Seq<char>, nat)>,
}

/// Before any line: nothing skipped, no table current, no open statement.
pub open spec fn rows_init() -> RowScan {
    RowScan {
        skip: false,
        current: None,
        in_insert: false,
        after_values: false,
        encountered: Seq::empty(),
        tables: Seq::empty(),
    }
}

/// One line of the row scan. A definition line puts its name in the
/// encountered set whatever the skip decision; an accepted one selects
/// its table and closes any open statement; an `INSERT ` line starts a
/// fresh statement and counts its tuples; any other line while a
/// statement is open continues it with the carried VALUES-seen flag. The
/// in-statement state resets exactly when a line reports the terminating
/// `;`.
pub open spec fn row_step(
    st: RowScan,
    line: Seq<u8>,
    inc: Option<Seq<char>>,
    exc: Option<Seq<char>>,
) -> RowScan {
    if spec_is_table_ddl_line(line) {
        match spec_table_name(line) {
            Some(nb) => {
                let name = ascii_chars(nb);
                if spec_should_skip(name, inc, exc) {
                    RowScan {
                        skip: true,
                        current: None,
                        encountered: note_encountered(st.encountered, name),
                        ..st
                    }
                } else {
                    RowScan {
                        skip: false,
                        current: Some(name),
                        in_insert: false,
                        after_values: false,
                        encountered: note_encountered(st.encountered, name),
                        tables: if spec_key_at(st.tables, name) >= 0 {
                            st.tables
                        } else {
                            st.tables.push((name, 0))
                        },
                    }
                }
            },
            None => RowScan {
                skip: false,
                current: None,
                in_insert: false,
                after_values: false,
                ..st
            },
        }
    } else if !st.skip && spec_is_insert_line(line) && st.current is Some {
        let t = st.current->0;
        let j = spec_key_at(st.tables, t);
        if j >= 0 {
            let sc = spec_count_line(line, false);
            RowScan {
                tables: st.tables.update(j, (t, sat_add(st.tables[j].1, sc.count))),
                in_insert: !sc.ended,
                after_values: if sc.ended {
                    false
                } else {
                    sc.values_seen
                },
                ..st
            }
        } else {
            st
        }
    } else if !st.skip && !spec_is_insert_line(line) && st.in_insert && st.current is Some {
        let t = st.current->0;
        let j = spec_key_at(st.tables, t);
        if j >= 0 {
            let sc = spec_count_line(line, st.after_values);
            RowScan {
                tables: st.tables.update(j, (t, sat_add(st.tables[j].1, sc.count))),
                in_insert: !sc.ended,
                after_values: if sc.ended {
                    false
                } else {
                    sc.values_seen
                },
                ..st
            }
        } else {
            st
        }
    } else {
        st
    }
}

/// The row-counting state after the first `i` lines of the dump.
pub open spec fn row_scan(
    lines: Seq<Seq<u8>>,
    i: int,
    inc: Option<Seq<char>>,
    exc: Option<Seq<char>>,
) -> RowScan
    decreases i,
{
    if i <= 0 {
        rows_init()
    } else {
        row_step(row_scan(lines, i - 1, inc, exc), lines[i - 1], inc, exc)
    }
}

/// First accumulator entry keyed by `name`, if any.
fn find_rows(tables: &Vec<TableRows>, name: &String) -> (r: Option<usize>)
    ensures
        spec_key_at(rows_view(tables@), name@) >= 0 ==> (r matches Some(j) && j as int
            == spec_key_at(rows_view(tables@), name@) && (j as int) < tables@.len()
            && rows_view(tables@)[j as int].0 == name@),
        spec_key_at(rows_view(tables@), name@) < 0 ==> r is None,
{
    let n: usize = tables.len();
    let mut i: usize = 0;
    while i < n
        invariant
            0 <= i <= n,
            n == tables@.len(),
            forall|j: int| 0 <= j < i ==> rows_view(tables@)[j].0 != name@,
        decreases n - i,
    {
        if tables[i].name.eq(name) {
            proof {
                assert(rows_view(tables@)[i as int].0 == name@);
                lemma_key_at(rows_view(tables@), name@);
            }
            return Some(i);
        }
        proof {
            assert(rows_view(tables@)[i as int].0 == tables@[i as int].name@);
        }
        i = i + 1;
    }
    proof {
        lemma_key_at(rows_view(tables@), name@);
    }
    None
}

/// The row-counting cursor as a value the caller threads from line to
/// line, so a dump can be counted without holding it in memory.
pub struct RowCursor {
    skip: bool,
    current: Option<String>,
    in_insert: bool,
    after_values: bool,
    names: Vec<String>,
    tables: Vec<TableRows>,
}

impl View for RowCursor {
    type V = RowScan;

    closed spec fn view(&self) -> RowScan {
        RowScan {
            skip: self.skip,
            current: self.current.deep_view(),
            in_insert: self.in_insert,
            after_values: self.after_values,
            encountered: self.names.deep_view(),
            tables: rows_view(self.tables@),
        }
    }
}

impl RowCursor {
    /// A cursor before any line.
    pub fn new() -> (r: RowCursor)
        ensures
            r@ == rows_init(),
    {
        let r = RowCursor {
            skip: false,
            current: None,
            in_insert: false,
            after_values: false,
            names: Vec::new(),
            tables: Vec::new(),
        };
        proof {
            assert(r.names.deep_view() =~= Seq::<Seq<char>>::empty());
            assert(rows_view(r.tables@) =~= Seq::<(Seq<char>, nat)>::empty());
            assert(r@ == rows_init());
        }
        r
    }

    /// Scan one line, as `row_step` says.
    pub fn scan_line(&mut self, line: &[u8], inc: Option<&Pattern>, exc: Option<&Pattern>)
        ensures
            final(self)@ == row_step(old(self)@, line@, opt_pattern_view(inc), opt_pattern_view(exc)),
    {
        let ghost gi = opt_pattern_view(inc);
        let ghost ge = opt_pattern_view(exc);
        if is_table_ddl_line(line) {
            match table_name_from_ddl_line(line) {
                Some(name) => {
                    if !contains_name(&self.names, &name) {
                        let ghost before_names = self.names.deep_view();
                        self.names.push(name.clone());
                        proof {
                            assert(self.names.deep_view() =~= before_names.push(name@));
                        }
                    }
                    let sk = should_skip(name.as_str(), inc, exc);
                    self.skip = sk;
                    if sk {
                        self.current = None;
                    } else {
                        if find_rows(&self.tables, &name).is_none() {
                            let ghost before = rows_view(self.tables@);
                            self.tables.push(TableRows { name: name.clone(), rows: 0 });
                            proof {
                                assert(rows_view(self.tables@) =~= before.push((name@, 0)));
                            }
                        }
                        self.current = Some(name);
                        self.in_insert = false;
                        self.after_values = false;
                    }
                },
                None => {
                    self.current = None;
                    self.skip = false;
                    self.in_insert = false;
                    self.after_values = false;
                },
            }
        } else if !self.skip && is_insert_line(line) {
            if let Some(cur) = &self.current {
                match find_rows(&self.tables, cur) {
                    Some(j) => {
                        let ghost before = rows_view(self.tables@);
                        let (cnt, seen_vals, stmt_ended) = count_insert_values_tuples_line(
                            line,
                            false,
                        );
                        let added = sat_add_usize(self.tables[j].rows, cnt);
                        self.tables[j].rows = added;
                        self.in_insert = !stmt_ended;
                        self.after_values = if stmt_ended {
                            false
                        } else {
                            seen_vals
                        };
                        proof {
                            assert(rows_view(self.tables@) =~= before.update(
                                j as int,
                                (cur@, sat_add(before[j as int].1, spec_count_line(line@, false).count)),
                            ));
                        }
                    },
                    None => {},
                }
            }
        } else if !self.skip && self.in_insert {
            if let Some(cur) = &self.current {
                match find_rows(&self.tables, cur) {
                    Some(j) => {
                        let ghost before = rows_view(self.tables@);
                        let vs_was = self.after_values;
                        let (cnt, seen_vals, stmt_ended) = count_insert_values_tuples_line(
                            line,
                            vs_was,
                        );
                        let added = sat_add_usize(self.tables[j].rows, cnt);
                        self.tables[j].rows = added;
                        self.in_insert = !stmt_ended;
                        self.after_values = if stmt_ended {
                            false
                        } else {
                            seen_vals
                        };
                        proof {
                            assert(rows_view(self.tables@) =~= before.update(
                                j as int,
                                (cur@, sat_add(before[j as int].1, spec_count_line(line@, vs_was).count)),
                            ));
                        }
                    },
                    None => {},
                }
            }
        }
        proof {
            assert(self@ == row_step(old(self)@, line@, gi, ge));
        }
    }

    /// Hand back the accumulators and the encountered names when the scan
    /// is done.
    pub fn finish(self) -> (r: (Vec<TableRows>, Vec<String>))
        ensures
            rows_view(r.0@) == self@.tables,
            r.1.deep_view() == self@.encountered,
    {
        (self.tables, self.names)
    }
}

/// Walk the dump's lines and count per-table `INSERT ` rows for the
/// tables the filter keeps, supporting the multi-value and multi-line
/// `INSERT ... VALUES (...), (...), ...` syntax; also returns every table
/// name encountered, names of skipped tables included.
pub fn compute_table_row_counts(
    lines: &Vec<Vec<u8>>,
    inc: Option<&Pattern>,
    exc: Option<&Pattern>,
) -> (r: (Vec<TableRows>, Vec<String>))
    ensures
        ({
            let st = row_scan(
                lines.deep_view(),
                lines@.len() as int,
                opt_pattern_view(inc),
                opt_pattern_view(exc),
            );
            rows_view(r.0@) == st.tables && r.1.deep_view() == st.encountered
        }),
{
    let ghost dl = lines.deep_view();
    let ghost gi = opt_pattern_view(inc);
    let ghost ge = opt_pattern_view(exc);
    let mut cursor = RowCursor::new();
    let n: usize = lines.len();
    let mut k: usize = 0;
    while k < n
        invariant
            0 <= k <= n,
            n == lines@.len(),
            dl == lines.deep_view(),
            gi == opt_pattern_view(inc),
            ge == opt_pattern_view(exc),
            cursor@ == row_scan(dl, k as int, gi, ge),
        decreases n - k,
    {
        let ghost pre = row_scan(dl, k as int, gi, ge);
        let line: &Vec<u8> = &lines[k];
        proof {
            assert(dl[k as int] =~= line@);
        }
        cursor.scan_line(line.as_slice(), inc, exc);
        k = k + 1;
        proof {
            assert(row_scan(dl, k as int, gi, ge) == row_step(pre, dl[k - 1], gi, ge));
        }
    }
    cursor.finish()
}

/// Threading across the lines of one statement: a line scanned while no
/// skip is in force and a table with an accumulator is selected — an
/// `INSERT ` line opening a fresh statement, or any line continuing an
/// open one — adds exactly its own scan's tuple count to that table's
/// accumulator and no other, with the VALUES-seen flag carried over from
/// the line before; and the in-statement state resets exactly when the
/// line reports the terminating `;`.
pub proof fn lemma_row_step_threading(
    st: RowScan,
    line: Seq<u8>,
    inc: Option<Seq<char>>,
    exc: Option<Seq<char>>,
)
    requires
        !spec_is_table_ddl_line(line),
        !st.skip,
        st.current is Some,
        spec_key_at(st.tables, st.current->0) >= 0,
        spec_is_insert_line(line) || st.in_insert,
    ensures
        ({
            let st2 = row_step(st, line, inc, exc);
            let vs_in = if spec_is_insert_line(line) {
                false
            } else {
                st.after_values
            };
            let sc = spec_count_line(line, vs_in);
            let j = spec_key_at(st.tables, st.current->0);
            &&& st2.tables.len() == st.tables.len()
            &&& st2.tables[j].0 == st.tables[j].0
            &&& st2.tables[j].1 == sat_add(st.tables[j].1, sc.count)
            &&& forall|m: int|
                0 <= m < st.tables.len() && m != j ==> (#[trigger] st2.tables[m]) == st.tables[m]
            &&& st2.in_insert == !sc.ended
            &&& st2.after_values == (if sc.ended {
                false
            } else {
                sc.values_seen
            })
            &&& st2.current == st.current
            &&& st2.skip == st.skip
        }),
{
    lemma_key_at(st.tables, st.current->0);
}

/// One step leaves the accumulator list as it was, rewrites one total in
/// place, or appends one fresh name with a zero total.
proof fn lemma_row_step_shape(
    st: RowScan,
    line: Seq<u8>,
    inc: Option<Seq<char>>,
    exc: Option<Seq<char>>,
)
    ensures
        ({
            let st2 = row_step(st, line, inc, exc);
            &&& st.tables.len() <= st2.tables.len() <= st.tables.len() + 1
            &&& forall|m: int|
                0 <= m < st.tables.len() ==> (#[trigger] st2.tables[m]).0 == st.tables[m].0
            &&& st2.tables.len() == st.tables.len() + 1 ==> ({
                let name = st2.tables[st.tables.len() as int].0;
                &&& spec_key_at(st.tables, name) < 0
                &&& st2.tables == st.tables.push((name, 0))
            })
        }),
{
    let st2 = row_step(st, line, inc, exc);
    if spec_is_table_ddl_line(line) {
        if spec_table_name(line) is Some {
            let name = ascii_chars(spec_table_name(line)->0);
            if !spec_should_skip(name, inc, exc) && spec_key_at(st.tables, name) < 0 {
                assert(st2.tables == st.tables.push((name, 0)));
            }
        }
    } else if !st.skip && st.current is Some {
        let t = st.current->0;
        let j = spec_key_at(st.tables, t);
        if j >= 0 {
            lemma_key_at(st.tables, t);
            if spec_is_insert_line(line) {
                let sc = spec_count_line(line, false);
                assert(st2.tables == st.tables.update(j, (t, sat_add(st.tables[j].1, sc.count))));
            } else if st.in_insert {
                let sc = spec_count_line(line, st.after_values);
                assert(st2.tables == st.tables.update(j, (t, sat_add(st.tables[j].1, sc.count))));
            }
        }
    }
}

/// At most one accumulator per distinct name, throughout the scan.
pub proof fn lemma_row_scan_distinct(
    lines: Seq<Seq<u8>>,
    i: int,
    inc: Option<Seq<char>>,
    exc: Option<Seq<char>>,
)
    requires
        0 <= i <= lines.len(),
    ensures
        ({
            let tables = row_scan(lines, i, inc, exc).tables;
            forall|m1: int, m2: int|
                #![trigger tables[m1], tables[m2]]
                0 <= m1 < m2 < tables.len() ==> tables[m1].0 != tables[m2].0
        }),
    decreases i,
{
    if i > 0 {
        lemma_row_scan_distinct(lines, i - 1, inc, exc);
        let st = row_scan(lines, i - 1, inc, exc);
        let st2 = row_scan(lines, i, inc, exc);
        assert(st2 == row_step(st, lines[i - 1], inc, exc));
        lemma_row_step_shape(st, lines[i - 1], inc, exc);
        assert forall|m1: int, m2: int|
            #![trigger st2.tables[m1], st2.tables[m2]]
            0 <= m1 < m2 < st2.tables.len() implies st2.tables[m1].0 != st2.tables[m2].0 by {
            if m2 >= st.tables.len() {
                let name = st2.tables[m2].0;
                assert(st2.tables == st.tables.push((name, 0)));
                lemma_key_at(st.tables, name);
                assert(st2.tables[m1].0 == st.tables[m1].0);
            } else {
                assert(st2.tables[m1].0 == st.tables[m1].0);
                assert(st2.tables[m2].0 == st.tables[m2].0);
            }
        }
    }
}

/// Row counts threaded across the lines of one multi-line statement sum
/// correctly: over a run of continuation lines none of which starts a
/// table definition or a fresh statement, and none of which (except
/// possibly the last) terminates the open one, the current table's
/// accumulator grows by exactly the total of the per-line tuple counts
/// with the VALUES-seen flag threaded from line to line, no other
/// accumulator moves, and the in-statement state resets exactly when the
/// last line reports the terminating `;`.
pub proof fn lemma_rows_multiline_sum(
    lines: Seq<Seq<u8>>,
    a: int,
    b: int,
    inc: Option<Seq<char>>,
    exc: Option<Seq<char>>,
)
    requires
        0 <= a <= b <= lines.len(),
        ({
            let st = row_scan(lines, a, inc, exc);
            &&& !st.skip
            &&& st.current is Some
            &&& st.in_insert
            &&& spec_key_at(st.tables, st.current->0) >= 0
            &&& st.tables[spec_key_at(st.tables, st.current->0)].1 + threaded_total_from(
                lines,
                a,
                b,
                st.after_values,
            ) <= usize::MAX as nat
            &&& forall|k: int|
                a <= k < b ==> !spec_is_table_ddl_line(#[trigger] lines[k]) && !spec_is_insert_line(
                    lines[k],
                )
            &&& forall|k: int|
                a <= k < b - 1 ==> !spec_count_line(
                    #[trigger] lines[k],
                    threaded_flag_from(lines, a, k, st.after_values),
                ).ended
        }),
    ensures
        ({
            let st = row_scan(lines, a, inc, exc);
            let st2 = row_scan(lines, b, inc, exc);
            let j = spec_key_at(st.tables, st.current->0);
            let vs = st.after_values;
            &&& st2.skip == st.skip
            &&& st2.current == st.current
            &&& st2.tables.len() == st.tables.len()
            &&& st2.tables[j].0 == st.tables[j].0
            &&& st2.tables[j].1 == st.tables[j].1 + threaded_total_from(lines, a, b, vs)
            &&& forall|m: int|
                0 <= m < st.tables.len() && m != j ==> (#[trigger] st2.tables[m]) == st.tables[m]
            &&& st2.in_insert == (a == b || !spec_count_line(
                lines[b - 1],
                threaded_flag_from(lines, a, b - 1, vs),
            ).ended)
            &&& st2.after_values == (if st2.in_insert {
                threaded_flag_from(lines, a, b, vs)
            } else {
                false
            })
        }),
    decreases b - a,
{
    let st = row_scan(lines, a, inc, exc);
    let t = st.current->0;
    let j = spec_key_at(st.tables, t);
    let vs = st.after_values;
    lemma_key_at(st.tables, t);
    if a < b {
        lemma_rows_multiline_sum(lines, a, b - 1, inc, exc);
        let stm = row_scan(lines, b - 1, inc, exc);
        assert(stm.in_insert);
        assert(stm.after_values == threaded_flag_from(lines, a, b - 1, vs));
        assert forall|m: int| 0 <= m < stm.tables.len() implies (#[trigger] stm.tables[m]).0
            == st.tables[m].0 by {
            if m != j {
                assert(stm.tables[m] == st.tables[m]);
            }
        }
        lemma_key_at_same_keys(stm.tables, st.tables, t);
        assert(spec_key_at(stm.tables, t) == j);
        lemma_row_step_threading(stm, lines[b - 1], inc, exc);
        let st2 = row_scan(lines, b, inc, exc);
        assert(st2 == row_step(stm, lines[b - 1], inc, exc));
        let sc = spec_count_line(lines[b - 1], threaded_flag_from(lines, a, b - 1, vs));
        assert(threaded_total_from(lines, a, b, vs) == threaded_total_from(lines, a, b - 1, vs)
            + sc.count);
        assert(stm.tables[j].1 + sc.count <= usize::MAX as nat);
        assert(sat_add(stm.tables[j].1, sc.count) == stm.tables[j].1 + sc.count);
        assert(threaded_flag_from(lines, a, b, vs) == sc.values_seen);
    }
}

} // verus!
