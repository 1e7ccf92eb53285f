//! Per-table size accumulation: walking the dump's lines and adding the
//! byte length of every `INSERT ` line to the accumulator of the table it
//! belongs to.

use vstd::prelude::*;
use crate::ascii::ascii_chars;
use crate::filter::opt_pattern_view;
use crate::filter::spec_should_skip;
use crate::filter::should_skip;
use crate::filter::Pattern;
use crate::ident::is_table_ddl_line;
use crate::ident::spec_is_table_ddl_line;
use crate::ident::spec_table_name;
use crate::ident::table_name_from_ddl_line;
use crate::scan::contains_name;
use crate::scan::is_insert_line;
use crate::scan::lemma_key_at;
use crate::scan::note_encountered;
use crate::scan::sat_add;
use crate::scan::sat_add_usize;
use crate::scan::spec_is_insert_line;
use crate::scan::spec_key_at;

verus! {

/// A table's name and its accumulated `INSERT ` byte size.
#[derive(Clone, Debug)]
pub struct Table {
    pub name: String,
    pub size: usize,
}

impl View for Table {
    type V = (Seq<char>, nat);

    open spec fn view(&self) -> (Seq<char>, nat) {
        (self.name@, self.size as nat)
    }
}

impl Default for Table {
    fn default() -> (r: Table)
        ensures
            r.name@ == Seq::<char>::empty(),
            r.size == 0,
    {
        Table { name: String::new(), size: 0 }
    }
}

impl PartialEq for Table {
    /// Tables are identified by name alone.
    fn eq(&self, other: &Self) -> bool {
        self.name.eq(&other.name)
    }
}

impl Eq for Table {}

impl vstd::std_specs::cmp::PartialEqSpecImpl for Table {
    open spec fn obeys_eq_spec() -> bool {
        true
    }

    open spec fn eq_spec(&self, other: &Table) -> bool {
        self.name@ == other.name@
    }
}

/// The name/size pairs a list of accumulators holds.
pub open spec fn tables_view(s: Seq<Table>) -> Seq<(Seq<char>, nat)> {
    s.map_values(|t: Table| t.view())
}

/// The size-accumulation cursor: the skip flag, the table the last
/// definition line selected, every name met so far — skipped tables
/// included — and the accumulators in the order the tables were first
/// accepted.
pub ghost struct SizeScan {
    pub skip: bool,
    pub current: Option<Seq<char>>,
    pub encountered: Seq<Seq<char>>,
    pub tables: Seq<(Seq<char>, nat)>,
}

/// Before any line: nothing skipped, no table current, no accumulators.
pub open spec fn size_init() -> SizeScan {
    SizeScan { skip: false, current: None, encountered: Seq::empty(), tables: Seq::empty() }
}

/// One line of the size scan. A definition line puts its name in the
/// encountered set whatever the skip decision; an accepted one selects
/// its table and opens an accumulator for it if none exists, a skipped
/// one deselects; an `INSERT ` line scanned while a table is selected
/// adds the line's byte length (saturating at the machine limit) to that
/// table's accumulator.
pub open spec fn size_step(
    st: SizeScan,
    line: Seq<u8>,
    inc: Option<Seq<char>>,
    exc: Option<Seq<char>>,
) -> SizeScan {
    if spec_is_table_ddl_line(line) {
        match spec_table_name(line) {
            Some(nb) => {
                let name = ascii_chars(nb);
                if spec_should_skip(name, inc, exc) {
                    SizeScan {
                        skip: true,
                        current: None,
                        encountered: note_encountered(st.encountered, name),
                        tables: st.tables,
                    }
                } else {
                    SizeScan {
                        skip: false,
                        current: Some(name),
                        encountered: note_encountered(st.encountered, name),
                        tables: if spec_key_at(st.tables, name) >= 0 {
                            st.tables
                        } else {
                            st.tables.push((name, 0))
                        },
                    }
                }
            },
            None => SizeScan { skip: false, current: None, ..st },
        }
    } else if !st.skip && spec_is_insert_line(line) && st.current is Some {
        let t = st.current->0;
        let j = spec_key_at(st.tables, t);
        if j >= 0 {
            SizeScan { tables: st.tables.update(j, (t, sat_add(st.tables[j].1, line.len()))), ..st }
        } else {
            st
        }
    } else {
        st
    }
}

/// The size-accumulation state after the first `i` lines of the dump.
pub open spec fn size_scan(
    lines: Seq<Seq<u8>>,
    i: int,
    inc: Option<Seq<char>>,
    exc: Option<Seq<char>>,
) -> SizeScan
    decreases i,
{
    if i <= 0 {
        size_init()
    } else {
        size_step(size_scan(lines, i - 1, inc, exc), lines[i - 1], inc, exc)
    }
}

/// First accumulator entry keyed by `name`, if any.
fn find_table(tables: &Vec<Table>, name: &String) -> (r: Option<usize>)
    ensures
        spec_key_at(tables_view(tables@), name@) >= 0 ==> (r matches Some(j) && j as int
            == spec_key_at(tables_view(tables@), name@) && (j as int) < tables@.len()
            && tables_view(tables@)[j as int].0 == name@),
        spec_key_at(tables_view(tables@), name@) < 0 ==> r is None,
{
    let n: usize = tables.len();
    let mut i: usize = 0;
    while i < n
        invariant
            0 <= i <= n,
            n == tables@.len(),
            forall|j: int| 0 <= j < i ==> tables_view(tables@)[j].0 != name@,
        decreases n - i,
    {
        if tables[i].name.eq(name) {
            proof {
                assert(tables_view(tables@)[i as int].0 == name@);
                lemma_key_at(tables_view(tables@), name@);
            }
            return Some(i);
        }
        proof {
            assert(tables_view(tables@)[i as int].0 == tables@[i as int].name@);
        }
        i = i + 1;
    }
    proof {
        lemma_key_at(tables_view(tables@), name@);
    }
    None
}

/// The size-accumulation cursor as a value the caller threads from line
/// to line, so a dump can be measured without holding it in memory.
pub struct SizeCursor {
    skip: bool,
    current: Option<String>,
    names: Vec<String>,
    tables: Vec<Table>,
}

impl View for SizeCursor {
    type V = SizeScan;

    closed spec fn view(&self) -> SizeScan {
        SizeScan {
            skip: self.skip,
            current: self.current.deep_view(),
            encountered: self.names.deep_view(),
            tables: tables_view(self.tables@),
        }
    }
}

impl SizeCursor {
    /// A cursor before any line.
    pub fn new() -> (r: SizeCursor)
        ensures
            r@ == size_init(),
    {
        let r = SizeCursor { skip: false, current: None, names: Vec::new(), tables: Vec::new() };
        proof {
            assert(r.names.deep_view() =~= Seq::<Seq<char>>::empty());
            assert(tables_view(r.tables@) =~= Seq::<(Seq<char>, nat)>::empty());
            assert(r@ == size_init());
        }
        r
    }

    /// Scan one line, as `size_step` says.
    pub fn scan_line(&mut self, line: &[u8], inc: Option<&Pattern>, exc: Option<&Pattern>)
        ensures
            final(self)@ == size_step(old(self)@, line@, opt_pattern_view(inc), opt_pattern_view(exc)),
    {
        let ghost gi = opt_pattern_view(inc);
        let ghost ge = opt_pattern_view(exc);
        if is_table_ddl_line(line) {
            match table_name_from_ddl_line(line) {
                Some(name) => {
                    if !contains_name(&self.names, &name) {
                        let ghost before_names = self.names.deep_view();
                        self.names.push(name.clone());
                        proof {
                            assert(self.names.deep_view() =~= before_names.push(name@));
                        }
                    }
                    let sk = should_skip(name.as_str(), inc, exc);
                    self.skip = sk;
                    if sk {
                        self.current = None;
                    } else {
                        if find_table(&self.tables, &name).is_none() {
                            let ghost before = tables_view(self.tables@);
                            self.tables.push(Table { name: name.clone(), size: 0 });
                            proof {
                                assert(tables_view(self.tables@) =~= before.push((name@, 0)));
                            }
                        }
                        self.current = Some(name);
                    }
                },
                None => {
                    self.current = None;
                    self.skip = false;
                },
            }
        } else if !self.skip && is_insert_line(line) {
            if let Some(cur) = &self.current {
                match find_table(&self.tables, cur) {
                    Some(j) => {
                        let ghost before = tables_view(self.tables@);
                        let added = sat_add_usize(self.tables[j].size, line.len());
                        self.tables[j].size = added;
                        proof {
                            assert(tables_view(self.tables@) =~= before.update(
                                j as int,
                                (cur@, sat_add(before[j as int].1, line@.len())),
                            ));
                        }
                    },
                    None => {},
                }
            }
        }
        proof {
            assert(self@ == size_step(old(self)@, line@, gi, ge));
        }
    }

    /// Hand back the accumulators and the encountered names when the scan
    /// is done.
    pub fn finish(self) -> (r: (Vec<Table>, Vec<String>))
        ensures
            tables_view(r.0@) == self@.tables,
            r.1.deep_view() == self@.encountered,
    {
        (self.tables, self.names)
    }
}

/// Walk the dump's lines and accumulate per-table `INSERT ` byte sizes
/// for the tables the filter keeps, in the order their definitions were
/// first accepted; also returns every table name encountered, names of
/// skipped tables included.
pub fn compute_table_sizes(lines: &Vec<Vec<u8>>, inc: Option<&Pattern>, exc: Option<&Pattern>) -> (r:
    (Vec<Table>, Vec<String>))
    ensures
        ({
            let st = size_scan(
                lines.deep_view(),
                lines@.len() as int,
                opt_pattern_view(inc),
                opt_pattern_view(exc),
            );
            tables_view(r.0@) == st.tables && r.1.deep_view() == st.encountered
        }),
{
    let ghost dl = lines.deep_view();
    let ghost gi = opt_pattern_view(inc);
    let ghost ge = opt_pattern_view(exc);
    let mut cursor = SizeCursor::new();
    let n: usize = lines.len();
    let mut k: usize = 0;
    while k < n
        invariant
            0 <= k <= n,
            n == lines@.len(),
            dl == lines.deep_view(),
            gi == opt_pattern_view(inc),
            ge == opt_pattern_view(exc),
            cursor@ == size_scan(dl, k as int, gi, ge),
        decreases n - k,
    {
        let ghost pre = size_scan(dl, k as int, gi, ge);
        let line: &Vec<u8> = &lines[k];
        proof {
            assert(dl[k as int] =~= line@);
        }
        cursor.scan_line(line.as_slice(), inc, exc);
        k = k + 1;
        proof {
            assert(size_scan(dl, k as int, gi, ge) == size_step(pre, dl[k - 1], gi, ge));
        }
    }
    cursor.finish()
}

/// Size accumulation is attributable: a line changes at most one
/// accumulator — the one of the currently selected table, on an `INSERT `
/// line scanned while no skip is in force, and by exactly the line's byte
/// length. A definition line adds no bytes to any accumulator and
/// switches the selection at once, to the table it names when the filter
/// keeps it and to none when not; every other line leaves the state
/// untouched.
pub proof fn lemma_size_step_attribution(
    st: SizeScan,
    line: Seq<u8>,
    inc: Option<Seq<char>>,
    exc: Option<Seq<char>>,
)
    ensures
        ({
            let st2 = size_step(st, line, inc, exc);
            &&& st2.tables.len() >= st.tables.len()
            &&& forall|j: int|
                0 <= j < st.tables.len() ==> (#[trigger] st2.tables[j]).0 == st.tables[j].0
            &&& spec_is_table_ddl_line(line) ==> forall|j: int|
                0 <= j < st.tables.len() ==> (#[trigger] st2.tables[j]).1 == st.tables[j].1
            &&& spec_is_table_ddl_line(line) ==> (match spec_table_name(line) {
                Some(nb) => {
                    let nm = ascii_chars(nb);
                    if spec_should_skip(nm, inc, exc) {
                        st2.current is None && st2.skip
                    } else {
                        st2.current == Some(nm) && !st2.skip
                    }
                },
                None => st2.current is None && !st2.skip,
            })
            &&& !spec_is_table_ddl_line(line) && (st.skip || !spec_is_insert_line(line)
                || st.current is None) ==> st2 == st
            &&& (!spec_is_table_ddl_line(line) && !st.skip && spec_is_insert_line(line)
                && st.current is Some && spec_key_at(st.tables, st.current->0) >= 0) ==> ({
                let j = spec_key_at(st.tables, st.current->0);
                &&& st2.tables[j].1 == sat_add(st.tables[j].1, line.len())
                &&& forall|m: int|
                    0 <= m < st.tables.len() && m != j ==> (#[trigger] st2.tables[m])
                        == st.tables[m]
                &&& st2.skip == st.skip
                &&& st2.current == st.current
            })
        }),
{
    let st2 = size_step(st, line, inc, exc);
    if !spec_is_table_ddl_line(line) && !st.skip && spec_is_insert_line(line)
        && st.current is Some {
        lemma_key_at(st.tables, st.current->0);
    }
}

/// Every accumulator a scan reaches holds a total within the machine
/// limit, and over any longer prefix of the same dump the accumulators of
/// a shorter one are still there, same names, never smaller: size
/// accumulation is monotonic.
pub proof fn lemma_size_scan_monotonic(
    lines: Seq<Seq<u8>>,
    i1: int,
    i2: int,
    inc: Option<Seq<char>>,
    exc: Option<Seq<char>>,
)
    requires
        0 <= i1 <= i2 <= lines.len(),
    ensures
        size_scan(lines, i2, inc, exc).tables.len() >= size_scan(lines, i1, inc, exc).tables.len(),
        forall|j: int|
            0 <= j < size_scan(lines, i1, inc, exc).tables.len() ==> {
                &&& (#[trigger] size_scan(lines, i2, inc, exc).tables[j]).0 == size_scan(
                    lines,
                    i1,
                    inc,
                    exc,
                ).tables[j].0
                &&& size_scan(lines, i2, inc, exc).tables[j].1 >= size_scan(
                    lines,
                    i1,
                    inc,
                    exc,
                ).tables[j].1
            },
    decreases i2 - i1,
{
    if i1 < i2 {
        lemma_size_scan_monotonic(lines, i1, i2 - 1, inc, exc);
        let st = size_scan(lines, i2 - 1, inc, exc);
        lemma_size_scan_bounded(lines, i2 - 1, inc, exc);
        lemma_size_step_attribution(st, lines[i2 - 1], inc, exc);
        if !spec_is_table_ddl_line(lines[i2 - 1]) && !st.skip && spec_is_insert_line(lines[i2 - 1])
            && st.current is Some {
            lemma_key_at(st.tables, st.current->0);
        }
    }
}

/// One step leaves the accumulator list as it was, rewrites one total in
/// place, or appends one fresh name with a zero total.
proof fn lemma_size_step_shape(
    st: SizeScan,
    line: Seq<u8>,
    inc: Option<Seq<char>>,
    exc: Option<Seq<char>>,
)
    ensures
        ({
            let st2 = size_step(st, line, inc, exc);
            &&& st.tables.len() <= st2.tables.len() <= st.tables.len() + 1
            &&& forall|m: int|
                0 <= m < st.tables.len() ==> (#[trigger] st2.tables[m]).0 == st.tables[m].0
            &&& st2.tables.len() == st.tables.len() + 1 ==> ({
                let name = st2.tables[st.tables.len() as int].0;
                &&& spec_key_at(st.tables, name) < 0
                &&& st2.tables == st.tables.push((name, 0))
            })
        }),
{
    let st2 = size_step(st, line, inc, exc);
    if spec_is_table_ddl_line(line) {
        if spec_table_name(line) is Some {
            let name = ascii_chars(spec_table_name(line)->0);
            if !spec_should_skip(name, inc, exc) && spec_key_at(st.tables, name) < 0 {
                assert(st2.tables == st.tables.push((name, 0)));
            }
        }
    } else if !st.skip && spec_is_insert_line(line) && st.current is Some {
        let t = st.current->0;
        let j = spec_key_at(st.tables, t);
        if j >= 0 {
            lemma_key_at(st.tables, t);
            assert(st2.tables == st.tables.update(j, (t, sat_add(st.tables[j].1, line.len()))));
        }
    }
}

/// At most one accumulator per distinct name, throughout the scan.
pub proof fn lemma_size_scan_distinct(
    lines: Seq<Seq<u8>>,
    i: int,
    inc: Option<Seq<char>>,
    exc: Option<Seq<char>>,
)
    requires
        0 <= i <= lines.len(),
    ensures
        ({
            let tables = size_scan(lines, i, inc, exc).tables;
            forall|m1: int, m2: int|
                #![trigger tables[m1], tables[m2]]
                0 <= m1 < m2 < tables.len() ==> tables[m1].0 != tables[m2].0
        }),
    decreases i,
{
    if i > 0 {
        lemma_size_scan_distinct(lines, i - 1, inc, exc);
        let st = size_scan(lines, i - 1, inc, exc);
        let st2 = size_scan(lines, i, inc, exc);
        assert(st2 == size_step(st, lines[i - 1], inc, exc));
        lemma_size_step_shape(st, lines[i - 1], inc, exc);
        assert forall|m1: int, m2: int|
            #![trigger st2.tables[m1], st2.tables[m2]]
            0 <= m1 < m2 < st2.tables.len() implies st2.tables[m1].0 != st2.tables[m2].0 by {
            if m2 >= st.tables.len() {
                let name = st2.tables[m2].0;
                assert(st2.tables == st.tables.push((name, 0)));
                lemma_key_at(st.tables, name);
                assert(st2.tables[m1].0 == st.tables[m1].0);
            } else {
                assert(st2.tables[m1].0 == st.tables[m1].0);
                assert(st2.tables[m2].0 == st.tables[m2].0);
            }
        }
    }
}

/// Every total a scan accumulates stays within the machine limit.
pub proof fn lemma_size_scan_bounded(
    lines: Seq<Seq<u8>>,
    i: int,
    inc: Option<Seq<char>>,
    exc: Option<Seq<char>>,
)
    requires
        0 <= i <= lines.len(),
    ensures
        forall|j: int|
            0 <= j < size_scan(lines, i, inc, exc).tables.len() ==> (#[trigger] size_scan(
                lines,
                i,
                inc,
                exc,
            ).tables[j]).1 <= usize::MAX as nat,
    decreases i,
{
    if i > 0 {
        lemma_size_scan_bounded(lines, i - 1, inc, exc);
        let st = size_scan(lines, i - 1, inc, exc);
        let st2 = size_scan(lines, i, inc, exc);
        assert(st2 == size_step(st, lines[i - 1], inc, exc));
        let line = lines[i - 1];
        assert forall|j: int| 0 <= j < st2.tables.len() implies (#[trigger] st2.tables[j]).1
            <= usize::MAX as nat by {
            if j < st.tables.len() {
                assert(st.tables[j].1 <= usize::MAX as nat);
            }
            if spec_is_table_ddl_line(line) {
                if spec_table_name(line) is Some {
                    let name = ascii_chars(spec_table_name(line)->0);
                    if !spec_should_skip(name, inc, exc) && spec_key_at(st.tables, name) < 0 {
                        assert(st2.tables == st.tables.push((name, 0)));
                        if j == st.tables.len() {
                            assert(st2.tables[j].1 == 0);
                        }
                    }
                }
            } else if !st.skip && spec_is_insert_line(line) && st.current is Some {
                let t = st.current->0;
                let jj = spec_key_at(st.tables, t);
                if jj >= 0 {
                    lemma_key_at(st.tables, t);
                    assert(st2.tables == st.tables.update(
                        jj,
                        (t, sat_add(st.tables[jj].1, line.len())),
                    ));
                    if j == jj {
                        assert(st2.tables[j].1 == sat_add(st.tables[jj].1, line.len()));
                        assert(sat_add(st.tables[jj].1, line.len()) <= usize::MAX as nat);
                    }
                }
            }
        }
    }
}

} // verus!
