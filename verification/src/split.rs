//! Per-table extraction: the same scan as the single-sink extraction, but
//! every kept line goes to an output owned by the table it belongs to.
//! Lines seen while no table is current have no owner and are dropped.

use vstd::prelude::*;
use crate::ascii::ascii_chars;
use crate::filter::opt_pattern_view;
use crate::filter::spec_should_skip;
use crate::filter::should_skip;
use crate::filter::Pattern;
use crate::ident::is_table_ddl_line;
use crate::ident::spec_is_table_ddl_line;
use crate::ident::spec_table_name;
use crate::ident::table_name_from_ddl_line;
use crate::scan::append_bytes;
use crate::scan::contains_name;
use crate::scan::lemma_key_at;
use crate::scan::spec_key_at;
use crate::scan::note_encountered;

verus! {

/// One table's extracted lines.
#[derive(Clone, Debug)]
pub struct TableOutput {
    pub name: String,
    pub data: Vec<u8>,
}

impl View for TableOutput {
    type V = (Seq<char>, Seq<u8>);

    open spec fn view(&self) -> (Seq<char>, Seq<u8>) {
        (self.name@, self.data@)
    }
}

/// The name/bytes pairs a list of per-table outputs holds.
pub open spec fn outputs_view(s: Seq<TableOutput>) -> Seq<(Seq<char>, Seq<u8>)> {
    s.map_values(|t: TableOutput| t.view())
}

/// The per-table extraction cursor: the skip flag, the selected table,
/// every name met, and one output per table written so far, in the order
/// of each table's first kept line.
pub ghost struct SplitScan {
    pub skip: bool,
    pub current: Option<Seq<char>>,
    pub encountered: Seq<Seq<char>>,
    pub outputs: Seq<(Seq<char>, Seq<u8>)>,
}

/// Before any line: nothing skipped, no table current, no outputs.
pub open spec fn split_init() -> SplitScan {
    SplitScan { skip: false, current: None, encountered: Seq::empty(), outputs: Seq::empty() }
}

/// One line of the per-table extraction. Definition lines resolve the
/// name, the skip decision and the encountered set exactly as the
/// single-sink extraction does; a kept line then goes to the output of
/// the current table, opened on its first line.
pub open spec fn split_step(
    st: SplitScan,
    line: Seq<u8>,
    inc: Option<Seq<char>>,
    exc: Option<Seq<char>>,
) -> SplitScan {
    let st1 = if spec_is_table_ddl_line(line) {
        match spec_table_name(line) {
            Some(nb) => {
                let name = ascii_chars(nb);
                let skip = spec_should_skip(name, inc, exc);
                SplitScan {
                    skip,
                    current: if skip {
                        None
                    } else {
                        Some(name)
                    },
                    encountered: note_encountered(st.encountered, name),
                    outputs: st.outputs,
                }
            },
            None => SplitScan { skip: false, current: None, ..st },
        }
    } else {
        st
    };
    if st1.skip || st1.current is None {
        st1
    } else {
        let t = st1.current->0;
        let j = spec_key_at(st1.outputs, t);
        if j >= 0 {
            SplitScan {
                outputs: st1.outputs.update(j, (t, st1.outputs[j].1 + line)),
                ..st1
            }
        } else {
            SplitScan { outputs: st1.outputs.push((t, line)), ..st1 }
        }
    }
}

/// The per-table extraction state after the first `i` lines of the dump.
pub open spec fn split_scan(
    lines: Seq<Seq<u8>>,
    i: int,
    inc: Option<Seq<char>>,
    exc: Option<Seq<char>>,
) -> SplitScan
    decreases i,
{
    if i <= 0 {
        split_init()
    } else {
        split_step(split_scan(lines, i - 1, inc, exc), lines[i - 1], inc, exc)
    }
}

/// First output entry keyed by `name`, if any.
fn find_output(outputs: &Vec<TableOutput>, name: &String) -> (r: Option<usize>)
    ensures
        spec_key_at(outputs_view(outputs@), name@) >= 0 ==> (r matches Some(j) && j as int
            == spec_key_at(outputs_view(outputs@), name@) && (j as int) < outputs@.len()
            && outputs_view(outputs@)[j as int].0 == name@),
        spec_key_at(outputs_view(outputs@), name@) < 0 ==> r is None,
{
    let n: usize = outputs.len();
    let mut i: usize = 0;
    while i < n
        invariant
            0 <= i <= n,
            n == outputs@.len(),
            forall|j: int| 0 <= j < i ==> outputs_view(outputs@)[j].0 != name@,
        decreases n - i,
    {
        if outputs[i].name.eq(name) {
            proof {
                assert(outputs_view(outputs@)[i as int].0 == name@);
                lemma_key_at(outputs_view(outputs@), name@);
            }
            return Some(i);
        }
        proof {
            assert(outputs_view(outputs@)[i as int].0 == outputs@[i as int].name@);
        }
        i = i + 1;
    }
    proof {
        lemma_key_at(outputs_view(outputs@), name@);
    }
    None
}

/// Extract the SQL of the kept tables, one output per table, each holding
/// exactly the lines attributed to it; also returns every table name
/// encountered, names of skipped tables included.
pub fn extract_sql_per_table(
    lines: &Vec<Vec<u8>>,
    inc: Option<&Pattern>,
    exc: Option<&Pattern>,
) -> (r: (Vec<TableOutput>, Vec<String>))
    ensures
        ({
            let st = split_scan(
                lines.deep_view(),
                lines@.len() as int,
                opt_pattern_view(inc),
                opt_pattern_view(exc),
            );
            outputs_view(r.0@) == st.outputs && r.1.deep_view() == st.encountered
        }),
{
    let ghost dl = lines.deep_view();
    let ghost gi = opt_pattern_view(inc);
    let ghost ge = opt_pattern_view(exc);
    let mut outputs: Vec<TableOutput> = Vec::new();
    let mut names: Vec<String> = Vec::new();
    let mut current: Option<String> = None;
    let mut skip = false;
    let n: usize = lines.len();
    let mut k: usize = 0;
    while k < n
        invariant
            0 <= k <= n,
            n == lines@.len(),
            dl == lines.deep_view(),
            gi == opt_pattern_view(inc),
            ge == opt_pattern_view(exc),
            skip == split_scan(dl, k as int, gi, ge).skip,
            current.deep_view() == split_scan(dl, k as int, gi, ge).current,
            names.deep_view() == split_scan(dl, k as int, gi, ge).encountered,
            outputs_view(outputs@) == split_scan(dl, k as int, gi, ge).outputs,
        decreases n - k,
    {
        let ghost pre = split_scan(dl, k as int, gi, ge);
        let line: &Vec<u8> = &lines[k];
        proof {
            assert(dl[k as int] =~= line@);
        }
        if is_table_ddl_line(line.as_slice()) {
            match table_name_from_ddl_line(line.as_slice()) {
                Some(name) => {
                    if !contains_name(&names, &name) {
                        let ghost before = names.deep_view();
                        names.push(name.clone());
                        proof {
                            assert(names.deep_view() =~= before.push(name@));
                        }
                    }
                    let sk = should_skip(name.as_str(), inc, exc);
                    skip = sk;
                    current = if sk {
                        None
                    } else {
                        Some(name)
                    };
                },
                None => {
                    skip = false;
                    current = None;
                },
            }
        }
        if !skip {
            if let Some(cur) = &current {
                match find_output(&outputs, cur) {
                    Some(j) => {
                        let ghost before = outputs_view(outputs@);
                        let mut entry = outputs.remove(j);
                        append_bytes(&mut entry.data, line);
                        outputs.insert(j, entry);
                        proof {
                            assert(outputs_view(outputs@) =~= before.update(
                                j as int,
                                (cur@, before[j as int].1 + line@),
                            ));
                        }
                    },
                    None => {
                        let ghost before = outputs_view(outputs@);
                        let mut data: Vec<u8> = Vec::new();
                        append_bytes(&mut data, line);
                        proof {
                            assert(data@ =~= line@);
                        }
                        outputs.push(TableOutput { name: cur.clone(), data });
                        proof {
                            assert(outputs_view(outputs@) =~= before.push((cur@, line@)));
                        }
                    },
                }
            }
        }
        k = k + 1;
        proof {
            assert(split_scan(dl, k as int, gi, ge) == split_step(pre, dl[k - 1], gi, ge));
        }
    }
    (outputs, names)
}

} // verus!
