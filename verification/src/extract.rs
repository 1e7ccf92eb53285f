//! Single-sink extraction: copy the dump line by line, dropping the lines
//! of tables the filter rejects, and report every table name met on the
//! way — the rejected ones included.

use vstd::prelude::*;
use crate::ascii::ascii_chars;
use crate::filter::opt_pattern_view;
use crate::filter::spec_should_skip;
use crate::filter::should_skip;
use crate::filter::Pattern;
use crate::ident::is_table_ddl_line;
use crate::ident::spec_is_table_ddl_line;
use crate::ident::spec_table_name;
use crate::ident::table_name_from_ddl_line;
use crate::scan::append_bytes;
use crate::scan::contains_name;
use crate::scan::note_encountered;

verus! {

/// The extraction cursor and what it has produced: the skip flag, the
/// table the last definition line selected, every name met so far, and
/// the bytes written to the sink.
pub ghost struct ExtractScan {
    pub skip: bool,
    pub current: Option<Seq<char>>,
    pub encountered: Seq<Seq<char>>,
    pub output: Seq<u8>,
}

/// Before any line: nothing skipped, no table current, nothing written.
pub open spec fn extract_init() -> ExtractScan {
    ExtractScan { skip: false, current: None, encountered: Seq::empty(), output: Seq::empty() }
}

/// One line of the extraction scan. A definition line resolves a name and
/// a fresh skip decision (an unparseable one falls open to not skipping);
/// then, unless skipping, the line goes to the sink verbatim.
pub open spec fn extract_step(
    st: ExtractScan,
    line: Seq<u8>,
    inc: Option<Seq<char>>,
    exc: Option<Seq<char>>,
) -> ExtractScan {
    let st1 = if spec_is_table_ddl_line(line) {
        match spec_table_name(line) {
            Some(nb) => {
                let name = ascii_chars(nb);
                let skip = spec_should_skip(name, inc, exc);
                ExtractScan {
                    skip,
                    current: if skip {
                        None
                    } else {
                        Some(name)
                    },
                    encountered: note_encountered(st.encountered, name),
                    output: st.output,
                }
            },
            None => ExtractScan { skip: false, current: None, ..st },
        }
    } else {
        st
    };
    if st1.skip {
        st1
    } else {
        ExtractScan { output: st1.output + line, ..st1 }
    }
}

/// The extraction state after the first `i` lines of the dump.
pub open spec fn extract_scan(
    lines: Seq<Seq<u8>>,
    i: int,
    inc: Option<Seq<char>>,
    exc: Option<Seq<char>>,
) -> ExtractScan
    decreases i,
{
    if i <= 0 {
        extract_init()
    } else {
        extract_step(extract_scan(lines, i - 1, inc, exc), lines[i - 1], inc, exc)
    }
}

/// The extraction cursor as a value the caller threads from line to
/// line: the skip flag, the table the last definition line selected, and
/// the names encountered so far. Its view is the extraction state with an
/// empty sink — the caller owns the sink and writes each line there
/// exactly when `scan_line` says so, which lets a dump be extracted one
/// line at a time without holding it in memory.
pub struct ExtractCursor {
    skip: bool,
    current: Option<String>,
    names: Vec<String>,
}

impl View for ExtractCursor {
    type V = ExtractScan;

    closed spec fn view(&self) -> ExtractScan {
        ExtractScan {
            skip: self.skip,
            current: self.current.deep_view(),
            encountered: self.names.deep_view(),
            output: Seq::empty(),
        }
    }
}

impl ExtractCursor {
    /// A cursor before any line.
    pub fn new() -> (r: ExtractCursor)
        ensures
            r@ == extract_init(),
    {
        let r = ExtractCursor { skip: false, current: None, names: Vec::new() };
        proof {
            assert(r.names.deep_view() =~= Seq::<Seq<char>>::empty());
            assert(r@ == extract_init());
        }
        r
    }

    /// Scan one line: a definition line resolves its name and a fresh
    /// skip decision. Returns whether the line belongs in the output.
    pub fn scan_line(&mut self, line: &[u8], inc: Option<&Pattern>, exc: Option<&Pattern>) -> (emit:
        bool)
        ensures
            ({
                let post = extract_step(
                    old(self)@,
                    line@,
                    opt_pattern_view(inc),
                    opt_pattern_view(exc),
                );
                &&& final(self)@ == (ExtractScan { output: Seq::empty(), ..post })
                &&& emit == !post.skip
            }),
    {
        let ghost gi = opt_pattern_view(inc);
        let ghost ge = opt_pattern_view(exc);
        if is_table_ddl_line(line) {
            match table_name_from_ddl_line(line) {
                Some(name) => {
                    if !contains_name(&self.names, &name) {
                        let ghost before = self.names.deep_view();
                        self.names.push(name.clone());
                        proof {
                            assert(self.names.deep_view() =~= before.push(name@));
                        }
                    }
                    let sk = should_skip(name.as_str(), inc, exc);
                    self.skip = sk;
                    self.current = if sk {
                        None
                    } else {
                        Some(name)
                    };
                },
                None => {
                    self.skip = false;
                    self.current = None;
                },
            }
        }
        proof {
            let post = extract_step(old(self)@, line@, gi, ge);
            assert(self@ == (ExtractScan { output: Seq::empty(), ..post }));
        }
        !self.skip
    }

    /// Hand back the encountered names when the scan is done.
    pub fn into_names(self) -> (r: Vec<String>)
        ensures
            r.deep_view() == self@.encountered,
    {
        self.names
    }

    /// The table the last definition line selected, when it was kept.
    pub fn current_table(&self) -> (r: Option<&String>)
        ensures
            match r {
                Some(s) => self@.current == Some(s@),
                None => self@.current is None,
            },
    {
        match &self.current {
            Some(s) => Some(s),
            None => None,
        }
    }
}

/// Streaming agrees with the whole-dump scan: one step appends to the
/// sink exactly the line itself when it does not skip and nothing when it
/// does, and how the cursor moves does not depend on what the sink
/// already holds.
pub proof fn lemma_extract_step_streams(
    st: ExtractScan,
    line: Seq<u8>,
    inc: Option<Seq<char>>,
    exc: Option<Seq<char>>,
)
    ensures
        ({
            let post = extract_step(st, line, inc, exc);
            let cpost = extract_step((ExtractScan { output: Seq::empty(), ..st }), line, inc, exc);
            &&& post.output == (if post.skip {
                st.output
            } else {
                st.output + line
            })
            &&& post.skip == cpost.skip
            &&& post.current == cpost.current
            &&& post.encountered == cpost.encountered
        }),
{
}

/// Extract the SQL of the kept tables from the dump's lines into one
/// output, returning the output bytes and every table name encountered —
/// names of skipped tables included.
pub fn extract_sql(lines: &Vec<Vec<u8>>, inc: Option<&Pattern>, exc: Option<&Pattern>) -> (r: (
    Vec<u8>,
    Vec<String>,
))
    ensures
        ({
            let st = extract_scan(
                lines.deep_view(),
                lines@.len() as int,
                opt_pattern_view(inc),
                opt_pattern_view(exc),
            );
            r.0@ == st.output && r.1.deep_view() == st.encountered
        }),
{
    let ghost dl = lines.deep_view();
    let ghost gi = opt_pattern_view(inc);
    let ghost ge = opt_pattern_view(exc);
    let mut out: Vec<u8> = Vec::new();
    let mut cursor = ExtractCursor::new();
    let n: usize = lines.len();
    let mut k: usize = 0;
    while k < n
        invariant
            0 <= k <= n,
            n == lines@.len(),
            dl == lines.deep_view(),
            gi == opt_pattern_view(inc),
            ge == opt_pattern_view(exc),
            cursor@ == (ExtractScan { output: Seq::empty(), ..extract_scan(dl, k as int, gi, ge) }),
            out@ == extract_scan(dl, k as int, gi, ge).output,
        decreases n - k,
    {
        let ghost pre = extract_scan(dl, k as int, gi, ge);
        let line: &Vec<u8> = &lines[k];
        proof {
            assert(dl[k as int] =~= line@);
        }
        let emit = cursor.scan_line(line.as_slice(), inc, exc);
        if emit {
            append_bytes(&mut out, line);
        }
        k = k + 1;
        proof {
            lemma_extract_step_streams(pre, dl[k - 1], gi, ge);
            assert(extract_scan(dl, k as int, gi, ge) == extract_step(pre, dl[k - 1], gi, ge));
        }
    }
    (out, cursor.into_names())
}

/// The encountered list is a set: however many definition lines name the
/// same table, the name stands in it once.
pub proof fn lemma_extract_encountered_distinct(
    lines: Seq<Seq<u8>>,
    i: int,
    inc: Option<Seq<char>>,
    exc: Option<Seq<char>>,
)
    requires
        0 <= i <= lines.len(),
    ensures
        ({
            let names = extract_scan(lines, i, inc, exc).encountered;
            forall|m1: int, m2: int|
                #![trigger names[m1], names[m2]]
                0 <= m1 < m2 < names.len() ==> names[m1] != names[m2]
        }),
    decreases i,
{
    if i > 0 {
        lemma_extract_encountered_distinct(lines, i - 1, inc, exc);
        let before = extract_scan(lines, i - 1, inc, exc).encountered;
        let after = extract_scan(lines, i, inc, exc).encountered;
        assert forall|m1: int, m2: int|
            #![trigger after[m1], after[m2]]
            0 <= m1 < m2 < after.len() implies after[m1] != after[m2] by {
            if m2 >= before.len() {
                assert(after == before.push(after[m2]));
                assert(!before.contains(after[m2]));
                assert(after[m1] == before[m1]);
            }
        }
    }
}

/// A definition line that names a table the filter rejects contributes
/// nothing to the output yet puts the name in the encountered set, and
/// every following line up to the next definition line adds nothing to
/// the output either: extraction is filter-sound.
pub proof fn lemma_extract_filter_sound(
    lines: Seq<Seq<u8>>,
    a: int,
    b: int,
    inc: Option<Seq<char>>,
    exc: Option<Seq<char>>,
)
    requires
        0 <= a < b <= lines.len(),
        spec_is_table_ddl_line(lines[a]),
        spec_table_name(lines[a]) is Some,
        spec_should_skip(ascii_chars(spec_table_name(lines[a])->0), inc, exc),
        forall|k: int| a < k < b ==> !spec_is_table_ddl_line(#[trigger] lines[k]),
    ensures
        extract_scan(lines, b, inc, exc).output == extract_scan(lines, a, inc, exc).output,
        extract_scan(lines, b, inc, exc).encountered.contains(
            ascii_chars(spec_table_name(lines[a])->0),
        ),
        extract_scan(lines, b, inc, exc).skip,
        extract_scan(lines, b, inc, exc).current is None,
    decreases b - a,
{
    let name = ascii_chars(spec_table_name(lines[a])->0);
    if b == a + 1 {
        let pre = extract_scan(lines, a, inc, exc);
        let post = extract_scan(lines, b, inc, exc);
        assert(post == extract_step(pre, lines[a], inc, exc));
        if !pre.encountered.contains(name) {
            assert(pre.encountered.push(name)[pre.encountered.len() as int] == name);
        }
    } else {
        lemma_extract_filter_sound(lines, a, b - 1, inc, exc);
        let pre = extract_scan(lines, b - 1, inc, exc);
        let post = extract_scan(lines, b, inc, exc);
        assert(post == extract_step(pre, lines[b - 1], inc, exc));
    }
}

} // verus!
