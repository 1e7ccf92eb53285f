use mysqltrim::Pattern;
use mysqltrim::compute_table_row_counts;
use mysqltrim::compute_table_sizes;
use mysqltrim::count_insert_values_tuples_line;
use mysqltrim::extract_sql;
use mysqltrim::human_bytes;
use mysqltrim::is_table_ddl_line;
use mysqltrim::matches_values_kw;
use mysqltrim::should_skip;
use mysqltrim::table_name_from_ddl_line;

/// Split a dump into physical lines, each keeping its terminator, as a
/// line-by-line reader would hand them over.
fn lines_of(sql: &[u8]) -> Vec<Vec<u8>> {
    let mut v: Vec<Vec<u8>> = Vec::new();
    let mut cur: Vec<u8> = Vec::new();
    for &b in sql {
        cur.push(b);
        if b == b'\n' {
            v.push(cur);
            cur = Vec::new();
        }
    }
    if !cur.is_empty() {
        v.push(cur);
    }
    v
}

#[test]
fn parse_table_name_from_drop_and_create() {
    let drop = b"DROP TABLE IF EXISTS `wp_posts`;\n";
    let create = b"CREATE TABLE wp_users (id int);\n";
    assert_eq!(table_name_from_ddl_line(drop).as_deref(), Some("wp_posts"));
    assert_eq!(table_name_from_ddl_line(create).as_deref(), Some("wp_users"));
}

#[test]
fn filter_include_exclude() {
    let inc = Pattern::new("^wp_");
    let exc = Pattern::new("usermeta$");
    assert_eq!(should_skip("wp_posts", inc.as_ref(), exc.as_ref()), false);
    assert_eq!(should_skip("users", inc.as_ref(), exc.as_ref()), true);
    assert_eq!(should_skip("wp_usermeta", inc.as_ref(), exc.as_ref()), true);
}

#[test]
fn extract_filters_and_writes() {
    let sql = b"DROP TABLE IF EXISTS `wp_a`;\nCREATE TABLE `wp_a` (...);\nINSERT INTO `wp_a` VALUES (1);\nDROP TABLE IF EXISTS `wp_b`;\nCREATE TABLE `wp_b` (...);\nINSERT INTO `wp_b` VALUES (2);\n";
    let lines = lines_of(sql);
    let inc = Pattern::new("^wp_a$");
    let (out, tables) = extract_sql(&lines, inc.as_ref(), None);
    let out_str = String::from_utf8_lossy(&out).into_owned();
    assert!(out_str.contains("wp_a"));
    assert!(!out_str.contains("wp_b"));
    assert!(tables.iter().any(|t| t == "wp_a"));
    assert!(tables.iter().any(|t| t == "wp_b")); // encountered even if skipped
}

#[test]
fn sizes_accumulate_for_inserts() {
    let sql = b"CREATE TABLE t1 (...);\nINSERT INTO t1 VALUES (1);\nINSERT INTO t1 VALUES (2);\nCREATE TABLE t2 (...);\nINSERT INTO t2 VALUES (3);\n";
    let lines = lines_of(sql);
    let (set, _names) = compute_table_sizes(&lines, None, None);
    let mut t1 = set.iter().find(|t| t.name == "t1").unwrap().clone();
    let t2 = set.iter().find(|t| t.name == "t2").unwrap().clone();
    // Expect two insert lines counted for t1
    // exact byte sizes depend on line lengths; just ensure t1 > t2
    assert!(t1.size > t2.size);
    // mutate a clone to check that the accumulators are plain data
    t1.size += 1;
}

#[test]
fn human_sizes() {
    assert_eq!(human_bytes(999), "999 B");
    assert_eq!(human_bytes(1024), "1.00 KiB");
    assert_eq!(human_bytes(10 * 1024 * 1024), "10.0 MiB");
}

#[test]
fn row_counts_multi_values_and_multiline() {
    let sql = b"CREATE TABLE t1 (...);\n\
INSERT INTO t1 VALUES (1, '(paren)'), (2), ('x, y');\n\
INSERT INTO t1 VALUES\n(3),\n(4);\n\
CREATE TABLE t2 (...);\n\
INSERT INTO t2 VALUES ('(only)');\n";
    let lines = lines_of(sql);
    let (set, _names) = compute_table_row_counts(&lines, None, None);
    let t1 = set.iter().find(|t| t.name == "t1").unwrap().clone();
    let t2 = set.iter().find(|t| t.name == "t2").unwrap().clone();
    assert_eq!(t1.rows, 5, "t1 should have 3 + 2 tuples counted");
    assert_eq!(t2.rows, 1, "t2 should have a single tuple counted");
}

#[test]
fn ddl_line_recognition() {
    assert!(is_table_ddl_line(b"DROP TABLE IF EXISTS `a`;\n"));
    assert!(is_table_ddl_line(b"DROP TABLE a;\n"));
    assert!(is_table_ddl_line(b"CREATE TABLE b (x int);\n"));
    assert!(is_table_ddl_line(b"CREATE TABLE IF NOT EXISTS c (x int);\n"));
    assert!(!is_table_ddl_line(b"INSERT INTO a VALUES (1);\n"));
    assert!(!is_table_ddl_line(b"-- comment\n"));
    assert!(!is_table_ddl_line(b"DROP TABLES;\n"));
    assert!(!is_table_ddl_line(b""));
}

#[test]
fn bare_drop_table_is_a_definition_line() {
    // a bare `DROP TABLE x;` switches the table and the skip decision
    let sql = b"CREATE TABLE kept (x);\nDROP TABLE gone;\nINSERT INTO gone VALUES (1);\n";
    let lines = lines_of(sql);
    let exc = Pattern::new("^gone$");
    let (out, tables) = extract_sql(&lines, None, exc.as_ref());
    let out_str = String::from_utf8_lossy(&out).into_owned();
    // the DROP line and the INSERT after it belong to the excluded table
    assert!(!out_str.contains("gone"));
    assert!(out_str.contains("CREATE TABLE kept (x);\n"));
    // both names are encountered
    assert!(tables.iter().any(|t| t == "gone"));
    assert!(tables.iter().any(|t| t == "kept"));
}

#[test]
fn parse_table_name_variants() {
    // most specific prefix wins: the identifier follows IF NOT EXISTS
    assert_eq!(
        table_name_from_ddl_line(b"CREATE TABLE IF NOT EXISTS `t9` (x int);\n").as_deref(),
        Some("t9")
    );
    // leading whitespace and a bare identifier
    assert_eq!(
        table_name_from_ddl_line(b"DROP TABLE    x_1;\n").as_deref(),
        Some("x_1")
    );
    // an opening backtick with no identifier byte after it parses to nothing
    assert_eq!(table_name_from_ddl_line(b"CREATE TABLE `` (x);\n"), None);
    // no identifier at all
    assert_eq!(table_name_from_ddl_line(b"CREATE TABLE !!!;\n"), None);
    // the name stops at the first non-identifier byte
    assert_eq!(
        table_name_from_ddl_line(b"CREATE TABLE abc.def (x);\n").as_deref(),
        Some("abc")
    );
}

#[test]
fn filter_with_no_patterns_keeps_everything() {
    assert_eq!(should_skip("anything", None, None), false);
    assert_eq!(should_skip("", None, None), false);
}

#[test]
fn invalid_pattern_is_rejected() {
    assert!(Pattern::new("foo(").is_none());
    assert!(Pattern::new("^wp_[a-z]+$").is_some());
}

#[test]
fn extract_is_filter_sound_with_exclude() {
    let sql = b"-- preamble\nCREATE TABLE keep_me (x);\nINSERT INTO keep_me VALUES (1);\nCREATE TABLE drop_me (y);\nINSERT INTO drop_me VALUES (2);\n";
    let lines = lines_of(sql);
    let exc = Pattern::new("^drop_");
    let (out, tables) = extract_sql(&lines, None, exc.as_ref());
    let out_str = String::from_utf8_lossy(&out).into_owned();
    // the rejected table contributes zero bytes ...
    assert!(!out_str.contains("drop_me"));
    // ... the kept one and the preamble pass through verbatim ...
    assert!(out_str.contains("-- preamble\n"));
    assert!(out_str.contains("INSERT INTO keep_me VALUES (1);\n"));
    // ... and the rejected name still appears in the encountered set
    assert!(tables.iter().any(|t| t == "drop_me"));
    assert!(tables.iter().any(|t| t == "keep_me"));
}

#[test]
fn extract_per_table_splits_and_drops_preamble() {
    let sql = b"-- preamble\nCREATE TABLE a1 (x);\nINSERT INTO a1 VALUES (1);\nCREATE TABLE b2 (y);\nINSERT INTO b2 VALUES (2);\n";
    let lines = lines_of(sql);
    let (outputs, tables) = mysqltrim::extract_sql_per_table(&lines, None, None);
    assert_eq!(outputs.len(), 2);
    assert_eq!(outputs[0].name, "a1");
    assert_eq!(
        String::from_utf8_lossy(&outputs[0].data),
        "CREATE TABLE a1 (x);\nINSERT INTO a1 VALUES (1);\n"
    );
    assert_eq!(outputs[1].name, "b2");
    assert_eq!(
        String::from_utf8_lossy(&outputs[1].data),
        "CREATE TABLE b2 (y);\nINSERT INTO b2 VALUES (2);\n"
    );
    assert_eq!(tables.len(), 2);
}

#[test]
fn sizes_attribute_insert_lines_exactly() {
    let l1 = b"CREATE TABLE t1 (...);\n".to_vec();
    let l2 = b"INSERT INTO t1 VALUES (1);\n".to_vec();
    let l3 = b"INSERT INTO t1 VALUES (22);\n".to_vec();
    let l4 = b"CREATE TABLE t2 (...);\n".to_vec();
    let l5 = b"INSERT INTO t2 VALUES (3);\n".to_vec();
    let l6 = b"SELECT 1;\n".to_vec();
    let lines = vec![l1, l2.clone(), l3.clone(), l4, l5.clone(), l6];
    let (set, _names) = compute_table_sizes(&lines, None, None);
    let t1 = set.iter().find(|t| t.name == "t1").unwrap();
    let t2 = set.iter().find(|t| t.name == "t2").unwrap();
    // only the INSERT lines of the table current at the time count
    assert_eq!(t1.size, l2.len() + l3.len());
    assert_eq!(t2.size, l5.len());
}

#[test]
fn sizes_skip_excluded_tables() {
    let sql = b"CREATE TABLE a (x);\nINSERT INTO a VALUES (1);\nCREATE TABLE b (y);\nINSERT INTO b VALUES (2);\n";
    let lines = lines_of(sql);
    let exc = Pattern::new("^b$");
    let (set, names) = compute_table_sizes(&lines, None, exc.as_ref());
    // the excluded table gets no accumulator at all ...
    assert!(set.iter().find(|t| t.name == "b").is_none());
    assert!(set.iter().find(|t| t.name == "a").is_some());
    // ... but its name is still reported as encountered
    assert!(names.iter().any(|t| t == "b"));
    assert!(names.iter().any(|t| t == "a"));
}

#[test]
fn tuple_counter_is_quote_safe() {
    // a parenthesis and a semicolon inside quoted strings count for nothing
    let (count, seen, ended) =
        count_insert_values_tuples_line(b"INSERT INTO t VALUES ('(x);', 2), ('values (2)');", false);
    assert_eq!(count, 2);
    assert!(seen);
    assert!(ended);
    // a semicolon inside a double-quoted string does not end the statement
    let (count, _, ended) = count_insert_values_tuples_line(b"INSERT INTO t VALUES (\"a;b\", 1)", false);
    assert_eq!(count, 1);
    assert!(!ended);
}

#[test]
fn tuple_counter_is_escape_safe() {
    // the escaped quote does not close the string, so the parenthesis
    // after it is still inside the string
    let (count, _, ended) =
        count_insert_values_tuples_line(b"INSERT INTO t VALUES ('a\\'b(', 1);", false);
    assert_eq!(count, 1);
    assert!(ended);
    // an escaped backslash closes the escape; the quote after it counts
    let (count, _, _) = count_insert_values_tuples_line(b"INSERT INTO t VALUES ('a\\\\', '(');", false);
    assert_eq!(count, 1);
}

#[test]
fn tuple_counter_threads_across_lines() {
    // first line: VALUES seen, nothing counted, statement still open
    let (c1, seen1, ended1) = count_insert_values_tuples_line(b"INSERT INTO t VALUES\n", false);
    assert_eq!(c1, 0);
    assert!(seen1);
    assert!(!ended1);
    // continuation: tuples counted with the carried flag, ends at `;`
    let (c2, _, ended2) = count_insert_values_tuples_line(b"(1),(2);\n", seen1);
    assert_eq!(c2, 2);
    assert!(ended2);
    // without the carried flag the continuation counts nothing
    let (c3, seen3, _) = count_insert_values_tuples_line(b"(1),(2);\n", false);
    assert_eq!(c3, 0);
    assert!(!seen3);
}

#[test]
fn values_keyword_is_case_insensitive_and_word_bounded() {
    assert!(matches_values_kw(b"xx vAlUeS", 3));
    assert!(!matches_values_kw(b"xx values", 2));
    assert!(!matches_values_kw(b"value", 0));
    // glued to a word: the bytes still match here; the word boundary is
    // the scanner's business
    let (count, seen, _) = count_insert_values_tuples_line(b"INSERT INTO nvalues (a) SELECT 1", false);
    assert_eq!(count, 0);
    assert!(!seen);
}

#[test]
fn row_counts_reset_per_statement_and_table() {
    let sql = b"CREATE TABLE a (x);\nINSERT INTO a VALUES (1), (2);\nCREATE TABLE b (y);\nINSERT INTO b VALUES (3);\nINSERT INTO b VALUES (4), (5), (6);\n";
    let lines = lines_of(sql);
    let (set, _names) = compute_table_row_counts(&lines, None, None);
    let a = set.iter().find(|t| t.name == "a").unwrap();
    let b = set.iter().find(|t| t.name == "b").unwrap();
    assert_eq!(a.rows, 2);
    assert_eq!(b.rows, 4);
}

#[test]
fn unparseable_definition_line_fails_open() {
    // the malformed definition line cannot be classified, so nothing is
    // skipped and the following lines pass through
    let sql = b"CREATE TABLE !!! (x);\nINSERT INTO x VALUES (1);\n";
    let lines = lines_of(sql);
    let (out, tables) = extract_sql(&lines, None, None);
    assert_eq!(out, sql.to_vec());
    assert!(tables.is_empty());
    // but with no current table nothing is attributed either
    let (set, _names) = compute_table_sizes(&lines, None, None);
    assert!(set.is_empty());
}

#[test]
fn empty_dump_yields_nothing() {
    let lines: Vec<Vec<u8>> = Vec::new();
    let (out, tables) = extract_sql(&lines, None, None);
    assert!(out.is_empty());
    assert!(tables.is_empty());
    assert!(compute_table_sizes(&lines, None, None).0.is_empty());
    assert!(compute_table_row_counts(&lines, None, None).0.is_empty());
}

#[test]
fn human_sizes_across_units() {
    assert_eq!(human_bytes(0), "0 B");
    assert_eq!(human_bytes(1023), "1023 B");
    assert_eq!(human_bytes(1536), "1.50 KiB");
    assert_eq!(human_bytes(10 * 1024), "10.0 KiB");
    assert_eq!(human_bytes(100 * 1024), "100 KiB");
    assert_eq!(human_bytes(1024 * 1024), "1.00 MiB");
    assert_eq!(human_bytes(1024 * 1024 * 1024), "1.00 GiB");
    assert_eq!(human_bytes(1024usize * 1024 * 1024 * 1024), "1.00 TiB");
    assert_eq!(human_bytes(2048usize * 1024 * 1024 * 1024 * 1024), "2048 TiB");
}

#[test]
fn per_table_extract_respects_filter() {
    let sql = b"CREATE TABLE a1 (x);\nINSERT INTO a1 VALUES (1);\nCREATE TABLE b2 (y);\nINSERT INTO b2 VALUES (2);\n";
    let lines = lines_of(sql);
    let exc = Pattern::new("^b2$");
    let (outputs, tables) = mysqltrim::extract_sql_per_table(&lines, None, exc.as_ref());
    // the rejected table gets no output at all, but is still encountered
    assert_eq!(outputs.len(), 1);
    assert_eq!(outputs[0].name, "a1");
    assert!(tables.iter().any(|t| t == "b2"));
}

#[test]
fn drop_and_create_share_one_accumulator() {
    let sql = b"DROP TABLE IF EXISTS t;\nCREATE TABLE t (x);\nINSERT INTO t VALUES (1), (2);\n";
    let lines = lines_of(sql);
    let (set, names) = compute_table_row_counts(&lines, None, None);
    // the DROP line opens the accumulator and the CREATE line reuses it
    assert_eq!(set.len(), 1);
    assert_eq!(set[0].name, "t");
    assert_eq!(set[0].rows, 2);
    assert_eq!(names, vec!["t".to_string()]);
}

#[test]
fn streaming_extract_matches_whole_dump_extract() {
    let sql = b"DROP TABLE IF EXISTS `wp_a`;\nCREATE TABLE `wp_a` (...);\nINSERT INTO `wp_a` VALUES (1);\nDROP TABLE wp_b;\nINSERT INTO `wp_b` VALUES (2);\n";
    let lines = lines_of(sql);
    let inc = mysqltrim::Pattern::new("^wp_a$");

    let mut cursor = mysqltrim::ExtractCursor::new();
    let mut streamed: Vec<u8> = Vec::new();
    for line in &lines {
        if cursor.scan_line(line, inc.as_ref(), None) {
            streamed.extend_from_slice(line);
        }
    }
    let streamed_names = cursor.into_names();

    let inc2 = mysqltrim::Pattern::new("^wp_a$");
    let (out, names) = extract_sql(&lines, inc2.as_ref(), None);
    assert_eq!(streamed, out);
    assert_eq!(streamed_names, names);
}

#[test]
fn streaming_cursors_match_whole_dump_counts() {
    let sql = b"CREATE TABLE t1 (...);\nINSERT INTO t1 VALUES (1), (2);\nINSERT INTO t1 VALUES\n(3);\nCREATE TABLE t2 (...);\nINSERT INTO t2 VALUES (4);\n";
    let lines = lines_of(sql);

    let mut size_cursor = mysqltrim::SizeCursor::new();
    let mut row_cursor = mysqltrim::RowCursor::new();
    for line in &lines {
        size_cursor.scan_line(line, None, None);
        row_cursor.scan_line(line, None, None);
    }
    let (sizes, size_names) = size_cursor.finish();
    let (rows, row_names) = row_cursor.finish();

    let (sizes2, size_names2) = compute_table_sizes(&lines, None, None);
    let (rows2, row_names2) = compute_table_row_counts(&lines, None, None);
    assert_eq!(size_names, size_names2);
    assert_eq!(row_names, row_names2);
    assert_eq!(sizes.len(), sizes2.len());
    for (a, b) in sizes.iter().zip(sizes2.iter()) {
        assert_eq!(a.name, b.name);
        assert_eq!(a.size, b.size);
    }
    assert_eq!(rows.len(), rows2.len());
    for (a, b) in rows.iter().zip(rows2.iter()) {
        assert_eq!(a.name, b.name);
        assert_eq!(a.rows, b.rows);
    }
    let t1 = rows2.iter().find(|t| t.name == "t1").unwrap();
    assert_eq!(t1.rows, 3);
}

#[test]
fn streaming_per_table_extract_matches_split() {
    let sql = b"-- preamble\nCREATE TABLE a1 (x);\nINSERT INTO a1 VALUES (1);\nDROP TABLE b2;\nINSERT INTO b2 VALUES (2);\n";
    let lines = lines_of(sql);

    let mut cursor = mysqltrim::ExtractCursor::new();
    let mut streamed: Vec<(String, Vec<u8>)> = Vec::new();
    for line in &lines {
        let emit = cursor.scan_line(line, None, None);
        if emit {
            if let Some(table) = cursor.current_table() {
                match streamed.iter_mut().find(|(name, _)| name == table) {
                    Some((_, data)) => data.extend_from_slice(line),
                    None => streamed.push((table.clone(), line.clone())),
                }
            }
        }
    }

    let (outputs, _names) = mysqltrim::extract_sql_per_table(&lines, None, None);
    assert_eq!(streamed.len(), outputs.len());
    for (s, o) in streamed.iter().zip(outputs.iter()) {
        assert_eq!(s.0, o.name);
        assert_eq!(s.1, o.data);
    }
}
