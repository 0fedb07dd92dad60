use rdiff::diff::lcs;
use rdiff::diff::reconstruct_diff;
use rdiff::diff::render_diff;
use rdiff::diff::DiffLine;
use rdiff::grid::Grid;

fn lines(words: &[&str]) -> Vec<String> {
    words.iter().map(|w| w.to_string()).collect()
}

fn diff_lines(seq1: &Vec<String>, seq2: &Vec<String>) -> Vec<DiffLine> {
    let table = lcs(seq1, seq2);
    reconstruct_diff(&table, seq1, seq2, seq1.len(), seq2.len())
}

#[test]
fn test_lcs() {
    let mut expected = Grid::new(5, 4);
    expected.set(1, 1, 1).unwrap();
    expected.set(1, 2, 1).unwrap();
    expected.set(1, 3, 1).unwrap();
    expected.set(2, 1, 1).unwrap();
    expected.set(2, 2, 1).unwrap();
    expected.set(2, 3, 2).unwrap();
    expected.set(3, 1, 1).unwrap();
    expected.set(3, 2, 1).unwrap();
    expected.set(3, 3, 2).unwrap();
    expected.set(4, 1, 1).unwrap();
    expected.set(4, 2, 2).unwrap();
    expected.set(4, 3, 2).unwrap();

    let result = lcs(
        &"abcd".chars().map(|c| c.to_string()).collect(),
        &"adb".chars().map(|c| c.to_string()).collect(),
    );
    assert_eq!(result.size(), expected.size());
    for row in 0..expected.size().0 {
        for col in 0..expected.size().1 {
            assert_eq!(result.get(row, col), expected.get(row, col));
        }
    }
}

#[test]
fn table_row_and_column_zero_are_zero() {
    let seq1 = lines(&["a", "b", "c"]);
    let seq2 = lines(&["b", "c"]);
    let table = lcs(&seq1, &seq2);
    for j in 0..3 {
        assert_eq!(table.get(0, j), Ok(0));
    }
    for i in 0..4 {
        assert_eq!(table.get(i, 0), Ok(0));
    }
}

#[test]
fn table_is_monotone_by_steps_of_at_most_one() {
    let seq1 = lines(&["a", "b", "c", "d"]);
    let seq2 = lines(&["a", "d", "b"]);
    let table = lcs(&seq1, &seq2);
    for i in 0..=4 {
        for j in 0..3 {
            let here = table.get(i, j).unwrap();
            let right = table.get(i, j + 1).unwrap();
            assert!(here <= right && right <= here + 1);
        }
    }
    for i in 0..4 {
        for j in 0..=3 {
            let here = table.get(i, j).unwrap();
            let below = table.get(i + 1, j).unwrap();
            assert!(here <= below && below <= here + 1);
        }
    }
}

#[test]
fn identical_inputs_give_all_equal_diff() {
    let seq = lines(&["fn main() {", "    body", "}"]);
    let diff = diff_lines(&seq, &seq);
    assert_eq!(
        diff,
        vec![
            DiffLine::Equal("fn main() {".to_string()),
            DiffLine::Equal("    body".to_string()),
            DiffLine::Equal("}".to_string()),
        ]
    );
}

#[test]
fn empty_first_input_gives_inserts_in_order() {
    let seq1 = lines(&[]);
    let seq2 = lines(&["a", "b"]);
    let diff = diff_lines(&seq1, &seq2);
    assert_eq!(
        diff,
        vec![
            DiffLine::Insert("a".to_string()),
            DiffLine::Insert("b".to_string()),
        ]
    );
}

#[test]
fn empty_second_input_gives_deletes_in_order() {
    let seq1 = lines(&["a", "b"]);
    let seq2 = lines(&[]);
    let diff = diff_lines(&seq1, &seq2);
    assert_eq!(
        diff,
        vec![
            DiffLine::Delete("a".to_string()),
            DiffLine::Delete("b".to_string()),
        ]
    );
}

#[test]
fn abcd_adb_scenario_pins_tie_break() {
    let seq1 = lines(&["a", "b", "c", "d"]);
    let seq2 = lines(&["a", "d", "b"]);
    let table = lcs(&seq1, &seq2);
    // The LCS length stands in the bottom-right corner.
    assert_eq!(table.get(4, 3), Ok(2));
    let diff = diff_lines(&seq1, &seq2);
    // One entry per line outside the LCS, plus one per LCS line.
    assert_eq!(diff.len(), 4 + 3 - 2);
    let edits = diff
        .iter()
        .filter(|d| !matches!(d, DiffLine::Equal(_)))
        .count();
    assert_eq!(edits, 4 + 3 - 2 * 2);
    // The insert-over-delete tie-break keeps "a" and "d" and re-inserts "b".
    assert_eq!(
        diff,
        vec![
            DiffLine::Equal("a".to_string()),
            DiffLine::Delete("b".to_string()),
            DiffLine::Delete("c".to_string()),
            DiffLine::Equal("d".to_string()),
            DiffLine::Insert("b".to_string()),
        ]
    );
}

#[test]
fn applying_diff_to_first_input_reproduces_second() {
    let seq1 = lines(&["one", "two", "three", "four"]);
    let seq2 = lines(&["zero", "two", "four", "five"]);
    let diff = diff_lines(&seq1, &seq2);
    let mut applied: Vec<String> = Vec::new();
    let mut consumed: Vec<String> = Vec::new();
    for d in &diff {
        match d {
            DiffLine::Equal(l) => {
                applied.push(l.clone());
                consumed.push(l.clone());
            }
            DiffLine::Insert(l) => applied.push(l.clone()),
            DiffLine::Delete(l) => consumed.push(l.clone()),
        }
    }
    assert_eq!(applied, seq2);
    assert_eq!(consumed, seq1);
}

#[test]
fn rendering_prefixes_each_line_by_its_tag() {
    let diff = vec![
        DiffLine::Equal("same".to_string()),
        DiffLine::Insert("new".to_string()),
        DiffLine::Delete("gone".to_string()),
    ];
    let rendered = render_diff(&diff);
    assert_eq!(
        rendered,
        vec![
            "  same".to_string(),
            "+ new".to_string(),
            "- gone".to_string(),
        ]
    );
}

#[test]
fn backtrack_from_inner_corner_diffs_the_prefixes() {
    let seq1 = lines(&["a", "b", "c", "d"]);
    let seq2 = lines(&["a", "d", "b"]);
    let table = lcs(&seq1, &seq2);
    let diff = reconstruct_diff(&table, &seq1, &seq2, 1, 1);
    assert_eq!(diff, vec![DiffLine::Equal("a".to_string())]);
}
