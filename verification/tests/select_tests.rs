use file_to_html::patterns::PatternSet;
use file_to_html::select::{
    CandidateFile, FileCollector, SelectionError, archive_name_of, collect_and_measure_files,
    collect_files, is_file_valid,
};

fn cand(path: &str, size: u64) -> CandidateFile {
    CandidateFile { path: String::from(path), size }
}

fn collector(includes: &[&str], excludes: &[&str], max_size: Option<u64>) -> FileCollector {
    let inc = PatternSet::new(includes.iter().map(|s| String::from(*s)).collect());
    let exc = PatternSet::new(excludes.iter().map(|s| String::from(*s)).collect());
    FileCollector::new(inc, exc, max_size, true)
}

#[test]
fn archive_names_are_relative_to_the_roots_parent() {
    assert_eq!(
        archive_name_of("./docs", "./docs/sub/a.txt").as_deref(),
        Some("docs/sub/a.txt")
    );
    assert_eq!(archive_name_of("docs", "docs/a.txt").as_deref(), Some("docs/a.txt"));
    assert_eq!(
        archive_name_of("/abs/docs", "/abs/docs/a.txt").as_deref(),
        Some("docs/a.txt")
    );
    // A single-file root keeps just the file's name.
    assert_eq!(archive_name_of("./a.txt", "./a.txt").as_deref(), Some("a.txt"));
}

#[test]
fn archive_names_normalize_separators() {
    assert_eq!(
        archive_name_of("docs", "docs\\sub\\a.txt").as_deref(),
        Some("docs/sub/a.txt")
    );
}

#[test]
fn archive_names_ignore_trailing_separators_on_the_root() {
    assert_eq!(archive_name_of("docs/", "docs/a.txt").as_deref(), Some("docs/a.txt"));
}

#[test]
fn archive_names_reject_foreign_and_escaping_paths() {
    assert_eq!(archive_name_of("a/docs", "b/other/f.txt"), None);
    assert_eq!(archive_name_of("docs", "docs/../evil.txt"), None);
    assert_eq!(archive_name_of("docs", ""), None);
}

#[test]
fn eligibility_is_the_three_way_conjunction() {
    let inc = PatternSet::new(vec![String::from(".txt")]);
    let exc = PatternSet::new(vec![String::from("secret")]);
    assert!(is_file_valid("a.txt", &inc, &exc, None, 10));
    assert!(!is_file_valid("a.png", &inc, &exc, None, 10));
    assert!(!is_file_valid("secret-a.txt", &inc, &exc, None, 10));
    assert!(is_file_valid("a.txt", &inc, &exc, Some(10), 10));
    assert!(!is_file_valid("a.txt", &inc, &exc, Some(9), 10));
}

#[test]
fn selection_filters_names_and_sorts() {
    let c = collector(&["*"], &["skip"], None);
    let cands = vec![
        cand("root/z.txt", 3),
        cand("root/a.txt", 1),
        cand("root/skip/b.txt", 2),
        cand("root/m.txt", 5),
    ];
    let out = c.collect_files("root", &cands);
    let names: Vec<&str> = out.iter().map(|e| e.path_in_archive.as_str()).collect();
    assert_eq!(names, vec!["root/a.txt", "root/m.txt", "root/z.txt"]);
    assert_eq!(out[0].source_path, "root/a.txt");
    assert_eq!(out[0].size, 1);
}

#[test]
fn selection_is_deterministic_across_runs() {
    let cands = vec![
        cand("r/b", 1),
        cand("r/a", 2),
        cand("r/c", 3),
        cand("r/a", 2),
    ];
    let c1 = collector(&["*"], &[], None);
    let c2 = collector(&["*"], &[], None);
    let out1 = c1.collect_files("r", &cands);
    let out2 = c2.collect_files("r", &cands);
    assert_eq!(out1.len(), out2.len());
    for (a, b) in out1.iter().zip(out2.iter()) {
        assert_eq!(a.source_path, b.source_path);
        assert_eq!(a.path_in_archive, b.path_in_archive);
        assert_eq!(a.size, b.size);
    }
}

#[test]
fn measuring_reports_the_total_of_selected_sizes() {
    let c = collector(&[".txt"], &[], None);
    let cands = vec![cand("r/a.txt", 10), cand("r/b.png", 100), cand("r/c.txt", 32)];
    let (files, total) = c.collect_and_measure_files("r", &cands).unwrap();
    assert_eq!(files.len(), 2);
    assert_eq!(total, 42);
}

#[test]
fn whole_tree_mode_with_no_eligible_file_is_an_error() {
    let c = collector(&[".txt"], &[], None);
    let cands = vec![cand("r/a.png", 10), cand("r/b.jpg", 20)];
    match c.collect_and_measure_files("r", &cands) {
        Err(e) => assert_eq!(e, SelectionError::NoEligibleFiles),
        Ok(_p) => panic!("expected the no-eligible-files failure"),
    }
}

#[test]
fn per_file_mode_with_no_eligible_file_is_empty_success() {
    let c = collector(&[".txt"], &[], None);
    let cands = vec![cand("r/a.png", 10)];
    let out = c.collect_files("r", &cands);
    assert_eq!(out.len(), 0);
}

#[test]
fn size_cap_skips_large_files_without_error() {
    let c = collector(&["*"], &[], Some(100));
    let cands = vec![cand("r/small", 100), cand("r/large", 101)];
    let (files, total) = c.collect_and_measure_files("r", &cands).unwrap();
    assert_eq!(files.len(), 1);
    assert_eq!(files[0].path_in_archive, "r/small");
    assert_eq!(total, 100);
}

#[test]
fn free_functions_mirror_the_collector() {
    let inc = PatternSet::new(vec![String::from("*")]);
    let exc = PatternSet::new(Vec::new());
    let cands = vec![cand("r/b", 2), cand("r/a", 1)];
    let files = collect_files("r", &cands, inc, exc, None, true);
    assert_eq!(files.len(), 2);
    assert_eq!(files[0].path_in_archive, "r/a");

    let inc2 = PatternSet::new(vec![String::from("*")]);
    let exc2 = PatternSet::new(Vec::new());
    let (files2, total) = collect_and_measure_files("r", &cands, inc2, exc2, None, true).unwrap();
    assert_eq!(files2.len(), 2);
    assert_eq!(total, 3);
}

#[test]
fn filter_property_over_generated_inputs() {
    // A small linear-congruential generator keeps the cases reproducible.
    let mut state: u64 = 0x2545F4914F6CDD1D;
    let mut next = move || {
        state = state.wrapping_mul(6364136223846793005).wrapping_add(1442695040888963407);
        (state >> 33) as u64
    };
    let pattern_pool = ["*", ".txt", "a*b", "data", ".png", "b"];
    let name_pool = ["a.txt", "ab", "a-x-b", "data.png", "b.txt", "notes", "img.png"];
    for _round in 0..200 {
        let inc_n = (next() % 3) as usize;
        let exc_n = (next() % 2) as usize;
        let includes: Vec<String> =
            (0..inc_n).map(|_| String::from(pattern_pool[(next() % 6) as usize])).collect();
        let excludes: Vec<String> =
            (0..exc_n).map(|_| String::from(pattern_pool[(next() % 6) as usize])).collect();
        let cap = if next() % 2 == 0 { None } else { Some(next() % 50) };
        let n_files = (next() % 6) as usize;
        let cands: Vec<CandidateFile> = (0..n_files)
            .map(|_| CandidateFile {
                path: format!("root/{}", name_pool[(next() % 7) as usize]),
                size: next() % 60,
            })
            .collect();
        let inc = PatternSet::new(includes.clone());
        let exc = PatternSet::new(excludes.clone());
        let c = FileCollector::new(
            PatternSet::new(includes.clone()),
            PatternSet::new(excludes.clone()),
            cap,
            true,
        );
        let out = c.collect_files("root", &cands);
        for cf in &cands {
            let eligible = inc.matches(cf.path.as_str())
                && !exc.matches(cf.path.as_str())
                && cap.map_or(true, |m| cf.size <= m);
            let selected = out
                .iter()
                .any(|e| e.source_path == cf.path && e.size == cf.size);
            assert_eq!(
                selected, eligible,
                "path {} size {} includes {:?} excludes {:?} cap {:?}",
                cf.path, cf.size, includes, excludes, cap
            );
        }
    }
}
