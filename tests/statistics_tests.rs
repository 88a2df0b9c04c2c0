use encscan::detection::FileEncoding;
use encscan::filter::FileFilter;
use encscan::statistics::Statistics;

fn enc(name: &str, bom: Option<&str>) -> FileEncoding {
    FileEncoding { encoding: name.to_string(), bom: bom.map(|b| b.to_string()) }
}

#[test]
fn counts_and_percentages() {
    let mut st = Statistics::new();
    st.add_file("d/a.txt".to_string(), "a.txt".to_string(), enc("UTF-8", None));
    st.add_file("d/b.txt".to_string(), "b.txt".to_string(), enc("ASCII", None));
    st.add_file("d/c.txt".to_string(), "c.txt".to_string(), enc("ASCII", None));
    st.add_file("d/d.txt".to_string(), "d.txt".to_string(), enc("UTF-8", Some("UTF-8")));
    st.add_file("d/e.txt".to_string(), "e.txt".to_string(), enc("ASCII", None));
    let r = st.generate_report();
    assert_eq!(r.total_files, 5);
    assert_eq!(r.files.len(), 5);
    assert_eq!(r.files[3].name, "d.txt");
    assert_eq!(r.files[3].encoding.bom, Some("UTF-8".to_string()));
    let mut stats: Vec<(String, Option<String>, usize)> =
        r.encoding_stats.iter().map(|s| (s.encoding.clone(), s.bom.clone(), s.count)).collect();
    assert_eq!(stats[0], ("ASCII".to_string(), None, 3));
    stats.sort();
    assert_eq!(stats, vec![
        ("ASCII".to_string(), None, 3),
        ("UTF-8".to_string(), None, 1),
        ("UTF-8".to_string(), Some("UTF-8".to_string()), 1),
    ]);
    let sum: usize = r.encoding_stats.iter().map(|s| s.count).sum();
    assert_eq!(sum, 5);
    let pct: f64 = 100.0 * r.encoding_stats[0].count as f64 / r.total_files as f64;
    assert!((pct - 60.0).abs() < 1e-9);
}

#[test]
fn report_orders_by_descending_count() {
    let mut st = Statistics::new();
    st.add_file("a".to_string(), "a".to_string(), enc("UTF-8", None));
    st.add_file("b".to_string(), "b".to_string(), enc("windows-1252", None));
    st.add_file("c".to_string(), "c".to_string(), enc("windows-1252", None));
    let r = st.generate_report();
    assert_eq!(r.encoding_stats[0].encoding, "windows-1252");
    assert_eq!(r.encoding_stats[0].count, 2);
    assert_eq!(r.encoding_stats[1].encoding, "UTF-8");
    assert_eq!(r.encoding_stats[1].count, 1);
}

#[test]
fn empty_statistics() {
    let r = Statistics::new().generate_report();
    assert_eq!(r.total_files, 0);
    assert!(r.encoding_stats.is_empty());
}

#[test]
fn extension_filter() {
    let f = FileFilter::new(Some(vec![".TXT".to_string(), "md".to_string(), "..Rs".to_string()]));
    assert!(f.should_include("dir/a.txt"));
    assert!(f.should_include("dir/B.MD"));
    assert!(f.should_include("x.rs"));
    assert!(!f.should_include("x.csv"));
    assert!(!f.should_include("noext"));
    let all = FileFilter::new(None);
    assert!(all.should_include("noext"));
    assert!(all.should_include("a.bin"));
}
