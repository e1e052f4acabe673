use curvas::polygon::{
    check_vertex_count, choose_vertices, coordinate_column, join_edge_paths, line_fields, looks_like_id, parse_i64,
    polygon_edges, PolygonFileError,
};

fn fields(line: &str) -> Option<Vec<String>> {
    line_fields(line)
}

fn strings(v: &[&str]) -> Vec<String> {
    v.iter().map(|s| s.to_string()).collect()
}

#[test]
fn vertex_line_is_split_into_fields() {
    assert_eq!(fields("-73.3370959549,-70.0386475104"), Some(strings(&["-73.3370959549", "-70.0386475104"])));
    assert_eq!(fields("  1 ;\t-10.5 , 20.25; 100 "), Some(strings(&["1", "-10.5", "20.25", "100"])));
    assert_eq!(fields("a,,b;; ,c"), Some(strings(&["a", "b", "c"])));
    assert_eq!(fields("\"Y\",\"X\""), Some(strings(&["\"Y\"", "\"X\""])));
    assert_eq!(fields(",,,"), Some(Vec::new()));
}

#[test]
fn blank_comment_and_marked_lines() {
    assert_eq!(fields(""), None);
    assert_eq!(fields("   \t "), None);
    assert_eq!(fields("# vertices"), None);
    assert_eq!(fields("   # indented comment"), None);
    assert_eq!(fields("\u{feff}\u{feff}"), None);
    assert_eq!(fields("\u{feff}#x"), None);
    assert_eq!(fields("\u{feff}10,20"), Some(strings(&["10", "20"])));
}

#[test]
fn fields_match_std_split() {
    let lines = ["x; y ,z", " 1,2,3 ", "\u{3000}a\u{a0},b", "p\tq", "a, ,b"];
    for line in lines {
        let content = line.trim().trim_start_matches('\u{feff}');
        let expected: Vec<String> = content
            .split(|c: char| c == ',' || c == '\t' || c == ';')
            .map(|s| s.trim())
            .filter(|s| !s.is_empty())
            .map(|s| s.to_string())
            .collect();
        assert_eq!(fields(line), Some(expected), "{:?}", line);
    }
}

#[test]
fn integer_parsing_matches_std() {
    let samples = [
        "0", "7", "-7", "+7", "", "+", "-", "12a", "1.0", " 1", "1 ", "007",
        "9223372036854775807", "9223372036854775808", "-9223372036854775808",
        "-9223372036854775809", "00000000000000000000000000042", "99999999999999999999999",
        "+-1", "١", "--1",
    ];
    for s in samples {
        assert_eq!(parse_i64(s), s.parse::<i64>().ok(), "{:?}", s);
    }
}

#[test]
fn identifier_detection() {
    assert!(looks_like_id("12"));
    assert!(looks_like_id("-3"));
    assert!(!looks_like_id("12.5"));
    assert!(!looks_like_id("-73.3370959549"));
    assert!(!looks_like_id("id"));
}

#[test]
fn coordinate_columns() {
    let with_id = strings(&["5", "-10.5", "20.25", "100"]);
    assert_eq!(coordinate_column(&with_id, &vec![true, true, true, false]), Some(1));
    assert_eq!(coordinate_column(&with_id, &vec![true, false, true, false]), Some(0));
    let plain = strings(&["-10.5", "20.25"]);
    assert_eq!(coordinate_column(&plain, &vec![true, false]), Some(0));
    assert_eq!(coordinate_column(&plain, &vec![false, false]), None);
    let three = strings(&["10", "20", "30"]);
    assert_eq!(coordinate_column(&three, &vec![true, true, false]), Some(0));
    assert_eq!(coordinate_column(&three, &vec![false, true, false]), None);
    let with_id_no_alt = strings(&["7", "-10.5", "20.25"]);
    assert_eq!(coordinate_column(&with_id_no_alt, &vec![true, true, false]), Some(0));
    let header = strings(&["id", "lat", "lon"]);
    assert_eq!(coordinate_column(&header, &vec![false, false, false]), None);
    assert_eq!(coordinate_column(&strings(&["1"]), &vec![true]), None);
}

#[test]
fn vertex_count() {
    assert_eq!(check_vertex_count(2), Err(PolygonFileError::TooFewVertices { found: 2 }));
    assert_eq!(check_vertex_count(0), Err(PolygonFileError::TooFewVertices { found: 0 }));
    assert_eq!(check_vertex_count(3), Ok(()));
    assert_eq!(check_vertex_count(9), Ok(()));
}

#[test]
fn edges_close_the_ring() {
    assert_eq!(polygon_edges(4), vec![(0, 1), (1, 2), (2, 3), (3, 0)]);
    assert_eq!(polygon_edges(1), vec![(0, 0)]);
    assert!(polygon_edges(0).is_empty());
    let n = 9;
    let e = polygon_edges(n);
    for i in 0..n {
        assert_eq!(e[i], (i, (i + 1) % n));
        assert_eq!(e[i].1, e[(i + 1) % n].0);
    }
}

#[test]
fn edge_paths_share_their_vertices() {
    let paths = vec![vec![1, 2, 3], vec![3, 4], vec![4, 5, 6, 1]];
    let joined = join_edge_paths(&paths);
    assert_eq!(joined, vec![1, 2, 3, 4, 5, 6, 1]);
    let total: usize = paths.iter().map(|p| p.len()).sum();
    assert_eq!(joined.len(), total - (paths.len() - 1));
    let single = vec![vec![[0.5f64, 1.0], [2.0, 3.0]]];
    assert_eq!(join_edge_paths(&single), vec![[0.5, 1.0], [2.0, 3.0]]);
    let none: Vec<Vec<u8>> = Vec::new();
    assert!(join_edge_paths(&none).is_empty());
}

#[test]
fn fields_are_clean() {
    for line in ["  a ; b\t, c ", "1,\u{2003}x\u{a0};y", "\u{feff}p;;q", "z"] {
        for f in fields(line).unwrap() {
            assert!(!f.is_empty());
            assert_eq!(f.trim(), f);
            assert!(!f.contains(|c: char| c == ',' || c == '\t' || c == ';'));
        }
    }
}

#[test]
fn vertices_of_a_file_in_order() {
    let text = [
        "\"Y\",\"X\"",
        "# comentario",
        "-73.3,-70.0",
        "",
        "1;-64.4;-8.3;100",
        "10,20,30",
        "200,10",
        "\u{feff}2\t-46.8\t-5.0\t7",
    ];
    let lines: Vec<Option<Vec<String>>> = text.iter().map(|l| line_fields(l)).collect();
    let par = |f: &Vec<String>, k: usize| -> bool {
        k + 1 < f.len()
            && matches!((f[k].parse::<f64>(), f[k + 1].parse::<f64>()),
                (Ok(a), Ok(b)) if (-90.0..=90.0).contains(&a) && (-180.0..=180.0).contains(&b))
    };
    let valid: Vec<Vec<bool>> = lines
        .iter()
        .map(|l| match l {
            Some(f) => (0..f.len()).map(|k| par(f, k)).collect(),
            None => Vec::new(),
        })
        .collect();
    let positions = choose_vertices(&lines, &valid).unwrap();
    assert_eq!(positions, vec![(2, 0), (4, 1), (5, 0), (7, 1)]);
    for w in positions.windows(2) {
        assert!(w[0].0 < w[1].0);
    }
    let few = &lines[..5];
    let r = choose_vertices(&few.to_vec(), &valid[..5].to_vec());
    assert_eq!(r, Err(PolygonFileError::TooFewVertices { found: 2 }));
}
