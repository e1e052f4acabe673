use curvas::cli::{
    curve_from_name, parse_command_line, parse_lowered_command_line, read_option, CliError, CommandLine, CurveKind, Mode,
    Settings,
};

fn run(tokens: &[&str]) -> CommandLine {
    let mut args: Vec<String> = vec!["curvas".to_string()];
    args.extend(tokens.iter().map(|t| t.to_string()));
    let numeric: Vec<bool> = args.iter().map(|a| a.parse::<f64>().is_ok()).collect();
    parse_command_line(&args, &numeric)
}

fn pair(a: &str, b: &str) -> Option<(String, String)> {
    Some((a.to_string(), b.to_string()))
}

#[test]
fn inverse_problem_with_output() {
    let r = run(&["-i", "-P1", "-30", "0", "-P2", "30", "179", "-t", "align", "-o", "curva_align"]);
    assert!(r.warnings.is_empty());
    let s = r.outcome.unwrap();
    assert_eq!(s.mode, Some(Mode::Inverse));
    assert_eq!(s.curve, CurveKind::Align);
    assert_eq!(s.p1, pair("-30", "0"));
    assert_eq!(s.p2, pair("30", "179"));
    assert_eq!(s.output_base, "curva_align");
    assert_eq!(s.max_step, None);
    assert_eq!(s.ellipsoid, None);
}

#[test]
fn direct_problem_with_step() {
    let r = run(&["-d", "-P1", "-30", "-60", "-az", "30", "-s", "5000000", "-t", "align", "-o", "align_0.01", "-mstep", "0.01"]);
    let s = r.outcome.unwrap();
    assert_eq!(s.mode, Some(Mode::Direct));
    assert_eq!(s.azimuth, Some("30".to_string()));
    assert_eq!(s.distance, Some("5000000".to_string()));
    assert_eq!(s.max_step, Some("0.01".to_string()));
    assert_eq!(s.output_base, "align_0.01");
}

#[test]
fn polygon_problem_and_default_curve() {
    let r = run(&["-poly", "poligono.csv", "-o", "poligo"]);
    let s = r.outcome.unwrap();
    assert_eq!(s.mode, Some(Mode::Polygon));
    assert_eq!(s.curve, CurveKind::Central);
    assert_eq!(s.polygon_file, Some("poligono.csv".to_string()));
}

#[test]
fn option_names_ignore_case_and_long_forms() {
    let r = run(&["--INVERSO", "-p1", "1", "2", "-P2", "3", "4", "--Tipo", "LOXO", "--ellipsoid", "6378137", "298.257223563"]);
    let s = r.outcome.unwrap();
    assert_eq!(s.mode, Some(Mode::Inverse));
    assert_eq!(s.curve, CurveKind::Loxo);
    assert_eq!(s.ellipsoid, pair("6378137", "298.257223563"));
}

#[test]
fn last_occurrence_wins() {
    let r = run(&["-i", "-d", "-P1", "1", "2", "-az", "10", "-az", "20", "-s", "5", "-o", "a", "-o", "b", "-t", "normal", "-t", "geodesic"]);
    let s = r.outcome.unwrap();
    assert_eq!(s.mode, Some(Mode::Direct));
    assert_eq!(s.azimuth, Some("20".to_string()));
    assert_eq!(s.output_base, "b");
    assert_eq!(s.curve, CurveKind::Geodesic);
}

#[test]
fn unknown_tokens_are_reported_and_skipped() {
    let r = run(&["-x", "-i", "Foo", "-P1", "1", "2", "-P2", "3", "4"]);
    assert_eq!(r.warnings, vec!["-x".to_string(), "Foo".to_string()]);
    assert!(r.outcome.is_ok());
}

#[test]
fn bad_step_value_is_read_as_next_token() {
    let r = run(&["-i", "-mstep", "abc", "-P1", "1", "2", "-P2", "3", "4"]);
    assert_eq!(r.warnings, vec!["abc".to_string()]);
    let s = r.outcome.unwrap();
    assert_eq!(s.max_step, None);
}

#[test]
fn trailing_options_without_values_are_ignored() {
    let r = run(&["-i", "-P1", "1", "2", "-P2", "3", "4", "-o"]);
    assert_eq!(r.outcome.unwrap().output_base, "");
    let r = run(&["-i", "-P1", "1", "2", "-P2", "3", "4", "-t"]);
    assert_eq!(r.outcome.unwrap().curve, CurveKind::Central);
}

#[test]
fn each_error_has_its_input() {
    let cases: Vec<(Vec<&str>, CliError)> = vec![
        (vec![], CliError::NoArguments),
        (vec!["-poly"], CliError::MissingPolygonFile),
        (vec!["-P1", "a", "2"], CliError::P1NotNumbers),
        (vec!["-P1", "1"], CliError::P1Missing),
        (vec!["-P2", "1"], CliError::P2Invalid),
        (vec!["-P2", "1", "x"], CliError::P2Invalid),
        (vec!["-az", "north"], CliError::AzimuthNotNumber),
        (vec!["-az"], CliError::AzimuthMissing),
        (vec!["-s", "far"], CliError::DistanceNotNumber),
        (vec!["-s"], CliError::DistanceMissing),
        (vec!["-t", "spiral"], CliError::UnknownCurveType),
        (vec!["-e", "1"], CliError::EllipsoidInvalid),
        (vec!["-o", "x"], CliError::NoMode),
        (vec!["-i", "-P1", "1", "2"], CliError::InverseNeedsPoints),
        (vec!["-d", "-P1", "1", "2", "-az", "3"], CliError::DirectNeedsInputs),
    ];
    for (tokens, expected) in cases {
        let r = run(&tokens);
        assert_eq!(r.outcome.err(), Some(expected), "{:?}", tokens);
    }
}

#[test]
fn first_error_stops_the_scan() {
    let r = run(&["-q", "-az", "x", "-w", "-P1"]);
    assert_eq!(r.warnings, vec!["-q".to_string()]);
    assert_eq!(r.outcome.err(), Some(CliError::AzimuthNotNumber));
}

#[test]
fn error_messages() {
    assert_eq!(CliError::NoArguments.message(), None);
    assert_eq!(CliError::NoMode.message(), Some("Debe especificar -i, -d o -poly".to_string()));
    assert_eq!(
        CliError::P1NotNumbers.message(),
        Some("Error: -P1 necesita dos números (latitud, longitud)".to_string())
    );
    assert_eq!(
        CliError::UnknownCurveType.message(),
        Some("Error: tipo debe ser align, central, geodesic o normal".to_string())
    );
    assert_eq!(
        CliError::DirectNeedsInputs.message(),
        Some("El problema directo requiere -P1, -az y -s".to_string())
    );
}

#[test]
fn accepted_lines_are_complete() {
    let lines: Vec<Vec<&str>> = vec![
        vec!["-poly", "f.csv"],
        vec!["-i", "-P1", "1", "2", "-P2", "3", "4"],
        vec!["-d", "-P1", "1", "2", "-az", "3", "-s", "4", "-e", "6378137", "298"],
    ];
    for tokens in lines {
        let s = run(&tokens).outcome.unwrap();
        match s.mode {
            Some(Mode::Polygon) => assert!(s.polygon_file.is_some()),
            Some(Mode::Inverse) => assert!(s.p1.is_some() && s.p2.is_some()),
            Some(Mode::Direct) => assert!(s.p1.is_some() && s.azimuth.is_some() && s.distance.is_some()),
            None => panic!("no mode"),
        }
        for (a, b) in [s.p1.clone(), s.p2.clone(), s.ellipsoid.clone()].into_iter().flatten() {
            assert!(a.parse::<f64>().is_ok() && b.parse::<f64>().is_ok());
        }
    }
}

#[test]
fn curve_names() {
    assert_eq!(curve_from_name("align"), Some(CurveKind::Align));
    assert_eq!(curve_from_name("central"), Some(CurveKind::Central));
    assert_eq!(curve_from_name("normal"), Some(CurveKind::Normal));
    assert_eq!(curve_from_name("geodesic"), Some(CurveKind::Geodesic));
    assert_eq!(curve_from_name("loxo"), Some(CurveKind::Loxo));
    assert_eq!(curve_from_name("Align"), None);
}

fn empty_settings() -> Settings {
    Settings {
        mode: None,
        curve: CurveKind::Central,
        output_base: String::new(),
        max_step: None,
        p1: None,
        p2: None,
        azimuth: None,
        distance: None,
        polygon_file: None,
        ellipsoid: None,
    }
}

#[test]
fn reading_one_option() {
    let args: Vec<String> = ["curvas", "-P1", "1", "2", "-T", "ALIGN", "zz"].iter().map(|s| s.to_string()).collect();
    let lowered: Vec<String> = ["curvas", "-p1", "1", "2", "-t", "align", "zz"].iter().map(|s| s.to_string()).collect();
    let numeric = vec![false, false, true, true, false, false, false];
    let mut s = empty_settings();
    let mut w = Vec::new();
    assert_eq!(read_option(&args, &lowered, &numeric, 1, &mut s, &mut w), (4, None));
    assert_eq!(s.p1, pair("1", "2"));
    assert_eq!(read_option(&args, &lowered, &numeric, 4, &mut s, &mut w), (6, None));
    assert_eq!(s.curve, CurveKind::Align);
    assert_eq!(read_option(&args, &lowered, &numeric, 6, &mut s, &mut w), (7, None));
    assert_eq!(w, vec!["zz".to_string()]);
    let mut s = empty_settings();
    assert_eq!(read_option(&args, &lowered, &numeric, 2, &mut s, &mut w), (3, None));
    let numeric = vec![false, false, true, false, false, false, false];
    assert_eq!(read_option(&args, &lowered, &numeric, 1, &mut s, &mut w), (2, Some(CliError::P1NotNumbers)));
}

#[test]
fn option_names_come_from_the_lowered_tokens() {
    let args: Vec<String> = ["curvas", "X", "-P1", "1", "2", "-P2", "3", "4"].iter().map(|s| s.to_string()).collect();
    let lowered: Vec<String> = ["curvas", "-i", "-p1", "1", "2", "-p2", "3", "4"].iter().map(|s| s.to_string()).collect();
    let numeric = vec![false, false, false, true, true, false, true, true];
    let r = parse_lowered_command_line(&args, &lowered, &numeric);
    assert!(r.warnings.is_empty());
    assert_eq!(r.outcome.unwrap().mode, Some(Mode::Inverse));
}
