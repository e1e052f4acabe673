use curvas::cli::Mode;
use curvas::output::{kml_document, output_files, points_shapefile_name};

#[test]
fn points_shapefile_names() {
    assert_eq!(points_shapefile_name("curva_align.shp"), "curva_align_points.shp");
    assert_eq!(points_shapefile_name("curva"), "curva_points.shp");
    assert_eq!(points_shapefile_name("a.shp.b.shp"), "a_points.shp.b_points.shp");
    assert_eq!(points_shapefile_name(".shp"), "_points.shp");
    assert_eq!(points_shapefile_name("x.sh"), "x.sh_points.shp");
    for name in ["a.shp", "b", "c.shp.shp", "..shp", "shp", "d.shpx"] {
        let expected = if name.ends_with(".shp") {
            name.replace(".shp", "_points.shp")
        } else {
            format!("{name}_points.shp")
        };
        assert_eq!(points_shapefile_name(name), expected);
        assert!(points_shapefile_name(name).ends_with("_points.shp"));
    }
}

#[test]
fn names_of_output_files() {
    let n = output_files("curva_align", Mode::Inverse).unwrap();
    assert_eq!(n.kml, "curva_align.kmz");
    assert_eq!(n.shapefile, "curva_align.shp");
    assert_eq!(n.points_shapefile, Some("curva_align_points.shp".to_string()));
    assert_eq!(n.csv, "curva_align.csv");
    let n = output_files("align_0.01", Mode::Direct).unwrap();
    assert_eq!(n.points_shapefile, Some("align_0.01_points.shp".to_string()));
    let n = output_files("poligo", Mode::Polygon).unwrap();
    assert_eq!(n.kml, "poligo.kmz");
    assert_eq!(n.shapefile, "poligo.shp");
    assert_eq!(n.points_shapefile, None);
    assert_eq!(n.csv, "poligo.csv");
    assert!(output_files("", Mode::Inverse).is_none());
    assert!(output_files("", Mode::Polygon).is_none());
}

#[test]
fn kml_document_of_points() {
    let points = vec![
        ("0".to_string(), "-30".to_string()),
        ("179.5".to_string(), "30.25".to_string()),
    ];
    let doc = kml_document(&points);
    let expected = "<?xml version=\"1.0\" encoding=\"UTF-8\"?>
<kml xmlns=\"http://www.opengis.net/kml/2.2\">
<Document>
<name>Curva Geodesica</name>
<Style id=\"redLine\">
<LineStyle>
<color>ff0000ff</color>
<width>3</width>
</LineStyle>
</Style>
<Placemark>
<name>Curva</name>
<styleUrl>#redLine</styleUrl>
<LineString>
<coordinates>0,-30,0.0
179.5,30.25,0.0
</coordinates>
</LineString>
</Placemark>
</Document>
</kml>";
    assert_eq!(doc, expected);
    let empty = kml_document(&Vec::new());
    assert!(empty.ends_with("<coordinates></coordinates>\n</LineString>\n</Placemark>\n</Document>\n</kml>"));
}
