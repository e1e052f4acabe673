//! Names of the output files and the KML document of a curve.
use crate::cli::Mode;
use vstd::prelude::*;

verus! {

/// `y` is a suffix of `x`.
pub open spec fn ends_with(x: Seq<char>, y: Seq<char>) -> bool {
    x.len() >= y.len() && x.skip(x.len() - y.len()) == y
}

/// The extension of a shapefile.
pub open spec fn shp_extension() -> Seq<char> {
    seq!['.', 's', 'h', 'p']
}

/// What stands for the extension in the name of the points shapefile.
pub open spec fn points_suffix() -> Seq<char> {
    "_points.shp"@
}

/// Every non-overlapping occurrence of `pat` in `s`, found from left to
/// right, replaced by `rep`, as `str::replace` does for a non-empty pattern.
pub open spec fn replace_all(s: Seq<char>, pat: Seq<char>, rep: Seq<char>) -> Seq<char>
    decreases s.len(),
{
    if pat.len() == 0 || s.len() < pat.len() {
        s
    } else if s.take(pat.len() as int) == pat {
        rep + replace_all(s.skip(pat.len() as int), pat, rep)
    } else {
        seq![s[0]] + replace_all(s.drop_first(), pat, rep)
    }
}

/// The name of the shapefile of points that goes with the shapefile
/// `filename`: every `.shp` replaced by `_points.shp` when the name ends in
/// `.shp`, otherwise the name followed by `_points.shp`.
pub open spec fn points_shapefile_name_spec(filename: Seq<char>) -> Seq<char> {
    if ends_with(filename, shp_extension()) {
        replace_all(filename, shp_extension(), points_suffix())
    } else {
        filename + points_suffix()
    }
}

/// Whether `s` holds `.shp` at character `i`.
fn shp_at(s: &str, i: usize) -> (b: bool)
    requires
        i + 4 <= s@.len() <= usize::MAX,
    ensures
        b == (s@.subrange(i as int, i + 4) == shp_extension()),
{
    let r = s.get_char(i) == '.' && s.get_char(i + 1) == 's' && s.get_char(i + 2) == 'h'
        && s.get_char(i + 3) == 'p';
    assert(r ==> s@.subrange(i as int, i + 4) =~= shp_extension());
    assert(s@.subrange(i as int, i + 4) == shp_extension() ==> {
        &&& s@.subrange(i as int, i + 4)[0] == '.'
        &&& s@.subrange(i as int, i + 4)[1] == 's'
        &&& s@.subrange(i as int, i + 4)[2] == 'h'
        &&& s@.subrange(i as int, i + 4)[3] == 'p'
    });
    r
}

/// The name of the shapefile of points that goes with the shapefile `filename`.
pub fn points_shapefile_name(filename: &str) -> (r: String)
    ensures
        r@ == points_shapefile_name_spec(filename@),
{
    let n = filename.unicode_len();
    let ends = n >= 4 && shp_at(filename, n - 4);
    assert(ends == ends_with(filename@, shp_extension())) by {
        if n >= 4 {
            assert(filename@.skip(n - 4) =~= filename@.subrange(n - 4, n as int));
        }
    }
    if !ends {
        let mut r = filename.to_owned();
        r.append("_points.shp");
        return r;
    }
    let ghost s = filename@;
    let ghost pat = shp_extension();
    let ghost rep = points_suffix();
    let mut out = String::new();
    let mut i: usize = 0;
    assert(s.skip(0) =~= s);
    while i < n
        invariant
            i <= n == s.len(),
            s == filename@,
            pat == shp_extension(),
            rep == points_suffix(),
            out@ + replace_all(s.skip(i as int), pat, rep) == replace_all(s, pat, rep),
        decreases n - i,
    {
        let ghost rest = s.skip(i as int);
        if n - i >= 4 && shp_at(filename, i) {
            assert(rest.take(4) =~= s.subrange(i as int, i + 4));
            assert(rest.skip(4) =~= s.skip(i + 4));
            out.append("_points.shp");
            assert(out@ + replace_all(s.skip(i + 4), pat, rep) =~= replace_all(s, pat, rep));
            i = i + 4;
        } else {
            assert(n - i >= 4 ==> rest.take(4) =~= s.subrange(i as int, i + 4));
            assert(rest.drop_first() =~= s.skip(i + 1));
            let ghost old_out = out@;
            out.append(filename.substring_char(i, i + 1));
            assert(filename@.subrange(i as int, i + 1) =~= seq![rest[0]]);
            proof {
                if rest.len() < pat.len() {
                    assert(replace_all(rest.drop_first(), pat, rep) == rest.drop_first());
                    assert(rest =~= seq![rest[0]] + rest.drop_first());
                }
            }
            assert(out@ + replace_all(s.skip(i + 1), pat, rep) =~= replace_all(s, pat, rep));
            i = i + 1;
        }
    }
    assert(s.skip(n as int) =~= Seq::<char>::empty());
    out
}

proof fn lemma_ends_with_concat(x: Seq<char>, y: Seq<char>, z: Seq<char>)
    requires
        ends_with(y, z),
    ensures
        ends_with(x + y, z),
{
    assert((x + y).skip((x + y).len() - z.len()) =~= y.skip(y.len() - z.len()));
}

/// Replacing every `.shp` in a name that ends in `.shp` leaves a name that
/// ends in `_points.shp`.
proof fn lemma_replace_keeps_suffix(s: Seq<char>)
    requires
        ends_with(s, shp_extension()),
    ensures
        ends_with(replace_all(s, shp_extension(), points_suffix()), points_suffix()),
    decreases s.len(),
{
    let pat = shp_extension();
    let rep = points_suffix();
    let n = s.len();
    assert(s.skip(n - 4) == pat);
    if s.take(4) == pat {
        let rest = s.skip(4);
        if n == 4 {
            assert(rest.len() == 0);
            assert(replace_all(rest, pat, rep) == rest);
            assert(rep + rest =~= rep);
            assert(rep.skip(0) =~= rep);
        } else if n < 8 {
            let d = n - 4;
            assert(s[d] == s.skip(n - 4)[0]);
            assert(s[d] == s.take(4)[d]);
        } else {
            assert(rest.skip(rest.len() - 4) =~= s.skip(n - 4));
            lemma_replace_keeps_suffix(rest);
            lemma_ends_with_concat(rep, replace_all(rest, pat, rep), rep);
        }
    } else {
        if n == 4 {
            assert(s.take(4) =~= s.skip(0));
        }
        let rest = s.drop_first();
        assert(rest.skip(rest.len() - 4) =~= s.skip(n - 4));
        lemma_replace_keeps_suffix(rest);
        lemma_ends_with_concat(seq![s[0]], replace_all(rest, pat, rep), rep);
    }
}

/// Replacing in `b.shp` followed by `f`, when `b` holds no `.`, renames
/// that first extension and goes on with `f`.
proof fn lemma_replace_single_extension(b: Seq<char>, f: Seq<char>)
    requires
        !b.contains('.'),
    ensures
        replace_all(b + shp_extension() + f, shp_extension(), points_suffix()) == b
            + points_suffix() + replace_all(f, shp_extension(), points_suffix()),
    decreases b.len(),
{
    let pat = shp_extension();
    let rep = points_suffix();
    let s = b + pat + f;
    if b.len() == 0 {
        assert(s =~= pat + f);
        assert(s.take(4) =~= pat);
        assert(s.skip(4) =~= f);
        assert(replace_all(s, pat, rep) == rep + replace_all(s.skip(4), pat, rep));
        assert(b + rep =~= rep);
    } else {
        assert(s[0] == b[0]);
        assert(s.take(4)[0] == b[0]);
        assert(s.take(4) != pat);
        let rest = b.drop_first();
        assert(!rest.contains('.')) by {
            if rest.contains('.') {
                let k = choose|k: int| 0 <= k < rest.len() && rest[k] == '.';
                assert(b[k + 1] == '.');
            }
        }
        assert(s.drop_first() =~= rest + pat + f);
        lemma_replace_single_extension(rest, f);
        assert(replace_all(s, pat, rep) == seq![s[0]] + replace_all(s.drop_first(), pat, rep));
        assert(seq![b[0]] + (rest + rep + replace_all(f, pat, rep)) =~= b + rep + replace_all(
            f,
            pat,
            rep,
        ));
    }
}

/// Every `.shp` of a shapefile name is renamed, not only the last: a name
/// `b.shp` followed by a name `f` that itself ends in `.shp` (with no `.` in
/// `b`) gives `b_points.shp` followed by what `f` gives.
pub proof fn law_points_name_every_extension(b: Seq<char>, f: Seq<char>)
    requires
        !b.contains('.'),
        ends_with(f, shp_extension()),
    ensures
        points_shapefile_name_spec(b + ".shp"@ + f) == b + "_points.shp"@
            + points_shapefile_name_spec(f),
{
    reveal_strlit(".shp");
    assert(".shp"@ =~= shp_extension());
    let s = b + shp_extension() + f;
    assert(s.skip(s.len() - 4) =~= f.skip(f.len() - 4));
    lemma_replace_single_extension(b, f);
}

/// The points shapefile of any shapefile name ends in `_points.shp`; when
/// the name is some `b.shp` with no other `.` in `b`, it is `b_points.shp`.
pub proof fn lemma_points_shapefile_name(filename: Seq<char>, b: Seq<char>)
    ensures
        ends_with(points_shapefile_name_spec(filename), points_suffix()),
        filename == b + shp_extension() && !b.contains('.') ==> points_shapefile_name_spec(filename)
            == b + points_suffix(),
{
    if ends_with(filename, shp_extension()) {
        lemma_replace_keeps_suffix(filename);
    } else {
        assert((filename + points_suffix()).skip(filename.len() as int) =~= points_suffix());
    }
    if filename == b + shp_extension() && !b.contains('.') {
        assert(filename.skip(filename.len() - 4) =~= shp_extension());
        lemma_replace_single_extension(b, Seq::empty());
        assert(b + shp_extension() + Seq::<char>::empty() =~= b + shp_extension());
        assert(replace_all(Seq::<char>::empty(), shp_extension(), points_suffix()) == Seq::<
            char,
        >::empty());
        assert(b + points_suffix() + Seq::<char>::empty() =~= b + points_suffix());
    }
}


/// The files written for a computed curve.
pub struct OutputFiles {
    /// The KML document (written with a `.kmz` name).
    pub kml: String,
    /// The shapefile holding the curve as one polyline.
    pub shapefile: String,
    /// The shapefile holding each computed point of the curve; not written
    /// for a polygon.
    pub points_shapefile: Option<String>,
    /// The table of computed points.
    pub csv: String,
}

/// The files to write for an output base name `base` (none when `base` is
/// empty) after solving a problem of the given mode: the KML document, the
/// shapefile, the table and, except for a polygon, the shapefile of points.
pub fn output_files(base: &str, mode: Mode) -> (r: Option<OutputFiles>)
    ensures
        r is None <==> base@.len() == 0,
        r matches Some(f) ==> {
            &&& f.kml@ == base@ + ".kmz"@
            &&& f.shapefile@ == base@ + ".shp"@
            &&& f.csv@ == base@ + ".csv"@
            &&& f.points_shapefile.deep_view() == if mode == Mode::Polygon {
                None
            } else {
                Some(points_shapefile_name_spec(base@ + ".shp"@))
            }
        },
{
    if base.unicode_len() == 0 {
        return None;
    }
    let mut kml = base.to_owned();
    kml.append(".kmz");
    let mut shapefile = base.to_owned();
    shapefile.append(".shp");
    let points_shapefile = match mode {
        Mode::Polygon => None,
        _ => Some(points_shapefile_name(shapefile.as_str())),
    };
    let mut csv = base.to_owned();
    csv.append(".csv");
    Some(OutputFiles { kml, shapefile, points_shapefile, csv })
}

/// The opening of the KML document, up to where the coordinates go.
pub open spec fn kml_head() -> Seq<char> {
    "<?xml version=\"1.0\" encoding=\"UTF-8\"?>\n<kml xmlns=\"http://www.opengis.net/kml/2.2\">\n<Document>\n<name>Curva Geodesica</name>\n<Style id=\"redLine\">\n<LineStyle>\n<color>ff0000ff</color>\n<width>3</width>\n</LineStyle>\n</Style>\n<Placemark>\n<name>Curva</name>\n<styleUrl>#redLine</styleUrl>\n<LineString>\n<coordinates>"@
}

/// The closing of the KML document, after the coordinates.
pub open spec fn kml_tail() -> Seq<char> {
    "</coordinates>\n</LineString>\n</Placemark>\n</Document>\n</kml>"@
}

/// The line of one point: longitude, latitude and a zero height.
pub open spec fn kml_point_line(lon: Seq<char>, lat: Seq<char>) -> Seq<char> {
    lon + ","@ + lat + ",0.0\n"@
}

/// The lines of the points, in order.
pub open spec fn kml_coordinates(points: Seq<(Seq<char>, Seq<char>)>) -> Seq<char>
    decreases points.len(),
{
    if points.len() == 0 {
        Seq::empty()
    } else {
        kml_coordinates(points.drop_last()) + kml_point_line(points.last().0, points.last().1)
    }
}

/// The KML document of a curve through the given points.
pub open spec fn kml_document_spec(points: Seq<(Seq<char>, Seq<char>)>) -> Seq<char> {
    kml_head() + kml_coordinates(points) + kml_tail()
}

/// The KML document of a curve: one line string through the points, each
/// given as the texts of its longitude and latitude in degrees.
pub fn kml_document(points: &Vec<(String, String)>) -> (r: String)
    ensures
        r@ == kml_document_spec(points.deep_view()),
{
    let mut out = String::new();
    out.append("<?xml version=\"1.0\" encoding=\"UTF-8\"?>\n<kml xmlns=\"http://www.opengis.net/kml/2.2\">\n<Document>\n<name>Curva Geodesica</name>\n<Style id=\"redLine\">\n<LineStyle>\n<color>ff0000ff</color>\n<width>3</width>\n</LineStyle>\n</Style>\n<Placemark>\n<name>Curva</name>\n<styleUrl>#redLine</styleUrl>\n<LineString>\n<coordinates>");
    assert(out@ =~= kml_head());
    let mut i: usize = 0;
    assert(points.deep_view().take(0) =~= Seq::<(Seq<char>, Seq<char>)>::empty());
    assert(out@ =~= kml_head() + kml_coordinates(points.deep_view().take(0)));
    while i < points.len()
        invariant
            i <= points.len(),
            out@ == kml_head() + kml_coordinates(points.deep_view().take(i as int)),
        decreases points.len() - i,
    {
        let ghost before = out@;
        out.append(points[i].0.as_str());
        out.append(",");
        out.append(points[i].1.as_str());
        out.append(",0.0\n");
        proof {
            let t = points.deep_view().take(i + 1);
            assert(t.drop_last() =~= points.deep_view().take(i as int));
            assert(t.last() == points[i as int].deep_view());
            assert(out@ =~= before + kml_point_line(t.last().0, t.last().1));
        }
        i = i + 1;
    }
    assert(points.deep_view().take(points.len() as int) =~= points.deep_view());
    out.append("</coordinates>\n</LineString>\n</Placemark>\n</Document>\n</kml>");
    out
}


/// The KML document of no point is the opening and the closing; adding a
/// point at the end of the curve adds its line `lon,lat,0.0` just before the
/// closing.  So the document holds one line per point, in order.
pub proof fn law_kml_document(points: Seq<(Seq<char>, Seq<char>)>, p: (Seq<char>, Seq<char>))
    ensures
        kml_document_spec(Seq::empty()) == "<?xml version=\"1.0\" encoding=\"UTF-8\"?>\n<kml xmlns=\"http://www.opengis.net/kml/2.2\">\n<Document>\n<name>Curva Geodesica</name>\n<Style id=\"redLine\">\n<LineStyle>\n<color>ff0000ff</color>\n<width>3</width>\n</LineStyle>\n</Style>\n<Placemark>\n<name>Curva</name>\n<styleUrl>#redLine</styleUrl>\n<LineString>\n<coordinates>"@ + "</coordinates>\n</LineString>\n</Placemark>\n</Document>\n</kml>"@,
        ({
            let doc = kml_document_spec(points);
            let tail = "</coordinates>\n</LineString>\n</Placemark>\n</Document>\n</kml>"@;
            kml_document_spec(points.push(p)) == doc.subrange(0, doc.len() - tail.len()) + p.0
                + ","@ + p.1 + ",0.0\n"@ + tail
        }),
{
    let doc = kml_document_spec(points);
    let tail = kml_tail();
    assert(kml_coordinates(Seq::<(Seq<char>, Seq<char>)>::empty()) == Seq::<char>::empty());
    assert(kml_head() + Seq::<char>::empty() + tail =~= kml_head() + tail);
    assert(points.push(p).drop_last() =~= points);
    assert(doc.subrange(0, doc.len() - tail.len()) =~= kml_head() + kml_coordinates(points));
    assert(kml_document_spec(points.push(p)) =~= kml_head() + kml_coordinates(points) + p.0 + ","@
        + p.1 + ",0.0\n"@ + tail);
}

} // verus!
