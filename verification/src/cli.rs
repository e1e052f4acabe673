//! Interpretation of the command line of the curve tool.
//!
//! The command line is read token by token:
//! option names are compared after lowercasing, each option consumes the
//! values it needs, the last occurrence of an option wins, unknown tokens
//! are reported and skipped, and the first malformed option stops the scan
//! with its error.  Whether a token is a decimal number is decided by the
//! caller (it is a floating-point question) and handed in as one flag per
//! token; numeric values are kept as the text that was given.  The reading
//! itself ([`read_option`], [`parse_lowered_command_line`]) takes the
//! lowercase form of every token as an input; [`parse_command_line`] obtains
//! those forms from `str::to_lowercase`.
use crate::text::text_eq;
use vstd::prelude::*;

verus! {

/// Which of the three problems the tool is asked to solve.
#[derive(Debug, Clone, Copy, PartialEq, Eq, Structural)]
pub enum Mode {
    /// Inverse problem: azimuth, distance and area between two points.
    Inverse,
    /// Direct problem: the end point reached from a point, azimuth and distance.
    Direct,
    /// Area of a polygon whose vertices are read from a file.
    Polygon,
}

/// The curve that joins two points.
#[derive(Debug, Clone, Copy, PartialEq, Eq, Structural)]
pub enum CurveKind {
    /// Curve of alignment.
    Align,
    /// Central section.
    Central,
    /// First normal section.
    Normal,
    /// Geodesic line.
    Geodesic,
    /// Loxodrome (rhumb line).
    Loxo,
}

/// Why a command line was refused.
#[derive(Debug, Clone, Copy, PartialEq, Eq, Structural)]
pub enum CliError {
    /// No token after the program name.
    NoArguments,
    /// `-poly` was the last token.
    MissingPolygonFile,
    /// `-P1` was followed by two tokens that are not both numbers.
    P1NotNumbers,
    /// `-P1` was followed by fewer than two tokens.
    P1Missing,
    /// `-P2` was not followed by two numbers.
    P2Invalid,
    /// `-az` was followed by a token that is not a number.
    AzimuthNotNumber,
    /// `-az` was the last token.
    AzimuthMissing,
    /// `-s` was followed by a token that is not a number.
    DistanceNotNumber,
    /// `-s` was the last token.
    DistanceMissing,
    /// `-t` named no known curve.
    UnknownCurveType,
    /// `-e` was not followed by two numbers.
    EllipsoidInvalid,
    /// None of `-i`, `-d` or `-poly` was given.
    NoMode,
    /// The inverse problem lacks `-P1` or `-P2`.
    InverseNeedsPoints,
    /// The direct problem lacks `-P1`, `-az` or `-s`.
    DirectNeedsInputs,
}

/// Everything a well-formed command line asks for.  Numbers are kept as
/// the text given on the command line.
#[derive(Debug)]
pub struct Settings {
    pub mode: Option<Mode>,
    pub curve: CurveKind,
    pub output_base: String,
    /// Largest integration step, in degrees, when `-mstep` gave one.
    pub max_step: Option<String>,
    /// First point: latitude and longitude in degrees.
    pub p1: Option<(String, String)>,
    /// Second point: latitude and longitude in degrees.
    pub p2: Option<(String, String)>,
    /// Initial azimuth in degrees.
    pub azimuth: Option<String>,
    /// Distance in metres.
    pub distance: Option<String>,
    /// File holding the polygon's vertices.
    pub polygon_file: Option<String>,
    /// Semi-major axis and inverse flattening.
    pub ellipsoid: Option<(String, String)>,
}

/// The mathematical model of [`Settings`].
pub struct SettingsView {
    pub mode: Option<Mode>,
    pub curve: CurveKind,
    pub output_base: Seq<char>,
    pub max_step: Option<Seq<char>>,
    pub p1: Option<(Seq<char>, Seq<char>)>,
    pub p2: Option<(Seq<char>, Seq<char>)>,
    pub azimuth: Option<Seq<char>>,
    pub distance: Option<Seq<char>>,
    pub polygon_file: Option<Seq<char>>,
    pub ellipsoid: Option<(Seq<char>, Seq<char>)>,
}

impl View for Settings {
    type V = SettingsView;

    open spec fn view(&self) -> SettingsView {
        SettingsView {
            mode: self.mode,
            curve: self.curve,
            output_base: self.output_base@,
            max_step: self.max_step.deep_view(),
            p1: self.p1.deep_view(),
            p2: self.p2.deep_view(),
            azimuth: self.azimuth.deep_view(),
            distance: self.distance.deep_view(),
            polygon_file: self.polygon_file.deep_view(),
            ellipsoid: self.ellipsoid.deep_view(),
        }
    }
}

/// The state of a scan over the tokens.
pub struct ScanView {
    pub settings: SettingsView,
    /// Tokens that named no option, in the order met.
    pub warnings: Seq<Seq<char>>,
    /// The error that stopped the scan, if any.
    pub error: Option<CliError>,
}

/// Result of interpreting a command line.
pub struct CommandLine {
    /// Tokens that named no option, in the order met (reported, then skipped).
    pub warnings: Vec<String>,
    pub outcome: Result<Settings, CliError>,
}

/// What `str::to_lowercase` returns for a text (Unicode lowercase mapping).
pub uninterp spec fn lowercase_of(s: Seq<char>) -> Seq<char>;

/// `c` is an ASCII character.
pub open spec fn is_ascii_char(c: char) -> bool {
    c <= '\u{7f}'
}

/// The ASCII lowercase of a character: `A`..`Z` become `a`..`z`, every other
/// character is kept.
pub open spec fn ascii_lower_char(c: char) -> char {
    if 'A' <= c && c <= 'Z' {
        ((c as u32) + 32) as char
    } else {
        c
    }
}

/// The ASCII lowercase of a text, character by character.
pub open spec fn ascii_lowercase(s: Seq<char>) -> Seq<char> {
    s.map_values(|c: char| ascii_lower_char(c))
}

/// Calls `str::to_lowercase`.  The result is named `lowercase_of` of the
/// text; for an all-ASCII text it is the text with `A`..`Z` mapped to
/// `a`..`z` and every other character kept, as the Unicode lowercase mapping
/// has it for ASCII.  Nothing is said of the mapping of other characters.
#[verifier::external_body]
fn to_lowercase(s: &str) -> (r: String)
    ensures
        r@ == lowercase_of(s@),
        (forall|i: int| 0 <= i < s@.len() ==> is_ascii_char(#[trigger] s@[i])) ==> r@
            == ascii_lowercase(s@),
{
    s.to_lowercase()
}

/// Settings before any option is read.
pub open spec fn initial_settings() -> SettingsView {
    SettingsView {
        mode: None,
        curve: CurveKind::Central,
        output_base: Seq::empty(),
        max_step: None,
        p1: None,
        p2: None,
        azimuth: None,
        distance: None,
        polygon_file: None,
        ellipsoid: None,
    }
}

/// The curve that a (lowercased) name of `-t` selects.
pub open spec fn curve_named(t: Seq<char>) -> Option<CurveKind> {
    if t == "align"@ {
        Some(CurveKind::Align)
    } else if t == "central"@ {
        Some(CurveKind::Central)
    } else if t == "normal"@ {
        Some(CurveKind::Normal)
    } else if t == "geodesic"@ {
        Some(CurveKind::Geodesic)
    } else if t == "loxo"@ {
        Some(CurveKind::Loxo)
    } else {
        None
    }
}

/// `st` with `e` as the error that stops the scan.
pub open spec fn fail(st: ScanView, e: CliError) -> ScanView {
    ScanView { error: Some(e), ..st }
}

/// `st` with its settings replaced.
pub open spec fn with_settings(st: ScanView, s: SettingsView) -> ScanView {
    ScanView { settings: s, ..st }
}

/// One step of the scan at token `i` (which is in range): the index of the
/// next token to read and the new state.  `lowered[k]` is the lowercase form
/// of `args[k]`; option names and curve names are read from it.
pub open spec fn read_option_spec(
    args: Seq<Seq<char>>,
    lowered: Seq<Seq<char>>,
    num: Seq<bool>,
    i: int,
    st: ScanView,
) -> (int, ScanView) {
    let n = args.len();
    let a = lowered[i];
    let s = st.settings;
    if a == "-i"@ || a == "--inverso"@ {
        (i + 1, with_settings(st, SettingsView { mode: Some(Mode::Inverse), ..s }))
    } else if a == "-d"@ || a == "--directo"@ {
        (i + 1, with_settings(st, SettingsView { mode: Some(Mode::Direct), ..s }))
    } else if a == "-poly"@ || a == "--poly-sup"@ {
        if i + 1 < n {
            (
                i + 2,
                with_settings(
                    st,
                    SettingsView { mode: Some(Mode::Polygon), polygon_file: Some(args[i + 1]), ..s },
                ),
            )
        } else {
            (i + 1, fail(st, CliError::MissingPolygonFile))
        }
    } else if a == "-p1"@ {
        if i + 2 < n {
            if num[i + 1] && num[i + 2] {
                (i + 3, with_settings(st, SettingsView { p1: Some((args[i + 1], args[i + 2])), ..s }))
            } else {
                (i + 1, fail(st, CliError::P1NotNumbers))
            }
        } else {
            (i + 1, fail(st, CliError::P1Missing))
        }
    } else if a == "-p2"@ {
        if i + 2 < n && num[i + 1] && num[i + 2] {
            (i + 3, with_settings(st, SettingsView { p2: Some((args[i + 1], args[i + 2])), ..s }))
        } else {
            (i + 1, fail(st, CliError::P2Invalid))
        }
    } else if a == "-az"@ || a == "--azimuth"@ {
        if i + 1 < n {
            if num[i + 1] {
                (i + 2, with_settings(st, SettingsView { azimuth: Some(args[i + 1]), ..s }))
            } else {
                (i + 1, fail(st, CliError::AzimuthNotNumber))
            }
        } else {
            (i + 1, fail(st, CliError::AzimuthMissing))
        }
    } else if a == "-s"@ || a == "--distance"@ {
        if i + 1 < n {
            if num[i + 1] {
                (i + 2, with_settings(st, SettingsView { distance: Some(args[i + 1]), ..s }))
            } else {
                (i + 1, fail(st, CliError::DistanceNotNumber))
            }
        } else {
            (i + 1, fail(st, CliError::DistanceMissing))
        }
    } else if a == "-t"@ || a == "--tipo"@ {
        if i + 1 < n {
            match curve_named(lowered[i + 1]) {
                Some(k) => (i + 2, with_settings(st, SettingsView { curve: k, ..s })),
                None => (i + 2, fail(st, CliError::UnknownCurveType)),
            }
        } else {
            (i + 1, st)
        }
    } else if a == "-e"@ || a == "--ellipsoid"@ {
        if i + 2 < n && num[i + 1] && num[i + 2] {
            (
                i + 3,
                with_settings(st, SettingsView { ellipsoid: Some((args[i + 1], args[i + 2])), ..s }),
            )
        } else {
            (i + 1, fail(st, CliError::EllipsoidInvalid))
        }
    } else if a == "-o"@ || a == "--output"@ {
        if i + 1 < n {
            (i + 2, with_settings(st, SettingsView { output_base: args[i + 1], ..s }))
        } else {
            (i + 1, st)
        }
    } else if a == "-mstep"@ || a == "--max-step"@ {
        if i + 1 < n && num[i + 1] {
            (i + 2, with_settings(st, SettingsView { max_step: Some(args[i + 1]), ..s }))
        } else {
            // A value that is not a number is left in place and read as the next token.
            (i + 1, st)
        }
    } else {
        (i + 1, ScanView { warnings: st.warnings.push(args[i]), ..st })
    }
}

/// The scan from token `i` on, until the tokens run out or an error stops it.
pub open spec fn scan(
    args: Seq<Seq<char>>,
    lowered: Seq<Seq<char>>,
    num: Seq<bool>,
    i: int,
    st: ScanView,
) -> ScanView
    decreases args.len() - i,
{
    if i < 0 || i >= args.len() || st.error is Some {
        st
    } else {
        let (j, next) = read_option_spec(args, lowered, num, i, st);
        if j > i {
            scan(args, lowered, num, j, next)
        } else {
            next
        }
    }
}

/// The checks made once all options are read.
pub open spec fn finish(s: SettingsView) -> Result<SettingsView, CliError> {
    match s.mode {
        None => Err(CliError::NoMode),
        Some(Mode::Inverse) => if s.p1 is Some && s.p2 is Some {
            Ok(s)
        } else {
            Err(CliError::InverseNeedsPoints)
        },
        Some(Mode::Direct) => if s.p1 is Some && s.azimuth is Some && s.distance is Some {
            Ok(s)
        } else {
            Err(CliError::DirectNeedsInputs)
        },
        Some(Mode::Polygon) => Ok(s),
    }
}

/// The scan over a whole command line (token 0 is the program name).
pub open spec fn scan_command_line(
    args: Seq<Seq<char>>,
    lowered: Seq<Seq<char>>,
    num: Seq<bool>,
) -> ScanView {
    scan(args, lowered, num, 1, ScanView { settings: initial_settings(), warnings: Seq::empty(), error: None })
}

/// What a command line asks for, or why it is refused.
pub open spec fn command_line_outcome(
    args: Seq<Seq<char>>,
    lowered: Seq<Seq<char>>,
    num: Seq<bool>,
) -> Result<
    SettingsView,
    CliError,
> {
    if args.len() < 2 {
        Err(CliError::NoArguments)
    } else {
        let st = scan_command_line(args, lowered, num);
        match st.error {
            Some(e) => Err(e),
            None => finish(st.settings),
        }
    }
}

/// The tokens reported as unknown while reading a command line.
pub open spec fn command_line_warnings(
    args: Seq<Seq<char>>,
    lowered: Seq<Seq<char>>,
    num: Seq<bool>,
) -> Seq<Seq<char>> {
    if args.len() < 2 {
        Seq::empty()
    } else {
        scan_command_line(args, lowered, num).warnings
    }
}


/// `t` is one of the tokens flagged as a number.
pub open spec fn numeric_token(args: Seq<Seq<char>>, num: Seq<bool>, t: Seq<char>) -> bool {
    exists|k: int| 0 <= k < args.len() && k < num.len() && num[k] && #[trigger] args[k] == t
}

/// `t` is one of the tokens.
pub open spec fn is_token(args: Seq<Seq<char>>, t: Seq<char>) -> bool {
    exists|k: int| 0 <= k < args.len() && #[trigger] args[k] == t
}

/// What holds of every state of a scan: a polygon is always asked for
/// together with its file, every number kept is a token flagged as a
/// number, and every warning is a token.
pub open spec fn scan_invariant(args: Seq<Seq<char>>, num: Seq<bool>, st: ScanView) -> bool {
    let s = st.settings;
    &&& s.mode == Some(Mode::Polygon) ==> s.polygon_file is Some
    &&& s.max_step matches Some(t) ==> numeric_token(args, num, t)
    &&& s.p1 matches Some((a, b)) ==> numeric_token(args, num, a) && numeric_token(args, num, b)
    &&& s.p2 matches Some((a, b)) ==> numeric_token(args, num, a) && numeric_token(args, num, b)
    &&& s.azimuth matches Some(t) ==> numeric_token(args, num, t)
    &&& s.distance matches Some(t) ==> numeric_token(args, num, t)
    &&& s.ellipsoid matches Some((a, b)) ==> numeric_token(args, num, a) && numeric_token(
        args,
        num,
        b,
    )
    &&& forall|w: int| 0 <= w < st.warnings.len() ==> is_token(args, #[trigger] st.warnings[w])
}

proof fn lemma_read_option_keeps_invariant(
    args: Seq<Seq<char>>,
    lowered: Seq<Seq<char>>,
    num: Seq<bool>,
    i: int,
    st: ScanView,
)
    requires
        0 <= i < args.len(),
        num.len() == args.len(),
        scan_invariant(args, num, st),
    ensures
        scan_invariant(args, num, read_option_spec(args, lowered, num, i, st).1),
        read_option_spec(args, lowered, num, i, st).0 > i,
{
    let (j, next) = read_option_spec(args, lowered, num, i, st);
    assert forall|w: int| 0 <= w < next.warnings.len() implies is_token(
        args,
        #[trigger] next.warnings[w],
    ) by {
        if w < st.warnings.len() {
            assert(next.warnings[w] == st.warnings[w]);
        }
    }
}

proof fn lemma_scan_keeps_invariant(
    args: Seq<Seq<char>>,
    lowered: Seq<Seq<char>>,
    num: Seq<bool>,
    i: int,
    st: ScanView,
)
    requires
        num.len() == args.len(),
        scan_invariant(args, num, st),
    ensures
        scan_invariant(args, num, scan(args, lowered, num, i, st)),
    decreases args.len() - i,
{
    if !(i < 0 || i >= args.len() || st.error is Some) {
        lemma_read_option_keeps_invariant(args, lowered, num, i, st);
        let (j, next) = read_option_spec(args, lowered, num, i, st);
        lemma_scan_keeps_invariant(args, lowered, num, j, next);
    }
}

/// An accepted command line holds everything its problem needs: the inverse
/// problem both points, the direct problem the first point, an azimuth and a
/// distance, and the polygon problem a file; every number kept (points,
/// azimuth, distance, ellipsoid, step) is a token that was flagged as a
/// number; every unknown token reported is one of the tokens.
pub proof fn lemma_accepted_command_line_is_complete(
    args: Seq<Seq<char>>,
    lowered: Seq<Seq<char>>,
    num: Seq<bool>,
)
    requires
        num.len() == args.len(),
    ensures
        forall|w: int|
            0 <= w < command_line_warnings(args, lowered, num).len() ==> is_token(
                args,
                #[trigger] command_line_warnings(args, lowered, num)[w],
            ),
        command_line_outcome(args, lowered, num) matches Ok(s) ==> {
            &&& s.mode is Some
            &&& s.mode == Some(Mode::Inverse) ==> s.p1 is Some && s.p2 is Some
            &&& s.mode == Some(Mode::Direct) ==> s.p1 is Some && s.azimuth is Some
                && s.distance is Some
            &&& s.mode == Some(Mode::Polygon) ==> s.polygon_file is Some
            &&& scan_invariant(args, num, ScanView { settings: s, warnings: Seq::empty(), error: None })
        },
{
    let init = ScanView { settings: initial_settings(), warnings: Seq::empty(), error: None };
    lemma_scan_keeps_invariant(args, lowered, num, 1, init);
}

/// The option names are different texts.
proof fn lemma_option_names_distinct()
    ensures
        "-i"@ != "--inverso"@,
        "-i"@ != "-d"@,
        "-i"@ != "--directo"@,
        "-i"@ != "-poly"@,
        "-i"@ != "--poly-sup"@,
        "-i"@ != "-p1"@,
        "-i"@ != "-p2"@,
        "-i"@ != "-az"@,
        "-i"@ != "--azimuth"@,
        "-i"@ != "-s"@,
        "-i"@ != "--distance"@,
        "-i"@ != "-t"@,
        "-i"@ != "--tipo"@,
        "-i"@ != "-e"@,
        "-i"@ != "--ellipsoid"@,
        "-i"@ != "-o"@,
        "-i"@ != "--output"@,
        "-i"@ != "-mstep"@,
        "-i"@ != "--max-step"@,
        "--inverso"@ != "-d"@,
        "--inverso"@ != "--directo"@,
        "--inverso"@ != "-poly"@,
        "--inverso"@ != "--poly-sup"@,
        "--inverso"@ != "-p1"@,
        "--inverso"@ != "-p2"@,
        "--inverso"@ != "-az"@,
        "--inverso"@ != "--azimuth"@,
        "--inverso"@ != "-s"@,
        "--inverso"@ != "--distance"@,
        "--inverso"@ != "-t"@,
        "--inverso"@ != "--tipo"@,
        "--inverso"@ != "-e"@,
        "--inverso"@ != "--ellipsoid"@,
        "--inverso"@ != "-o"@,
        "--inverso"@ != "--output"@,
        "--inverso"@ != "-mstep"@,
        "--inverso"@ != "--max-step"@,
        "-d"@ != "--directo"@,
        "-d"@ != "-poly"@,
        "-d"@ != "--poly-sup"@,
        "-d"@ != "-p1"@,
        "-d"@ != "-p2"@,
        "-d"@ != "-az"@,
        "-d"@ != "--azimuth"@,
        "-d"@ != "-s"@,
        "-d"@ != "--distance"@,
        "-d"@ != "-t"@,
        "-d"@ != "--tipo"@,
        "-d"@ != "-e"@,
        "-d"@ != "--ellipsoid"@,
        "-d"@ != "-o"@,
        "-d"@ != "--output"@,
        "-d"@ != "-mstep"@,
        "-d"@ != "--max-step"@,
        "--directo"@ != "-poly"@,
        "--directo"@ != "--poly-sup"@,
        "--directo"@ != "-p1"@,
        "--directo"@ != "-p2"@,
        "--directo"@ != "-az"@,
        "--directo"@ != "--azimuth"@,
        "--directo"@ != "-s"@,
        "--directo"@ != "--distance"@,
        "--directo"@ != "-t"@,
        "--directo"@ != "--tipo"@,
        "--directo"@ != "-e"@,
        "--directo"@ != "--ellipsoid"@,
        "--directo"@ != "-o"@,
        "--directo"@ != "--output"@,
        "--directo"@ != "-mstep"@,
        "--directo"@ != "--max-step"@,
        "-poly"@ != "--poly-sup"@,
        "-poly"@ != "-p1"@,
        "-poly"@ != "-p2"@,
        "-poly"@ != "-az"@,
        "-poly"@ != "--azimuth"@,
        "-poly"@ != "-s"@,
        "-poly"@ != "--distance"@,
        "-poly"@ != "-t"@,
        "-poly"@ != "--tipo"@,
        "-poly"@ != "-e"@,
        "-poly"@ != "--ellipsoid"@,
        "-poly"@ != "-o"@,
        "-poly"@ != "--output"@,
        "-poly"@ != "-mstep"@,
        "-poly"@ != "--max-step"@,
        "--poly-sup"@ != "-p1"@,
        "--poly-sup"@ != "-p2"@,
        "--poly-sup"@ != "-az"@,
        "--poly-sup"@ != "--azimuth"@,
        "--poly-sup"@ != "-s"@,
        "--poly-sup"@ != "--distance"@,
        "--poly-sup"@ != "-t"@,
        "--poly-sup"@ != "--tipo"@,
        "--poly-sup"@ != "-e"@,
        "--poly-sup"@ != "--ellipsoid"@,
        "--poly-sup"@ != "-o"@,
        "--poly-sup"@ != "--output"@,
        "--poly-sup"@ != "-mstep"@,
        "--poly-sup"@ != "--max-step"@,
        "-p1"@ != "-p2"@,
        "-p1"@ != "-az"@,
        "-p1"@ != "--azimuth"@,
        "-p1"@ != "-s"@,
        "-p1"@ != "--distance"@,
        "-p1"@ != "-t"@,
        "-p1"@ != "--tipo"@,
        "-p1"@ != "-e"@,
        "-p1"@ != "--ellipsoid"@,
        "-p1"@ != "-o"@,
        "-p1"@ != "--output"@,
        "-p1"@ != "-mstep"@,
        "-p1"@ != "--max-step"@,
        "-p2"@ != "-az"@,
        "-p2"@ != "--azimuth"@,
        "-p2"@ != "-s"@,
        "-p2"@ != "--distance"@,
        "-p2"@ != "-t"@,
        "-p2"@ != "--tipo"@,
        "-p2"@ != "-e"@,
        "-p2"@ != "--ellipsoid"@,
        "-p2"@ != "-o"@,
        "-p2"@ != "--output"@,
        "-p2"@ != "-mstep"@,
        "-p2"@ != "--max-step"@,
        "-az"@ != "--azimuth"@,
        "-az"@ != "-s"@,
        "-az"@ != "--distance"@,
        "-az"@ != "-t"@,
        "-az"@ != "--tipo"@,
        "-az"@ != "-e"@,
        "-az"@ != "--ellipsoid"@,
        "-az"@ != "-o"@,
        "-az"@ != "--output"@,
        "-az"@ != "-mstep"@,
        "-az"@ != "--max-step"@,
        "--azimuth"@ != "-s"@,
        "--azimuth"@ != "--distance"@,
        "--azimuth"@ != "-t"@,
        "--azimuth"@ != "--tipo"@,
        "--azimuth"@ != "-e"@,
        "--azimuth"@ != "--ellipsoid"@,
        "--azimuth"@ != "-o"@,
        "--azimuth"@ != "--output"@,
        "--azimuth"@ != "-mstep"@,
        "--azimuth"@ != "--max-step"@,
        "-s"@ != "--distance"@,
        "-s"@ != "-t"@,
        "-s"@ != "--tipo"@,
        "-s"@ != "-e"@,
        "-s"@ != "--ellipsoid"@,
        "-s"@ != "-o"@,
        "-s"@ != "--output"@,
        "-s"@ != "-mstep"@,
        "-s"@ != "--max-step"@,
        "--distance"@ != "-t"@,
        "--distance"@ != "--tipo"@,
        "--distance"@ != "-e"@,
        "--distance"@ != "--ellipsoid"@,
        "--distance"@ != "-o"@,
        "--distance"@ != "--output"@,
        "--distance"@ != "-mstep"@,
        "--distance"@ != "--max-step"@,
        "-t"@ != "--tipo"@,
        "-t"@ != "-e"@,
        "-t"@ != "--ellipsoid"@,
        "-t"@ != "-o"@,
        "-t"@ != "--output"@,
        "-t"@ != "-mstep"@,
        "-t"@ != "--max-step"@,
        "--tipo"@ != "-e"@,
        "--tipo"@ != "--ellipsoid"@,
        "--tipo"@ != "-o"@,
        "--tipo"@ != "--output"@,
        "--tipo"@ != "-mstep"@,
        "--tipo"@ != "--max-step"@,
        "-e"@ != "--ellipsoid"@,
        "-e"@ != "-o"@,
        "-e"@ != "--output"@,
        "-e"@ != "-mstep"@,
        "-e"@ != "--max-step"@,
        "--ellipsoid"@ != "-o"@,
        "--ellipsoid"@ != "--output"@,
        "--ellipsoid"@ != "-mstep"@,
        "--ellipsoid"@ != "--max-step"@,
        "-o"@ != "--output"@,
        "-o"@ != "-mstep"@,
        "-o"@ != "--max-step"@,
        "--output"@ != "-mstep"@,
        "--output"@ != "--max-step"@,
        "-mstep"@ != "--max-step"@,
{
    reveal_strlit("-i");
    reveal_strlit("--inverso");
    reveal_strlit("-d");
    reveal_strlit("--directo");
    reveal_strlit("-poly");
    reveal_strlit("--poly-sup");
    reveal_strlit("-p1");
    reveal_strlit("-p2");
    reveal_strlit("-az");
    reveal_strlit("--azimuth");
    reveal_strlit("-s");
    reveal_strlit("--distance");
    reveal_strlit("-t");
    reveal_strlit("--tipo");
    reveal_strlit("-e");
    reveal_strlit("--ellipsoid");
    reveal_strlit("-o");
    reveal_strlit("--output");
    reveal_strlit("-mstep");
    reveal_strlit("--max-step");
    assert("-i"@.len() != "--inverso"@.len());
    assert("-i"@[1] != "-d"@[1]);
    assert("-i"@.len() != "--directo"@.len());
    assert("-i"@.len() != "-poly"@.len());
    assert("-i"@.len() != "--poly-sup"@.len());
    assert("-i"@.len() != "-p1"@.len());
    assert("-i"@.len() != "-p2"@.len());
    assert("-i"@.len() != "-az"@.len());
    assert("-i"@.len() != "--azimuth"@.len());
    assert("-i"@[1] != "-s"@[1]);
    assert("-i"@.len() != "--distance"@.len());
    assert("-i"@[1] != "-t"@[1]);
    assert("-i"@.len() != "--tipo"@.len());
    assert("-i"@[1] != "-e"@[1]);
    assert("-i"@.len() != "--ellipsoid"@.len());
    assert("-i"@[1] != "-o"@[1]);
    assert("-i"@.len() != "--output"@.len());
    assert("-i"@.len() != "-mstep"@.len());
    assert("-i"@.len() != "--max-step"@.len());
    assert("--inverso"@.len() != "-d"@.len());
    assert("--inverso"@[2] != "--directo"@[2]);
    assert("--inverso"@.len() != "-poly"@.len());
    assert("--inverso"@.len() != "--poly-sup"@.len());
    assert("--inverso"@.len() != "-p1"@.len());
    assert("--inverso"@.len() != "-p2"@.len());
    assert("--inverso"@.len() != "-az"@.len());
    assert("--inverso"@[2] != "--azimuth"@[2]);
    assert("--inverso"@.len() != "-s"@.len());
    assert("--inverso"@.len() != "--distance"@.len());
    assert("--inverso"@.len() != "-t"@.len());
    assert("--inverso"@.len() != "--tipo"@.len());
    assert("--inverso"@.len() != "-e"@.len());
    assert("--inverso"@.len() != "--ellipsoid"@.len());
    assert("--inverso"@.len() != "-o"@.len());
    assert("--inverso"@.len() != "--output"@.len());
    assert("--inverso"@.len() != "-mstep"@.len());
    assert("--inverso"@.len() != "--max-step"@.len());
    assert("-d"@.len() != "--directo"@.len());
    assert("-d"@.len() != "-poly"@.len());
    assert("-d"@.len() != "--poly-sup"@.len());
    assert("-d"@.len() != "-p1"@.len());
    assert("-d"@.len() != "-p2"@.len());
    assert("-d"@.len() != "-az"@.len());
    assert("-d"@.len() != "--azimuth"@.len());
    assert("-d"@[1] != "-s"@[1]);
    assert("-d"@.len() != "--distance"@.len());
    assert("-d"@[1] != "-t"@[1]);
    assert("-d"@.len() != "--tipo"@.len());
    assert("-d"@[1] != "-e"@[1]);
    assert("-d"@.len() != "--ellipsoid"@.len());
    assert("-d"@[1] != "-o"@[1]);
    assert("-d"@.len() != "--output"@.len());
    assert("-d"@.len() != "-mstep"@.len());
    assert("-d"@.len() != "--max-step"@.len());
    assert("--directo"@.len() != "-poly"@.len());
    assert("--directo"@.len() != "--poly-sup"@.len());
    assert("--directo"@.len() != "-p1"@.len());
    assert("--directo"@.len() != "-p2"@.len());
    assert("--directo"@.len() != "-az"@.len());
    assert("--directo"@[2] != "--azimuth"@[2]);
    assert("--directo"@.len() != "-s"@.len());
    assert("--directo"@.len() != "--distance"@.len());
    assert("--directo"@.len() != "-t"@.len());
    assert("--directo"@.len() != "--tipo"@.len());
    assert("--directo"@.len() != "-e"@.len());
    assert("--directo"@.len() != "--ellipsoid"@.len());
    assert("--directo"@.len() != "-o"@.len());
    assert("--directo"@.len() != "--output"@.len());
    assert("--directo"@.len() != "-mstep"@.len());
    assert("--directo"@.len() != "--max-step"@.len());
    assert("-poly"@.len() != "--poly-sup"@.len());
    assert("-poly"@.len() != "-p1"@.len());
    assert("-poly"@.len() != "-p2"@.len());
    assert("-poly"@.len() != "-az"@.len());
    assert("-poly"@.len() != "--azimuth"@.len());
    assert("-poly"@.len() != "-s"@.len());
    assert("-poly"@.len() != "--distance"@.len());
    assert("-poly"@.len() != "-t"@.len());
    assert("-poly"@.len() != "--tipo"@.len());
    assert("-poly"@.len() != "-e"@.len());
    assert("-poly"@.len() != "--ellipsoid"@.len());
    assert("-poly"@.len() != "-o"@.len());
    assert("-poly"@.len() != "--output"@.len());
    assert("-poly"@.len() != "-mstep"@.len());
    assert("-poly"@.len() != "--max-step"@.len());
    assert("--poly-sup"@.len() != "-p1"@.len());
    assert("--poly-sup"@.len() != "-p2"@.len());
    assert("--poly-sup"@.len() != "-az"@.len());
    assert("--poly-sup"@.len() != "--azimuth"@.len());
    assert("--poly-sup"@.len() != "-s"@.len());
    assert("--poly-sup"@[2] != "--distance"@[2]);
    assert("--poly-sup"@.len() != "-t"@.len());
    assert("--poly-sup"@.len() != "--tipo"@.len());
    assert("--poly-sup"@.len() != "-e"@.len());
    assert("--poly-sup"@.len() != "--ellipsoid"@.len());
    assert("--poly-sup"@.len() != "-o"@.len());
    assert("--poly-sup"@.len() != "--output"@.len());
    assert("--poly-sup"@.len() != "-mstep"@.len());
    assert("--poly-sup"@[2] != "--max-step"@[2]);
    assert("-p1"@[2] != "-p2"@[2]);
    assert("-p1"@[1] != "-az"@[1]);
    assert("-p1"@.len() != "--azimuth"@.len());
    assert("-p1"@.len() != "-s"@.len());
    assert("-p1"@.len() != "--distance"@.len());
    assert("-p1"@.len() != "-t"@.len());
    assert("-p1"@.len() != "--tipo"@.len());
    assert("-p1"@.len() != "-e"@.len());
    assert("-p1"@.len() != "--ellipsoid"@.len());
    assert("-p1"@.len() != "-o"@.len());
    assert("-p1"@.len() != "--output"@.len());
    assert("-p1"@.len() != "-mstep"@.len());
    assert("-p1"@.len() != "--max-step"@.len());
    assert("-p2"@[1] != "-az"@[1]);
    assert("-p2"@.len() != "--azimuth"@.len());
    assert("-p2"@.len() != "-s"@.len());
    assert("-p2"@.len() != "--distance"@.len());
    assert("-p2"@.len() != "-t"@.len());
    assert("-p2"@.len() != "--tipo"@.len());
    assert("-p2"@.len() != "-e"@.len());
    assert("-p2"@.len() != "--ellipsoid"@.len());
    assert("-p2"@.len() != "-o"@.len());
    assert("-p2"@.len() != "--output"@.len());
    assert("-p2"@.len() != "-mstep"@.len());
    assert("-p2"@.len() != "--max-step"@.len());
    assert("-az"@.len() != "--azimuth"@.len());
    assert("-az"@.len() != "-s"@.len());
    assert("-az"@.len() != "--distance"@.len());
    assert("-az"@.len() != "-t"@.len());
    assert("-az"@.len() != "--tipo"@.len());
    assert("-az"@.len() != "-e"@.len());
    assert("-az"@.len() != "--ellipsoid"@.len());
    assert("-az"@.len() != "-o"@.len());
    assert("-az"@.len() != "--output"@.len());
    assert("-az"@.len() != "-mstep"@.len());
    assert("-az"@.len() != "--max-step"@.len());
    assert("--azimuth"@.len() != "-s"@.len());
    assert("--azimuth"@.len() != "--distance"@.len());
    assert("--azimuth"@.len() != "-t"@.len());
    assert("--azimuth"@.len() != "--tipo"@.len());
    assert("--azimuth"@.len() != "-e"@.len());
    assert("--azimuth"@.len() != "--ellipsoid"@.len());
    assert("--azimuth"@.len() != "-o"@.len());
    assert("--azimuth"@.len() != "--output"@.len());
    assert("--azimuth"@.len() != "-mstep"@.len());
    assert("--azimuth"@.len() != "--max-step"@.len());
    assert("-s"@.len() != "--distance"@.len());
    assert("-s"@[1] != "-t"@[1]);
    assert("-s"@.len() != "--tipo"@.len());
    assert("-s"@[1] != "-e"@[1]);
    assert("-s"@.len() != "--ellipsoid"@.len());
    assert("-s"@[1] != "-o"@[1]);
    assert("-s"@.len() != "--output"@.len());
    assert("-s"@.len() != "-mstep"@.len());
    assert("-s"@.len() != "--max-step"@.len());
    assert("--distance"@.len() != "-t"@.len());
    assert("--distance"@.len() != "--tipo"@.len());
    assert("--distance"@.len() != "-e"@.len());
    assert("--distance"@.len() != "--ellipsoid"@.len());
    assert("--distance"@.len() != "-o"@.len());
    assert("--distance"@.len() != "--output"@.len());
    assert("--distance"@.len() != "-mstep"@.len());
    assert("--distance"@[2] != "--max-step"@[2]);
    assert("-t"@.len() != "--tipo"@.len());
    assert("-t"@[1] != "-e"@[1]);
    assert("-t"@.len() != "--ellipsoid"@.len());
    assert("-t"@[1] != "-o"@[1]);
    assert("-t"@.len() != "--output"@.len());
    assert("-t"@.len() != "-mstep"@.len());
    assert("-t"@.len() != "--max-step"@.len());
    assert("--tipo"@.len() != "-e"@.len());
    assert("--tipo"@.len() != "--ellipsoid"@.len());
    assert("--tipo"@.len() != "-o"@.len());
    assert("--tipo"@.len() != "--output"@.len());
    assert("--tipo"@[1] != "-mstep"@[1]);
    assert("--tipo"@.len() != "--max-step"@.len());
    assert("-e"@.len() != "--ellipsoid"@.len());
    assert("-e"@[1] != "-o"@[1]);
    assert("-e"@.len() != "--output"@.len());
    assert("-e"@.len() != "-mstep"@.len());
    assert("-e"@.len() != "--max-step"@.len());
    assert("--ellipsoid"@.len() != "-o"@.len());
    assert("--ellipsoid"@.len() != "--output"@.len());
    assert("--ellipsoid"@.len() != "-mstep"@.len());
    assert("--ellipsoid"@.len() != "--max-step"@.len());
    assert("-o"@.len() != "--output"@.len());
    assert("-o"@.len() != "-mstep"@.len());
    assert("-o"@.len() != "--max-step"@.len());
    assert("--output"@.len() != "-mstep"@.len());
    assert("--output"@.len() != "--max-step"@.len());
    assert("-mstep"@.len() != "--max-step"@.len());
}

/// The curve names are different texts.
proof fn lemma_curve_names_distinct()
    ensures
        "align"@ != "central"@,
        "align"@ != "normal"@,
        "align"@ != "geodesic"@,
        "align"@ != "loxo"@,
        "central"@ != "normal"@,
        "central"@ != "geodesic"@,
        "central"@ != "loxo"@,
        "normal"@ != "geodesic"@,
        "normal"@ != "loxo"@,
        "geodesic"@ != "loxo"@,
{
    reveal_strlit("align");
    reveal_strlit("central");
    reveal_strlit("normal");
    reveal_strlit("geodesic");
    reveal_strlit("loxo");
    assert("align"@.len() != "central"@.len());
    assert("align"@.len() != "normal"@.len());
    assert("align"@.len() != "geodesic"@.len());
    assert("align"@.len() != "loxo"@.len());
    assert("central"@.len() != "normal"@.len());
    assert("central"@.len() != "geodesic"@.len());
    assert("central"@.len() != "loxo"@.len());
    assert("normal"@.len() != "geodesic"@.len());
    assert("normal"@.len() != "loxo"@.len());
    assert("geodesic"@.len() != "loxo"@.len());
}

/// `-i`/`--inverso` and `-d`/`--directo` select the inverse and the direct
/// problem and read no value; nothing else changes.
pub proof fn law_mode_options(
    args: Seq<Seq<char>>,
    lowered: Seq<Seq<char>>,
    num: Seq<bool>,
    i: int,
    st: ScanView,
)
    requires
        0 <= i < args.len(),
        lowered.len() == args.len(),
        num.len() == args.len(),
    ensures
        (lowered[i] == "-i"@ || lowered[i] == "--inverso"@) ==> read_option_spec(args, lowered, num, i, st) == (i + 1, (ScanView { settings: SettingsView { mode: Some(Mode::Inverse), ..st.settings }, ..st })),
        (lowered[i] == "-d"@ || lowered[i] == "--directo"@) ==> read_option_spec(args, lowered, num, i, st) == (i + 1, (ScanView { settings: SettingsView { mode: Some(Mode::Direct), ..st.settings }, ..st })),
{
    lemma_option_names_distinct();
    lemma_curve_names_distinct();
}

/// `-poly`/`--poly-sup` selects the polygon problem with the next token as
/// its file, or is refused when it is the last token.
pub proof fn law_polygon_option(
    args: Seq<Seq<char>>,
    lowered: Seq<Seq<char>>,
    num: Seq<bool>,
    i: int,
    st: ScanView,
)
    requires
        0 <= i < args.len(),
        lowered.len() == args.len(),
        num.len() == args.len(),
    ensures
        (lowered[i] == "-poly"@ || lowered[i] == "--poly-sup"@) && i + 1 < args.len() ==> read_option_spec(args, lowered, num, i, st) == (
            i + 2,
            (ScanView { settings: SettingsView { mode: Some(Mode::Polygon), polygon_file: Some(args[i + 1]), ..st.settings }, ..st }),
        ),
        (lowered[i] == "-poly"@ || lowered[i] == "--poly-sup"@) && i + 1 == args.len() ==> read_option_spec(args, lowered, num, i, st) == (
            i + 1,
            (ScanView { error: Some(CliError::MissingPolygonFile), ..st }),
        ),
{
    lemma_option_names_distinct();
    lemma_curve_names_distinct();
}

/// `-P1` and `-P2` take the next two tokens as latitude and longitude when
/// both are numbers, and are refused otherwise.
pub proof fn law_point_options(
    args: Seq<Seq<char>>,
    lowered: Seq<Seq<char>>,
    num: Seq<bool>,
    i: int,
    st: ScanView,
)
    requires
        0 <= i < args.len(),
        lowered.len() == args.len(),
        num.len() == args.len(),
    ensures
        lowered[i] == "-p1"@ && i + 2 < args.len() && num[i + 1] && num[i + 2] ==> read_option_spec(args, lowered, num, i, st) == (
            i + 3,
            (ScanView { settings: SettingsView { p1: Some((args[i + 1], args[i + 2])), ..st.settings }, ..st }),
        ),
        lowered[i] == "-p1"@ && i + 2 < args.len() && !(num[i + 1] && num[i + 2]) ==> read_option_spec(args, lowered, num, i, st) == (
            i + 1,
            (ScanView { error: Some(CliError::P1NotNumbers), ..st }),
        ),
        lowered[i] == "-p1"@ && i + 2 >= args.len() ==> read_option_spec(args, lowered, num, i, st) == (i + 1, (ScanView { error: Some(CliError::P1Missing), ..st })),
        lowered[i] == "-p2"@ && i + 2 < args.len() && num[i + 1] && num[i + 2] ==> read_option_spec(args, lowered, num, i, st) == (
            i + 3,
            (ScanView { settings: SettingsView { p2: Some((args[i + 1], args[i + 2])), ..st.settings }, ..st }),
        ),
        lowered[i] == "-p2"@ && !(i + 2 < args.len() && num[i + 1] && num[i + 2]) ==> read_option_spec(args, lowered, num, i, st) == (
            i + 1,
            (ScanView { error: Some(CliError::P2Invalid), ..st }),
        ),
{
    lemma_option_names_distinct();
    lemma_curve_names_distinct();
}

/// `-az` and `-s` keep any next token flagged as a number (negative ones
/// included) as the azimuth or the distance; a token not flagged, or none,
/// is refused.
pub proof fn law_azimuth_and_distance_options(
    args: Seq<Seq<char>>,
    lowered: Seq<Seq<char>>,
    num: Seq<bool>,
    i: int,
    st: ScanView,
)
    requires
        0 <= i < args.len(),
        lowered.len() == args.len(),
        num.len() == args.len(),
    ensures
        (lowered[i] == "-az"@ || lowered[i] == "--azimuth"@) && i + 1 < args.len() && num[i + 1] ==> read_option_spec(args, lowered, num, i, st) == (
            i + 2,
            (ScanView { settings: SettingsView { azimuth: Some(args[i + 1]), ..st.settings }, ..st }),
        ),
        (lowered[i] == "-az"@ || lowered[i] == "--azimuth"@) && i + 1 < args.len() && !num[i + 1] ==> read_option_spec(args, lowered, num, i, st) == (
            i + 1,
            (ScanView { error: Some(CliError::AzimuthNotNumber), ..st }),
        ),
        (lowered[i] == "-az"@ || lowered[i] == "--azimuth"@) && i + 1 == args.len() ==> read_option_spec(args, lowered, num, i, st) == (
            i + 1,
            (ScanView { error: Some(CliError::AzimuthMissing), ..st }),
        ),
        (lowered[i] == "-s"@ || lowered[i] == "--distance"@) && i + 1 < args.len() && num[i + 1] ==> read_option_spec(args, lowered, num, i, st) == (
            i + 2,
            (ScanView { settings: SettingsView { distance: Some(args[i + 1]), ..st.settings }, ..st }),
        ),
        (lowered[i] == "-s"@ || lowered[i] == "--distance"@) && i + 1 < args.len() && !num[i + 1] ==> read_option_spec(args, lowered, num, i, st) == (
            i + 1,
            (ScanView { error: Some(CliError::DistanceNotNumber), ..st }),
        ),
        (lowered[i] == "-s"@ || lowered[i] == "--distance"@) && i + 1 == args.len() ==> read_option_spec(args, lowered, num, i, st) == (
            i + 1,
            (ScanView { error: Some(CliError::DistanceMissing), ..st }),
        ),
{
    lemma_option_names_distinct();
    lemma_curve_names_distinct();
}

/// `-t`/`--tipo` selects the curve that its (lowercased) value names:
/// `align`, `central`, `normal`, `geodesic` or `loxo`; any other value is
/// refused, and a `-t` with no value is ignored.
pub proof fn law_curve_option(
    args: Seq<Seq<char>>,
    lowered: Seq<Seq<char>>,
    num: Seq<bool>,
    i: int,
    st: ScanView,
)
    requires
        0 <= i < args.len(),
        lowered.len() == args.len(),
        num.len() == args.len(),
    ensures
        (lowered[i] == "-t"@ || lowered[i] == "--tipo"@) && i + 1 < args.len() && lowered[i + 1] == "align"@ ==> read_option_spec(args, lowered, num, i, st) == (
            i + 2,
            (ScanView { settings: SettingsView { curve: CurveKind::Align, ..st.settings }, ..st }),
        ),
        (lowered[i] == "-t"@ || lowered[i] == "--tipo"@) && i + 1 < args.len() && lowered[i + 1] == "central"@ ==> read_option_spec(args, lowered, num, i, st) == (
            i + 2,
            (ScanView { settings: SettingsView { curve: CurveKind::Central, ..st.settings }, ..st }),
        ),
        (lowered[i] == "-t"@ || lowered[i] == "--tipo"@) && i + 1 < args.len() && lowered[i + 1] == "normal"@ ==> read_option_spec(args, lowered, num, i, st) == (
            i + 2,
            (ScanView { settings: SettingsView { curve: CurveKind::Normal, ..st.settings }, ..st }),
        ),
        (lowered[i] == "-t"@ || lowered[i] == "--tipo"@) && i + 1 < args.len() && lowered[i + 1] == "geodesic"@ ==> read_option_spec(args, lowered, num, i, st) == (
            i + 2,
            (ScanView { settings: SettingsView { curve: CurveKind::Geodesic, ..st.settings }, ..st }),
        ),
        (lowered[i] == "-t"@ || lowered[i] == "--tipo"@) && i + 1 < args.len() && lowered[i + 1] == "loxo"@ ==> read_option_spec(args, lowered, num, i, st) == (
            i + 2,
            (ScanView { settings: SettingsView { curve: CurveKind::Loxo, ..st.settings }, ..st }),
        ),
        (lowered[i] == "-t"@ || lowered[i] == "--tipo"@) && i + 1 < args.len() && lowered[i + 1] != "align"@ && lowered[i + 1] != "central"@ && lowered[i + 1]
            != "normal"@ && lowered[i + 1] != "geodesic"@ && lowered[i + 1] != "loxo"@ ==> read_option_spec(args, lowered, num, i, st) == (
            i + 2,
            (ScanView { error: Some(CliError::UnknownCurveType), ..st }),
        ),
        (lowered[i] == "-t"@ || lowered[i] == "--tipo"@) && i + 1 == args.len() ==> read_option_spec(args, lowered, num, i, st) == (i + 1, st),
{
    lemma_option_names_distinct();
    lemma_curve_names_distinct();
}

/// `-e` takes two numbers as semi-major axis and inverse flattening or is
/// refused; `-o` takes the next token as output base; `-mstep` takes the
/// next token as step when it is a number and is otherwise skipped alone.
pub proof fn law_ellipsoid_output_step_options(
    args: Seq<Seq<char>>,
    lowered: Seq<Seq<char>>,
    num: Seq<bool>,
    i: int,
    st: ScanView,
)
    requires
        0 <= i < args.len(),
        lowered.len() == args.len(),
        num.len() == args.len(),
    ensures
        (lowered[i] == "-e"@ || lowered[i] == "--ellipsoid"@) && i + 2 < args.len() && num[i + 1] && num[i + 2] ==> read_option_spec(args, lowered, num, i, st) == (
            i + 3,
            (ScanView { settings: SettingsView { ellipsoid: Some((args[i + 1], args[i + 2])), ..st.settings }, ..st }),
        ),
        (lowered[i] == "-e"@ || lowered[i] == "--ellipsoid"@) && !(i + 2 < args.len() && num[i + 1] && num[i + 2]) ==> read_option_spec(args, lowered, num, i, st) == (
            i + 1,
            (ScanView { error: Some(CliError::EllipsoidInvalid), ..st }),
        ),
        (lowered[i] == "-o"@ || lowered[i] == "--output"@) && i + 1 < args.len() ==> read_option_spec(args, lowered, num, i, st) == (
            i + 2,
            (ScanView { settings: SettingsView { output_base: args[i + 1], ..st.settings }, ..st }),
        ),
        (lowered[i] == "-o"@ || lowered[i] == "--output"@) && i + 1 == args.len() ==> read_option_spec(args, lowered, num, i, st) == (i + 1, st),
        (lowered[i] == "-mstep"@ || lowered[i] == "--max-step"@) && i + 1 < args.len() && num[i + 1] ==> read_option_spec(args, lowered, num, i, st) == (
            i + 2,
            (ScanView { settings: SettingsView { max_step: Some(args[i + 1]), ..st.settings }, ..st }),
        ),
        (lowered[i] == "-mstep"@ || lowered[i] == "--max-step"@) && !(i + 1 < args.len() && num[i + 1]) ==> read_option_spec(args, lowered, num, i, st) == (i + 1, st),
{
    lemma_option_names_distinct();
    lemma_curve_names_distinct();
}

/// A token whose lowercase form names no option is reported as a warning and
/// skipped; nothing else changes.
pub proof fn law_unknown_token(
    args: Seq<Seq<char>>,
    lowered: Seq<Seq<char>>,
    num: Seq<bool>,
    i: int,
    st: ScanView,
)
    requires
        0 <= i < args.len(),
        lowered.len() == args.len(),
        num.len() == args.len(),
    ensures
        lowered[i] != "-i"@ && lowered[i] != "--inverso"@ && lowered[i] != "-d"@ && lowered[i] != "--directo"@ && lowered[i] != "-poly"@ && lowered[i] != "--poly-sup"@ && lowered[i] != "-p1"@ && lowered[i] != "-p2"@ && lowered[i] != "-az"@ && lowered[i] != "--azimuth"@ && lowered[i] != "-s"@ && lowered[i] != "--distance"@ && lowered[i] != "-t"@ && lowered[i] != "--tipo"@ && lowered[i] != "-e"@ && lowered[i] != "--ellipsoid"@ && lowered[i] != "-o"@ && lowered[i] != "--output"@ && lowered[i] != "-mstep"@ && lowered[i] != "--max-step"@ ==> read_option_spec(args, lowered, num, i, st) == (
            i + 1,
            (ScanView { warnings: st.warnings.push(args[i]), ..st }),
        ),
{
    lemma_option_names_distinct();
    lemma_curve_names_distinct();
}


/// The settings before any option: no problem chosen, the central section,
/// an empty output base and nothing else given.
pub open spec fn no_settings_given(s: SettingsView) -> bool {
    &&& s.mode is None
    &&& s.curve == CurveKind::Central
    &&& s.output_base.len() == 0
    &&& s.max_step is None
    &&& s.p1 is None
    &&& s.p2 is None
    &&& s.azimuth is None
    &&& s.distance is None
    &&& s.polygon_file is None
    &&& s.ellipsoid is None
}

/// A command line is read from its first token after the program name,
/// starting with no option given (the central section by default), one
/// option after another until the tokens run out or an error stops the
/// scan; a command line with no token after the program name is answered
/// with `NoArguments` and no warning.
pub proof fn law_command_line_scan(
    args: Seq<Seq<char>>,
    lowered: Seq<Seq<char>>,
    num: Seq<bool>,
    i: int,
    st: ScanView,
)
    ensures
        no_settings_given(initial_settings()),
        args.len() < 2 ==> command_line_outcome(args, lowered, num) == Err::<
            SettingsView,
            CliError,
        >(CliError::NoArguments) && command_line_warnings(args, lowered, num).len() == 0,
        args.len() >= 2 ==> command_line_warnings(args, lowered, num) == scan(
            args,
            lowered,
            num,
            1,
            ScanView { settings: initial_settings(), warnings: Seq::empty(), error: None },
        ).warnings,
        args.len() >= 2 ==> ({
            let end = scan(
                args,
                lowered,
                num,
                1,
                ScanView { settings: initial_settings(), warnings: Seq::empty(), error: None },
            );
            command_line_outcome(args, lowered, num) == match end.error {
                Some(e) => Err(e),
                None => finish(end.settings),
            }
        }),
        (i >= args.len() || st.error is Some) ==> scan(args, lowered, num, i, st) == st,
        0 <= i < args.len() && st.error is None && lowered.len() == args.len() && num.len()
            == args.len() ==> scan(args, lowered, num, i, st) == scan(
            args,
            lowered,
            num,
            read_option_spec(args, lowered, num, i, st).0,
            read_option_spec(args, lowered, num, i, st).1,
        ),
{
    if 0 <= i < args.len() && st.error is None && lowered.len() == args.len() && num.len()
        == args.len() {
        lemma_read_option_moves_on(args, lowered, num, i, st);
    }
}

proof fn lemma_read_option_moves_on(
    args: Seq<Seq<char>>,
    lowered: Seq<Seq<char>>,
    num: Seq<bool>,
    i: int,
    st: ScanView,
)
    requires
        0 <= i < args.len(),
    ensures
        read_option_spec(args, lowered, num, i, st).0 > i,
{
}

/// The checks made once all options are read: no problem chosen is refused
/// with `NoMode`; the inverse problem needs both points, the direct problem
/// the first point, an azimuth and a distance, and each is otherwise refused
/// with its own error; the polygon problem is accepted.  Accepted settings
/// are kept as read.
pub proof fn law_finish(s: SettingsView)
    ensures
        s.mode is None ==> finish(s) == Err::<SettingsView, CliError>(CliError::NoMode),
        s.mode == Some(Mode::Inverse) ==> finish(s) == if s.p1 is Some && s.p2 is Some {
            Ok::<SettingsView, CliError>(s)
        } else {
            Err(CliError::InverseNeedsPoints)
        },
        s.mode == Some(Mode::Direct) ==> finish(s) == if s.p1 is Some && s.azimuth is Some
            && s.distance is Some {
            Ok::<SettingsView, CliError>(s)
        } else {
            Err(CliError::DirectNeedsInputs)
        },
        s.mode == Some(Mode::Polygon) ==> finish(s) == Ok::<SettingsView, CliError>(s),
{
}

impl CliError {
    /// The line with which the tool refuses a command line; a command line
    /// with no arguments is answered with the usage text instead.
    pub open spec fn message_spec(self) -> Option<Seq<char>> {
        match self {
            CliError::NoArguments => None,
            CliError::MissingPolygonFile => Some("Error: -poly requiere la ruta de un archivo"@),
            CliError::P1NotNumbers => Some("Error: -P1 necesita dos números (latitud, longitud)"@),
            CliError::P1Missing => Some("Error: -P1 necesita dos números"@),
            CliError::P2Invalid => Some("Error: -P2 necesita dos números"@),
            CliError::AzimuthNotNumber => Some("Error: -az necesita un número (acimut en grados)"@),
            CliError::AzimuthMissing => Some("Error: -az necesita un número"@),
            CliError::DistanceNotNumber => Some(
                "Error: -s necesita un número (distancia en metros)"@,
            ),
            CliError::DistanceMissing => Some("Error: -s necesita un número"@),
            CliError::UnknownCurveType => Some(
                "Error: tipo debe ser align, central, geodesic o normal"@,
            ),
            CliError::EllipsoidInvalid => Some("Error: -e necesita dos números: a inv_f"@),
            CliError::NoMode => Some("Debe especificar -i, -d o -poly"@),
            CliError::InverseNeedsPoints => Some("El problema inverso requiere -P1 y -P2"@),
            CliError::DirectNeedsInputs => Some("El problema directo requiere -P1, -az y -s"@),
        }
    }

    /// The line with which the tool refuses a command line, if any.
    pub fn message(&self) -> (m: Option<String>)
        ensures
            m.deep_view() == self.message_spec(),
    {
        let text = match self {
            CliError::NoArguments => {
                return None;
            },
            CliError::MissingPolygonFile => "Error: -poly requiere la ruta de un archivo",
            CliError::P1NotNumbers => "Error: -P1 necesita dos números (latitud, longitud)",
            CliError::P1Missing => "Error: -P1 necesita dos números",
            CliError::P2Invalid => "Error: -P2 necesita dos números",
            CliError::AzimuthNotNumber => "Error: -az necesita un número (acimut en grados)",
            CliError::AzimuthMissing => "Error: -az necesita un número",
            CliError::DistanceNotNumber => "Error: -s necesita un número (distancia en metros)",
            CliError::DistanceMissing => "Error: -s necesita un número",
            CliError::UnknownCurveType => "Error: tipo debe ser align, central, geodesic o normal",
            CliError::EllipsoidInvalid => "Error: -e necesita dos números: a inv_f",
            CliError::NoMode => "Debe especificar -i, -d o -poly",
            CliError::InverseNeedsPoints => "El problema inverso requiere -P1 y -P2",
            CliError::DirectNeedsInputs => "El problema directo requiere -P1, -az y -s",
        };
        Some(text.to_owned())
    }
}

/// The line with which each refusal is answered; a command line with no
/// arguments gets the usage text and no line.
pub proof fn law_messages()
    ensures
        CliError::NoArguments.message_spec() is None,
        CliError::MissingPolygonFile.message_spec() == Some("Error: -poly requiere la ruta de un archivo"@),
        CliError::P1NotNumbers.message_spec() == Some("Error: -P1 necesita dos números (latitud, longitud)"@),
        CliError::P1Missing.message_spec() == Some("Error: -P1 necesita dos números"@),
        CliError::P2Invalid.message_spec() == Some("Error: -P2 necesita dos números"@),
        CliError::AzimuthNotNumber.message_spec() == Some("Error: -az necesita un número (acimut en grados)"@),
        CliError::AzimuthMissing.message_spec() == Some("Error: -az necesita un número"@),
        CliError::DistanceNotNumber.message_spec() == Some("Error: -s necesita un número (distancia en metros)"@),
        CliError::DistanceMissing.message_spec() == Some("Error: -s necesita un número"@),
        CliError::UnknownCurveType.message_spec() == Some("Error: tipo debe ser align, central, geodesic o normal"@),
        CliError::EllipsoidInvalid.message_spec() == Some("Error: -e necesita dos números: a inv_f"@),
        CliError::NoMode.message_spec() == Some("Debe especificar -i, -d o -poly"@),
        CliError::InverseNeedsPoints.message_spec() == Some("El problema inverso requiere -P1 y -P2"@),
        CliError::DirectNeedsInputs.message_spec() == Some("El problema directo requiere -P1, -az y -s"@),
{
}


/// The curve that a (lowercased) name of `-t` selects.
pub fn curve_from_name(t: &str) -> (r: Option<CurveKind>)
    ensures
        r == curve_named(t@),
{
    if text_eq(t, "align") {
        Some(CurveKind::Align)
    } else if text_eq(t, "central") {
        Some(CurveKind::Central)
    } else if text_eq(t, "normal") {
        Some(CurveKind::Normal)
    } else if text_eq(t, "geodesic") {
        Some(CurveKind::Geodesic)
    } else if text_eq(t, "loxo") {
        Some(CurveKind::Loxo)
    } else {
        None
    }
}

/// The lowercase form of every token, as `str::to_lowercase` gives it.
pub open spec fn lowercased(args: Seq<Seq<char>>) -> Seq<Seq<char>> {
    args.map_values(|a: Seq<char>| lowercase_of(a))
}

/// The scan state made of settings, warnings and no error.
pub open spec fn state_of(settings: SettingsView, warnings: Seq<Seq<char>>) -> ScanView {
    ScanView { settings, warnings, error: None }
}

/// Reads the option at token `i` of a command line into `settings`, adding
/// the token to `warnings` when it names no option.  `lowered[k]` is the
/// lowercase form of `args[k]` and `numeric[k]` tells whether `args[k]` is a
/// number.  Returns the index of the next token to read and the error that
/// stops the scan, if any; both are those of [`read_option_spec`].
pub fn read_option(
    args: &Vec<String>,
    lowered: &Vec<String>,
    numeric: &Vec<bool>,
    i: usize,
    settings: &mut Settings,
    warnings: &mut Vec<String>,
) -> (r: (usize, Option<CliError>))
    requires
        i < args.len(),
        lowered.len() == args.len(),
        numeric.len() == args.len(),
    ensures
        r.0 <= args.len(),
        ({
            let (j, next) = read_option_spec(
                args.deep_view(),
                lowered.deep_view(),
                numeric@,
                i as int,
                state_of(old(settings)@, old(warnings).deep_view()),
            );
            &&& r.0 as int == j
            &&& final(settings)@ == next.settings
            &&& final(warnings).deep_view() == next.warnings
            &&& r.1 == next.error
        }),
{
    let n = args.len();
    let a = lowered[i].as_str();
    proof {
        assert(lowered.deep_view()[i as int] == lowered[i as int]@);
        assert(args.deep_view()[i as int] == args[i as int]@);
        if i + 1 < n {
            assert(args.deep_view()[i + 1] == args[i + 1]@);
            assert(lowered.deep_view()[i + 1] == lowered[i + 1]@);
        }
        if i + 2 < n {
            assert(args.deep_view()[i + 2] == args[i + 2]@);
        }
    }
    if text_eq(a, "-i") || text_eq(a, "--inverso") {
        settings.mode = Some(Mode::Inverse);
        (i + 1, None)
    } else if text_eq(a, "-d") || text_eq(a, "--directo") {
        settings.mode = Some(Mode::Direct);
        (i + 1, None)
    } else if text_eq(a, "-poly") || text_eq(a, "--poly-sup") {
        if i + 1 < n {
            settings.mode = Some(Mode::Polygon);
            settings.polygon_file = Some(args[i + 1].clone());
            (i + 2, None)
        } else {
            (i + 1, Some(CliError::MissingPolygonFile))
        }
    } else if text_eq(a, "-p1") {
        if n - i > 2 {
            if numeric[i + 1] && numeric[i + 2] {
                settings.p1 = Some((args[i + 1].clone(), args[i + 2].clone()));
                (i + 3, None)
            } else {
                (i + 1, Some(CliError::P1NotNumbers))
            }
        } else {
            (i + 1, Some(CliError::P1Missing))
        }
    } else if text_eq(a, "-p2") {
        if n - i > 2 && numeric[i + 1] && numeric[i + 2] {
            settings.p2 = Some((args[i + 1].clone(), args[i + 2].clone()));
            (i + 3, None)
        } else {
            (i + 1, Some(CliError::P2Invalid))
        }
    } else if text_eq(a, "-az") || text_eq(a, "--azimuth") {
        if i + 1 < n {
            if numeric[i + 1] {
                settings.azimuth = Some(args[i + 1].clone());
                (i + 2, None)
            } else {
                (i + 1, Some(CliError::AzimuthNotNumber))
            }
        } else {
            (i + 1, Some(CliError::AzimuthMissing))
        }
    } else if text_eq(a, "-s") || text_eq(a, "--distance") {
        if i + 1 < n {
            if numeric[i + 1] {
                settings.distance = Some(args[i + 1].clone());
                (i + 2, None)
            } else {
                (i + 1, Some(CliError::DistanceNotNumber))
            }
        } else {
            (i + 1, Some(CliError::DistanceMissing))
        }
    } else if text_eq(a, "-t") || text_eq(a, "--tipo") {
        if i + 1 < n {
            match curve_from_name(lowered[i + 1].as_str()) {
                Some(k) => {
                    settings.curve = k;
                    (i + 2, None)
                },
                None => (i + 2, Some(CliError::UnknownCurveType)),
            }
        } else {
            (i + 1, None)
        }
    } else if text_eq(a, "-e") || text_eq(a, "--ellipsoid") {
        if n - i > 2 && numeric[i + 1] && numeric[i + 2] {
            settings.ellipsoid = Some((args[i + 1].clone(), args[i + 2].clone()));
            (i + 3, None)
        } else {
            (i + 1, Some(CliError::EllipsoidInvalid))
        }
    } else if text_eq(a, "-o") || text_eq(a, "--output") {
        if i + 1 < n {
            settings.output_base = args[i + 1].clone();
            (i + 2, None)
        } else {
            (i + 1, None)
        }
    } else if text_eq(a, "-mstep") || text_eq(a, "--max-step") {
        if i + 1 < n && numeric[i + 1] {
            settings.max_step = Some(args[i + 1].clone());
            (i + 2, None)
        } else {
            (i + 1, None)
        }
    } else {
        warnings.push(args[i].clone());
        proof {
            assert(warnings.deep_view() =~= old(warnings).deep_view().push(args[i as int]@));
        }
        (i + 1, None)
    }
}

/// Interprets a command line whose tokens are given with their lowercase
/// forms.  `args[0]` is the program name; `lowered[k]` is the lowercase form
/// of `args[k]` and `numeric[k]` tells whether `args[k]` is a number.  The
/// outcome and the unknown tokens are exactly those of
/// [`command_line_outcome`] and [`command_line_warnings`].
pub fn parse_lowered_command_line(
    args: &Vec<String>,
    lowered: &Vec<String>,
    numeric: &Vec<bool>,
) -> (r: CommandLine)
    requires
        lowered.len() == args.len(),
        numeric.len() == args.len(),
    ensures
        r.warnings.deep_view() == command_line_warnings(
            args.deep_view(),
            lowered.deep_view(),
            numeric@,
        ),
        match r.outcome {
            Ok(s) => command_line_outcome(args.deep_view(), lowered.deep_view(), numeric@) == Ok::<
                SettingsView,
                CliError,
            >(s@),
            Err(e) => command_line_outcome(args.deep_view(), lowered.deep_view(), numeric@) == Err::<
                SettingsView,
                CliError,
            >(e),
        },
{
    let n = args.len();
    let mut warnings: Vec<String> = Vec::new();
    proof {
        assert(warnings.deep_view() =~= Seq::<Seq<char>>::empty());
    }
    if n < 2 {
        return CommandLine { warnings, outcome: Err(CliError::NoArguments) };
    }
    let mut settings = Settings {
        mode: None,
        curve: CurveKind::Central,
        output_base: String::new(),
        max_step: None,
        p1: None,
        p2: None,
        azimuth: None,
        distance: None,
        polygon_file: None,
        ellipsoid: None,
    };
    let mut error: Option<CliError> = None;
    assert(settings@ == initial_settings());
    let mut i: usize = 1;
    while i < n && error.is_none()
        invariant
            n == args.len() == lowered.len() == numeric.len(),
            1 <= i <= n,
            scan(
                args.deep_view(),
                lowered.deep_view(),
                numeric@,
                i as int,
                ScanView { settings: settings@, warnings: warnings.deep_view(), error },
            ) == scan_command_line(args.deep_view(), lowered.deep_view(), numeric@),
        decreases n - i,
    {
        let (j, e) = read_option(args, lowered, numeric, i, &mut settings, &mut warnings);
        error = e;
        i = j;
    }
    match error {
        Some(e) => CommandLine { warnings, outcome: Err(e) },
        None => {
            let ok = match settings.mode {
                None => false,
                Some(Mode::Inverse) => settings.p1.is_some() && settings.p2.is_some(),
                Some(Mode::Direct) => settings.p1.is_some() && settings.azimuth.is_some()
                    && settings.distance.is_some(),
                Some(Mode::Polygon) => true,
            };
            if ok {
                CommandLine { warnings, outcome: Ok(settings) }
            } else {
                let e = match settings.mode {
                    None => CliError::NoMode,
                    Some(Mode::Inverse) => CliError::InverseNeedsPoints,
                    _ => CliError::DirectNeedsInputs,
                };
                CommandLine { warnings, outcome: Err(e) }
            }
        },
    }
}

/// Interprets a command line: lowercases every token with
/// `str::to_lowercase`, then reads it as [`parse_lowered_command_line`] does.
/// `args[0]` is the program name; `numeric[k]` tells whether `args[k]` is a
/// decimal number.  An all-ASCII token is lowercased letter by letter.
pub fn parse_command_line(args: &Vec<String>, numeric: &Vec<bool>) -> (r: CommandLine)
    requires
        numeric.len() == args.len(),
    ensures
        forall|k: int|
            0 <= k < args.len() && (forall|i: int|
                0 <= i < args[k]@.len() ==> is_ascii_char(#[trigger] args[k]@[i]))
                ==> #[trigger] lowercased(args.deep_view())[k] == ascii_lowercase(args[k]@),
        r.warnings.deep_view() == command_line_warnings(
            args.deep_view(),
            lowercased(args.deep_view()),
            numeric@,
        ),
        match r.outcome {
            Ok(s) => command_line_outcome(args.deep_view(), lowercased(args.deep_view()), numeric@)
                == Ok::<SettingsView, CliError>(s@),
            Err(e) => command_line_outcome(args.deep_view(), lowercased(args.deep_view()), numeric@)
                == Err::<SettingsView, CliError>(e),
        },
{
    let mut lowered: Vec<String> = Vec::new();
    let mut k: usize = 0;
    while k < args.len()
        invariant
            k <= args.len(),
            lowered.len() == k,
            forall|t: int|
                0 <= t < k ==> #[trigger] lowered[t]@ == lowercase_of(args[t]@),
            forall|t: int|
                0 <= t < k && (forall|i: int|
                    0 <= i < args[t]@.len() ==> is_ascii_char(#[trigger] args[t]@[i]))
                    ==> lowercase_of(#[trigger] args[t]@) == ascii_lowercase(args[t]@),
        decreases args.len() - k,
    {
        lowered.push(to_lowercase(args[k].as_str()));
        k = k + 1;
    }
    assert(lowered.deep_view() =~= lowercased(args.deep_view()));
    parse_lowered_command_line(args, &lowered, numeric)
}

} // verus!
