//! Polygon vertex files and the ring of edges of a polygon.
//!
//! A vertex file is read line by line.  A line is trimmed and loses any
//! leading byte-order marks; an empty line or one that starts with `#` is
//! skipped.  Otherwise it is split at `,`, tab and `;`, and the trimmed,
//! non-empty pieces are its fields.  A line is `Lat, Lon`, `Lat, Lon, Alt`
//! or `ID, Lat, Lon, Alt`: the coordinates are the second and third fields
//! when the line has four or more fields and the first is an integer
//! identifier, and the first two fields otherwise.  Whether two fields form a valid latitude and longitude is a
//! floating-point question that the caller answers.
use crate::text::{is_white_space_spec, lemma_trim_piece, trim, trim_bounds};
use vstd::prelude::*;

verus! {

/// The byte-order mark, U+FEFF.
pub open spec fn is_bom(c: char) -> bool {
    c == '\u{feff}'
}

/// `s` without its leading byte-order marks.
pub open spec fn strip_bom(s: Seq<char>) -> Seq<char>
    decreases s.len(),
{
    if s.len() > 0 && is_bom(s[0]) {
        strip_bom(s.drop_first())
    } else {
        s
    }
}

/// What is left of a line once trimmed and freed of leading byte-order marks.
pub open spec fn line_content(line: Seq<char>) -> Seq<char> {
    strip_bom(trim(line))
}

/// A line with no content, or a comment.
pub open spec fn is_skipped(content: Seq<char>) -> bool {
    content.len() == 0 || content[0] == '#'
}

/// The characters at which a line is split.
pub open spec fn is_field_separator(c: char) -> bool {
    c == ',' || c == '\t' || c == ';'
}

/// The pieces between separators, as `str::split` gives them: one more piece
/// than there are separators, empty pieces included.
pub open spec fn pieces(s: Seq<char>) -> Seq<Seq<char>>
    decreases s.len(),
{
    if s.len() == 0 {
        seq![Seq::empty()]
    } else {
        let p = pieces(s.drop_last());
        if is_field_separator(s.last()) {
            p.push(Seq::empty())
        } else {
            p.update(p.len() - 1, p.last().push(s.last()))
        }
    }
}

/// The trimmed pieces that are not empty, in order.
pub open spec fn nonempty_trimmed(ps: Seq<Seq<char>>) -> Seq<Seq<char>>
    decreases ps.len(),
{
    if ps.len() == 0 {
        Seq::empty()
    } else {
        let r = nonempty_trimmed(ps.drop_last());
        let t = trim(ps.last());
        if t.len() > 0 {
            r.push(t)
        } else {
            r
        }
    }
}

/// The fields of a line of a vertex file, or `None` for a line to skip.
pub open spec fn line_fields_spec(line: Seq<char>) -> Option<Seq<Seq<char>>> {
    let c = line_content(line);
    if is_skipped(c) {
        None
    } else {
        Some(nonempty_trimmed(pieces(c)))
    }
}

proof fn lemma_pieces_nonempty(s: Seq<char>)
    ensures
        pieces(s).len() >= 1,
    decreases s.len(),
{
    if s.len() > 0 {
        lemma_pieces_nonempty(s.drop_last());
    }
}

/// A field as a line yields it: not empty, neither beginning nor ending
/// with white space, and holding no separator.
pub open spec fn is_clean_field(f: Seq<char>) -> bool {
    &&& f.len() > 0
    &&& !is_white_space_spec(f[0])
    &&& !is_white_space_spec(f.last())
    &&& forall|i: int| 0 <= i < f.len() ==> !is_field_separator(#[trigger] f[i])
}

/// No piece holds a separator.
proof fn lemma_pieces_have_no_separator(s: Seq<char>)
    ensures
        forall|k: int, i: int|
            0 <= k < pieces(s).len() && 0 <= i < pieces(s)[k].len() ==> !is_field_separator(
                #[trigger] pieces(s)[k][i],
            ),
    decreases s.len(),
{
    if s.len() > 0 {
        lemma_pieces_have_no_separator(s.drop_last());
        lemma_pieces_nonempty(s.drop_last());
        let p = pieces(s.drop_last());
        assert forall|k: int, i: int|
            0 <= k < pieces(s).len() && 0 <= i < pieces(s)[k].len() implies !is_field_separator(
            #[trigger] pieces(s)[k][i],
        ) by {
            if !is_field_separator(s.last()) && k == p.len() - 1 && i < p.last().len() {
                assert(pieces(s)[k][i] == p[k][i]);
            } else if k < p.len() - 1 || (is_field_separator(s.last()) && k < p.len()) {
                assert(pieces(s)[k] == p[k]);
            }
        }
    }
}

/// Every kept piece is the trimmed form of some piece and is not empty.
proof fn lemma_nonempty_trimmed_origin(ps: Seq<Seq<char>>)
    ensures
        forall|k: int|
            0 <= k < nonempty_trimmed(ps).len() ==> #[trigger] nonempty_trimmed(ps)[k].len() > 0
                && exists|j: int| 0 <= j < ps.len() && nonempty_trimmed(ps)[k] == trim(ps[j]),
    decreases ps.len(),
{
    if ps.len() > 0 {
        let init = ps.drop_last();
        lemma_nonempty_trimmed_origin(init);
        let r = nonempty_trimmed(init);
        assert forall|k: int| 0 <= k < nonempty_trimmed(ps).len() implies #[trigger] nonempty_trimmed(
            ps,
        )[k].len() > 0 && exists|j: int| 0 <= j < ps.len() && nonempty_trimmed(ps)[k] == trim(ps[j]) by {
            if k < r.len() {
                let j = choose|j: int| 0 <= j < init.len() && r[k] == trim(init[j]);
                assert(nonempty_trimmed(ps)[k] == r[k]);
                assert(ps[j] == init[j]);
            } else {
                assert(nonempty_trimmed(ps)[k] == trim(ps[ps.len() - 1]));
            }
        }
    }
}

/// Every field of a line is clean: it is not empty, carries no white space
/// at either end, and holds no `,`, tab or `;`.
pub proof fn lemma_line_fields_are_clean(line: Seq<char>)
    ensures
        line_fields_spec(line) matches Some(fs) ==> forall|k: int|
            0 <= k < fs.len() ==> is_clean_field(#[trigger] fs[k]),
{
    let c = line_content(line);
    if !is_skipped(c) {
        let ps = pieces(c);
        let fs = nonempty_trimmed(ps);
        lemma_pieces_have_no_separator(c);
        lemma_nonempty_trimmed_origin(ps);
        assert forall|k: int| 0 <= k < fs.len() implies is_clean_field(#[trigger] fs[k]) by {
            let j = choose|j: int| 0 <= j < ps.len() && fs[k] == trim(ps[j]);
            let (a, b) = lemma_trim_piece(ps[j]);
            assert forall|i: int| 0 <= i < fs[k].len() implies !is_field_separator(
                #[trigger] fs[k][i],
            ) by {
                assert(fs[k][i] == ps[j][a + i]);
            }
        }
    }
}


proof fn lemma_pieces_after_separator(u: Seq<char>, y: Seq<char>)
    requires
        u.len() > 0,
        is_field_separator(u.last()),
    ensures
        pieces(u + y) == pieces(u).drop_last() + pieces(y),
    decreases y.len(),
{
    lemma_pieces_nonempty(u);
    if y.len() == 0 {
        assert(u + y =~= u);
        assert(pieces(u) == pieces(u.drop_last()).push(Seq::empty()));
        assert(pieces(u).drop_last() + pieces(y) =~= pieces(u));
    } else {
        let y1 = y.drop_last();
        let c = y.last();
        assert((u + y).drop_last() =~= u + y1);
        assert((u + y).last() == c);
        lemma_pieces_after_separator(u, y1);
        lemma_pieces_nonempty(y1);
        let p = pieces(u).drop_last();
        let q = pieces(y1);
        if is_field_separator(c) {
            assert(pieces(u + y) =~= p + q.push(Seq::empty()));
        } else {
            assert((p + q).update((p + q).len() - 1, (p + q).last().push(c)) =~= p + q.update(
                q.len() - 1,
                q.last().push(c),
            ));
        }
    }
}

proof fn lemma_nonempty_trimmed_concat(a: Seq<Seq<char>>, b: Seq<Seq<char>>)
    ensures
        nonempty_trimmed(a + b) == nonempty_trimmed(a) + nonempty_trimmed(b),
    decreases b.len(),
{
    if b.len() == 0 {
        assert(a + b =~= a);
        assert(nonempty_trimmed(a) + nonempty_trimmed(b) =~= nonempty_trimmed(a));
    } else {
        assert((a + b).drop_last() =~= a + b.drop_last());
        assert((a + b).last() == b.last());
        lemma_nonempty_trimmed_concat(a, b.drop_last());
        let t = trim(b.last());
        if t.len() > 0 {
            assert(nonempty_trimmed(a) + nonempty_trimmed(b.drop_last()).push(t) =~= (
            nonempty_trimmed(a) + nonempty_trimmed(b.drop_last())).push(t));
        }
    }
}

/// Splitting distributes over a separator: the fields of `x`, a separator
/// and `y` are the fields of `x` followed by the fields of `y`.
pub proof fn law_fields_split(x: Seq<char>, c: char, y: Seq<char>)
    requires
        is_field_separator(c),
    ensures
        nonempty_trimmed(pieces(x + seq![c] + y)) == nonempty_trimmed(pieces(x)) + nonempty_trimmed(
            pieces(y),
        ),
{
    let u = x + seq![c];
    assert(u.drop_last() =~= x);
    assert(u.last() == c);
    lemma_pieces_after_separator(u, y);
    assert(pieces(u) == pieces(x).push(Seq::empty()));
    assert(pieces(u).drop_last() =~= pieces(x));
    lemma_nonempty_trimmed_concat(pieces(x), pieces(y));
}

proof fn lemma_pieces_without_separator(s: Seq<char>)
    requires
        forall|i: int| 0 <= i < s.len() ==> !is_field_separator(#[trigger] s[i]),
    ensures
        pieces(s) == seq![s],
    decreases s.len(),
{
    if s.len() == 0 {
        assert(s =~= Seq::<char>::empty());
        assert(pieces(s) =~= seq![s]);
    } else {
        let s1 = s.drop_last();
        assert(!is_field_separator(s[s.len() - 1]));
        assert forall|i: int| 0 <= i < s1.len() implies !is_field_separator(#[trigger] s1[i]) by {
            assert(s1[i] == s[i]);
        }
        lemma_pieces_without_separator(s1);
        assert(s1.push(s.last()) =~= s);
        assert(pieces(s) == pieces(s1).update(0, s1.push(s.last())));
        assert(pieces(s) =~= seq![s]);
    }
}

/// A line is skipped exactly when, trimmed and freed of leading byte-order
/// marks, it is empty or starts with `#`; a kept line with no separator has
/// one field, its trimmed content, unless that is empty.
pub proof fn law_fields_whole_line(line: Seq<char>)
    ensures
        line_fields_spec(line) is None <==> (strip_bom(trim(line)).len() == 0 || strip_bom(
            trim(line),
        )[0] == '#'),
        ({
            let c = strip_bom(trim(line));
            (c.len() > 0 && c[0] != '#' && forall|i: int|
                0 <= i < c.len() ==> !is_field_separator(#[trigger] c[i])) ==> line_fields_spec(line)
                == Some(
                if trim(c).len() > 0 {
                    seq![trim(c)]
                } else {
                    Seq::empty()
                },
            )
        }),
{
    let c = strip_bom(trim(line));
    if c.len() > 0 && c[0] != '#' && forall|i: int|
        0 <= i < c.len() ==> !is_field_separator(#[trigger] c[i]) {
        lemma_pieces_without_separator(c);
        let one = seq![c];
        assert(one.drop_last() =~= Seq::<Seq<char>>::empty());
        assert(one.last() == c);
        assert(nonempty_trimmed(Seq::<Seq<char>>::empty()) == Seq::<Seq<char>>::empty());
        assert(line_content(line) == c);
        assert(line_fields_spec(line) == Some(nonempty_trimmed(one)));
        if trim(c).len() > 0 {
            assert(Seq::<Seq<char>>::empty().push(trim(c)) =~= seq![trim(c)]);
        }
    }
}

/// Appends the trimmed characters `lo..hi` of `line` to `out` unless they
/// are empty.
fn push_trimmed(line: &str, lo: usize, hi: usize, out: &mut Vec<String>)
    requires
        lo <= hi <= line@.len(),
    ensures
        final(out).deep_view() == if trim(line@.subrange(lo as int, hi as int)).len() > 0 {
            old(out).deep_view().push(trim(line@.subrange(lo as int, hi as int)))
        } else {
            old(out).deep_view()
        },
{
    let (x, y) = trim_bounds(line, lo, hi);
    if x < y {
        let piece = line.substring_char(x, y).to_owned();
        out.push(piece);
        proof {
            assert(out.deep_view() =~= old(out).deep_view().push(
                trim(line@.subrange(lo as int, hi as int)),
            ));
        }
    }
}

/// The fields of a line of a vertex file, or `None` for a line to skip.
pub fn line_fields(line: &str) -> (r: Option<Vec<String>>)
    ensures
        r.deep_view() == line_fields_spec(line@),
{
    let n = line.unicode_len();
    let (a0, b) = trim_bounds(line, 0, n);
    assert(line@.subrange(0, n as int) =~= line@);
    let mut a = a0;
    while a < b && line.get_char(a) == '\u{feff}'
        invariant
            a0 <= a <= b <= n == line@.len(),
            strip_bom(line@.subrange(a0 as int, b as int)) == strip_bom(
                line@.subrange(a as int, b as int),
            ),
        decreases b - a,
    {
        assert(line@.subrange(a as int, b as int).drop_first() =~= line@.subrange(
            a + 1,
            b as int,
        ));
        a = a + 1;
    }
    let ghost content = line@.subrange(a as int, b as int);
    assert(content == line_content(line@));
    if a == b || line.get_char(a) == '#' {
        return None;
    }
    let mut out: Vec<String> = Vec::new();
    let ghost mut completed: Seq<Seq<char>> = Seq::empty();
    let mut start = a;
    let mut i = a;
    assert(out.deep_view() =~= Seq::<Seq<char>>::empty());
    assert(line@.subrange(a as int, a as int) =~= Seq::<char>::empty());
    assert(pieces(line@.subrange(a as int, i as int)) =~= completed.push(
        line@.subrange(start as int, i as int),
    ));
    while i < b
        invariant
            a <= start <= i <= b <= line@.len(),
            pieces(line@.subrange(a as int, i as int)) == completed.push(
                line@.subrange(start as int, i as int),
            ),
            out.deep_view() == nonempty_trimmed(completed),
        decreases b - i,
    {
        let c = line.get_char(i);
        let ghost sub = line@.subrange(a as int, i + 1);
        assert(sub.drop_last() =~= line@.subrange(a as int, i as int));
        assert(sub.last() == c);
        if c == ',' || c == '\t' || c == ';' {
            let ghost cur = line@.subrange(start as int, i as int);
            push_trimmed(line, start, i, &mut out);
            proof {
                assert(completed.push(cur).drop_last() =~= completed);
                completed = completed.push(cur);
            }
            start = i + 1;
            assert(line@.subrange(start as int, i + 1) =~= Seq::<char>::empty());
        } else {
            assert(line@.subrange(start as int, i + 1) =~= line@.subrange(
                start as int,
                i as int,
            ).push(c));
            assert(pieces(sub) =~= completed.push(line@.subrange(start as int, i + 1)));
        }
        i = i + 1;
    }
    let ghost last = line@.subrange(start as int, b as int);
    push_trimmed(line, start, b, &mut out);
    proof {
        assert(completed.push(last).drop_last() =~= completed);
    }
    Some(out)
}


/// An ASCII decimal digit.
pub open spec fn is_ascii_digit(c: char) -> bool {
    '0' <= c && c <= '9'
}

/// Every character is an ASCII decimal digit.
pub open spec fn all_ascii_digits(s: Seq<char>) -> bool {
    forall|i: int| 0 <= i < s.len() ==> is_ascii_digit(#[trigger] s[i])
}

/// The number that a string of decimal digits spells.
pub open spec fn digits_value(s: Seq<char>) -> int
    decreases s.len(),
{
    if s.len() == 0 {
        0
    } else {
        digits_value(s.drop_last()) * 10 + (s.last() as int - '0' as int)
    }
}

/// The integer that `s` spells as an optional `+` or `-` followed by one or
/// more decimal digits, or `None` when `s` has another shape.
pub open spec fn integer_text_value(s: Seq<char>) -> Option<int> {
    let signed = s.len() > 0 && (s[0] == '+' || s[0] == '-');
    let ds = if signed {
        s.drop_first()
    } else {
        s
    };
    if ds.len() > 0 && all_ascii_digits(ds) {
        Some(
            if signed && s[0] == '-' {
                -digits_value(ds)
            } else {
                digits_value(ds)
            },
        )
    } else {
        None
    }
}

/// What `str::parse::<i64>` accepts: the integer texts whose value fits in
/// an `i64`.
pub open spec fn parse_i64_spec(s: Seq<char>) -> Option<i64> {
    match integer_text_value(s) {
        Some(v) => if i64::MIN <= v <= i64::MAX {
            Some(v as i64)
        } else {
            None
        },
        None => None,
    }
}

proof fn lemma_digits_value_nonneg(s: Seq<char>)
    requires
        all_ascii_digits(s),
    ensures
        digits_value(s) >= 0,
    decreases s.len(),
{
    if s.len() > 0 {
        assert(is_ascii_digit(s[s.len() - 1]));
        lemma_digits_value_nonneg(s.drop_last());
    }
}

/// A prefix of a digit string never spells more than the whole.
proof fn lemma_digits_value_prefix(s: Seq<char>, k: int)
    requires
        all_ascii_digits(s),
        0 <= k <= s.len(),
    ensures
        digits_value(s.take(k)) <= digits_value(s),
    decreases s.len(),
{
    if k < s.len() {
        assert(is_ascii_digit(s[s.len() - 1]));
        lemma_digits_value_prefix(s.drop_last(), k);
        assert(s.drop_last().take(k) =~= s.take(k));
        lemma_digits_value_nonneg(s.drop_last());
    } else {
        assert(s.take(k) =~= s);
    }
}

/// Parses a decimal integer as `str::parse::<i64>` does.
pub fn parse_i64(s: &str) -> (r: Option<i64>)
    ensures
        r == parse_i64_spec(s@),
{
    let n = s.unicode_len();
    if n == 0 {
        return None;
    }
    let c0 = s.get_char(0);
    let signed = c0 == '+' || c0 == '-';
    let start: usize = if signed {
        1
    } else {
        0
    };
    let ghost ds = s@.subrange(start as int, n as int);
    assert(ds =~= (if signed {
        s@.drop_first()
    } else {
        s@
    }));
    if start == n {
        return None;
    }
    let mut acc: u64 = 0;
    let mut i = start;
    assert(s@.subrange(start as int, start as int) =~= Seq::<char>::empty());
    while i < n
        invariant
            start <= i <= n == s@.len(),
            start < n,
            c0 == s@[0],
            signed == (c0 == '+' || c0 == '-'),
            start == (if signed {
                1usize
            } else {
                0usize
            }),
            ds == s@.subrange(start as int, n as int),
            ds =~= (if signed {
                s@.drop_first()
            } else {
                s@
            }),
            all_ascii_digits(s@.subrange(start as int, i as int)),
            acc as int == digits_value(s@.subrange(start as int, i as int)),
            acc <= 0x8000_0000_0000_0000u64,
        decreases n - i,
    {
        let c = s.get_char(i);
        let ghost pre = s@.subrange(start as int, i + 1);
        assert(pre.drop_last() =~= s@.subrange(start as int, i as int));
        if !('0' <= c && c <= '9') {
            assert(ds[i - start] == c);
            return None;
        }
        let d: u64 = ((c as u32) - ('0' as u32)) as u64;
        let next: u128 = (acc as u128) * 10 + (d as u128);
        assert(next as int == digits_value(pre));
        if next > 0x8000_0000_0000_0000u128 {
            proof {
                if all_ascii_digits(ds) {
                    assert(ds.take(i + 1 - start) =~= pre);
                    lemma_digits_value_prefix(ds, i + 1 - start);
                }
            }
            return None;
        }
        acc = next as u64;
        i = i + 1;
    }
    assert(s@.subrange(start as int, n as int) == ds);
    if c0 == '-' {
        if acc == 0x8000_0000_0000_0000u64 {
            Some(i64::MIN)
        } else {
            Some(-(acc as i64))
        }
    } else if acc > 0x7fff_ffff_ffff_ffffu64 {
        None
    } else {
        Some(acc as i64)
    }
}

/// The first field of a line is an integer identifier: it parses as an
/// `i64` and holds no `.`.
pub open spec fn looks_like_id_spec(s: Seq<char>) -> bool {
    parse_i64_spec(s) is Some && !s.contains('.')
}

/// Whether a field is an integer identifier rather than a coordinate.
pub fn looks_like_id(s: &str) -> (b: bool)
    ensures
        b == looks_like_id_spec(s@),
{
    if parse_i64(s).is_none() {
        return false;
    }
    let n = s.unicode_len();
    let mut i: usize = 0;
    while i < n
        invariant
            i <= n == s@.len(),
            forall|j: int| 0 <= j < i ==> s@[j] != '.',
        decreases n - i,
    {
        if s.get_char(i) == '.' {
            return false;
        }
        i = i + 1;
    }
    true
}

/// Which pair of fields holds latitude and longitude: `Some(k)` names fields
/// `k` and `k + 1`.  `pair_valid[k]` tells whether fields `k` and `k + 1`
/// hold a valid latitude and longitude.  Fields 1 and 2 are taken when the
/// line has at least four fields (`ID, Lat, Lon, Alt`), the first is an
/// identifier and they are valid; otherwise fields 0 and 1 (`Lat, Lon` or
/// `Lat, Lon, Alt`) when they are valid.
pub open spec fn coordinate_column_spec(fields: Seq<Seq<char>>, pair_valid: Seq<bool>) -> Option<
    int,
> {
    if fields.len() >= 4 && looks_like_id_spec(fields[0]) && pair_valid[1] {
        Some(1)
    } else if fields.len() >= 2 && pair_valid[0] {
        Some(0)
    } else {
        None
    }
}

/// Which pair of fields of a line holds its latitude and longitude.
pub fn coordinate_column(fields: &Vec<String>, pair_valid: &Vec<bool>) -> (r: Option<usize>)
    requires
        pair_valid.len() == fields.len(),
    ensures
        r matches Some(k) ==> coordinate_column_spec(fields.deep_view(), pair_valid@) == Some(
            k as int,
        ),
        r is None ==> coordinate_column_spec(fields.deep_view(), pair_valid@) is None,
        r matches Some(k) ==> k + 1 < fields.len() && pair_valid[k as int],
{
    let n = fields.len();
    if n >= 4 && looks_like_id(fields[0].as_str()) && pair_valid[1] {
        Some(1)
    } else if n >= 2 && pair_valid[0] {
        Some(0)
    } else {
        None
    }
}

/// Why a vertex file cannot describe a polygon.
#[derive(Debug, Clone, Copy, PartialEq, Eq, Structural)]
pub enum PolygonFileError {
    /// Fewer than three lines gave valid coordinates.
    TooFewVertices { found: usize },
}

/// A polygon needs at least three vertices.
pub fn check_vertex_count(found: usize) -> (r: Result<(), PolygonFileError>)
    ensures
        r is Ok <==> found >= 3,
        r is Err ==> r == Err::<(), PolygonFileError>(PolygonFileError::TooFewVertices { found }),
{
    if found < 3 {
        Err(PolygonFileError::TooFewVertices { found })
    } else {
        Ok(())
    }
}

/// Where the vertices of a vertex file are: `(line, column)` for each line,
/// among the first `n`, that gives coordinates, in file order.  `lines[i]`
/// is the fields of line `i` (`None` for a skipped line) and `valid[i]` its
/// pair validity, as [`coordinate_column_spec`] reads them.
pub open spec fn vertex_positions_upto(
    lines: Seq<Option<Seq<Seq<char>>>>,
    valid: Seq<Seq<bool>>,
    n: int,
) -> Seq<(int, int)>
    decreases n,
{
    if n <= 0 {
        Seq::empty()
    } else {
        let r = vertex_positions_upto(lines, valid, n - 1);
        match lines[n - 1] {
            Some(fs) => match coordinate_column_spec(fs, valid[n - 1]) {
                Some(k) => r.push((n - 1, k)),
                None => r,
            },
            None => r,
        }
    }
}

/// Where the vertices of a whole vertex file are, in file order.
pub open spec fn vertex_positions(lines: Seq<Option<Seq<Seq<char>>>>, valid: Seq<Seq<bool>>) -> Seq<
    (int, int),
> {
    vertex_positions_upto(lines, valid, lines.len() as int)
}

/// Finds the vertices of a vertex file: for each line that gives
/// coordinates, in file order, its index and the column of its latitude
/// (the longitude is the next field).  `lines[i]` is [`line_fields`] of line
/// `i`; `valid[i][k]` tells whether fields `k` and `k + 1` of that line are a
/// valid latitude and longitude.  Fewer than three vertices is an error.
pub fn choose_vertices(lines: &Vec<Option<Vec<String>>>, valid: &Vec<Vec<bool>>) -> (r: Result<
    Vec<(usize, usize)>,
    PolygonFileError,
>)
    requires
        valid.len() == lines.len(),
        forall|i: int|
            0 <= i < lines.len() ==> (#[trigger] lines[i] matches Some(fs) ==> valid[i].len()
                == fs.len()),
    ensures
        ({
            let p = vertex_positions(lines.deep_view(), valid.deep_view());
            match r {
                Ok(v) => p.len() >= 3 && v.len() == p.len() && forall|j: int|
                    0 <= j < v.len() ==> (#[trigger] v[j].0 as int, v[j].1 as int) == p[j],
                Err(e) => p.len() < 3 && e == PolygonFileError::TooFewVertices {
                    found: p.len() as usize,
                },
            }
        }),
{
    let ghost lv = lines.deep_view();
    let ghost vv = valid.deep_view();
    let mut out: Vec<(usize, usize)> = Vec::new();
    let mut i: usize = 0;
    while i < lines.len()
        invariant
            i <= lines.len() == valid.len(),
            lv == lines.deep_view(),
            vv == valid.deep_view(),
            forall|t: int|
                0 <= t < lines.len() ==> (#[trigger] lines[t] matches Some(fs) ==> valid[t].len()
                    == fs.len()),
            out.len() == vertex_positions_upto(lv, vv, i as int).len(),
            forall|j: int|
                0 <= j < out.len() ==> (#[trigger] out[j].0 as int, out[j].1 as int)
                    == vertex_positions_upto(lv, vv, i as int)[j],
        decreases lines.len() - i,
    {
        let ghost before = out@;
        match &lines[i] {
            Some(fs) => {
                assert(lv[i as int] == Some(fs.deep_view()));
                assert(vv[i as int] == valid[i as int]@);
                match coordinate_column(fs, &valid[i]) {
                    Some(k) => {
                        out.push((i, k));
                    },
                    None => {},
                }
            },
            None => {
                assert(lv[i as int] is None);
            },
        }
        assert forall|j: int|
            0 <= j < out.len() implies (#[trigger] out[j].0 as int, out[j].1 as int)
            == vertex_positions_upto(lv, vv, i + 1)[j] by {
            if j < before.len() {
                assert(out[j] == before[j]);
            }
        }
        i = i + 1;
    }
    match check_vertex_count(out.len()) {
        Ok(()) => Ok(out),
        Err(e) => Err(e),
    }
}

/// The vertices of a vertex file come in file order, each from a line that
/// gives fields, and each at a pair of fields that exists and is valid.
pub proof fn lemma_vertex_positions(lines: Seq<Option<Seq<Seq<char>>>>, valid: Seq<Seq<bool>>, n: int)
    requires
        0 <= n <= lines.len(),
        valid.len() == lines.len(),
    ensures
        forall|j: int|
            0 <= j < vertex_positions_upto(lines, valid, n).len() ==> {
                let (i, k) = #[trigger] vertex_positions_upto(lines, valid, n)[j];
                &&& 0 <= i < n
                &&& lines[i] is Some
                &&& 0 <= k && k + 1 < lines[i]->0.len()
                &&& valid[i][k]
            },
        forall|j1: int, j2: int|
            0 <= j1 < j2 < vertex_positions_upto(lines, valid, n).len() ==> (#[trigger] vertex_positions_upto(
                lines,
                valid,
                n,
            )[j1]).0 < (#[trigger] vertex_positions_upto(lines, valid, n)[j2]).0,
    decreases n,
{
    if n > 0 {
        lemma_vertex_positions(lines, valid, n - 1);
        let r = vertex_positions_upto(lines, valid, n - 1);
        let p = vertex_positions_upto(lines, valid, n);
        assert forall|j: int| 0 <= j < r.len() implies p[j] == r[j] by {}
    }
}

/// Edge `i` of a polygon with `n` vertices joins vertex `i` to the next one,
/// the last vertex being joined back to the first.
pub open spec fn edge_spec(n: int, i: int) -> (int, int) {
    (i, if i + 1 < n {
        i + 1
    } else {
        0
    })
}

/// The edges of a polygon with `n` vertices, in order.
pub fn polygon_edges(n: usize) -> (r: Vec<(usize, usize)>)
    ensures
        r.len() == n,
        forall|i: int|
            #![trigger r[i]]
            0 <= i < n ==> (r[i].0 as int, r[i].1 as int) == edge_spec(n as int, i),
{
    let mut r: Vec<(usize, usize)> = Vec::new();
    let mut i: usize = 0;
    while i < n
        invariant
            i <= n,
            r.len() == i,
            forall|k: int|
                0 <= k < i ==> (r[k].0 as int, r[k].1 as int) == #[trigger] edge_spec(n as int, k),
        decreases n - i,
    {
        let next = if i + 1 < n {
            i + 1
        } else {
            0
        };
        r.push((i, next));
        i = i + 1;
    }
    r
}

/// Vertex `v` is where some edge of a polygon with `n` vertices ends.
pub open spec fn ends_an_edge(n: int, v: int) -> bool {
    exists|e: int| 0 <= e < n && #[trigger] edge_spec(n, e).1 == v
}

/// The edges close into a ring: each edge ends where the next one starts,
/// the last ending at the first vertex, and every vertex ends exactly one
/// edge.
pub proof fn lemma_edges_form_ring(n: int)
    requires
        n >= 1,
    ensures
        forall|i: int|
            0 <= i < n - 1 ==> #[trigger] edge_spec(n, i).1 == edge_spec(n, i + 1).0,
        edge_spec(n, n - 1).1 == edge_spec(n, 0).0,
        forall|e1: int, e2: int|
            0 <= e1 < n && 0 <= e2 < n && #[trigger] edge_spec(n, e1).1 == #[trigger] edge_spec(
                n,
                e2,
            ).1 ==> e1 == e2,
        forall|v: int| 0 <= v < n ==> #[trigger] ends_an_edge(n, v),
{
    assert forall|v: int| 0 <= v < n implies #[trigger] ends_an_edge(n, v) by {
        if v == 0 {
            assert(edge_spec(n, n - 1).1 == v);
        } else {
            assert(edge_spec(n, v - 1).1 == v);
        }
    }
}

/// The path of a polygon's boundary from the paths of its edges: the first
/// edge's path, then each later edge's path without its first point (the
/// vertex it shares with the edge before).
pub open spec fn joined_path<T>(paths: Seq<Seq<T>>) -> Seq<T>
    decreases paths.len(),
{
    if paths.len() == 0 {
        Seq::empty()
    } else if paths.len() == 1 {
        paths[0]
    } else {
        joined_path(paths.drop_last()) + paths.last().skip(1)
    }
}

/// The views of a list of paths.
pub open spec fn path_views<T>(paths: Seq<Vec<T>>) -> Seq<Seq<T>> {
    paths.map_values(|p: Vec<T>| p@)
}

/// Joins the paths of a polygon's edges into the path of its boundary.
pub fn join_edge_paths<T: Copy>(paths: &Vec<Vec<T>>) -> (r: Vec<T>)
    requires
        forall|i: int| 1 <= i < paths.len() ==> #[trigger] paths[i].len() >= 1,
    ensures
        r@ == joined_path(path_views(paths@)),
{
    let mut r: Vec<T> = Vec::new();
    let mut i: usize = 0;
    assert(path_views(paths@).take(0) =~= Seq::<Seq<T>>::empty());
    assert(r@ =~= joined_path(path_views(paths@).take(0)));
    while i < paths.len()
        invariant
            i <= paths.len(),
            forall|k: int| 1 <= k < paths.len() ==> #[trigger] paths[k].len() >= 1,
            r@ == joined_path(path_views(paths@).take(i as int)),
        decreases paths.len() - i,
    {
        let p = &paths[i];
        let from: usize = if i == 0 {
            0
        } else {
            1
        };
        let ghost before = r@;
        if i > 0 {
            assert(paths[i as int].len() >= 1);
        }
        let mut j = from;
        assert(p@.subrange(from as int, from as int) =~= Seq::<T>::empty());
        assert(r@ =~= before + p@.subrange(from as int, j as int));
        while j < p.len()
            invariant
                from <= j <= p.len(),
                r@ == before + p@.subrange(from as int, j as int),
            decreases p.len() - j,
        {
            r.push(p[j]);
            assert(r@ =~= before + p@.subrange(from as int, j + 1));
            j = j + 1;
        }
        proof {
            let vs = path_views(paths@);
            let t = vs.take(i + 1);
            assert(t.drop_last() =~= vs.take(i as int));
            assert(t.last() == p@);
            if i == 0 {
                assert(before =~= Seq::<T>::empty());
                assert(r@ =~= p@);
            } else {
                assert(p@.skip(1) =~= p@.subrange(1, p@.len() as int));
            }
        }
        i = i + 1;
    }
    assert(path_views(paths@).take(paths.len() as int) =~= path_views(paths@));
    r
}

/// The boundary path of a polygon has one point fewer per shared vertex: the
/// points of all edge paths, less one for each edge after the first.
pub proof fn lemma_joined_path_len<T>(paths: Seq<Seq<T>>)
    requires
        forall|i: int| 1 <= i < paths.len() ==> #[trigger] paths[i].len() >= 1,
    ensures
        paths.len() >= 1 ==> joined_path(paths).len() == total_len(paths) - (paths.len() - 1),
    decreases paths.len(),
{
    if paths.len() > 1 {
        let init = paths.drop_last();
        assert forall|i: int| 1 <= i < init.len() implies #[trigger] init[i].len() >= 1 by {
            assert(init[i] == paths[i]);
        }
        lemma_joined_path_len(init);
        assert(paths[paths.len() - 1].len() >= 1);
    } else if paths.len() == 1 {
        assert(total_len(paths.drop_last()) == 0);
    }
}

/// The number of points of all the paths together.
pub open spec fn total_len<T>(paths: Seq<Seq<T>>) -> int
    decreases paths.len(),
{
    if paths.len() == 0 {
        0
    } else {
        total_len(paths.drop_last()) + paths.last().len()
    }
}



/// `10` to the power `n`.
pub open spec fn pow10(n: nat) -> int
    decreases n,
{
    if n == 0 {
        1
    } else {
        10 * pow10((n - 1) as nat)
    }
}

proof fn lemma_digits_value_bound(d: Seq<char>)
    requires
        all_ascii_digits(d),
    ensures
        0 <= digits_value(d) < pow10(d.len()),
    decreases d.len(),
{
    if d.len() > 0 {
        assert(is_ascii_digit(d[d.len() - 1]));
        assert(all_ascii_digits(d.drop_last())) by {
            assert forall|i: int| 0 <= i < d.drop_last().len() implies is_ascii_digit(
                #[trigger] d.drop_last()[i],
            ) by {
                assert(d.drop_last()[i] == d[i]);
            }
        }
        lemma_digits_value_bound(d.drop_last());
    }
}

proof fn lemma_pow10_18()
    ensures
        pow10(18) == 1_000_000_000_000_000_000,
{
    reveal_with_fuel(pow10, 19);
}

proof fn lemma_pow10_mono(a: nat, b: nat)
    requires
        a <= b,
    ensures
        pow10(a) <= pow10(b),
    decreases b,
{
    if a < b {
        lemma_pow10_mono(a, (b - 1) as nat);
        lemma_pow10_pos((b - 1) as nat);
    }
}

proof fn lemma_pow10_pos(a: nat)
    ensures
        pow10(a) >= 1,
    decreases a,
{
    if a > 0 {
        lemma_pow10_pos((a - 1) as nat);
    }
}

/// The value of a string of at most 18 decimal digits.
proof fn lemma_short_digits_parse(d: Seq<char>)
    requires
        1 <= d.len() <= 18,
        all_ascii_digits(d),
    ensures
        parse_i64_spec(d) == Some(digits_value(d) as i64),
        0 <= digits_value(d) < 1_000_000_000_000_000_000,
{
    lemma_digits_value_bound(d);
    lemma_pow10_mono(d.len(), 18);
    lemma_pow10_18();
    assert(is_ascii_digit(d[0]));
}

/// How `str::parse::<i64>` reads decimal digits, for strings of at most 18
/// digits (whose values always fit): one digit is its own value; appending a
/// digit multiplies by ten and adds it; a leading zero changes nothing; a
/// `-` negates and a `+` keeps the value.  Every such string, signed or not,
/// is accepted, and so is an identifier (it holds no `.`).
pub proof fn law_parse_decimal_digits(d: Seq<char>, c: char)
    requires
        1 <= d.len() <= 17,
        all_ascii_digits(d),
        '0' <= c <= '9',
    ensures
        parse_i64_spec(seq![c]) == Some((c as int - '0' as int) as i64),
        parse_i64_spec(d) is Some && parse_i64_spec(d.push(c)) is Some,
        parse_i64_spec(d.push(c))->0 == parse_i64_spec(d)->0 * 10 + (c as int - '0' as int),
        parse_i64_spec(seq!['0'] + d) == parse_i64_spec(d),
        parse_i64_spec(seq!['-'] + d) is Some && parse_i64_spec(seq!['-'] + d)->0 == -(
        parse_i64_spec(d)->0),
        parse_i64_spec(seq!['+'] + d) == parse_i64_spec(d),
        looks_like_id_spec(d),
        looks_like_id_spec(seq!['-'] + d),
        looks_like_id_spec(seq!['0'] + d),
{
    let e = d.push(c);
    assert(all_ascii_digits(e)) by {
        assert forall|i: int| 0 <= i < e.len() implies is_ascii_digit(#[trigger] e[i]) by {
            if i < d.len() {
                assert(e[i] == d[i]);
            }
        }
    }
    assert(e.drop_last() =~= d);
    lemma_short_digits_parse(d);
    lemma_short_digits_parse(e);
    let one = seq![c];
    assert(all_ascii_digits(one));
    assert(one.drop_last() =~= Seq::<char>::empty());
    lemma_short_digits_parse(one);
    assert(one.last() == c);
    assert(digits_value(one) == digits_value(one.drop_last()) * 10 + (c as int - '0' as int));
    let z = seq!['0'] + d;
    assert(all_ascii_digits(z)) by {
        assert forall|i: int| 0 <= i < z.len() implies is_ascii_digit(#[trigger] z[i]) by {
            if i > 0 {
                assert(z[i] == d[i - 1]);
            }
        }
    }
    lemma_leading_zero(d);
    lemma_short_digits_parse(z);
    let m = seq!['-'] + d;
    let p = seq!['+'] + d;
    assert(m.drop_first() =~= d);
    assert(p.drop_first() =~= d);
    assert(!d.contains('.')) by {
        if d.contains('.') {
            let k = choose|k: int| 0 <= k < d.len() && d[k] == '.';
            assert(is_ascii_digit(d[k]));
        }
    }
    assert(!m.contains('.')) by {
        if m.contains('.') {
            let k = choose|k: int| 0 <= k < m.len() && m[k] == '.';
            assert(k > 0 ==> m[k] == d[k - 1]);
        }
    }
    assert(!z.contains('.')) by {
        if z.contains('.') {
            let k = choose|k: int| 0 <= k < z.len() && z[k] == '.';
            assert(is_ascii_digit(z[k]));
        }
    }
}

/// A leading zero adds nothing to the value of a digit string.
proof fn lemma_leading_zero(d: Seq<char>)
    ensures
        digits_value(seq!['0'] + d) == digits_value(d),
    decreases d.len(),
{
    let z = seq!['0'] + d;
    if d.len() == 0 {
        assert(z.drop_last() =~= Seq::<char>::empty());
        assert(z.last() == '0');
        assert(digits_value(z) == digits_value(z.drop_last()) * 10 + (z.last() as int - '0' as int));
    } else {
        assert(z.drop_last() =~= seq!['0'] + d.drop_last());
        assert(z.last() == d.last());
        lemma_leading_zero(d.drop_last());
    }
}

/// The integer parser refuses the empty text, a lone sign, and any text with
/// a character that is not a digit after its optional sign.
pub proof fn law_parse_refuses(s: Seq<char>, k: int)
    requires
        0 <= k < s.len(),
        !('0' <= s[k] <= '9'),
        k > 0 || (s[0] != '+' && s[0] != '-'),
    ensures
        parse_i64_spec(s) is None,
        parse_i64_spec(Seq::empty()) is None,
        parse_i64_spec(seq!['+']) is None,
        parse_i64_spec(seq!['-']) is None,
{
    assert(seq!['+'].drop_first().len() == 0);
    assert(seq!['-'].drop_first().len() == 0);
    if s[0] == '+' || s[0] == '-' {
        assert(s.drop_first()[k - 1] == s[k]);
    }
}

/// An integer identifier is exactly a text that `str::parse::<i64>` accepts
/// and that holds no `.`.
pub proof fn law_identifier_is_integer(s: Seq<char>)
    ensures
        looks_like_id_spec(s) == (parse_i64_spec(s) is Some && !s.contains('.')),
{
}

/// The coordinate columns follow the documented line formats: with four or
/// more fields and an integer identifier first (`ID, Lat, Lon, Alt`), fields
/// 1 and 2 when valid; otherwise fields 0 and 1 (`Lat, Lon` or
/// `Lat, Lon, Alt`) when valid; otherwise none.  A line of three fields never
/// takes its first field as an identifier.
pub proof fn law_coordinate_columns(fields: Seq<Seq<char>>, valid: Seq<bool>)
    requires
        valid.len() == fields.len(),
    ensures
        fields.len() >= 4 && parse_i64_spec(fields[0]) is Some && !fields[0].contains('.')
            && valid[1] ==> coordinate_column_spec(fields, valid) == Some(1int),
        !(fields.len() >= 4 && parse_i64_spec(fields[0]) is Some && !fields[0].contains('.')
            && valid[1]) && fields.len() >= 2 && valid[0] ==> coordinate_column_spec(fields, valid)
            == Some(0int),
        !(fields.len() >= 4 && parse_i64_spec(fields[0]) is Some && !fields[0].contains('.')
            && valid[1]) && !(fields.len() >= 2 && valid[0]) ==> coordinate_column_spec(
            fields,
            valid,
        ) is None,
        fields.len() <= 3 ==> (coordinate_column_spec(fields, valid) is Some ==> coordinate_column_spec(
            fields,
            valid,
        ) == Some(0int)),
{
}

/// Every line that gives coordinates yields a vertex: the vertex list of a
/// file is complete, besides coming in file order from such lines only (see
/// [`lemma_vertex_positions`]); so its length is the number of such lines.
pub proof fn law_vertex_positions_complete(
    lines: Seq<Option<Seq<Seq<char>>>>,
    valid: Seq<Seq<bool>>,
    n: int,
)
    requires
        0 <= n <= lines.len(),
        valid.len() == lines.len(),
    ensures
        forall|i: int|
            0 <= i < n ==> (#[trigger] lines[i] matches Some(fs) ==> (coordinate_column_spec(
                fs,
                valid[i],
            ) matches Some(k) ==> exists|j: int|
                0 <= j < vertex_positions_upto(lines, valid, n).len() && vertex_positions_upto(
                    lines,
                    valid,
                    n,
                )[j] == (i, k))),
        forall|j: int|
            0 <= j < vertex_positions_upto(lines, valid, n).len() ==> {
                let (i, k) = #[trigger] vertex_positions_upto(lines, valid, n)[j];
                lines[i] matches Some(fs) && coordinate_column_spec(fs, valid[i]) == Some(k)
            },
    decreases n,
{
    lemma_vertex_positions(lines, valid, n);
    if n > 0 {
        law_vertex_positions_complete(lines, valid, n - 1);
        let r = vertex_positions_upto(lines, valid, n - 1);
        let p = vertex_positions_upto(lines, valid, n);
        assert forall|j: int| 0 <= j < r.len() implies p[j] == r[j] by {}
        assert forall|i: int|
            0 <= i < n implies (#[trigger] lines[i] matches Some(fs) ==> (coordinate_column_spec(
            fs,
            valid[i],
        ) matches Some(k) ==> exists|j: int| 0 <= j < p.len() && p[j] == (i, k))) by {
            if let Some(fs) = lines[i] {
                if let Some(k) = coordinate_column_spec(fs, valid[i]) {
                    if i < n - 1 {
                        let j = choose|j: int| 0 <= j < r.len() && r[j] == (i, k);
                        assert(p[j] == r[j]);
                    } else {
                        assert(p[p.len() - 1] == (i, k));
                    }
                }
            }
        }
        assert forall|j: int| 0 <= j < p.len() implies {
            let (i, k) = #[trigger] p[j];
            lines[i] matches Some(fs) && coordinate_column_spec(fs, valid[i]) == Some(k)
        } by {
            if j < r.len() {
                assert(p[j] == r[j]);
            }
        }
    }
}

/// Edge `i` of a polygon with `n` vertices goes from vertex `i` to vertex
/// `(i + 1) % n`.
pub proof fn law_edges(n: int, i: int)
    requires
        0 <= i < n,
    ensures
        edge_spec(n, i) == (i, (i + 1) % n),
{
    if i + 1 < n {
        vstd::arithmetic::div_mod::lemma_small_mod((i + 1) as nat, n as nat);
    } else {
        vstd::arithmetic::div_mod::lemma_mod_self_0(n);
    }
}

/// The boundary path grows edge by edge: no edge gives the first edge's
/// path; each later edge adds its path without its first point.
pub proof fn law_joined_path<T>(paths: Seq<Seq<T>>, p: Seq<T>)
    ensures
        joined_path(Seq::<Seq<T>>::empty()) == Seq::<T>::empty(),
        joined_path(seq![p]) == p,
        paths.len() >= 1 ==> joined_path(paths.push(p)) == joined_path(paths) + p.skip(1),
{
    assert(paths.push(p).drop_last() =~= paths);
}

} // verus!
