//! The lines of an `.osu` file that a rate change reads or rewrites:
//! `key: value` lines, hit objects and timing points. Fields are separated by
//! commas; a rewritten line keeps every field it does not change.
use vstd::prelude::*;
use crate::difficulty::Mode;
use crate::beatmap::{HitObject, HitObjectKind, LongInfo, Point, SliderInfo, SliderSplineKind, TimingPoint, TimingPointKind};
use crate::ledger::{views, trimmed, trim_text};
use crate::text::{first_index_from, signed_scaled, signed_decimal, signed_scaled_text, unsigned_value,
    parse_signed_scaled, parse_unsigned, signed_decimal_text, scaled_text};

verus! {

/// The fields of `s[start..]` split at `sep`, the current one begun at
/// `start` and scanned up to `i`.
pub open spec fn fields_from(s: Seq<char>, sep: char, start: int, i: int) -> Seq<Seq<char>>
    decreases s.len() - i,
{
    if !(0 <= start <= i) {
        seq![]
    } else if i >= s.len() {
        seq![s.subrange(start, s.len() as int)]
    } else if s[i] == sep {
        seq![s.subrange(start, i)] + fields_from(s, sep, i + 1, i + 1)
    } else {
        fields_from(s, sep, start, i + 1)
    }
}

/// The pieces of `s` between the separators `sep`; at least one.
pub open spec fn fields(s: Seq<char>, sep: char) -> Seq<Seq<char>> {
    fields_from(s, sep, 0, 0)
}

/// The pieces joined with `sep` between them.
pub open spec fn joined(parts: Seq<Seq<char>>, sep: Seq<char>) -> Seq<char>
    decreases parts.len(),
{
    if parts.len() == 0 {
        seq![]
    } else if parts.len() == 1 {
        parts[0]
    } else {
        joined(parts.drop_last(), sep) + sep + parts.last()
    }
}

/// A `key: value` line, both sides trimmed; none without a colon.
pub open spec fn key_value_of(line: Seq<char>) -> Option<(Seq<char>, Seq<char>)> {
    let i = first_index_from(line, ':', 0);
    if i < 0 {
        None
    } else {
        Some((trimmed(line.subrange(0, i)), trimmed(line.subrange(i + 1, line.len() as int))))
    }
}

/// A whole number written in a field; decimals are rounded.
pub open spec fn int_of(s: Seq<char>) -> Option<i32> {
    match signed_scaled(s, 0) {
        Some(v) => if i32::MIN <= v <= i32::MAX { Some(v as i32) } else { None },
        None => None,
    }
}

/// The field of `f` at `i`, as a whole number.
pub open spec fn int_field(f: Seq<Seq<char>>, i: int) -> Option<i32> {
    if 0 <= i < f.len() { int_of(f[i]) } else { None }
}

/// What a field holds from its first `:` on, the colon included.
pub open spec fn from_colon(s: Seq<char>) -> Seq<char> {
    let i = first_index_from(s, ':', 0);
    if i < 0 { seq![] } else { s.subrange(i, s.len() as int) }
}

/// What a field holds before its first `:`.
pub open spec fn before_colon(s: Seq<char>) -> Seq<char> {
    let i = first_index_from(s, ':', 0);
    if i < 0 { s } else { s.subrange(0, i) }
}

/// A control point `x:y`.
pub open spec fn point_of(s: Seq<char>) -> Option<Point> {
    let f = fields(s, ':');
    if f.len() == 2 {
        match (int_of(f[0]), int_of(f[1])) {
            (Some(x), Some(y)) => Some(Point { x, y }),
            _ => None,
        }
    } else {
        None
    }
}

/// The control points `pieces`, if all are well formed.
pub open spec fn points_of(pieces: Seq<Seq<char>>) -> Option<Seq<Point>>
    decreases pieces.len(),
{
    if pieces.len() == 0 {
        Some(seq![])
    } else {
        match (points_of(pieces.drop_last()), point_of(pieces.last())) {
            (Some(ps), Some(p)) => Some(ps.push(p)),
            _ => None,
        }
    }
}

/// The spline a curve letter names.
pub open spec fn spline_of(s: Seq<char>) -> Option<SliderSplineKind> {
    if s == "L"@ { Some(SliderSplineKind::Linear) }
    else if s == "B"@ { Some(SliderSplineKind::Bezier) }
    else if s == "C"@ { Some(SliderSplineKind::Catmull) }
    else if s == "P"@ { Some(SliderSplineKind::Perfect) }
    else { None }
}

/// The slider of the fields `f`: curve, repeats and length from field 5 on.
pub open spec fn slider_of(f: Seq<Seq<char>>) -> Option<(SliderSplineKind, Seq<Point>, u32, Seq<char>)> {
    if f.len() < 8 {
        None
    } else {
        let curve = fields(f[5], '|');
        match (spline_of(curve[0]), points_of(curve.drop_first()), unsigned_value(f[6])) {
            (Some(k), Some(ps), Some(n)) => if n <= u32::MAX {
                Some((k, ps, n as u32, f[7]))
            } else {
                None
            },
            _ => None,
        }
    }
}

/// Whether `h` is the hit object that `line` describes.
pub open spec fn describes_object(line: Seq<char>, h: HitObject) -> bool {
    let f = fields(line, ',');
    &&& f.len() >= 5
    &&& int_field(f, 0) == Some(h.pos.x)
    &&& int_field(f, 1) == Some(h.pos.y)
    &&& int_field(f, 2) == Some(h.start_time)
    &&& int_field(f, 3) matches Some(ty) && {
        &&& h.new_combo == (ty & 4 == 4)
        &&& h.skip_color == (ty >> 4) & 7
        &&& if ty & 1 == 1 {
            h.kind is Circle
        } else if ty & 2 == 2 {
            h.kind matches HitObjectKind::Slider(info) && slider_of(f) matches Some((k, ps, n, len)) && info.kind == k
                && info.control_points@ == ps && info.num_repeats == n && info.pixel_length@ == len
        } else if ty & 8 == 8 {
            h.kind matches HitObjectKind::Spinner(l) && int_field(f, 5) == Some(l.end_time)
        } else {
            h.kind matches HitObjectKind::Hold(l) && f.len() > 5 && int_of(before_colon(f[5])) == Some(l.end_time)
        }
    }
}

/// Whether `line` describes a hit object at all.
pub open spec fn object_line_ok(line: Seq<char>) -> bool {
    let f = fields(line, ',');
    &&& f.len() >= 5
    &&& int_field(f, 0) is Some && int_field(f, 1) is Some && int_field(f, 2) is Some
    &&& int_field(f, 3) matches Some(ty) && if ty & 1 == 1 {
        true
    } else if ty & 2 == 2 {
        slider_of(f) is Some
    } else if ty & 8 == 8 {
        int_field(f, 5) is Some
    } else {
        f.len() > 5 && int_of(before_colon(f[5])) is Some
    }
}

/// `line` with the start time of `h`, and its end time for a spinner or hold.
pub open spec fn rewritten_object(line: Seq<char>, h: HitObject) -> Seq<char> {
    let f = fields(line, ',');
    let f2 = if f.len() > 2 { f.update(2, signed_decimal(h.start_time as int)) } else { f };
    let f3 = match h.kind {
        HitObjectKind::Spinner(l) => if f.len() > 5 { f2.update(5, signed_decimal(l.end_time as int)) } else { f2 },
        HitObjectKind::Hold(l) => if f.len() > 5 {
            f2.update(5, signed_decimal(l.end_time as int) + from_colon(f[5]))
        } else {
            f2
        },
        _ => f2,
    };
    joined(f3, seq![','])
}

/// The timing point that `line` describes: its time in milliseconds and its
/// beat length in microseconds. A point sets a tempo if its seventh field is
/// not `0`, or, without that field, if its beat length is positive.
pub open spec fn timing_point_of(line: Seq<char>) -> Option<TimingPoint> {
    let f = fields(line, ',');
    if f.len() < 2 {
        None
    } else {
        match (int_of(f[0]), signed_scaled(f[1], 3)) {
            (Some(t), Some(b)) => {
                let uninherited = if f.len() > 6 { f[6] != "0"@ } else { b > 0 };
                Some(TimingPoint {
                    time: t,
                    kind: if uninherited {
                        TimingPointKind::Uninherited { mpb: b as i64 }
                    } else {
                        TimingPointKind::Inherited
                    },
                })
            },
            _ => None,
        }
    }
}

/// `line` with the time of `p`, and its beat length if it sets a tempo.
pub open spec fn rewritten_point(line: Seq<char>, p: TimingPoint) -> Seq<char> {
    let f = fields(line, ',');
    let f2 = f.update(0, signed_decimal(p.time as int));
    let f3 = match p.kind {
        TimingPointKind::Uninherited { mpb } => if f.len() > 1 {
            f2.update(1, signed_scaled_text(mpb as int, 3))
        } else {
            f2
        },
        TimingPointKind::Inherited => f2,
    };
    joined(f3, seq![','])
}

/// Splits `s` at each `sep`.
pub fn split_fields(s: &str, sep: char) -> (r: Vec<String>)
    ensures
        views(r@) == fields(s@, sep),
{
    let n = s.unicode_len();
    let mut out: Vec<String> = Vec::new();
    let mut start: usize = 0;
    let mut i: usize = 0;
    while i < n
        invariant
            start <= i <= n,
            n == s@.len(),
            fields(s@, sep) == views(out@) + fields_from(s@, sep, start as int, i as int),
        decreases n - i,
    {
        if s.get_char(i) == sep {
            let piece = String::from_str(s.substring_char(start, i));
            let ghost before = views(out@);
            out.push(piece);
            proof {
                assert(views(out@) =~= before.push(piece@));
                assert(fields_from(s@, sep, start as int, i as int)
                    == seq![s@.subrange(start as int, i as int)] + fields_from(s@, sep, i + 1, i + 1));
                assert(views(out@) + fields_from(s@, sep, i + 1, i + 1)
                    =~= before + fields_from(s@, sep, start as int, i as int));
            }
            start = i + 1;
        }
        i = i + 1;
    }
    let piece = String::from_str(s.substring_char(start, n));
    let ghost before = views(out@);
    out.push(piece);
    proof {
        assert(views(out@) =~= before.push(piece@));
        assert(views(out@) =~= before + fields_from(s@, sep, start as int, n as int));
    }
    out
}

/// Joins `parts` with `sep` between them.
pub fn join_fields(parts: &Vec<String>, sep: &str) -> (r: String)
    ensures
        r@ == joined(views(parts@), sep@),
{
    if parts.len() == 0 {
        return String::new();
    }
    let mut s = parts[0].clone();
    let mut i: usize = 1;
    proof {
        assert(views(parts@).take(1).drop_last().len() == 0);
    }
    while i < parts.len()
        invariant
            1 <= i <= parts@.len(),
            s@ == joined(views(parts@).take(i as int), sep@),
        decreases parts@.len() - i,
    {
        s.append(sep);
        s.append(parts[i].as_str());
        proof {
            assert(views(parts@).take(i + 1).drop_last() =~= views(parts@).take(i as int));
            assert(views(parts@).take(i + 1).last() == parts@[i as int]@);
        }
        i = i + 1;
    }
    proof {
        assert(views(parts@).take(parts@.len() as int) =~= views(parts@));
    }
    s
}

/// Reads a `key: value` line.
pub fn key_value(line: &str) -> (r: Option<(String, String)>)
    ensures
        r matches Some((k, v)) ==> key_value_of(line@) == Some((k@, v@)),
        r is None ==> key_value_of(line@) is None,
{
    let n = line.unicode_len();
    let mut i: usize = 0;
    while i < n && line.get_char(i) != ':'
        invariant
            i <= n,
            n == line@.len(),
            first_index_from(line@, ':', 0) == first_index_from(line@, ':', i as int),
        decreases n - i,
    {
        i = i + 1;
    }
    if i == n {
        return None;
    }
    let k = String::from_str(trim_text(line.substring_char(0, i)));
    let v = String::from_str(trim_text(line.substring_char(i + 1, n)));
    Some((k, v))
}

/// Reads a whole number; decimals are rounded.
pub fn int_value(s: &str) -> (r: Option<i32>)
    ensures
        r == int_of(s@),
{
    match parse_signed_scaled(s, 0) {
        Some(v) => if i32::MIN as i64 <= v && v <= i32::MAX as i64 { Some(v as i32) } else { None },
        None => None,
    }
}

fn int_at(f: &Vec<String>, i: usize) -> (r: Option<i32>)
    ensures
        r == int_field(views(f@), i as int),
{
    if i < f.len() {
        int_value(f[i].as_str())
    } else {
        None
    }
}

fn colon_split(s: &str) -> (r: (&str, &str))
    ensures
        r.0@ == before_colon(s@),
        r.1@ == from_colon(s@),
{
    let n = s.unicode_len();
    let mut i: usize = 0;
    while i < n && s.get_char(i) != ':'
        invariant
            i <= n,
            n == s@.len(),
            first_index_from(s@, ':', 0) == first_index_from(s@, ':', i as int),
        decreases n - i,
    {
        i = i + 1;
    }
    proof {
        reveal_strlit("");
    }
    if i == n {
        proof {
            assert(s@.subrange(0, n as int) =~= s@);
        }
        (s, "")
    } else {
        (s.substring_char(0, i), s.substring_char(i, n))
    }
}

/// Reads a control point `x:y`.
pub fn parse_point(s: &str) -> (r: Option<Point>)
    ensures
        r == point_of(s@),
{
    let f = split_fields(s, ':');
    if f.len() != 2 {
        return None;
    }
    match (int_value(f[0].as_str()), int_value(f[1].as_str())) {
        (Some(x), Some(y)) => Some(Point { x, y }),
        _ => None,
    }
}

fn parse_points(pieces: &Vec<String>) -> (r: Option<Vec<Point>>)
    requires
        pieces@.len() >= 1,
    ensures
        r matches Some(ps) ==> points_of(views(pieces@).drop_first()) == Some(ps@),
        r is None ==> points_of(views(pieces@).drop_first()) is None,
{
    let ghost rest = views(pieces@).drop_first();
    let mut out: Vec<Point> = Vec::new();
    let mut i: usize = 1;
    while i < pieces.len()
        invariant
            1 <= i <= pieces@.len(),
            rest == views(pieces@).drop_first(),
            points_of(rest.take(i - 1)) == Some(out@),
        decreases pieces@.len() - i,
    {
        proof {
            assert(rest.take(i as int).drop_last() =~= rest.take(i - 1));
            assert(rest.take(i as int).last() == pieces@[i as int]@);
        }
        match parse_point(pieces[i].as_str()) {
            Some(p) => {
                out.push(p);
            },
            None => {
                proof {
                    lemma_points_of_prefix(rest, i as int, rest.len() as int);
                    assert(rest.take(rest.len() as int) =~= rest);
                }
                return None;
            },
        }
        i = i + 1;
    }
    proof {
        assert(rest.take(i - 1) =~= rest);
    }
    Some(out)
}

proof fn lemma_points_of_prefix(s: Seq<Seq<char>>, i: int, j: int)
    requires
        0 <= i <= j <= s.len(),
        points_of(s.take(i)) is None,
    ensures
        points_of(s.take(j)) is None,
    decreases j - i,
{
    if i < j {
        lemma_points_of_prefix(s, i, j - 1);
        assert(s.take(j).drop_last() =~= s.take(j - 1));
    }
}

/// The spline a curve letter names.
pub fn spline_letter(s: &str) -> (r: Option<SliderSplineKind>)
    ensures
        r == spline_of(s@),
{
    if crate::paths::same_text(s, "L") { Some(SliderSplineKind::Linear) }
    else if crate::paths::same_text(s, "B") { Some(SliderSplineKind::Bezier) }
    else if crate::paths::same_text(s, "C") { Some(SliderSplineKind::Catmull) }
    else if crate::paths::same_text(s, "P") { Some(SliderSplineKind::Perfect) }
    else { None }
}

fn parse_slider(f: &Vec<String>) -> (r: Option<SliderInfo>)
    ensures
        r matches Some(info) ==> slider_of(views(f@)) matches Some((k, ps, n, len)) && info.kind == k
            && info.control_points@ == ps && info.num_repeats == n && info.pixel_length@ == len,
        r is None ==> slider_of(views(f@)) is None,
{
    if f.len() < 8 {
        return None;
    }
    let curve = split_fields(f[5].as_str(), '|');
    proof {
        assert(fields_from(f@[5]@, '|', 0, 0).len() >= 1) by {
            lemma_fields_nonempty(f@[5]@, '|', 0, 0);
        }
    }
    let kind = spline_letter(curve[0].as_str());
    let points = parse_points(&curve);
    let repeats = parse_unsigned(f[6].as_str());
    match (kind, points, repeats) {
        (Some(k), Some(ps), Some(n)) => if n <= u32::MAX as u128 {
            Some(SliderInfo { kind: k, control_points: ps, num_repeats: n as u32, pixel_length: f[7].clone() })
        } else {
            None
        },
        _ => None,
    }
}

proof fn lemma_fields_nonempty(s: Seq<char>, sep: char, start: int, i: int)
    requires
        0 <= start <= i,
    ensures
        fields_from(s, sep, start, i).len() >= 1,
    decreases s.len() - i,
{
    if i < s.len() {
        if s[i] == sep {
            lemma_fields_nonempty(s, sep, i + 1, i + 1);
        } else {
            lemma_fields_nonempty(s, sep, start, i + 1);
        }
    }
}

impl HitObject {
    /// Reads a hit object line.
    pub fn from_line(line: &str) -> (r: Option<HitObject>)
        ensures
            r matches Some(h) ==> describes_object(line@, h),
            r is None ==> !object_line_ok(line@),
    {
        let f = split_fields(line, ',');
        if f.len() < 5 {
            return None;
        }
        let (x, y, t, ty) = match (int_at(&f, 0), int_at(&f, 1), int_at(&f, 2), int_at(&f, 3)) {
            (Some(x), Some(y), Some(t), Some(ty)) => (x, y, t, ty),
            _ => {
                return None;
            },
        };
        let kind = if ty & 1 == 1 {
            HitObjectKind::Circle
        } else if ty & 2 == 2 {
            match parse_slider(&f) {
                Some(info) => HitObjectKind::Slider(info),
                None => {
                    return None;
                },
            }
        } else if ty & 8 == 8 {
            match int_at(&f, 5) {
                Some(e) => HitObjectKind::Spinner(LongInfo { end_time: e }),
                None => {
                    return None;
                },
            }
        } else {
            if f.len() <= 5 {
                return None;
            }
            let (head, _) = colon_split(f[5].as_str());
            match int_value(head) {
                Some(e) => HitObjectKind::Hold(LongInfo { end_time: e }),
                None => {
                    return None;
                },
            }
        };
        Some(HitObject { pos: Point { x, y }, start_time: t, kind, new_combo: ty & 4 == 4, skip_color: (ty >> 4) & 7 })
    }
}

impl TimingPoint {
    /// Reads a timing point line.
    pub fn from_line(line: &str) -> (r: Option<TimingPoint>)
        ensures
            r == timing_point_of(line@),
    {
        let f = split_fields(line, ',');
        if f.len() < 2 {
            return None;
        }
        match (int_value(f[0].as_str()), parse_signed_scaled(f[1].as_str(), 3)) {
            (Some(t), Some(b)) => {
                let uninherited = if f.len() > 6 { !crate::paths::same_text(f[6].as_str(), "0") } else { b > 0 };
                Some(TimingPoint {
                    time: t,
                    kind: if uninherited {
                        TimingPointKind::Uninherited { mpb: b }
                    } else {
                        TimingPointKind::Inherited
                    },
                })
            },
            _ => None,
        }
    }
}

/// `line` with the start time of `h`, and its end time for a spinner or hold.
pub fn rewrite_object_line(line: &str, h: &HitObject) -> (r: String)
    ensures
        r@ == rewritten_object(line@, *h),
{
    let mut f = split_fields(line, ',');
    let ghost f0 = views(f@);
    if f.len() > 2 {
        let t = signed_decimal_text(h.start_time as i64);
        f.set(2, t);
    }
    proof {
        assert(views(f@) =~= if f0.len() > 2 { f0.update(2, signed_decimal(h.start_time as int)) } else { f0 });
    }
    let ghost f2 = views(f@);
    match h.kind {
        HitObjectKind::Spinner(l) => if f.len() > 5 {
            let e = signed_decimal_text(l.end_time as i64);
            f.set(5, e);
            proof {
                assert(views(f@) =~= f2.update(5, signed_decimal(l.end_time as int)));
            }
        },
        HitObjectKind::Hold(l) => if f.len() > 5 {
            let mut e = signed_decimal_text(l.end_time as i64);
            let (_, tail) = colon_split(f[5].as_str());
            e.append(tail);
            proof {
                assert(f@[5]@ == f0[5]);
            }
            f.set(5, e);
            proof {
                assert(views(f@) =~= f2.update(5, signed_decimal(l.end_time as int) + from_colon(f0[5])));
            }
        },
        _ => {},
    }
    proof {
        reveal_strlit(",");
        assert(","@ =~= seq![',']);
        assert(f0 == fields(line@, ','));
        assert(views(f@) == match h.kind {
            HitObjectKind::Spinner(l) => if f0.len() > 5 { f2.update(5, signed_decimal(l.end_time as int)) } else { f2 },
            HitObjectKind::Hold(l) => if f0.len() > 5 {
                f2.update(5, signed_decimal(l.end_time as int) + from_colon(f0[5]))
            } else {
                f2
            },
            _ => f2,
        });
    }
    join_fields(&f, ",")
}

/// `line` with the time of `p`, and its beat length if it sets a tempo.
pub fn rewrite_timing_line(line: &str, p: &TimingPoint) -> (r: String)
    ensures
        r@ == rewritten_point(line@, *p),
{
    let mut f = split_fields(line, ',');
    let ghost f0 = views(f@);
    proof {
        lemma_fields_nonempty(line@, ',', 0, 0);
    }
    let t = signed_decimal_text(p.time as i64);
    f.set(0, t);
    let ghost f2 = views(f@);
    proof {
        assert(f2 =~= f0.update(0, signed_decimal(p.time as int)));
    }
    match p.kind {
        TimingPointKind::Uninherited { mpb } => if f.len() > 1 {
            let b = scaled_text(mpb, 3);
            f.set(1, b);
            proof {
                assert(views(f@) =~= f2.update(1, signed_scaled_text(mpb as int, 3)));
            }
        },
        TimingPointKind::Inherited => {},
    }
    proof {
        reveal_strlit(",");
        assert(","@ =~= seq![',']);
        assert(f0 == fields(line@, ','));
        assert(views(f@) == match p.kind {
            TimingPointKind::Uninherited { mpb } => if f0.len() > 1 {
                f2.update(1, signed_scaled_text(mpb as int, 3))
            } else {
                f2
            },
            TimingPointKind::Inherited => f2,
        });
    }
    join_fields(&f, ",")
}

/// The name of a section header `[Name]`, surrounding white space aside.
pub open spec fn section_of(line: Seq<char>) -> Option<Seq<char>> {
    let t = trimmed(line);
    if t.len() >= 2 && t[0] == '[' && t.last() == ']' {
        Some(t.subrange(1, t.len() - 1))
    } else {
        None
    }
}

/// `s` without one pair of surrounding double quotes.
pub open spec fn unquoted(s: Seq<char>) -> Seq<char> {
    if s.len() >= 2 && s[0] == '"' && s.last() == '"' {
        s.subrange(1, s.len() - 1)
    } else {
        s
    }
}

/// The file of a background event line `0,0,"file",...`.
pub open spec fn background_of(line: Seq<char>) -> Option<Seq<char>> {
    let f = fields(line, ',');
    if f.len() >= 3 && (f[0] == "0"@ || f[0] == "Background"@) {
        Some(unquoted(f[2]))
    } else {
        None
    }
}

/// The game mode a `Mode` value names; unknown values play as standard.
pub open spec fn mode_of(v: i32) -> Mode {
    if v == 1 {
        Mode::Taiko
    } else if v == 2 {
        Mode::Catch
    } else if v == 3 {
        Mode::Mania
    } else {
        Mode::Osu
    }
}

/// Reads a section header.
pub fn section_name(line: &str) -> (r: Option<String>)
    ensures
        r matches Some(n) ==> section_of(line@) == Some(n@),
        r is None ==> section_of(line@) is None,
{
    let t = trim_text(line);
    let n = t.unicode_len();
    if n >= 2 && t.get_char(0) == '[' && t.get_char(n - 1) == ']' {
        Some(String::from_str(t.substring_char(1, n - 1)))
    } else {
        None
    }
}

/// Reads the file of a background event line.
pub fn background_file(line: &str) -> (r: Option<String>)
    ensures
        r matches Some(b) ==> background_of(line@) == Some(b@),
        r is None ==> background_of(line@) is None,
{
    let f = split_fields(line, ',');
    if f.len() >= 3 && (crate::paths::same_text(f[0].as_str(), "0") || crate::paths::same_text(f[0].as_str(), "Background")) {
        let s = f[2].as_str();
        let n = s.unicode_len();
        if n >= 2 && s.get_char(0) == '"' && s.get_char(n - 1) == '"' {
            Some(String::from_str(s.substring_char(1, n - 1)))
        } else {
            Some(String::from_str(s))
        }
    } else {
        None
    }
}

/// The game mode a `Mode` value names.
pub fn game_mode(v: i32) -> (r: Mode)
    ensures
        r == mode_of(v),
{
    if v == 1 {
        Mode::Taiko
    } else if v == 2 {
        Mode::Catch
    } else if v == 3 {
        Mode::Mania
    } else {
        Mode::Osu
    }
}

/// The approach rate of a map: the one it gives, or else, as older maps
/// have none, its overall difficulty.
pub fn approach_rate_or_od(approach_rate: Option<u32>, overall_difficulty: u32) -> (r: u32)
    ensures
        r == match approach_rate {
            Some(a) => a,
            None => overall_difficulty,
        },
{
    match approach_rate {
        Some(a) => a,
        None => overall_difficulty,
    }
}

} // verus!
