//! The two ways a record's fields arrive: bulk parsing of a fixed-shape
//! argument list, and single attempts at one field for the interactive
//! prompt loop, together with the yes/no confirmation answer.

use vstd::prelude::*;
use vstd::string::StrSliceExecFns;
use vstd::string::StringExecFns;

use crate::album::{
    BoundedReleaseYear, BoundedTrackCount, Record, Timestamp, ValidatedText, ValidationError,
};
use crate::text::{
    dec_str, dec_value, detab_spec, is_signed_dec, is_unsigned_dec, push_char, push_dec,
    signed_value, spec_is_space, to_chars, trim_bounds, trim_spec, unsigned_body,
};
use crate::MAX_TRACK_COUNT;
use crate::MIN_RELEASE_YEAR;

verus! {

/// The two-character delimiter that joins the four fields when they arrive
/// as one argument.
pub open spec fn delim() -> Seq<char> {
    seq![';', ';']
}

/// `s` cut at every (non-overlapping, leftmost-first) occurrence of the
/// delimiter, as `str::split(";;")` cuts it.
pub open spec fn spec_split(s: Seq<char>) -> Seq<Seq<char>>
    decreases s.len(),
{
    if s.len() >= 2 && s[0] == ';' && s[1] == ';' {
        seq![Seq::<char>::empty()] + spec_split(s.skip(2))
    } else if s.len() == 0 {
        seq![s]
    } else {
        let rest = spec_split(s.skip(1));
        seq![seq![s[0]] + rest[0]] + rest.drop_first()
    }
}

/// A split has at least one part.
proof fn lemma_split_len(s: Seq<char>)
    ensures
        spec_split(s).len() >= 1,
    decreases s.len(),
{
    if s.len() >= 2 && s[0] == ';' && s[1] == ';' {
        lemma_split_len(s.skip(2));
    } else if s.len() > 0 {
        lemma_split_len(s.skip(1));
    }
}

/// The parts joined back with the delimiter between each two.
pub open spec fn spec_join(parts: Seq<Seq<char>>) -> Seq<char>
    decreases parts.len(),
{
    if parts.len() == 0 {
        Seq::<char>::empty()
    } else if parts.len() == 1 {
        parts[0]
    } else {
        parts[0] + delim() + spec_join(parts.drop_first())
    }
}

/// Joining four parts spelled out.
proof fn lemma_join4(a: Seq<Seq<char>>)
    requires
        a.len() == 4,
    ensures
        spec_join(a) == a[0] + delim() + a[1] + delim() + a[2] + delim() + a[3],
{
    let r1 = a.drop_first();
    let r2 = r1.drop_first();
    let r3 = r2.drop_first();
    assert(r3.len() == 1 && r3[0] == a[3]);
    assert(spec_join(r3) == a[3]);
    assert(spec_join(r2) == a[2] + delim() + a[3]);
    assert(spec_join(r1) == a[1] + delim() + (a[2] + delim() + a[3]));
    assert(spec_join(a) =~= a[0] + delim() + a[1] + delim() + a[2] + delim() + a[3]);
}

/// The views of a list of character vectors.
pub open spec fn views_of(ps: Seq<Vec<char>>) -> Seq<Seq<char>> {
    ps.map_values(|p: Vec<char>| p@)
}

/// Splits `v[i..]` at every delimiter occurrence.
fn split_from(v: &Vec<char>, i: usize) -> (r: Vec<Vec<char>>)
    requires
        i <= v.len(),
    ensures
        views_of(r@) == spec_split(v@.skip(i as int)),
        r.len() >= 1,
    decreases v.len() - i,
{
    let ghost s = v@.skip(i as int);
    if v.len() - i >= 2 && v[i] == ';' && v[i + 1] == ';' {
        let mut rest = split_from(v, i + 2);
        let ghost rest_view = rest@;
        let mut out: Vec<Vec<char>> = Vec::new();
        out.push(Vec::new());
        out.append(&mut rest);
        proof {
            assert(s.skip(2) =~= v@.skip(i + 2));
            let m = views_of(out@);
            let sp = spec_split(s);
            assert(m[0] =~= Seq::<char>::empty());
            assert forall|k: int| 1 <= k < m.len() implies m[k] == sp[k] by {
                assert(out@[k] == rest_view[k - 1]);
                assert(views_of(rest_view)[k - 1] == rest_view[k - 1]@);
            }
            assert(m =~= sp);
        }
        out
    } else if i == v.len() {
        let mut out: Vec<Vec<char>> = Vec::new();
        out.push(Vec::new());
        proof {
            assert(s =~= Seq::<char>::empty());
            assert(views_of(out@)[0] == out@[0]@);
            assert(views_of(out@) =~= spec_split(s));
        }
        out
    } else {
        let c = v[i];
        let mut rest = split_from(v, i + 1);
        proof {
            assert(s.skip(1) =~= v@.skip(i + 1));
            lemma_split_len(s.skip(1));
        }
        let ghost rest_view = rest@;
        let mut first: Vec<char> = rest.remove(0);
        let ghost first_orig = first@;
        first.insert(0, c);
        let mut out = rest;
        out.insert(0, first);
        proof {
            assert(s[0] == c);
            let m = views_of(out@);
            let sp = spec_split(s);
            let rm = views_of(rest_view);
            assert(rm == spec_split(s.skip(1)));
            assert(rm[0] == rest_view[0]@ && first_orig == rest_view[0]@);
            assert(m[0] == first@ && first@ =~= seq![c] + first_orig);
            assert(m[0] == sp[0]);
            assert forall|k: int| 1 <= k < m.len() implies m[k] == sp[k] by {
                assert(out@[k] == rest_view[k]);
                assert(rm[k] == rest_view[k]@);
                assert(sp[k] == spec_split(s.skip(1)).drop_first()[k - 1]);
            }
            assert(m =~= sp);
        }
        out
    }
}

/// Splits `v` at every delimiter occurrence.
fn split_delim(v: &Vec<char>) -> (r: Vec<Vec<char>>)
    ensures
        views_of(r@) == spec_split(v@),
        r.len() >= 1,
{
    let r = split_from(v, 0);
    proof {
        assert(v@.skip(0) =~= v@);
    }
    r
}

/// Builds a `String` holding exactly the characters of `v`.
fn chars_to_string(v: &Vec<char>) -> (r: String)
    ensures
        r@ == v@,
{
    let mut out = String::new();
    let mut k: usize = 0;
    while k < v.len()
        invariant
            k <= v@.len(),
            out@ == v@.subrange(0, k as int),
        decreases v@.len() - k,
    {
        push_char(&mut out, v[k]);
        k = k + 1;
        assert(out@ =~= v@.subrange(0, k as int));
    }
    assert(out@ =~= v@);
    out
}

/// The views of a list of argument strings.
pub open spec fn args_views(args: Seq<String>) -> Seq<Seq<char>> {
    args.map_values(|s: String| s@)
}

/// The one input string the argument list denotes: four arguments are joined
/// with the delimiter, a single argument stands as it is, and any other
/// argument count is a usage error.
pub open spec fn joined_input(args: Seq<Seq<char>>) -> Option<Seq<char>> {
    if args.len() == 4 {
        Some(spec_join(args))
    } else if args.len() == 1 {
        Some(args[0])
    } else {
        None
    }
}

/// The four raw fields the argument list denotes, or `None` when its shape
/// is not accepted.
pub open spec fn arg_fields(args: Seq<Seq<char>>) -> Option<Seq<Seq<char>>> {
    match joined_input(args) {
        Some(j) => if spec_split(j).len() == 4 {
            Some(spec_split(j))
        } else {
            None
        },
        None => None,
    }
}

/// Joins four argument strings with the delimiter.
fn join_args(args: &Vec<String>) -> (r: Vec<char>)
    requires
        args@.len() == 4,
    ensures
        r@ == spec_join(args_views(args@)),
{
    let ghost avs = args_views(args@);
    let mut out = to_chars(args[0].as_str());
    out.push(';');
    out.push(';');
    let mut c1 = to_chars(args[1].as_str());
    out.append(&mut c1);
    out.push(';');
    out.push(';');
    let mut c2 = to_chars(args[2].as_str());
    out.append(&mut c2);
    out.push(';');
    out.push(';');
    let mut c3 = to_chars(args[3].as_str());
    out.append(&mut c3);
    proof {
        lemma_join4(avs);
        assert(out@ =~= avs[0] + delim() + avs[1] + delim() + avs[2] + delim() + avs[3]);
    }
    out
}

/// Whether the raw text field at that position would validate.
pub open spec fn text_ok(f: Seq<char>) -> bool {
    exists|k: int| 0 <= k < f.len() && !spec_is_space(f[k])
}

/// Whether the raw track-count field would validate.
pub open spec fn tracks_ok(f: Seq<char>) -> bool {
    is_unsigned_dec(trim_spec(f)) && 1 <= dec_value(unsigned_body(trim_spec(f)))
        <= MAX_TRACK_COUNT
}

/// Whether the raw release-year field would validate against `current_year`.
pub open spec fn year_ok(f: Seq<char>, current_year: i32) -> bool {
    is_signed_dec(trim_spec(f)) && MIN_RELEASE_YEAR <= signed_value(trim_spec(f)) <= current_year
}

/// Whether the raw field at `idx` (name, artist, tracks, year, in that
/// order) would validate.
pub open spec fn field_ok(fs: Seq<Seq<char>>, idx: int, current_year: i32) -> bool {
    if idx == 0 {
        text_ok(fs[0])
    } else if idx == 1 {
        text_ok(fs[1])
    } else if idx == 2 {
        tracks_ok(fs[2])
    } else {
        year_ok(fs[3], current_year)
    }
}

/// One collected validation failure: the position of the field (0 name,
/// 1 artist, 2 tracks, 3 year) and what was wrong with it.
#[derive(Debug)]
pub struct FieldError {
    pub field: usize,
    pub error: ValidationError,
}

/// Whether `fe` is the error that validating field `fe.field` of `fs` yields.
pub open spec fn field_error_matches(fe: FieldError, fs: Seq<Seq<char>>, current_year: i32) -> bool {
    &&& 0 <= fe.field < 4
    &&& !field_ok(fs, fe.field as int, current_year)
    &&& if fe.field == 0 || fe.field == 1 {
        fe.error matches ValidationError::EmptyInput(inp) && inp@ == fs[fe.field as int]
    } else if fe.field == 2 {
        if !is_unsigned_dec(trim_spec(fs[2])) {
            fe.error matches ValidationError::NotANumber(inp) && inp@ == fs[2]
        } else {
            fe.error matches ValidationError::OutOfRange(inp, lo, hi) && inp@ == fs[2] && lo == 1
                && hi == MAX_TRACK_COUNT as i32
        }
    } else {
        if !is_signed_dec(trim_spec(fs[3])) {
            fe.error matches ValidationError::NotANumber(inp) && inp@ == fs[3]
        } else {
            fe.error matches ValidationError::OutOfRange(inp, lo, hi) && inp@ == fs[3] && lo
                == MIN_RELEASE_YEAR && hi == current_year
        }
    }
}

/// Whether `es` is exactly the list of failures that validating the four
/// fields of `fs` yields: one matching entry for every invalid field, in
/// field order, and nothing else.
pub open spec fn complete_error_report(es: Seq<FieldError>, fs: Seq<Seq<char>>, current_year: i32) -> bool {
    &&& forall|k: int| 0 <= k < es.len() ==> field_error_matches(es[k], fs, current_year)
    &&& forall|i: int|
        0 <= i < 4 && !field_ok(fs, i, current_year) ==> exists|k: int|
            0 <= k < es.len() && es[k].field == i
    &&& forall|k1: int, k2: int| 0 <= k1 < k2 < es.len() ==> es[k1].field < es[k2].field
}

/// What holds of a record successfully built from the argument list `args`
/// at validation instant `current_year` / `added_at`: the list denotes four
/// fields, all four validate, and the record carries exactly their validated
/// values.
pub open spec fn ok_outcome(
    args: Seq<Seq<char>>,
    rec: Record,
    current_year: i32,
    added_at: Timestamp,
) -> bool {
    let fs = arg_fields(args)->Some_0;
    &&& arg_fields(args) is Some
    &&& forall|i: int| 0 <= i < 4 ==> field_ok(fs, i, current_year)
    &&& rec.wf()
    &&& rec.name@ == detab_spec(trim_spec(fs[0]))
    &&& rec.artist@ == detab_spec(trim_spec(fs[1]))
    &&& rec.tracks.count == dec_value(unsigned_body(trim_spec(fs[2])))
    &&& rec.release_year.year == signed_value(trim_spec(fs[3]))
    &&& rec.added_at == added_at
}

/// What holds when the argument list `args` was accepted in shape but failed
/// validation: some field is invalid and `es` reports exactly the invalid
/// fields, in field order.
pub open spec fn invalid_outcome(args: Seq<Seq<char>>, es: Seq<FieldError>, current_year: i32) -> bool {
    let fs = arg_fields(args)->Some_0;
    &&& arg_fields(args) is Some
    &&& exists|i: int| 0 <= i < 4 && !field_ok(fs, i, current_year)
    &&& complete_error_report(es, fs, current_year)
}

/// Why an argument list produced no record: its shape was not accepted at
/// all, or one or more fields failed validation.
#[derive(Debug)]
pub enum ArgsError {
    Usage,
    Invalid(Vec<FieldError>),
}

/// Appends the error of a failed field validation, tagged with the field's
/// position; a successful validation adds nothing.
pub fn add_error<T>(errors: &mut Vec<FieldError>, field: usize, result: Result<T, ValidationError>)
    ensures
        match result {
            Ok(_) => final(errors)@ == old(errors)@,
            Err(e) => final(errors)@ == old(errors)@.push((FieldError { field, error: e })),
        },
{
    match result {
        Ok(_) => (),
        Err(e) => errors.push(FieldError { field, error: e }),
    }
}

/// Validates the four raw fields independently — validation never stops at
/// the first failure — and returns either a record or the complete list of
/// failures, in field order.
fn validate_fields(
    f0: String,
    f1: String,
    f2: String,
    f3: String,
    current_year: i32,
    added_at: Timestamp,
) -> (r: Result<Record, Vec<FieldError>>)
    requires
        added_at.wf(),
    ensures
        r matches Ok(rec) ==> {
            let fs = seq![f0@, f1@, f2@, f3@];
            &&& forall|i: int| 0 <= i < 4 ==> field_ok(fs, i, current_year)
            &&& rec.wf()
            &&& rec.name@ == detab_spec(trim_spec(f0@))
            &&& rec.artist@ == detab_spec(trim_spec(f1@))
            &&& rec.tracks.count == dec_value(unsigned_body(trim_spec(f2@)))
            &&& rec.release_year.year == signed_value(trim_spec(f3@))
            &&& rec.added_at == added_at
        },
        r matches Err(es) ==> {
            let fs = seq![f0@, f1@, f2@, f3@];
            &&& exists|i: int| 0 <= i < 4 && !field_ok(fs, i, current_year)
            &&& complete_error_report(es@, fs, current_year)
        },
{
    let ghost fs = seq![f0@, f1@, f2@, f3@];
    let r_name = ValidatedText::parse(f0.as_str());
    let r_artist = ValidatedText::parse(f1.as_str());
    let r_tracks = BoundedTrackCount::parse(f2.as_str());
    let r_year = BoundedReleaseYear::parse(f3.as_str(), current_year);
    if r_name.is_ok() && r_artist.is_ok() && r_tracks.is_ok() && r_year.is_ok() {
        proof {
            assert(field_ok(fs, 0, current_year));
            assert(field_ok(fs, 1, current_year));
            assert(field_ok(fs, 2, current_year));
            assert(field_ok(fs, 3, current_year));
        }
        let name = r_name.unwrap();
        let artist = r_artist.unwrap();
        let tracks = r_tracks.unwrap();
        let year = r_year.unwrap();
        Ok(Record::create(name, artist, tracks, year, added_at))
    } else {
        let mut errors: Vec<FieldError> = Vec::new();
        add_error(&mut errors, 0, r_name);
        let ghost l0 = errors@.len();
        add_error(&mut errors, 1, r_artist);
        let ghost l1 = errors@.len();
        add_error(&mut errors, 2, r_tracks);
        let ghost l2 = errors@.len();
        add_error(&mut errors, 3, r_year);
        proof {
            // name the position each collected error ended up at, so that
            // every invalid field is seen to be represented
            if !field_ok(fs, 0, current_year) {
                assert(errors@[0].field == 0);
            }
            if !field_ok(fs, 1, current_year) {
                assert(errors@[l0 as int].field == 1);
            }
            if !field_ok(fs, 2, current_year) {
                assert(errors@[l1 as int].field == 2);
            }
            if !field_ok(fs, 3, current_year) {
                assert(errors@[l2 as int].field == 3);
            }
            assert(errors@.len() > 0);
            assert(!field_ok(fs, errors@[0].field as int, current_year));
        }
        Err(errors)
    }
}

/// Builds a record from a fixed-shape argument list: either the four fields
/// as four arguments, or one argument holding them joined by the delimiter.
/// Every field is validated independently, and either a record or the
/// complete list of failures, in field order, comes back.  `current_year`
/// and `added_at` are the validation instant, supplied by the caller.
pub fn parse_args(args: &Vec<String>, current_year: i32, added_at: Timestamp) -> (r: Result<
    Record,
    ArgsError,
>)
    requires
        added_at.wf(),
    ensures
        r matches Ok(rec) ==> ok_outcome(args_views(args@), rec, current_year, added_at),
        r matches Err(ArgsError::Usage) ==> arg_fields(args_views(args@)) is None,
        r matches Err(ArgsError::Invalid(es)) ==> invalid_outcome(
            args_views(args@),
            es@,
            current_year,
        ),
{
    let ghost avs = args_views(args@);
    let n = args.len();
    let joined: Vec<char>;
    if n == 4 {
        joined = join_args(args);
    } else if n == 1 {
        joined = to_chars(args[0].as_str());
        proof {
            assert(avs[0] == args@[0]@);
        }
    } else {
        return Err(ArgsError::Usage);
    }
    assert(joined_input(avs) == Some(joined@));
    let fields = split_delim(&joined);
    if fields.len() != 4 {
        return Err(ArgsError::Usage);
    }
    let ghost fs = spec_split(joined@);
    assert(fs.len() == 4);
    assert(arg_fields(avs) == Some(fs));
    let f0 = chars_to_string(&fields[0]);
    let f1 = chars_to_string(&fields[1]);
    let f2 = chars_to_string(&fields[2]);
    let f3 = chars_to_string(&fields[3]);
    proof {
        assert(views_of(fields@)[0] == fields@[0]@);
        assert(views_of(fields@)[1] == fields@[1]@);
        assert(views_of(fields@)[2] == fields@[2]@);
        assert(views_of(fields@)[3] == fields@[3]@);
        assert(seq![f0@, f1@, f2@, f3@] =~= fs);
    }
    match validate_fields(f0, f1, f2, f3, current_year, added_at) {
        Ok(rec) => {
            proof {
                assert(arg_fields(args_views(args@)) == Some(fs));
                assert(ok_outcome(args_views(args@), rec, current_year, added_at));
            }
            Ok(rec)
        },
        Err(es) => {
            proof {
                assert(arg_fields(args_views(args@)) == Some(fs));
                assert(arg_fields(args_views(args@))->Some_0 == fs);
                assert(complete_error_report(es@, fs, current_year));
                let i0 = choose|i: int|
                    0 <= i < 4 && !field_ok(seq![f0@, f1@, f2@, f3@], i, current_year);
                assert(!field_ok(fs, i0, current_year));
                assert(invalid_outcome(args_views(args@), es@, current_year));
            }
            Err(ArgsError::Invalid(es))
        },
    }
}

/// Whether the delimiter occurs anywhere in `s`.
pub open spec fn contains_delim(s: Seq<char>) -> bool {
    exists|i: int| 0 <= i && i + 2 <= s.len() && #[trigger] s[i] == ';' && s[i + 1] == ';'
}

/// Splitting starts over right after a delimiter: a delimiter-free part that
/// does not end in a half delimiter is cut off whole.
proof fn lemma_split_prepend(p: Seq<char>, rest: Seq<char>)
    requires
        !contains_delim(p),
        p.len() == 0 || p.last() != ';',
    ensures
        spec_split(p + delim() + rest) == seq![p] + spec_split(rest),
    decreases p.len(),
{
    let s = p + delim() + rest;
    if p.len() == 0 {
        assert(s.skip(2) =~= rest);
        assert(p =~= Seq::<char>::empty());
        assert(spec_split(s) == seq![Seq::<char>::empty()] + spec_split(s.skip(2)));
        assert(seq![Seq::<char>::empty()] + spec_split(s.skip(2)) =~= seq![p] + spec_split(rest));
    } else {
        // no delimiter sits at the start of `s`: it would be inside `p`, or
        // `p` would end in a half delimiter
        if s.len() >= 2 && s[0] == ';' && s[1] == ';' {
            if p.len() == 1 {
                assert(p.last() == ';');
            } else {
                assert(0 + 2 <= p.len() && p[0] == ';' && p[1] == ';');
                assert(contains_delim(p));
            }
            assert(false);
        }
        let p1 = p.drop_first();
        assert(!contains_delim(p1)) by {
            if contains_delim(p1) {
                let i = choose|i: int|
                    0 <= i && i + 2 <= p1.len() && #[trigger] p1[i] == ';' && p1[i + 1] == ';';
                assert(p[i + 1] == ';' && p[i + 2] == ';');
                assert(contains_delim(p));
            }
        }
        assert(p1.len() == 0 || p1.last() != ';');
        lemma_split_prepend(p1, rest);
        assert(s.skip(1) =~= p1 + delim() + rest);
        let r = spec_split(s.skip(1));
        assert(r == seq![p1] + spec_split(rest));
        assert(r[0] == p1);
        assert(spec_split(s) == seq![seq![s[0]] + r[0]] + r.drop_first());
        assert(seq![s[0]] + r[0] =~= p);
        assert(r.drop_first() =~= spec_split(rest));
        assert(seq![seq![s[0]] + r[0]] + r.drop_first() =~= seq![p] + spec_split(rest));
    }
}

/// Law: joining four delimiter-free fields (the first three not ending in a
/// half delimiter) and splitting the result returns exactly those fields, so
/// the one-argument form can carry any such fields faithfully.
pub proof fn lemma_split_join_round_trip(a: Seq<char>, b: Seq<char>, c: Seq<char>, d: Seq<char>)
    requires
        !contains_delim(a) && (a.len() == 0 || a.last() != ';'),
        !contains_delim(b) && (b.len() == 0 || b.last() != ';'),
        !contains_delim(c) && (c.len() == 0 || c.last() != ';'),
        !contains_delim(d),
    ensures
        spec_split(spec_join(seq![a, b, c, d])) == seq![a, b, c, d],
{
    lemma_join4(seq![a, b, c, d]);
    let tail_d = d;
    let tail_c = c + delim() + d;
    let tail_b = b + delim() + tail_c;
    assert(spec_join(seq![a, b, c, d]) =~= a + delim() + tail_b);
    lemma_split_prepend(a, tail_b);
    assert(tail_b =~= b + delim() + tail_c);
    lemma_split_prepend(b, tail_c);
    lemma_split_prepend(c, tail_d);
    assert(spec_split(d) =~= seq![d]) by {
        lemma_split_whole(d);
    }
    assert(spec_split(spec_join(seq![a, b, c, d])) =~= seq![a, b, c, d]);
}

/// A delimiter-free string splits into itself alone.
proof fn lemma_split_whole(s: Seq<char>)
    requires
        !contains_delim(s),
    ensures
        spec_split(s) == seq![s],
    decreases s.len(),
{
    if s.len() >= 2 && s[0] == ';' && s[1] == ';' {
        assert(contains_delim(s));
    }
    if s.len() > 0 {
        let s1 = s.drop_first();
        assert(!contains_delim(s1)) by {
            if contains_delim(s1) {
                let i = choose|i: int|
                    0 <= i && i + 2 <= s1.len() && #[trigger] s1[i] == ';' && s1[i + 1] == ';';
                assert(s[i + 1] == ';' && s[i + 2] == ';');
                assert(contains_delim(s));
            }
        }
        lemma_split_whole(s1);
        assert(s.skip(1) =~= s1);
        let r = spec_split(s.skip(1));
        assert(r == seq![s1]);
        assert(spec_split(s) == seq![seq![s[0]] + r[0]] + r.drop_first());
        assert(seq![s[0]] + r[0] =~= s);
        assert(r.drop_first() =~= Seq::<Seq<char>>::empty());
        assert(seq![seq![s[0]] + r[0]] + r.drop_first() =~= seq![s]);
    }
}

/// Law: four arguments that are free of the delimiter (and do not end in a
/// half delimiter, except the last) denote exactly themselves as the four
/// raw fields, so [`parse_args`] validates precisely the fields given.
pub proof fn lemma_four_args_denote_their_fields(
    a: Seq<char>,
    b: Seq<char>,
    c: Seq<char>,
    d: Seq<char>,
)
    requires
        !contains_delim(a) && (a.len() == 0 || a.last() != ';'),
        !contains_delim(b) && (b.len() == 0 || b.last() != ';'),
        !contains_delim(c) && (c.len() == 0 || c.last() != ';'),
        !contains_delim(d),
    ensures
        arg_fields(seq![a, b, c, d]) == Some(seq![a, b, c, d]),
{
    lemma_split_join_round_trip(a, b, c, d);
}

/// Law: the four raw fields that an accepted argument list denotes are the
/// same whether the fields arrive as four arguments or joined as one, so
/// both shapes lead to the same validation and the same record.
pub proof fn lemma_arg_forms_agree(a: Seq<char>, b: Seq<char>, c: Seq<char>, d: Seq<char>)
    ensures
        arg_fields(seq![a, b, c, d]) == arg_fields(seq![spec_join(seq![a, b, c, d])]),
{
    let s4 = seq![a, b, c, d];
    let s1 = seq![spec_join(s4)];
    assert(joined_input(s4) == Some(spec_join(s4)));
    assert(s1[0] == spec_join(s4));
    assert(joined_input(s1) == Some(spec_join(s4)));
}

/// A single attempt at the album-name or artist field from one line of
/// input.  Exactly the validation of [`ValidatedText::parse`]; the
/// interactive prompt loop retries the same field until this succeeds.
pub fn get_input_string(line: &str) -> (r: Result<ValidatedText, ValidationError>)
    ensures
        r is Ok <==> text_ok(line@),
        r matches Ok(t) ==> t@ == detab_spec(trim_spec(line@)) && t.wf(),
        r matches Err(e) ==> (e matches ValidationError::EmptyInput(inp) && inp@ == line@),
{
    ValidatedText::parse(line)
}

/// A single attempt at the album-name field from one line of input.
pub fn get_album_name(line: &str) -> (r: Result<ValidatedText, ValidationError>)
    ensures
        r is Ok <==> text_ok(line@),
        r matches Ok(t) ==> t@ == detab_spec(trim_spec(line@)) && t.wf(),
        r matches Err(e) ==> (e matches ValidationError::EmptyInput(inp) && inp@ == line@),
{
    get_input_string(line)
}

/// A single attempt at the artist field from one line of input.
pub fn get_artist(line: &str) -> (r: Result<ValidatedText, ValidationError>)
    ensures
        r is Ok <==> text_ok(line@),
        r matches Ok(t) ==> t@ == detab_spec(trim_spec(line@)) && t.wf(),
        r matches Err(e) ==> (e matches ValidationError::EmptyInput(inp) && inp@ == line@),
{
    get_input_string(line)
}

/// A single attempt at the track-count field from one line of input.
pub fn get_tracks(line: &str) -> (r: Result<BoundedTrackCount, ValidationError>)
    ensures
        r is Ok <==> tracks_ok(line@),
        r matches Ok(t) ==> t.count == dec_value(unsigned_body(trim_spec(line@))) && t.wf(),
        r is Err ==> !tracks_ok(line@),
{
    BoundedTrackCount::parse(line)
}

/// A single attempt at the release-year field from one line of input,
/// validated against the calendar year current at the call.
pub fn get_release_year(line: &str, current_year: i32) -> (r: Result<
    BoundedReleaseYear,
    ValidationError,
>)
    ensures
        r is Ok <==> year_ok(line@, current_year),
        r matches Ok(y) ==> y.year == signed_value(trim_spec(line@)) && y.wf() && y.year
            <= current_year,
        r is Err ==> !year_ok(line@, current_year),
{
    BoundedReleaseYear::parse(line, current_year)
}

/// The user's answer to the confirmation question.
#[derive(Clone, Copy, PartialEq, Eq, Structural, Debug)]
pub enum UserChoice {
    Yes,
    No,
}

/// Whether the trimmed answer is an affirmative token: `y` or `yes`, in any
/// letter case.
pub open spec fn is_yes_token(t: Seq<char>) -> bool {
    ||| (t.len() == 1 && (t[0] == 'y' || t[0] == 'Y'))
    ||| (t.len() == 3 && (t[0] == 'y' || t[0] == 'Y') && (t[1] == 'e' || t[1] == 'E') && (t[2]
        == 's' || t[2] == 'S'))
}

/// Whether the trimmed answer is a negative token: `n` or `no`, in any
/// letter case.
pub open spec fn is_no_token(t: Seq<char>) -> bool {
    ||| (t.len() == 1 && (t[0] == 'n' || t[0] == 'N'))
    ||| (t.len() == 2 && (t[0] == 'n' || t[0] == 'N') && (t[1] == 'o' || t[1] == 'O'))
}

/// Reads one line of input as a yes/no answer: the trimmed line must be one
/// of the tokens `y`, `yes`, `n`, `no`, case-insensitively.  Anything else
/// is no answer, and the confirmation loop asks again.
pub fn parse_choice(line: &str) -> (r: Option<UserChoice>)
    ensures
        r == Some(UserChoice::Yes) <==> is_yes_token(trim_spec(line@)),
        r == Some(UserChoice::No) <==> is_no_token(trim_spec(line@)),
        r is None <==> !is_yes_token(trim_spec(line@)) && !is_no_token(trim_spec(line@)),
{
    let v = to_chars(line);
    let (i, j) = trim_bounds(&v);
    let ghost t = trim_spec(line@);
    let len = j - i;
    if len == 1 && (v[i] == 'y' || v[i] == 'Y') {
        Some(UserChoice::Yes)
    } else if len == 3 && (v[i] == 'y' || v[i] == 'Y') && (v[i + 1] == 'e' || v[i + 1] == 'E') && (
    v[i + 2] == 's' || v[i + 2] == 'S') {
        Some(UserChoice::Yes)
    } else if len == 1 && (v[i] == 'n' || v[i] == 'N') {
        Some(UserChoice::No)
    } else if len == 2 && (v[i] == 'n' || v[i] == 'N') && (v[i + 1] == 'o' || v[i + 1] == 'O') {
        Some(UserChoice::No)
    } else {
        None
    }
}

/// The printable line for one collected failure: the field position, a
/// separating colon, and the validation error's own message.
pub open spec fn field_message_spec(fe: FieldError) -> Seq<char> {
    dec_str(fe.field as nat) + ": "@ + fe.error.message_spec()
}

/// Renders [`field_message_spec`].
pub fn field_error_message(fe: &FieldError) -> (r: String)
    ensures
        r@ == field_message_spec(*fe),
{
    let mut out = String::new();
    push_dec(&mut out, fe.field as u64);
    out.append(": ");
    let m = fe.error.message();
    out.append(m.as_str());
    out
}

/// The printable lines for a list of collected failures, one per failure,
/// in order.
pub fn error_messages(es: &Vec<FieldError>) -> (r: Vec<String>)
    ensures
        r@.len() == es@.len(),
        forall|k: int| 0 <= k < r@.len() ==> r@[k]@ == field_message_spec(es@[k]),
{
    let mut out: Vec<String> = Vec::new();
    let mut k: usize = 0;
    while k < es.len()
        invariant
            k <= es@.len(),
            out@.len() == k,
            forall|q: int| 0 <= q < k ==> out@[q]@ == field_message_spec(es@[q]),
        decreases es@.len() - k,
    {
        out.push(field_error_message(&es[k]));
        k = k + 1;
    }
    out
}

} // verus!
