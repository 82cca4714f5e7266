//! The validated value types an album record is made of, the record itself,
//! and its serializations.

use vstd::prelude::*;
use vstd::string::StrSliceExecFns;
use vstd::string::StringExecFns;

use crate::text::{
    all_digits, count_char, dec_str, dec_str_i32, dec_value, detab_spec, is_signed_dec,
    is_unsigned_dec, push_char, push_dec, push_dec_i32, scan_digits, signed_value,
    spec_is_space, to_chars, trim_bounds, trim_spec, unsigned_body,
};
use crate::{MAX_TRACK_COUNT, MIN_RELEASE_YEAR};

verus! {

/// Why a raw field value was rejected.  Each variant carries the offending
/// input; `OutOfRange` also carries the inclusive bounds that were violated.
#[derive(Debug)]
pub enum ValidationError {
    EmptyInput(String),
    NotANumber(String),
    OutOfRange(String, i32, i32),
}

impl ValidationError {
    /// The human-readable message for this error: the violated constraint and
    /// the offending input.
    pub open spec fn message_spec(&self) -> Seq<char> {
        match self {
            ValidationError::EmptyInput(inp) => "input '"@ + inp@
                + "' must contain at least one non-whitespace character"@,
            ValidationError::NotANumber(inp) => "input '"@ + inp@ + "' is not a valid number"@,
            ValidationError::OutOfRange(inp, lo, hi) => "input '"@ + inp@ + "' must be between "@
                + dec_str_i32(*lo as int) + " and "@ + dec_str_i32(*hi as int),
        }
    }

    /// Renders [`Self::message_spec`].
    pub fn message(&self) -> (r: String)
        ensures
            r@ == self.message_spec(),
    {
        let mut out = String::new();
        out.append("input '");
        match self {
            ValidationError::EmptyInput(inp) => {
                out.append(inp.as_str());
                out.append("' must contain at least one non-whitespace character");
            },
            ValidationError::NotANumber(inp) => {
                out.append(inp.as_str());
                out.append("' is not a valid number");
            },
            ValidationError::OutOfRange(inp, lo, hi) => {
                out.append(inp.as_str());
                out.append("' must be between ");
                push_dec_i32(&mut out, *lo);
                out.append(" and ");
                push_dec_i32(&mut out, *hi);
            },
        }
        out
    }
}

/// What a validated text field guarantees: non-empty, no surrounding
/// whitespace, and free of tab characters.
pub open spec fn valid_text(s: Seq<char>) -> bool {
    &&& s.len() > 0
    &&& !spec_is_space(s[0])
    &&& !spec_is_space(s[s.len() - 1])
    &&& forall|k: int| 0 <= k < s.len() ==> s[k] != '\t'
}

/// A non-empty text field, trimmed of surrounding whitespace, with every
/// embedded tab replaced by a space so that it can never corrupt a
/// tab-separated storage line.
#[derive(Debug)]
pub struct ValidatedText {
    pub text: String,
}

impl View for ValidatedText {
    type V = Seq<char>;

    open spec fn view(&self) -> Seq<char> {
        self.text@
    }
}

impl ValidatedText {
    /// The invariant every constructed value satisfies.
    pub open spec fn wf(&self) -> bool {
        valid_text(self@)
    }

    /// Validates a raw text field: trims surrounding whitespace, replaces
    /// each embedded tab by a single space, and rejects input that has no
    /// non-whitespace character at all.
    pub fn parse(raw: &str) -> (r: Result<ValidatedText, ValidationError>)
        ensures
            r is Ok <==> exists|k: int| 0 <= k < raw@.len() && !spec_is_space(raw@[k]),
            r matches Ok(t) ==> t@ == detab_spec(trim_spec(raw@)) && t.wf(),
            r matches Err(e) ==> (e matches ValidationError::EmptyInput(inp) && inp@ == raw@),
    {
        let v = to_chars(raw);
        let (i, j) = trim_bounds(&v);
        if i == j {
            assert(forall|k: int| 0 <= k < raw@.len() ==> spec_is_space(raw@[k]));
            return Err(ValidationError::EmptyInput(raw.to_owned()));
        }
        assert(!spec_is_space(raw@[i as int]));
        let mut out = String::new();
        let mut k: usize = i;
        while k < j
            invariant
                i <= k <= j <= v@.len(),
                v@ == raw@,
                out@ == detab_spec(v@.subrange(i as int, k as int)),
            decreases j - k,
        {
            let c = v[k];
            if c == '\t' {
                push_char(&mut out, ' ');
            } else {
                push_char(&mut out, c);
            }
            k = k + 1;
            assert(out@ =~= detab_spec(v@.subrange(i as int, k as int)));
        }
        let ghost core = v@.subrange(i as int, j as int);
        assert(out@ == detab_spec(core));
        assert(out@[0] == core[0] && out@[out@.len() - 1] == core[core.len() - 1]);
        Ok(ValidatedText { text: out })
    }
}

/// A track count, guaranteed to lie in `1 ..= MAX_TRACK_COUNT`.
#[derive(Debug)]
pub struct BoundedTrackCount {
    pub count: u16,
}

impl BoundedTrackCount {
    /// The invariant every constructed value satisfies.
    pub open spec fn wf(&self) -> bool {
        1 <= self.count <= MAX_TRACK_COUNT
    }

    /// Validates a raw track count: trims the input, reads it as a
    /// non-negative decimal number, and checks the bounds.  Succeeds exactly
    /// on numbers from 1 through `MAX_TRACK_COUNT`.
    pub fn parse(raw: &str) -> (r: Result<BoundedTrackCount, ValidationError>)
        ensures
            r is Ok <==> is_unsigned_dec(trim_spec(raw@)) && 1 <= dec_value(
                unsigned_body(trim_spec(raw@)),
            ) <= MAX_TRACK_COUNT,
            r matches Ok(t) ==> t.count == dec_value(unsigned_body(trim_spec(raw@))) && t.wf(),
            r matches Err(e) ==> if !is_unsigned_dec(trim_spec(raw@)) {
                e matches ValidationError::NotANumber(inp) && inp@ == raw@
            } else {
                e matches ValidationError::OutOfRange(inp, lo, hi) && inp@ == raw@ && lo == 1 && hi
                    == MAX_TRACK_COUNT as i32
            },
    {
        let v = to_chars(raw);
        let (i, j) = trim_bounds(&v);
        let ghost t = trim_spec(raw@);
        let start: usize = if i < j && v[i] == '+' {
            i + 1
        } else {
            i
        };
        proof {
            if t.len() > 0 && t[0] == '+' {
                assert(t.drop_first() =~= v@.subrange(start as int, j as int));
            } else {
                assert(t =~= v@.subrange(start as int, j as int));
            }
        }
        match scan_digits(&v, start, j) {
            None => Err(ValidationError::NotANumber(raw.to_owned())),
            Some(acc) => {
                if 1 <= acc && acc <= MAX_TRACK_COUNT as u64 {
                    Ok(BoundedTrackCount { count: acc as u16 })
                } else {
                    Err(
                        ValidationError::OutOfRange(
                            raw.to_owned(),
                            1,
                            MAX_TRACK_COUNT as i32,
                        ),
                    )
                }
            },
        }
    }

    /// The validated number of tracks.
    pub fn value(&self) -> (r: u16)
        ensures
            r == self.count,
    {
        self.count
    }
}

/// A release year, guaranteed to lie in `MIN_RELEASE_YEAR ..=` the calendar
/// year that was current when it was validated.
#[derive(Debug)]
pub struct BoundedReleaseYear {
    pub year: i32,
}

impl BoundedReleaseYear {
    /// The invariant every constructed value satisfies.  The upper bound is
    /// checked against the year current at validation time, which is not a
    /// timeless property; only the lower bound persists.
    pub open spec fn wf(&self) -> bool {
        MIN_RELEASE_YEAR <= self.year
    }

    /// Validates a raw release year against the calendar year current at the
    /// call, supplied by the caller: trims the input, reads it as a decimal
    /// integer, and checks the bounds.  Succeeds exactly on integers from
    /// `MIN_RELEASE_YEAR` through `current_year`.
    pub fn parse(raw: &str, current_year: i32) -> (r: Result<BoundedReleaseYear, ValidationError>)
        ensures
            r is Ok <==> is_signed_dec(trim_spec(raw@)) && MIN_RELEASE_YEAR <= signed_value(
                trim_spec(raw@),
            ) <= current_year,
            r matches Ok(y) ==> y.year == signed_value(trim_spec(raw@)) && y.wf() && y.year
                <= current_year,
            r matches Err(e) ==> if !is_signed_dec(trim_spec(raw@)) {
                e matches ValidationError::NotANumber(inp) && inp@ == raw@
            } else {
                e matches ValidationError::OutOfRange(inp, lo, hi) && inp@ == raw@ && lo
                    == MIN_RELEASE_YEAR && hi == current_year
            },
    {
        let v = to_chars(raw);
        let (i, j) = trim_bounds(&v);
        let ghost t = trim_spec(raw@);
        let negative = i < j && v[i] == '-';
        let start: usize = if i < j && (v[i] == '+' || v[i] == '-') {
            i + 1
        } else {
            i
        };
        proof {
            if t.len() > 0 && (t[0] == '+' || t[0] == '-') {
                assert(t.drop_first() =~= v@.subrange(start as int, j as int));
            } else {
                assert(t =~= v@.subrange(start as int, j as int));
            }
        }
        match scan_digits(&v, start, j) {
            None => Err(ValidationError::NotANumber(raw.to_owned())),
            Some(acc) => {
                if !negative && MIN_RELEASE_YEAR as u64 <= acc && current_year >= MIN_RELEASE_YEAR
                    && acc <= current_year as u64 {
                    Ok(BoundedReleaseYear { year: acc as i32 })
                } else {
                    Err(
                        ValidationError::OutOfRange(
                            raw.to_owned(),
                            MIN_RELEASE_YEAR,
                            current_year,
                        ),
                    )
                }
            },
        }
    }

    /// The validated year.
    pub fn value(&self) -> (r: i32)
        ensures
            r == self.year,
    {
        self.year
    }
}

/// `n` rendered as exactly two decimal digits, zero-padded.
pub open spec fn pad2(n: nat) -> Seq<char> {
    if n < 10 {
        seq!['0'] + dec_str(n)
    } else {
        dec_str(n)
    }
}

/// `n` rendered as exactly four decimal digits, zero-padded.
pub open spec fn pad4(n: nat) -> Seq<char> {
    if n < 10 {
        seq!['0', '0', '0'] + dec_str(n)
    } else if n < 100 {
        seq!['0', '0'] + dec_str(n)
    } else if n < 1000 {
        seq!['0'] + dec_str(n)
    } else {
        dec_str(n)
    }
}

/// Appends [`pad2`]`(n)` to `out`.
fn push_pad2(out: &mut String, n: u8)
    requires
        n < 100,
    ensures
        final(out)@ == old(out)@ + pad2(n as nat),
{
    if n < 10 {
        push_char(out, '0');
    }
    push_dec(out, n as u64);
    assert(final(out)@ =~= old(out)@ + pad2(n as nat));
}

/// Appends [`pad4`]`(n)` to `out`.
fn push_pad4(out: &mut String, n: i32)
    requires
        0 <= n <= 9999,
    ensures
        final(out)@ == old(out)@ + pad4(n as nat),
{
    if n < 10 {
        out.append("000");
        proof {
            reveal_strlit("000");
        }
    } else if n < 100 {
        out.append("00");
        proof {
            reveal_strlit("00");
        }
    } else if n < 1000 {
        out.append("0");
        proof {
            reveal_strlit("0");
        }
    }
    push_dec(out, n as u64);
    assert(final(out)@ =~= old(out)@ + pad4(n as nat));
}

/// The instant at which a record was constructed, kept as plain UTC calendar
/// and clock fields and rendered as `YYYY-MM-DD HH:MM:SS`.
#[derive(Clone, Copy, PartialEq, Eq, Structural, Debug)]
pub struct Timestamp {
    pub year: i32,
    pub month: u8,
    pub day: u8,
    pub hour: u8,
    pub minute: u8,
    pub second: u8,
}

impl Timestamp {
    /// The invariant every constructed value satisfies.
    pub open spec fn wf(&self) -> bool {
        &&& 0 <= self.year <= 9999
    &&& 1 <= self.month <= 12
    &&& 1 <= self.day <= 31
    &&& self.hour < 24
    &&& self.minute < 60
    &&& self.second < 60
    }

    /// Builds a timestamp from plain field values, accepting exactly the
    /// combinations the invariant allows.
    pub fn from_parts(year: i32, month: u32, day: u32, hour: u32, minute: u32, second: u32) -> (r:
        Option<Timestamp>)
        ensures
            r is Some <==> 0 <= year <= 9999 && 1 <= month <= 12 && 1 <= day <= 31 && hour < 24
                && minute < 60 && second < 60,
            r matches Some(t) ==> t.wf() && t.year == year && t.month == month && t.day == day
                && t.hour == hour && t.minute == minute && t.second == second,
    {
        if 0 <= year && year <= 9999 && 1 <= month && month <= 12 && 1 <= day && day <= 31 && hour
            < 24 && minute < 60 && second < 60 {
            Some(
                Timestamp {
                    year,
                    month: month as u8,
                    day: day as u8,
                    hour: hour as u8,
                    minute: minute as u8,
                    second: second as u8,
                },
            )
        } else {
            None
        }
    }

    /// This timestamp in the storage format `YYYY-MM-DD HH:MM:SS`.
    pub open spec fn render_spec(&self) -> Seq<char> {
        pad4(self.year as nat) + seq!['-'] + pad2(self.month as nat) + seq!['-'] + pad2(
            self.day as nat,
        ) + seq![' '] + pad2(self.hour as nat) + seq![':'] + pad2(self.minute as nat) + seq![':']
            + pad2(self.second as nat)
    }

    /// Renders [`Self::render_spec`].
    pub fn render(&self) -> (r: String)
        requires
            self.wf(),
        ensures
            r@ == self.render_spec(),
    {
        let mut out = String::new();
        push_pad4(&mut out, self.year);
        push_char(&mut out, '-');
        push_pad2(&mut out, self.month);
        push_char(&mut out, '-');
        push_pad2(&mut out, self.day);
        push_char(&mut out, ' ');
        push_pad2(&mut out, self.hour);
        push_char(&mut out, ':');
        push_pad2(&mut out, self.minute);
        push_char(&mut out, ':');
        push_pad2(&mut out, self.second);
        assert(out@ =~= self.render_spec());
        out
    }
}

/// One validated album entry, ready for storage.  Created only through
/// [`Record::create`]; the timestamp is fixed at construction and never
/// changes afterwards.
#[derive(Debug)]
pub struct Record {
    pub name: ValidatedText,
    pub artist: ValidatedText,
    pub tracks: BoundedTrackCount,
    pub release_year: BoundedReleaseYear,
    pub added_at: Timestamp,
}

impl Record {
    /// The invariant every constructed record satisfies.
    pub open spec fn wf(&self) -> bool {
        &&& self.name.wf()
    &&& self.artist.wf()
    &&& self.tracks.wf()
    &&& self.release_year.wf()
    &&& self.added_at.wf()
    }

    /// Combines already-validated fields and the construction instant into a
    /// record.  Cannot fail.
    pub fn create(
        name: ValidatedText,
        artist: ValidatedText,
        tracks: BoundedTrackCount,
        release_year: BoundedReleaseYear,
        added_at: Timestamp,
    ) -> (r: Record)
        requires
            name.wf(),
            artist.wf(),
            tracks.wf(),
            release_year.wf(),
            added_at.wf(),
        ensures
            r.wf(),
            r.name == name,
            r.artist == artist,
            r.tracks == tracks,
            r.release_year == release_year,
            r.added_at == added_at,
    {
        Record { name, artist, tracks, release_year, added_at }
    }

    /// The storage serialization: the five fields joined by single tabs, in
    /// the fixed order artist, name, track count, release year, timestamp.
    pub open spec fn tsv_spec(&self) -> Seq<char> {
        self.artist@ + seq!['\t'] + self.name@ + seq!['\t'] + dec_str(self.tracks.count as nat)
            + seq!['\t'] + dec_str(self.release_year.year as nat) + seq!['\t']
            + self.added_at.render_spec()
    }

    /// Renders [`Self::tsv_spec`].
    pub fn to_tsv_entry(&self) -> (r: String)
        requires
            self.wf(),
        ensures
            r@ == self.tsv_spec(),
    {
        let mut out = String::new();
        out.append(self.artist.text.as_str());
        push_char(&mut out, '\t');
        out.append(self.name.text.as_str());
        push_char(&mut out, '\t');
        push_dec(&mut out, self.tracks.count as u64);
        push_char(&mut out, '\t');
        push_dec(&mut out, self.release_year.year as u64);
        push_char(&mut out, '\t');
        let ts = self.added_at.render();
        out.append(ts.as_str());
        assert(out@ =~= self.tsv_spec());
        out
    }

    /// The line appended to the storage file: the serialization followed by a
    /// single newline.
    pub fn storage_line(&self) -> (r: String)
        requires
            self.wf(),
        ensures
            r@ == self.tsv_spec().push('\n'),
    {
        let mut out = self.to_tsv_entry();
        push_char(&mut out, '\n');
        out
    }

    /// The human-readable multi-line presentation of this record.
    pub open spec fn display_spec(&self) -> Seq<char> {
        "Album\n{\n    name:       "@ + self.name@ + "\n    artist:     "@ + self.artist@
            + "\n    tracks:     "@ + dec_str(self.tracks.count as nat) + "\n    released:   "@
            + dec_str(self.release_year.year as nat) + "\n    added:      "@
            + self.added_at.render_spec() + "\n}"@
    }

    /// Renders [`Self::display_spec`].
    pub fn display_string(&self) -> (r: String)
        requires
            self.wf(),
        ensures
            r@ == self.display_spec(),
    {
        let mut out = String::new();
        out.append("Album\n{\n    name:       ");
        out.append(self.name.text.as_str());
        out.append("\n    artist:     ");
        out.append(self.artist.text.as_str());
        out.append("\n    tracks:     ");
        push_dec(&mut out, self.tracks.count as u64);
        out.append("\n    released:   ");
        push_dec(&mut out, self.release_year.year as u64);
        out.append("\n    added:      ");
        let ts = self.added_at.render();
        out.append(ts.as_str());
        out.append("\n}");
        assert(out@ =~= self.display_spec());
        out
    }
}

/// Whether `s` has the shape `YYYY-MM-DD HH:MM:SS`: nineteen characters,
/// separators at their fixed places and decimal digits everywhere else.
pub open spec fn timestamp_shaped(s: Seq<char>) -> bool {
    &&& s.len() == 19
    &&& forall|k: int|
        0 <= k < 19 ==> (if k == 4 || k == 7 {
            s[k] == '-'
        } else if k == 10 {
            s[k] == ' '
        } else if k == 13 || k == 16 {
            s[k] == ':'
        } else {
            crate::text::spec_is_digit(s[k])
        })
}

proof fn lemma_pad2_shape(n: nat)
    requires
        n < 100,
    ensures
        pad2(n).len() == 2,
        all_digits(pad2(n)),
{
    crate::text::lemma_dec_str_len(n);
    crate::text::lemma_dec_str_digits(n);
}

proof fn lemma_pad4_shape(n: nat)
    requires
        n < 10000,
    ensures
        pad4(n).len() == 4,
        all_digits(pad4(n)),
{
    crate::text::lemma_dec_str_len(n);
    crate::text::lemma_dec_str_digits(n);
}

/// Law: every well-formed timestamp renders in the shape
/// `YYYY-MM-DD HH:MM:SS`.
pub proof fn lemma_render_shape(t: Timestamp)
    requires
        t.wf(),
    ensures
        timestamp_shaped(t.render_spec()),
{
    lemma_pad4_shape(t.year as nat);
    lemma_pad2_shape(t.month as nat);
    lemma_pad2_shape(t.day as nat);
    lemma_pad2_shape(t.hour as nat);
    lemma_pad2_shape(t.minute as nat);
    lemma_pad2_shape(t.second as nat);
}

/// No character of a timestamp-shaped string is a tab.
proof fn lemma_shaped_no_tab(s: Seq<char>)
    requires
        timestamp_shaped(s),
    ensures
        count_char(s, '\t') == 0,
{
    assert(forall|k: int| 0 <= k < s.len() ==> s[k] != '\t');
    crate::text::lemma_count_absent(s, '\t');
}

/// Law: the storage serialization of a well-formed record is one line with
/// exactly four tab characters, ending in a timestamp of the shape
/// `YYYY-MM-DD HH:MM:SS`; the record's fields can never corrupt that frame.
pub proof fn lemma_entry_shape(r: Record)
    requires
        r.wf(),
    ensures
        count_char(r.tsv_spec(), '\t') == 4,
        r.tsv_spec().len() >= 19,
        timestamp_shaped(r.tsv_spec().subrange(r.tsv_spec().len() - 19, r.tsv_spec().len() as int)),
{
    let tab = seq!['\t'];
    let tracks = dec_str(r.tracks.count as nat);
    let year = dec_str(r.release_year.year as nat);
    let ts = r.added_at.render_spec();
    crate::text::lemma_count_absent(r.artist@, '\t');
    crate::text::lemma_count_absent(r.name@, '\t');
    crate::text::lemma_dec_str_digits(r.tracks.count as nat);
    crate::text::lemma_dec_str_digits(r.release_year.year as nat);
    assert(forall|k: int| 0 <= k < tracks.len() ==> tracks[k] != '\t');
    assert(forall|k: int| 0 <= k < year.len() ==> year[k] != '\t');
    crate::text::lemma_count_absent(tracks, '\t');
    crate::text::lemma_count_absent(year, '\t');
    lemma_render_shape(r.added_at);
    lemma_shaped_no_tab(ts);
    assert(tab.drop_last() =~= Seq::<char>::empty());
    assert(count_char(Seq::<char>::empty(), '\t') == 0);
    assert(tab.last() == '\t');
    assert(count_char(tab, '\t') == 1);
    let p1 = r.artist@ + tab;
    let p2 = p1 + r.name@;
    let p3 = p2 + tab;
    let p4 = p3 + tracks;
    let p5 = p4 + tab;
    let p6 = p5 + year;
    let p7 = p6 + tab;
    crate::text::lemma_count_concat(r.artist@, tab, '\t');
    crate::text::lemma_count_concat(p1, r.name@, '\t');
    crate::text::lemma_count_concat(p2, tab, '\t');
    crate::text::lemma_count_concat(p3, tracks, '\t');
    crate::text::lemma_count_concat(p4, tab, '\t');
    crate::text::lemma_count_concat(p5, year, '\t');
    crate::text::lemma_count_concat(p6, tab, '\t');
    crate::text::lemma_count_concat(p7, ts, '\t');
    assert(r.tsv_spec() =~= p7 + ts);
    assert(r.tsv_spec().subrange(r.tsv_spec().len() - 19, r.tsv_spec().len() as int) =~= ts);
}

} // verus!
