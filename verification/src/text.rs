//! Character-level helpers shared by the validated value types: whitespace
//! trimming, tab replacement, decimal scanning and decimal rendering, all
//! specified over `Seq<char>`.

use vstd::prelude::*;
use vstd::string::StrSliceExecFns;

verus! {

/// Whether `c` has the Unicode `White_Space` property, the set of characters
/// that `str::trim` removes.
pub open spec fn spec_is_space(c: char) -> bool {
    let u = c as u32;
    (9 <= u <= 13) || u == 32 || u == 0x85 || u == 0xA0 || u == 0x1680 || (0x2000 <= u <= 0x200A)
        || u == 0x2028 || u == 0x2029 || u == 0x202F || u == 0x205F || u == 0x3000
}

/// Runtime test for [`spec_is_space`].
#[verifier::when_used_as_spec(spec_is_space)]
pub fn is_space(c: char) -> (r: bool)
    ensures
        r == spec_is_space(c),
{
    let u = c as u32;
    (9 <= u && u <= 13) || u == 32 || u == 0x85 || u == 0xA0 || u == 0x1680 || (0x2000 <= u && u
        <= 0x200A) || u == 0x2028 || u == 0x2029 || u == 0x202F || u == 0x205F || u == 0x3000
}

/// Whether `c` is an ASCII decimal digit.
pub open spec fn spec_is_digit(c: char) -> bool {
    48 <= c as u32 <= 57
}

/// Runtime test for [`spec_is_digit`].
#[verifier::when_used_as_spec(spec_is_digit)]
pub fn is_digit(c: char) -> (r: bool)
    ensures
        r == spec_is_digit(c),
{
    let u = c as u32;
    48 <= u && u <= 57
}

/// Numeric value of an ASCII decimal digit.
pub open spec fn digit_val(c: char) -> nat {
    (c as u32 - 48) as nat
}

/// The characters of `s`, collected into a vector.
pub fn to_chars(s: &str) -> (r: Vec<char>)
    ensures
        r@ == s@,
{
    let n = s.unicode_len();
    let mut r: Vec<char> = Vec::new();
    let mut i: usize = 0;
    while i < n
        invariant
            n == s@.len(),
            i <= n,
            r@ == s@.subrange(0, i as int),
        decreases n - i,
    {
        r.push(s.get_char(i));
        i = i + 1;
        assert(r@ =~= s@.subrange(0, i as int));
    }
    assert(r@ =~= s@);
    r
}

/// `s` with its leading whitespace removed.
pub open spec fn trim_start_spec(s: Seq<char>) -> Seq<char>
    decreases s.len(),
{
    if s.len() > 0 && spec_is_space(s[0]) {
        trim_start_spec(s.drop_first())
    } else {
        s
    }
}

/// `s` with its trailing whitespace removed.
pub open spec fn trim_end_spec(s: Seq<char>) -> Seq<char>
    decreases s.len(),
{
    if s.len() > 0 && spec_is_space(s.last()) {
        trim_end_spec(s.drop_last())
    } else {
        s
    }
}

/// `s` with leading and trailing whitespace removed, as `str::trim` leaves it.
pub open spec fn trim_spec(s: Seq<char>) -> Seq<char> {
    trim_end_spec(trim_start_spec(s))
}

/// `s` with every tab character replaced by a single space.
pub open spec fn detab_spec(s: Seq<char>) -> Seq<char> {
    s.map_values(|c: char| if c == '\t' { ' ' } else { c })
}

/// If the first `i` characters of `s` are whitespace and the character at `i`
/// (if any) is not, then trimming the start of `s` keeps exactly `s[i..]`.
proof fn lemma_trim_start_at(s: Seq<char>, i: int)
    requires
        0 <= i <= s.len(),
        forall|k: int| 0 <= k < i ==> spec_is_space(s[k]),
        i < s.len() ==> !spec_is_space(s[i]),
    ensures
        trim_start_spec(s) == s.subrange(i, s.len() as int),
    decreases i,
{
    if i == 0 {
        assert(trim_start_spec(s) =~= s.subrange(0, s.len() as int));
    } else {
        lemma_trim_start_at(s.drop_first(), i - 1);
        assert(s.drop_first().subrange(i - 1, s.drop_first().len() as int) =~= s.subrange(
            i,
            s.len() as int,
        ));
    }
}

/// If the characters of `s` from `j` on are whitespace and the character at
/// `j - 1` (if any) is not, then trimming the end of `s` keeps exactly `s[..j]`.
proof fn lemma_trim_end_at(s: Seq<char>, j: int)
    requires
        0 <= j <= s.len(),
        forall|k: int| j <= k < s.len() ==> spec_is_space(s[k]),
        j > 0 ==> !spec_is_space(s[j - 1]),
    ensures
        trim_end_spec(s) == s.subrange(0, j),
    decreases s.len() - j,
{
    if j == s.len() {
        assert(trim_end_spec(s) =~= s.subrange(0, j));
    } else {
        assert(spec_is_space(s.last()));
        lemma_trim_end_at(s.drop_last(), j);
        assert(s.drop_last().subrange(0, j) =~= s.subrange(0, j));
    }
}

/// The bounds of the trimmed core of `v`: the pair `(i, j)` such that
/// `v[i..j]` is `v` without its leading and trailing whitespace.
pub fn trim_bounds(v: &Vec<char>) -> (r: (usize, usize))
    ensures
        r.0 <= r.1 <= v@.len(),
        trim_spec(v@) == v@.subrange(r.0 as int, r.1 as int),
        forall|k: int| 0 <= k < r.0 ==> spec_is_space(v@[k]),
        forall|k: int| r.1 <= k < v@.len() ==> spec_is_space(v@[k]),
        r.0 < r.1 ==> !spec_is_space(v@[r.0 as int]) && !spec_is_space(v@[r.1 - 1]),
        (r.0 == r.1) <==> (forall|k: int| 0 <= k < v@.len() ==> spec_is_space(v@[k])),
{
    let n = v.len();
    let mut i: usize = 0;
    while i < n && is_space(v[i])
        invariant
            i <= n == v@.len(),
            forall|k: int| 0 <= k < i ==> spec_is_space(v@[k]),
        decreases n - i,
    {
        i = i + 1;
    }
    if i == n {
        proof {
            lemma_trim_start_at(v@, n as int);
            assert(trim_spec(v@) =~= v@.subrange(n as int, n as int));
        }
        return (n, n);
    }
    let mut j: usize = n;
    while j > i && is_space(v[j - 1])
        invariant
            i <= j <= n == v@.len(),
            forall|k: int| j <= k < v@.len() ==> spec_is_space(v@[k]),
        decreases j,
    {
        j = j - 1;
    }
    // the scan down from the end stops at the non-space character found by the
    // first scan, so the core is non-empty
    assert(!spec_is_space(v@[i as int]));
    assert(j > i);
    proof {
        lemma_trim_start_at(v@, i as int);
        let t = v@.subrange(i as int, v@.len() as int);
        lemma_trim_end_at(t, j - i);
        assert(t.subrange(0, j - i) =~= v@.subrange(i as int, j as int));
    }
    (i, j)
}

/// Whether every character of `s` is an ASCII decimal digit.
pub open spec fn all_digits(s: Seq<char>) -> bool {
    forall|k: int| 0 <= k < s.len() ==> spec_is_digit(s[k])
}

/// The number denoted by the digit string `s` (0 for the empty string).
pub open spec fn dec_value(s: Seq<char>) -> nat
    decreases s.len(),
{
    if s.len() == 0 {
        0
    } else {
        dec_value(s.drop_last()) * 10 + digit_val(s.last())
    }
}

/// Scans `v[from..to]` as a digit string.  Returns `None` unless that range is
/// non-empty and all digits; otherwise returns an accumulator that equals the
/// denoted value exactly whenever that value fits in 32 bits, and exceeds
/// `u32::MAX` whenever the denoted value does.
pub fn scan_digits(v: &Vec<char>, from: usize, to: usize) -> (r: Option<u64>)
    requires
        from <= to <= v@.len(),
    ensures
        ({
            let t = v@.subrange(from as int, to as int);
            match r {
                Some(acc) => {
                    &&& t.len() > 0
                    &&& all_digits(t)
                    &&& dec_value(t) <= u32::MAX ==> acc == dec_value(t)
                    &&& dec_value(t) > u32::MAX ==> acc > u32::MAX
                },
                None => !(t.len() > 0 && all_digits(t)),
            }
        }),
{
    let ghost t = v@.subrange(from as int, to as int);
    if from == to {
        return None;
    }
    let mut acc: u64 = 0;
    let mut k: usize = from;
    while k < to
        invariant
            from <= k <= to <= v@.len(),
            t == v@.subrange(from as int, to as int),
            all_digits(v@.subrange(from as int, k as int)),
            dec_value(v@.subrange(from as int, k as int)) <= u32::MAX ==> acc == dec_value(
                v@.subrange(from as int, k as int),
            ),
            dec_value(v@.subrange(from as int, k as int)) > u32::MAX ==> acc > u32::MAX,
            acc <= 0xFFFF_FFFF * 10 + 9,
        decreases to - k,
    {
        let c = v[k];
        if !is_digit(c) {
            proof {
                assert(t[k - from] == c);
            }
            return None;
        }
        assert(48 <= c as u32 <= 57);
        let d: u64 = (c as u32 - 48) as u64;
        proof {
            let pre = v@.subrange(from as int, k as int);
            let post = v@.subrange(from as int, k + 1);
            assert(post.drop_last() =~= pre);
            assert(post.last() == c);
            assert(dec_value(post) == dec_value(pre) * 10 + digit_val(c));
        }
        if acc <= 0xFFFF_FFFF {
            acc = acc * 10 + d;
        }
        k = k + 1;
    }
    assert(v@.subrange(from as int, k as int) =~= t);
    Some(acc)
}

/// The ASCII character for the digit `d`.
pub open spec fn digit_char(d: nat) -> char {
    if d == 0 {
        '0'
    } else if d == 1 {
        '1'
    } else if d == 2 {
        '2'
    } else if d == 3 {
        '3'
    } else if d == 4 {
        '4'
    } else if d == 5 {
        '5'
    } else if d == 6 {
        '6'
    } else if d == 7 {
        '7'
    } else if d == 8 {
        '8'
    } else {
        '9'
    }
}

/// The decimal digit string of `n`, without sign or padding.
pub open spec fn dec_str(n: nat) -> Seq<char>
    decreases n,
{
    if n < 10 {
        seq![digit_char(n)]
    } else {
        dec_str(n / 10).push(digit_char(n % 10))
    }
}

/// The decimal rendering of a signed number: a minus sign in front of the
/// digits of its magnitude.
pub open spec fn dec_str_i32(n: int) -> Seq<char> {
    if n >= 0 {
        dec_str(n as nat)
    } else {
        seq!['-'] + dec_str((-n) as nat)
    }
}

/// The digit string of `t` with an optional leading plus sign allowed.
pub open spec fn unsigned_body(t: Seq<char>) -> Seq<char> {
    if t.len() > 0 && t[0] == '+' {
        t.drop_first()
    } else {
        t
    }
}

/// Whether `t` denotes a non-negative decimal number: at least one digit,
/// preceded at most by a plus sign.
pub open spec fn is_unsigned_dec(t: Seq<char>) -> bool {
    unsigned_body(t).len() > 0 && all_digits(unsigned_body(t))
}

/// The digit string of `t` with an optional leading sign allowed.
pub open spec fn signed_body(t: Seq<char>) -> Seq<char> {
    if t.len() > 0 && (t[0] == '+' || t[0] == '-') {
        t.drop_first()
    } else {
        t
    }
}

/// Whether `t` denotes a decimal integer: at least one digit, preceded at
/// most by one sign character.
pub open spec fn is_signed_dec(t: Seq<char>) -> bool {
    signed_body(t).len() > 0 && all_digits(signed_body(t))
}

/// The integer denoted by `t`, negative when `t` starts with a minus sign.
pub open spec fn signed_value(t: Seq<char>) -> int {
    if t.len() > 0 && t[0] == '-' {
        -(dec_value(signed_body(t)) as int)
    } else {
        dec_value(signed_body(t)) as int
    }
}

/// Relies on `String::push` from std: appends the given character to the
/// string, and nothing else.
#[verifier::external_body]
pub fn push_char(out: &mut String, c: char)
    ensures
        final(out)@ == old(out)@.push(c),
{
    out.push(c);
}

/// Appends the digit character for `d` to `out`.
fn push_digit(out: &mut String, d: u64)
    requires
        d < 10,
    ensures
        final(out)@ == old(out)@.push(digit_char(d as nat)),
{
    let c: char = if d == 0 {
        '0'
    } else if d == 1 {
        '1'
    } else if d == 2 {
        '2'
    } else if d == 3 {
        '3'
    } else if d == 4 {
        '4'
    } else if d == 5 {
        '5'
    } else if d == 6 {
        '6'
    } else if d == 7 {
        '7'
    } else if d == 8 {
        '8'
    } else {
        '9'
    };
    push_char(out, c);
}

/// Appends the decimal digit string of `n` to `out`.
pub fn push_dec(out: &mut String, n: u64)
    ensures
        final(out)@ == old(out)@ + dec_str(n as nat),
    decreases n,
{
    if n < 10 {
        push_digit(out, n);
        assert(old(out)@.push(digit_char(n as nat)) =~= old(out)@ + dec_str(n as nat));
    } else {
        push_dec(out, n / 10);
        push_digit(out, n % 10);
        assert((old(out)@ + dec_str((n / 10) as nat)).push(digit_char((n % 10) as nat)) =~= old(
            out,
        )@ + dec_str(n as nat));
    }
}

/// Appends the decimal rendering of the signed number `n` to `out`.
pub fn push_dec_i32(out: &mut String, n: i32)
    ensures
        final(out)@ == old(out)@ + dec_str_i32(n as int),
{
    if n >= 0 {
        push_dec(out, n as u64);
    } else {
        push_char(out, '-');
        let m: i64 = -(n as i64);
        push_dec(out, m as u64);
        assert(old(out)@.push('-') + dec_str((-(n as int)) as nat) =~= old(out)@ + dec_str_i32(
            n as int,
        ));
    }
}

/// How many times the character `c` occurs in `s`.
pub open spec fn count_char(s: Seq<char>, c: char) -> nat
    decreases s.len(),
{
    if s.len() == 0 {
        0
    } else {
        count_char(s.drop_last(), c) + (if s.last() == c {
            1nat
        } else {
            0nat
        })
    }
}

/// Occurrences in a concatenation are the sums of the occurrences.
pub proof fn lemma_count_concat(a: Seq<char>, b: Seq<char>, c: char)
    ensures
        count_char(a + b, c) == count_char(a, c) + count_char(b, c),
    decreases b.len(),
{
    if b.len() == 0 {
        assert(a + b =~= a);
    } else {
        lemma_count_concat(a, b.drop_last(), c);
        assert((a + b).drop_last() =~= a + b.drop_last());
        assert((a + b).last() == b.last());
    }
}

/// A string without `c` has zero occurrences of it.
pub proof fn lemma_count_absent(s: Seq<char>, c: char)
    requires
        forall|k: int| 0 <= k < s.len() ==> s[k] != c,
    ensures
        count_char(s, c) == 0,
    decreases s.len(),
{
    if s.len() > 0 {
        lemma_count_absent(s.drop_last(), c);
    }
}

/// Every character of a decimal digit string is a digit.
pub proof fn lemma_dec_str_digits(n: nat)
    ensures
        all_digits(dec_str(n)),
    decreases n,
{
    if n >= 10 {
        lemma_dec_str_digits(n / 10);
    }
}

/// How long the digit string of `n` is, for the magnitudes this crate renders.
pub proof fn lemma_dec_str_len(n: nat)
    ensures
        dec_str(n).len() >= 1,
        n < 10 ==> dec_str(n).len() == 1,
        10 <= n < 100 ==> dec_str(n).len() == 2,
        100 <= n < 1000 ==> dec_str(n).len() == 3,
        1000 <= n < 10000 ==> dec_str(n).len() == 4,
    decreases n,
{
    if n >= 10 {
        lemma_dec_str_len(n / 10);
    }
}

} // verus!
