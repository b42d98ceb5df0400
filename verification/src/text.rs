//! Verified text utilities over character sequences.
//!
//! The timetable page hands the extractor small pieces of text (labels,
//! inner markup of cells); everything here states and proves exactly how
//! those pieces are tokenized, parsed and re-rendered. Numeric parsing
//! mirrors Rust's integer `from_str` (optional sign, decimal digits,
//! overflow is a failure); `parse_hhmm` mirrors a strict `HH:MM` clock
//! reading (whitespace allowed before each number, one or two digits each,
//! nothing after the minutes).

use vstd::prelude::*;

verus! {

/// The Unicode whitespace characters (the `White_Space` property).
pub open spec fn is_ws_char(c: char) -> bool {
    ||| (0x09 <= c as u32 && c as u32 <= 0x0D)
    ||| c as u32 == 0x20
    ||| c as u32 == 0x85
    ||| c as u32 == 0xA0
    ||| c as u32 == 0x1680
    ||| (0x2000 <= c as u32 && c as u32 <= 0x200A)
    ||| c as u32 == 0x2028
    ||| c as u32 == 0x2029
    ||| c as u32 == 0x202F
    ||| c as u32 == 0x205F
    ||| c as u32 == 0x3000
}

/// Runtime test for [`is_ws_char`].
pub fn is_ws(c: char) -> (r: bool)
    ensures
        r == is_ws_char(c),
{
    let u = c as u32;
    (0x09 <= u && u <= 0x0D) || u == 0x20 || u == 0x85 || u == 0xA0 || u == 0x1680 || (0x2000 <= u
        && u <= 0x200A) || u == 0x2028 || u == 0x2029 || u == 0x202F || u == 0x205F || u == 0x3000
}

/// ASCII decimal digits.
pub open spec fn is_digit(c: char) -> bool {
    0x30 <= c as u32 && c as u32 <= 0x39
}

/// Numeric value of an ASCII digit.
pub open spec fn digit_val(c: char) -> int {
    c as u32 - 0x30
}

/// Every character of `s` is an ASCII digit.
pub open spec fn all_digits(s: Seq<char>) -> bool {
    forall|i: int| 0 <= i < s.len() ==> is_digit(#[trigger] s[i])
}

/// Value of a digit string read in base ten.
pub open spec fn digits_val(s: Seq<char>) -> int
    decreases s.len(),
{
    if s.len() == 0 {
        0
    } else {
        digits_val(s.drop_last()) * 10 + digit_val(s.last())
    }
}

/// A digit string never has a negative value.
pub proof fn lemma_digits_val_nonneg(s: Seq<char>)
    requires
        all_digits(s),
    ensures
        digits_val(s) >= 0,
    decreases s.len(),
{
    if s.len() > 0 {
        assert(all_digits(s.drop_last()));
        lemma_digits_val_nonneg(s.drop_last());
    }
}

/// Reading only a prefix of a digit string never reads a larger value.
pub proof fn lemma_digits_val_prefix_le(s: Seq<char>, i: int)
    requires
        all_digits(s),
        0 <= i <= s.len(),
    ensures
        digits_val(s.take(i)) <= digits_val(s),
    decreases s.len(),
{
    if i < s.len() {
        assert(all_digits(s.drop_last()));
        assert(s.take(i) =~= s.drop_last().take(i));
        lemma_digits_val_prefix_le(s.drop_last(), i);
        lemma_digits_val_nonneg(s.drop_last());
    } else {
        assert(s.take(i) =~= s);
    }
}

/// The digits of `s` read as an unsigned integer no greater than `max`,
/// after an optional leading `+`; any other shape is a failure.
pub open spec fn spec_parse_uint(s: Seq<char>, max: int) -> Option<int> {
    if s.len() >= 1 && s[0] == '+' {
        spec_parse_digits(s.drop_first(), max)
    } else {
        spec_parse_digits(s, max)
    }
}

/// A non-empty all-digit string with value at most `max`.
pub open spec fn spec_parse_digits(s: Seq<char>, max: int) -> Option<int> {
    if s.len() > 0 && all_digits(s) && digits_val(s) <= max {
        Some(digits_val(s))
    } else {
        None
    }
}

/// `s` read as a signed integer in `min ..= max`, after an optional leading
/// `+` or `-`; any other shape is a failure.
pub open spec fn spec_parse_int(s: Seq<char>, min: int, max: int) -> Option<int> {
    if s.len() >= 1 && s[0] == '-' {
        let t = s.drop_first();
        if t.len() > 0 && all_digits(t) && -digits_val(t) >= min {
            Some(-digits_val(t))
        } else {
            None
        }
    } else {
        spec_parse_uint(s, max)
    }
}

/// Parses the digits of `v` starting at `from`, against a bound.
fn parse_digits_from(v: &Vec<char>, from: usize, max: u64) -> (r: Option<u64>)
    requires
        from <= v@.len(),
    ensures
        match r {
            Some(x) => spec_parse_digits(v@.skip(from as int), max as int) == Some(x as int),
            None => spec_parse_digits(v@.skip(from as int), max as int) is None,
        },
{
    let ghost s = v@.skip(from as int);
    if from == v.len() {
        return None;
    }
    let mut acc: u64 = 0;
    let mut i: usize = from;
    while i < v.len()
        invariant
            from <= i <= v@.len(),
            s == v@.skip(from as int),
            all_digits(s.take(i - from)),
            acc as int == digits_val(s.take(i - from)),
            acc <= max,
        decreases v@.len() - i,
    {
        let c = v[i];
        let u = c as u32;
        if !(0x30 <= u && u <= 0x39) {
            assert(s[i - from] == v@[i as int]);
            assert(!is_digit(s[i - from]));
            return None;
        }
        let d: u64 = (u - 0x30) as u64;
        let wide: u128 = acc as u128 * 10 + d as u128;
        proof {
            assert(s.take(i - from + 1).drop_last() =~= s.take(i - from));
            assert(s.take(i - from + 1).last() == s[i - from]);
            assert(s[i - from] == v@[i as int]);
        }
        if wide > max as u128 {
            proof {
                if all_digits(s) {
                    lemma_digits_val_prefix_le(s, i - from + 1);
                    assert(digits_val(s) >= digits_val(s.take(i - from + 1)));
                }
            }
            return None;
        }
        acc = wide as u64;
        i = i + 1;
    }
    proof {
        assert(s.take(v@.len() - from) =~= s);
    }
    Some(acc)
}

/// Reads `v` as an unsigned integer bounded by `max`, exactly as
/// [`spec_parse_uint`] describes.
pub fn parse_uint(v: &Vec<char>, max: u64) -> (r: Option<u64>)
    ensures
        match r {
            Some(x) => spec_parse_uint(v@, max as int) == Some(x as int),
            None => spec_parse_uint(v@, max as int) is None,
        },
{
    if v.len() >= 1 && v[0] == '+' {
        let r = parse_digits_from(v, 1, max);
        proof {
            assert(v@.skip(1) =~= v@.drop_first());
        }
        r
    } else {
        let r = parse_digits_from(v, 0, max);
        proof {
            assert(v@.skip(0) =~= v@);
        }
        r
    }
}

/// Reads `v` as a signed integer in `min ..= max`, exactly as
/// [`spec_parse_int`] describes.
pub fn parse_int(v: &Vec<char>, min: i64, max: i64) -> (r: Option<i64>)
    requires
        min <= 0 <= max,
    ensures
        match r {
            Some(x) => spec_parse_int(v@, min as int, max as int) == Some(x as int),
            None => spec_parse_int(v@, min as int, max as int) is None,
        },
{
    if v.len() >= 1 && v[0] == '-' {
        let mag = parse_digits_from(v, 1, (-(min as i128)) as u64);
        proof {
            assert(v@.skip(1) =~= v@.drop_first());
        }
        match mag {
            Some(x) => Some(-(x as i128) as i64),
            None => {
                proof {
                    let t = v@.drop_first();
                    if t.len() > 0 && all_digits(t) && -digits_val(t) >= min {
                        lemma_digits_val_nonneg(t);
                        assert(spec_parse_digits(t, -(min as int)) is Some);
                    }
                }
                None
            },
        }
    } else {
        match parse_uint(v, max as u64) {
            Some(x) => Some(x as i64),
            None => None,
        }
    }
}

/// The needle `pat` occurs in `s` at position `i`.
pub open spec fn matches_at(s: Seq<char>, pat: Seq<char>, i: int) -> bool {
    0 <= i && i + pat.len() <= s.len() && s.subrange(i, i + pat.len()) == pat
}

/// Position of the first occurrence of `pat` in `s`, if any.
pub open spec fn find_sub(s: Seq<char>, pat: Seq<char>) -> Option<int>
    decreases s.len(),
{
    if matches_at(s, pat, 0) {
        Some(0)
    } else if s.len() == 0 {
        None
    } else {
        match find_sub(s.drop_first(), pat) {
            Some(i) => Some(i + 1),
            None => None,
        }
    }
}

/// Occurrences shift by one under dropping the first character.
pub proof fn lemma_matches_at_shift(s: Seq<char>, pat: Seq<char>, i: int)
    requires
        s.len() > 0,
        i >= 1,
    ensures
        matches_at(s, pat, i) == matches_at(s.drop_first(), pat, i - 1),
{
    if i - 1 + pat.len() <= s.drop_first().len() {
        assert(s.subrange(i, i + pat.len()) =~= s.drop_first().subrange(i - 1, i - 1 + pat.len()));
    }
}

/// [`find_sub`] returns the least occurrence, and fails only when there is
/// none.
pub proof fn lemma_find_sub_char(s: Seq<char>, pat: Seq<char>)
    ensures
        match find_sub(s, pat) {
            Some(i) => matches_at(s, pat, i) && (forall|j: int| 0 <= j < i ==> !matches_at(s, pat, j)),
            None => forall|j: int| !matches_at(s, pat, j),
        },
    decreases s.len(),
{
    if matches_at(s, pat, 0) {
    } else if s.len() == 0 {
        assert forall|j: int| !matches_at(s, pat, j) by {
            if 0 <= j && j + pat.len() <= s.len() {
                assert(j == 0);
            }
        }
    } else {
        lemma_find_sub_char(s.drop_first(), pat);
        match find_sub(s.drop_first(), pat) {
            Some(i) => {
                lemma_matches_at_shift(s, pat, i + 1);
                assert forall|j: int| 0 <= j < i + 1 implies !matches_at(s, pat, j) by {
                    if j >= 1 {
                        lemma_matches_at_shift(s, pat, j);
                    }
                }
            },
            None => {
                assert forall|j: int| !matches_at(s, pat, j) by {
                    if j >= 1 {
                        lemma_matches_at_shift(s, pat, j);
                    }
                }
            },
        }
    }
}

/// Whether `pat` occurs in `v` at position `i`.
pub fn match_at(v: &Vec<char>, pat: &Vec<char>, i: usize) -> (r: bool)
    requires
        i + pat@.len() <= v@.len(),
    ensures
        r == matches_at(v@, pat@, i as int),
{
    let n = v.len();
    let mut j: usize = 0;
    while j < pat.len()
        invariant
            0 <= j <= pat@.len(),
            i + pat@.len() <= v@.len(),
            n == v@.len(),
            v@.subrange(i as int, i + j) =~= pat@.take(j as int),
        decreases pat@.len() - j,
    {
        if v[i + j] != pat[j] {
            proof {
                assert(v@.subrange(i as int, i + pat@.len())[j as int] != pat@[j as int]);
            }
            return false;
        }
        proof {
            assert(v@.subrange(i as int, i + j + 1) =~= pat@.take(j + 1));
        }
        j = j + 1;
    }
    proof {
        assert(pat@.take(pat@.len() as int) =~= pat@);
    }
    true
}

/// Position of the first occurrence of `pat` in `v`, exactly as
/// [`find_sub`] describes.
pub fn find_first(v: &Vec<char>, pat: &Vec<char>) -> (r: Option<usize>)
    requires
        pat@.len() > 0,
    ensures
        match r {
            Some(i) => find_sub(v@, pat@) == Some(i as int),
            None => find_sub(v@, pat@) is None,
        },
{
    proof {
        lemma_find_sub_char(v@, pat@);
    }
    if pat.len() > v.len() {
        return None;
    }
    let n = v.len();
    let bound = n - pat.len();
    let mut i: usize = 0;
    while i <= bound
        invariant
            pat@.len() <= v@.len(),
            n == v@.len(),
            bound == v@.len() - pat@.len(),
            pat@.len() > 0,
            bound < v@.len(),
            0 <= i <= bound + 1,
            forall|j: int| 0 <= j < i ==> !matches_at(v@, pat@, j),
        decreases bound + 1 - i,
    {
        if match_at(v, pat, i) {
            proof {
                lemma_find_sub_char(v@, pat@);
            }
            return Some(i);
        }
        i = i + 1;
    }
    None
}

/// The text before the first occurrence of `pat` (all of `s` when `pat`
/// does not occur): the first item of splitting on `pat`.
pub open spec fn split_part0(s: Seq<char>, pat: Seq<char>) -> Seq<char> {
    match find_sub(s, pat) {
        None => s,
        Some(i) => s.take(i),
    }
}

/// The text between the first occurrence of `pat` and the following one
/// (or the end): the second item of splitting on `pat`, absent when `pat`
/// does not occur.
pub open spec fn split_part1(s: Seq<char>, pat: Seq<char>) -> Option<Seq<char>> {
    match find_sub(s, pat) {
        None => None,
        Some(i) => Some(split_part0(s.skip(i + pat.len()), pat)),
    }
}

/// Copy of `v[from .. to]`.
pub fn subvec(v: &Vec<char>, from: usize, to: usize) -> (r: Vec<char>)
    requires
        from <= to <= v@.len(),
    ensures
        r@ == v@.subrange(from as int, to as int),
{
    let mut r: Vec<char> = Vec::new();
    let mut i: usize = from;
    while i < to
        invariant
            from <= i <= to <= v@.len(),
            r@ =~= v@.subrange(from as int, i as int),
        decreases to - i,
    {
        r.push(v[i]);
        proof {
            assert(r@ =~= v@.subrange(from as int, i + 1));
        }
        i = i + 1;
    }
    r
}

/// The first two items of splitting `v` on `pat`, exactly as
/// [`split_part0`] and [`split_part1`] describe.
pub fn split_two(v: &Vec<char>, pat: &Vec<char>) -> (r: (Vec<char>, Option<Vec<char>>))
    requires
        pat@.len() > 0,
    ensures
        r.0@ == split_part0(v@, pat@),
        match r.1 {
            Some(p) => split_part1(v@, pat@) == Some(p@),
            None => split_part1(v@, pat@) is None,
        },
{
    match find_first(v, pat) {
        None => {
            proof {
                assert(v@.subrange(0, v@.len() as int) =~= v@);
            }
            (subvec(v, 0, v.len()), None)
        },
        Some(i) => {
            proof {
                lemma_find_sub_char(v@, pat@);
            }
            let part0 = subvec(v, 0, i);
            let vlen = v.len();
            let rest = subvec(v, i + pat.len(), vlen);
            proof {
                assert(rest@ =~= v@.skip(i + pat@.len()));
            }
            let part1 = match find_first(&rest, pat) {
                None => {
                    proof {
                        assert(rest@.subrange(0, rest@.len() as int) =~= rest@);
                    }
                    subvec(&rest, 0, rest.len())
                },
                Some(j) => {
                    proof {
                        lemma_find_sub_char(rest@, pat@);
                    }
                    subvec(&rest, 0, j)
                },
            };
            (part0, Some(part1))
        },
    }
}

/// `s` with every occurrence of `pat` replaced by `rep`, scanning left to
/// right without overlap.
pub open spec fn replace_seq(s: Seq<char>, pat: Seq<char>, rep: Seq<char>) -> Seq<char>
    decreases s.len(),
{
    if s.len() == 0 {
        s
    } else if pat.len() > 0 && pat.len() <= s.len() && s.take(pat.len() as int) == pat {
        rep + replace_seq(s.skip(pat.len() as int), pat, rep)
    } else {
        seq![s[0]] + replace_seq(s.drop_first(), pat, rep)
    }
}

/// Replaces every occurrence of `pat` in `v` by `rep`, exactly as
/// [`replace_seq`] describes.
pub fn replace_all(v: &Vec<char>, pat: &Vec<char>, rep: &Vec<char>) -> (r: Vec<char>)
    requires
        pat@.len() > 0,
    ensures
        r@ == replace_seq(v@, pat@, rep@),
{
    let mut out: Vec<char> = Vec::new();
    let mut i: usize = 0;
    proof {
        assert(v@.skip(0) =~= v@);
        assert(Seq::<char>::empty() + replace_seq(v@, pat@, rep@) =~= replace_seq(v@, pat@, rep@));
    }
    while i < v.len()
        invariant
            0 <= i <= v@.len(),
            pat@.len() > 0,
            replace_seq(v@, pat@, rep@) == out@ + replace_seq(v@.skip(i as int), pat@, rep@),
        decreases v@.len() - i,
    {
        let ghost t = v@.skip(i as int);
        let ghost old_out = out@;
        if v.len() - i >= pat.len() && match_at(v, pat, i) {
            proof {
                assert(t.take(pat@.len() as int) =~= v@.subrange(i as int, i + pat@.len()));
                assert(t.skip(pat@.len() as int) =~= v@.skip(i + pat@.len()));
                assert(replace_seq(t, pat@, rep@) == rep@ + replace_seq(
                    v@.skip(i + pat@.len()),
                    pat@,
                    rep@,
                ));
            }
            let mut j: usize = 0;
            while j < rep.len()
                invariant
                    0 <= j <= rep@.len(),
                    out@ =~= old_out + rep@.take(j as int),
                decreases rep@.len() - j,
            {
                out.push(rep[j]);
                proof {
                    assert(out@ =~= old_out + rep@.take(j + 1));
                }
                j = j + 1;
            }
            proof {
                assert(out@ =~= old_out + rep@);
                assert(out@ + replace_seq(v@.skip(i + pat@.len()), pat@, rep@) =~= old_out
                    + replace_seq(t, pat@, rep@));
            }
            i = i + pat.len();
        } else {
            proof {
                assert(t[0] == v@[i as int]);
                assert(t.drop_first() =~= v@.skip(i + 1));
                if pat@.len() <= t.len() {
                    assert(t.take(pat@.len() as int) =~= v@.subrange(i as int, i + pat@.len()));
                }
                assert(replace_seq(t, pat@, rep@) == seq![t[0]] + replace_seq(
                    v@.skip(i + 1),
                    pat@,
                    rep@,
                ));
            }
            out.push(v[i]);
            proof {
                assert(out@ + replace_seq(v@.skip(i + 1), pat@, rep@) =~= old_out + replace_seq(
                    t,
                    pat@,
                    rep@,
                ));
            }
            i = i + 1;
        }
    }
    proof {
        assert(v@.skip(v@.len() as int) =~= Seq::<char>::empty());
    }
    out
}


/// `s` with trailing occurrences of `c` removed.
pub open spec fn strip_trailing(s: Seq<char>, c: char) -> Seq<char>
    decreases s.len(),
{
    if s.len() > 0 && s.last() == c {
        strip_trailing(s.drop_last(), c)
    } else {
        s
    }
}

/// Removes trailing occurrences of `c` from `v`, exactly as
/// [`strip_trailing`] describes.
pub fn strip_trailing_char(v: &Vec<char>, c: char) -> (r: Vec<char>)
    ensures
        r@ == strip_trailing(v@, c),
{
    let mut e: usize = v.len();
    proof {
        assert(v@.subrange(0, v@.len() as int) =~= v@);
    }
    while e > 0 && v[e - 1] == c
        invariant
            0 <= e <= v@.len(),
            strip_trailing(v@, c) == strip_trailing(v@.subrange(0, e as int), c),
        decreases e,
    {
        proof {
            assert(v@.subrange(0, e as int).last() == v@[e - 1]);
            assert(v@.subrange(0, e as int).drop_last() =~= v@.subrange(0, e - 1));
        }
        e = e - 1;
    }
    subvec(v, 0, e)
}

/// `s` without leading whitespace.
pub open spec fn trim_front(s: Seq<char>) -> Seq<char>
    decreases s.len(),
{
    if s.len() > 0 && is_ws_char(s[0]) {
        trim_front(s.drop_first())
    } else {
        s
    }
}

/// `s` without trailing whitespace.
pub open spec fn trim_back(s: Seq<char>) -> Seq<char>
    decreases s.len(),
{
    if s.len() > 0 && is_ws_char(s.last()) {
        trim_back(s.drop_last())
    } else {
        s
    }
}

/// `s` without leading and trailing whitespace.
pub open spec fn spec_trim(s: Seq<char>) -> Seq<char> {
    trim_back(trim_front(s))
}

/// Removes leading and trailing whitespace from `v`, exactly as
/// [`spec_trim`] describes.
pub fn trim(v: &Vec<char>) -> (r: Vec<char>)
    ensures
        r@ == spec_trim(v@),
{
    let n = v.len();
    proof {
        assert(v@.skip(0) =~= v@);
    }
    let mut a: usize = 0;
    while a < n && is_ws(v[a])
        invariant
            0 <= a <= n,
            n == v@.len(),
            trim_front(v@) == trim_front(v@.skip(a as int)),
        decreases n - a,
    {
        proof {
            assert(v@.skip(a as int)[0] == v@[a as int]);
            assert(v@.skip(a as int).drop_first() =~= v@.skip(a + 1));
        }
        a = a + 1;
    }
    proof {
        assert(trim_front(v@.skip(a as int)) == v@.skip(a as int));
        assert(v@.skip(a as int) =~= v@.subrange(a as int, n as int));
    }
    let mut b: usize = n;
    while b > a && is_ws(v[b - 1])
        invariant
            a <= b <= n,
            n == v@.len(),
            trim_front(v@) == v@.subrange(a as int, n as int),
            trim_back(v@.subrange(a as int, n as int)) == trim_back(
                v@.subrange(a as int, b as int),
            ),
        decreases b,
    {
        proof {
            assert(v@.subrange(a as int, b as int).last() == v@[b - 1]);
            assert(v@.subrange(a as int, b as int).drop_last() =~= v@.subrange(a as int, b - 1));
        }
        b = b - 1;
    }
    proof {
        assert(trim_back(v@.subrange(a as int, b as int)) == v@.subrange(a as int, b as int));
    }
    subvec(v, a, b)
}

/// Position of the first non-whitespace character at or after `i`.
pub open spec fn skip_ws_idx(s: Seq<char>, i: int) -> int
    decreases s.len() - i,
{
    if i < 0 {
        i
    } else if i < s.len() && is_ws_char(s[i]) {
        skip_ws_idx(s, i + 1)
    } else {
        i
    }
}

/// Scans past whitespace, exactly as [`skip_ws_idx`] describes.
pub fn skip_ws_from(v: &Vec<char>, from: usize) -> (r: usize)
    requires
        from <= v@.len(),
    ensures
        r == skip_ws_idx(v@, from as int),
        from <= r <= v@.len(),
{
    let n = v.len();
    let mut i: usize = from;
    while i < n && is_ws(v[i])
        invariant
            from <= i <= n,
            n == v@.len(),
            skip_ws_idx(v@, from as int) == skip_ws_idx(v@, i as int),
        decreases n - i,
    {
        i = i + 1;
    }
    i
}

/// Length of the digit run starting at `p`, capped at two digits.
pub open spec fn two_digit_span(s: Seq<char>, p: int) -> int {
    if 0 <= p < s.len() && is_digit(s[p]) {
        if p + 1 < s.len() && is_digit(s[p + 1]) {
            2
        } else {
            1
        }
    } else {
        0
    }
}

/// `s` read as a strict `HH:MM` 24-hour clock value: optional whitespace,
/// one or two digits, `:`, optional whitespace, one or two digits, end of
/// input; hour below 24 and minute below 60.
pub open spec fn spec_parse_hhmm(s: Seq<char>) -> Option<crate::Time> {
    let p = skip_ws_idx(s, 0);
    let n1 = two_digit_span(s, p);
    if n1 == 0 {
        None
    } else {
        let h = digits_val(s.subrange(p, p + n1));
        let q = p + n1;
        if !(q < s.len() && s[q] == ':') {
            None
        } else {
            let r = skip_ws_idx(s, q + 1);
            let n2 = two_digit_span(s, r);
            if n2 == 0 {
                None
            } else {
                let m = digits_val(s.subrange(r, r + n2));
                if r + n2 == s.len() && h < 24 && m < 60 {
                    Some(crate::Time { hour: h as u32, minute: m as u32 })
                } else {
                    None
                }
            }
        }
    }
}

/// Value of the one- or two-digit run at `p` (for `two_digit_span > 0`).
fn read_digits2(v: &Vec<char>, p: usize) -> (r: (u32, usize))
    requires
        p < v@.len(),
        is_digit(v@[p as int]),
    ensures
        r.1 == two_digit_span(v@, p as int),
        r.0 == digits_val(v@.subrange(p as int, p as int + r.1)),
        1 <= r.1 <= 2,
{
    let n = v.len();
    let c0 = v[p] as u32;
    let d0 = c0 - 0x30;
    if p + 1 < n {
        let c1 = v[p + 1] as u32;
        if 0x30 <= c1 && c1 <= 0x39 {
            proof {
                let s2 = v@.subrange(p as int, p + 2);
                assert(s2.drop_last() =~= v@.subrange(p as int, p + 1));
                assert(s2.last() == v@[p + 1]);
                assert(v@.subrange(p as int, p + 1).drop_last() =~= Seq::<char>::empty());
                assert(v@.subrange(p as int, p + 1).last() == v@[p as int]);
                assert(digits_val(Seq::<char>::empty()) == 0);
                assert(digits_val(v@.subrange(p as int, p + 1)) == digit_val(v@[p as int]));
            }
            return (d0 * 10 + (c1 - 0x30), 2);
        }
    }
    proof {
        assert(v@.subrange(p as int, p + 1).drop_last() =~= Seq::<char>::empty());
        assert(v@.subrange(p as int, p + 1).last() == v@[p as int]);
        assert(digits_val(Seq::<char>::empty()) == 0);
    }
    (d0, 1)
}

/// Reads `v` as an `HH:MM` clock value, exactly as [`spec_parse_hhmm`]
/// describes.
pub fn parse_hhmm(v: &Vec<char>) -> (r: Option<crate::Time>)
    ensures
        r == spec_parse_hhmm(v@),
{
    let p = skip_ws_from(v, 0);
    if !(p < v.len() && 0x30 <= v[p] as u32 && v[p] as u32 <= 0x39) {
        return None;
    }
    let (h, n1) = read_digits2(v, p);
    let q = p + n1;
    if !(q < v.len() && v[q] == ':') {
        return None;
    }
    let r0 = skip_ws_from(v, q + 1);
    if !(r0 < v.len() && 0x30 <= v[r0] as u32 && v[r0] as u32 <= 0x39) {
        return None;
    }
    let (m, n2) = read_digits2(v, r0);
    if r0 + n2 == v.len() && h < 24 && m < 60 {
        Some(crate::Time { hour: h, minute: m })
    } else {
        None
    }
}

/// `s` with every space replaced by a hyphen.
pub open spec fn hyphenate(s: Seq<char>) -> Seq<char> {
    s.map_values(|c: char| if c == ' ' { '-' } else { c })
}

/// Replaces spaces by hyphens, exactly as [`hyphenate`] describes.
pub fn hyphenate_vec(v: &Vec<char>) -> (r: Vec<char>)
    ensures
        r@ == hyphenate(v@),
{
    let mut out: Vec<char> = Vec::new();
    let mut i: usize = 0;
    while i < v.len()
        invariant
            0 <= i <= v@.len(),
            out@ =~= hyphenate(v@.take(i as int)),
        decreases v@.len() - i,
    {
        let c = v[i];
        if c == ' ' {
            out.push('-');
        } else {
            out.push(c);
        }
        proof {
            assert(out@ =~= hyphenate(v@.take(i + 1)));
        }
        i = i + 1;
    }
    proof {
        assert(v@.take(v@.len() as int) =~= v@);
    }
    out
}

/// The characters of `s`, in order.
pub fn str_to_chars(s: &str) -> (r: Vec<char>)
    ensures
        r@ == s@,
{
    let n = s.unicode_len();
    let mut r: Vec<char> = Vec::new();
    let mut i: usize = 0;
    while i < n
        invariant
            0 <= i <= n,
            n == s@.len(),
            r@ =~= s@.take(i as int),
        decreases n - i,
    {
        let c = s.get_char(i);
        r.push(c);
        proof {
            assert(r@ =~= s@.take(i + 1));
        }
        i = i + 1;
    }
    proof {
        assert(s@.take(n as int) =~= s@);
    }
    r
}

/// Relies on `String::push`: appends exactly the given character.
#[verifier::external_body]
fn push_char(s: &mut String, c: char)
    ensures
        final(s)@ == old(s)@.push(c),
{
    s.push(c)
}

/// A string holding exactly the characters of `v`.
pub fn chars_to_string(v: &Vec<char>) -> (r: String)
    ensures
        r@ == v@,
{
    let mut s = String::new();
    let mut i: usize = 0;
    while i < v.len()
        invariant
            0 <= i <= v@.len(),
            s@ =~= v@.take(i as int),
        decreases v@.len() - i,
    {
        push_char(&mut s, v[i]);
        proof {
            assert(s@ =~= v@.take(i + 1));
        }
        i = i + 1;
    }
    proof {
        assert(v@.take(v@.len() as int) =~= v@);
    }
    s
}


/// A successfully parsed signed integer lies within the given bounds.
pub proof fn lemma_parse_int_range(s: Seq<char>, min: int, max: int)
    requires
        min <= 0 <= max,
    ensures
        spec_parse_int(s, min, max) matches Some(v) ==> min <= v <= max,
{
    if s.len() >= 1 && s[0] == '-' {
        let t = s.drop_first();
        if t.len() > 0 && all_digits(t) {
            lemma_digits_val_nonneg(t);
        }
    } else {
        if s.len() >= 1 && s[0] == '+' {
            let t = s.drop_first();
            if t.len() > 0 && all_digits(t) {
                lemma_digits_val_nonneg(t);
            }
        } else {
            if s.len() > 0 && all_digits(s) {
                lemma_digits_val_nonneg(s);
            }
        }
    }
}

} // verus!
