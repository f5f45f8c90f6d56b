use vstd::prelude::*;
use vstd::string::StrSliceExecFns;

verus! {

/// The characters of `s`.
pub fn chars_of(s: &str) -> (r: Vec<char>)
    ensures
        r@ == s@,
{
    let n = s.unicode_len();
    let mut out: Vec<char> = Vec::new();
    let mut i: usize = 0;
    while i < n
        invariant
            n == s@.len(),
            i <= n,
            out@ == s@.subrange(0, i as int),
        decreases n - i,
    {
        out.push(s.get_char(i));
        i += 1;
        assert(out@ =~= s@.subrange(0, i as int));
    }
    assert(s@.subrange(0, n as int) =~= s@);
    out
}

/// The index of the first space of `s` at or after `from`, or the length of
/// `s` where there is none.
pub open spec fn space_from(s: Seq<char>, from: int) -> int
    decreases s.len() - from,
{
    if from >= s.len() {
        s.len() as int
    } else if s[from] == ' ' {
        from
    } else {
        space_from(s, from + 1)
    }
}

pub proof fn lemma_space_from_bounds(s: Seq<char>, from: int)
    requires
        0 <= from <= s.len(),
    ensures
        from <= space_from(s, from) <= s.len(),
        space_from(s, from) < s.len() ==> s[space_from(s, from)] == ' ',
    decreases s.len() - from,
{
    if from < s.len() && s[from] != ' ' {
        lemma_space_from_bounds(s, from + 1);
    }
}

/// Finds the first space of `line` at or after `from`.
pub fn find_space(line: &Vec<char>, from: usize) -> (r: usize)
    requires
        from <= line@.len(),
    ensures
        r == space_from(line@, from as int),
        from <= r <= line@.len(),
{
    proof {
        lemma_space_from_bounds(line@, from as int);
    }
    let mut i = from;
    while i < line.len() && line[i] != ' '
        invariant
            from <= i <= line@.len(),
            space_from(line@, i as int) == space_from(line@, from as int),
        decreases line@.len() - i,
    {
        i += 1;
    }
    i
}

/// Whether the characters of `line` from `start` to `end` spell `word`.
pub fn word_is(line: &Vec<char>, start: usize, end: usize, word: &str) -> (r: bool)
    requires
        start <= end <= line@.len(),
    ensures
        r == (line@.subrange(start as int, end as int) == word@),
{
    let k = word.unicode_len();
    if end - start != k {
        return false;
    }
    let mut i: usize = 0;
    while i < k
        invariant
            k == word@.len(),
            end - start == k,
            start <= end <= line@.len(),
            i <= k,
            forall|j: int| 0 <= j < i ==> line@[start + j] == word@[j],
        decreases k - i,
    {
        if line[start + i] != word.get_char(i) {
            assert(line@.subrange(start as int, end as int)[i as int] != word@[i as int]);
            return false;
        }
        i += 1;
    }
    assert(line@.subrange(start as int, end as int) =~= word@);
    true
}

/// A decimal digit.
pub open spec fn is_digit(c: char) -> bool {
    '0' <= c <= '9'
}

/// Every character of `s` is a decimal digit.
pub open spec fn all_digits(s: Seq<char>) -> bool {
    forall|i: int| 0 <= i < s.len() ==> is_digit(#[trigger] s[i])
}

/// The number that the digits `s` write in base ten.
pub open spec fn digits_value(s: Seq<char>) -> nat
    decreases s.len(),
{
    if s.len() == 0 {
        0
    } else {
        (digits_value(s.drop_last()) * 10 + (s.last() as int - '0' as int)) as nat
    }
}

/// The integer that `s` writes in base ten: an optional sign, then at least
/// one digit.
pub open spec fn int_literal(s: Seq<char>) -> Option<int> {
    if s.len() > 0 && (s[0] == '-' || s[0] == '+') {
        let d = s.drop_first();
        if d.len() > 0 && all_digits(d) {
            if s[0] == '-' {
                Some(-digits_value(d))
            } else {
                Some(digits_value(d) as int)
            }
        } else {
            None
        }
    } else if s.len() > 0 && all_digits(s) {
        Some(digits_value(s) as int)
    } else {
        None
    }
}

/// The value of `s` read as a 32-bit signed integer, as `str::parse::<i32>`
/// reads it: `None` where `s` is no integer or the integer does not fit.
pub open spec fn i32_literal(s: Seq<char>) -> Option<i32> {
    match int_literal(s) {
        Some(v) => if i32::MIN <= v <= i32::MAX {
            Some(v as i32)
        } else {
            None
        },
        None => None,
    }
}

/// The value of `s` read as an unsigned size, as `str::parse::<usize>`
/// reads it: a leading `-` is refused, a leading `+` is accepted.
pub open spec fn usize_literal(s: Seq<char>) -> Option<usize> {
    if s.len() > 0 && s[0] == '-' {
        None
    } else {
        match int_literal(s) {
            Some(v) => if 0 <= v <= usize::MAX {
                Some(v as usize)
            } else {
                None
            },
            None => None,
        }
    }
}

proof fn lemma_digits_value_grows(s: Seq<char>, i: int, j: int)
    requires
        0 <= i <= j <= s.len(),
        all_digits(s),
    ensures
        digits_value(s.subrange(0, i)) <= digits_value(s.subrange(0, j)),
    decreases j - i,
{
    if i < j {
        lemma_digits_value_grows(s, i, j - 1);
        let t = s.subrange(0, j);
        assert(t.drop_last() =~= s.subrange(0, j - 1));
        assert(is_digit(s[j - 1]));
    }
}

/// The value of the digits of `line` from `start` to `end`, where they are
/// all digits, there is at least one, and the value is at most `limit`.
fn digits_at_most(line: &Vec<char>, start: usize, end: usize, limit: u64) -> (r: Option<u64>)
    requires
        start <= end <= line@.len(),
    ensures
        ({
            let d = line@.subrange(start as int, end as int);
            match r {
                Some(v) => d.len() > 0 && all_digits(d) && v == digits_value(d) && v <= limit,
                None => !(d.len() > 0 && all_digits(d) && digits_value(d) <= limit),
            }
        }),
{
    let ghost d = line@.subrange(start as int, end as int);
    if start == end {
        return None;
    }
    let mut acc: u128 = 0;
    let mut i = start;
    while i < end
        invariant
            start <= i <= end <= line@.len(),
            d == line@.subrange(start as int, end as int),
            all_digits(d.subrange(0, i - start)),
            acc == digits_value(d.subrange(0, i - start)),
            acc <= limit,
        decreases end - i,
    {
        let c = line[i];
        if !('0' <= c && c <= '9') {
            assert(d[i - start] == c);
            return None;
        }
        let digit = (c as u32 - '0' as u32) as u128;
        acc = acc * 10 + digit;
        proof {
            let p = d.subrange(0, i + 1 - start);
            assert(p.drop_last() =~= d.subrange(0, i - start));
            assert(p.last() == c);
            assert(all_digits(p));
        }
        if acc > limit as u128 {
            proof {
                let p = d.subrange(0, i + 1 - start);
                if all_digits(d) {
                    lemma_digits_value_grows(d, i + 1 - start, d.len() as int);
                }
                assert(d.subrange(0, d.len() as int) =~= d);
            }
            return None;
        }
        i += 1;
    }
    assert(d.subrange(0, end - start) =~= d);
    Some(acc as u64)
}

/// Reads the characters of `line` from `start` to `end` as an `i32`, as
/// `str::parse::<i32>` does.
pub fn parse_i32(line: &Vec<char>, start: usize, end: usize) -> (r: Option<i32>)
    requires
        start <= end <= line@.len(),
    ensures
        r == i32_literal(line@.subrange(start as int, end as int)),
{
    let ghost s = line@.subrange(start as int, end as int);
    if start < end && (line[start] == '-' || line[start] == '+') {
        assert(s.drop_first() =~= line@.subrange(start + 1, end as int));
        let negative = line[start] == '-';
        let limit: u64 = if negative { 0x8000_0000 } else { 0x7fff_ffff };
        match digits_at_most(line, start + 1, end, limit) {
            Some(v) => {
                if negative {
                    Some((0 - (v as i64)) as i32)
                } else {
                    Some(v as i32)
                }
            },
            None => None,
        }
    } else {
        match digits_at_most(line, start, end, 0x7fff_ffff) {
            Some(v) => Some(v as i32),
            None => None,
        }
    }
}

/// Reads the characters of `line` from `start` to `end` as a `usize`, as
/// `str::parse::<usize>` does.
pub fn parse_usize(line: &Vec<char>, start: usize, end: usize) -> (r: Option<usize>)
    requires
        start <= end <= line@.len(),
    ensures
        r == usize_literal(line@.subrange(start as int, end as int)),
{
    let ghost s = line@.subrange(start as int, end as int);
    if start < end && line[start] == '-' {
        return None;
    }
    let first = if start < end && line[start] == '+' {
        assert(s.drop_first() =~= line@.subrange(start + 1, end as int));
        start + 1
    } else {
        start
    };
    match digits_at_most(line, first, end, usize::MAX as u64) {
        Some(v) => Some(v as usize),
        None => None,
    }
}

/// A character that `char::is_whitespace` accepts: the Unicode `White_Space`
/// characters.
pub open spec fn is_white(c: char) -> bool {
    ||| '\u{9}' <= c <= '\u{d}'
    ||| c == ' '
    ||| c == '\u{85}'
    ||| c == '\u{a0}'
    ||| c == '\u{1680}'
    ||| '\u{2000}' <= c <= '\u{200a}'
    ||| c == '\u{2028}'
    ||| c == '\u{2029}'
    ||| c == '\u{202f}'
    ||| c == '\u{205f}'
    ||| c == '\u{3000}'
}

fn white(c: char) -> (r: bool)
    ensures
        r == is_white(c),
{
    ('\u{9}' <= c && c <= '\u{d}') || c == ' ' || c == '\u{85}' || c == '\u{a0}' || c
        == '\u{1680}' || ('\u{2000}' <= c && c <= '\u{200a}') || c == '\u{2028}' || c
        == '\u{2029}' || c == '\u{202f}' || c == '\u{205f}' || c == '\u{3000}'
}

/// The index of the first character of `s` at or after `i` that is no
/// white space, or the length of `s`.
pub open spec fn lead_from(s: Seq<char>, i: int) -> int
    decreases s.len() - i,
{
    if i < 0 || i >= s.len() {
        s.len() as int
    } else if !is_white(s[i]) {
        i
    } else {
        lead_from(s, i + 1)
    }
}

/// The end of `s` before `e` without its trailing white space, staying at or
/// after `start`.
pub open spec fn trail_from(s: Seq<char>, start: int, e: int) -> int
    decreases e - start,
{
    if e <= start || e > s.len() {
        start
    } else if !is_white(s[e - 1]) {
        e
    } else {
        trail_from(s, start, e - 1)
    }
}

/// `s` without its leading and trailing white space, as `str::trim` cuts it.
pub open spec fn trim(s: Seq<char>) -> Seq<char> {
    let a = lead_from(s, 0);
    s.subrange(a, trail_from(s, a, s.len() as int))
}

proof fn lemma_lead_bounds(s: Seq<char>, i: int)
    requires
        0 <= i <= s.len(),
    ensures
        i <= lead_from(s, i) <= s.len(),
    decreases s.len() - i,
{
    if i < s.len() && is_white(s[i]) {
        lemma_lead_bounds(s, i + 1);
    }
}

proof fn lemma_trail_bounds(s: Seq<char>, start: int, e: int)
    requires
        0 <= start <= e <= s.len(),
    ensures
        start <= trail_from(s, start, e) <= e,
    decreases e - start,
{
    if e > start && is_white(s[e - 1]) {
        lemma_trail_bounds(s, start, e - 1);
    }
}

/// Finds where `line` stands without its leading and trailing white space.
pub fn trim_bounds(line: &Vec<char>) -> (r: (usize, usize))
    ensures
        r.0 <= r.1 <= line@.len(),
        line@.subrange(r.0 as int, r.1 as int) == trim(line@),
{
    proof {
        lemma_lead_bounds(line@, 0);
    }
    let mut start: usize = 0;
    while start < line.len() && white(line[start])
        invariant
            start <= line@.len(),
            lead_from(line@, start as int) == lead_from(line@, 0),
        decreases line@.len() - start,
    {
        start += 1;
    }
    proof {
        lemma_trail_bounds(line@, start as int, line@.len() as int);
    }
    let mut end: usize = line.len();
    while end > start && white(line[end - 1])
        invariant
            start <= end <= line@.len(),
            start == lead_from(line@, 0),
            trail_from(line@, start as int, end as int) == trail_from(
                line@,
                start as int,
                line@.len() as int,
            ),
        decreases end,
    {
        end -= 1;
    }
    (start, end)
}

} // verus!
