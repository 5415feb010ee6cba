//! The `Range` header of an object download: which bytes are asked for.

use vstd::prelude::*;

verus! {

/// Why a text is not a `u64` in decimal.
#[derive(Clone, Copy, Debug, PartialEq, Eq, Structural)]
pub enum ParseError {
    /// The text is empty.
    Empty,
    /// A character is not a digit, or a sign is all there is.
    InvalidDigit,
    /// The number is above `u64::MAX`.
    PosOverflow,
}

/// Why a `Range` header is refused.
#[derive(Clone, Copy, Debug, PartialEq, Eq, Structural)]
pub enum ObjectsError {
    /// A bound of the range is not a number.
    RangeHeaderParseError(ParseError),
    /// The header has not the form of a range, or the range lies outside the
    /// object.
    RangeHeaderInvalid,
}

/// The text without any occurrence of the pattern: occurrences are taken out
/// from the left, and none overlaps another.
pub open spec fn remove_all(s: Seq<char>, pat: Seq<char>) -> Seq<char>
    decreases s.len(),
{
    if pat.len() == 0 || s.len() < pat.len() {
        s
    } else if s.subrange(0, pat.len() as int) == pat {
        remove_all(s.skip(pat.len() as int), pat)
    } else {
        seq![s[0]] + remove_all(s.skip(1), pat)
    }
}

/// How often the character occurs among the first `n` of the text.
pub open spec fn count_of(s: Seq<char>, c: char, n: int) -> int
    decreases n,
{
    if n <= 0 {
        0
    } else {
        count_of(s, c, n - 1) + if s[n - 1] == c {
            1int
        } else {
            0int
        }
    }
}

/// The value of a decimal digit.
pub open spec fn digit_value(c: char) -> Option<int> {
    if '0' <= c && c <= '9' {
        Some(c as int - '0' as int)
    } else {
        None
    }
}

/// The number that the digits continue from `acc`, read from the left; the
/// first character that is no digit, or the first digit that takes the number
/// above `u64::MAX`, decides the error.
pub open spec fn parse_digits(s: Seq<char>, acc: int) -> Result<int, ParseError>
    decreases s.len(),
{
    if s.len() == 0 {
        Ok(acc)
    } else {
        match digit_value(s[0]) {
            None => Err(ParseError::InvalidDigit),
            Some(d) => if acc * 10 + d > u64::MAX {
                Err(ParseError::PosOverflow)
            } else {
                parse_digits(s.skip(1), acc * 10 + d)
            },
        }
    }
}

/// The `u64` that a text which is not empty denotes: decimal digits, after a
/// plus sign if one leads.
pub open spec fn parse_u64(s: Seq<char>) -> Result<int, ParseError> {
    let digits = if s.len() > 0 && s[0] == '+' {
        s.skip(1)
    } else {
        s
    };
    if digits.len() == 0 {
        Err(ParseError::InvalidDigit)
    } else {
        parse_digits(digits, 0)
    }
}

/// The first and the last byte that the two bounds of a range ask for, of an
/// object of `size` bytes. Without a first bound the second counts bytes from
/// the end; without a second the range goes to the end.
pub open spec fn bounds(left: Seq<char>, right: Seq<char>, size: int) -> Result<
    (int, int),
    ParseError,
> {
    if left.len() > 0 {
        match parse_u64(left) {
            Err(e) => Err(e),
            Ok(start) => if right.len() > 0 {
                match parse_u64(right) {
                    Err(e) => Err(e),
                    Ok(end) => Ok((start, end)),
                }
            } else {
                Ok((start, size - 1))
            },
        }
    } else if right.len() > 0 {
        match parse_u64(right) {
            Err(e) => Err(e),
            Ok(last) => if last > size {
                Ok((0, size - 1))
            } else {
                Ok((size - last, size - 1))
            },
        }
    } else {
        Ok((0, size - 1))
    }
}

/// The first and the last byte that a `Range` header asks for, of an object
/// of `size` bytes. Every `bytes=` is dropped from the header; what is left
/// must be two bounds with one dash between them, each a number or empty, and
/// the range must lie inside the object.
pub open spec fn range_params(range: Seq<char>, size: int) -> Result<(int, int), ObjectsError> {
    let s = remove_all(range, seq!['b', 'y', 't', 'e', 's', '=']);
    if count_of(s, '-', s.len() as int) != 1 {
        Err(ObjectsError::RangeHeaderInvalid)
    } else {
        let dash = s.index_of('-');
        match bounds(s.take(dash), s.skip(dash + 1), size) {
            Err(e) => Err(ObjectsError::RangeHeaderParseError(e)),
            Ok((start, end)) => if start > end || end >= size {
                Err(ObjectsError::RangeHeaderInvalid)
            } else {
                Ok((start, end))
            },
        }
    }
}

/// The characters of a text.
pub fn chars_of(s: &str) -> (r: Vec<char>)
    ensures
        r@ == s@,
{
    let n = s.unicode_len();
    let mut r: Vec<char> = Vec::new();
    let mut i: usize = 0;
    while i < n
        invariant
            i <= n,
            n == s@.len(),
            r@ == s@.take(i as int),
        decreases n - i,
    {
        r.push(s.get_char(i));
        assert(r@ =~= s@.take(i + 1));
        i += 1;
    }
    assert(s@.take(n as int) =~= s@);
    r
}

/// Whether the pattern stands in the text at position `i`.
pub fn stands_at(s: &Vec<char>, i: usize, pat: &Vec<char>) -> (r: bool)
    requires
        i <= s@.len(),
    ensures
        r == (i + pat@.len() <= s@.len() && s@.subrange(i as int, i + pat@.len()) == pat@),
{
    let m = pat.len();
    let n = s.len();
    if n - i < m {
        return false;
    }
    let mut j: usize = 0;
    while j < m
        invariant
            j <= m,
            m == pat@.len(),
            n == s@.len(),
            i + m <= n,
            forall|k: int| 0 <= k < j ==> s@[i + k] == pat@[k],
        decreases m - j,
    {
        if s[i + j] != pat[j] {
            assert(s@.subrange(i as int, i + m)[j as int] != pat@[j as int]);
            return false;
        }
        j += 1;
    }
    assert(s@.subrange(i as int, i + m) =~= pat@);
    true
}

/// The text without any occurrence of the pattern.
pub fn without(s: &Vec<char>, pat: &Vec<char>) -> (r: Vec<char>)
    ensures
        r@ == remove_all(s@, pat@),
{
    let n = s.len();
    let m = pat.len();
    let mut r: Vec<char> = Vec::new();
    let mut i: usize = 0;
    assert(s@.skip(0) =~= s@);
    while i < n
        invariant
            i <= n,
            n == s@.len(),
            m == pat@.len(),
            r@ + remove_all(s@.skip(i as int), pat@) == remove_all(s@, pat@),
        decreases n - i,
    {
        let ghost rest = s@.skip(i as int);
        if m > 0 && stands_at(s, i, pat) {
            proof {
                assert(rest.subrange(0, m as int) =~= s@.subrange(i as int, i + m));
                assert(rest.skip(m as int) =~= s@.skip(i + m));
            }
            i += m;
        } else {
            proof {
                if m > 0 && rest.len() >= m {
                    assert(rest.subrange(0, m as int) =~= s@.subrange(i as int, i + m));
                    assert(rest.skip(1) =~= s@.skip(i + 1));
                    assert(r@.push(s@[i as int]) + remove_all(s@.skip(i + 1), pat@) =~= r@
                        + remove_all(rest, pat@));
                } else {
                    // Nothing is taken out of the rest: each of its characters stays.
                    lemma_short_rest(rest, pat@);
                    lemma_short_rest(s@.skip(i + 1), pat@);
                    assert(r@.push(s@[i as int]) + s@.skip(i + 1) =~= r@ + rest);
                }
            }
            r.push(s[i]);
            i += 1;
        }
    }
    proof {
        assert(s@.skip(n as int) =~= Seq::<char>::empty());
        assert(r@ + Seq::<char>::empty() =~= r@);
    }
    r
}

/// Nothing is taken out of a text shorter than the pattern, nor by an empty
/// pattern.
pub proof fn lemma_short_rest(s: Seq<char>, pat: Seq<char>)
    requires
        pat.len() == 0 || s.len() < pat.len(),
    ensures
        remove_all(s, pat) == s,
{
}

/// How often the character occurs, and where it occurs first.
pub fn count_and_find(s: &Vec<char>, c: char) -> (r: (usize, usize))
    ensures
        r.0 == count_of(s@, c, s@.len() as int),
        r.0 == 1 ==> r.1 == s@.index_of(c) && r.1 < s@.len() && s@[r.1 as int] == c,
{
    let n = s.len();
    let mut count: usize = 0;
    let mut first: usize = 0;
    let mut i: usize = 0;
    while i < n
        invariant
            i <= n,
            n == s@.len(),
            count == count_of(s@, c, i as int),
            count <= i,
            count == 0 ==> forall|j: int| 0 <= j < i ==> s@[j] != c,
            count > 0 ==> first < i && s@[first as int] == c,
            count == 1 ==> forall|j: int| 0 <= j < i && j != first ==> s@[j] != c,
        decreases n - i,
    {
        if s[i] == c {
            if count == 0 {
                first = i;
            }
            count += 1;
        }
        i += 1;
    }
    proof {
        if count == 1 {
            assert(s@.contains(c));
            let k = s@.index_of(c);
            assert(0 <= k < s@.len() && s@[k] == c);
        }
    }
    (count, first)
}

/// The number that a text which is not empty denotes.
pub fn parse_number(s: &Vec<char>, from: usize, to: usize) -> (r: Result<u64, ParseError>)
    requires
        from < to <= s@.len(),
    ensures
        match parse_u64(s@.subrange(from as int, to as int)) {
            Ok(v) => r == Ok::<u64, ParseError>(v as u64) && 0 <= v <= u64::MAX,
            Err(e) => r == Err::<u64, ParseError>(e),
        },
{
    let ghost text = s@.subrange(from as int, to as int);
    let start = if s[from] == '+' {
        from + 1
    } else {
        from
    };
    let ghost digits = s@.subrange(start as int, to as int);
    proof {
        assert(text[0] == s@[from as int]);
        if start > from {
            assert(text.skip(1) =~= digits);
        } else {
            assert(text =~= digits);
        }
    }
    if start == to {
        return Err(ParseError::InvalidDigit);
    }
    let ghost goal = parse_u64(text);
    let mut acc: u64 = 0;
    let mut i: usize = start;
    assert(digits.skip(0) =~= digits);
    while i < to
        invariant
            start <= i <= to,
            to <= s@.len(),
            digits == s@.subrange(start as int, to as int),
            goal == parse_u64(s@.subrange(from as int, to as int)),
            parse_digits(digits.skip(i - start), acc as int) == goal,
        decreases to - i,
    {
        let c = s[i];
        let ghost rest = digits.skip(i - start);
        proof {
            assert(rest[0] == c);
            assert(rest.skip(1) =~= digits.skip(i + 1 - start));
        }
        if c < '0' || c > '9' {
            return Err(ParseError::InvalidDigit);
        }
        let d = (c as u32 - '0' as u32) as u64;
        if acc > (u64::MAX - d) / 10 {
            assert(acc * 10 + d > u64::MAX) by (nonlinear_arith)
                requires
                    acc > (u64::MAX - d) / 10,
                    0 <= d <= 9,
            ;
            return Err(ParseError::PosOverflow);
        }
        assert(acc * 10 + d <= u64::MAX) by (nonlinear_arith)
            requires
                acc <= (u64::MAX - d) / 10,
                0 <= d <= 9,
        ;
        acc = acc * 10 + d;
        i += 1;
    }
    proof {
        assert(digits.skip(to - start) =~= Seq::<char>::empty());
    }
    Ok(acc)
}

/// The `u64` that a text denotes.
pub open spec fn parse_text(s: Seq<char>) -> Result<int, ParseError> {
    if s.len() == 0 {
        Err(ParseError::Empty)
    } else {
        parse_u64(s)
    }
}

/// The number that a text denotes: decimal digits, after a plus sign if one
/// leads.
pub fn parse_decimal(text: &str) -> (r: Result<u64, ParseError>)
    ensures
        match parse_text(text@) {
            Ok(v) => r == Ok::<u64, ParseError>(v as u64) && 0 <= v <= u64::MAX,
            Err(e) => r == Err::<u64, ParseError>(e),
        },
{
    let s = chars_of(text);
    if s.len() == 0 {
        return Err(ParseError::Empty);
    }
    assert(s@.subrange(0, s@.len() as int) =~= s@);
    parse_number(&s, 0, s.len())
}

/// The first and the last byte that the header asks for, of an object of
/// `size` bytes.
pub fn get_range_params(range: String, size: u64) -> (r: Result<(u64, u64), ObjectsError>)
    ensures
        match range_params(range@, size as int) {
            Ok((start, end)) => r == Ok::<(u64, u64), ObjectsError>((start as u64, end as u64))
                && 0 <= start <= end < size,
            Err(e) => r == Err::<(u64, u64), ObjectsError>(e),
        },
{
    let text = chars_of(range.as_str());
    let pattern: Vec<char> = vec!['b', 'y', 't', 'e', 's', '='];
    assert(pattern@ =~= seq!['b', 'y', 't', 'e', 's', '=']);
    let s = without(&text, &pattern);
    let (dashes, dash) = count_and_find(&s, '-');
    if dashes != 1 {
        return Err(ObjectsError::RangeHeaderInvalid);
    }
    let n = s.len();
    proof {
        assert(s@.take(dash as int) =~= s@.subrange(0, dash as int));
        assert(s@.skip(dash + 1) =~= s@.subrange(dash + 1, n as int));
    }
    let has_left = dash > 0;
    let has_right = dash + 1 < n;
    // A range in an object without bytes has no last byte: it is refused below.
    let last_byte: u64 = if size > 0 {
        size - 1
    } else {
        0
    };
    let (start, end) = if has_left {
        let start = match parse_number(&s, 0, dash) {
            Ok(v) => v,
            Err(e) => {
                return Err(ObjectsError::RangeHeaderParseError(e));
            },
        };
        if has_right {
            match parse_number(&s, dash + 1, n) {
                Ok(v) => (start, v),
                Err(e) => {
                    return Err(ObjectsError::RangeHeaderParseError(e));
                },
            }
        } else {
            (start, last_byte)
        }
    } else if has_right {
        match parse_number(&s, dash + 1, n) {
            Ok(last) => if last > size {
                (0, last_byte)
            } else {
                (size - last, last_byte)
            },
            Err(e) => {
                return Err(ObjectsError::RangeHeaderParseError(e));
            },
        }
    } else {
        (0, last_byte)
    };
    if size == 0 || start > end || end >= size {
        return Err(ObjectsError::RangeHeaderInvalid);
    }
    Ok((start, end))
}

} // verus!
