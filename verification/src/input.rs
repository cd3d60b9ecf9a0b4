use vstd::prelude::*;

verus! {

/// Whether `c` is one of the whitespace characters the original trims from
/// both ends of a line before parsing it.
pub open spec fn is_space(c: char) -> bool {
    let n = c as u32;
    ||| n == 0x20
    ||| 0x9 <= n <= 0xd
    ||| n == 0x85
    ||| n == 0xa0
    ||| n == 0x1680
    ||| 0x2000 <= n <= 0x200a
    ||| n == 0x2028
    ||| n == 0x2029
    ||| n == 0x202f
    ||| n == 0x205f
    ||| n == 0x3000
}

/// Decides [`is_space`] for one character.
fn is_space_char(c: char) -> (b: bool)
    ensures
        b == is_space(c),
{
    let n = c as u32;
    n == 0x20 || (0x9 <= n && n <= 0xd) || n == 0x85 || n == 0xa0 || n == 0x1680 || (0x2000 <= n
        && n <= 0x200a) || n == 0x2028 || n == 0x2029 || n == 0x202f || n == 0x205f || n == 0x3000
}

/// `s` with its leading whitespace removed.
pub open spec fn trim_front(s: Seq<char>) -> Seq<char>
    decreases s.len(),
{
    if s.len() > 0 && is_space(s[0]) {
        trim_front(s.drop_first())
    } else {
        s
    }
}

/// `s` with its trailing whitespace removed.
pub open spec fn trim_back(s: Seq<char>) -> Seq<char>
    decreases s.len(),
{
    if s.len() > 0 && is_space(s.last()) {
        trim_back(s.drop_last())
    } else {
        s
    }
}

/// `s` with whitespace removed from both ends.
pub open spec fn trimmed(s: Seq<char>) -> Seq<char> {
    trim_back(trim_front(s))
}

/// Whether `c` is a decimal digit.
pub open spec fn is_digit(c: char) -> bool {
    0x30 <= c as u32 <= 0x39
}

/// The numeric value of a decimal digit.
pub open spec fn digit_val(c: char) -> int
    recommends
        is_digit(c),
{
    c as u32 - 0x30
}

/// Whether `s` consists of decimal digits only.
pub open spec fn all_digits(s: Seq<char>) -> bool {
    forall|i: int| 0 <= i < s.len() ==> is_digit(s[i])
}

/// The number the digit string `s` denotes, most significant digit first.
pub open spec fn digits_val(s: Seq<char>) -> int
    decreases s.len(),
{
    if s.len() == 0 {
        0
    } else {
        digits_val(s.drop_last()) * 10 + digit_val(s.last())
    }
}

/// What the standard signed 32-bit parser accepts: an optional sign followed
/// by one or more decimal digits and nothing else, denoting a value within
/// the `i32` range; everything else is rejected.
pub open spec fn parse_i32_spec(s: Seq<char>) -> Option<i32> {
    let negative = s.len() > 0 && s[0] == '-';
    let digits = if s.len() > 0 && (s[0] == '-' || s[0] == '+') {
        s.drop_first()
    } else {
        s
    };
    if digits.len() == 0 || !all_digits(digits) {
        None
    } else {
        let v = if negative {
            -digits_val(digits)
        } else {
            digits_val(digits)
        };
        if i32::MIN <= v <= i32::MAX {
            Some(v as i32)
        } else {
            None
        }
    }
}

/// A digit string denotes a number no smaller than zero.
proof fn lemma_digits_val_nonneg(s: Seq<char>)
    requires
        all_digits(s),
    ensures
        digits_val(s) >= 0,
    decreases s.len(),
{
    if s.len() > 0 {
        assert(all_digits(s.drop_last())) by {
            assert(forall|i: int|
                0 <= i < s.drop_last().len() ==> s.drop_last()[i] == s[i] && is_digit(s[i]));
        }
        lemma_digits_val_nonneg(s.drop_last());
        assert(is_digit(s[s.len() - 1]));
        assert(s.last() == s[s.len() - 1]);
    }
}

/// A prefix of a digit string never denotes more than the whole string.
proof fn lemma_digits_val_prefix_le(s: Seq<char>, j: int)
    requires
        all_digits(s),
        0 <= j <= s.len(),
    ensures
        digits_val(s.take(j)) <= digits_val(s),
    decreases s.len() - j,
{
    if j == s.len() {
        assert(s.take(j) =~= s);
    } else {
        assert(all_digits(s.take(j))) by {
            assert(forall|i: int|
                0 <= i < s.take(j).len() ==> s.take(j)[i] == s[i] && is_digit(s[i]));
        }
        lemma_digits_val_nonneg(s.take(j));
        assert(is_digit(s[j]));
        assert(s.take(j + 1).drop_last() =~= s.take(j));
        assert(s.take(j + 1).last() == s[j]);
        assert(digits_val(s.take(j + 1)) == digits_val(s.take(j)) * 10 + digit_val(s[j]));
        assert(digits_val(s.take(j)) <= digits_val(s.take(j + 1)));
        lemma_digits_val_prefix_le(s, j + 1);
    }
}

/// Parses a signed 32-bit integer from `s` exactly as [`parse_i32_spec`]
/// describes.
pub fn parse_i32(s: &str) -> (r: Option<i32>)
    ensures
        r == parse_i32_spec(s@),
{
    let len = s.unicode_len();
    if len == 0 {
        return None;
    }
    let first = s.get_char(0);
    let negative = first == '-';
    let has_sign = first == '-' || first == '+';
    let start: usize = if has_sign {
        1
    } else {
        0
    };
    let ghost digits: Seq<char> = if has_sign {
        s@.drop_first()
    } else {
        s@
    };
    if start == len {
        return None;
    }
    let mut i: usize = start;
    let mut acc: u64 = 0;
    while i < len
        invariant
            start <= i <= len,
            len == s@.len(),
            s@.len() > 0,
            has_sign == (s@[0] == '-' || s@[0] == '+'),
            negative == (s@[0] == '-'),
            start == if has_sign { 1int } else { 0int },
            digits == (if has_sign { s@.drop_first() } else { s@ }),
            digits.len() == len - start,
            forall|j: int| 0 <= j < i - start ==> is_digit(#[trigger] digits[j]),
            acc == digits_val(digits.take(i - start)),
            acc <= 0x8000_0000u64,
        decreases len - i,
    {
        let c = s.get_char(i);
        proof {
            assert(digits[i - start] == s@[i as int]);
        }
        let code = c as u32;
        if code < 0x30 || code > 0x39 {
            proof {
                assert(!is_digit(digits[i - start]));
                assert(!all_digits(digits));
            }
            return None;
        }
        let d: u64 = (code - 0x30) as u64;
        let next: u64 = acc * 10 + d;
        proof {
            assert(digits.take(i + 1 - start).drop_last() =~= digits.take(i - start));
            assert(digits.take(i + 1 - start).last() == digits[i - start]);
            assert(next == digits_val(digits.take(i + 1 - start)));
        }
        if next > 0x8000_0000 {
            proof {
                if all_digits(digits) {
                    lemma_digits_val_prefix_le(digits, i + 1 - start);
                    assert(digits_val(digits) >= next);
                }
            }
            return None;
        }
        acc = next;
        i = i + 1;
    }
    proof {
        assert(digits.take(len - start) =~= digits);
    }
    if negative {
        if acc == 0x8000_0000 {
            Some(i32::MIN)
        } else {
            Some(-(acc as i32))
        }
    } else {
        if acc > 0x7fff_ffff {
            None
        } else {
            Some(acc as i32)
        }
    }
}

/// What one line of input decides in the original's number-reading loop.
#[derive(Clone, Copy, Debug, PartialEq, Eq, Structural)]
pub enum ReadOutcome {
    /// The trimmed line parsed as a number: the loop stops with it.
    Value(i32),
    /// The line held no valid number: the loop reads another line.
    Retry,
    /// The line was empty, so the input is exhausted; the original ends the
    /// process on this outcome.
    Eof,
}

/// Decides one step of the number-reading loop for the line just read: an
/// empty line means the input is exhausted; otherwise the line, trimmed of
/// whitespace at both ends, either parses as an `i32` or asks for another
/// line.
pub fn read_number(line: &str) -> (r: ReadOutcome)
    ensures
        line@.len() == 0 ==> r == ReadOutcome::Eof,
        line@.len() > 0 ==> r == (match parse_i32_spec(trimmed(line@)) {
            Some(v) => ReadOutcome::Value(v),
            None => ReadOutcome::Retry,
        }),
{
    let len = line.unicode_len();
    if len == 0 {
        return ReadOutcome::Eof;
    }
    proof {
        assert(line@.skip(0) =~= line@);
    }
    let mut start: usize = 0;
    while start < len && is_space_char(line.get_char(start))
        invariant
            0 <= start <= len,
            len == line@.len(),
            trim_front(line@) == trim_front(line@.skip(start as int)),
        decreases len - start,
    {
        proof {
            assert(line@.skip(start as int)[0] == line@[start as int]);
            assert(line@.skip(start as int).drop_first() =~= line@.skip(start + 1));
        }
        start = start + 1;
    }
    proof {
        assert(line@.skip(0) =~= line@);
        if start < len {
            assert(line@.skip(start as int)[0] == line@[start as int]);
        }
        assert(trim_front(line@) == line@.skip(start as int));
    }
    let ghost u: Seq<char> = line@.skip(start as int);
    proof {
        assert(u.take(len - start) =~= u);
    }
    let mut end: usize = len;
    while end > start && is_space_char(line.get_char(end - 1))
        invariant
            start <= end <= len,
            len == line@.len(),
            u == line@.skip(start as int),
            trim_back(u) == trim_back(u.take(end - start)),
        decreases end,
    {
        proof {
            assert(u.take(end - start).last() == line@[end - 1]);
            assert(u.take(end - start).drop_last() =~= u.take(end - 1 - start));
        }
        end = end - 1;
    }
    proof {
        assert(u.take(len - start) =~= u);
        if end > start {
            assert(u.take(end - start).last() == line@[end - 1]);
        }
        assert(trim_back(u) == u.take(end - start));
        assert(u.take(end - start) =~= line@.subrange(start as int, end as int));
    }
    let t = line.substring_char(start, end);
    match parse_i32(t) {
        Some(v) => ReadOutcome::Value(v),
        None => ReadOutcome::Retry,
    }
}

} // verus!
