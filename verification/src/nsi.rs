//! Parsing of compact indirect-string references.
//!
//! An indirect string reference points at a string resource stored inside an
//! external library instead of holding the string inline. Its textual form is
//! `@<library-path>,-<digits>`: a leading `@` marker, the library path
//! verbatim up to the first `,`, and a resource index whose leading `-`
//! characters are markers to be stripped, not signs to be applied.

use vstd::prelude::*;

verus! {

/// Why a piece of text is not a well-formed indirect string reference.
#[derive(Clone, Copy, Debug, PartialEq, Eq, Structural)]
pub enum ParseError {
    /// The text does not begin with the `@` marker.
    MalformedReference,
    /// No `,` separates the library path from the resource index.
    MissingSeparator,
    /// The text after the separator is not a valid resource index.
    InvalidIndex,
}

/// A parsed indirect string reference: a library path and the index of a
/// string resource inside that library.
#[derive(Debug, PartialEq)]
pub struct IndirectString {
    /// Path, or bare file name, of the resource-bearing library.
    pub dllpath: String,
    /// Index into the library's string-resource table. Never negative: the
    /// `-` characters in the source text are markers, stripped before the
    /// digits are read.
    pub strid: i32,
}

/// Whether `c` is a decimal digit.
pub open spec fn is_digit(c: char) -> bool {
    48 <= c as u32 <= 57
}

/// The numeric value of the decimal digit `c`.
pub open spec fn digit_val(c: char) -> int {
    c as u32 - 48
}

/// Whether every character of `s` is a decimal digit.
pub open spec fn all_digits(s: Seq<char>) -> bool {
    forall|i: int| 0 <= i < s.len() ==> is_digit(#[trigger] s[i])
}

/// The base-10 value of a digit sequence.
pub open spec fn digits_value(s: Seq<char>) -> int
    decreases s.len(),
{
    if s.len() == 0 {
        0
    } else {
        digits_value(s.drop_last()) * 10 + digit_val(s.last())
    }
}

/// The position of the first occurrence of `c` in `s` at or after `i`.
pub open spec fn find_char(s: Seq<char>, c: char, i: int) -> Option<int>
    decreases s.len() - i,
{
    if i < 0 || i >= s.len() {
        None
    } else if s[i] == c {
        Some(i)
    } else {
        find_char(s, c, i + 1)
    }
}

/// The position just past the run of `c` characters that starts at `i`.
pub open spec fn skip_char_run(s: Seq<char>, c: char, i: int) -> int
    decreases s.len() - i,
{
    if i < 0 || i >= s.len() {
        i
    } else if s[i] == c {
        skip_char_run(s, c, i + 1)
    } else {
        i
    }
}

/// The resource index denoted by the text after the separator, once its
/// leading `-` markers are gone: an optional `+`, then one or more decimal
/// digits whose value fits an `i32`. `None` where the text is not of that
/// shape.
pub open spec fn spec_parse_index(s: Seq<char>) -> Option<int> {
    let digits = if s.len() > 0 && s[0] == '+' {
        s.drop_first()
    } else {
        s
    };
    if digits.len() > 0 && all_digits(digits) && digits_value(digits) <= i32::MAX {
        Some(digits_value(digits))
    } else {
        None
    }
}

/// What parsing an indirect string reference yields: the library path and the
/// resource index, or the reason the text is rejected.
pub open spec fn spec_parse(s: Seq<char>) -> Result<(Seq<char>, int), ParseError> {
    if s.len() == 0 || s[0] != '@' {
        Err(ParseError::MalformedReference)
    } else {
        match find_char(s, ',', 1) {
            None => Err(ParseError::MissingSeparator),
            Some(k) => {
                let idx = s.subrange(k + 1, s.len() as int);
                let j = skip_char_run(idx, '-', 0);
                match spec_parse_index(idx.subrange(j, idx.len() as int)) {
                    Some(v) => Ok((s.subrange(1, k), v)),
                    None => Err(ParseError::InvalidIndex),
                }
            },
        }
    }
}

proof fn lemma_find_char_at(s: Seq<char>, c: char, i: int, k: int)
    requires
        0 <= i <= k <= s.len(),
        forall|m: int| i <= m < k ==> s[m] != c,
        k == s.len() || s[k] == c,
    ensures
        find_char(s, c, i) == if k == s.len() {
            None::<int>
        } else {
            Some(k)
        },
    decreases k - i,
{
    if i < k {
        lemma_find_char_at(s, c, i + 1, k);
    }
}

proof fn lemma_skip_run_at(s: Seq<char>, c: char, i: int, j: int)
    requires
        0 <= i <= j <= s.len(),
        forall|m: int| i <= m < j ==> s[m] == c,
        j == s.len() || s[j] != c,
    ensures
        skip_char_run(s, c, i) == j,
    decreases j - i,
{
    if i < j {
        lemma_skip_run_at(s, c, i + 1, j);
    }
}

proof fn lemma_digits_value_nonneg(s: Seq<char>)
    requires
        all_digits(s),
    ensures
        digits_value(s) >= 0,
    decreases s.len(),
{
    if s.len() > 0 {
        assert(all_digits(s.drop_last()));
        lemma_digits_value_nonneg(s.drop_last());
    }
}

proof fn lemma_digits_value_prefix_large(s: Seq<char>, i: int, bound: int)
    requires
        0 <= i <= s.len(),
        all_digits(s),
        bound >= 0,
        digits_value(s.subrange(0, i)) > bound,
    ensures
        digits_value(s) > bound,
    decreases s.len() - i,
{
    if i == s.len() {
        assert(s.subrange(0, i) =~= s);
    } else {
        let p = s.subrange(0, i + 1);
        assert(p.drop_last() =~= s.subrange(0, i));
        assert(p.last() == s[i]);
        assert(digits_value(p) == digits_value(s.subrange(0, i)) * 10 + digit_val(s[i]));
        lemma_digits_value_prefix_large(s, i + 1, bound);
    }
}

impl IndirectString {
    /// Parse the textual form of an indirect string reference.
    ///
    /// The text must begin with `@`; the part up to the first `,` is the
    /// library path verbatim; the rest, with every leading `-` stripped, must
    /// read as a base-10 integer no greater than `i32::MAX`. Each way the
    /// text can fall short is reported as its own error.
    #[verifier::loop_isolation(false)]
    pub fn parse(s: &str) -> (r: Result<IndirectString, ParseError>)
        ensures
            match spec_parse(s@) {
                Ok(pv) => r matches Ok(v) && v.dllpath@ == pv.0 && v.strid == pv.1,
                Err(e) => r == Err::<IndirectString, ParseError>(e),
            },
    {
        let n = s.unicode_len();
        if n == 0 || s.get_char(0) != '@' {
            return Err(ParseError::MalformedReference);
        }
        let mut k: usize = 1;
        while k < n && s.get_char(k) != ','
            invariant
                1 <= k <= n,
                n == s@.len(),
                forall|m: int| 1 <= m < k ==> s@[m] != ',',
            decreases n - k,
        {
            k += 1;
        }
        proof {
            lemma_find_char_at(s@, ',', 1, k as int);
        }
        if k == n {
            return Err(ParseError::MissingSeparator);
        }
        let path = s.substring_char(1, k).to_owned();
        let tail = s.substring_char(k + 1, n);
        let m = tail.unicode_len();
        let mut j: usize = 0;
        while j < m && tail.get_char(j) == '-'
            invariant
                0 <= j <= m,
                m == tail@.len(),
                forall|t: int| 0 <= t < j ==> tail@[t] == '-',
            decreases m - j,
        {
            j += 1;
        }
        proof {
            lemma_skip_run_at(tail@, '-', 0, j as int);
        }
        let d0: usize = if j < m && tail.get_char(j) == '+' {
            j + 1
        } else {
            j
        };
        let ghost digits = tail@.subrange(d0 as int, m as int);
        proof {
            if j < m && tail@[j as int] == '+' {
                assert(tail@.subrange(j as int, m as int).drop_first() =~= digits);
            } else {
                assert(tail@.subrange(j as int, m as int) =~= digits);
            }
        }
        if d0 == m {
            return Err(ParseError::InvalidIndex);
        }
        let mut acc: u64 = 0;
        let mut p: usize = d0;
        while p < m
            invariant
                d0 <= p <= m,
                d0 < m,
                m == tail@.len(),
                digits == tail@.subrange(d0 as int, m as int),
                all_digits(tail@.subrange(d0 as int, p as int)),
                acc == digits_value(tail@.subrange(d0 as int, p as int)),
                acc <= 0x7fff_ffff,
            decreases m - p,
        {
            let c = tail.get_char(p);
            let u = c as u32;
            if u < 48 || u > 57 {
                proof {
                    assert(digits[p - d0] == tail@[p as int]);
                    assert(!is_digit(digits[p - d0]));
                }
                return Err(ParseError::InvalidIndex);
            }
            let d = (u - 48) as u64;
            let next = acc * 10 + d;
            proof {
                let q = tail@.subrange(d0 as int, p + 1);
                assert(q.drop_last() =~= tail@.subrange(d0 as int, p as int));
                assert(q.last() == tail@[p as int]);
                assert(digits_value(q) == acc * 10 + d);
                assert(all_digits(q));
            }
            if next > 0x7fff_ffff {
                proof {
                    assert(digits.subrange(0, p + 1 - d0) =~= tail@.subrange(d0 as int, p + 1));
                    if all_digits(digits) {
                        lemma_digits_value_prefix_large(digits, p + 1 - d0, 0x7fff_ffff);
                    }
                }
                return Err(ParseError::InvalidIndex);
            }
            acc = next;
            p += 1;
        }
        proof {
            assert(tail@.subrange(d0 as int, m as int) =~= digits);
        }
        Ok(IndirectString { dllpath: path, strid: acc as i32 })
    }
}

impl core::str::FromStr for IndirectString {
    type Err = ParseError;

    fn from_str(s: &str) -> Result<IndirectString, ParseError> {
        IndirectString::parse(s)
    }
}

/// A well-formed reference reconstructs exactly: `@`, a path free of `,`, the
/// separator, any number of `-` markers and a digit run parse back to that
/// path verbatim and to the digits' value, a non-negative integer, no matter
/// how many markers stood before the digits.
pub proof fn lemma_parse_round_trip(path: Seq<char>, dashes: nat, digits: Seq<char>)
    requires
        !path.contains(','),
        digits.len() > 0,
        all_digits(digits),
        digits_value(digits) <= i32::MAX,
    ensures
        ({
            let s = seq!['@'] + path + seq![','] + Seq::new(dashes, |i: int| '-') + digits;
            spec_parse(s) == Ok::<(Seq<char>, int), ParseError>((path, digits_value(digits)))
        }),
        digits_value(digits) >= 0,
{
    let marks = Seq::new(dashes, |i: int| '-');
    let s = seq!['@'] + path + seq![','] + marks + digits;
    let k = 1 + path.len() as int;
    assert(s[0] == '@');
    assert forall|m: int| 1 <= m < k implies s[m] != ',' by {
        assert(s[m] == path[m - 1]);
        assert(!path.contains(',') ==> path[m - 1] != ',');
    }
    assert(s[k] == ',');
    lemma_find_char_at(s, ',', 1, k);
    let idx = s.subrange(k + 1, s.len() as int);
    assert(idx =~= marks + digits);
    assert forall|m: int| 0 <= m < dashes implies idx[m] == '-' by {
        assert(idx[m] == marks[m]);
    }
    assert(is_digit(digits[0]));
    assert(idx[dashes as int] == digits[0]);
    assert(digits[0] != '-');
    lemma_skip_run_at(idx, '-', 0, dashes as int);
    let body = idx.subrange(dashes as int, idx.len() as int);
    assert(body =~= digits);
    assert(digits[0] != '+');
    lemma_digits_value_nonneg(digits);
    assert(s.subrange(1, k) =~= path);
}

} // verus!
