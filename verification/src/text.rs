//! Text utilities for the interpreter: decimal rendering of storage values,
//! parsing of numeric input lines, and splitting a source text into trimmed
//! lines.

use vstd::prelude::*;

verus! {

/// Relies on `char::from_u32`: returns the character with the given scalar
/// value, or `None` when the value is a surrogate or above `0x10FFFF`.
pub assume_specification[ char::from_u32 ](i: u32) -> (r: Option<char>)
    ensures
        r.is_some() <==> (i < 0xD800 || (0xE000 <= i && i <= 0x10FFFF)),
        r.is_some() ==> r.unwrap() as int == i as int,
;

/// Relies on `String::push`: appends one character at the end of the string.
#[verifier::external_body]
pub(crate) fn push_char(s: &mut String, c: char)
    ensures
        final(s)@ == old(s)@.push(c),
{
    s.push(c);
}

/// The digit character for a value between 0 and 9.
pub open spec fn digit_char(d: int) -> char {
    if d == 0 {
        '0'
    } else if d == 1 {
        '1'
    } else if d == 2 {
        '2'
    } else if d == 3 {
        '3'
    } else if d == 4 {
        '4'
    } else if d == 5 {
        '5'
    } else if d == 6 {
        '6'
    } else if d == 7 {
        '7'
    } else if d == 8 {
        '8'
    } else {
        '9'
    }
}

/// The shortest decimal digit string of a non-negative value.
pub open spec fn decimal_digits(n: int) -> Seq<char>
    recommends
        n >= 0,
    decreases n,
{
    if n < 10 {
        seq![digit_char(n)]
    } else {
        decimal_digits(n / 10).push(digit_char(n % 10))
    }
}

/// The shortest decimal representation of a value: a minus sign for negative
/// values, no padding.
pub open spec fn decimal_rep(v: int) -> Seq<char> {
    if v < 0 {
        seq!['-'] + decimal_digits(-v)
    } else {
        decimal_digits(v)
    }
}

fn digit_char_of(d: u128) -> (r: char)
    requires
        d < 10,
    ensures
        r == digit_char(d as int),
{
    match d {
        0 => '0',
        1 => '1',
        2 => '2',
        3 => '3',
        4 => '4',
        5 => '5',
        6 => '6',
        7 => '7',
        8 => '8',
        _ => '9',
    }
}

pub(crate) fn push_decimal_digits(s: &mut String, m: u128)
    ensures
        final(s)@ == old(s)@ + decimal_digits(m as int),
    decreases m,
{
    if m >= 10 {
        push_decimal_digits(s, m / 10);
    }
    let c = digit_char_of(m % 10);
    push_char(s, c);
    proof {
        if m >= 10 {
            assert(decimal_digits(m as int) == decimal_digits(m as int / 10).push(
                digit_char(m as int % 10),
            ));
            assert(final(s)@ =~= old(s)@ + decimal_digits(m as int));
        } else {
            assert(final(s)@ =~= old(s)@ + decimal_digits(m as int));
        }
    }
}

/// Renders a value as its shortest decimal representation.
pub fn isize_to_string(n: isize) -> (r: String)
    ensures
        r@ == decimal_rep(n as int),
{
    let mut s = String::new();
    if n < 0 {
        push_char(&mut s, '-');
        let m: u128 = (-(n as i128)) as u128;
        push_decimal_digits(&mut s, m);
        proof {
            assert(s@ =~= decimal_rep(n as int));
        }
    } else {
        push_decimal_digits(&mut s, n as u128);
        proof {
            assert(s@ =~= decimal_rep(n as int));
        }
    }
    s
}

/// Whitespace stripped from both ends of an input line before parsing:
/// ASCII blanks and line terminators.
pub open spec fn is_input_ws(c: char) -> bool {
    c == ' ' || c == '\t' || c == '\r' || c == '\n'
}

/// Whitespace trimmed from the end of a source line: ASCII blanks and the
/// carriage return left by a CRLF line terminator.
pub open spec fn is_line_ws(c: char) -> bool {
    c == ' ' || c == '\t' || c == '\r'
}

/// Whether a character is a decimal digit.
pub open spec fn is_dec_digit(c: char) -> bool {
    48 <= c as int <= 57
}

/// The value of a decimal digit character.
pub open spec fn digit_val(c: char) -> int {
    c as int - 48
}

/// Whether every character of a sequence is a decimal digit.
pub open spec fn all_digits(s: Seq<char>) -> bool {
    forall|i: int| 0 <= i < s.len() ==> is_dec_digit(#[trigger] s[i])
}

/// The value of a digit string, most significant digit first.
pub open spec fn digits_value(s: Seq<char>) -> int
    decreases s.len(),
{
    if s.len() == 0 {
        0
    } else {
        digits_value(s.drop_last()) * 10 + digit_val(s.last())
    }
}

/// A sequence without its leading input whitespace.
pub open spec fn trim_front(s: Seq<char>) -> Seq<char>
    decreases s.len(),
{
    if s.len() > 0 && is_input_ws(s.first()) {
        trim_front(s.drop_first())
    } else {
        s
    }
}

/// A sequence without its trailing input whitespace.
pub open spec fn trim_back(s: Seq<char>) -> Seq<char>
    decreases s.len(),
{
    if s.len() > 0 && is_input_ws(s.last()) {
        trim_back(s.drop_last())
    } else {
        s
    }
}

/// A sequence without leading and trailing input whitespace.
pub open spec fn trim_ws(s: Seq<char>) -> Seq<char> {
    trim_front(trim_back(s))
}

/// The integer that an input line denotes: after trimming surrounding
/// whitespace, an optional sign followed by at least one decimal digit.
/// `None` when the line is not of that shape.
pub open spec fn parsed_int(s: Seq<char>) -> Option<int> {
    let t = trim_ws(s);
    let negative = t.len() > 0 && t.first() == '-';
    let mag = if t.len() > 0 && (t.first() == '-' || t.first() == '+') {
        t.drop_first()
    } else {
        t
    };
    if mag.len() > 0 && all_digits(mag) {
        if negative {
            Some(-digits_value(mag))
        } else {
            Some(digits_value(mag))
        }
    } else {
        None
    }
}

pub proof fn lemma_digits_value_nonneg(s: Seq<char>)
    requires
        all_digits(s),
    ensures
        digits_value(s) >= 0,
    decreases s.len(),
{
    if s.len() > 0 {
        assert(all_digits(s.drop_last()));
        lemma_digits_value_nonneg(s.drop_last());
    }
}

pub proof fn lemma_digits_value_mono(s: Seq<char>, i: int, j: int)
    requires
        all_digits(s),
        0 <= i <= j <= s.len(),
    ensures
        digits_value(s.take(i)) <= digits_value(s.take(j)),
    decreases j - i,
{
    if i < j {
        lemma_digits_value_mono(s, i, j - 1);
        assert(all_digits(s.take(j)));
        assert(s.take(j).drop_last() =~= s.take(j - 1));
        lemma_digits_value_nonneg(s.take(j - 1));
    }
}

proof fn lemma_trim_back_at(s: Seq<char>, k: int)
    requires
        0 <= k <= s.len(),
        forall|m: int| k <= m < s.len() ==> is_input_ws(#[trigger] s[m]),
        k > 0 ==> !is_input_ws(s[k - 1]),
    ensures
        trim_back(s) == s.take(k),
    decreases s.len(),
{
    if s.len() == 0 {
        assert(trim_back(s) =~= s.take(k));
    } else if k == s.len() {
        assert(trim_back(s) =~= s.take(k));
    } else {
        assert(is_input_ws(s.last()));
        lemma_trim_back_at(s.drop_last(), k);
        assert(s.drop_last().take(k) =~= s.take(k));
    }
}

proof fn lemma_trim_front_at(s: Seq<char>, k: int)
    requires
        0 <= k <= s.len(),
        forall|m: int| 0 <= m < k ==> is_input_ws(#[trigger] s[m]),
        k < s.len() ==> !is_input_ws(s[k]),
    ensures
        trim_front(s) == s.skip(k),
    decreases k,
{
    if k == 0 {
        assert(trim_front(s) =~= s.skip(0));
    } else {
        assert(is_input_ws(s.first()));
        lemma_trim_front_at(s.drop_first(), k - 1);
        assert(s.drop_first().skip(k - 1) =~= s.skip(k));
    }
}

fn is_input_ws_exec(c: char) -> (r: bool)
    ensures
        r == is_input_ws(c),
{
    c == ' ' || c == '\t' || c == '\r' || c == '\n'
}

/// Parses an input line as a signed decimal integer, whitespace tolerated at
/// both ends. `None` when the line is malformed or its value does not fit.
pub fn parse_isize(s: &str) -> (r: Option<isize>)
    ensures
        r.is_some() <==> (parsed_int(s@).is_some() && isize::MIN <= parsed_int(s@).unwrap()
            <= isize::MAX),
        r.is_some() ==> r.unwrap() as int == parsed_int(s@).unwrap(),
{
    let n = s.unicode_len();
    let mut hi: usize = n;
    loop
        invariant
            0 <= hi <= n,
            n == s@.len(),
            forall|m: int| hi <= m < n ==> is_input_ws(#[trigger] s@[m]),
        ensures
            0 <= hi <= n,
            forall|m: int| hi <= m < n ==> is_input_ws(#[trigger] s@[m]),
            hi > 0 ==> !is_input_ws(s@[hi - 1]),
        decreases hi,
    {
        if hi == 0 {
            break;
        }
        let c = s.get_char(hi - 1);
        if !is_input_ws_exec(c) {
            break;
        }
        hi = hi - 1;
    }
    let mut lo: usize = 0;
    loop
        invariant
            0 <= lo <= hi <= n,
            n == s@.len(),
            forall|m: int| 0 <= m < lo ==> is_input_ws(#[trigger] s@[m]),
            forall|m: int| hi <= m < n ==> is_input_ws(#[trigger] s@[m]),
            hi > 0 ==> !is_input_ws(s@[hi - 1]),
        ensures
            0 <= lo <= hi <= n,
            forall|m: int| 0 <= m < lo ==> is_input_ws(#[trigger] s@[m]),
            lo < hi ==> !is_input_ws(s@[lo as int]),
        decreases hi - lo,
    {
        if lo == hi {
            break;
        }
        let c = s.get_char(lo);
        if !is_input_ws_exec(c) {
            break;
        }
        lo = lo + 1;
    }
    proof {
        lemma_trim_back_at(s@, hi as int);
        lemma_trim_front_at(s@.take(hi as int), lo as int);
        assert(trim_ws(s@) =~= s@.subrange(lo as int, hi as int));
    }
    let ghost t = trim_ws(s@);
    if lo == hi {
        return None;
    }
    let first = s.get_char(lo);
    let negative = first == '-';
    let start: usize = if first == '-' || first == '+' {
        lo + 1
    } else {
        lo
    };
    let ghost mag = s@.subrange(start as int, hi as int);
    proof {
        if first == '-' || first == '+' {
            assert(t.drop_first() =~= mag);
        } else {
            assert(t =~= mag);
        }
    }
    if start == hi {
        return None;
    }
    let mut acc: isize = 0;
    let mut idx: usize = start;
    while idx < hi
        invariant
            start <= idx <= hi <= n,
            n == s@.len(),
            lo <= start <= hi,
            start < hi,
            t == trim_ws(s@),
            t == s@.subrange(lo as int, hi as int),
            first == s@[lo as int],
            negative == (first == '-'),
            start == if first == '-' || first == '+' {
                lo + 1
            } else {
                lo as int
            },
            (first == '-' || first == '+') ==> mag == t.drop_first(),
            !(first == '-' || first == '+') ==> mag == t,
            mag == s@.subrange(start as int, hi as int),
            all_digits(mag.take(idx - start)),
            negative ==> acc as int == -digits_value(mag.take(idx - start)),
            !negative ==> acc as int == digits_value(mag.take(idx - start)),
        decreases hi - idx,
    {
        let c = s.get_char(idx);
        let u = c as u32;
        proof {
            assert(u as int == c as int);
        }
        if u < 48 || u > 57 {
            proof {
                assert(mag[idx - start] == c);
                assert(!is_dec_digit(mag[idx - start]));
                assert(!all_digits(mag));
            }
            return None;
        }
        let d = (u - 48) as isize;
        let ghost prefix = mag.take(idx - start);
        let ghost prefix1 = mag.take(idx + 1 - start);
        proof {
            assert(prefix1.drop_last() =~= prefix);
            assert(prefix1.last() == c);
            assert(all_digits(prefix1));
            assert(digits_value(prefix1) == digits_value(prefix) * 10 + digit_val(c));
            lemma_digits_value_nonneg(prefix);
            assert(0 <= digit_val(c) <= 9);
        }
        let scaled = match acc.checked_mul(10) {
            Some(v) => v,
            None => {
                proof {
                    lemma_out_of_range(mag, idx + 1 - start, negative);
                }
                return None;
            },
        };
        let next = if negative {
            match scaled.checked_sub(d) {
                Some(v) => v,
                None => {
                    proof {
                        lemma_out_of_range(mag, idx + 1 - start, negative);
                    }
                    return None;
                },
            }
        } else {
            match scaled.checked_add(d) {
                Some(v) => v,
                None => {
                    proof {
                        lemma_out_of_range(mag, idx + 1 - start, negative);
                    }
                    return None;
                },
            }
        };
        acc = next;
        idx = idx + 1;
    }
    proof {
        assert(mag.take(hi - start) =~= mag);
    }
    Some(acc)
}

/// A source line without its trailing whitespace.
pub open spec fn trim_trailing(l: Seq<char>) -> Seq<char>
    decreases l.len(),
{
    if l.len() > 0 && is_line_ws(l.last()) {
        trim_trailing(l.drop_last())
    } else {
        l
    }
}

/// Position of the first line feed in a sequence, or -1 when there is none.
pub open spec fn first_nl(s: Seq<char>) -> int
    decreases s.len(),
{
    if s.len() == 0 {
        -1
    } else if s.first() == '\n' {
        0
    } else {
        let r = first_nl(s.drop_first());
        if r < 0 {
            -1
        } else {
            r + 1
        }
    }
}

/// The lines of a text: segments separated by line feeds, with no line after
/// a trailing line feed.
pub open spec fn split_lines(s: Seq<char>) -> Seq<Seq<char>>
    decreases s.len(),
{
    if s.len() == 0 {
        Seq::empty()
    } else {
        let k = first_nl(s);
        if 0 <= k < s.len() {
            seq![s.take(k)] + split_lines(s.skip(k + 1))
        } else {
            seq![s]
        }
    }
}

/// The rows of a program source: its lines, each without trailing whitespace.
pub open spec fn source_rows(s: Seq<char>) -> Seq<Seq<char>> {
    split_lines(s).map_values(|l: Seq<char>| trim_trailing(l))
}

proof fn lemma_first_nl_at(s: Seq<char>, k: int)
    requires
        0 <= k <= s.len(),
        forall|m: int| 0 <= m < k ==> s[m] != '\n',
        k < s.len() ==> s[k] == '\n',
    ensures
        first_nl(s) == if k == s.len() {
            -1int
        } else {
            k
        },
    decreases k,
{
    if k == 0 {
    } else {
        assert(s[0] != '\n');
        assert forall|m: int| 0 <= m < k - 1 implies s.drop_first()[m] != '\n' by {
            assert(s.drop_first()[m] == s[m + 1]);
        }
        lemma_first_nl_at(s.drop_first(), k - 1);
    }
}

proof fn lemma_trim_trailing_at(l: Seq<char>, k: int)
    requires
        0 <= k <= l.len(),
        forall|m: int| k <= m < l.len() ==> is_line_ws(#[trigger] l[m]),
        k > 0 ==> !is_line_ws(l[k - 1]),
    ensures
        trim_trailing(l) == l.take(k),
    decreases l.len(),
{
    if l.len() == 0 {
        assert(trim_trailing(l) =~= l.take(k));
    } else if k == l.len() {
        assert(trim_trailing(l) =~= l.take(k));
    } else {
        assert(is_line_ws(l.last()));
        lemma_trim_trailing_at(l.drop_last(), k);
        assert(l.drop_last().take(k) =~= l.take(k));
    }
}

fn is_line_ws_exec(c: char) -> (r: bool)
    ensures
        r == is_line_ws(c),
{
    c == ' ' || c == '\t' || c == '\r'
}

/// Splits a program source into its rows: lines split on line feeds, each
/// trimmed of trailing whitespace. A carriage return before the line feed
/// counts as trailing whitespace, so CRLF sources read the same as LF ones.
pub fn split_source(s: &str) -> (rows: Vec<Vec<char>>)
    ensures
        rows@.len() == source_rows(s@).len(),
        forall|i: int| 0 <= i < rows@.len() ==> rows@[i]@ == source_rows(s@)[i],
{
    let n = s.unicode_len();
    let mut rows: Vec<Vec<char>> = Vec::new();
    let mut i: usize = 0;
    proof {
        assert(s@.skip(0) =~= s@);
        assert(rows@.map_values(|v: Vec<char>| v@) + source_rows(s@.skip(0)) =~= source_rows(s@));
    }
    while i < n
        invariant
            0 <= i <= n,
            n == s@.len(),
            rows@.map_values(|v: Vec<char>| v@) + source_rows(s@.skip(i as int)) == source_rows(
                s@,
            ),
        decreases n - i,
    {
        let mut j: usize = i;
        let mut found = false;
        while j < n && !found
            invariant
                i <= j <= n,
                n == s@.len(),
                forall|m: int| i <= m < j ==> s@[m] != '\n',
                found ==> (j < n && s@[j as int] == '\n'),
            decreases n - j - (if found {
                1int
            } else {
                0
            }),
        {
            if s.get_char(j) == '\n' {
                found = true;
            } else {
                j = j + 1;
            }
        }
        let mut e: usize = j;
        let mut stop = false;
        while e > i && !stop
            invariant
                i <= e <= j <= n,
                n == s@.len(),
                forall|m: int| e <= m < j ==> is_line_ws(#[trigger] s@[m]),
                stop ==> (e > i && !is_line_ws(s@[e - 1])),
            decreases e - i - (if stop {
                1int
            } else {
                0
            }),
        {
            if is_line_ws_exec(s.get_char(e - 1)) {
                e = e - 1;
            } else {
                stop = true;
            }
        }
        let mut line: Vec<char> = Vec::new();
        let mut p: usize = i;
        while p < e
            invariant
                i <= p <= e <= n,
                n == s@.len(),
                line@ == s@.subrange(i as int, p as int),
            decreases e - p,
        {
            let c = s.get_char(p);
            line.push(c);
            proof {
                assert(line@ =~= s@.subrange(i as int, p as int + 1));
            }
            p = p + 1;
        }
        proof {
            let seg = s@.skip(i as int);
            let k = j - i;
            assert forall|m: int| 0 <= m < k implies seg[m] != '\n' by {
                assert(seg[m] == s@[i + m]);
            }
            if found {
                assert(seg[k] == s@[j as int]);
            } else {
                assert(j == n);
            }
            lemma_first_nl_at(seg, k);
            let untrimmed = s@.subrange(i as int, j as int);
            assert forall|m: int| e - i <= m < untrimmed.len() implies is_line_ws(
                #[trigger] untrimmed[m],
            ) by {
                assert(untrimmed[m] == s@[i + m]);
            }
            lemma_trim_trailing_at(untrimmed, e - i);
            assert(untrimmed.take(e - i) =~= s@.subrange(i as int, e as int));
            assert(trim_trailing(untrimmed) == line@);
            let rest = if found {
                s@.skip(j + 1)
            } else {
                Seq::<char>::empty()
            };
            if found {
                assert(seg.take(k) =~= untrimmed);
                assert(seg.skip(k + 1) =~= rest);
                assert(split_lines(seg) == seq![untrimmed] + split_lines(rest));
            } else {
                assert(seg =~= untrimmed);
                assert(split_lines(seg) == seq![untrimmed]);
                assert(split_lines(rest) =~= Seq::<Seq<char>>::empty());
            }
            assert(source_rows(seg) =~= seq![line@] + source_rows(rest));
            assert(rows@.push(line).map_values(|v: Vec<char>| v@) =~= rows@.map_values(
                |v: Vec<char>| v@,
            ) + seq![line@]);
            assert(rows@.push(line).map_values(|v: Vec<char>| v@) + source_rows(rest)
                =~= rows@.map_values(|v: Vec<char>| v@) + source_rows(seg));
            if found {
                assert(s@.skip(j + 1) == rest);
            } else {
                assert(s@.skip(n as int) =~= rest);
            }
        }
        rows.push(line);
        i = if found {
            j + 1
        } else {
            n
        };
    }
    proof {
        assert(s@.skip(n as int) =~= Seq::<char>::empty());
        assert(source_rows(Seq::<char>::empty()) =~= Seq::<Seq<char>>::empty());
        assert(rows@.map_values(|v: Vec<char>| v@) =~= rows@.map_values(|v: Vec<char>| v@)
            + source_rows(s@.skip(n as int)));
        assert forall|i2: int| 0 <= i2 < rows@.len() implies rows@[i2]@ == source_rows(s@)[i2] by {
            assert(rows@.map_values(|v: Vec<char>| v@)[i2] == rows@[i2]@);
        }
    }
    rows
}

/// If some prefix of the digit string already denotes a value outside the
/// machine range, so does the whole string.
proof fn lemma_out_of_range(mag: Seq<char>, k: int, negative: bool)
    requires
        0 < k <= mag.len(),
        all_digits(mag.take(k)),
        negative ==> -digits_value(mag.take(k)) < isize::MIN,
        !negative ==> digits_value(mag.take(k)) > isize::MAX,
    ensures
        all_digits(mag) ==> {
            let v = if negative {
                -digits_value(mag)
            } else {
                digits_value(mag)
            };
            !(isize::MIN <= v <= isize::MAX)
        },
{
    if all_digits(mag) {
        lemma_digits_value_mono(mag, k, mag.len() as int);
        assert(mag.take(mag.len() as int) =~= mag);
    }
}

/// Trimming trailing whitespace keeps every character up to and including a
/// non-whitespace one.
proof fn lemma_trim_back_keeps(s: Seq<char>, k: int)
    requires
        0 <= k < s.len(),
        !is_input_ws(s[k]),
    ensures
        trim_back(s).len() > k,
        forall|m: int| 0 <= m <= k ==> trim_back(s)[m] == s[m],
    decreases s.len(),
{
    if s.len() > 0 && is_input_ws(s.last()) {
        assert(k < s.len() - 1);
        lemma_trim_back_keeps(s.drop_last(), k);
        assert forall|m: int| 0 <= m <= k implies trim_back(s)[m] == s[m] by {
            assert(trim_back(s.drop_last())[m] == s.drop_last()[m]);
            assert(s.drop_last()[m] == s[m]);
        }
    }
}

/// The first character of an input line after trimming surrounding
/// whitespace, or `None` when only whitespace remains.
pub fn first_trimmed_char(s: &str) -> (r: Option<char>)
    ensures
        r.is_some() <==> trim_ws(s@).len() > 0,
        r.is_some() ==> r.unwrap() == trim_ws(s@).first(),
{
    let n = s.unicode_len();
    let mut k: usize = 0;
    let mut found = false;
    while k < n && !found
        invariant
            0 <= k <= n,
            n == s@.len(),
            forall|m: int| 0 <= m < k ==> is_input_ws(#[trigger] s@[m]),
            found ==> (k < n && !is_input_ws(s@[k as int])),
        decreases n - k - (if found {
            1int
        } else {
            0
        }),
    {
        if is_input_ws_exec(s.get_char(k)) {
            k = k + 1;
        } else {
            found = true;
        }
    }
    if !found {
        proof {
            lemma_trim_back_at(s@, 0);
            assert(trim_back(s@) =~= Seq::<char>::empty());
        }
        return None;
    }
    let c = s.get_char(k);
    proof {
        lemma_trim_back_keeps(s@, k as int);
        let tb = trim_back(s@);
        assert forall|m: int| 0 <= m < k implies is_input_ws(#[trigger] tb[m]) by {
            assert(tb[m] == s@[m]);
        }
        assert(!is_input_ws(tb[k as int]));
        lemma_trim_front_at(tb, k as int);
        assert(trim_ws(s@) == tb.skip(k as int));
        assert(trim_ws(s@).first() == tb[k as int]);
    }
    Some(c)
}

} // verus!
