//! Verified text utilities used by the store: whitespace trimming for
//! recipient marker contents, whitespace splitting for extra tool
//! arguments, octal parsing for the umask configuration value, and lenient
//! byte-sequence decoding for the encryption tool's diagnostic output.

use vstd::prelude::*;

verus! {

/// Whether `c` has the Unicode white-space property, the set honoured when
/// trimming a recipient marker's contents.
pub open spec fn is_ws(c: char) -> bool {
    c == '\u{0009}' || c == '\u{000A}' || c == '\u{000B}' || c == '\u{000C}' || c == '\u{000D}'
        || c == ' ' || c == '\u{0085}' || c == '\u{00A0}' || c == '\u{1680}' || (
    '\u{2000}' <= c && c <= '\u{200A}') || c == '\u{2028}' || c == '\u{2029}' || c == '\u{202F}'
        || c == '\u{205F}' || c == '\u{3000}'
}

/// Executable check for [`is_ws`].
pub fn is_ws_char(c: char) -> (r: bool)
    ensures
        r == is_ws(c),
{
    c == '\u{0009}' || c == '\u{000A}' || c == '\u{000B}' || c == '\u{000C}' || c == '\u{000D}'
        || c == ' ' || c == '\u{0085}' || c == '\u{00A0}' || c == '\u{1680}' || ('\u{2000}' <= c
        && c <= '\u{200A}') || c == '\u{2028}' || c == '\u{2029}' || c == '\u{202F}'
        || c == '\u{205F}' || c == '\u{3000}'
}

/// The number of leading white-space characters of `s`.
pub open spec fn ws_prefix_len(s: Seq<char>) -> int
    decreases s.len(),
{
    if s.len() == 0 || !is_ws(s[0]) {
        0
    } else {
        1 + ws_prefix_len(s.drop_first())
    }
}

/// The number of trailing white-space characters of `s`.
pub open spec fn ws_suffix_len(s: Seq<char>) -> int
    decreases s.len(),
{
    if s.len() == 0 || !is_ws(s[s.len() - 1]) {
        0
    } else {
        1 + ws_suffix_len(s.take(s.len() - 1))
    }
}

/// `s` with its leading and trailing white space removed.
pub open spec fn trim_spec(s: Seq<char>) -> Seq<char> {
    if ws_prefix_len(s) == s.len() {
        Seq::empty()
    } else {
        s.subrange(ws_prefix_len(s), s.len() - ws_suffix_len(s))
    }
}

proof fn lemma_ws_prefix_char(s: Seq<char>, i: int)
    requires
        0 <= i <= s.len(),
        forall|j: int| 0 <= j < i ==> is_ws(s[j]),
        i < s.len() ==> !is_ws(s[i]),
    ensures
        ws_prefix_len(s) == i,
    decreases s.len(),
{
    if s.len() == 0 {
    } else if i == 0 {
    } else {
        lemma_ws_prefix_char(s.drop_first(), i - 1);
    }
}

proof fn lemma_ws_suffix_char(s: Seq<char>, k: int)
    requires
        0 <= k <= s.len(),
        forall|j: int| s.len() - k <= j < s.len() ==> is_ws(s[j]),
        k < s.len() ==> !is_ws(s[s.len() - 1 - k]),
    ensures
        ws_suffix_len(s) == k,
    decreases s.len(),
{
    if s.len() == 0 {
    } else if k == 0 {
    } else {
        lemma_ws_suffix_char(s.take(s.len() - 1), k - 1);
    }
}

/// Returns `s` with leading and trailing white space removed, as
/// [`str::trim`] does.
pub fn trim(s: &str) -> (r: String)
    ensures
        r@ == trim_spec(s@),
{
    let n = s.unicode_len();
    let mut a: usize = 0;
    while a < n && is_ws_char(s.get_char(a))
        invariant
            n == s@.len(),
            a <= n,
            forall|j: int| 0 <= j < a ==> is_ws(s@[j]),
        decreases n - a,
    {
        a = a + 1;
    }
    let mut b: usize = n;
    while b > a && is_ws_char(s.get_char(b - 1))
        invariant
            n == s@.len(),
            a <= b <= n,
            forall|j: int| 0 <= j < a ==> is_ws(s@[j]),
            a < n ==> !is_ws(s@[a as int]),
            forall|j: int| b <= j < n ==> is_ws(s@[j]),
        decreases b,
    {
        b = b - 1;
    }
    proof {
        if a == n {
            lemma_ws_prefix_char(s@, n as int);
            assert(trim_spec(s@) =~= s@.subrange(a as int, b as int));
        } else {
            lemma_ws_prefix_char(s@, a as int);
            lemma_ws_suffix_char(s@, n - b);
        }
    }
    let t = s.substring_char(a, b);
    String::from_str(t)
}

/// Whether `c` is ASCII white space, the set honoured when splitting the
/// extra tool arguments.
pub open spec fn is_ascii_ws(c: char) -> bool {
    c == ' ' || c == '\u{0009}' || c == '\u{000A}' || c == '\u{000C}' || c == '\u{000D}'
}

/// Executable check for [`is_ascii_ws`].
pub fn is_ascii_ws_char(c: char) -> (r: bool)
    ensures
        r == is_ascii_ws(c),
{
    c == ' ' || c == '\u{0009}' || c == '\u{000A}' || c == '\u{000C}' || c == '\u{000D}'
}

/// The tokens of `s` after splitting at ASCII white space, scanned left to
/// right: `i` is the position of the scan, `toks` the finished tokens and
/// `cur` the token being gathered.
pub open spec fn split_ws_from(s: Seq<char>, i: int, toks: Seq<Seq<char>>, cur: Seq<char>) -> Seq<
    Seq<char>,
>
    decreases s.len() - i,
{
    if i < 0 || i >= s.len() {
        if cur.len() > 0 {
            toks.push(cur)
        } else {
            toks
        }
    } else if is_ascii_ws(s[i]) {
        split_ws_from(
            s,
            i + 1,
            if cur.len() > 0 {
                toks.push(cur)
            } else {
                toks
            },
            Seq::empty(),
        )
    } else {
        split_ws_from(s, i + 1, toks, cur.push(s[i]))
    }
}

/// The maximal runs of non-white-space characters of `s`, in order.
pub open spec fn split_ws_spec(s: Seq<char>) -> Seq<Seq<char>> {
    split_ws_from(s, 0, Seq::empty(), Seq::empty())
}

/// Splits `s` at ASCII white space into its maximal non-white-space runs,
/// as [`str::split_ascii_whitespace`] does.
pub fn split_ascii_ws(s: &str) -> (r: Vec<String>)
    ensures
        r.deep_view() == split_ws_spec(s@),
{
    let n = s.unicode_len();
    let mut toks: Vec<String> = Vec::new();
    let mut start: usize = 0;
    let mut i: usize = 0;
    proof {
        assert(toks.deep_view() =~= Seq::<Seq<char>>::empty());
        assert(s@.subrange(0, 0) =~= Seq::<char>::empty());
    }
    while i < n
        invariant
            n == s@.len(),
            start <= i <= n,
            split_ws_spec(s@) == split_ws_from(
                s@,
                i as int,
                toks.deep_view(),
                s@.subrange(start as int, i as int),
            ),
        decreases n - i,
    {
        let ghost prev_toks = toks.deep_view();
        let ghost prev_cur = s@.subrange(start as int, i as int);
        let c = s.get_char(i);
        if is_ascii_ws_char(c) {
            if i > start {
                let t = String::from_str(s.substring_char(start, i));
                toks.push(t);
                proof {
                    assert(toks.deep_view() =~= prev_toks.push(prev_cur));
                }
            }
            i = i + 1;
            start = i;
            proof {
                assert(s@.subrange(start as int, i as int) =~= Seq::<char>::empty());
            }
        } else {
            i = i + 1;
            proof {
                assert(s@.subrange(start as int, i as int) =~= prev_cur.push(s@[i - 1]));
            }
        }
    }
    if start < n {
        let ghost prev_toks = toks.deep_view();
        let t = String::from_str(s.substring_char(start, n));
        toks.push(t);
        proof {
            assert(toks.deep_view() =~= prev_toks.push(s@.subrange(start as int, n as int)));
        }
    }
    toks
}

/// Whether `c` is an octal digit.
pub open spec fn is_octal_digit(c: char) -> bool {
    '0' <= c && c <= '7'
}

/// Whether every character of `s` is an octal digit.
pub open spec fn all_octal_digits(s: Seq<char>) -> bool
    decreases s.len(),
{
    s.len() == 0 || (all_octal_digits(s.take(s.len() - 1)) && is_octal_digit(s[s.len() - 1]))
}

/// The value of `s` read as an octal numeral.
pub open spec fn octal_val(s: Seq<char>) -> int
    decreases s.len(),
{
    if s.len() == 0 {
        0
    } else {
        8 * octal_val(s.take(s.len() - 1)) + (s[s.len() - 1] as int - '0' as int)
    }
}

/// What parsing a umask-style octal numeral yields: the digits after an
/// optional leading plus sign, provided there is at least one, all are
/// octal, and the value fits the mode type.
pub open spec fn parse_octal_spec(s: Seq<char>) -> Option<u32> {
    let digits = if s.len() > 0 && s[0] == '+' {
        s.drop_first()
    } else {
        s
    };
    if digits.len() > 0 && all_octal_digits(digits) && octal_val(digits) <= u32::MAX {
        Some(octal_val(digits) as u32)
    } else {
        None
    }
}

proof fn lemma_not_all_octal(s: Seq<char>, k: int)
    requires
        0 <= k < s.len(),
        !is_octal_digit(s[k]),
    ensures
        !all_octal_digits(s),
    decreases s.len(),
{
    if k < s.len() - 1 {
        lemma_not_all_octal(s.take(s.len() - 1), k);
    }
}

proof fn lemma_all_octal_take(s: Seq<char>, i: int)
    requires
        all_octal_digits(s),
        0 <= i <= s.len(),
    ensures
        all_octal_digits(s.take(i)),
    decreases s.len(),
{
    if i < s.len() {
        lemma_all_octal_take(s.take(s.len() - 1), i);
        assert(s.take(s.len() - 1).take(i) =~= s.take(i));
    } else {
        assert(s.take(i) =~= s);
    }
}

proof fn lemma_octal_val_nonneg(s: Seq<char>)
    requires
        all_octal_digits(s),
    ensures
        octal_val(s) >= 0,
    decreases s.len(),
{
    if s.len() > 0 {
        lemma_octal_val_nonneg(s.take(s.len() - 1));
    }
}

proof fn lemma_octal_prefix_le(s: Seq<char>, i: int)
    requires
        0 <= i <= s.len(),
        all_octal_digits(s),
    ensures
        octal_val(s.take(i)) <= octal_val(s),
    decreases s.len() - i,
{
    if i < s.len() {
        lemma_octal_prefix_le(s, i + 1);
        assert(s.take(i + 1).take(i) =~= s.take(i));
        lemma_all_octal_take(s, i);
        lemma_octal_val_nonneg(s.take(i));
        lemma_all_octal_take(s, i + 1);
    } else {
        assert(s.take(i) =~= s);
    }
}

/// Parses a umask-style octal numeral, yielding its value when the input
/// is a well-formed octal numeral whose value fits, and nothing otherwise.
pub fn parse_octal(s: &str) -> (r: Option<u32>)
    ensures
        r == parse_octal_spec(s@),
{
    let n = s.unicode_len();
    let mut start: usize = 0;
    if n > 0 && s.get_char(0) == '+' {
        start = 1;
    }
    let ghost digits = if s@.len() > 0 && s@[0] == '+' {
        s@.drop_first()
    } else {
        s@
    };
    if start >= n {
        return None;
    }
    let mut acc: u32 = 0;
    let mut i: usize = start;
    while i < n
        invariant
            n == s@.len(),
            start <= i <= n,
            start < n,
            start == 1 ==> s@[0] == '+',
            start == 0 ==> !(s@.len() > 0 && s@[0] == '+'),
            digits == (if s@.len() > 0 && s@[0] == '+' {
                s@.drop_first()
            } else {
                s@
            }),
            digits.len() == n - start,
            forall|j: int| 0 <= j < digits.len() ==> digits[j] == s@[j + start],
            all_octal_digits(digits.take(i - start)),
            acc == octal_val(digits.take(i - start)),
        decreases n - i,
    {
        let c = s.get_char(i);
        if !('0' <= c && c <= '7') {
            proof {
                assert(!is_octal_digit(digits[i - start]));
                lemma_not_all_octal(digits, i - start);
                assert(parse_octal_spec(s@) is None);
            }
            return None;
        }
        let d: u32 = (c as u32) - ('0' as u32);
        proof {
            assert(digits.take(i + 1 - start).take(i - start) =~= digits.take(i - start));
            assert(digits.take(i + 1 - start)[i - start] == s@[i as int]);
            assert(all_octal_digits(digits.take(i + 1 - start)));
            assert(octal_val(digits.take(i + 1 - start)) == 8 * (acc as int) + d);
        }
        if acc > (u32::MAX - d) / 8 {
            proof {
                assert(8 * (acc as int) + d > u32::MAX);
                if all_octal_digits(digits) {
                    lemma_octal_prefix_le(digits, i + 1 - start);
                    assert(octal_val(digits) > u32::MAX);
                }
                assert(parse_octal_spec(s@) is None);
            }
            return None;
        }
        acc = acc * 8 + d;
        i = i + 1;
    }
    proof {
        assert(digits.take(n - start) =~= digits);
    }
    Some(acc)
}

/// The characters that decoding a byte sequence leniently yields, with
/// invalid encoding replaced rather than rejected.  The result depends on
/// the bytes alone.
pub uninterp spec fn lossy_decode(bytes: Seq<u8>) -> Seq<char>;

/// Relies on `String::from_utf8_lossy`: decodes the bytes as UTF-8,
/// replacing invalid sequences with the replacement character; the result
/// is a function of the bytes alone.
#[verifier::external_body]
pub fn decode_lossy(bytes: &Vec<u8>) -> (r: String)
    ensures
        r@ == lossy_decode(bytes@),
{
    String::from_utf8_lossy(bytes.as_slice()).into_owned()
}

} // verus!
