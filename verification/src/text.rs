//! Text helpers: decoding of byte buffers, trimming, decimal formatting.

use vstd::prelude::*;
use vstd::utf8::*;
use vstd::string::*;

verus! {

broadcast use vstd::seq::group_seq_axioms;

/// The characters that `String::from_utf8_lossy` produces for `bytes`.
pub uninterp spec fn utf8_lossy_decode(bytes: Seq<u8>) -> Seq<char>;

/// What `String::from_utf8_lossy` gives for `bytes`: the decoded text
/// when the bytes are valid UTF-8 (as its documentation promises), and
/// otherwise the named result, in which each invalid sequence has become
/// U+FFFD.
pub open spec fn lossy_text(bytes: Seq<u8>) -> Seq<char> {
    if valid_utf8(bytes) {
        decode_utf8(bytes)
    } else {
        utf8_lossy_decode(bytes)
    }
}

/// `String::from_utf8_lossy`: decodes `bytes`, replacing each invalid
/// sequence by U+FFFD. Of invalid input nothing is stated but that the
/// result is the name's value for those bytes.
#[verifier::external_body]
pub(crate) fn decode_utf8_lossy(bytes: &[u8]) -> (res: String)
    ensures
        res@ == (if valid_utf8(bytes@) {
            decode_utf8(bytes@)
        } else {
            utf8_lossy_decode(bytes@)
        }),
{
    String::from_utf8_lossy(bytes).into_owned()
}

/// `String::push`: appends one character.
#[verifier::external_body]
pub(crate) fn push_char(s: &mut String, c: char)
    ensures
        final(s)@ == old(s)@.push(c),
{
    s.push(c);
}

/// `s` without its trailing run of NUL characters.
pub open spec fn trim_trailing_nul(s: Seq<char>) -> Seq<char>
    decreases s.len(),
{
    if s.len() > 0 && s.last() == '\0' {
        trim_trailing_nul(s.drop_last())
    } else {
        s
    }
}

/// Removes the trailing NUL characters of `s`.
pub fn trim_end_nul(s: &str) -> (res: String)
    ensures
        res@ == trim_trailing_nul(s@),
{
    let n = s.unicode_len();
    let mut k = n;
    assert(s@ =~= s@.subrange(0, n as int));
    while k > 0 && s.get_char(k - 1) == '\0'
        invariant
            k <= n,
            n == s@.len(),
            trim_trailing_nul(s@) == trim_trailing_nul(s@.subrange(0, k as int)),
        decreases k,
    {
        assert(s@.subrange(0, k as int).drop_last() =~= s@.subrange(0, k - 1));
        k = k - 1;
    }
    String::from_str(s.substring_char(0, k))
}


/// Characters with the Unicode `White_Space` property.
pub open spec fn is_white_space(c: char) -> bool {
    ||| '\u{9}' <= c <= '\u{d}'
    ||| c == ' '
    ||| c == '\u{85}'
    ||| c == '\u{a0}'
    ||| c == '\u{1680}'
    ||| '\u{2000}' <= c <= '\u{200a}'
    ||| c == '\u{2028}'
    ||| c == '\u{2029}'
    ||| c == '\u{202f}'
    ||| c == '\u{205f}'
    ||| c == '\u{3000}'
}

/// Whether `c` is white space, as `char::is_whitespace` tells (the
/// Unicode `White_Space` property).
pub fn char_is_whitespace(c: char) -> (res: bool)
    ensures
        res == is_white_space(c),
{
    ('\u{9}' <= c && c <= '\u{d}') || c == ' ' || c == '\u{85}' || c == '\u{a0}' || c == '\u{1680}'
        || ('\u{2000}' <= c && c <= '\u{200a}') || c == '\u{2028}' || c == '\u{2029}' || c == '\u{202f}'
        || c == '\u{205f}' || c == '\u{3000}'
}

/// Length of the run of non-white-space characters at the start of `s`.
pub open spec fn word_len(s: Seq<char>) -> nat
    decreases s.len(),
{
    if s.len() == 0 || is_white_space(s[0]) {
        0
    } else {
        1 + word_len(s.drop_first())
    }
}

/// The white-space separated words of `s`, in order (what
/// `str::split_whitespace` yields).
pub open spec fn words(s: Seq<char>) -> Seq<Seq<char>>
    decreases s.len(),
{
    if s.len() == 0 {
        Seq::empty()
    } else if is_white_space(s[0]) {
        words(s.drop_first())
    } else {
        let k = word_len(s);
        proof {
            lemma_word_len_bound(s);
        }
        seq![s.take(k as int)] + words(s.skip(k as int))
    }
}

/// A word is no longer than the text, and not empty when the text starts
/// with a character other than white space.
pub proof fn lemma_word_len_bound(s: Seq<char>)
    ensures
        word_len(s) <= s.len(),
        s.len() > 0 && !is_white_space(s[0]) ==> word_len(s) > 0,
    decreases s.len(),
{
    if s.len() > 0 && !is_white_space(s[0]) {
        lemma_word_len_bound(s.drop_first());
    }
}

/// Splits `s` into its white-space separated words.
pub fn split_words(s: &str) -> (res: Vec<String>)
    ensures
        res@.map_values(|w: String| w@) == words(s@),
{
    let n = s.unicode_len();
    let mut res: Vec<String> = Vec::new();
    let mut i: usize = 0;
    assert(s@.skip(0) =~= s@);
    while i < n
        invariant
            i <= n,
            n == s@.len(),
            words(s@) == res@.map_values(|w: String| w@) + words(s@.skip(i as int)),
        decreases n - i,
    {
        let ghost rest = s@.skip(i as int);
        if char_is_whitespace(s.get_char(i)) {
            assert(rest.drop_first() =~= s@.skip(i + 1));
            i = i + 1;
        } else {
            let mut j: usize = i + 1;
            proof {
                assert(rest.drop_first() =~= s@.skip(i + 1));
            }
            while j < n && !char_is_whitespace(s.get_char(j))
                invariant
                    i < j <= n,
                    n == s@.len(),
                    rest == s@.skip(i as int),
                    word_len(rest) == (j - i) + word_len(s@.skip(j as int)),
                decreases n - j,
            {
                assert(s@.skip(j as int).drop_first() =~= s@.skip(j + 1));
                j = j + 1;
            }
            proof {
                if j < n {
                    assert(s@.skip(j as int)[0] == s@[j as int]);
                }
                assert(word_len(rest) == j - i);
                assert(rest.take((j - i) as int) =~= s@.subrange(i as int, j as int));
                assert(rest.skip((j - i) as int) =~= s@.skip(j as int));
            }
            let w = String::from_str(s.substring_char(i, j));
            let ghost before = res@;
            res.push(w);
            proof {
                assert(res@.map_values(|w: String| w@) =~= before.map_values(|w: String| w@).push(
                    s@.subrange(i as int, j as int),
                ));
                assert(words(rest) == seq![s@.subrange(i as int, j as int)] + words(s@.skip(j as int)));
                assert(res@.map_values(|w: String| w@) + words(s@.skip(j as int)) =~= before.map_values(
                    |w: String| w@,
                ) + words(rest));
            }
            i = j;
        }
    }
    assert(s@.skip(n as int) =~= Seq::<char>::empty());
    assert(res@.map_values(|w: String| w@) + Seq::<Seq<char>>::empty() =~= res@.map_values(
        |w: String| w@,
    ));
    res
}


/// The decimal digit character for `d < 10`.
pub open spec fn digit_char(d: nat) -> char {
    ((48 + d) as u8) as char
}

/// The decimal representation of `n`, without leading zeros.
pub open spec fn decimal(n: nat) -> Seq<char>
    decreases n,
{
    if n < 10 {
        seq![digit_char(n)]
    } else {
        decimal(n / 10).push(digit_char(n % 10))
    }
}

/// Formats `n` in decimal, as `{}` formats an unsigned integer.
pub fn format_u64(n: u64) -> (res: String)
    ensures
        res@ == decimal(n as nat),
{
    // Digits from the least significant one.
    let mut digits: Vec<char> = Vec::new();
    let mut m: u64 = n;
    loop
        invariant_except_break
            decimal(n as nat) == decimal(m as nat) + digits@.reverse(),
        ensures
            decimal(n as nat) == digits@.reverse(),
        decreases m,
    {
        let d = m % 10;
        let c = ((48 + d) as u8) as char;
        assert(c == digit_char((m % 10) as nat));
        if m < 10 {
            let ghost old_digits = digits@;
            digits.push(c);
            proof {
                assert(digits@.reverse() =~= seq![c] + old_digits.reverse());
                assert(decimal(m as nat) == seq![c]);
            }
            break;
        }
        proof {
            assert(decimal(m as nat) == decimal((m / 10) as nat).push(digit_char((m % 10) as nat)));
        }
        let ghost old_digits = digits@;
        digits.push(c);
        proof {
            assert(digits@.reverse() =~= seq![c] + old_digits.reverse());
            assert(decimal((m / 10) as nat).push(c) + old_digits.reverse() =~= decimal(
                (m / 10) as nat,
            ) + digits@.reverse());
        }
        m = m / 10;
    }
    let mut res = String::new();
    let mut k = digits.len();
    while k > 0
        invariant
            k <= digits@.len(),
            res@ == digits@.reverse().take(digits@.len() - k),
        decreases k,
    {
        k = k - 1;
        push_char(&mut res, digits[k]);
        assert(res@ =~= digits@.reverse().take(digits@.len() - k));
    }
    assert(res@ =~= digits@.reverse());
    res
}

/// An ASCII decimal digit.
pub open spec fn is_digit(c: char) -> bool {
    '0' <= c <= '9'
}

/// The value of a string of decimal digits.
pub open spec fn digits_value(d: Seq<char>) -> nat
    decreases d.len(),
{
    if d.len() == 0 {
        0
    } else {
        digits_value(d.drop_last()) * 10 + (d.last() as nat - 48) as nat
    }
}

/// `s` without one leading `+`.
pub open spec fn unsigned_part(s: Seq<char>) -> Seq<char> {
    if s.len() > 0 && s[0] == '+' {
        s.drop_first()
    } else {
        s
    }
}

/// Every character of `d` is a decimal digit.
pub open spec fn all_digits(d: Seq<char>) -> bool {
    forall|i: int| 0 <= i < d.len() ==> is_digit(#[trigger] d[i])
}

/// What `u32::from_str` gives: an optional `+` followed by one or more
/// decimal digits whose value fits in `u32`; anything else is an error.
pub open spec fn parsed_u32(s: Seq<char>) -> Option<u32> {
    let d = unsigned_part(s);
    if d.len() > 0 && all_digits(d) && digits_value(d) <= u32::MAX {
        Some(digits_value(d) as u32)
    } else {
        None
    }
}

proof fn lemma_digits_value_prefix(d: Seq<char>, k: int)
    requires
        0 <= k <= d.len(),
        forall|i: int| 0 <= i < d.len() ==> is_digit(#[trigger] d[i]),
    ensures
        digits_value(d.take(k)) <= digits_value(d),
    decreases d.len(),
{
    if k < d.len() {
        assert(d.drop_last().take(k) =~= d.take(k));
        lemma_digits_value_prefix(d.drop_last(), k);
    } else {
        assert(d.take(k) =~= d);
    }
}

/// Parses a decimal `u32` as `str::parse::<u32>` does.
pub fn parse_u32(s: &str) -> (res: Option<u32>)
    ensures
        res == parsed_u32(s@),
{
    let n = s.unicode_len();
    let start: usize = if n > 0 && s.get_char(0) == '+' {
        1
    } else {
        0
    };
    let ghost d = s@.skip(start as int);
    assert(d =~= unsigned_part(s@));
    if start == n {
        return None;
    }
    let mut acc: u64 = 0;
    let mut i: usize = start;
    while i < n
        invariant
            start <= i <= n,
            n == s@.len(),
            d == s@.skip(start as int),
            d == unsigned_part(s@),
            acc == digits_value(d.take(i - start)),
            acc <= u32::MAX,
            forall|j: int| 0 <= j < i - start ==> is_digit(#[trigger] d[j]),
        decreases n - i,
    {
        let c = s.get_char(i);
        if !('0' <= c && c <= '9') {
            assert(d[i - start] == c);
            assert(!is_digit(d[i - start]));
            assert(!all_digits(d));
            return None;
        }
        assert(d.take(i + 1 - start).drop_last() =~= d.take(i - start));
        assert(d.take(i + 1 - start).last() == c);
        acc = acc * 10 + ((c as u32) - 48) as u64;
        if acc > 0xffff_ffff {
            proof {
                let t = d.take(i + 1 - start);
                assert(digits_value(t) == digits_value(t.drop_last()) * 10 + (t.last() as nat - 48) as nat);
                assert(digits_value(t) == acc);
                if all_digits(d) {
                    lemma_digits_value_prefix(d, i + 1 - start);
                }
            }
            return None;
        }
        i = i + 1;
    }
    assert(d.take(n - start) =~= d);
    Some(acc as u32)
}

/// The number of lines (split at `'\n'`) that contain a character other
/// than white space, counting from a point where `seen` tells whether the
/// current line already had one.
pub open spec fn nonblank_lines(s: Seq<char>, seen: bool) -> nat
    decreases s.len(),
{
    if s.len() == 0 {
        0
    } else if s[0] == '\n' {
        nonblank_lines(s.drop_first(), false)
    } else if !is_white_space(s[0]) && !seen {
        1 + nonblank_lines(s.drop_first(), true)
    } else {
        nonblank_lines(s.drop_first(), seen)
    }
}

/// Counts the lines of `s` that are not blank, as
/// `s.lines().filter(|l| !l.trim().is_empty()).count()` does.
pub fn count_nonblank_lines(s: &str) -> (res: usize)
    ensures
        res == nonblank_lines(s@, false),
{
    let n = s.unicode_len();
    let mut count: usize = 0;
    let mut seen = false;
    let mut i: usize = 0;
    assert(s@.skip(0) =~= s@);
    while i < n
        invariant
            i <= n,
            n == s@.len(),
            count <= i,
            nonblank_lines(s@, false) == count + nonblank_lines(s@.skip(i as int), seen),
        decreases n - i,
    {
        let c = s.get_char(i);
        assert(s@.skip(i as int).drop_first() =~= s@.skip(i + 1));
        assert(s@.skip(i as int)[0] == c);
        if c == '\n' {
            seen = false;
        } else if !char_is_whitespace(c) && !seen {
            count = count + 1;
            seen = true;
        }
        i = i + 1;
    }
    count
}


/// Compares two texts character by character.
pub fn text_eq(a: &str, b: &str) -> (res: bool)
    ensures
        res == (a@ == b@),
{
    let n = a.unicode_len();
    if n != b.unicode_len() {
        return false;
    }
    let mut i: usize = 0;
    while i < n
        invariant
            i <= n,
            n == a@.len(),
            n == b@.len(),
            forall|j: int| 0 <= j < i ==> a@[j] == b@[j],
        decreases n - i,
    {
        if a.get_char(i) != b.get_char(i) {
            return false;
        }
        i = i + 1;
    }
    assert(a@ =~= b@);
    true
}

/// `needle` occurs in `hay` as a contiguous run (the empty text occurs
/// everywhere).
pub open spec fn occurs_in(hay: Seq<char>, needle: Seq<char>) -> bool {
    exists|i: int| 0 <= i <= hay.len() - needle.len() && #[trigger] hay.subrange(i, i + needle.len()) == needle
}

/// Whether `needle` occurs in `hay`, as `str::contains` with a text
/// pattern tells.
pub fn contains_text(hay: &str, needle: &str) -> (res: bool)
    ensures
        res == occurs_in(hay@, needle@),
{
    let n = hay.unicode_len();
    let m = needle.unicode_len();
    if m > n {
        return false;
    }
    let mut i: usize = 0;
    while i <= n - m
        invariant
            m <= n,
            n == hay@.len(),
            m == needle@.len(),
            forall|k: int| 0 <= k < i ==> #[trigger] hay@.subrange(k, k + m) != needle@,
        decreases n - m + 1 - i,
    {
        let mut j: usize = 0;
        while j < m && hay.get_char(i + j) == needle.get_char(j)
            invariant
                j <= m,
                i <= n - m,
                m <= n,
                n == hay@.len(),
                m == needle@.len(),
                forall|t: int| 0 <= t < j ==> hay@[i + t] == needle@[t],
            decreases m - j,
        {
            j = j + 1;
        }
        if j == m {
            assert(hay@.subrange(i as int, i + m) =~= needle@);
            return true;
        }
        assert(hay@.subrange(i as int, i + m)[j as int] != needle@[j as int]);
        i = i + 1;
    }
    false
}

/// The characters of `s` after its last `/` or `\`.
pub open spec fn last_path_segment(s: Seq<char>) -> Seq<char>
    decreases s.len(),
{
    if s.len() == 0 {
        s
    } else if s.last() == '/' || s.last() == '\\' {
        Seq::empty()
    } else {
        last_path_segment(s.drop_last()).push(s.last())
    }
}

/// The last component of a path written with either separator, as
/// `path.replace('\\', "/").split('/').last()` gives it.
pub fn path_last_segment(path: &str) -> (res: String)
    ensures
        res@ == last_path_segment(path@),
{
    let n = path.unicode_len();
    let mut k = n;
    assert(path@.subrange(0, n as int) =~= path@);
    assert(path@.subrange(n as int, n as int) =~= Seq::<char>::empty());
    assert(path@ + Seq::<char>::empty() =~= path@);
    while k > 0 && path.get_char(k - 1) != '/' && path.get_char(k - 1) != '\\'
        invariant
            k <= n,
            n == path@.len(),
            last_path_segment(path@) == last_path_segment(path@.subrange(0, k as int)) + path@.subrange(
                k as int,
                n as int,
            ),
        decreases k,
    {
        let ghost p = path@.subrange(0, k as int);
        assert(p.drop_last() =~= path@.subrange(0, k - 1));
        assert(path@.subrange(k - 1, n as int) =~= seq![p.last()] + path@.subrange(k as int, n as int));
        assert(last_path_segment(p) == last_path_segment(p.drop_last()).push(p.last()));
        assert(last_path_segment(p.drop_last()).push(p.last()) + path@.subrange(k as int, n as int)
            =~= last_path_segment(p.drop_last()) + path@.subrange(k - 1, n as int));
        k = k - 1;
    }
    proof {
        assert(last_path_segment(path@.subrange(0, k as int)) =~= Seq::<char>::empty());
    }
    String::from_str(path.substring_char(k, n))
}

/// The first `n` characters of `s`.
pub fn take_chars(s: &str, n: usize) -> (res: String)
    requires
        n <= s@.len(),
    ensures
        res@ == s@.take(n as int),
{
    String::from_str(s.substring_char(0, n))
}

/// What `str::to_uppercase` gives for `s` (Unicode case mapping).
pub uninterp spec fn uppercase(s: Seq<char>) -> Seq<char>;

/// What `str::to_lowercase` gives for `s` (Unicode case mapping).
pub uninterp spec fn lowercase(s: Seq<char>) -> Seq<char>;

/// The upper-case form of an ASCII character.
pub open spec fn ascii_upper(c: char) -> char {
    if 'a' <= c <= 'z' {
        ((c as u32 - 32) as u32) as char
    } else {
        c
    }
}

/// The lower-case form of an ASCII character.
pub open spec fn ascii_lower(c: char) -> char {
    if 'A' <= c <= 'Z' {
        ((c as u32 + 32) as u32) as char
    } else {
        c
    }
}

/// `str::to_uppercase`. The Unicode case tables are not restated: the
/// result is the name's value for `s`; for ASCII text the contract states
/// the mapping, which changes `a`..`z` to `A`..`Z` and keeps the rest.
#[verifier::external_body]
pub(crate) fn to_uppercase(s: &str) -> (res: String)
    ensures
        res@ == uppercase(s@),
        is_ascii_chars(s@) ==> res@ == s@.map_values(|c: char| ascii_upper(c)),
{
    s.to_uppercase()
}

/// `str::to_lowercase`. The Unicode case tables are not restated: the
/// result is the name's value for `s`; for ASCII text the contract states
/// the mapping, which changes `A`..`Z` to `a`..`z` and keeps the rest.
#[verifier::external_body]
pub(crate) fn to_lowercase(s: &str) -> (res: String)
    ensures
        res@ == lowercase(s@),
        is_ascii_chars(s@) ==> res@ == s@.map_values(|c: char| ascii_lower(c)),
{
    s.to_lowercase()
}

/// What `char::is_alphanumeric` tells of `c` (Unicode `Alphabetic` or
/// `Numeric`).
pub uninterp spec fn alphanumeric(c: char) -> bool;

/// `char::is_alphanumeric`. Beyond the name, the contract states the
/// ASCII part of its documented meaning: among ASCII characters exactly
/// the letters and digits qualify.
#[verifier::external_body]
pub(crate) fn is_alphanumeric(c: char) -> (res: bool)
    ensures
        res == alphanumeric(c),
        (c as u32) < 128 ==> res == (('a' <= c <= 'z') || ('A' <= c <= 'Z') || ('0' <= c <= '9')),
{
    c.is_alphanumeric()
}

/// The characters of `s` that are alphanumeric, in order.
pub open spec fn keep_alphanumeric(s: Seq<char>) -> Seq<char>
    decreases s.len(),
{
    if s.len() == 0 {
        s
    } else if alphanumeric(s.last()) {
        keep_alphanumeric(s.drop_last()).push(s.last())
    } else {
        keep_alphanumeric(s.drop_last())
    }
}

/// Drops every character that is not alphanumeric.
pub fn only_alphanumeric(s: &str) -> (res: String)
    ensures
        res@ == keep_alphanumeric(s@),
{
    let n = s.unicode_len();
    let mut res = String::new();
    let mut i: usize = 0;
    while i < n
        invariant
            i <= n,
            n == s@.len(),
            res@ == keep_alphanumeric(s@.take(i as int)),
        decreases n - i,
    {
        let c = s.get_char(i);
        assert(s@.take(i + 1).drop_last() =~= s@.take(i as int));
        assert(s@.take(i + 1).last() == c);
        if is_alphanumeric(c) {
            push_char(&mut res, c);
        }
        i = i + 1;
    }
    assert(s@.take(n as int) =~= s@);
    res
}

/// Formats a signed integer in decimal, as `{}` does.
pub fn format_i64(n: i64) -> (res: String)
    ensures
        res@ == (if n < 0 {
            seq!['-'] + decimal((-n) as nat)
        } else {
            decimal(n as nat)
        }),
{
    if n < 0 {
        let magnitude: u64 = if n == i64::MIN {
            0x8000_0000_0000_0000u64
        } else {
            (-n) as u64
        };
        let digits = format_u64(magnitude);
        let mut res = String::new();
        push_char(&mut res, '-');
        res.append(digits.as_str());
        res
    } else {
        format_u64(n as u64)
    }
}

/// `parts` joined with `sep` between neighbours.
pub open spec fn joined(parts: Seq<Seq<char>>, sep: Seq<char>) -> Seq<char>
    decreases parts.len(),
{
    if parts.len() == 0 {
        Seq::empty()
    } else if parts.len() == 1 {
        parts[0]
    } else {
        joined(parts.drop_last(), sep) + sep + parts.last()
    }
}

/// Joins texts with a separator, as `[String]::join` does.
pub fn join_texts(parts: &Vec<String>, sep: &str) -> (res: String)
    ensures
        res@ == joined(parts@.map_values(|p: String| p@), sep@),
{
    let ghost views = parts@.map_values(|p: String| p@);
    let mut res = String::new();
    let mut i: usize = 0;
    while i < parts.len()
        invariant
            i <= parts@.len(),
            views == parts@.map_values(|p: String| p@),
            res@ == joined(views.take(i as int), sep@),
        decreases parts@.len() - i,
    {
        assert(views.take(i + 1).drop_last() =~= views.take(i as int));
        assert(views.take(i + 1).last() == parts@[i as int]@);
        if i != 0 {
            res.append(sep);
        } else {
            assert(res@ =~= Seq::<char>::empty());
        }
        res.append(parts[i].as_str());
        proof {
            if i == 0 {
                assert(res@ =~= views.take(1)[0]);
            }
        }
        i = i + 1;
    }
    assert(views.take(parts@.len() as int) =~= views);
    res
}


/// Number of white-space characters at the start of `s`.
pub open spec fn leading_ws(s: Seq<char>) -> nat
    decreases s.len(),
{
    if s.len() > 0 && is_white_space(s[0]) {
        1 + leading_ws(s.drop_first())
    } else {
        0
    }
}

/// Number of white-space characters at the end of `s`.
pub open spec fn trailing_ws(s: Seq<char>) -> nat
    decreases s.len(),
{
    if s.len() > 0 && is_white_space(s.last()) {
        1 + trailing_ws(s.drop_last())
    } else {
        0
    }
}

proof fn lemma_leading_ws_bound(s: Seq<char>)
    ensures
        leading_ws(s) <= s.len(),
    decreases s.len(),
{
    if s.len() > 0 && is_white_space(s[0]) {
        lemma_leading_ws_bound(s.drop_first());
    }
}

proof fn lemma_trailing_ws_bound(s: Seq<char>)
    ensures
        trailing_ws(s) <= s.len(),
    decreases s.len(),
{
    if s.len() > 0 && is_white_space(s.last()) {
        lemma_trailing_ws_bound(s.drop_last());
    }
}

/// `s` without leading and trailing white space (what `str::trim`
/// gives).
pub open spec fn trim_ws(s: Seq<char>) -> Seq<char> {
    let r = s.skip(leading_ws(s) as int);
    r.take(r.len() - trailing_ws(r))
}

/// Removes leading and trailing white space, as `str::trim` does.
pub fn trim_text(s: &str) -> (res: String)
    ensures
        res@ == trim_ws(s@),
{
    let n = s.unicode_len();
    let mut i: usize = 0;
    assert(s@.skip(0) =~= s@);
    while i < n && char_is_whitespace(s.get_char(i))
        invariant
            i <= n,
            n == s@.len(),
            leading_ws(s@) == i + leading_ws(s@.skip(i as int)),
        decreases n - i,
    {
        assert(s@.skip(i as int).drop_first() =~= s@.skip(i + 1));
        i = i + 1;
    }
    proof {
        if i < n {
            assert(s@.skip(i as int)[0] == s@[i as int]);
        }
        assert(leading_ws(s@) == i);
    }
    let ghost r = s@.skip(i as int);
    let mut j: usize = n;
    assert(r.take(r.len() as int) =~= r);
    while j > i && char_is_whitespace(s.get_char(j - 1))
        invariant
            i <= j <= n,
            n == s@.len(),
            r == s@.skip(i as int),
            trailing_ws(r) == (n - j) + trailing_ws(r.take(j - i)),
        decreases j,
    {
        assert(r.take(j - i).drop_last() =~= r.take(j - 1 - i));
        assert(r.take(j - i).last() == s@[j - 1]);
        j = j - 1;
    }
    proof {
        if j > i {
            assert(r.take(j - i).last() == s@[j - 1]);
        }
        assert(trailing_ws(r) == n - j);
        assert(r.take(r.len() - trailing_ws(r)) =~= s@.subrange(i as int, j as int));
    }
    String::from_str(s.substring_char(i, j))
}

} // verus!




