//! Text helpers shared by the parsers of this crate.
//!
//! Everything here is stated over `Seq<char>`, the view of `str` and `String`.

use vstd::prelude::*;
use vstd::std_specs::iter::IteratorSpec;
use vstd::string::StringSliceAdditionalSpecFns;
use vstd::utf8::encode_utf8_decode_utf8;

verus! {

/// `String::push` appends exactly one character.
pub assume_specification[ String::push ](s: &mut String, c: char)
    ensures
        final(s)@ == old(s)@.push(c),
;

/// The lowercase form of a text under the Unicode case mapping.
pub uninterp spec fn unicode_lowercase(s: Seq<char>) -> Seq<char>;

/// Calls `str::to_lowercase`. The mapping is the Unicode one, context rules
/// included, so its result is only named here, not spelled out.
#[verifier::external_body]
pub(crate) fn to_lowercase(s: &str) -> (lower: String)
    ensures
        lower@ == unicode_lowercase(s@),
{
    s.to_lowercase()
}

/// Code points with the Unicode `White_Space` property.
pub open spec fn is_whitespace_char(c: char) -> bool {
    let u = c as u32;
    ||| 0x09 <= u <= 0x0D
    ||| u == 0x20
    ||| u == 0x85
    ||| u == 0xA0
    ||| u == 0x1680
    ||| 0x2000 <= u <= 0x200A
    ||| u == 0x2028
    ||| u == 0x2029
    ||| u == 0x202F
    ||| u == 0x205F
    ||| u == 0x3000
}

/// Whether `c` is Unicode whitespace.
pub fn is_whitespace(c: char) -> (r: bool)
    ensures
        r == is_whitespace_char(c),
{
    let u: u32 = c as u32;
    (0x09 <= u && u <= 0x0D) || u == 0x20 || u == 0x85 || u == 0xA0 || u == 0x1680 || (0x2000 <= u
        && u <= 0x200A) || u == 0x2028 || u == 0x2029 || u == 0x202F || u == 0x205F || u == 0x3000
}

/// `s` without its leading whitespace.
pub open spec fn trim_start(s: Seq<char>) -> Seq<char>
    decreases s.len(),
{
    if s.len() > 0 && is_whitespace_char(s[0]) {
        trim_start(s.drop_first())
    } else {
        s
    }
}

/// `s` without its trailing whitespace.
pub open spec fn trim_end(s: Seq<char>) -> Seq<char>
    decreases s.len(),
{
    if s.len() > 0 && is_whitespace_char(s.last()) {
        trim_end(s.drop_last())
    } else {
        s
    }
}

/// `s` without leading and trailing whitespace.
pub open spec fn trimmed(s: Seq<char>) -> Seq<char> {
    trim_end(trim_start(s))
}

/// A text is blank when it holds nothing but whitespace.
pub open spec fn is_blank(s: Seq<char>) -> bool {
    forall|i: int| 0 <= i < s.len() ==> is_whitespace_char(#[trigger] s[i])
}

proof fn lemma_trim_start_at(s: Seq<char>, a: int)
    requires
        0 <= a <= s.len(),
        forall|j: int| 0 <= j < a ==> is_whitespace_char(#[trigger] s[j]),
        a < s.len() ==> !is_whitespace_char(s[a]),
    ensures
        trim_start(s) == s.subrange(a, s.len() as int),
    decreases a,
{
    if a == 0 {
        assert(s.subrange(0, s.len() as int) =~= s);
    } else {
        let t = s.drop_first();
        assert forall|j: int| 0 <= j < a - 1 implies is_whitespace_char(#[trigger] t[j]) by {
            assert(t[j] == s[j + 1]);
        }
        lemma_trim_start_at(t, a - 1);
        assert(t.subrange(a - 1, t.len() as int) =~= s.subrange(a, s.len() as int));
    }
}

proof fn lemma_trim_end_at(s: Seq<char>, b: int)
    requires
        0 <= b <= s.len(),
        forall|j: int| b <= j < s.len() ==> is_whitespace_char(#[trigger] s[j]),
        b > 0 ==> !is_whitespace_char(s[b - 1]),
    ensures
        trim_end(s) == s.subrange(0, b),
    decreases s.len() - b,
{
    if b == s.len() {
        assert(s.subrange(0, b) =~= s);
    } else {
        let t = s.drop_last();
        assert forall|j: int| b <= j < t.len() implies is_whitespace_char(#[trigger] t[j]) by {
            assert(t[j] == s[j]);
        }
        lemma_trim_end_at(t, b);
        assert(t.subrange(0, b) =~= s.subrange(0, b));
    }
}

/// Trimming keeps exactly the span from the first to the last character that
/// is not whitespace.
pub proof fn lemma_trimmed_span(s: Seq<char>, a: int, b: int)
    requires
        0 <= a < b <= s.len(),
        forall|j: int| 0 <= j < a ==> is_whitespace_char(#[trigger] s[j]),
        forall|j: int| b <= j < s.len() ==> is_whitespace_char(#[trigger] s[j]),
        !is_whitespace_char(s[a]),
        !is_whitespace_char(s[b - 1]),
    ensures
        trimmed(s) == s.subrange(a, b),
{
    lemma_trim_start_at(s, a);
    let t = s.subrange(a, s.len() as int);
    assert forall|j: int| b - a <= j < t.len() implies is_whitespace_char(#[trigger] t[j]) by {
        assert(t[j] == s[j + a]);
    }
    assert(t[b - a - 1] == s[b - 1]);
    lemma_trim_end_at(t, b - a);
    assert(t.subrange(0, b - a) =~= s.subrange(a, b));
}

/// The trimmed form of a text is empty exactly when the text is blank.
pub proof fn lemma_trimmed_empty_iff_blank(s: Seq<char>)
    ensures
        trimmed(s).len() == 0 <==> is_blank(s),
    decreases s.len(),
{
    if is_blank(s) {
        lemma_trim_start_at(s, s.len() as int);
        assert(s.subrange(s.len() as int, s.len() as int) =~= Seq::<char>::empty());
    } else {
        let k = choose|k: int| 0 <= k < s.len() && !is_whitespace_char(#[trigger] s[k]);
        lemma_first_non_blank(s, k);
        let a = first_non_blank(s, k);
        lemma_last_non_blank(s, k);
        let b = last_non_blank(s, k) + 1;
        lemma_trimmed_span(s, a, b);
    }
}

spec fn first_non_blank(s: Seq<char>, k: int) -> int
    decreases k,
{
    if k <= 0 {
        0
    } else if exists|j: int| 0 <= j < k && !is_whitespace_char(#[trigger] s[j]) {
        first_non_blank(s, k - 1)
    } else {
        k
    }
}

proof fn lemma_first_non_blank(s: Seq<char>, k: int)
    requires
        0 <= k < s.len(),
        !is_whitespace_char(s[k]),
    ensures
        0 <= first_non_blank(s, k) <= k,
        !is_whitespace_char(s[first_non_blank(s, k)]),
        forall|j: int| 0 <= j < first_non_blank(s, k) ==> is_whitespace_char(#[trigger] s[j]),
    decreases k,
{
    if k > 0 {
        if exists|j: int| 0 <= j < k && !is_whitespace_char(#[trigger] s[j]) {
            let j = choose|j: int| 0 <= j < k && !is_whitespace_char(#[trigger] s[j]);
            lemma_first_non_blank_mono(s, j, k - 1);
            lemma_first_non_blank(s, j);
        }
    }
}

proof fn lemma_first_non_blank_mono(s: Seq<char>, j: int, k: int)
    requires
        0 <= j <= k < s.len(),
        !is_whitespace_char(s[j]),
    ensures
        first_non_blank(s, k) == first_non_blank(s, j),
    decreases k - j,
{
    if j < k {
        lemma_first_non_blank_mono(s, j, k - 1);
    }
}

spec fn last_non_blank(s: Seq<char>, k: int) -> int
    decreases s.len() - k,
{
    if k >= s.len() - 1 {
        s.len() - 1
    } else if exists|j: int| k < j < s.len() && !is_whitespace_char(#[trigger] s[j]) {
        last_non_blank(s, k + 1)
    } else {
        k
    }
}

proof fn lemma_last_non_blank_mono(s: Seq<char>, k: int, j: int)
    requires
        0 <= k <= j < s.len(),
        !is_whitespace_char(s[j]),
    ensures
        last_non_blank(s, k) == last_non_blank(s, j),
    decreases j - k,
{
    if k < j {
        lemma_last_non_blank_mono(s, k + 1, j);
    }
}

proof fn lemma_last_non_blank(s: Seq<char>, k: int)
    requires
        0 <= k < s.len(),
        !is_whitespace_char(s[k]),
    ensures
        k <= last_non_blank(s, k) < s.len(),
        !is_whitespace_char(s[last_non_blank(s, k)]),
        forall|j: int| last_non_blank(s, k) < j < s.len() ==> is_whitespace_char(#[trigger] s[j]),
    decreases s.len() - k,
{
    if k < s.len() - 1 {
        if exists|j: int| k < j < s.len() && !is_whitespace_char(#[trigger] s[j]) {
            let j = choose|j: int| k < j < s.len() && !is_whitespace_char(#[trigger] s[j]);
            lemma_last_non_blank_mono(s, k + 1, j);
            lemma_last_non_blank(s, j);
        }
    }
}

/// Returns the part of `s` between its first and its last character that is
/// not whitespace; the empty text when there is none.
pub fn trim(s: &str) -> (r: &str)
    ensures
        r@ == trimmed(s@),
{
    let n = s.unicode_len();
    let mut i: usize = 0;
    let mut found = false;
    let mut start: usize = 0;
    let mut end: usize = 0;
    for c in it: s.chars()
        invariant
            it.seq() == s@,
            n == s@.len(),
            i == it.index(),
            forall|j: int| 0 <= j < start ==> is_whitespace_char(#[trigger] s@[j]),
            found ==> start < end <= i && !is_whitespace_char(s@[start as int])
                && !is_whitespace_char(s@[end - 1]),
            found ==> forall|j: int| end <= j < i ==> is_whitespace_char(#[trigger] s@[j]),
            !found ==> start == i && end == 0,
    {
        if is_whitespace(c) {
            if !found {
                start = i + 1;
            }
        } else {
            if !found {
                found = true;
                start = i;
            }
            end = i + 1;
        }
        i = i + 1;
    }
    proof {
        if found {
            lemma_trimmed_span(s@, start as int, end as int);
        } else {
            lemma_trimmed_empty_iff_blank(s@);
            assert(trimmed(s@) =~= s@.subrange(0, 0));
        }
    }
    if found {
        s.substring_char(start, end)
    } else {
        s.substring_char(0, 0)
    }
}

/// Whether two texts hold the same characters.
pub fn str_eq(a: &str, b: &str) -> (r: bool)
    ensures
        r == (a@ == b@),
{
    let x = a.as_bytes();
    let y = b.as_bytes();
    proof {
        encode_utf8_decode_utf8(a@);
        encode_utf8_decode_utf8(b@);
    }
    if x.len() != y.len() {
        return false;
    }
    let mut i: usize = 0;
    while i < x.len()
        invariant
            i <= x.len(),
            x@.len() == y@.len(),
            forall|j: int| 0 <= j < i ==> x@[j] == y@[j],
            x@ == a.spec_bytes(),
            y@ == b.spec_bytes(),
            a@ == vstd::utf8::decode_utf8(a.spec_bytes()),
            b@ == vstd::utf8::decode_utf8(b.spec_bytes()),
        decreases x.len() - i,
    {
        if x[i] != y[i] {
            return false;
        }
        i += 1;
    }
    assert(x@ =~= y@);
    true
}

/// The characters of `s`, in order.
pub fn chars_of(s: &str) -> (out: Vec<char>)
    ensures
        out@ == s@,
{
    let mut out: Vec<char> = Vec::new();
    for c in it: s.chars()
        invariant
            out@ == s@.take(it.index() as int),
            it.seq() == s@,
    {
        out.push(c);
    }
    assert(out@ =~= s@);
    out
}

/// The text made of `chars[from..to]`.
pub fn string_of(chars: &[char], from: usize, to: usize) -> (out: String)
    requires
        from <= to <= chars@.len(),
    ensures
        out@ == chars@.subrange(from as int, to as int),
{
    let mut out = String::new();
    let mut i: usize = from;
    while i < to
        invariant
            from <= i <= to <= chars@.len(),
            out@ == chars@.subrange(from as int, i as int),
        decreases to - i,
    {
        out.push(chars[i]);
        assert(chars@.subrange(from as int, i as int).push(chars@[i as int]) =~= chars@.subrange(
            from as int,
            i + 1,
        ));
        i += 1;
    }
    out
}

/// The views of `texts`.
pub open spec fn views_of(texts: Seq<String>) -> Seq<Seq<char>> {
    Seq::new(texts.len(), |i: int| texts[i]@)
}

/// Position of the first `c` in `s`, or the length of `s` if it holds none.
pub open spec fn first_index_of(s: Seq<char>, c: char) -> int
    decreases s.len(),
{
    if s.len() == 0 {
        0
    } else if s[0] == c {
        0
    } else {
        1 + first_index_of(s.drop_first(), c)
    }
}

/// If `c` stands at `k` and nowhere before, or `k` is the length of a text
/// without `c`, then `k` is `first_index_of`.
pub proof fn lemma_first_index_at(s: Seq<char>, c: char, k: int)
    requires
        0 <= k <= s.len(),
        forall|i: int| 0 <= i < k ==> #[trigger] s[i] != c,
        k < s.len() ==> s[k] == c,
    ensures
        first_index_of(s, c) == k,
    decreases k,
{
    if k > 0 {
        let t = s.drop_first();
        assert forall|i: int| 0 <= i < k - 1 implies #[trigger] t[i] != c by {
            assert(t[i] == s[i + 1]);
        }
        lemma_first_index_at(t, c, k - 1);
    }
}

/// `first_index_of` is the first position that holds `c`.
pub proof fn lemma_first_index_of(s: Seq<char>, c: char)
    ensures
        0 <= first_index_of(s, c) <= s.len(),
        first_index_of(s, c) < s.len() ==> s[first_index_of(s, c)] == c,
        forall|i: int| 0 <= i < first_index_of(s, c) ==> #[trigger] s[i] != c,
    decreases s.len(),
{
    if s.len() > 0 && s[0] != c {
        let t = s.drop_first();
        lemma_first_index_of(t, c);
        assert forall|i: int| 0 <= i < first_index_of(s, c) implies #[trigger] s[i] != c by {
            if i > 0 {
                assert(s[i] == t[i - 1]);
            }
        }
    }
}

/// The pieces of `s` between occurrences of `sep`, in order. A text without
/// `sep` is its own single piece; two adjacent separators enclose an empty
/// piece.
pub open spec fn split_on(s: Seq<char>, sep: char) -> Seq<Seq<char>>
    decreases s.len(),
{
    let k = first_index_of(s, sep);
    if 0 <= k < s.len() {
        seq![s.subrange(0, k)] + split_on(s.subrange(k + 1, s.len() as int), sep)
    } else {
        seq![s]
    }
}

/// `parts` in one text, with `sep` between each two of them.
pub open spec fn join_with(parts: Seq<Seq<char>>, sep: char) -> Seq<char>
    decreases parts.len(),
{
    if parts.len() == 0 {
        Seq::empty()
    } else if parts.len() == 1 {
        parts[0]
    } else {
        parts[0] + seq![sep] + join_with(parts.drop_first(), sep)
    }
}

/// Splitting cuts at every separator and nowhere else: no piece holds the
/// separator, and the pieces joined with it give the text back.
pub proof fn lemma_split_join(s: Seq<char>, sep: char)
    ensures
        split_on(s, sep).len() >= 1,
        join_with(split_on(s, sep), sep) == s,
        forall|i: int, j: int|
            0 <= i < split_on(s, sep).len() && 0 <= j < split_on(s, sep)[i].len() ==> split_on(
                s,
                sep,
            )[i][j] != sep,
    decreases s.len(),
{
    lemma_first_index_of(s, sep);
    let k = first_index_of(s, sep);
    let parts = split_on(s, sep);
    if k < s.len() {
        let head = s.subrange(0, k);
        let rest = s.subrange(k + 1, s.len() as int);
        lemma_split_join(rest, sep);
        let tail = split_on(rest, sep);
        assert(parts =~= seq![head] + tail);
        assert(parts.drop_first() =~= tail);
        assert(head + seq![sep] + rest =~= s);
        assert forall|i: int, j: int|
            0 <= i < parts.len() && 0 <= j < parts[i].len() implies parts[i][j] != sep by {
            if i == 0 {
                assert(head[j] == s[j]);
            } else {
                assert(parts[i] == tail[i - 1]);
            }
        }
    }
}

/// Splits `s` at every `sep`.
pub fn split(s: &str, sep: char) -> (parts: Vec<String>)
    ensures
        views_of(parts@) == split_on(s@, sep),
        parts@.len() >= 1,
{
    let chars = chars_of(s);
    let n = chars.len();
    let mut parts: Vec<String> = Vec::new();
    let mut start: usize = 0;
    let mut i: usize = 0;
    assert(s@.subrange(0, n as int) =~= s@);
    assert(views_of(parts@) + split_on(s@, sep) =~= split_on(s@, sep));
    while i < n
        invariant
            start <= i <= n,
            n == chars@.len(),
            chars@ == s@,
            forall|j: int| start <= j < i ==> #[trigger] s@[j] != sep,
            split_on(s@, sep) == views_of(parts@) + split_on(
                s@.subrange(start as int, n as int),
                sep,
            ),
        decreases n - i,
    {
        if chars[i] == sep {
            let piece = string_of(chars.as_slice(), start, i);
            proof {
                let t = s@.subrange(start as int, n as int);
                assert forall|j: int| 0 <= j < i - start implies #[trigger] t[j] != sep by {
                    assert(t[j] == s@[j + start]);
                }
                lemma_first_index_at(t, sep, i - start);
                assert(t.subrange(0, i - start) =~= s@.subrange(start as int, i as int));
                assert(t.subrange(i - start + 1, t.len() as int) =~= s@.subrange(
                    i + 1,
                    n as int,
                ));
                assert(views_of(parts@.push(piece)) =~= views_of(parts@) + seq![piece@]);
            }
            parts.push(piece);
            start = i + 1;
        }
        i += 1;
    }
    let piece = string_of(chars.as_slice(), start, n);
    proof {
        let t = s@.subrange(start as int, n as int);
        assert forall|j: int| 0 <= j < t.len() implies #[trigger] t[j] != sep by {
            assert(t[j] == s@[j + start]);
        }
        lemma_first_index_at(t, sep, t.len() as int);
        assert(views_of(parts@.push(piece)) =~= views_of(parts@) + seq![piece@]);
    }
    parts.push(piece);
    parts
}

/// Whether `c` is one of the digits `0` to `9`.
pub open spec fn is_digit(c: char) -> bool {
    0x30 <= c as u32 <= 0x39
}

/// The number that the digits `digits` write in base ten.
pub open spec fn decimal_value(digits: Seq<char>) -> nat
    decreases digits.len(),
{
    if digits.len() == 0 {
        0
    } else {
        decimal_value(digits.drop_last()) * 10 + (digits.last() as u32 - 0x30) as nat
    }
}

/// Whether `s` holds digits only.
pub open spec fn all_digits(s: Seq<char>) -> bool {
    forall|i: int| 0 <= i < s.len() ==> is_digit(#[trigger] s[i])
}

/// The number that `s` writes: an optional `+`, then one digit or more, and
/// nothing else; the value must fit in a `usize`.
pub open spec fn parsed_usize(s: Seq<char>) -> Option<usize> {
    let digits = if s.len() > 0 && s[0] == '+' {
        s.drop_first()
    } else {
        s
    };
    if digits.len() > 0 && all_digits(digits) && decimal_value(digits) <= usize::MAX {
        Some(decimal_value(digits) as usize)
    } else {
        None
    }
}

proof fn lemma_decimal_value_grows(digits: Seq<char>, k: int)
    requires
        0 <= k <= digits.len(),
        all_digits(digits),
    ensures
        decimal_value(digits.take(k)) <= decimal_value(digits),
    decreases digits.len() - k,
{
    if k < digits.len() {
        let head = digits.drop_last();
        assert forall|i: int| 0 <= i < head.len() implies is_digit(#[trigger] head[i]) by {
            assert(head[i] == digits[i]);
        }
        lemma_decimal_value_grows(head, k);
        assert(head.take(k) =~= digits.take(k));
        assert(is_digit(digits.last()));
    } else {
        assert(digits.take(k) =~= digits);
    }
}

/// Reads a `usize` written in base ten, as `parsed_usize` says.
pub fn parse_usize(s: &str) -> (value: Option<usize>)
    ensures
        value == parsed_usize(s@),
{
    let chars = chars_of(s);
    let n = chars.len();
    let first: usize = if n > 0 && chars[0] == '+' {
        1
    } else {
        0
    };
    let ghost digits = if first == 1 {
        s@.drop_first()
    } else {
        s@
    };
    assert(digits =~= s@.subrange(first as int, n as int));
    if first == n {
        return None;
    }
    let mut value: usize = 0;
    let mut i: usize = first;
    assert(digits.take(0).len() == 0);
    while i < n
        invariant
            first <= i <= n,
            first <= 1,
            n == chars@.len(),
            chars@ == s@,
            digits == s@.subrange(first as int, n as int),
            digits == if s@.len() > 0 && s@[0] == '+' {
                s@.drop_first()
            } else {
                s@
            },
            digits.len() > 0,
            all_digits(digits.take(i - first)),
            value == decimal_value(digits.take(i - first)),
        decreases n - i,
    {
        let c = chars[i];
        let u: u32 = c as u32;
        assert(digits[i - first] == c);
        if u < 0x30 || u > 0x39 {
            assert(!is_digit(digits[i - first]));
            return None;
        }
        let d: usize = (u - 0x30) as usize;
        proof {
            assert(digits.take(i - first + 1).drop_last() =~= digits.take(i - first));
            assert(digits.take(i - first + 1).last() == c);
            assert forall|j: int| 0 <= j < i - first + 1 implies is_digit(
                #[trigger] digits.take(i - first + 1)[j],
            ) by {
                if j < i - first {
                    assert(digits.take(i - first)[j] == digits[j]);
                } else {
                    assert(digits.take(i - first + 1)[j] == c);
                }
            }
        }
        if value > (usize::MAX - d) / 10 {
            proof {
                if all_digits(digits) {
                    lemma_decimal_value_grows(digits, i - first + 1);
                }
            }
            return None;
        }
        value = value * 10 + d;
        i += 1;
    }
    assert(digits.take(n - first) =~= digits);
    Some(value)
}

} // verus!
