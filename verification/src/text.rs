//! Verified text utilities: building decimal strings, padding, repetition,
//! and character-level searching. Everything is specified over `Seq<char>`
//! views; the only trusted item is a thin wrapper around `String::push`.

use vstd::prelude::*;

verus! {

/// Relies on `String::push`: appends the given character to the end of the string.
#[verifier::external_body]
pub(crate) fn push_char(s: &mut String, c: char)
    ensures
        final(s)@ == old(s)@.push(c),
{
    s.push(c);
}

/// The decimal digit character for a value in `0..=9`.
pub open spec fn spec_digit_char(d: int) -> char {
    ((48 + d) as u8) as char
}

/// The decimal representation of a non-negative integer, most significant
/// digit first ("0" for zero).
pub open spec fn spec_u64_string(n: int) -> Seq<char>
    decreases n,
{
    if n < 10 {
        seq![spec_digit_char(n)]
    } else {
        spec_u64_string(n / 10).push(spec_digit_char(n % 10))
    }
}

/// Writes `n` in decimal.
pub fn u64_to_string(n: u64) -> (r: String)
    ensures
        r@ == spec_u64_string(n as int),
{
    let mut digits: Vec<char> = Vec::new();
    let mut m: u64 = n;
    while m >= 10
        invariant
            spec_u64_string(n as int) == spec_u64_string(m as int) + digits_rev(digits@),
        decreases m,
    {
        let d: u8 = (m % 10) as u8;
        let ghost prev = digits@;
        digits.push((48 + d) as char);
        proof {
            assert(spec_u64_string(m as int) == spec_u64_string(m as int / 10).push(
                spec_digit_char(m as int % 10),
            ));
            lemma_digits_rev_push(prev, spec_digit_char(m as int % 10));
            assert(spec_u64_string(m as int) + digits_rev(prev) == spec_u64_string(m as int / 10)
                + digits_rev(digits@));
        }
        m = m / 10;
    }
    let d: u8 = (m % 10) as u8;
    let ghost prev = digits@;
    digits.push((48 + d) as char);
    proof {
        lemma_digits_rev_push(prev, spec_digit_char(m as int));
        assert(spec_u64_string(n as int) =~= digits_rev(digits@));
    }
    let mut r = String::new();
    let mut i: usize = digits.len();
    while i > 0
        invariant
            i <= digits.len(),
            r@ == digits_rev(digits@).take(digits@.len() - i),
        decreases i,
    {
        i = i - 1;
        push_char(&mut r, digits[i]);
        proof {
            assert(r@ =~= digits_rev(digits@).take(digits@.len() - i));
        }
    }
    proof {
        assert(r@ =~= digits_rev(digits@));
    }
    r
}

/// The sequence of digit characters taken from `ds` in reverse order.
pub open spec fn digits_rev(ds: Seq<char>) -> Seq<char> {
    Seq::new(ds.len(), |j: int| ds[ds.len() - 1 - j])
}

proof fn lemma_digits_rev_push(ds: Seq<char>, c: char)
    ensures
        digits_rev(ds.push(c)) =~= seq![c] + digits_rev(ds),
{
}

/// `s` left-padded with `c` up to `width` characters (unchanged when already
/// at least that long).
pub open spec fn spec_pad_left(s: Seq<char>, width: int, c: char) -> Seq<char> {
    if s.len() >= width {
        s
    } else {
        Seq::new((width - s.len()) as nat, |i: int| c) + s
    }
}

/// `s` right-padded with `c` up to `width` characters.
pub open spec fn spec_pad_right(s: Seq<char>, width: int, c: char) -> Seq<char> {
    if s.len() >= width {
        s
    } else {
        s + Seq::new((width - s.len()) as nat, |i: int| c)
    }
}

/// `n` copies of the character `c`.
pub open spec fn spec_repeat_char(c: char, n: int) -> Seq<char> {
    Seq::new(if n >= 0 {
        n as nat
    } else {
        0
    }, |i: int| c)
}

/// A string of `n` copies of `c`.
pub fn repeat_char(c: char, n: usize) -> (r: String)
    ensures
        r@ == spec_repeat_char(c, n as int),
{
    let mut r = String::new();
    let mut i: usize = 0;
    while i < n
        invariant
            i <= n,
            r@ == spec_repeat_char(c, i as int),
        decreases n - i,
    {
        push_char(&mut r, c);
        i = i + 1;
        proof {
            assert(r@ =~= spec_repeat_char(c, i as int));
        }
    }
    r
}

/// Left-pads `s` with `c` to `width` characters.
pub fn pad_left(s: &str, width: usize, c: char) -> (r: String)
    ensures
        r@ == spec_pad_left(s@, width as int, c),
{
    let n = s.unicode_len();
    if n >= width {
        return s.to_owned();
    }
    let mut r = repeat_char(c, width - n);
    r.append(s);
    proof {
        assert(r@ =~= spec_pad_left(s@, width as int, c));
    }
    r
}

/// The human-readable size string for a byte count: plain bytes below
/// one KiB, otherwise KiB or MiB with one decimal digit, rounded half up.
pub open spec fn spec_format_size(bytes: int) -> Seq<char> {
    if bytes < 1024 {
        spec_u64_string(bytes) + " B"@
    } else if bytes < 1048576 {
        spec_tenths_string((bytes * 10 + 512) / 1024) + " KB"@
    } else {
        spec_tenths_string((bytes * 10 + 524288) / 1048576) + " MB"@
    }
}

/// A count of tenths rendered as "<whole>.<tenth>".
pub open spec fn spec_tenths_string(tenths: int) -> Seq<char> {
    spec_u64_string(tenths / 10) + "."@ + seq![spec_digit_char(tenths % 10)]
}

/// Formats a byte count as "N B", "X.Y KB" or "X.Y MB".
pub fn format_size(bytes: u64) -> (r: String)
    ensures
        r@ == spec_format_size(bytes as int),
{
    if bytes < 1024 {
        let mut r = u64_to_string(bytes);
        r.append(" B");
        r
    } else if bytes < 1048576 {
        let tenths = (bytes * 10 + 512) / 1024;
        let mut r = tenths_string(tenths);
        r.append(" KB");
        r
    } else {
        let wide: u128 = ((bytes as u128) * 10 + 524288) / 1048576;
        let tenths = wide as u64;
        proof {
            assert((bytes as int * 10 + 524288) / 1048576 <= bytes as int) by (nonlinear_arith)
                requires
                    bytes >= 1048576,
            ;
        }
        let mut r = tenths_string(tenths);
        r.append(" MB");
        r
    }
}

fn tenths_string(tenths: u64) -> (r: String)
    ensures
        r@ == spec_tenths_string(tenths as int),
{
    let mut r = u64_to_string(tenths / 10);
    r.append(".");
    let d: u8 = (tenths % 10) as u8;
    push_char(&mut r, (48 + d) as char);
    proof {
        assert(r@ =~= spec_tenths_string(tenths as int));
    }
    r
}

/// `s` with its first character uppercased when it is an ASCII lowercase
/// letter; other first characters are kept as they are.
pub open spec fn spec_capitalise(s: Seq<char>) -> Seq<char> {
    if s.len() == 0 {
        s
    } else {
        seq![spec_ascii_upper(s[0])] + s.skip(1)
    }
}

/// The ASCII uppercase counterpart of `c` (identity outside 'a'..='z').
pub open spec fn spec_ascii_upper(c: char) -> char {
    if 'a' <= c && c <= 'z' {
        ((c as u32 - 32) as u8) as char
    } else {
        c
    }
}

/// Uppercases the first character of `s` (ASCII letters only).
pub fn capitalise(s: &str) -> (r: String)
    ensures
        r@ == spec_capitalise(s@),
{
    let n = s.unicode_len();
    if n == 0 {
        return String::new();
    }
    let c = s.get_char(0);
    let up: char = if 'a' <= c && c <= 'z' {
        ((c as u32 - 32) as u8) as char
    } else {
        c
    };
    let mut r = String::new();
    push_char(&mut r, up);
    let rest = s.substring_char(1, n);
    r.append(rest);
    proof {
        assert(r@ =~= spec_capitalise(s@));
    }
    r
}

/// The ASCII lowercase counterpart of `c` (identity outside 'A'..='Z').
pub open spec fn spec_ascii_lower(c: char) -> char {
    if 'A' <= c && c <= 'Z' {
        ((c as u32 + 32) as u8) as char
    } else {
        c
    }
}

/// `s` with every ASCII uppercase letter lowercased.
pub open spec fn spec_to_lower(s: Seq<char>) -> Seq<char> {
    Seq::new(s.len(), |i: int| spec_ascii_lower(s[i]))
}

/// Lowercases the ASCII letters of `s`.
pub fn to_lower(s: &str) -> (r: String)
    ensures
        r@ == spec_to_lower(s@),
{
    let n = s.unicode_len();
    let mut r = String::new();
    let mut i: usize = 0;
    while i < n
        invariant
            n == s@.len(),
            i <= n,
            r@ == spec_to_lower(s@).take(i as int),
        decreases n - i,
    {
        let c = s.get_char(i);
        let low: char = if 'A' <= c && c <= 'Z' {
            ((c as u32 + 32) as u8) as char
        } else {
            c
        };
        push_char(&mut r, low);
        i = i + 1;
        proof {
            assert(r@ =~= spec_to_lower(s@).take(i as int));
        }
    }
    proof {
        assert(spec_to_lower(s@).take(n as int) =~= spec_to_lower(s@));
    }
    r
}

/// Are the two strings equal character for character?
pub fn str_eq(a: &str, b: &str) -> (r: bool)
    ensures
        r == (a@ == b@),
{
    let na = a.unicode_len();
    let nb = b.unicode_len();
    if na != nb {
        proof {
            assert(a@ != b@);
        }
        return false;
    }
    let mut i: usize = 0;
    while i < na
        invariant
            na == a@.len(),
            na == b@.len(),
            i <= na,
            forall|j: int| 0 <= j < i ==> a@[j] == b@[j],
        decreases na - i,
    {
        if a.get_char(i) != b.get_char(i) {
            return false;
        }
        i = i + 1;
    }
    proof {
        assert(a@ =~= b@);
    }
    true
}

/// Does `s` start with `prefix`?
pub open spec fn spec_starts_with(s: Seq<char>, prefix: Seq<char>) -> bool {
    s.len() >= prefix.len() && s.take(prefix.len() as int) == prefix
}

/// Does `s` end with `suffix`?
pub open spec fn spec_ends_with(s: Seq<char>, suffix: Seq<char>) -> bool {
    s.len() >= suffix.len() && s.skip(s.len() - suffix.len()) == suffix
}

pub fn starts_with(s: &str, prefix: &str) -> (r: bool)
    ensures
        r == spec_starts_with(s@, prefix@),
{
    let n = s.unicode_len();
    let p = prefix.unicode_len();
    if n < p {
        return false;
    }
    let mut i: usize = 0;
    while i < p
        invariant
            n == s@.len(),
            p == prefix@.len(),
            p <= n,
            i <= p,
            forall|j: int| 0 <= j < i ==> s@[j] == prefix@[j],
        decreases p - i,
    {
        if s.get_char(i) != prefix.get_char(i) {
            proof {
                assert(s@.take(p as int)[i as int] != prefix@[i as int]);
            }
            return false;
        }
        i = i + 1;
    }
    proof {
        assert(s@.take(p as int) =~= prefix@);
    }
    true
}

pub fn ends_with(s: &str, suffix: &str) -> (r: bool)
    ensures
        r == spec_ends_with(s@, suffix@),
{
    let n = s.unicode_len();
    let p = suffix.unicode_len();
    if n < p {
        return false;
    }
    let base = n - p;
    let mut i: usize = 0;
    while i < p
        invariant
            n == s@.len(),
            p == suffix@.len(),
            base == n - p,
            i <= p,
            forall|j: int| 0 <= j < i ==> s@[base + j] == suffix@[j],
        decreases p - i,
    {
        if s.get_char(base + i) != suffix.get_char(i) {
            proof {
                assert(s@.skip(base as int)[i as int] != suffix@[i as int]);
            }
            return false;
        }
        i = i + 1;
    }
    proof {
        assert(s@.skip(base as int) =~= suffix@);
    }
    true
}

/// The first index of `c` in `s`, if any.
pub fn find_char(s: &str, c: char) -> (r: Option<usize>)
    ensures
        match r {
            Some(i) => i < s@.len() && s@[i as int] == c && forall|j: int|
                0 <= j < i ==> s@[j] != c,
            None => forall|j: int| 0 <= j < s@.len() ==> s@[j] != c,
        },
{
    let n = s.unicode_len();
    let mut i: usize = 0;
    while i < n
        invariant
            n == s@.len(),
            i <= n,
            forall|j: int| 0 <= j < i ==> s@[j] != c,
        decreases n - i,
    {
        if s.get_char(i) == c {
            return Some(i);
        }
        i = i + 1;
    }
    None
}

/// The last index of `c` in `s`, if any.
pub fn rfind_char(s: &str, c: char) -> (r: Option<usize>)
    ensures
        match r {
            Some(i) => i < s@.len() && s@[i as int] == c && forall|j: int|
                i < j < s@.len() ==> s@[j] != c,
            None => forall|j: int| 0 <= j < s@.len() ==> s@[j] != c,
        },
{
    let n = s.unicode_len();
    let mut i: usize = n;
    while i > 0
        invariant
            n == s@.len(),
            i <= n,
            forall|j: int| i <= j < n ==> s@[j] != c,
        decreases i,
    {
        i = i - 1;
        if s.get_char(i) == c {
            return Some(i);
        }
    }
    None
}

/// Does `s` contain `c`?
pub fn contains_char(s: &str, c: char) -> (r: bool)
    ensures
        r == s@.contains(c),
{
    match find_char(s, c) {
        Some(i) => {
            proof {
                assert(s@[i as int] == c);
            }
            true
        },
        None => {
            proof {
                assert(!s@.contains(c));
            }
            false
        },
    }
}

/// The characters of `s` from `from` (inclusive) to `to` (exclusive), as
/// an owned string.
pub fn substring(s: &str, from: usize, to: usize) -> (r: String)
    requires
        from <= to <= s@.len(),
    ensures
        r@ == s@.subrange(from as int, to as int),
{
    s.substring_char(from, to).to_owned()
}

/// Strips `prefix` from the front of `s`, if present.
pub fn strip_prefix(s: &str, prefix: &str) -> (r: Option<String>)
    ensures
        match r {
            Some(rest) => spec_starts_with(s@, prefix@) && rest@ == s@.skip(prefix@.len() as int),
            None => !spec_starts_with(s@, prefix@),
        },
{
    if starts_with(s, prefix) {
        let n = s.unicode_len();
        let p = prefix.unicode_len();
        let rest = substring(s, p, n);
        proof {
            assert(rest@ =~= s@.skip(prefix@.len() as int));
        }
        Some(rest)
    } else {
        None
    }
}

/// Strips `suffix` from the end of `s`, if present.
pub fn strip_suffix(s: &str, suffix: &str) -> (r: Option<String>)
    ensures
        match r {
            Some(rest) => spec_ends_with(s@, suffix@) && rest@ == s@.take(
                s@.len() - suffix@.len(),
            ),
            None => !spec_ends_with(s@, suffix@),
        },
{
    if ends_with(s, suffix) {
        let n = s.unicode_len();
        let p = suffix.unicode_len();
        let rest = substring(s, 0, n - p);
        proof {
            assert(rest@ =~= s@.take(s@.len() - suffix@.len()));
        }
        Some(rest)
    } else {
        None
    }
}

/// `s` split at every occurrence of `c`: always one more part than there
/// are separators, so the empty sequence yields one empty part.
pub open spec fn spec_split(s: Seq<char>, c: char) -> Seq<Seq<char>>
    decreases s.len(),
{
    if s.len() == 0 {
        seq![Seq::empty()]
    } else if s.last() == c {
        spec_split(s.drop_last(), c).push(Seq::empty())
    } else {
        let r = spec_split(s.drop_last(), c);
        r.update(r.len() - 1, r.last().push(s.last()))
    }
}

/// A split has at least one part.
pub proof fn lemma_split_len(s: Seq<char>, c: char)
    ensures
        spec_split(s, c).len() >= 1,
    decreases s.len(),
{
    if s.len() > 0 {
        lemma_split_len(s.drop_last(), c);
    }
}

/// Splits `s` at every occurrence of `c`.
pub fn split_char(s: &str, c: char) -> (r: Vec<String>)
    ensures
        r.deep_view() == spec_split(s@, c),
        r@.len() >= 1,
{
    let mut parts: Vec<String> = Vec::new();
    let mut cur = String::new();
    let n = s.unicode_len();
    let mut i: usize = 0;
    proof {
        assert(s@.take(0) =~= Seq::<char>::empty());
        assert(parts.deep_view().push(cur@) =~= spec_split(s@.take(0), c));
    }
    while i < n
        invariant
            n == s@.len(),
            i <= n,
            parts.deep_view().push(cur@) == spec_split(s@.take(i as int), c),
        decreases n - i,
    {
        let ch = s.get_char(i);
        let ghost done = parts.deep_view();
        let ghost prev = spec_split(s@.take(i as int), c);
        proof {
            assert(s@.take(i + 1).drop_last() =~= s@.take(i as int));
            assert(s@.take(i + 1).last() == s@[i as int]);
            lemma_split_len(s@.take(i as int), c);
        }
        if ch == c {
            parts.push(cur);
            cur = String::new();
            proof {
                assert(parts.deep_view().push(cur@) =~= prev.push(Seq::<char>::empty()));
            }
        } else {
            push_char(&mut cur, ch);
            proof {
                assert(parts.deep_view().push(cur@) =~= prev.update(
                    prev.len() - 1,
                    prev.last().push(s@[i as int]),
                ));
            }
        }
        i = i + 1;
    }
    proof {
        assert(s@.take(n as int) =~= s@);
        lemma_split_len(s@, c);
    }
    parts.push(cur);
    proof {
        assert(parts.deep_view() =~= spec_split(s@, c));
    }
    parts
}

/// Is `c` ASCII whitespace (space, tab, line feed, carriage return)?
pub open spec fn spec_is_ws(c: char) -> bool {
    c == ' ' || c == '\t' || c == '\n' || c == '\r'
}

/// `s` without leading whitespace.
pub open spec fn spec_trim_start(s: Seq<char>) -> Seq<char>
    decreases s.len(),
{
    if s.len() > 0 && spec_is_ws(s[0]) {
        spec_trim_start(s.skip(1))
    } else {
        s
    }
}

/// `s` without trailing whitespace.
pub open spec fn spec_trim_end(s: Seq<char>) -> Seq<char>
    decreases s.len(),
{
    if s.len() > 0 && spec_is_ws(s.last()) {
        spec_trim_end(s.drop_last())
    } else {
        s
    }
}

/// `s` without leading and trailing whitespace.
pub open spec fn spec_trim(s: Seq<char>) -> Seq<char> {
    spec_trim_end(spec_trim_start(s))
}

proof fn lemma_trim_start_skip(s: Seq<char>, i: int)
    requires
        0 <= i <= s.len(),
        forall|j: int| 0 <= j < i ==> spec_is_ws(#[trigger] s[j]),
        i < s.len() ==> !spec_is_ws(s[i]),
    ensures
        spec_trim_start(s) == s.skip(i),
    decreases i,
{
    if i == 0 {
        if s.len() > 0 && spec_is_ws(s[0]) {
            assert(false);
        }
        assert(s.skip(0) =~= s);
    } else {
        assert(spec_is_ws(s[0]));
        let t = s.skip(1);
        assert(forall|j: int| 0 <= j < i - 1 ==> spec_is_ws(#[trigger] t[j]));
        lemma_trim_start_skip(t, i - 1);
        assert(t.skip(i - 1) =~= s.skip(i));
    }
}

proof fn lemma_trim_end_take(s: Seq<char>, i: int)
    requires
        0 <= i <= s.len(),
        forall|j: int| i <= j < s.len() ==> spec_is_ws(#[trigger] s[j]),
        i > 0 ==> !spec_is_ws(s[i - 1]),
    ensures
        spec_trim_end(s) == s.take(i),
    decreases s.len() - i,
{
    if i == s.len() {
        if s.len() > 0 && spec_is_ws(s.last()) {
            lemma_trim_end_take(s.drop_last(), i - 1);
            assert(false);
        }
        assert(s.take(i) =~= s);
    } else {
        assert(spec_is_ws(s.last()));
        lemma_trim_end_take(s.drop_last(), i);
        assert(s.drop_last().take(i) =~= s.take(i));
    }
}

/// Removes leading and trailing ASCII whitespace.
pub fn trim(s: &str) -> (r: String)
    ensures
        r@ == spec_trim(s@),
{
    let n = s.unicode_len();
    let mut start: usize = 0;
    while start < n
        invariant
            n == s@.len(),
            start <= n,
            forall|j: int| 0 <= j < start ==> spec_is_ws(#[trigger] s@[j]),
        ensures
            start <= n,
            forall|j: int| 0 <= j < start ==> spec_is_ws(#[trigger] s@[j]),
            start < n ==> !spec_is_ws(s@[start as int]),
        decreases n - start,
    {
        let c = s.get_char(start);
        if !(c == ' ' || c == '\t' || c == '\n' || c == '\r') {
            break ;
        }
        start = start + 1;
    }
    let mut end: usize = n;
    while end > start
        invariant
            n == s@.len(),
            start <= end <= n,
            forall|j: int| end <= j < n ==> spec_is_ws(#[trigger] s@[j]),
        ensures
            start <= end <= n,
            forall|j: int| end <= j < n ==> spec_is_ws(#[trigger] s@[j]),
            end > start ==> !spec_is_ws(s@[end - 1]),
        decreases end,
    {
        let c = s.get_char(end - 1);
        if !(c == ' ' || c == '\t' || c == '\n' || c == '\r') {
            break ;
        }
        end = end - 1;
    }
    let r = substring(s, start, end);
    proof {
        lemma_trim_start_skip(s@, start as int);
        let t = s@.skip(start as int);
        assert(forall|j: int|
            end - start <= j < t.len() ==> spec_is_ws(#[trigger] t[j]));
        if end > start {
            assert(!spec_is_ws(t[end - start - 1]));
        }
        lemma_trim_end_take(t, end - start);
        assert(t.take(end - start) =~= s@.subrange(start as int, end as int));
    }
    r
}

/// Is `c` a decimal digit?
pub open spec fn spec_is_digit(c: char) -> bool {
    '0' <= c && c <= '9'
}

/// The numeric value of a sequence of decimal digits, most significant
/// first.
pub open spec fn spec_digits_value(s: Seq<char>) -> int
    decreases s.len(),
{
    if s.len() == 0 {
        0
    } else {
        spec_digits_value(s.drop_last()) * 10 + (s.last() as int - 48)
    }
}

/// Parses a non-negative decimal integer. Returns `None` on an empty
/// string, any non-digit character, or a value that does not fit in
/// `u64`.
pub fn parse_u64(s: &str) -> (r: Option<u64>)
    ensures
        match r {
            Some(v) => {
                &&& s@.len() > 0
                &&& forall|j: int| 0 <= j < s@.len() ==> spec_is_digit(#[trigger] s@[j])
                &&& v as int == spec_digits_value(s@)
            },
            None => s@.len() == 0 || (exists|j: int|
                0 <= j < s@.len() && !spec_is_digit(#[trigger] s@[j])) || spec_digits_value(s@)
                > u64::MAX,
        },
{
    let n = s.unicode_len();
    if n == 0 {
        return None;
    }
    let mut acc: u64 = 0;
    let mut i: usize = 0;
    while i < n
        invariant
            n == s@.len(),
            i <= n,
            forall|j: int| 0 <= j < i ==> spec_is_digit(#[trigger] s@[j]),
            acc as int == spec_digits_value(s@.take(i as int)),
        decreases n - i,
    {
        let c = s.get_char(i);
        if !('0' <= c && c <= '9') {
            return None;
        }
        let d: u64 = (c as u32 as u64) - 48;
        proof {
            assert(s@.take(i + 1).drop_last() =~= s@.take(i as int));
            assert(s@.take(i + 1).last() == s@[i as int]);
        }
        if acc > (u64::MAX - d) / 10 {
            proof {
                lemma_digits_value_grows(s@, i as int);
            }
            return None;
        }
        acc = acc * 10 + d;
        i = i + 1;
    }
    proof {
        assert(s@.take(n as int) =~= s@);
    }
    Some(acc)
}

/// Once a digit prefix is worth more than `u64::MAX`, the whole digit
/// string is too.
proof fn lemma_digits_value_grows(s: Seq<char>, i: int)
    requires
        0 <= i < s.len(),
        spec_digits_value(s.take(i + 1)) > u64::MAX,
    ensures
        (exists|j: int| 0 <= j < s.len() && !spec_is_digit(#[trigger] s[j])) || spec_digits_value(
            s,
        ) > u64::MAX,
    decreases s.len() - i,
{
    if i + 1 == s.len() {
        assert(s.take(i + 1) =~= s);
    } else if !spec_is_digit(s[i + 1]) {
        assert(!spec_is_digit(s[i + 1]));
    } else {
        assert(s.take(i + 2).drop_last() =~= s.take(i + 1));
        let prev = spec_digits_value(s.take(i + 1));
        let last = s.take(i + 2).last();
        assert(last == s[i + 1]);
        assert(last as int - 48 >= 0);
        assert(spec_digits_value(s.take(i + 2)) == prev * 10 + (last as int - 48));
        assert(prev * 10 >= prev) by (nonlinear_arith)
            requires
                prev > 0,
        ;
        lemma_digits_value_grows(s, i + 1);
    }
}

/// Right-pads `s` with `c` to `width` characters.
pub fn pad_right(s: &str, width: usize, c: char) -> (r: String)
    ensures
        r@ == spec_pad_right(s@, width as int, c),
{
    let n = s.unicode_len();
    if n >= width {
        return s.to_owned();
    }
    let mut r = s.to_owned();
    let pad = repeat_char(c, width - n);
    r.append(pad.as_str());
    proof {
        assert(r@ =~= spec_pad_right(s@, width as int, c));
    }
    r
}

} // verus!
