//! Text as sequences of characters: searching, trimming, splitting, and
//! decimal numbers.

use vstd::prelude::*;
use vstd::string::*;

verus! {

// ---------------------------------------------------------------------------
// Models
// ---------------------------------------------------------------------------

/// `needle` stands in `hay` at position `at`.
pub open spec fn occurs_at(hay: Seq<char>, needle: Seq<char>, at: int) -> bool {
    &&& 0 <= at
    &&& at + needle.len() <= hay.len()
    &&& hay.subrange(at, at + needle.len()) == needle
}

/// The first position, not before `from`, at which `needle` stands in `hay`.
pub open spec fn first_from(hay: Seq<char>, needle: Seq<char>, from: int) -> Option<int>
    decreases hay.len() + 1 - from,
{
    if from < 0 || from + needle.len() > hay.len() {
        None
    } else if occurs_at(hay, needle, from) {
        Some(from)
    } else {
        first_from(hay, needle, from + 1)
    }
}

/// `s` begins with `prefix`.
pub open spec fn begins_with(s: Seq<char>, prefix: Seq<char>) -> bool {
    s.len() >= prefix.len() && s.take(prefix.len() as int) == prefix
}

/// `s` ends with `suffix`.
pub open spec fn ends_with(s: Seq<char>, suffix: Seq<char>) -> bool {
    s.len() >= suffix.len() && s.skip(s.len() - suffix.len()) == suffix
}

/// The first position of `c` in `s`, not before `from`; the length of `s` when
/// there is none.
pub open spec fn index_from(s: Seq<char>, c: char, from: int) -> int
    decreases s.len() - from,
{
    if from < 0 || from >= s.len() {
        s.len() as int
    } else if s[from] == c {
        from
    } else {
        index_from(s, c, from + 1)
    }
}

/// The characters that Unicode gives the property White_Space.
pub open spec fn is_blank(c: char) -> bool {
    let n = c as u32;
    ||| 0x9 <= n <= 0xD
    ||| n == 0x20
    ||| n == 0x85
    ||| n == 0xA0
    ||| n == 0x1680
    ||| 0x2000 <= n <= 0x200A
    ||| n == 0x2028
    ||| n == 0x2029
    ||| n == 0x202F
    ||| n == 0x205F
    ||| n == 0x3000
}

/// `s` without its leading blanks.
pub open spec fn trim_front(s: Seq<char>) -> Seq<char>
    decreases s.len(),
{
    if s.len() > 0 && is_blank(s[0]) {
        trim_front(s.skip(1))
    } else {
        s
    }
}

/// `s` without its trailing blanks.
pub open spec fn trim_back(s: Seq<char>) -> Seq<char>
    decreases s.len(),
{
    if s.len() > 0 && is_blank(s.last()) {
        trim_back(s.drop_last())
    } else {
        s
    }
}

/// `s` without blanks on either side.
pub open spec fn trimmed(s: Seq<char>) -> Seq<char> {
    trim_back(trim_front(s))
}

/// `s` without the copies of `c` at its end.
pub open spec fn without_trailing(s: Seq<char>, c: char) -> Seq<char>
    decreases s.len(),
{
    if s.len() > 0 && s.last() == c {
        without_trailing(s.drop_last(), c)
    } else {
        s
    }
}

/// How many characters of `s`, from `from` on, come before the first blank.
pub open spec fn word_end(s: Seq<char>, from: int) -> int
    decreases s.len() - from,
{
    if from < 0 || from >= s.len() || is_blank(s[from]) {
        from
    } else {
        word_end(s, from + 1)
    }
}

/// The first run of non-blank characters of `s`, if there is one.
pub open spec fn first_word(s: Seq<char>) -> Option<Seq<char>> {
    let t = trim_front(s);
    if t.len() == 0 {
        None
    } else {
        Some(t.take(word_end(t, 0)))
    }
}

/// What follows the first run of non-blank characters of `s`.
pub open spec fn after_word(s: Seq<char>) -> Seq<char> {
    let t = trim_front(s);
    t.skip(word_end(t, 0))
}

/// The ASCII letter in lower case; any other character as it is.
pub open spec fn lowered(c: char) -> char {
    if 'A' <= c <= 'Z' {
        ((c as u32) + 32) as char
    } else {
        c
    }
}

/// The texts differ in the case of ASCII letters at most.
pub open spec fn equal_ignoring_case(a: Seq<char>, b: Seq<char>) -> bool {
    a.len() == b.len() && forall|i: int|
        0 <= i < a.len() ==> lowered(#[trigger] a[i]) == lowered(b[i])
}

/// What comes before the first line feed, without a carriage return in front of
/// it; the whole text where there is no line feed.
pub open spec fn line_at_front(s: Seq<char>) -> Seq<char> {
    let end = index_from(s, '\n', 0);
    let line = s.take(end);
    if end < s.len() && line.len() > 0 && line.last() == '\r' {
        line.drop_last()
    } else {
        line
    }
}

/// The texts one after the other, with `sep` between them.
pub open spec fn joined(parts: Seq<Seq<char>>, sep: Seq<char>) -> Seq<char>
    decreases parts.len(),
{
    if parts.len() == 0 {
        Seq::empty()
    } else if parts.len() == 1 {
        parts[0]
    } else {
        joined(parts.drop_last(), sep) + sep + parts.last()
    }
}

pub open spec fn is_digit(c: char) -> bool {
    '0' <= c <= '9'
}

/// The decimal digit that stands for `d`.
pub open spec fn digit_char(d: nat) -> char {
    (('0' as u32) + d) as char
}

/// The decimal notation of `n`, without leading zeros.
pub open spec fn decimal_of(n: nat) -> Seq<char>
    decreases n,
{
    if n < 10 {
        seq![digit_char(n)]
    } else {
        decimal_of(n / 10).push(digit_char(n % 10))
    }
}

/// The number that a run of decimal digits stands for.
pub open spec fn digits_value(s: Seq<char>) -> nat
    decreases s.len(),
{
    if s.len() == 0 {
        0
    } else {
        digits_value(s.drop_last()) * 10 + ((s.last() as u32) - ('0' as u32)) as nat
    }
}

pub open spec fn all_digits(s: Seq<char>) -> bool {
    forall|i: int| 0 <= i < s.len() ==> is_digit(#[trigger] s[i])
}

/// What a text stands for as an unsigned number of at most `max`: one or more
/// decimal digits and nothing else.
pub open spec fn parsed_digits(s: Seq<char>, max: nat) -> Option<nat> {
    if s.len() > 0 && all_digits(s) && digits_value(s) <= max {
        Some(digits_value(s))
    } else {
        None
    }
}

/// The same, with one plus sign allowed in front.
pub open spec fn parsed_unsigned(s: Seq<char>, max: nat) -> Option<nat> {
    if s.len() > 1 && s[0] == '+' {
        parsed_digits(s.skip(1), max)
    } else {
        parsed_digits(s, max)
    }
}

// ---------------------------------------------------------------------------
// Building and comparing
// ---------------------------------------------------------------------------

/// `String::push`: the character is added at the end.
#[verifier::external_body]
pub(crate) fn push_char(s: &mut String, c: char)
    ensures
        final(s)@ == old(s)@.push(c),
{
    s.push(c);
}

/// How `str` is written by its `Debug` format: quoted and escaped.
pub uninterp spec fn debugged(s: Seq<char>) -> Seq<char>;

/// The `Debug` format of a `str`. Which characters it escapes is left to std.
#[verifier::external_body]
pub(crate) fn debug_text(s: &str) -> (r: String)
    ensures
        r@ == debugged(s@),
{
    format!("{s:?}")
}

/// The characters of `s`, in order.
pub fn chars_of(s: &str) -> (r: Vec<char>)
    ensures
        r@ == s@,
{
    let mut out: Vec<char> = Vec::new();
    for c in it: s.chars()
        invariant
            out@ == it.seq().take(it.index() as int),
            it.seq() == s@,
    {
        out.push(c);
    }
    out
}

/// The text made of `v[from..to]`.
pub fn string_of(v: &Vec<char>, from: usize, to: usize) -> (r: String)
    requires
        from <= to <= v.len(),
    ensures
        r@ == v@.subrange(from as int, to as int),
{
    let mut out = String::new();
    let mut i: usize = from;
    while i < to
        invariant
            from <= i <= to <= v.len(),
            out@ == v@.subrange(from as int, i as int),
        decreases to - i,
    {
        push_char(&mut out, v[i]);
        assert(v@.subrange(from as int, i as int).push(v[i as int]) =~= v@.subrange(
            from as int,
            i + 1,
        ));
        i += 1;
    }
    out
}

/// Whether two texts hold the same characters.
pub fn same(a: &str, b: &str) -> (r: bool)
    ensures
        r == (a@ == b@),
{
    a.to_owned() == b.to_owned()
}

/// The texts `a` and `b`, one after the other.
pub fn join(a: &str, b: &str) -> (r: String)
    ensures
        r@ == a@ + b@,
{
    let mut s = a.to_owned();
    s.append(b);
    s
}

// ---------------------------------------------------------------------------
// Searching
// ---------------------------------------------------------------------------

fn matches_at(hay: &Vec<char>, needle: &Vec<char>, at: usize) -> (r: bool)
    requires
        at + needle.len() <= hay.len(),
    ensures
        r == occurs_at(hay@, needle@, at as int),
{
    let mut k: usize = 0;
    while k < needle.len()
        invariant
            k <= needle.len(),
            at + needle.len() <= hay.len(),
            forall|j: int| 0 <= j < k ==> hay@[at + j] == needle@[j],
        decreases needle.len() - k,
    {
        if hay[at + k] != needle[k] {
            assert(hay@.subrange(at as int, at + needle@.len())[k as int] != needle@[k as int]);
            return false;
        }
        k += 1;
    }
    assert(hay@.subrange(at as int, at + needle@.len()) =~= needle@);
    true
}

/// The first place, not before `from`, at which `needle` stands in `hay`.
pub fn find_from(hay: &Vec<char>, needle: &Vec<char>, from: usize) -> (r: Option<usize>)
    ensures
        match r {
            Some(i) => first_from(hay@, needle@, from as int) == Some(i as int) && i
                + needle.len() <= hay.len() && from <= i,
            None => first_from(hay@, needle@, from as int) is None,
        },
{
    let mut i: usize = from;
    while i <= hay.len() && needle.len() <= hay.len() - i
        invariant
            from <= i <= hay.len() + 1 || i == from,
            first_from(hay@, needle@, from as int) == first_from(hay@, needle@, i as int),
        decreases hay.len() + 1 - i,
    {
        if matches_at(hay, needle, i) {
            return Some(i);
        }
        if i == hay.len() {
            assert(first_from(hay@, needle@, i + 1) is None);
            return None;
        }
        i += 1;
    }
    None
}

/// Whether `needle` stands anywhere in `hay`.
pub fn contains(hay: &str, needle: &str) -> (r: bool)
    ensures
        r == (first_from(hay@, needle@, 0) is Some),
{
    find_from(&chars_of(hay), &chars_of(needle), 0).is_some()
}

/// What follows `prefix` in `s`, if `s` begins with it.
pub fn after_prefix(s: &str, prefix: &str) -> (r: Option<String>)
    ensures
        match r {
            Some(rest) => begins_with(s@, prefix@) && rest@ == s@.skip(prefix@.len() as int),
            None => !begins_with(s@, prefix@),
        },
{
    let h = chars_of(s);
    let p = chars_of(prefix);
    assert(s@.len() >= prefix@.len() ==> s@.subrange(0, prefix@.len() as int) =~= s@.take(
        prefix@.len() as int,
    ));
    if p.len() <= h.len() && matches_at(&h, &p, 0) {
        let rest = string_of(&h, p.len(), h.len());
        assert(rest@ =~= s@.skip(prefix@.len() as int));
        Some(rest)
    } else {
        None
    }
}

/// What precedes `suffix` in `s`, if `s` ends with it.
pub fn before_suffix(s: &str, suffix: &str) -> (r: Option<String>)
    ensures
        match r {
            Some(rest) => ends_with(s@, suffix@) && rest@ == s@.take(s@.len() - suffix@.len()),
            None => !ends_with(s@, suffix@),
        },
{
    let h = chars_of(s);
    let p = chars_of(suffix);
    assert(s@.len() >= suffix@.len() ==> s@.subrange(
        s@.len() - suffix@.len(),
        s@.len() as int,
    ) =~= s@.skip(s@.len() - suffix@.len()));
    if p.len() <= h.len() && matches_at(&h, &p, h.len() - p.len()) {
        let rest = string_of(&h, 0, h.len() - p.len());
        assert(rest@ =~= s@.take(s@.len() - suffix@.len()));
        Some(rest)
    } else {
        None
    }
}

/// The first place, not before `from`, at which `c` stands in `v`; the length of
/// `v` when there is none.
pub fn index_of(v: &Vec<char>, c: char, from: usize) -> (r: usize)
    requires
        from <= v.len(),
    ensures
        r == index_from(v@, c, from as int),
        from <= r <= v.len(),
        r < v.len() ==> v@[r as int] == c,
{
    let mut i: usize = from;
    while i < v.len()
        invariant
            from <= i <= v.len(),
            index_from(v@, c, from as int) == index_from(v@, c, i as int),
        decreases v.len() - i,
    {
        if v[i] == c {
            return i;
        }
        i += 1;
    }
    i
}

// ---------------------------------------------------------------------------
// Trimming
// ---------------------------------------------------------------------------

/// Whether `c` is a blank, as `char::is_whitespace` has it.
pub fn blank(c: char) -> (r: bool)
    ensures
        r == is_blank(c),
{
    let n: u32 = c as u32;
    (0x9 <= n && n <= 0xD) || n == 0x20 || n == 0x85 || n == 0xA0 || n == 0x1680 || (0x2000 <= n
        && n <= 0x200A) || n == 0x2028 || n == 0x2029 || n == 0x202F || n == 0x205F || n == 0x3000
}

fn front_blanks(v: &Vec<char>) -> (r: usize)
    ensures
        r <= v.len(),
        trim_front(v@) == v@.skip(r as int),
{
    let mut i: usize = 0;
    assert(v@.skip(0) =~= v@);
    while i < v.len() && blank(v[i])
        invariant
            i <= v.len(),
            trim_front(v@) == trim_front(v@.skip(i as int)),
        decreases v.len() - i,
    {
        assert(v@.skip(i as int).skip(1) =~= v@.skip(i + 1));
        i += 1;
    }
    i
}

fn back_blanks(v: &Vec<char>, from: usize) -> (r: usize)
    requires
        from <= v.len(),
    ensures
        from <= r <= v.len(),
        trim_back(v@.skip(from as int)) == v@.subrange(from as int, r as int),
{
    let mut i: usize = v.len();
    assert(v@.subrange(from as int, i as int) =~= v@.skip(from as int));
    while i > from && blank(v[i - 1])
        invariant
            from <= i <= v.len(),
            trim_back(v@.skip(from as int)) == trim_back(v@.subrange(from as int, i as int)),
        decreases i,
    {
        assert(v@.subrange(from as int, i as int).drop_last() =~= v@.subrange(
            from as int,
            i - 1,
        ));
        i -= 1;
    }
    i
}

/// `s` without blanks on either side.
pub fn trim(s: &str) -> (r: String)
    ensures
        r@ == trimmed(s@),
{
    let v = chars_of(s);
    let a = front_blanks(&v);
    let b = back_blanks(&v, a);
    string_of(&v, a, b)
}

/// `s` without the copies of `c` at its end.
pub fn trim_end_char(s: &str, c: char) -> (r: String)
    ensures
        r@ == without_trailing(s@, c),
{
    let v = chars_of(s);
    let mut i: usize = v.len();
    assert(v@.take(i as int) =~= v@);
    while i > 0 && v[i - 1] == c
        invariant
            i <= v.len(),
            without_trailing(v@, c) == without_trailing(v@.take(i as int), c),
        decreases i,
    {
        assert(v@.take(i as int).drop_last() =~= v@.take(i - 1));
        i -= 1;
    }
    assert(v@.subrange(0, i as int) =~= v@.take(i as int));
    string_of(&v, 0, i)
}

/// Where the first run of non-blank characters from `from` on begins and ends.
pub fn word_bounds(v: &Vec<char>, from: usize) -> (r: Option<(usize, usize)>)
    requires
        from <= v.len(),
    ensures
        match r {
            Some((a, b)) => {
                &&& from <= a < b <= v.len()
                &&& first_word(v@.skip(from as int)) == Some(v@.subrange(a as int, b as int))
                &&& after_word(v@.skip(from as int)) == v@.skip(b as int)
            },
            None => first_word(v@.skip(from as int)) is None,
        },
{
    let mut i: usize = from;
    let ghost t = v@.skip(from as int);
    while i < v.len() && blank(v[i])
        invariant
            from <= i <= v.len(),
            t == v@.skip(from as int),
            trim_front(t) == trim_front(v@.skip(i as int)),
        decreases v.len() - i,
    {
        assert(v@.skip(i as int).skip(1) =~= v@.skip(i + 1));
        i += 1;
    }
    if i == v.len() {
        return None;
    }
    let ghost u = v@.skip(i as int);
    assert(u[0] == v@[i as int]);
    let mut j: usize = i;
    while j < v.len() && !blank(v[j])
        invariant
            i <= j <= v.len(),
            u == v@.skip(i as int),
            word_end(u, 0) == word_end(u, j - i),
        decreases v.len() - j,
    {
        assert(u[j - i] == v@[j as int]);
        j += 1;
    }
    assert(j < v.len() ==> u[j - i] == v@[j as int]);
    assert(u.take(j - i) =~= v@.subrange(i as int, j as int));
    assert(u.skip(j - i) =~= v@.skip(j as int));
    Some((i, j))
}

/// The first run of non-blank characters in `v` from `from` on.
pub fn word_from(v: &Vec<char>, from: usize) -> (r: Option<String>)
    requires
        from <= v.len(),
    ensures
        match r {
            Some(w) => first_word(v@.skip(from as int)) == Some(w@),
            None => first_word(v@.skip(from as int)) is None,
        },
{
    match word_bounds(v, from) {
        Some((a, b)) => Some(string_of(v, a, b)),
        None => None,
    }
}

/// The ASCII letter in lower case; any other character as it is.
pub fn lower(c: char) -> (r: char)
    ensures
        r == lowered(c),
{
    if 'A' <= c && c <= 'Z' {
        (c as u8 + 32u8) as char
    } else {
        c
    }
}

/// Whether two texts differ in the case of ASCII letters at most.
pub fn same_ignoring_case(a: &str, b: &str) -> (r: bool)
    ensures
        r == equal_ignoring_case(a@, b@),
{
    let x = chars_of(a);
    let y = chars_of(b);
    if x.len() != y.len() {
        return false;
    }
    let mut i: usize = 0;
    while i < x.len()
        invariant
            i <= x.len() == y.len(),
            x@ == a@,
            y@ == b@,
            forall|j: int| 0 <= j < i ==> lowered(#[trigger] x@[j]) == lowered(y@[j]),
        decreases x.len() - i,
    {
        if lower(x[i]) != lower(y[i]) {
            return false;
        }
        i += 1;
    }
    true
}

/// The first line of a text, without its line ending.
pub fn first_line(s: &str) -> (r: String)
    ensures
        r@ == line_at_front(s@),
{
    let v = chars_of(s);
    let end = index_of(&v, '\n', 0);
    assert(v@.subrange(0, end as int) =~= v@.take(end as int));
    if end < v.len() && end > 0 && v[end - 1] == '\r' {
        assert(v@.take(end as int).drop_last() =~= v@.subrange(0, end - 1));
        string_of(&v, 0, end - 1)
    } else {
        string_of(&v, 0, end)
    }
}

// ---------------------------------------------------------------------------
// Decimal numbers
// ---------------------------------------------------------------------------

/// The decimal notation of `n`.
pub fn decimal(n: u64) -> (r: String)
    ensures
        r@ == decimal_of(n as nat),
    decreases n,
{
    let mut s = if n < 10 {
        String::new()
    } else {
        decimal(n / 10)
    };
    let d: u8 = (n % 10) as u8;
    push_char(&mut s, (48u8 + d) as char);
    assert(n < 10 ==> s@ =~= seq![digit_char(n as nat)]);
    s
}

proof fn lemma_digits_grow(s: Seq<char>, k: int)
    requires
        0 <= k <= s.len(),
        all_digits(s),
    ensures
        digits_value(s.take(k)) <= digits_value(s),
    decreases s.len() - k,
{
    if k < s.len() {
        lemma_digits_grow(s, k + 1);
        assert(s.take(k + 1).drop_last() =~= s.take(k));
        assert(s.take(k + 1).last() == s[k]);
    } else {
        assert(s.take(k) =~= s);
    }
}

/// Reads one or more decimal digits that make a number of at most `max`.
pub fn read_digits(v: &Vec<char>, from: usize, max: u64) -> (r: Option<u64>)
    requires
        from <= v.len(),
    ensures
        match r {
            Some(n) => parsed_digits(v@.skip(from as int), max as nat) == Some(n as nat),
            None => parsed_digits(v@.skip(from as int), max as nat) is None,
        },
{
    let ghost s = v@.skip(from as int);
    if from == v.len() {
        return None;
    }
    let mut n: u64 = 0;
    let mut i: usize = from;
    while i < v.len()
        invariant
            from <= i <= v.len(),
            s == v@.skip(from as int),
            n <= max,
            n == digits_value(s.take(i - from)),
            forall|j: int| 0 <= j < i - from ==> is_digit(#[trigger] s[j]),
        decreases v.len() - i,
    {
        let c = v[i];
        assert(s[i - from] == c);
        if !('0' <= c && c <= '9') {
            return None;
        }
        let d: u64 = (c as u32 - '0' as u32) as u64;
        assert(s.take(i - from + 1).drop_last() =~= s.take(i - from));
        assert(s.take(i - from + 1).last() == c);
        if n > (max / 10) || n * 10 > max - d.min(max) || d > max {
            proof {
                if all_digits(s) {
                    lemma_digits_grow(s, i - from + 1);
                }
            }
            return None;
        }
        n = n * 10 + d;
        i += 1;
    }
    assert(s.take(i - from) =~= s);
    Some(n)
}

/// Reads an unsigned number of at most `max`, with an optional plus sign.
pub fn read_unsigned(s: &str, max: u64) -> (r: Option<u64>)
    ensures
        match r {
            Some(n) => parsed_unsigned(s@, max as nat) == Some(n as nat),
            None => parsed_unsigned(s@, max as nat) is None,
        },
{
    let v = chars_of(s);
    assert(s@.skip(0) =~= s@);
    if v.len() > 1 && v[0] == '+' {
        read_digits(&v, 1, max)
    } else {
        read_digits(&v, 0, max)
    }
}

// ---------------------------------------------------------------------------
// Laws
// ---------------------------------------------------------------------------

/// The decimal notation of a number is read as that number, and has no leading zero.
pub proof fn law_decimal_is_read_back(n: nat, max: nat)
    requires
        n <= max,
    ensures
        parsed_digits(decimal_of(n), max) == Some(n),
        parsed_unsigned(decimal_of(n), max) == Some(n),
        decimal_of(n).len() > 1 ==> decimal_of(n)[0] != '0',
{
    lemma_decimal(n);
}

proof fn lemma_decimal(n: nat)
    ensures
        decimal_of(n).len() > 0,
        all_digits(decimal_of(n)),
        digits_value(decimal_of(n)) == n,
        n > 0 ==> decimal_of(n)[0] != '0',
        n < 10 ==> decimal_of(n).len() == 1,
    decreases n,
{
    let s = decimal_of(n);
    if n < 10 {
        assert(s.drop_last() =~= Seq::empty());
        assert(digits_value(s.drop_last()) == 0);
    } else {
        lemma_decimal(n / 10);
        let d = decimal_of(n / 10);
        assert(s.drop_last() =~= d);
        assert(s[0] == d[0]);
        assert(is_digit(digit_char(n % 10)));
    }
}

/// Blanks on either side of a text are cut off, and nothing else.
pub proof fn law_blanks_are_trimmed(front: Seq<char>, s: Seq<char>, back: Seq<char>)
    requires
        forall|i: int| 0 <= i < front.len() ==> is_blank(#[trigger] front[i]),
        forall|i: int| 0 <= i < back.len() ==> is_blank(#[trigger] back[i]),
        s.len() > 0 ==> !is_blank(s[0]) && !is_blank(s.last()),
    ensures
        trimmed(front + s + back) == s,
    decreases front.len(), back.len(),
{
    let all = front + s + back;
    if front.len() > 0 {
        assert(all[0] == front[0]);
        assert(all.skip(1) =~= front.skip(1) + s + back);
        assert forall|i: int| 0 <= i < front.skip(1).len() implies is_blank(
            #[trigger] front.skip(1)[i],
        ) by {
            assert(front.skip(1)[i] == front[i + 1]);
        }
        law_blanks_are_trimmed(front.skip(1), s, back);
    } else if s.len() > 0 {
        assert(all[0] == s[0]);
        assert(trim_front(all) == all);
        lemma_trim_back(s, back);
        assert(all =~= s + back);
    } else {
        assert(all =~= back);
        if back.len() > 0 {
            assert(all.skip(1) =~= back.skip(1));
            assert forall|i: int| 0 <= i < back.skip(1).len() implies is_blank(
                #[trigger] back.skip(1)[i],
            ) by {
                assert(back.skip(1)[i] == back[i + 1]);
            }
            law_blanks_are_trimmed(front, s, back.skip(1));
            assert(front + s + back.skip(1) =~= back.skip(1));
        }
        assert(s =~= Seq::empty());
    }
}

proof fn lemma_trim_back(s: Seq<char>, back: Seq<char>)
    requires
        s.len() > 0,
        !is_blank(s.last()),
        forall|i: int| 0 <= i < back.len() ==> is_blank(#[trigger] back[i]),
    ensures
        trim_back(s + back) == s,
    decreases back.len(),
{
    let all = s + back;
    if back.len() == 0 {
        assert(all =~= s);
    } else {
        assert(all.last() == back[back.len() - 1]);
        assert(all.drop_last() =~= s + back.drop_last());
        assert forall|i: int| 0 <= i < back.drop_last().len() implies is_blank(
            #[trigger] back.drop_last()[i],
        ) by {
            assert(back.drop_last()[i] == back[i]);
        }
        lemma_trim_back(s, back.drop_last());
    }
}

/// Spaces, tabs and the ends of lines are blanks; no other character of ASCII from the
/// exclamation mark to the tilde is one.
pub proof fn law_what_is_blank(c: char)
    ensures
        is_blank(' ') && is_blank('\t') && is_blank('\n') && is_blank('\r'),
        '!' <= c && c <= '~' ==> !is_blank(c),
{
}

/// What is found is there, and nothing is there before it; what is not found is nowhere.
pub proof fn law_first_occurrence_is_found(hay: Seq<char>, needle: Seq<char>, from: int, at: int)
    requires
        0 <= from <= at,
        at + needle.len() <= hay.len(),
    ensures
        match first_from(hay, needle, from) {
            Some(i) => from <= i && i + needle.len() <= hay.len() && hay.subrange(
                i,
                i + needle.len(),
            ) == needle && (at < i ==> hay.subrange(at, at + needle.len()) != needle),
            None => hay.subrange(at, at + needle.len()) != needle,
        },
    decreases hay.len() - from,
{
    if !occurs_at(hay, needle, from) && from < at {
        law_first_occurrence_is_found(hay, needle, from + 1, at);
    } else if !occurs_at(hay, needle, from) && from + 1 + needle.len() <= hay.len() {
        law_first_occurrence_is_found(hay, needle, from + 1, from + 1);
    }
}

/// The first line of a text ends at its first line feed, or at the carriage return before it.
pub proof fn law_first_line_ends_at_its_ending(line: Seq<char>, rest: Seq<char>)
    requires
        !line.contains('\n'),
        line.len() > 0 ==> line.last() != '\r',
    ensures
        line_at_front(line) == line,
        line_at_front(line + seq!['\n'] + rest) == line,
        line_at_front(line + seq!['\r', '\n'] + rest) == line,
{
    assert forall|i: int| 0 <= i < line.len() implies #[trigger] line[i] != '\n' by {
        assert(line.contains(line[i]));
    }
    lemma_no_index(line, '\n', 0);
    assert(line.take(line.len() as int) =~= line);
    let a = line + seq!['\n'] + rest;
    lemma_index_at(a, '\n', 0, line.len() as int);
    assert(a.take(line.len() as int) =~= line);
    let b = line + seq!['\r', '\n'] + rest;
    lemma_index_at(b, '\n', 0, (line.len() + 1) as int);
    assert(b.take((line.len() + 1) as int) =~= line.push('\r'));
    assert(line.push('\r').drop_last() =~= line);
}

proof fn lemma_no_index(s: Seq<char>, c: char, from: int)
    requires
        0 <= from <= s.len(),
        forall|i: int| from <= i < s.len() ==> s[i] != c,
    ensures
        index_from(s, c, from) == s.len(),
    decreases s.len() - from,
{
    if from < s.len() {
        lemma_no_index(s, c, from + 1);
    }
}

pub proof fn lemma_index_at(s: Seq<char>, c: char, from: int, at: int)
    requires
        0 <= from <= at < s.len(),
        s[at] == c,
        forall|i: int| from <= i < at ==> s[i] != c,
    ensures
        index_from(s, c, from) == at,
    decreases at - from,
{
    if from < at {
        lemma_index_at(s, c, from + 1, at);
    }
}

/// Joined texts have the separator between any two of them, and nowhere else.
pub proof fn law_texts_are_joined(parts: Seq<Seq<char>>, last: Seq<char>, sep: Seq<char>)
    ensures
        joined(Seq::empty(), sep).len() == 0,
        joined(seq![last], sep) == last,
        parts.len() > 0 ==> joined(parts.push(last), sep) == joined(parts, sep) + sep + last,
{
    assert(parts.push(last).drop_last() =~= parts);
}

/// Behind the first word comes what stands behind it, from its blank on.
pub proof fn law_first_word_is_passed(blanks: Seq<char>, word: Seq<char>, rest: Seq<char>)
    requires
        forall|i: int| 0 <= i < blanks.len() ==> is_blank(#[trigger] blanks[i]),
        word.len() > 0,
        forall|i: int| 0 <= i < word.len() ==> !is_blank(#[trigger] word[i]),
        rest.len() > 0 ==> is_blank(rest[0]),
    ensures
        after_word(blanks + word + rest) == rest,
    decreases blanks.len(),
{
    let s = blanks + word + rest;
    if blanks.len() > 0 {
        assert(s[0] == blanks[0]);
        assert(s.skip(1) =~= blanks.skip(1) + word + rest);
        assert forall|i: int| 0 <= i < blanks.skip(1).len() implies is_blank(
            #[trigger] blanks.skip(1)[i],
        ) by {
            assert(blanks.skip(1)[i] == blanks[i + 1]);
        }
        law_first_word_is_passed(blanks.skip(1), word, rest);
    } else {
        assert(s =~= word + rest);
        assert(s[0] == word[0]);
        lemma_word_end(s, 0, word.len() as int);
        assert(s.skip(word.len() as int) =~= rest);
    }
}

proof fn lemma_word_end(s: Seq<char>, from: int, end: int)
    requires
        0 <= from <= end <= s.len(),
        forall|i: int| from <= i < end ==> !is_blank(#[trigger] s[i]),
        end < s.len() ==> is_blank(s[end]),
    ensures
        word_end(s, from) == end,
    decreases end - from,
{
    if from < end {
        lemma_word_end(s, from + 1, end);
    }
}

/// Capitals become the small letters of the same place in the alphabet, and other characters
/// stay.
pub proof fn law_capitals_are_lowered(c: char)
    ensures
        'A' <= c <= 'Z' ==> lowered(c) as int - 'a' as int == c as int - 'A' as int,
        !('A' <= c <= 'Z') ==> lowered(c) == c,
{
}

/// Texts are equal but for case where they differ in nothing but that, character by character.
pub proof fn law_case_alone_is_ignored(s: Seq<char>, a: Seq<char>, b: Seq<char>, i: int)
    ensures
        equal_ignoring_case(s, s),
        a.len() != b.len() ==> !equal_ignoring_case(a, b),
        a.len() == b.len() && (forall|k: int|
            0 <= k < a.len() ==> #[trigger] a[k] == b[k] || ('A' <= a[k] <= 'Z' && b[k] as int
                == a[k] as int + 32)) ==> equal_ignoring_case(a, b),
        equal_ignoring_case(a, b) && 0 <= i < a.len() ==> a[i] == b[i] || b[i] as int == a[i] as int
            + 32 || a[i] as int == b[i] as int + 32,
{
    if equal_ignoring_case(a, b) && 0 <= i < a.len() {
        assert(lowered(a[i]) == lowered(b[i]));
    }
}

} // verus!
