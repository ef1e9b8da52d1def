//! Character sequences: the text primitives the rest of the library builds on.
//!
//! Every string the library produces is specified as a `Seq<char>`; the
//! functions here give the decimal notation of integers and of times, and the
//! few searches and comparisons on text that the other modules share. Times
//! are whole microseconds throughout, and are written in seconds.

use vstd::prelude::*;

verus! {

/// The decimal digit that stands for `d`, for `0 <= d < 10`.
pub open spec fn digit_char(d: int) -> char {
    if d == 0 {
        '0'
    } else if d == 1 {
        '1'
    } else if d == 2 {
        '2'
    } else if d == 3 {
        '3'
    } else if d == 4 {
        '4'
    } else if d == 5 {
        '5'
    } else if d == 6 {
        '6'
    } else if d == 7 {
        '7'
    } else if d == 8 {
        '8'
    } else {
        '9'
    }
}

/// Decimal notation of a natural number, without leading zeros.
pub open spec fn decimal(n: nat) -> Seq<char>
    decreases n,
{
    if n < 10 {
        seq![digit_char(n as int)]
    } else {
        decimal(n / 10).push(digit_char((n % 10) as int))
    }
}

/// Decimal notation of an integer: a minus sign before a negative one.
pub open spec fn signed_decimal(n: int) -> Seq<char> {
    if n < 0 {
        seq!['-'] + decimal((-n) as nat)
    } else {
        decimal(n as nat)
    }
}

/// The digits of `frac / (10 * unit)` after the decimal point, with trailing
/// zeros left out. `unit` is the weight of the first digit, a power of ten.
pub open spec fn fraction_digits(frac: nat, unit: nat) -> Seq<char>
    decreases unit,
{
    if frac == 0 || unit == 0 {
        Seq::<char>::empty()
    } else {
        seq![digit_char((frac / unit) as int)] + fraction_digits(frac % unit, unit / 10)
    }
}

/// A time of `micros` microseconds written in seconds: the whole seconds, and
/// a point with up to six digits only where the time is not a whole second.
pub open spec fn seconds_text(micros: int) -> Seq<char> {
    let magnitude = if micros < 0 {
        (-micros) as nat
    } else {
        micros as nat
    };
    let sign = if micros < 0 {
        seq!['-']
    } else {
        Seq::<char>::empty()
    };
    let whole = decimal(magnitude / 1_000_000);
    if magnitude % 1_000_000 == 0 {
        sign + whole
    } else {
        sign + whole + seq!['.'] + fraction_digits(magnitude % 1_000_000, 100_000)
    }
}

/// The characters of `s`, in order.
pub fn to_chars(s: &str) -> (v: Vec<char>)
    ensures
        v@ == s@,
{
    let mut v: Vec<char> = Vec::new();
    for c in it: s.chars()
        invariant
            v@ == it.seq().take(it.index()),
            it.seq() == s@,
    {
        v.push(c);
    }
    v
}

/// The one-character text of the digit `d`.
fn digit_text(d: u128) -> (s: &'static str)
    requires
        d < 10,
    ensures
        s@ == seq![digit_char(d as int)],
{
    proof {
        reveal_strlit("0");
        reveal_strlit("1");
        reveal_strlit("2");
        reveal_strlit("3");
        reveal_strlit("4");
        reveal_strlit("5");
        reveal_strlit("6");
        reveal_strlit("7");
        reveal_strlit("8");
        reveal_strlit("9");
    }
    let s = if d == 0 {
        "0"
    } else if d == 1 {
        "1"
    } else if d == 2 {
        "2"
    } else if d == 3 {
        "3"
    } else if d == 4 {
        "4"
    } else if d == 5 {
        "5"
    } else if d == 6 {
        "6"
    } else if d == 7 {
        "7"
    } else if d == 8 {
        "8"
    } else {
        "9"
    };
    assert(s@ =~= seq![digit_char(d as int)]);
    s
}

/// Appends the decimal notation of `n` to `out`.
pub fn push_decimal(out: &mut String, n: u128)
    ensures
        final(out)@ == old(out)@ + decimal(n as nat),
    decreases n,
{
    if n >= 10 {
        push_decimal(out, n / 10);
    }
    out.append(digit_text(n % 10));
    assert(out@ =~= old(out)@ + decimal(n as nat));
}

/// The absolute value of `n`, which always fits in a `u128`.
pub fn magnitude(n: i128) -> (m: u128)
    ensures
        m == (if n < 0 {
            -n
        } else {
            n as int
        }),
{
    if n >= 0 {
        n as u128
    } else if n == i128::MIN {
        170_141_183_460_469_231_731_687_303_715_884_105_728u128
    } else {
        (-n) as u128
    }
}

/// Appends the decimal notation of `n` to `out`, with a minus sign before a
/// negative number.
pub fn push_signed(out: &mut String, n: i128)
    ensures
        final(out)@ == old(out)@ + signed_decimal(n as int),
{
    if n < 0 {
        proof {
            reveal_strlit("-");
        }
        out.append("-");
        push_decimal(out, magnitude(n));
        assert(out@ =~= old(out)@ + signed_decimal(n as int));
    } else {
        push_decimal(out, n as u128);
    }
}

/// Whether `unit` is the weight of one of the six digits after the point.
spec fn is_digit_weight(unit: nat) -> bool {
    unit == 1 || unit == 10 || unit == 100 || unit == 1_000 || unit == 10_000 || unit == 100_000
}

/// Appends the digits after the decimal point: see [`fraction_digits`].
fn push_fraction(out: &mut String, frac: u128, unit: u128)
    requires
        frac == 0 || (is_digit_weight(unit as nat) && frac < 10 * unit),
    ensures
        final(out)@ == old(out)@ + fraction_digits(frac as nat, unit as nat),
    decreases unit,
{
    if frac != 0 && unit != 0 {
        assert(frac / unit < 10) by (nonlinear_arith)
            requires
                frac < 10 * unit,
                unit > 0,
        ;
        out.append(digit_text(frac / unit));
        push_fraction(out, frac % unit, unit / 10);
        assert(out@ =~= old(out)@ + fraction_digits(frac as nat, unit as nat));
    } else {
        assert(out@ =~= old(out)@ + fraction_digits(frac as nat, unit as nat));
    }
}

/// Appends a time of `micros` microseconds to `out`, written in seconds.
pub fn push_seconds(out: &mut String, micros: i128)
    ensures
        final(out)@ == old(out)@ + seconds_text(micros as int),
{
    let magnitude: u128 = magnitude(micros);
    if micros < 0 {
        proof {
            reveal_strlit("-");
        }
        out.append("-");
    }
    push_decimal(out, magnitude / 1_000_000);
    let frac: u128 = magnitude % 1_000_000;
    if frac != 0 {
        proof {
            reveal_strlit(".");
        }
        out.append(".");
        push_fraction(out, frac, 100_000);
    }
    assert(out@ =~= old(out)@ + seconds_text(micros as int));
}

/// A time of `micros` microseconds, written in seconds.
pub fn format_seconds(micros: i128) -> (s: String)
    ensures
        s@ == seconds_text(micros as int),
{
    let mut s = String::new();
    push_seconds(&mut s, micros);
    assert(s@ =~= seconds_text(micros as int));
    s
}

/// The decimal notation of `n`.
pub fn format_decimal(n: u128) -> (s: String)
    ensures
        s@ == decimal(n as nat),
{
    let mut s = String::new();
    push_decimal(&mut s, n);
    assert(s@ =~= decimal(n as nat));
    s
}

/// The texts of a list of strings.
pub open spec fn texts(v: Seq<String>) -> Seq<Seq<char>> {
    Seq::new(v.len(), |i: int| v[i]@)
}

/// `parts` with `sep` between each two neighbours.
pub open spec fn join_texts(parts: Seq<Seq<char>>, sep: Seq<char>) -> Seq<char>
    decreases parts.len(),
{
    if parts.len() == 0 {
        Seq::<char>::empty()
    } else if parts.len() == 1 {
        parts[0]
    } else {
        join_texts(parts.drop_last(), sep) + sep + parts.last()
    }
}

/// Appends `s` to `v`.
pub fn push_text(v: &mut Vec<String>, s: String)
    ensures
        texts(final(v)@) == texts(old(v)@).push(s@),
        final(v)@ == old(v)@.push(s),
{
    v.push(s);
    assert(texts(v@) =~= texts(old(v)@).push(s@));
}

/// Joins `parts`, putting `sep` between each two neighbours.
pub fn join(parts: &Vec<String>, sep: &str) -> (joined: String)
    ensures
        joined@ == join_texts(texts(parts@), sep@),
{
    let mut joined = String::new();
    let mut i: usize = 0;
    while i < parts.len()
        invariant
            i <= parts.len(),
            joined@ == join_texts(texts(parts@).take(i as int), sep@),
        decreases parts.len() - i,
    {
        let ghost before = texts(parts@).take(i as int);
        let ghost after = texts(parts@).take(i + 1);
        assert(after.drop_last() =~= before);
        assert(after.last() == parts@[i as int]@);
        if i > 0 {
            joined.append(sep);
        }
        joined.append(parts[i].as_str());
        assert(joined@ =~= join_texts(after, sep@));
        i = i + 1;
    }
    assert(texts(parts@).take(parts.len() as int) =~= texts(parts@));
    joined
}

/// Moves the strings of `more` to the end of `v`.
pub fn extend_texts(v: &mut Vec<String>, more: Vec<String>)
    ensures
        texts(final(v)@) == texts(old(v)@) + texts(more@),
{
    let mut more = more;
    let ghost all = more@;
    v.append(&mut more);
    assert(texts(v@) =~= texts(old(v)@) + texts(all));
}

/// Whether `needle` stands in `haystack` from position `i` on.
pub open spec fn occurs_at(haystack: Seq<char>, needle: Seq<char>, i: int) -> bool {
    0 <= i && i + needle.len() <= haystack.len() && haystack.subrange(i, i + needle.len())
        == needle
}

/// Whether `needle` stands somewhere in `haystack`.
pub open spec fn contains_text(haystack: Seq<char>, needle: Seq<char>) -> bool {
    exists|i: int| occurs_at(haystack, needle, i)
}

/// Decides [`occurs_at`].
pub fn matches_at(haystack: &Vec<char>, needle: &Vec<char>, i: usize) -> (found: bool)
    ensures
        found == occurs_at(haystack@, needle@, i as int),
{
    if i > haystack.len() || needle.len() > haystack.len() - i {
        return false;
    }
    let mut k: usize = 0;
    while k < needle.len()
        invariant
            k <= needle.len(),
            i + needle.len() <= haystack.len(),
            forall|j: int| 0 <= j < k ==> haystack@[i + j] == needle@[j],
        decreases needle.len() - k,
    {
        if haystack[i + k] != needle[k] {
            assert(haystack@.subrange(i as int, i + needle.len())[k as int] != needle@[k as int]);
            return false;
        }
        k = k + 1;
    }
    assert(haystack@.subrange(i as int, i + needle.len()) =~= needle@);
    true
}

/// Decides [`contains_text`].
pub fn contains(haystack: &str, needle: &str) -> (found: bool)
    ensures
        found == contains_text(haystack@, needle@),
{
    let hay = to_chars(haystack);
    let pin = to_chars(needle);
    if pin.len() > hay.len() {
        return false;
    }
    if pin.len() == 0 {
        assert(hay@.subrange(0, 0) =~= pin@);
        assert(occurs_at(hay@, pin@, 0));
        return true;
    }
    let last = hay.len() - pin.len();
    let mut i: usize = 0;
    while i <= last
        invariant
            last == hay.len() - pin.len(),
            pin.len() > 0,
            i <= last + 1,
            hay@ == haystack@,
            pin@ == needle@,
            forall|j: int| 0 <= j < i ==> !occurs_at(hay@, pin@, j),
        decreases last + 1 - i,
    {
        if matches_at(&hay, &pin, i) {
            return true;
        }
        i = i + 1;
    }
    false
}

/// Whether `c` is white space: one of the characters that Unicode gives the
/// property `White_Space`.
pub open spec fn is_space(c: char) -> bool {
    let u = c as u32;
    (0x09 <= u <= 0x0D) || u == 0x20 || u == 0x85 || u == 0xA0 || u == 0x1680 || (0x2000 <= u
        <= 0x200A) || u == 0x2028 || u == 0x2029 || u == 0x202F || u == 0x205F || u == 0x3000
}

/// `s` without the white space at its start.
pub open spec fn trim_start_of(s: Seq<char>) -> Seq<char>
    decreases s.len(),
{
    if s.len() > 0 && is_space(s[0]) {
        trim_start_of(s.drop_first())
    } else {
        s
    }
}

/// `s` without the white space at its end.
pub open spec fn trim_end_of(s: Seq<char>) -> Seq<char>
    decreases s.len(),
{
    if s.len() > 0 && is_space(s.last()) {
        trim_end_of(s.drop_last())
    } else {
        s
    }
}

/// `s` without the white space at its start and at its end.
pub open spec fn trimmed(s: Seq<char>) -> Seq<char> {
    trim_end_of(trim_start_of(s))
}

/// Whether `s` begins with `prefix`.
pub open spec fn starts_with_text(s: Seq<char>, prefix: Seq<char>) -> bool {
    prefix.len() <= s.len() && s.subrange(0, prefix.len() as int) == prefix
}

/// Decides [`is_space`].
pub fn is_whitespace(c: char) -> (space: bool)
    ensures
        space == is_space(c),
{
    let u = c as u32;
    (0x09 <= u && u <= 0x0D) || u == 0x20 || u == 0x85 || u == 0xA0 || u == 0x1680 || (0x2000 <= u
        && u <= 0x200A) || u == 0x2028 || u == 0x2029 || u == 0x202F || u == 0x205F || u == 0x3000
}

/// Where the first `a` characters of `s` are white space and the next one is
/// not, trimming the start leaves what follows them.
pub proof fn lemma_trim_start(s: Seq<char>, a: int)
    requires
        0 <= a <= s.len(),
        forall|k: int| 0 <= k < a ==> is_space(#[trigger] s[k]),
        a < s.len() ==> !is_space(s[a]),
    ensures
        trim_start_of(s) == s.subrange(a, s.len() as int),
    decreases a,
{
    if a == 0 {
        assert(s.subrange(0, s.len() as int) =~= s);
    } else {
        let rest = s.drop_first();
        assert forall|k: int| 0 <= k < a - 1 implies is_space(#[trigger] rest[k]) by {
            assert(rest[k] == s[k + 1]);
        }
        lemma_trim_start(rest, a - 1);
        assert(rest.subrange(a - 1, rest.len() as int) =~= s.subrange(a, s.len() as int));
    }
}

/// Where all characters of `s` from position `b` on are white space and the
/// one before is not, trimming the end leaves what stands before them.
pub proof fn lemma_trim_end(s: Seq<char>, b: int)
    requires
        0 <= b <= s.len(),
        forall|k: int| b <= k < s.len() ==> is_space(#[trigger] s[k]),
        b > 0 ==> !is_space(s[b - 1]),
    ensures
        trim_end_of(s) == s.subrange(0, b),
    decreases s.len() - b,
{
    if b == s.len() {
        assert(s.subrange(0, b) =~= s);
    } else {
        let rest = s.drop_last();
        assert forall|k: int| b <= k < rest.len() implies is_space(#[trigger] rest[k]) by {
            assert(rest[k] == s[k]);
        }
        lemma_trim_end(rest, b);
        assert(rest.subrange(0, b) =~= s.subrange(0, b));
    }
}

/// Number of white space characters at the start of `s[from..]`, as the
/// position where they end.
pub fn skip_spaces(s: &Vec<char>, from: usize, to: usize) -> (a: usize)
    requires
        from <= to <= s.len(),
    ensures
        from <= a <= to,
        forall|k: int| from <= k < a ==> is_space(#[trigger] s@[k]),
        a < to ==> !is_space(s@[a as int]),
{
    let mut a = from;
    while a < to && is_whitespace(s[a])
        invariant
            from <= a <= to <= s.len(),
            forall|k: int| from <= k < a ==> is_space(#[trigger] s@[k]),
        decreases to - a,
    {
        a = a + 1;
    }
    a
}

/// Position where the white space at the end of `s[from..to]` begins.
pub fn skip_spaces_back(s: &Vec<char>, from: usize, to: usize) -> (b: usize)
    requires
        from <= to <= s.len(),
    ensures
        from <= b <= to,
        forall|k: int| b <= k < to ==> is_space(#[trigger] s@[k]),
        b > from ==> !is_space(s@[b - 1]),
{
    let mut b = to;
    while b > from && is_whitespace(s[b - 1])
        invariant
            from <= b <= to <= s.len(),
            forall|k: int| b <= k < to ==> is_space(#[trigger] s@[k]),
        decreases b,
    {
        b = b - 1;
    }
    b
}

/// The bounds of `s[from..to]` without the white space at its start and its
/// end.
pub fn trim_bounds(s: &Vec<char>, from: usize, to: usize) -> (bounds: (usize, usize))
    requires
        from <= to <= s.len(),
    ensures
        from <= bounds.0 <= bounds.1 <= to,
        s@.subrange(bounds.0 as int, bounds.1 as int) == trimmed(s@.subrange(from as int, to as int)),
{
    let a = skip_spaces(s, from, to);
    let b = skip_spaces_back(s, a, to);
    proof {
        let piece = s@.subrange(from as int, to as int);
        lemma_trim_start(piece, a - from);
        let rest = piece.subrange(a - from, piece.len() as int);
        assert(rest =~= s@.subrange(a as int, to as int));
        lemma_trim_end(rest, b - a);
        assert(rest.subrange(0, b - a) =~= s@.subrange(a as int, b as int));
    }
    (a, b)
}

/// `s` without the white space at its start and at its end.
pub fn trim(s: &str) -> (t: &str)
    ensures
        t@ == trimmed(s@),
{
    let chars = to_chars(s);
    let (a, b) = trim_bounds(&chars, 0, chars.len());
    assert(chars@.subrange(0, chars.len() as int) =~= chars@);
    s.substring_char(a, b)
}

/// `s` without the white space at its end.
pub fn trim_end(s: &str) -> (t: &str)
    ensures
        t@ == trim_end_of(s@),
{
    let chars = to_chars(s);
    let b = skip_spaces_back(&chars, 0, chars.len());
    proof {
        lemma_trim_end(chars@, b as int);
    }
    s.substring_char(0, b)
}

/// Whether `c` stands in `s`.
pub fn contains_char(s: &str, c: char) -> (found: bool)
    ensures
        found == s@.contains(c),
{
    let chars = to_chars(s);
    let mut i: usize = 0;
    while i < chars.len()
        invariant
            i <= chars.len(),
            chars@ == s@,
            forall|k: int| 0 <= k < i ==> chars@[k] != c,
        decreases chars.len() - i,
    {
        if chars[i] == c {
            return true;
        }
        i = i + 1;
    }
    false
}

/// Whether `a` and `b` are the same text.
pub fn same_text(a: &str, b: &str) -> (same: bool)
    ensures
        same == (a@ == b@),
{
    let x = to_chars(a);
    let y = to_chars(b);
    if x.len() != y.len() {
        return false;
    }
    let mut i: usize = 0;
    while i < x.len()
        invariant
            i <= x.len(),
            x.len() == y.len(),
            x@ == a@,
            y@ == b@,
            forall|k: int| 0 <= k < i ==> x@[k] == y@[k],
        decreases x.len() - i,
    {
        if x[i] != y[i] {
            return false;
        }
        i = i + 1;
    }
    assert(x@ =~= y@);
    true
}

/// Whether one of `list` is the text `s`.
pub fn holds_text(list: &Vec<String>, s: &str) -> (held: bool)
    ensures
        held == texts(list@).contains(s@),
{
    let wanted = String::from_str(s);
    let mut i: usize = 0;
    while i < list.len()
        invariant
            i <= list.len(),
            wanted@ == s@,
            forall|k: int| 0 <= k < i ==> texts(list@)[k] != s@,
        decreases list.len() - i,
    {
        assert(texts(list@)[i as int] == list@[i as int]@);
        if list[i] == wanted {
            return true;
        }
        i = i + 1;
    }
    false
}

/// Position in `s` behind the last `c` before position `k`, or zero where
/// there is none.
pub open spec fn after_last(s: Seq<char>, c: char, k: int) -> int
    decreases k,
{
    if k <= 0 {
        0
    } else if s[k - 1] == c {
        k
    } else {
        after_last(s, c, k - 1)
    }
}

/// Computes [`after_last`] for `chars[from..to]`, as a position in `chars`.
pub fn find_after_last(chars: &Vec<char>, c: char, from: usize, to: usize) -> (at: usize)
    requires
        from <= to <= chars.len(),
    ensures
        from <= at <= to,
        at - from == after_last(chars@.subrange(from as int, to as int), c, to - from),
{
    let ghost piece = chars@.subrange(from as int, to as int);
    let mut k = to;
    while k > from && chars[k - 1] != c
        invariant
            from <= k <= to <= chars.len(),
            piece == chars@.subrange(from as int, to as int),
            after_last(piece, c, to - from) == after_last(piece, c, k - from),
        decreases k,
    {
        assert(piece[k - 1 - from] == chars@[k - 1]);
        k = k - 1;
    }
    proof {
        if k > from {
            assert(piece[k - 1 - from] == chars@[k - 1]);
        }
    }
    k
}

/// Whether `chars[from..to]` begins with `prefix`.
pub fn starts_with_at(chars: &Vec<char>, from: usize, to: usize, prefix: &str) -> (found: bool)
    requires
        from <= to <= chars.len(),
    ensures
        found == starts_with_text(chars@.subrange(from as int, to as int), prefix@),
{
    let wanted = to_chars(prefix);
    let ghost piece = chars@.subrange(from as int, to as int);
    if wanted.len() > to - from {
        return false;
    }
    let found = matches_at(chars, &wanted, from);
    assert(piece.subrange(0, wanted@.len() as int) =~= chars@.subrange(
        from as int,
        from + wanted@.len(),
    ));
    found
}

/// Whether `s` begins with `prefix`.
pub fn starts_with(s: &str, prefix: &str) -> (found: bool)
    ensures
        found == starts_with_text(s@, prefix@),
{
    let chars = to_chars(s);
    assert(chars@.subrange(0, chars@.len() as int) =~= chars@);
    starts_with_at(&chars, 0, chars.len(), prefix)
}

/// Whether `s` ends with `suffix`.
pub open spec fn ends_with_text(s: Seq<char>, suffix: Seq<char>) -> bool {
    suffix.len() <= s.len() && s.subrange(s.len() - suffix.len(), s.len() as int) == suffix
}

/// Whether `s` ends with `suffix`.
pub fn ends_with(s: &str, suffix: &str) -> (found: bool)
    ensures
        found == ends_with_text(s@, suffix@),
{
    let chars = to_chars(s);
    let wanted = to_chars(suffix);
    if wanted.len() > chars.len() {
        return false;
    }
    matches_at(&chars, &wanted, chars.len() - wanted.len())
}

/// Number of characters of `s` before its first `c`; the length of `s`
/// where it holds none.
pub open spec fn run_before(s: Seq<char>, c: char) -> int
    decreases s.len(),
{
    if s.len() == 0 || s[0] == c {
        0
    } else {
        1 + run_before(s.drop_first(), c)
    }
}

/// Where the first `k` characters of `s` are not `c` and the next one is, or
/// `s` ends there, `k` characters stand before the first `c`.
pub proof fn lemma_run_before(s: Seq<char>, c: char, k: int)
    requires
        0 <= k <= s.len(),
        forall|j: int| 0 <= j < k ==> #[trigger] s[j] != c,
        k < s.len() ==> s[k] == c,
    ensures
        run_before(s, c) == k,
    decreases k,
{
    if k > 0 {
        let rest = s.drop_first();
        assert forall|j: int| 0 <= j < k - 1 implies #[trigger] rest[j] != c by {
            assert(rest[j] == s[j + 1]);
        }
        lemma_run_before(rest, c, k - 1);
    }
}

/// `prefix` followed by `rest`, as one string.
pub fn prefixed(prefix: &str, rest: &str) -> (joined: String)
    ensures
        joined@ == prefix@ + rest@,
{
    let mut joined = String::from_str(prefix);
    joined.append(rest);
    joined
}

/// Whether `c` is a decimal digit.
pub open spec fn is_digit(c: char) -> bool {
    '0' <= c <= '9'
}

/// The number that the digit `c` stands for.
pub open spec fn digit_value(c: char) -> int {
    c as u32 as int - 48
}

/// Whether `s` holds digits only.
pub open spec fn all_digits(s: Seq<char>) -> bool {
    forall|i: int| 0 <= i < s.len() ==> is_digit(#[trigger] s[i])
}

/// The number that the digits `s` stand for; zero for no digits.
pub open spec fn digits_value(s: Seq<char>) -> int
    decreases s.len(),
{
    if s.len() == 0 {
        0
    } else {
        digits_value(s.drop_last()) * 10 + digit_value(s.last())
    }
}

/// The digits of a longer run stand for no less than those of its start.
pub proof fn lemma_digits_value_grows(s: Seq<char>, k: int)
    requires
        all_digits(s),
        0 <= k <= s.len(),
    ensures
        0 <= digits_value(s.take(k)) <= digits_value(s),
    decreases s.len() - k,
{
    if k == s.len() {
        assert(s.take(k) =~= s);
        lemma_digits_value_not_negative(s);
    } else {
        lemma_digits_value_grows(s, k + 1);
        let longer = s.take(k + 1);
        assert(longer.drop_last() =~= s.take(k));
        assert(is_digit(longer.last()));
        lemma_digits_value_not_negative(s.take(k));
    }
}

/// Digits stand for no negative number.
pub proof fn lemma_digits_value_not_negative(s: Seq<char>)
    requires
        all_digits(s),
    ensures
        digits_value(s) >= 0,
    decreases s.len(),
{
    if s.len() > 0 {
        assert(is_digit(s.last()));
        lemma_digits_value_not_negative(s.drop_last());
    }
}

/// The decimal notation of a number is made of digits, and they stand for
/// the number.
pub proof fn lemma_decimal_stands_for(n: nat)
    ensures
        decimal(n).len() > 0,
        all_digits(decimal(n)),
        digits_value(decimal(n)) == n,
    decreases n,
{
    if n < 10 {
        let s = decimal(n);
        assert(s.drop_last() =~= Seq::<char>::empty());
        assert(digits_value(s.drop_last()) == 0);
        assert(is_digit(s[0]));
    } else {
        lemma_decimal_stands_for(n / 10);
        let s = decimal(n);
        assert(s.drop_last() =~= decimal(n / 10));
        assert(is_digit(s.last()));
        assert forall|i: int| 0 <= i < s.len() implies is_digit(#[trigger] s[i]) by {
            if i < s.len() - 1 {
                assert(s[i] == decimal(n / 10)[i]);
            }
        }
    }
}

/// Two numbers with one decimal notation are one number.
pub proof fn lemma_decimal_is_exact(a: nat, b: nat)
    requires
        decimal(a) == decimal(b),
    ensures
        a == b,
{
    lemma_decimal_stands_for(a);
    lemma_decimal_stands_for(b);
}

} // verus!
