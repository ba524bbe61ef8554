use vstd::prelude::*;

verus! {

/// `String::push` appends one character to the end of the string.
pub assume_specification[ String::push ](s: &mut String, ch: char)
    ensures
        final(s)@ == old(s)@.push(ch),
;

/// Characters with the Unicode `White_Space` property, the set that
/// `char::is_whitespace` and `str::trim` use.
pub open spec fn is_whitespace(c: char) -> bool {
    ||| ('\t' <= c && c <= '\r')
    ||| c == ' '
    ||| c == '\u{85}'
    ||| c == '\u{a0}'
    ||| c == '\u{1680}'
    ||| ('\u{2000}' <= c && c <= '\u{200a}')
    ||| c == '\u{2028}'
    ||| c == '\u{2029}'
    ||| c == '\u{202f}'
    ||| c == '\u{205f}'
    ||| c == '\u{3000}'
}

/// The text without its trailing whitespace.
pub open spec fn trim_end(s: Seq<char>) -> Seq<char>
    decreases s.len(),
{
    if s.len() > 0 && is_whitespace(s.last()) {
        trim_end(s.drop_last())
    } else {
        s
    }
}

/// The text without its leading whitespace.
pub open spec fn trim_start(s: Seq<char>) -> Seq<char>
    decreases s.len(),
{
    if s.len() > 0 && is_whitespace(s[0]) {
        trim_start(s.drop_first())
    } else {
        s
    }
}

/// The text without leading and trailing whitespace.
pub open spec fn trim(s: Seq<char>) -> Seq<char> {
    trim_start(trim_end(s))
}

pub fn is_whitespace_char(c: char) -> (r: bool)
    ensures
        r == is_whitespace(c),
{
    ('\t' <= c && c <= '\r') || c == ' ' || c == '\u{85}' || c == '\u{a0}' || c == '\u{1680}'
        || ('\u{2000}' <= c && c <= '\u{200a}') || c == '\u{2028}' || c == '\u{2029}'
        || c == '\u{202f}' || c == '\u{205f}' || c == '\u{3000}'
}

/// The characters of a string slice.
pub fn chars_of(s: &str) -> (r: Vec<char>)
    ensures
        r@ == s@,
{
    let mut out: Vec<char> = Vec::new();
    for c in it: s.chars()
        invariant
            out@ == it.seq().take(it.index() as int),
    {
        out.push(c);
    }
    out
}

/// A string holding the characters `cs[from..to]`.
pub fn string_of_range(cs: &[char], from: usize, to: usize) -> (r: String)
    requires
        from <= to <= cs@.len(),
    ensures
        r@ == cs@.subrange(from as int, to as int),
{
    let mut out = String::new();
    let mut i = from;
    while i < to
        invariant
            from <= i <= to <= cs@.len(),
            out@ == cs@.subrange(from as int, i as int),
        decreases to - i,
    {
        out.push(cs[i]);
        i += 1;
        assert(out@ =~= cs@.subrange(from as int, i as int));
    }
    out
}

/// A string holding the characters `cs`.
pub fn string_of(cs: &[char]) -> (r: String)
    ensures
        r@ == cs@,
{
    let r = string_of_range(cs, 0, cs.len());
    assert(cs@.subrange(0, cs@.len() as int) =~= cs@);
    r
}

/// The bounds of `cs` without trailing whitespace: `cs[0..end]`.
pub fn trim_end_bound(cs: &[char], to: usize) -> (end: usize)
    requires
        to <= cs@.len(),
    ensures
        end <= to,
        cs@.subrange(0, end as int) == trim_end(cs@.subrange(0, to as int)),
{
    let mut e = to;
    while e > 0 && is_whitespace_char(cs[e - 1])
        invariant
            e <= to <= cs@.len(),
            trim_end(cs@.subrange(0, e as int)) == trim_end(cs@.subrange(0, to as int)),
        decreases e,
    {
        assert(cs@.subrange(0, e as int).drop_last() =~= cs@.subrange(0, e - 1));
        e -= 1;
    }
    e
}

/// The first index from `from` on that does not hold whitespace, at most `to`.
pub fn trim_start_bound(cs: &[char], from: usize, to: usize) -> (start: usize)
    requires
        from <= to <= cs@.len(),
    ensures
        from <= start <= to,
        cs@.subrange(start as int, to as int) == trim_start(cs@.subrange(from as int, to as int)),
{
    let mut b = from;
    while b < to && is_whitespace_char(cs[b])
        invariant
            from <= b <= to <= cs@.len(),
            trim_start(cs@.subrange(b as int, to as int)) == trim_start(
                cs@.subrange(from as int, to as int),
            ),
        decreases to - b,
    {
        assert(cs@.subrange(b as int, to as int).drop_first() =~= cs@.subrange(b + 1, to as int));
        b += 1;
    }
    b
}

/// The bounds of `cs` without leading and trailing whitespace.
pub fn trim_bounds(cs: &[char]) -> (r: (usize, usize))
    ensures
        r.0 <= r.1 <= cs@.len(),
        cs@.subrange(r.0 as int, r.1 as int) == trim(cs@),
{
    let end = trim_end_bound(cs, cs.len());
    assert(cs@.subrange(0, cs@.len() as int) =~= cs@);
    let start = trim_start_bound(cs, 0, end);
    (start, end)
}

/// `str::trim`: the text without leading and trailing whitespace.
pub fn trimmed(cs: &[char]) -> (r: Vec<char>)
    ensures
        r@ == trim(cs@),
{
    let (a, b) = trim_bounds(cs);
    copy_range(cs, a, b)
}

/// The characters `cs[from..to]`.
pub fn copy_range(cs: &[char], from: usize, to: usize) -> (r: Vec<char>)
    requires
        from <= to <= cs@.len(),
    ensures
        r@ == cs@.subrange(from as int, to as int),
{
    let mut out: Vec<char> = Vec::new();
    let mut i = from;
    while i < to
        invariant
            from <= i <= to <= cs@.len(),
            out@ == cs@.subrange(from as int, i as int),
        decreases to - i,
    {
        out.push(cs[i]);
        i += 1;
        assert(out@ =~= cs@.subrange(from as int, i as int));
    }
    out
}

/// Whether two character sequences are equal.
pub fn chars_eq(a: &[char], b: &[char]) -> (r: bool)
    ensures
        r == (a@ == b@),
{
    if a.len() != b.len() {
        return false;
    }
    let mut i: usize = 0;
    while i < a.len()
        invariant
            a@.len() == b@.len(),
            i <= a@.len(),
            forall|j: int| 0 <= j < i ==> a@[j] == b@[j],
        decreases a.len() - i,
    {
        if a[i] != b[i] {
            return false;
        }
        i += 1;
    }
    assert(a@ =~= b@);
    true
}

/// Whether `s` begins with `prefix`.
pub open spec fn starts_with(s: Seq<char>, prefix: Seq<char>) -> bool {
    prefix.len() <= s.len() && s.subrange(0, prefix.len() as int) == prefix
}

pub fn chars_start_with(a: &[char], prefix: &[char]) -> (r: bool)
    ensures
        r == starts_with(a@, prefix@),
{
    if prefix.len() > a.len() {
        return false;
    }
    let mut i: usize = 0;
    while i < prefix.len()
        invariant
            prefix@.len() <= a@.len(),
            i <= prefix@.len(),
            forall|j: int| 0 <= j < i ==> a@[j] == prefix@[j],
        decreases prefix.len() - i,
    {
        if a[i] != prefix[i] {
            assert(a@.subrange(0, prefix@.len() as int)[i as int] != prefix@[i as int]);
            return false;
        }
        i += 1;
    }
    assert(a@.subrange(0, prefix@.len() as int) =~= prefix@);
    true
}


/// `char::to_ascii_lowercase`: ASCII capitals become small letters, all else stays.
pub open spec fn ascii_lower(c: char) -> char {
    if 'A' <= c && c <= 'Z' {
        ((c as u32) + 32) as char
    } else {
        c
    }
}

/// `str::to_ascii_lowercase`, character by character.
pub open spec fn ascii_lowercase(s: Seq<char>) -> Seq<char> {
    Seq::new(s.len(), |i: int| ascii_lower(s[i]))
}

pub fn lower_char(c: char) -> (r: char)
    ensures
        r == ascii_lower(c),
{
    if 'A' <= c && c <= 'Z' {
        let code: u32 = c as u32;
        let lowered: u8 = (code + 32) as u8;
        lowered as char
    } else {
        c
    }
}

pub fn to_ascii_lowercase(cs: &[char]) -> (r: Vec<char>)
    ensures
        r@ == ascii_lowercase(cs@),
{
    let mut out: Vec<char> = Vec::new();
    let mut i: usize = 0;
    while i < cs.len()
        invariant
            i <= cs@.len(),
            out@ == ascii_lowercase(cs@.subrange(0, i as int)),
        decreases cs.len() - i,
    {
        out.push(lower_char(cs[i]));
        i += 1;
        assert(out@ =~= ascii_lowercase(cs@.subrange(0, i as int)));
    }
    assert(cs@.subrange(0, cs@.len() as int) =~= cs@);
    out
}

/// The character of a decimal digit.
pub open spec fn digit_char(d: nat) -> char {
    ((d + 48) as u32) as char
}

/// The decimal numeral of `n`, without leading zeros, as `u64::to_string` writes it.
pub open spec fn decimal(n: nat) -> Seq<char>
    decreases n,
{
    if n < 10 {
        seq![digit_char(n)]
    } else {
        decimal(n / 10).push(digit_char(n % 10))
    }
}

/// Appends the decimal numeral of `n` to `out`.
pub fn push_decimal(out: &mut Vec<char>, n: u64)
    ensures
        final(out)@ == old(out)@ + decimal(n as nat),
    decreases n,
{
    if n >= 10 {
        push_decimal(out, n / 10);
    }
    let d: u8 = (n % 10) as u8;
    let c: char = (d + 48) as char;
    assert(c == digit_char((n % 10) as nat));
    out.push(c);
    assert(final(out)@ =~= old(out)@ + decimal(n as nat));
}

/// Whether a character is an ASCII decimal digit.
pub open spec fn is_digit(c: char) -> bool {
    '0' <= c && c <= '9'
}

/// The value of a digit character.
pub open spec fn digit_value(c: char) -> nat {
    ((c as u32) - 48) as nat
}

/// The value of a sequence of decimal digits, most significant first.
pub open spec fn digits_value(s: Seq<char>) -> nat
    decreases s.len(),
{
    if s.len() == 0 {
        0
    } else {
        digits_value(s.drop_last()) * 10 + digit_value(s.last())
    }
}

/// The digits after an optional leading `+`.
pub open spec fn unsigned_digits(s: Seq<char>) -> Seq<char> {
    if s.len() > 0 && s[0] == '+' {
        s.drop_first()
    } else {
        s
    }
}

/// What `str::parse` reads from `s` for an unsigned integer type, before the range
/// check: an optional `+` and then at least one ASCII digit, nothing else.
pub open spec fn unsigned_value(s: Seq<char>) -> Option<nat> {
    let d = unsigned_digits(s);
    if d.len() > 0 && (forall|i: int| 0 <= i < d.len() ==> is_digit(#[trigger] d[i])) {
        Some(digits_value(d))
    } else {
        None
    }
}

proof fn lemma_digits_value_grows(s: Seq<char>, k: int)
    requires
        0 <= k <= s.len(),
    ensures
        digits_value(s.subrange(0, k)) <= digits_value(s),
    decreases s.len() - k,
{
    if k < s.len() {
        lemma_digits_value_grows(s, k + 1);
        assert(s.subrange(0, k + 1).drop_last() =~= s.subrange(0, k));
        assert(digits_value(s.subrange(0, k)) <= digits_value(s.subrange(0, k + 1))) by (nonlinear_arith)
            requires
                digits_value(s.subrange(0, k + 1)) == digits_value(s.subrange(0, k)) * 10
                    + digit_value(s.subrange(0, k + 1).last()),
        ;
    } else {
        assert(s.subrange(0, k) =~= s);
    }
}

/// `str::parse` for an unsigned integer type whose largest value is `max`.
pub fn parse_unsigned(cs: &[char], max: u64) -> (r: Option<u64>)
    ensures
        match r {
            Some(v) => unsigned_value(cs@) == Some(v as nat) && v <= max,
            None => !(unsigned_value(cs@) matches Some(v) && v <= max),
        },
{
    let mut i: usize = 0;
    if cs.len() > 0 && cs[0] == '+' {
        i = 1;
    }
    let ghost d = unsigned_digits(cs@);
    assert(d =~= cs@.subrange(i as int, cs@.len() as int));
    if i == cs.len() {
        return None;
    }
    let mut acc: u64 = 0;
    let mut k: usize = i;
    while k < cs.len()
        invariant
            i <= k <= cs@.len(),
            d == cs@.subrange(i as int, cs@.len() as int),
            d == unsigned_digits(cs@),
            acc as nat == digits_value(d.subrange(0, k - i)),
            acc <= max,
            forall|j: int| 0 <= j < k - i ==> is_digit(#[trigger] d[j]),
        decreases cs.len() - k,
    {
        let c = cs[k];
        if !('0' <= c && c <= '9') {
            assert(!is_digit(d[k - i]));
            return None;
        }
        let dv: u64 = ((c as u32) - 48) as u64;
        assert(d.subrange(0, k + 1 - i).drop_last() =~= d.subrange(0, k - i));
        assert(d.subrange(0, k + 1 - i).last() == c);
        if acc > max / 10 {
            proof {
                assert(acc * 10 + dv > max) by (nonlinear_arith)
                    requires
                        acc > max / 10,
                ;
                lemma_digits_value_grows(d, k + 1 - i);
            }
            return None;
        }
        assert(acc * 10 <= max) by (nonlinear_arith)
            requires
                acc <= max / 10,
        ;
        let t: u64 = acc * 10;
        if dv > max - t {
            proof {
                lemma_digits_value_grows(d, k + 1 - i);
            }
            return None;
        }
        acc = t + dv;
        k += 1;
    }
    assert(d.subrange(0, d.len() as int) =~= d);
    Some(acc)
}


/// The position of the first `c` in `s`, or `s.len()` when there is none.
pub open spec fn index_of(s: Seq<char>, c: char) -> int
    decreases s.len(),
{
    if s.len() == 0 {
        0
    } else if s[0] == c {
        0
    } else {
        1 + index_of(s.drop_first(), c)
    }
}

pub proof fn lemma_index_of(s: Seq<char>, c: char)
    ensures
        0 <= index_of(s, c) <= s.len(),
        index_of(s, c) < s.len() ==> s[index_of(s, c)] == c,
        forall|j: int| 0 <= j < index_of(s, c) ==> s[j] != c,
    decreases s.len(),
{
    if s.len() > 0 && s[0] != c {
        lemma_index_of(s.drop_first(), c);
        assert forall|j: int| 0 <= j < index_of(s, c) implies s[j] != c by {
            if j > 0 {
                assert(s[j] == s.drop_first()[j - 1]);
            }
        }
    }
}

/// The first position at or after `from` that holds `c`, or `cs.len()`.
pub fn find_char(cs: &[char], from: usize, c: char) -> (r: usize)
    requires
        from <= cs@.len(),
    ensures
        from <= r <= cs@.len(),
        r - from == index_of(cs@.subrange(from as int, cs@.len() as int), c),
{
    let mut k = from;
    while k < cs.len() && cs[k] != c
        invariant
            from <= k <= cs@.len(),
            index_of(cs@.subrange(from as int, cs@.len() as int), c) == (k - from) + index_of(
                cs@.subrange(k as int, cs@.len() as int),
                c,
            ),
        decreases cs.len() - k,
    {
        assert(cs@.subrange(k as int, cs@.len() as int).drop_first() =~= cs@.subrange(
            k + 1,
            cs@.len() as int,
        ));
        k += 1;
    }
    k
}

/// A line without the `\r` of a `\r\n` ending.
pub open spec fn strip_cr(line: Seq<char>) -> Seq<char> {
    if line.len() > 0 && line.last() == '\r' {
        line.drop_last()
    } else {
        line
    }
}

/// `str::lines`: the text split at `\n`, each line without the `\r` of a
/// `\r\n` ending; a final line ending adds no empty line.
pub open spec fn lines(s: Seq<char>) -> Seq<Seq<char>>
    decreases s.len(),
{
    if s.len() == 0 {
        seq![]
    } else {
        let i = index_of(s, '\n');
        if 0 <= i < s.len() {
            seq![strip_cr(s.subrange(0, i))] + lines(s.subrange(i + 1, s.len() as int))
        } else {
            seq![s]
        }
    }
}

/// The parts put together with `sep` between each two of them, as `[String]::join` does.
pub open spec fn join(parts: Seq<Seq<char>>, sep: Seq<char>) -> Seq<char>
    decreases parts.len(),
{
    if parts.len() == 0 {
        seq![]
    } else if parts.len() == 1 {
        parts[0]
    } else {
        join(parts.drop_last(), sep) + sep + parts.last()
    }
}

/// The views of a sequence of character vectors.
pub open spec fn views(v: Seq<Vec<char>>) -> Seq<Seq<char>> {
    Seq::new(v.len(), |i: int| v[i]@)
}

/// `[String]::join`: the parts with `sep` between each two of them.
pub fn join_chars(parts: &Vec<Vec<char>>, sep: &[char]) -> (r: Vec<char>)
    ensures
        r@ == join(views(parts@), sep@),
{
    let mut out: Vec<char> = Vec::new();
    let mut i: usize = 0;
    while i < parts.len()
        invariant
            i <= parts@.len(),
            out@ == join(views(parts@).subrange(0, i as int), sep@),
        decreases parts.len() - i,
    {
        let ghost before = out@;
        if i > 0 {
            append_chars(&mut out, sep);
        }
        append_chars(&mut out, &parts[i]);
        i += 1;
        assert(views(parts@).subrange(0, i as int).drop_last() =~= views(parts@).subrange(
            0,
            i - 1,
        ));
        if i == 1 {
            assert(out@ =~= join(views(parts@).subrange(0, i as int), sep@));
        }
    }
    assert(views(parts@).subrange(0, parts@.len() as int) =~= views(parts@));
    out
}

/// Appends the characters of `add` to `out`.
pub fn append_chars(out: &mut Vec<char>, add: &[char])
    ensures
        final(out)@ == old(out)@ + add@,
{
    let mut i: usize = 0;
    while i < add.len()
        invariant
            i <= add@.len(),
            out@ == old(out)@ + add@.subrange(0, i as int),
        decreases add.len() - i,
    {
        out.push(add[i]);
        i += 1;
        assert(out@ =~= old(out)@ + add@.subrange(0, i as int));
    }
    assert(add@.subrange(0, add@.len() as int) =~= add@);
}


/// The text that `trim_end` leaves is empty or ends in a non-whitespace character.
pub proof fn lemma_trim_end_shape(s: Seq<char>)
    ensures
        trim_end(s).len() == 0 || !is_whitespace(trim_end(s).last()),
        trim_end(s).len() <= s.len(),
        trim_end(s) == s.subrange(0, trim_end(s).len() as int),
    decreases s.len(),
{
    if s.len() > 0 && is_whitespace(s.last()) {
        lemma_trim_end_shape(s.drop_last());
        assert(s.drop_last().subrange(0, trim_end(s).len() as int) =~= s.subrange(
            0,
            trim_end(s).len() as int,
        ));
    } else {
        assert(s.subrange(0, s.len() as int) =~= s);
    }
}

/// The text that `trim_start` leaves is empty or starts with a non-whitespace character,
/// and is a suffix of the input.
pub proof fn lemma_trim_start_shape(s: Seq<char>)
    ensures
        trim_start(s).len() == 0 || !is_whitespace(trim_start(s)[0]),
        trim_start(s).len() <= s.len(),
        trim_start(s) == s.subrange(s.len() - trim_start(s).len(), s.len() as int),
    decreases s.len(),
{
    if s.len() > 0 && is_whitespace(s[0]) {
        lemma_trim_start_shape(s.drop_first());
        assert(s.drop_first().subrange(
            s.drop_first().len() - trim_start(s).len(),
            s.drop_first().len() as int,
        ) =~= s.subrange(s.len() - trim_start(s).len(), s.len() as int));
    } else {
        assert(s.subrange(0, s.len() as int) =~= s);
    }
}

/// Trimming only removes characters: every character of the trimmed text occurs in
/// the text.
pub proof fn lemma_trim_keeps_chars(s: Seq<char>)
    ensures
        forall|i: int| 0 <= i < trim(s).len() ==> s.contains(#[trigger] trim(s)[i]),
{
    lemma_trim_end_shape(s);
    let e = trim_end(s);
    lemma_trim_start_shape(e);
    let t = trim(s);
    assert forall|i: int| 0 <= i < t.len() implies s.contains(#[trigger] t[i]) by {
        let k = e.len() - t.len() + i;
        assert(t[i] == e[k]);
        assert(e[k] == s[k]);
    }
}

/// A text that neither starts nor ends with whitespace is its own trim.
pub proof fn lemma_trim_fixed(s: Seq<char>)
    requires
        s.len() == 0 || (!is_whitespace(s[0]) && !is_whitespace(s.last())),
    ensures
        trim(s) == s,
{
}

/// The trimmed text is empty or neither starts nor ends with whitespace.
pub proof fn lemma_trim_shape(s: Seq<char>)
    ensures
        trim(s).len() == 0 || (!is_whitespace(trim(s)[0]) && !is_whitespace(trim(s).last())),
{
    lemma_trim_end_shape(s);
    lemma_trim_start_shape(trim_end(s));
    let e = trim_end(s);
    let t = trim(s);
    if t.len() > 0 {
        assert(t.last() == e.last());
    }
}

/// Trimming twice is trimming once.
pub proof fn lemma_trim_idempotent(s: Seq<char>)
    ensures
        trim(trim(s)) == trim(s),
{
    lemma_trim_shape(s);
    lemma_trim_fixed(trim(s));
}


/// An owned copy of a string slice.
pub fn owned(s: &str) -> (r: String)
    ensures
        r@ == s@,
{
    string_of(&chars_of(s))
}

} // verus!
