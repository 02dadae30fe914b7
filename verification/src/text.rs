//! Text primitives over sequences of characters.
//!
//! The parsers and message builders of this crate work on characters, so that
//! every contract can speak of a `Seq<char>`. The functions here are the
//! vocabulary they share: trimming, splitting, searching, decimal numbers.

use vstd::prelude::*;

verus! {

/// `String::push` appends one character at the end of the string.
pub assume_specification[ String::push ](s: &mut String, ch: char)
    ensures
        final(s)@ == old(s)@.push(ch),
;

// ---------------------------------------------------------------------------
// Conversions and comparison
// ---------------------------------------------------------------------------

/// The characters of a string, in order.
pub fn chars_of(s: &str) -> (out: Vec<char>)
    ensures
        out@ == s@,
{
    let mut out: Vec<char> = Vec::new();
    for c in it: s.chars()
        invariant
            out@ == it.seq().take(it.index()),
            it.seq() == s@,
    {
        out.push(c);
    }
    out
}

/// The string made of the given characters.
pub fn string_of(chars: &[char]) -> (out: String)
    ensures
        out@ == chars@,
{
    let mut out: String = String::new();
    let mut i: usize = 0;
    while i < chars.len()
        invariant
            i <= chars.len(),
            out@ == chars@.take(i as int),
        decreases chars.len() - i,
    {
        out.push(chars[i]);
        i += 1;
    }
    assert(chars@.take(chars@.len() as int) == chars@);
    out
}

/// Whether two strings hold the same characters.
pub fn same_text(a: &str, b: &str) -> (r: bool)
    ensures
        r == (a@ == b@),
{
    let x: String = a.to_owned();
    let y: String = b.to_owned();
    x == y
}

/// The characters `from..to` of a slice.
pub fn sub_chars(s: &[char], from: usize, to: usize) -> (out: Vec<char>)
    requires
        from <= to <= s@.len(),
    ensures
        out@ == s@.subrange(from as int, to as int),
{
    let mut out: Vec<char> = Vec::new();
    let mut i: usize = from;
    while i < to
        invariant
            from <= i <= to <= s@.len(),
            out@ == s@.subrange(from as int, i as int),
        decreases to - i,
    {
        out.push(s[i]);
        i += 1;
    }
    out
}

// ---------------------------------------------------------------------------
// Character classes
// ---------------------------------------------------------------------------

/// The characters with the Unicode property `White_Space`.
pub open spec fn is_white(c: char) -> bool {
    let n = c as u32;
    ||| 0x9 <= n <= 0xd
    ||| n == 0x20
    ||| n == 0x85
    ||| n == 0xa0
    ||| n == 0x1680
    ||| 0x2000 <= n <= 0x200a
    ||| n == 0x2028
    ||| n == 0x2029
    ||| n == 0x202f
    ||| n == 0x205f
    ||| n == 0x3000
}

/// Whether `c` is white space.
pub fn white(c: char) -> (r: bool)
    ensures
        r == is_white(c),
{
    let n: u32 = c as u32;
    (0x9 <= n && n <= 0xd) || n == 0x20 || n == 0x85 || n == 0xa0 || n == 0x1680 || (0x2000 <= n
        && n <= 0x200a) || n == 0x2028 || n == 0x2029 || n == 0x202f || n == 0x205f || n == 0x3000
}

/// The ASCII decimal digits.
pub open spec fn is_digit(c: char) -> bool {
    '0' <= c <= '9'
}

/// Whether `c` is an ASCII decimal digit.
pub fn digit(c: char) -> (r: bool)
    ensures
        r == is_digit(c),
{
    '0' <= c && c <= '9'
}

// ---------------------------------------------------------------------------
// Trimming
// ---------------------------------------------------------------------------

/// `s` without the longest prefix whose characters all satisfy `p`.
pub open spec fn drop_leading(s: Seq<char>, p: spec_fn(char) -> bool) -> Seq<char>
    decreases s.len(),
{
    if s.len() > 0 && p(s[0]) {
        drop_leading(s.drop_first(), p)
    } else {
        s
    }
}

/// `s` without the longest suffix whose characters all satisfy `p`.
pub open spec fn drop_trailing(s: Seq<char>, p: spec_fn(char) -> bool) -> Seq<char>
    decreases s.len(),
{
    if s.len() > 0 && p(s.last()) {
        drop_trailing(s.drop_last(), p)
    } else {
        s
    }
}

/// `s` without white space at either end.
pub open spec fn trimmed(s: Seq<char>) -> Seq<char> {
    drop_trailing(drop_leading(s, |c: char| is_white(c)), |c: char| is_white(c))
}

/// `s` without double quotes at either end.
pub open spec fn unquoted(s: Seq<char>) -> Seq<char> {
    drop_trailing(drop_leading(s, |c: char| c == '"'), |c: char| c == '"')
}

/// Removes white space at both ends.
pub fn trim(s: &[char]) -> (out: Vec<char>)
    ensures
        out@ == trimmed(s@),
{
    let ghost p = |c: char| is_white(c);
    let mut i: usize = 0;
    assert(s@.skip(0) == s@);
    while i < s.len() && white(s[i])
        invariant
            i <= s@.len(),
            p == (|c: char| is_white(c)),
            drop_leading(s@, p) == drop_leading(s@.skip(i as int), p),
        decreases s@.len() - i,
    {
        assert(s@.skip(i as int)[0] == s@[i as int]);
        assert(s@.skip(i as int).drop_first() == s@.skip(i + 1));
        i += 1;
    }
    let ghost body = s@.skip(i as int);
    assert(drop_leading(body, p) == body) by {
        if body.len() > 0 {
            assert(body[0] == s@[i as int]);
        }
    }
    let mut j: usize = s.len();
    assert(s@.subrange(i as int, j as int) == body);
    while j > i && white(s[j - 1])
        invariant
            i <= j <= s@.len(),
            p == (|c: char| is_white(c)),
            drop_trailing(body, p) == drop_trailing(s@.subrange(i as int, j as int), p),
        decreases j,
    {
        assert(s@.subrange(i as int, j as int).last() == s@[j - 1]);
        assert(s@.subrange(i as int, j as int).drop_last() == s@.subrange(i as int, j - 1));
        j -= 1;
    }
    assert(drop_trailing(s@.subrange(i as int, j as int), p) == s@.subrange(i as int, j as int)) by {
        if j > i {
            assert(s@.subrange(i as int, j as int).last() == s@[j - 1]);
        }
    }
    sub_chars(s, i, j)
}

/// Removes double quotes at both ends.
pub fn unquote(s: &[char]) -> (out: Vec<char>)
    ensures
        out@ == unquoted(s@),
{
    let ghost p = |c: char| c == '"';
    let mut i: usize = 0;
    assert(s@.skip(0) == s@);
    while i < s.len() && s[i] == '"'
        invariant
            i <= s@.len(),
            p == (|c: char| c == '"'),
            drop_leading(s@, p) == drop_leading(s@.skip(i as int), p),
        decreases s@.len() - i,
    {
        assert(s@.skip(i as int)[0] == s@[i as int]);
        assert(s@.skip(i as int).drop_first() == s@.skip(i + 1));
        i += 1;
    }
    let ghost body = s@.skip(i as int);
    assert(drop_leading(body, p) == body) by {
        if body.len() > 0 {
            assert(body[0] == s@[i as int]);
        }
    }
    let mut j: usize = s.len();
    assert(s@.subrange(i as int, j as int) == body);
    while j > i && s[j - 1] == '"'
        invariant
            i <= j <= s@.len(),
            p == (|c: char| c == '"'),
            drop_trailing(body, p) == drop_trailing(s@.subrange(i as int, j as int), p),
        decreases j,
    {
        assert(s@.subrange(i as int, j as int).last() == s@[j - 1]);
        assert(s@.subrange(i as int, j as int).drop_last() == s@.subrange(i as int, j - 1));
        j -= 1;
    }
    assert(drop_trailing(s@.subrange(i as int, j as int), p) == s@.subrange(i as int, j as int)) by {
        if j > i {
            assert(s@.subrange(i as int, j as int).last() == s@[j - 1]);
        }
    }
    sub_chars(s, i, j)
}

// ---------------------------------------------------------------------------
// Searching
// ---------------------------------------------------------------------------

/// Whether `needle` stands in `s` at position `at`.
pub open spec fn occurs_at(s: Seq<char>, needle: Seq<char>, at: int) -> bool {
    0 <= at && at + needle.len() <= s.len() && s.subrange(at, at + needle.len()) == needle
}

/// Whether `needle` stands anywhere in `s`.
pub open spec fn occurs(s: Seq<char>, needle: Seq<char>) -> bool {
    exists|at: int| occurs_at(s, needle, at)
}

/// Whether `s` starts with `prefix`.
pub open spec fn has_prefix(s: Seq<char>, prefix: Seq<char>) -> bool {
    occurs_at(s, prefix, 0)
}

/// Tests for `needle` at one position.
pub fn matches_at(s: &[char], needle: &[char], at: usize) -> (r: bool)
    ensures
        r == occurs_at(s@, needle@, at as int),
{
    if needle.len() > s.len() || at > s.len() - needle.len() {
        return false;
    }
    let mut i: usize = 0;
    while i < needle.len()
        invariant
            i <= needle@.len(),
            at + needle@.len() <= s.len(),
            forall|k: int| 0 <= k < i ==> s@[at + k] == needle@[k],
        decreases needle@.len() - i,
    {
        if s[at + i] != needle[i] {
            assert(s@.subrange(at as int, at + needle@.len())[i as int] != needle@[i as int]);
            return false;
        }
        i += 1;
    }
    assert(s@.subrange(at as int, at + needle@.len()) =~= needle@);
    true
}

/// Tests whether `s` starts with `prefix`.
pub fn starts_with(s: &[char], prefix: &str) -> (r: bool)
    ensures
        r == has_prefix(s@, prefix@),
{
    let p = chars_of(prefix);
    matches_at(s, p.as_slice(), 0)
}

/// Tests whether `needle` stands anywhere in `s`.
pub fn contains(s: &[char], needle: &str) -> (r: bool)
    ensures
        r == occurs(s@, needle@),
{
    let n = chars_of(needle);
    if n.len() > s.len() {
        return false;
    }
    let last: usize = s.len() - n.len();
    let mut at: usize = 0;
    loop
        invariant
            n@ == needle@,
            n@.len() + last == s@.len(),
            at <= last,
            forall|k: int| 0 <= k < at ==> !occurs_at(s@, n@, k),
        decreases last - at,
    {
        if matches_at(s, n.as_slice(), at) {
            return true;
        }
        if at == last {
            return false;
        }
        at += 1;
    }
}

/// What follows `prefix` in `s`, where `s` starts with it.
pub open spec fn after_prefix(s: Seq<char>, prefix: Seq<char>) -> Option<Seq<char>> {
    if has_prefix(s, prefix) {
        Some(s.skip(prefix.len() as int))
    } else {
        None
    }
}

/// Removes `prefix` from the front of `s`.
pub fn strip_prefix(s: &[char], prefix: &str) -> (out: Option<Vec<char>>)
    ensures
        match out {
            Some(rest) => after_prefix(s@, prefix@) == Some(rest@),
            None => after_prefix(s@, prefix@) is None,
        },
{
    let p = chars_of(prefix);
    if matches_at(s, p.as_slice(), 0) {
        let rest = sub_chars(s, p.len(), s.len());
        assert(s@.skip(p@.len() as int) == s@.subrange(p@.len() as int, s@.len() as int));
        Some(rest)
    } else {
        None
    }
}

// ---------------------------------------------------------------------------
// Splitting
// ---------------------------------------------------------------------------

/// The pieces of `s` between the occurrences of `sep`, never empty as a list.
pub open spec fn split_on(s: Seq<char>, sep: char) -> Seq<Seq<char>>
    decreases s.len(),
{
    if s.len() == 0 {
        seq![Seq::<char>::empty()]
    } else {
        let front = split_on(s.drop_last(), sep);
        if s.last() == sep {
            front.push(Seq::<char>::empty())
        } else {
            front.update(front.len() - 1, front.last().push(s.last()))
        }
    }
}

/// The views of a list of character vectors.
pub open spec fn views(parts: Seq<Vec<char>>) -> Seq<Seq<char>> {
    parts.map_values(|p: Vec<char>| p@)
}

/// Splits `s` at every occurrence of `sep`.
pub fn split(s: &[char], sep: char) -> (out: Vec<Vec<char>>)
    ensures
        views(out@) == split_on(s@, sep),
        out@.len() > 0,
{
    let mut done: Vec<Vec<char>> = Vec::new();
    let mut cur: Vec<char> = Vec::new();
    let mut i: usize = 0;
    assert(views(done@).push(cur@) =~= split_on(s@.take(0), sep));
    while i < s.len()
        invariant
            i <= s@.len(),
            views(done@).push(cur@) == split_on(s@.take(i as int), sep),
        decreases s@.len() - i,
    {
        let ghost before = split_on(s@.take(i as int), sep);
        let c = s[i];
        assert(s@.take(i + 1).drop_last() == s@.take(i as int));
        assert(s@.take(i + 1).last() == c);
        if c == sep {
            let ghost prev = done@;
            let ghost piece = cur;
            done.push(cur);
            assert(views(done@) =~= views(prev).push(piece@));
            cur = Vec::new();
            assert(views(done@).push(cur@) =~= before.push(Seq::<char>::empty()));
        } else {
            let ghost piece = cur@;
            cur.push(c);
            assert(before.last() == piece);
            assert(views(done@).push(cur@) =~= before.update(before.len() - 1, piece.push(c)));
        }
        i += 1;
    }
    assert(s@.take(s@.len() as int) == s@);
    let ghost prev = done@;
    let ghost piece = cur;
    done.push(cur);
    assert(views(done@) =~= views(prev).push(piece@));
    done
}

/// A line without the carriage return that stood before its line feed.
pub open spec fn without_cr(line: Seq<char>) -> Seq<char> {
    if line.len() > 0 && line.last() == '\r' {
        line.drop_last()
    } else {
        line
    }
}

/// The lines of a text. A line ends at `\n` or `\r\n`; the last line need not
/// have an ending, and an empty rest after the last ending is no line.
pub open spec fn lines_of(s: Seq<char>) -> Seq<Seq<char>> {
    let pieces = split_on(s, '\n');
    let ended = pieces.drop_last().map_values(|l: Seq<char>| without_cr(l));
    if pieces.last().len() == 0 {
        ended
    } else {
        ended.push(pieces.last())
    }
}

/// Splits a text into its lines.
pub fn lines(s: &[char]) -> (out: Vec<Vec<char>>)
    ensures
        views(out@) == lines_of(s@),
{
    let pieces = split(s, '\n');
    let ghost all = split_on(s@, '\n');
    let n: usize = pieces.len();
    let mut out: Vec<Vec<char>> = Vec::new();
    let mut i: usize = 0;
    assert forall|k: int| 0 <= k < n implies (#[trigger] pieces@[k])@ == all[k] by {
        assert(views(pieces@)[k] == pieces@[k]@);
    }
    while i + 1 < n
        invariant
            n == pieces@.len(),
            n == all.len(),
            n > 0,
            i <= n - 1,
            forall|k: int| 0 <= k < n ==> (#[trigger] pieces@[k])@ == all[k],
            out@.len() == i,
            forall|k: int| 0 <= k < i ==> (#[trigger] out@[k])@ == without_cr(all[k]),
        decreases n - i,
    {
        let p = pieces[i].as_slice();
        let line = if p.len() > 0 && p[p.len() - 1] == '\r' {
            let l = sub_chars(p, 0, p.len() - 1);
            assert(l@ == p@.drop_last());
            l
        } else {
            let l = sub_chars(p, 0, p.len());
            assert(l@ == p@);
            l
        };
        out.push(line);
        i += 1;
    }
    let ghost ended = all.drop_last().map_values(|l: Seq<char>| without_cr(l));
    assert(views(out@) =~= ended);
    let last = pieces[n - 1].as_slice();
    if last.len() > 0 {
        let ghost prev = out@;
        let l = sub_chars(last, 0, last.len());
        assert(l@ == last@);
        out.push(l);
        assert(views(out@) =~= views(prev).push(all.last()));
    }
    out
}

/// The maximal runs of characters that are not white space.
pub open spec fn words_of(s: Seq<char>) -> Seq<Seq<char>>
    decreases s.len(),
{
    if s.len() == 0 {
        Seq::empty()
    } else {
        let front = words_of(s.drop_last());
        if is_white(s.last()) {
            front
        } else if s.len() == 1 || is_white(s[s.len() - 2]) {
            front.push(seq![s.last()])
        } else {
            front.update(front.len() - 1, front.last().push(s.last()))
        }
    }
}

/// Splits a text at white space.
pub fn words(s: &[char]) -> (out: Vec<Vec<char>>)
    ensures
        views(out@) == words_of(s@),
{
    let mut done: Vec<Vec<char>> = Vec::new();
    let mut cur: Vec<char> = Vec::new();
    let mut inside: bool = false;
    let mut i: usize = 0;
    assert(views(done@) =~= words_of(s@.take(0)));
    while i < s.len()
        invariant
            i <= s@.len(),
            inside == (i > 0 && !is_white(s@[i - 1])),
            inside ==> views(done@).push(cur@) == words_of(s@.take(i as int)),
            !inside ==> views(done@) == words_of(s@.take(i as int)),
        decreases s@.len() - i,
    {
        let ghost before = words_of(s@.take(i as int));
        let c = s[i];
        assert(s@.take(i + 1).drop_last() == s@.take(i as int));
        assert(s@.take(i + 1).last() == c);
        if i > 0 {
            assert(s@.take(i + 1)[i - 1] == s@[i - 1]);
        }
        if white(c) {
            if inside {
                let ghost prev = done@;
                let ghost piece = cur;
                done.push(cur);
                assert(views(done@) =~= views(prev).push(piece@));
                cur = Vec::new();
            }
            inside = false;
        } else if inside {
            let ghost piece = cur@;
            cur.push(c);
            assert(before.last() == piece);
            assert(views(done@).push(cur@) =~= before.update(before.len() - 1, piece.push(c)));
        } else {
            cur = Vec::new();
            cur.push(c);
            assert(cur@ =~= seq![c]);
            inside = true;
            assert(views(done@).push(cur@) =~= before.push(seq![c]));
        }
        i += 1;
    }
    assert(s@.take(s@.len() as int) == s@);
    if inside {
        let ghost prev = done@;
        let ghost piece = cur;
        done.push(cur);
        assert(views(done@) =~= views(prev).push(piece@));
    }
    done
}

// ---------------------------------------------------------------------------
// Joining and padding
// ---------------------------------------------------------------------------

/// The texts of `parts` with `sep` between neighbours.
pub open spec fn joined(parts: Seq<Seq<char>>, sep: Seq<char>) -> Seq<char>
    decreases parts.len(),
{
    if parts.len() == 0 {
        Seq::empty()
    } else if parts.len() == 1 {
        parts[0]
    } else {
        joined(parts.drop_last(), sep) + sep + parts.last()
    }
}

/// The views of a list of strings.
pub open spec fn texts(parts: Seq<String>) -> Seq<Seq<char>> {
    parts.map_values(|p: String| p@)
}

/// Joins strings with a separator.
pub fn join(parts: &Vec<String>, sep: &str) -> (out: String)
    ensures
        out@ == joined(texts(parts@), sep@),
{
    let mut out: String = String::new();
    let mut i: usize = 0;
    let ghost all = texts(parts@);
    while i < parts.len()
        invariant
            i <= parts@.len(),
            all == texts(parts@),
            out@ == joined(all.take(i as int), sep@),
        decreases parts@.len() - i,
    {
        assert(all.take(i + 1).drop_last() == all.take(i as int));
        assert(all.take(i + 1).last() == parts@[i as int]@);
        if i > 0 {
            out.append(sep);
        } else {
            assert(out@ + parts@[0]@ =~= parts@[0]@);
        }
        out.append(parts[i].as_str());
        i += 1;
    }
    assert(all.take(all.len() as int) == all);
    out
}

/// `s` followed by the spaces that bring it to `width` characters.
pub open spec fn padded(s: Seq<char>, width: nat) -> Seq<char> {
    if s.len() >= width {
        s
    } else {
        s + Seq::new((width - s.len()) as nat, |i: int| ' ')
    }
}

/// Left-aligns `s` in a field of `width` characters.
pub fn pad_right(s: &str, width: usize) -> (out: String)
    ensures
        out@ == padded(s@, width as nat),
{
    let mut out: String = s.to_owned();
    let mut n: usize = s.unicode_len();
    let ghost start = n;
    while n < width
        invariant
            start == s@.len(),
            start <= n,
            n <= width || n == start,
            out@ == s@ + Seq::new((n - start) as nat, |i: int| ' '),
        decreases width - n,
    {
        let ghost prev = out@;
        out.push(' ');
        n += 1;
        assert(out@ =~= s@ + Seq::new((n - start) as nat, |i: int| ' '));
    }
    assert(out@ =~= padded(s@, width as nat));
    out
}

// ---------------------------------------------------------------------------
// Decimal numbers
// ---------------------------------------------------------------------------

/// The digit for `0 <= d < 10`.
pub open spec fn digit_char(d: int) -> char {
    (48 + d) as char
}

/// The number that a digit stands for.
pub open spec fn digit_value(c: char) -> int {
    c as int - 48
}

/// `n` in decimal, without leading zeros.
pub open spec fn decimal_digits(n: nat) -> Seq<char>
    decreases n,
{
    if n < 10 {
        seq![digit_char(n as int)]
    } else {
        decimal_digits(n / 10).push(digit_char(n as int % 10))
    }
}

/// Writes `n` in decimal.
pub fn decimal(n: u64) -> (out: String)
    ensures
        out@ == decimal_digits(n as nat),
    decreases n,
{
    let mut out: String = if n < 10 {
        String::new()
    } else {
        decimal(n / 10)
    };
    let d: u8 = (n % 10) as u8;
    out.push((48 + d) as char);
    out
}

/// The decimal text of a signed number.
pub open spec fn signed_digits(n: int) -> Seq<char> {
    if n < 0 {
        "-"@ + decimal_digits((-n) as nat)
    } else {
        decimal_digits(n as nat)
    }
}

/// The decimal text of a signed number.
pub fn signed_decimal(n: i32) -> (out: String)
    ensures
        out@ == signed_digits(n as int),
{
    if n < 0 {
        let mut out = "-".to_owned();
        let magnitude: u64 = (-(n as i64)) as u64;
        out.append(decimal(magnitude).as_str());
        out
    } else {
        decimal(n as u64)
    }
}

/// The decimal text of a number, with zeros in front to make `width` characters.
pub open spec fn zero_padded(n: nat, width: nat) -> Seq<char> {
    let digits = decimal_digits(n);
    if digits.len() >= width {
        digits
    } else {
        Seq::new((width - digits.len()) as nat, |i: int| '0') + digits
    }
}

/// The decimal text of a number, with zeros in front to make `width` characters.
pub fn decimal_padded(n: u64, width: usize) -> (out: String)
    ensures
        out@ == zero_padded(n as nat, width as nat),
{
    let digits = decimal(n);
    let len: usize = digits.as_str().unicode_len();
    let mut out = String::new();
    let mut have: usize = len;
    assert(out@ =~= Seq::new(0, |i: int| '0'));
    while have < width
        invariant
            len <= have,
            have <= width || have == len,
            out@ == Seq::new((have - len) as nat, |i: int| '0'),
        decreases width - have,
    {
        out.push('0');
        have += 1;
        assert(out@ =~= Seq::new((have - len) as nat, |i: int| '0'));
    }
    out.append(digits.as_str());
    assert(out@ =~= zero_padded(n as nat, width as nat));
    out
}

/// The lower-case hexadecimal digit for `0 <= d < 16`.
pub open spec fn hex_char(d: int) -> char {
    if d < 10 {
        (48 + d) as char
    } else {
        (87 + d) as char
    }
}

/// The `width` lowest hexadecimal digits of a number, leading zeros included.
pub open spec fn hex_digits(n: nat, width: nat) -> Seq<char>
    decreases width,
{
    if width == 0 {
        Seq::empty()
    } else {
        hex_digits(n / 16, (width - 1) as nat).push(hex_char((n % 16) as int))
    }
}

/// The lower-case hexadecimal digit of a number below 16.
fn hex_digit(d: u32) -> (c: char)
    requires
        d < 16,
    ensures
        c == hex_char(d as int),
{
    if d < 10 {
        (48 + d as u8) as char
    } else {
        (87 + d as u8) as char
    }
}

/// The `width` lowest hexadecimal digits of a number, leading zeros included.
pub fn hex(n: u32, width: u32) -> (out: String)
    ensures
        out@ == hex_digits(n as nat, width as nat),
    decreases width,
{
    if width == 0 {
        String::new()
    } else {
        let mut out = hex(n / 16, width - 1);
        out.push(hex_digit(n % 16));
        out
    }
}

/// Whether every character of `s` is a digit.
pub open spec fn all_digits(s: Seq<char>) -> bool {
    forall|i: int| 0 <= i < s.len() ==> is_digit(#[trigger] s[i])
}

/// The number that a sequence of digits writes.
pub open spec fn digits_value(s: Seq<char>) -> nat
    decreases s.len(),
{
    if s.len() == 0 {
        0
    } else {
        (10 * digits_value(s.drop_last()) + digit_value(s.last())) as nat
    }
}

/// The digits of a number that may be written with a leading `+`.
pub open spec fn without_plus(s: Seq<char>) -> Seq<char> {
    if s.len() > 0 && s[0] == '+' {
        s.drop_first()
    } else {
        s
    }
}

/// The unsigned number at most `max` that `s` writes, if it writes one: an
/// optional `+`, then one digit or more, and nothing else.
pub open spec fn unsigned_value(s: Seq<char>, max: nat) -> Option<nat> {
    let d = without_plus(s);
    if d.len() > 0 && all_digits(d) && digits_value(d) <= max {
        Some(digits_value(d))
    } else {
        None
    }
}

/// More digits never make a smaller number.
proof fn lemma_digits_grow(s: Seq<char>, k: int)
    requires
        all_digits(s),
        0 <= k <= s.len(),
    ensures
        digits_value(s.take(k)) <= digits_value(s),
    decreases s.len() - k,
{
    if k == s.len() {
        assert(s.take(k) == s);
    } else {
        lemma_digits_grow(s, k + 1);
        assert(s.take(k + 1).drop_last() == s.take(k));
        assert(is_digit(s[k]));
    }
}

/// Reads an unsigned number no larger than `max`.
pub fn parse_unsigned(s: &[char], max: u64) -> (out: Option<u64>)
    ensures
        match out {
            Some(v) => unsigned_value(s@, max as nat) == Some(v as nat),
            None => unsigned_value(s@, max as nat) is None,
        },
{
    let start: usize = if s.len() > 0 && s[0] == '+' {
        1
    } else {
        0
    };
    let ghost d = without_plus(s@);
    assert(d =~= s@.skip(start as int));
    if s.len() == start {
        return None;
    }
    let mut v: u64 = 0;
    let mut i: usize = start;
    while i < s.len()
        invariant
            start <= i <= s@.len(),
            d == s@.skip(start as int),
            d == without_plus(s@),
            all_digits(d.take(i - start)),
            v == digits_value(d.take(i - start)),
            v <= max,
        decreases s@.len() - i,
    {
        let c = s[i];
        let ghost k = i - start;
        assert(d[k] == c);
        if !digit(c) {
            return None;
        }
        assert(d.take(k + 1).drop_last() == d.take(k));
        assert(d.take(k + 1).last() == c);
        assert(all_digits(d.take(k + 1))) by {
            assert forall|j: int| 0 <= j < k + 1 implies is_digit(#[trigger] d.take(k + 1)[j]) by {
                if j < k {
                    assert(d.take(k)[j] == d.take(k + 1)[j]);
                }
            }
        }
        let x: u64 = (c as u32 - 48) as u64;
        let next: u128 = v as u128 * 10 + x as u128;
        if next > max as u128 {
            proof {
                if all_digits(d) {
                    lemma_digits_grow(d, k + 1);
                }
            }
            return None;
        }
        v = next as u64;
        i += 1;
    }
    assert(d.take(d.len() as int) == d);
    Some(v)
}

/// Reads a `u32` written in decimal.
pub fn parse_u32(s: &[char]) -> (out: Option<u32>)
    ensures
        match out {
            Some(v) => unsigned_value(s@, u32::MAX as nat) == Some(v as nat),
            None => unsigned_value(s@, u32::MAX as nat) is None,
        },
{
    match parse_unsigned(s, u32::MAX as u64) {
        Some(v) => Some(v as u32),
        None => None,
    }
}

/// The `i32` that `s` writes, if it writes one: an optional sign, then one digit
/// or more, and nothing else.
pub open spec fn signed_value(s: Seq<char>) -> Option<int> {
    if s.len() > 0 && s[0] == '-' {
        let d = s.drop_first();
        if d.len() > 0 && all_digits(d) && digits_value(d) <= 0x8000_0000 {
            Some(-digits_value(d))
        } else {
            None
        }
    } else {
        match unsigned_value(s, i32::MAX as nat) {
            Some(n) => Some(n as int),
            None => None,
        }
    }
}

/// Reads an `i32` written in decimal.
pub fn parse_i32(s: &[char]) -> (out: Option<i32>)
    ensures
        match out {
            Some(v) => signed_value(s@) == Some(v as int),
            None => signed_value(s@) is None,
        },
{
    if s.len() > 0 && s[0] == '-' {
        let rest = sub_chars(s, 1, s.len());
        assert(rest@ =~= s@.drop_first());
        if rest.len() > 0 && rest[0] == '+' {
            assert(!is_digit(s@.drop_first()[0]));
            return None;
        }
        match parse_unsigned(rest.as_slice(), 0x8000_0000) {
            Some(v) => Some((-(v as i64)) as i32),
            None => None,
        }
    } else {
        match parse_unsigned(s, i32::MAX as u64) {
            Some(v) => Some(v as i32),
            None => None,
        }
    }
}

/// What `decimal_digits` writes is a number's digits and nothing else.
pub proof fn lemma_decimal_is_digits(n: nat)
    ensures
        decimal_digits(n).len() > 0,
        all_digits(decimal_digits(n)),
        digits_value(decimal_digits(n)) == n,
    decreases n,
{
    let s = decimal_digits(n);
    if n < 10 {
        assert(s.drop_last() =~= Seq::<char>::empty());
        assert(digits_value(s.drop_last()) == 0);
    } else {
        lemma_decimal_is_digits(n / 10);
        assert(s.drop_last() =~= decimal_digits(n / 10));
        assert forall|i: int| 0 <= i < s.len() implies is_digit(#[trigger] s[i]) by {
            if i < s.len() - 1 {
                assert(s[i] == decimal_digits(n / 10)[i]);
            }
        }
    }
}

/// Reading back a number that was written in decimal gives that number.
pub proof fn law_decimal_round_trip(n: nat, max: nat)
    requires
        n <= max,
    ensures
        unsigned_value(decimal_digits(n), max) == Some(n),
{
    lemma_decimal_is_digits(n);
    assert(is_digit(decimal_digits(n)[0]));
}

/// Two numbers written alike are the same number.
pub proof fn law_decimal_injective(a: nat, b: nat)
    requires
        decimal_digits(a) == decimal_digits(b),
    ensures
        a == b,
{
    lemma_decimal_is_digits(a);
    lemma_decimal_is_digits(b);
}

// ---------------------------------------------------------------------------
// Laws of numbers as text
// ---------------------------------------------------------------------------

/// A number is written in base ten, the highest digit first and without leading
/// zeros: its last character is its last digit, and what stands before that is the
/// number without it.
pub proof fn law_decimal_form(n: nat)
    ensures
        decimal_digits(n).last() as int == '0' as int + n % 10,
        n < 10 ==> decimal_digits(n).len() == 1,
        n >= 10 ==> decimal_digits(n).drop_last() == decimal_digits(n / 10),
        n > 0 ==> decimal_digits(n)[0] != '0',
    decreases n,
{
    if n >= 10 {
        law_decimal_form(n / 10);
        lemma_decimal_is_digits(n / 10);
        assert(decimal_digits(n).drop_last() =~= decimal_digits(n / 10));
    }
}

/// Leading zeros and a plus sign do not change the number that digits stand for.
pub proof fn law_leading_zeros_do_not_count(s: Seq<char>, max: nat)
    requires
        s.len() > 0,
        all_digits(s),
    ensures
        digits_value(seq!['0'] + s) == digits_value(s),
        unsigned_value(seq!['0'] + s, max) == unsigned_value(s, max),
        unsigned_value(seq!['+'] + s, max) == unsigned_value(s, max),
    decreases s.len(),
{
    let t = seq!['0'] + s;
    assert(t.drop_last() =~= seq!['0'] + s.drop_last());
    assert(t.last() == s.last());
    if s.len() > 1 {
        assert forall|i: int| 0 <= i < s.drop_last().len() implies is_digit(
            #[trigger] s.drop_last()[i],
        ) by {
            assert(s.drop_last()[i] == s[i]);
        }
        law_leading_zeros_do_not_count(s.drop_last(), max);
    } else {
        assert(s.drop_last() =~= Seq::<char>::empty());
        assert(t.drop_last() =~= seq!['0']);
        assert(seq!['0'].drop_last() =~= Seq::<char>::empty());
        assert(digits_value(seq!['0']) == 0) by {
            reveal_with_fuel(digits_value, 2);
        }
    }
    assert forall|i: int| 0 <= i < t.len() implies is_digit(#[trigger] t[i]) by {
        if i > 0 {
            assert(t[i] == s[i - 1]);
        }
    }
    assert(is_digit(s[0]));
    assert((seq!['+'] + s).drop_first() =~= s);
    assert(without_plus(t) == t && without_plus(s) == s);
}

/// Only digits, after at most one plus sign, are a number, and only up to the limit:
/// an empty text, a stray character or too large a value gives none.
pub proof fn law_what_is_a_number(s: Seq<char>, max: nat, i: int)
    ensures
        unsigned_value(Seq::<char>::empty(), max) is None,
        unsigned_value(seq!['+'], max) is None,
        0 < i < s.len() && !('0' <= s[i] <= '9') ==> unsigned_value(s, max) is None,
        s.len() > 0 && s[0] != '+' && !('0' <= s[0] <= '9') ==> unsigned_value(s, max) is None,
        unsigned_value(s, max) matches Some(n) ==> n <= max,
        unsigned_value(s, max) matches Some(n) ==> n == digits_value(without_plus(s)),
        all_digits(s) && s.len() > 0 && digits_value(s) > max ==> unsigned_value(s, max) is None,
{
    if 0 < i < s.len() && !('0' <= s[i] <= '9') {
        let d = without_plus(s);
        if s[0] == '+' {
            assert(d[i - 1] == s[i]);
        } else {
            assert(d[i] == s[i]);
        }
    }
    assert(seq!['+'].drop_first() =~= Seq::<char>::empty());
    if s.len() > 0 && s[0] != '+' && !('0' <= s[0] <= '9') {
        assert(without_plus(s)[0] == s[0]);
    }
    if all_digits(s) && s.len() > 0 {
        assert(is_digit(s[0]));
        assert(without_plus(s) == s);
    }
}

/// What is written of a signed number is read back as that number, over the whole
/// range of 32 bits, and a negative one is its size behind a minus sign.
pub proof fn law_signed_round_trip(n: int)
    requires
        i32::MIN <= n <= i32::MAX,
    ensures
        signed_value(signed_digits(n)) == Some(n),
        n < 0 ==> signed_digits(n) == seq!['-'] + decimal_digits((-n) as nat),
        n >= 0 ==> signed_digits(n) == decimal_digits(n as nat),
{
    reveal_strlit("-");
    if n < 0 {
        let d = decimal_digits((-n) as nat);
        lemma_decimal_is_digits((-n) as nat);
        assert(signed_digits(n).drop_first() =~= d);
        assert("-"@ =~= seq!['-']);
    } else {
        lemma_decimal_is_digits(n as nat);
        law_decimal_round_trip(n as nat, i32::MAX as nat);
        assert(is_digit(decimal_digits(n as nat)[0]));
    }
}

/// A number that is padded with zeros is as long as was asked for, unless it is
/// longer by itself, ends with its own digits, and still is the same number.
pub proof fn law_zero_padding(n: nat, width: nat, max: nat)
    requires
        n <= max,
    ensures
        zero_padded(n, width).len() >= width,
        zero_padded(n, width).len() == width || zero_padded(n, width) == decimal_digits(n),
        zero_padded(n, width).len() >= decimal_digits(n).len(),
        zero_padded(n, width).skip(
            zero_padded(n, width).len() - decimal_digits(n).len(),
        ) == decimal_digits(n),
        unsigned_value(zero_padded(n, width), max) == Some(n),
    decreases width,
{
    let digits = decimal_digits(n);
    lemma_decimal_is_digits(n);
    law_decimal_round_trip(n, max);
    if digits.len() < width {
        let shorter = zero_padded(n, (width - 1) as nat);
        law_zero_padding(n, (width - 1) as nat, max);
        let padding = Seq::new((width - digits.len()) as nat, |i: int| '0');
        assert(zero_padded(n, width) == padding + digits);
        assert(zero_padded(n, width) =~= seq!['0'] + shorter);
        assert(all_digits(shorter)) by {
            assert forall|i: int| 0 <= i < shorter.len() implies is_digit(#[trigger] shorter[i]) by {
                let k = i - (shorter.len() - digits.len());
                if k >= 0 {
                    assert(shorter[i] == digits[k]);
                }
            }
        }
        law_leading_zeros_do_not_count(shorter, max);
        assert(zero_padded(n, width).skip(
            zero_padded(n, width).len() - digits.len(),
        ) =~= digits);
    } else {
        assert(digits.skip(0) =~= digits);
    }
}

/// The number that hexadecimal digits stand for, the highest first.
pub open spec fn hex_value(s: Seq<char>) -> nat
    decreases s.len(),
{
    if s.len() == 0 {
        0
    } else {
        let d = if s.last() <= '9' {
            s.last() as int - '0' as int
        } else {
            10 + (s.last() as int - 'a' as int)
        };
        (16 * hex_value(s.drop_last()) + d) as nat
    }
}

/// `16` to the power of `width`.
pub open spec fn hex_range(width: nat) -> nat
    decreases width,
{
    if width == 0 {
        1
    } else {
        16 * hex_range((width - 1) as nat)
    }
}

/// A number written in hexadecimal has the width that was asked for, is made of the
/// digits `0` to `9` and `a` to `f`, and is read back as that number where it fits.
pub proof fn law_hex_round_trip(n: nat, width: nat)
    ensures
        hex_digits(n, width).len() == width,
        forall|i: int|
            0 <= i < width ==> '0' <= #[trigger] hex_digits(n, width)[i] <= '9' || 'a'
                <= hex_digits(n, width)[i] <= 'f',
        n < hex_range(width) ==> hex_value(hex_digits(n, width)) == n,
    decreases width,
{
    if width > 0 {
        law_hex_round_trip(n / 16, (width - 1) as nat);
        let front = hex_digits(n / 16, (width - 1) as nat);
        assert(hex_digits(n, width).drop_last() =~= front);
        assert forall|i: int| 0 <= i < width implies '0' <= #[trigger] hex_digits(n, width)[i]
            <= '9' || 'a' <= hex_digits(n, width)[i] <= 'f' by {
            if i < width - 1 {
                assert(hex_digits(n, width)[i] == front[i]);
            }
        }
    }
}

// ---------------------------------------------------------------------------
// Laws of cutting and joining
// ---------------------------------------------------------------------------

/// Among the characters of ASCII, white space is the space and the five control
/// characters from tab to carriage return.
pub proof fn law_ascii_white_space(c: char)
    requires
        (c as u32) < 0x80,
    ensures
        is_white(c) <==> (c == ' ' || c == '\t' || c == '\n' || c == '\r' || c as u32 == 0xb
            || c as u32 == 0xc),
{
}

/// Dropping what leads up to `m` leaves `m`, and what follows it.
proof fn lemma_drop_leading(a: Seq<char>, m: Seq<char>, p: spec_fn(char) -> bool)
    requires
        forall|i: int| 0 <= i < a.len() ==> p(#[trigger] a[i]),
        m.len() == 0 || !p(m[0]),
    ensures
        drop_leading(a + m, p) == m,
    decreases a.len(),
{
    if a.len() > 0 {
        let rest = a.drop_first();
        assert forall|i: int| 0 <= i < rest.len() implies p(#[trigger] rest[i]) by {
            assert(rest[i] == a[i + 1]);
        }
        lemma_drop_leading(rest, m, p);
        assert((a + m)[0] == a[0]);
        assert((a + m).drop_first() =~= rest + m);
    } else {
        assert(a + m =~= m);
    }
}

/// Dropping what trails `m` leaves `m`.
proof fn lemma_drop_trailing(m: Seq<char>, b: Seq<char>, p: spec_fn(char) -> bool)
    requires
        forall|i: int| 0 <= i < b.len() ==> p(#[trigger] b[i]),
        m.len() == 0 || !p(m.last()),
    ensures
        drop_trailing(m + b, p) == m,
    decreases b.len(),
{
    if b.len() > 0 {
        let rest = b.drop_last();
        assert forall|i: int| 0 <= i < rest.len() implies p(#[trigger] rest[i]) by {
            assert(rest[i] == b[i]);
        }
        lemma_drop_trailing(m, rest, p);
        assert((m + b).last() == b[b.len() - 1]);
        assert((m + b).drop_last() =~= m + rest);
    } else {
        assert(m + b =~= m);
    }
}

/// Cutting a text at both ends by a test on characters leaves exactly the part
/// between the first and the last character that fail the test.
proof fn lemma_cut_both_ends(
    a: Seq<char>,
    m: Seq<char>,
    b: Seq<char>,
    p: spec_fn(char) -> bool,
)
    requires
        forall|i: int| 0 <= i < a.len() ==> p(#[trigger] a[i]),
        forall|i: int| 0 <= i < b.len() ==> p(#[trigger] b[i]),
        m.len() == 0 || (!p(m[0]) && !p(m.last())),
    ensures
        drop_trailing(drop_leading(a + m + b, p), p) == m,
{
    if m.len() > 0 {
        assert((m + b)[0] == m[0]);
        assert(a + m + b =~= a + (m + b));
        lemma_drop_leading(a, m + b, p);
        lemma_drop_trailing(m, b, p);
    } else {
        let ab = a + b;
        let e = Seq::<char>::empty();
        assert forall|i: int| 0 <= i < ab.len() implies p(#[trigger] ab[i]) by {
            if i < a.len() {
                assert(ab[i] == a[i]);
            } else {
                assert(ab[i] == b[i - a.len()]);
            }
        }
        assert(a + m + b =~= ab + e);
        lemma_drop_leading(ab, e, p);
        assert(drop_trailing(e, p) == e);
        assert(m =~= e);
    }
}

/// Trimming takes away the white space at both ends, all of it and nothing else:
/// what it leaves of a text between white spaces is that text, with the white space
/// inside it.
pub proof fn law_trimming(a: Seq<char>, m: Seq<char>, b: Seq<char>)
    requires
        forall|i: int| 0 <= i < a.len() ==> is_white(#[trigger] a[i]),
        forall|i: int| 0 <= i < b.len() ==> is_white(#[trigger] b[i]),
        m.len() == 0 || (!is_white(m[0]) && !is_white(m.last())),
    ensures
        trimmed(a + m + b) == m,
{
    lemma_cut_both_ends(a, m, b, |c: char| is_white(c));
}

/// Unquoting takes away the double quotes at both ends, all of them and nothing
/// else: what it leaves of a text between quotes is that text.
pub proof fn law_unquoting(a: Seq<char>, m: Seq<char>, b: Seq<char>)
    requires
        forall|i: int| 0 <= i < a.len() ==> #[trigger] a[i] == '"',
        forall|i: int| 0 <= i < b.len() ==> #[trigger] b[i] == '"',
        m.len() == 0 || (m[0] != '"' && m.last() != '"'),
    ensures
        unquoted(a + m + b) == m,
{
    lemma_cut_both_ends(a, m, b, |c: char| c == '"');
}

/// A text occurs in another exactly where the other is made of it and of what stands
/// before and behind it.
pub proof fn law_occurrence(before: Seq<char>, needle: Seq<char>, behind: Seq<char>, s: Seq<char>)
    ensures
        occurs(before + needle + behind, needle),
        occurs(s, needle) ==> exists|a: Seq<char>, b: Seq<char>| s == #[trigger] (a + needle + b),
{
    let whole = before + needle + behind;
    assert(whole.subrange(before.len() as int, (before.len() + needle.len()) as int) =~= needle);
    assert(occurs_at(whole, needle, before.len() as int));
    if occurs(s, needle) {
        let at = choose|at: int| occurs_at(s, needle, at);
        let a = s.take(at);
        let b = s.skip(at + needle.len());
        assert(s =~= a + s.subrange(at, at + needle.len()) + b);
        assert(s == a + needle + b);
    }
}

/// A prefix is taken off exactly where it stands in front, and gives what stands
/// behind it.
pub proof fn law_prefix(prefix: Seq<char>, rest: Seq<char>, s: Seq<char>)
    ensures
        has_prefix(prefix + rest, prefix),
        after_prefix(prefix + rest, prefix) == Some(rest),
        after_prefix(s, prefix) matches Some(r) ==> s == prefix + r,
        after_prefix(s, prefix) is Some <==> has_prefix(s, prefix),
        has_prefix(s, prefix) ==> s.len() >= prefix.len(),
{
    let whole = prefix + rest;
    assert(whole.subrange(0, prefix.len() as int) =~= prefix);
    assert(whole.skip(prefix.len() as int) =~= rest);
    if has_prefix(s, prefix) {
        assert(s =~= s.subrange(0, prefix.len() as int) + s.skip(prefix.len() as int));
    }
}

/// The pieces of a text that has no separator are that text.
pub proof fn law_split_of_one_piece(s: Seq<char>, sep: char)
    requires
        forall|i: int| 0 <= i < s.len() ==> #[trigger] s[i] != sep,
    ensures
        split_on(s, sep) == seq![s],
    decreases s.len(),
{
    if s.len() > 0 {
        let front = s.drop_last();
        assert forall|i: int| 0 <= i < front.len() implies #[trigger] front[i] != sep by {
            assert(front[i] == s[i]);
        }
        law_split_of_one_piece(front, sep);
        assert(s.last() == s[s.len() - 1]);
        assert(front.push(s.last()) =~= s);
        assert(split_on(s, sep) =~= seq![s]);
    } else {
        assert(s =~= Seq::<char>::empty());
        assert(split_on(s, sep) =~= seq![s]);
    }
}

/// There is always a piece.
proof fn lemma_split_has_a_piece(s: Seq<char>, sep: char)
    ensures
        split_on(s, sep).len() > 0,
    decreases s.len(),
{
    if s.len() > 0 {
        lemma_split_has_a_piece(s.drop_last(), sep);
    }
}

/// A separator parts the pieces before it from those behind it, and is in none of
/// them.
pub proof fn law_split_at_a_separator(a: Seq<char>, b: Seq<char>, sep: char)
    ensures
        split_on(a + seq![sep] + b, sep) == split_on(a, sep) + split_on(b, sep),
    decreases b.len(),
{
    let whole = a + seq![sep] + b;
    lemma_split_has_a_piece(a, sep);
    lemma_split_has_a_piece(b, sep);
    if b.len() == 0 {
        assert(whole.last() == sep);
        assert(whole.drop_last() =~= a);
        assert(split_on(whole, sep) =~= split_on(a, sep) + split_on(b, sep));
    } else {
        let front = b.drop_last();
        law_split_at_a_separator(a, front, sep);
        lemma_split_has_a_piece(front, sep);
        assert(whole.last() == b.last());
        assert(whole.drop_last() =~= a + seq![sep] + front);
        assert(split_on(whole, sep) =~= split_on(a, sep) + split_on(b, sep));
    }
}

/// The lines of a text come one by one: a line and its line break, with or without a
/// carriage return, are followed by the lines of the rest. A last line needs no line
/// break and then keeps a carriage return; an empty text has no lines.
pub proof fn law_lines(line: Seq<char>, rest: Seq<char>)
    requires
        forall|i: int| 0 <= i < line.len() ==> #[trigger] line[i] != '\n',
    ensures
        lines_of(Seq::<char>::empty()) == Seq::<Seq<char>>::empty(),
        line.len() > 0 ==> lines_of(line) == seq![line],
        lines_of(line + seq!['\r', '\n'] + rest) == seq![line] + lines_of(rest),
        line.len() == 0 || line.last() != '\r' ==> lines_of(line + seq!['\n'] + rest) == seq![line]
            + lines_of(rest),
{
    let e = Seq::<char>::empty();
    law_split_of_one_piece(e, '\n');
    assert(lines_of(e) =~= Seq::<Seq<char>>::empty());
    law_split_of_one_piece(line, '\n');
    lemma_split_has_a_piece(rest, '\n');
    if line.len() > 0 {
        assert(lines_of(line) =~= seq![line]);
    }
    let long = line.push('\r');
    assert forall|i: int| 0 <= i < long.len() implies #[trigger] long[i] != '\n' by {
        if i < line.len() {
            assert(long[i] == line[i]);
        }
    }
    law_split_of_one_piece(long, '\n');
    law_split_at_a_separator(long, rest, '\n');
    assert(line + seq!['\r', '\n'] + rest =~= long + seq!['\n'] + rest);
    let pieces = split_on(rest, '\n');
    assert((seq![long] + pieces).drop_last() =~= seq![long] + pieces.drop_last());
    assert((seq![long] + pieces).last() == pieces.last());
    assert(without_cr(long) =~= line);
    assert(lines_of(line + seq!['\r', '\n'] + rest) =~= seq![line] + lines_of(rest));
    if line.len() == 0 || line.last() != '\r' {
        law_split_at_a_separator(line, rest, '\n');
        assert((seq![line] + pieces).drop_last() =~= seq![line] + pieces.drop_last());
        assert((seq![line] + pieces).last() == pieces.last());
        assert(lines_of(line + seq!['\n'] + rest) =~= seq![line] + lines_of(rest));
    }
}

/// A text without white space is one word.
pub proof fn law_one_word(w: Seq<char>)
    requires
        w.len() > 0,
        forall|i: int| 0 <= i < w.len() ==> !is_white(#[trigger] w[i]),
    ensures
        words_of(w) == seq![w],
    decreases w.len(),
{
    let front = w.drop_last();
    assert(w.last() == w[w.len() - 1]);
    if w.len() > 1 {
        assert forall|i: int| 0 <= i < front.len() implies !is_white(#[trigger] front[i]) by {
            assert(front[i] == w[i]);
        }
        law_one_word(front);
        assert(!is_white(w[w.len() - 2]));
        assert(front.push(w.last()) =~= w);
        assert(words_of(w) =~= seq![w]);
    } else {
        assert(front =~= Seq::<char>::empty());
        assert(words_of(front) =~= Seq::<Seq<char>>::empty());
        assert(seq![w.last()] =~= w);
        assert(words_of(w) =~= seq![w]);
    }
}

/// White space parts the words before it from those behind it, and is in none of
/// them.
pub proof fn law_words_are_parted_by_white_space(a: Seq<char>, white: char, b: Seq<char>)
    requires
        is_white(white),
    ensures
        words_of(Seq::<char>::empty()) == Seq::<Seq<char>>::empty(),
        words_of(a + seq![white] + b) == words_of(a) + words_of(b),
    decreases b.len(),
{
    let whole = a + seq![white] + b;
    if b.len() == 0 {
        assert(whole.last() == white);
        assert(whole.drop_last() =~= a);
        assert(words_of(whole) =~= words_of(a) + words_of(b));
    } else {
        let front = b.drop_last();
        law_words_are_parted_by_white_space(a, white, front);
        assert(whole.last() == b.last());
        assert(whole.drop_last() =~= a + seq![white] + front);
        if b.len() == 1 {
            assert(whole[whole.len() - 2] == white);
        } else {
            assert(whole[whole.len() - 2] == b[b.len() - 2]);
            if !is_white(b.last()) && !is_white(b[b.len() - 2]) {
                lemma_last_word(front);
            }
        }
        assert(words_of(whole) =~= words_of(a) + words_of(b));
    }
}

/// A text that does not end in white space has a word.
proof fn lemma_last_word(s: Seq<char>)
    requires
        s.len() > 0,
        !is_white(s.last()),
    ensures
        words_of(s).len() > 0,
    decreases s.len(),
{
    if s.len() > 1 && !is_white(s[s.len() - 2]) {
        lemma_last_word(s.drop_last());
    }
}

/// Joining puts the separator between neighbours and nowhere else.
pub proof fn law_joining(a: Seq<Seq<char>>, b: Seq<Seq<char>>, part: Seq<char>, sep: Seq<char>)
    requires
        a.len() > 0,
        b.len() > 0,
    ensures
        joined(Seq::<Seq<char>>::empty(), sep) == Seq::<char>::empty(),
        joined(seq![part], sep) == part,
        joined(a + b, sep) == joined(a, sep) + sep + joined(b, sep),
    decreases b.len(),
{
    let whole = a + b;
    assert(whole.last() == b.last());
    assert(whole.drop_last() =~= a + b.drop_last());
    if b.len() == 1 {
        assert(whole.drop_last() =~= a);
        assert(joined(b, sep) == b.last());
    } else {
        law_joining(a, b.drop_last(), part, sep);
        assert(joined(whole, sep) =~= joined(a, sep) + sep + joined(b, sep));
    }
}

/// Splitting and joining undo each other: the pieces of a text, joined by the
/// separator, are the text.
pub proof fn law_split_then_join(s: Seq<char>, sep: char)
    ensures
        joined(split_on(s, sep), seq![sep]) == s,
    decreases s.len(),
{
    lemma_split_has_a_piece(s, sep);
    if s.len() > 0 {
        let front = split_on(s.drop_last(), sep);
        law_split_then_join(s.drop_last(), sep);
        lemma_split_has_a_piece(s.drop_last(), sep);
        let all = split_on(s, sep);
        if s.last() == sep {
            assert(all.drop_last() =~= front);
            assert(joined(all, seq![sep]) =~= s);
        } else {
            assert(all.drop_last() =~= front.drop_last());
            assert(all.last() == front.last().push(s.last()));
            assert(joined(all, seq![sep]) =~= joined(front, seq![sep]).push(s.last()));
            assert(s.drop_last().push(s.last()) =~= s);
        }
    } else {
        assert(joined(split_on(s, sep), seq![sep]) =~= s);
    }
}

/// A padded text starts with the text, is filled up with spaces to the width, and is
/// never cut.
pub proof fn law_padding(s: Seq<char>, width: nat, i: int)
    ensures
        padded(s, width).len() == if s.len() >= width {
            s.len()
        } else {
            width
        },
        0 <= i < s.len() ==> padded(s, width)[i] == s[i],
        s.len() <= i < width ==> padded(s, width)[i] == ' ',
{
}

/// Beyond ASCII, white space is the next line, the no-break spaces, the spaces of fixed
/// width, and the line and paragraph separators.
pub proof fn law_other_white_space(c: char)
    requires
        (c as u32) >= 0x80,
    ensures
        is_white(c) <==> ({
            let n = c as u32;
            n == 0x85 || n == 0xa0 || n == 0x1680 || (0x2000 <= n && n < 0x200b) || n == 0x2028 || n
                == 0x2029 || n == 0x202f || n == 0x205f || n == 0x3000
        }),
{
}

} // verus!
