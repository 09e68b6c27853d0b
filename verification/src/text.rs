//! Text as the bulb writes it: white space, lines, words and decimal numbers.
use vstd::prelude::*;
use vstd::utf8::{encode_utf8, encode_utf8_decode_utf8, is_ascii_chars};

verus! {

/// The characters that count as white space: those with the Unicode property `White_Space`.
pub open spec fn is_white(c: char) -> bool {
    ||| 0x09 <= c as u32 <= 0x0d
    ||| c as u32 == 0x20
    ||| c as u32 == 0x85
    ||| c as u32 == 0xa0
    ||| c as u32 == 0x1680
    ||| 0x2000 <= c as u32 <= 0x200a
    ||| c as u32 == 0x2028
    ||| c as u32 == 0x2029
    ||| c as u32 == 0x202f
    ||| c as u32 == 0x205f
    ||| c as u32 == 0x3000
}

/// How many characters of `s` come before the first one that satisfies `stop`; all of them,
/// if none does.
pub open spec fn until(s: Seq<char>, stop: spec_fn(char) -> bool) -> nat
    decreases s.len(),
{
    if s.len() == 0 || stop(s[0]) {
        0
    } else {
        1 + until(s.drop_first(), stop)
    }
}

/// Tells a character by being `sep`.
pub open spec fn is_char(sep: char) -> spec_fn(char) -> bool {
    |c: char| c == sep
}

/// `s` without the white space that it starts with.
pub open spec fn trim_start(s: Seq<char>) -> Seq<char> {
    s.skip(until(s, |c: char| !is_white(c)) as int)
}

/// `s` without the white space that it ends in.
pub open spec fn trim_end(s: Seq<char>) -> Seq<char>
    decreases s.len(),
{
    if s.len() > 0 && is_white(s.last()) {
        trim_end(s.drop_last())
    } else {
        s
    }
}

/// `s` without the white space around it.
pub open spec fn trimmed(s: Seq<char>) -> Seq<char> {
    trim_end(trim_start(s))
}

/// What stands before and after the first `sep` of `s`, if there is one.
pub open spec fn cut(s: Seq<char>, sep: char) -> Option<(Seq<char>, Seq<char>)> {
    let n = until(s, is_char(sep));
    if n < s.len() {
        Some((s.take(n as int), s.skip((n + 1) as int)))
    } else {
        None
    }
}

/// The lines of `s`: a line feed ends a line, and the last line needs none.
pub open spec fn lines_of(s: Seq<char>) -> Seq<Seq<char>>
    decreases s.len(),
{
    let n = until(s, is_char('\n'));
    if s.len() == 0 {
        Seq::empty()
    } else if n < s.len() {
        seq![s.take(n as int)] + lines_of(s.skip((n + 1) as int))
    } else {
        seq![s]
    }
}

/// The words of `s`: its longest runs of characters that are not white space.
pub open spec fn words_of(s: Seq<char>) -> Seq<Seq<char>>
    decreases s.len(),
{
    let rest = trim_start(s);
    let n = until(rest, |c: char| is_white(c));
    if rest.len() == 0 {
        Seq::empty()
    } else {
        proof {
            lemma_until(s, |c: char| !is_white(c));
            lemma_until(rest, |c: char| is_white(c));
        }
        seq![rest.take(n as int)] + words_of(rest.skip(n as int))
    }
}

/// What the decimal digits of `s` stand for.
pub open spec fn digits_value(s: Seq<char>) -> int
    decreases s.len(),
{
    if s.len() == 0 {
        0
    } else {
        10 * digits_value(s.drop_last()) + (s.last() as int - '0' as int)
    }
}

/// All characters of `s` are decimal digits.
pub open spec fn all_digits(s: Seq<char>) -> bool {
    forall|i: int| 0 <= i < s.len() ==> '0' <= #[trigger] s[i] <= '9'
}

/// The number that `s` writes, if it is one from 0 to `max`: an optional plus sign, then
/// decimal digits and nothing else.
pub open spec fn unsigned_value(s: Seq<char>, max: int) -> Option<int> {
    let digits = if s.len() > 0 && s[0] == '+' {
        s.drop_first()
    } else {
        s
    };
    if digits.len() > 0 && all_digits(digits) && digits_value(digits) <= max {
        Some(digits_value(digits))
    } else {
        None
    }
}

/// `n` in decimal, without leading zeros.
pub open spec fn decimal(n: nat) -> Seq<char>
    decreases n,
{
    if n < 10 {
        seq![('0' as int + n) as char]
    } else {
        decimal(n / 10).push(('0' as int + n % 10) as char)
    }
}

/// What `until` counts, said without recursion.
pub proof fn lemma_until(s: Seq<char>, stop: spec_fn(char) -> bool)
    ensures
        until(s, stop) <= s.len(),
        forall|i: int| 0 <= i < until(s, stop) ==> !stop(#[trigger] s[i]),
        until(s, stop) < s.len() ==> stop(s[until(s, stop) as int]),
    decreases s.len(),
{
    if s.len() > 0 && !stop(s[0]) {
        let tail = s.drop_first();
        lemma_until(tail, stop);
        assert forall|i: int| 0 <= i < until(s, stop) implies !stop(#[trigger] s[i]) by {
            if i > 0 {
                assert(s[i] == tail[i - 1]);
            }
        }
    }
}

/// `until` is the only count that stops where it says.
proof fn lemma_until_is(s: Seq<char>, stop: spec_fn(char) -> bool, n: int)
    requires
        0 <= n <= s.len(),
        forall|i: int| 0 <= i < n ==> !stop(#[trigger] s[i]),
        n < s.len() ==> stop(s[n]),
    ensures
        until(s, stop) == n,
{
    lemma_until(s, stop);
    let m = until(s, stop) as int;
    if m < n {
        assert(!stop(s[m]));
    }
    if n < m {
        assert(!stop(s[n]));
    }
}

/// The characters of `s`, one by one.
pub fn chars_of(s: &str) -> (chars: Vec<char>)
    ensures
        chars@ == s@,
{
    let mut chars: Vec<char> = Vec::new();
    for c in it: s.chars()
        invariant
            chars@ == it.seq().take(it.index()),
            it.seq() == s@,
    {
        chars.push(c);
    }
    chars
}

/// Tells whether two texts are the same, character for character.
pub fn same_text(a: &str, b: &str) -> (same: bool)
    ensures
        same == (a@ == b@),
{
    let x = a.as_bytes();
    let y = b.as_bytes();
    proof {
        encode_utf8_decode_utf8(a@);
        encode_utf8_decode_utf8(b@);
    }
    if x.len() != y.len() {
        return false;
    }
    for i in 0..x.len()
        invariant
            x@ == encode_utf8(a@),
            y@ == encode_utf8(b@),
            x@.len() == y@.len(),
            x@.take(i as int) == y@.take(i as int),
    {
        if x[i] != y[i] {
            return false;
        }
        assert(x@.take(i + 1) =~= x@.take(i as int).push(x[i as int]));
        assert(y@.take(i + 1) =~= y@.take(i as int).push(y[i as int]));
    }
    assert(x@ =~= x@.take(x@.len() as int));
    assert(y@ =~= y@.take(y@.len() as int));
    true
}

/// Tells whether `c` is white space.
pub fn is_whitespace(c: char) -> (white: bool)
    ensures
        white == is_white(c),
{
    let n: u32 = c as u32;
    (0x09 <= n && n <= 0x0d) || n == 0x20 || n == 0x85 || n == 0xa0 || n == 0x1680 || (0x2000 <= n
        && n <= 0x200a) || n == 0x2028 || n == 0x2029 || n == 0x202f || n == 0x205f || n == 0x3000
}

/// `s` without the white space around it.
pub fn trim(s: &str) -> (r: &str)
    ensures
        r@ == trimmed(s@),
{
    let chars = chars_of(s);
    let mut start: usize = 0;
    while start < chars.len() && is_whitespace(chars[start])
        invariant
            0 <= start <= chars@.len(),
            forall|i: int| 0 <= i < start ==> is_white(#[trigger] chars@[i]),
        decreases chars.len() - start,
    {
        start = start + 1;
    }
    proof {
        lemma_until_is(s@, |c: char| !is_white(c), start as int);
    }
    let mut end: usize = chars.len();
    assert(s@.skip(start as int) =~= s@.subrange(start as int, end as int));
    while start < end && is_whitespace(chars[end - 1])
        invariant
            start <= end <= chars@.len(),
            chars@ == s@,
            trim_end(s@.subrange(start as int, end as int)) == trimmed(s@),
        decreases end,
    {
        assert(s@.subrange(start as int, end as int).drop_last() =~= s@.subrange(
            start as int,
            end - 1,
        ));
        end = end - 1;
    }
    s.substring_char(start, end)
}

/// Splits `s` at its first `sep`, which goes with neither part.
pub fn split_once(s: &str, sep: char) -> (r: Option<(&str, &str)>)
    ensures
        match r {
            Some((before, after)) => cut(s@, sep) == Some((before@, after@)),
            None => cut(s@, sep) is None,
        },
{
    let chars = chars_of(s);
    let mut n: usize = 0;
    while n < chars.len() && chars[n] != sep
        invariant
            0 <= n <= chars@.len(),
            forall|i: int| 0 <= i < n ==> #[trigger] chars@[i] != sep,
        decreases chars.len() - n,
    {
        n = n + 1;
    }
    proof {
        lemma_until_is(s@, is_char(sep), n as int);
    }
    if n < chars.len() {
        let before = s.substring_char(0, n);
        let after = s.substring_char(n + 1, chars.len());
        assert(before@ =~= s@.take(n as int));
        assert(after@ =~= s@.skip(n + 1));
        Some((before, after))
    } else {
        None
    }
}

/// The texts that a vector of slices holds.
pub open spec fn slices_view(slices: Seq<&str>) -> Seq<Seq<char>> {
    slices.map_values(|slice: &str| slice@)
}

/// The texts that a vector of strings holds.
pub open spec fn strings_view(strings: Seq<String>) -> Seq<Seq<char>> {
    strings.map_values(|string: String| string@)
}

/// The lines of `s`, without the line feeds that end them.
pub fn lines(s: &str) -> (r: Vec<&str>)
    ensures
        slices_view(r@) == lines_of(s@),
{
    let chars = chars_of(s);
    let mut out: Vec<&str> = Vec::new();
    let mut pos: usize = 0;
    assert(s@.skip(0) =~= s@);
    assert(slices_view(out@) + lines_of(s@) =~= lines_of(s@));
    while pos < chars.len()
        invariant
            0 <= pos <= chars@.len(),
            chars@ == s@,
            slices_view(out@) + lines_of(s@.skip(pos as int)) == lines_of(s@),
        decreases chars.len() - pos,
    {
        let mut end: usize = pos;
        while end < chars.len() && chars[end] != '\n'
            invariant
                pos <= end <= chars@.len(),
                forall|i: int| pos <= i < end ==> #[trigger] chars@[i] != '\n',
            decreases chars.len() - end,
        {
            end = end + 1;
        }
        let line = s.substring_char(pos, end);
        let ghost rest = s@.skip(pos as int);
        let ghost before = out@;
        proof {
            assert forall|i: int| 0 <= i < end - pos implies #[trigger] rest[i] != '\n' by {
                assert(rest[i] == chars@[pos + i]);
            }
            lemma_until_is(rest, is_char('\n'), end - pos);
            assert(line@ =~= rest.take(end - pos));
        }
        out.push(line);
        assert(slices_view(out@) =~= slices_view(before).push(line@));
        if end < chars.len() {
            assert(rest.skip(end - pos + 1) =~= s@.skip(end + 1));
            assert(lines_of(rest) == seq![line@] + lines_of(s@.skip(end + 1)));
            assert(slices_view(out@) + lines_of(s@.skip(end + 1)) =~= slices_view(before)
                + lines_of(rest));
            pos = end + 1;
        } else {
            assert(rest =~= line@);
            assert(lines_of(rest) == seq![line@]);
            assert(lines_of(s@.skip(end as int)) =~= Seq::<Seq<char>>::empty());
            assert(slices_view(out@) + lines_of(s@.skip(end as int)) =~= slices_view(before)
                + lines_of(rest));
            pos = end;
        }
    }
    assert(lines_of(s@.skip(pos as int)) =~= Seq::<Seq<char>>::empty());
    assert(slices_view(out@) + Seq::<Seq<char>>::empty() =~= slices_view(out@));
    out
}

/// The words of `s`, which white space separates.
pub fn words(s: &str) -> (r: Vec<String>)
    ensures
        strings_view(r@) == words_of(s@),
{
    let chars = chars_of(s);
    let mut out: Vec<String> = Vec::new();
    let mut pos: usize = 0;
    assert(s@.skip(0) =~= s@);
    assert(strings_view(out@) + words_of(s@) =~= words_of(s@));
    while pos < chars.len()
        invariant
            0 <= pos <= chars@.len(),
            chars@ == s@,
            strings_view(out@) + words_of(s@.skip(pos as int)) == words_of(s@),
        decreases chars.len() - pos,
    {
        let ghost rest = s@.skip(pos as int);
        let mut start: usize = pos;
        while start < chars.len() && is_whitespace(chars[start])
            invariant
                pos <= start <= chars@.len(),
                forall|i: int| pos <= i < start ==> is_white(#[trigger] chars@[i]),
            decreases chars.len() - start,
        {
            start = start + 1;
        }
        proof {
            assert forall|i: int| 0 <= i < start - pos implies is_white(#[trigger] rest[i]) by {
                assert(rest[i] == chars@[pos + i]);
            }
            lemma_until_is(rest, |c: char| !is_white(c), start - pos);
            assert(trim_start(rest) =~= s@.skip(start as int));
        }
        let ghost word_on = s@.skip(start as int);
        if start == chars.len() {
            assert(words_of(rest) =~= Seq::<Seq<char>>::empty());
            assert(trim_start(word_on) =~= Seq::<char>::empty()) by {
                lemma_until(word_on, |c: char| !is_white(c));
            }
            assert(words_of(word_on) =~= Seq::<Seq<char>>::empty());
            pos = start;
        } else {
            let mut end: usize = start;
            while end < chars.len() && !is_whitespace(chars[end])
                invariant
                    start <= end <= chars@.len(),
                    forall|i: int| start <= i < end ==> !is_white(#[trigger] chars@[i]),
                decreases chars.len() - end,
            {
                end = end + 1;
            }
            let word = s.substring_char(start, end).to_owned();
            let ghost before = out@;
            proof {
                assert forall|i: int| 0 <= i < end - start implies !is_white(
                    #[trigger] word_on[i],
                ) by {
                    assert(word_on[i] == chars@[start + i]);
                }
                lemma_until_is(word_on, |c: char| is_white(c), end - start);
                assert(word@ =~= word_on.take(end - start));
                assert(word_on.skip(end - start) =~= s@.skip(end as int));
                assert(words_of(rest) == seq![word@] + words_of(s@.skip(end as int)));
            }
            out.push(word);
            assert(strings_view(out@) =~= strings_view(before).push(word@));
            assert(strings_view(out@) + words_of(s@.skip(end as int)) =~= strings_view(before)
                + words_of(rest));
            pos = end;
        }
    }
    assert(s@.skip(pos as int) =~= Seq::<char>::empty());
    assert(trim_start(Seq::<char>::empty()) =~= Seq::<char>::empty());
    assert(words_of(Seq::<char>::empty()) =~= Seq::<Seq<char>>::empty());
    assert(strings_view(out@) + Seq::<Seq<char>>::empty() =~= strings_view(out@));
    out
}

/// What follows `prefix` in `s`, if `s` starts with it.
pub open spec fn after_prefix(s: Seq<char>, prefix: Seq<char>) -> Option<Seq<char>> {
    if prefix.is_prefix_of(s) {
        Some(s.skip(prefix.len() as int))
    } else {
        None
    }
}

/// What follows `prefix` in `s`, if `s` starts with it.
pub fn strip_prefix<'a>(s: &'a str, prefix: &str) -> (r: Option<&'a str>)
    ensures
        match r {
            Some(rest) => after_prefix(s@, prefix@) == Some(rest@),
            None => after_prefix(s@, prefix@) is None,
        },
{
    let len = s.unicode_len();
    let n = prefix.unicode_len();
    if len < n {
        return None;
    }
    let head = s.substring_char(0, n);
    if same_text(head, prefix) {
        let rest = s.substring_char(n, len);
        assert(rest@ =~= s@.skip(n as int));
        Some(rest)
    } else {
        None
    }
}

/// More digits never make a smaller number.
proof fn lemma_digits_grow(s: Seq<char>, n: int)
    requires
        0 <= n <= s.len(),
        all_digits(s),
    ensures
        0 <= digits_value(s.take(n)) <= digits_value(s),
    decreases s.len(),
{
    if n < s.len() {
        assert(s.drop_last().take(n) =~= s.take(n));
        lemma_digits_grow(s.drop_last(), n);
    } else if n > 0 {
        assert(s.take(n) =~= s);
        assert(s.drop_last().take(n - 1) =~= s.drop_last());
        lemma_digits_grow(s.drop_last(), n - 1);
    }
}

/// Reads `s` as a number from 0 to `max`.
pub fn parse_unsigned(s: &str, max: u32) -> (r: Option<u32>)
    ensures
        match r {
            Some(n) => unsigned_value(s@, max as int) == Some(n as int),
            None => unsigned_value(s@, max as int) is None,
        },
{
    let chars = chars_of(s);
    let first: usize = if chars.len() > 0 && chars[0] == '+' {
        1
    } else {
        0
    };
    let ghost digits = s@.skip(first as int);
    assert(digits =~= if s@.len() > 0 && s@[0] == '+' {
        s@.drop_first()
    } else {
        s@
    });
    if first == chars.len() {
        return None;
    }
    let mut value: u64 = 0;
    let mut i: usize = first;
    while i < chars.len()
        invariant
            first <= i <= chars@.len(),
            chars@ == s@,
            digits == s@.skip(first as int),
            digits.len() > 0,
            digits == if s@.len() > 0 && s@[0] == '+' {
                s@.drop_first()
            } else {
                s@
            },
            all_digits(digits.take(i - first)),
            0 <= value <= max,
            value == digits_value(digits.take(i - first)),
        decreases chars.len() - i,
    {
        let c = chars[i];
        assert(c == digits[i - first]);
        if c < '0' || c > '9' {
            return None;
        }
        let ghost head = digits.take(i - first + 1);
        assert(head.drop_last() =~= digits.take(i - first));
        assert(all_digits(head)) by {
            assert forall|j: int| 0 <= j < head.len() implies '0' <= #[trigger] head[j]
                <= '9' by {
                if j < i - first {
                    assert(head[j] == digits.take(i - first)[j]);
                }
            }
        }
        value = 10 * value + (c as u64 - '0' as u64);
        if value > max as u64 {
            proof {
                if all_digits(digits) {
                    lemma_digits_grow(digits, i - first + 1);
                }
            }
            return None;
        }
        i = i + 1;
    }
    assert(digits.take(i - first) =~= digits);
    Some(value as u32)
}

/// What is written in decimal reads back as the same number.
pub proof fn lemma_decimal_reads_back(n: nat, max: int)
    requires
        n <= max,
    ensures
        unsigned_value(decimal(n), max) == Some(n as int),
{
    lemma_decimal_digits(n);
    assert('0' <= decimal(n)[0] <= '9');
}

/// `decimal` writes digits only, at least one, and they stand for the number.
proof fn lemma_decimal_digits(n: nat)
    ensures
        decimal(n).len() > 0,
        all_digits(decimal(n)),
        digits_value(decimal(n)) == n,
    decreases n,
{
    reveal_with_fuel(digits_value, 2);
    if n >= 10 {
        lemma_decimal_digits(n / 10);
        let head = decimal(n / 10);
        assert(decimal(n).drop_last() =~= head);
        assert forall|i: int| 0 <= i < decimal(n).len() implies '0' <= #[trigger] decimal(n)[i]
            <= '9' by {
            if i < head.len() {
                assert(decimal(n)[i] == head[i]);
            }
        }
    } else {
        assert(decimal(n).drop_last() =~= Seq::<char>::empty());
    }
}

/// The lower case letter that belongs to an ASCII capital; any other character as it is.
pub open spec fn ascii_lower(c: char) -> char {
    if 'A' <= c <= 'Z' {
        (c as int + 32) as char
    } else {
        c
    }
}

/// What `str::to_lowercase` makes of a text that is not ASCII.
pub uninterp spec fn lowercase(text: Seq<char>) -> Seq<char>;

/// `text` in lower case.
pub open spec fn lowered(text: Seq<char>) -> Seq<char> {
    if is_ascii_chars(text) {
        text.map_values(|c: char| ascii_lower(c))
    } else {
        lowercase(text)
    }
}

/// Calls `str::to_lowercase`, which puts every character in lower case after the rules of
/// Unicode: of ASCII text it changes the capitals to the small letters and nothing else, and
/// what it makes of other text depends on that text alone.
#[verifier::external_body]
pub(crate) fn to_lowercase(s: &str) -> (r: String)
    ensures
        is_ascii_chars(s@) ==> r@ == s@.map_values(|c: char| ascii_lower(c)),
        !is_ascii_chars(s@) ==> r@ == lowercase(s@),
{
    s.to_lowercase()
}

/// The text of an optional string.
pub open spec fn opt_view(text: Option<String>) -> Option<Seq<char>> {
    match text {
        Some(text) => Some(text@),
        None => None,
    }
}

/// The text of an optional slice.
pub open spec fn opt_str_view(text: Option<&str>) -> Option<Seq<char>> {
    match text {
        Some(text) => Some(text@),
        None => None,
    }
}

/// An optional slice as an optional string of its own.
pub fn opt_to_owned(text: Option<&str>) -> (r: Option<String>)
    ensures
        opt_view(r) == opt_str_view(text),
{
    match text {
        Some(text) => Some(text.to_owned()),
        None => None,
    }
}

/// A copy of an optional string.
pub fn opt_clone(text: &Option<String>) -> (r: Option<String>)
    ensures
        opt_view(r) == opt_view(*text),
{
    match text {
        Some(text) => Some(text.clone()),
        None => None,
    }
}

/// A copy of each of some strings.
pub fn strings_clone(strings: &Vec<String>) -> (r: Vec<String>)
    ensures
        strings_view(r@) == strings_view(strings@),
{
    let mut out: Vec<String> = Vec::new();
    for i in 0..strings.len()
        invariant
            out@.len() == i,
            forall|j: int| 0 <= j < i ==> (#[trigger] out@[j])@ == strings@[j]@,
    {
        out.push(strings[i].clone());
    }
    assert(strings_view(out@) =~= strings_view(strings@));
    out
}

/// All characters of `s` are white space.
pub open spec fn all_white(s: Seq<char>) -> bool {
    forall|i: int| 0 <= i < s.len() ==> is_white(#[trigger] s[i])
}

/// No character of `s` is white space.
pub open spec fn none_white(s: Seq<char>) -> bool {
    forall|i: int| 0 <= i < s.len() ==> !is_white(#[trigger] s[i])
}

/// `s` neither starts nor ends with white space.
pub open spec fn is_tight(s: Seq<char>) -> bool {
    s.len() > 0 ==> !is_white(s[0]) && !is_white(s[s.len() - 1])
}

/// White space at the end is taken off.
proof fn lemma_trim_end(core: Seq<char>, after: Seq<char>)
    requires
        core.len() > 0 ==> !is_white(core[core.len() - 1]),
        all_white(after),
    ensures
        trim_end(core + after) == core,
    decreases after.len(),
{
    if after.len() == 0 {
        assert(core + after =~= core);
    } else {
        assert((core + after).drop_last() =~= core + after.drop_last());
        assert(is_white(after[after.len() - 1]));
        lemma_trim_end(core, after.drop_last());
    }
}

/// Whatever white space stands around a text, trimming takes off all of it and nothing else.
pub proof fn lemma_trimmed_core(before: Seq<char>, core: Seq<char>, after: Seq<char>)
    requires
        all_white(before),
        is_tight(core),
        all_white(after),
    ensures
        trimmed(before + core + after) == core,
{
    let s = before + core + after;
    if core.len() == 0 {
        assert forall|i: int| 0 <= i < s.len() implies is_white(#[trigger] s[i]) by {
            if i < before.len() {
                assert(s[i] == before[i]);
            } else {
                assert(s[i] == after[i - before.len()]);
            }
        }
        lemma_until_is(s, |c: char| !is_white(c), s.len() as int);
        assert(trim_start(s) =~= Seq::<char>::empty());
        assert(core =~= Seq::<char>::empty());
    } else {
        assert(s[before.len() as int] == core[0]);
        assert forall|i: int| 0 <= i < before.len() implies is_white(#[trigger] s[i]) by {
            assert(s[i] == before[i]);
        }
        lemma_until_is(s, |c: char| !is_white(c), before.len() as int);
        assert(trim_start(s) =~= core + after);
        lemma_trim_end(core, after);
    }
}

/// A text is cut at the first separator, whatever follows it.
pub proof fn lemma_cut(before: Seq<char>, sep: char, after: Seq<char>)
    requires
        !before.contains(sep),
    ensures
        cut(before + seq![sep] + after, sep) == Some((before, after)),
{
    let s = before + seq![sep] + after;
    assert forall|i: int| 0 <= i < before.len() implies #[trigger] s[i] != sep by {
        assert(s[i] == before[i]);
    }
    assert(s[before.len() as int] == sep);
    lemma_until_is(s, is_char(sep), before.len() as int);
    assert(s.take(before.len() as int) =~= before);
    assert(s.skip((before.len() + 1) as int) =~= after);
}

/// A text without the separator is not cut.
pub proof fn lemma_no_cut(s: Seq<char>, sep: char)
    requires
        !s.contains(sep),
    ensures
        cut(s, sep) is None,
{
    lemma_until_is(s, is_char(sep), s.len() as int);
}

/// The first line feed ends the first line, and the other lines are those of the rest.
pub proof fn lemma_first_line(line: Seq<char>, rest: Seq<char>)
    requires
        !line.contains('\n'),
    ensures
        lines_of(line + seq!['\n'] + rest) == seq![line] + lines_of(rest),
{
    let s = line + seq!['\n'] + rest;
    assert forall|i: int| 0 <= i < line.len() implies #[trigger] s[i] != '\n' by {
        assert(s[i] == line[i]);
    }
    assert(s[line.len() as int] == '\n');
    lemma_until_is(s, is_char('\n'), line.len() as int);
    assert(s.take(line.len() as int) =~= line);
    assert(s.skip((line.len() + 1) as int) =~= rest);
}

/// A text without a line feed is one line, or none if it is empty.
pub proof fn lemma_last_line(line: Seq<char>)
    requires
        !line.contains('\n'),
    ensures
        lines_of(line) == if line.len() == 0 {
            Seq::<Seq<char>>::empty()
        } else {
            seq![line]
        },
{
    lemma_until_is(line, is_char('\n'), line.len() as int);
}

/// The first word follows the white space at the start and ends where white space follows, and
/// the other words are those of the rest.
pub proof fn lemma_first_word(gap: Seq<char>, word: Seq<char>, rest: Seq<char>)
    requires
        all_white(gap),
        word.len() > 0,
        none_white(word),
        rest.len() > 0 ==> is_white(rest[0]),
    ensures
        words_of(gap + word + rest) == seq![word] + words_of(rest),
{
    let s = gap + word + rest;
    let tail = word + rest;
    assert forall|i: int| 0 <= i < gap.len() implies is_white(#[trigger] s[i]) by {
        assert(s[i] == gap[i]);
    }
    assert(s[gap.len() as int] == word[0]);
    lemma_until_is(s, |c: char| !is_white(c), gap.len() as int);
    assert(trim_start(s) =~= tail);
    assert forall|i: int| 0 <= i < word.len() implies !is_white(#[trigger] tail[i]) by {
        assert(tail[i] == word[i]);
    }
    if rest.len() > 0 {
        assert(tail[word.len() as int] == rest[0]);
    }
    lemma_until_is(tail, |c: char| is_white(c), word.len() as int);
    assert(tail.take(word.len() as int) =~= word);
    assert(tail.skip(word.len() as int) =~= rest);
}

/// White space alone holds no word.
pub proof fn lemma_no_words(gap: Seq<char>)
    requires
        all_white(gap),
    ensures
        words_of(gap) == Seq::<Seq<char>>::empty(),
{
    lemma_until_is(gap, |c: char| !is_white(c), gap.len() as int);
    assert(trim_start(gap) =~= Seq::<char>::empty());
}

/// A prefix and what follows it make up the whole text.
pub proof fn lemma_after_prefix(s: Seq<char>, prefix: Seq<char>, rest: Seq<char>)
    ensures
        after_prefix(s, prefix) == Some(rest) <==> s == prefix + rest,
{
    if prefix.is_prefix_of(s) {
        assert(s =~= prefix + s.skip(prefix.len() as int));
    }
    if s == prefix + rest {
        assert(prefix =~= s.subrange(0, prefix.len() as int));
        assert(s.skip(prefix.len() as int) =~= rest);
    }
}

/// `n` zeros.
pub open spec fn zeros(n: nat) -> Seq<char> {
    Seq::new(n, |i: int| '0')
}

/// `text` is a way to write the number `n`: a plus sign or none, any number of zeros, and then
/// the number without leading zeros.
pub open spec fn writes_number(text: Seq<char>, n: nat) -> bool {
    exists|z: nat| text == #[trigger] zeros(z) + decimal(n) || text == seq!['+'] + (zeros(z)
        + decimal(n))
}

/// Leading zeros do not count.
proof fn lemma_leading_zeros(z: nat, digits: Seq<char>)
    ensures
        digits_value(zeros(z) + digits) == digits_value(digits),
    decreases z + digits.len(),
{
    let s = zeros(z) + digits;
    if digits.len() > 0 {
        assert(s.drop_last() =~= zeros(z) + digits.drop_last());
        lemma_leading_zeros(z, digits.drop_last());
    } else if z > 0 {
        assert(s.drop_last() =~= zeros((z - 1) as nat) + digits);
        lemma_leading_zeros((z - 1) as nat, digits);
    }
}

/// Digits are zeros and then the number that they stand for, without leading zeros.
proof fn lemma_digits_shape(digits: Seq<char>) -> (z: nat)
    requires
        digits.len() > 0,
        all_digits(digits),
    ensures
        digits_value(digits) >= 0,
        digits == zeros(z) + decimal(digits_value(digits) as nat),
    decreases digits.len(),
{
    reveal_with_fuel(digits_value, 2);
    let n = digits_value(digits);
    let head = digits.drop_last();
    assert('0' <= digits[digits.len() - 1] <= '9');
    if digits.len() == 1 {
        assert(digits =~= zeros(0) + decimal(n as nat));
        0
    } else {
        assert forall|i: int| 0 <= i < head.len() implies '0' <= #[trigger] head[i] <= '9' by {
            assert(head[i] == digits[i]);
        }
        let z = lemma_digits_shape(head);
        let m = digits_value(head);
        let last = digits.last();
        assert(digits =~= head.push(last));
        assert(n == 10 * m + (last as int - '0' as int));
        if m == 0 {
            assert(decimal(0) =~= seq!['0']);
            assert(head =~= zeros(z + 1));
            assert(decimal(n as nat) =~= seq![last]);
            assert(digits =~= zeros(z + 1) + decimal(n as nat));
            z + 1
        } else {
            assert(n / 10 == m && n % 10 == last as int - '0' as int);
            assert(decimal(n as nat) =~= decimal(m as nat).push(last));
            assert(digits =~= zeros(z) + decimal(n as nat));
            z
        }
    }
}

/// Exactly the ways to write a number up to `max` are read as that number.
pub proof fn lemma_number_text(text: Seq<char>, max: int, n: nat)
    ensures
        unsigned_value(text, max) == Some(n as int) <==> n <= max && writes_number(text, n),
{
    let digits = if text.len() > 0 && text[0] == '+' {
        text.drop_first()
    } else {
        text
    };
    if unsigned_value(text, max) == Some(n as int) {
        let z = lemma_digits_shape(digits);
        if text.len() > 0 && text[0] == '+' {
            assert(text =~= seq!['+'] + digits);
        }
        assert(zeros(z) + decimal(n) == digits);
    }
    if n <= max && writes_number(text, n) {
        let z = choose|z: nat| text == #[trigger] zeros(z) + decimal(n) || text == seq!['+'] + (
        zeros(z) + decimal(n));
        let body = zeros(z) + decimal(n);
        lemma_decimal_digits(n);
        lemma_leading_zeros(z, decimal(n));
        assert(all_digits(body)) by {
            assert forall|i: int| 0 <= i < body.len() implies '0' <= #[trigger] body[i] <= '9' by {
                if i >= z {
                    assert(body[i] == decimal(n)[i - z]);
                }
            }
        }
        assert('0' <= body[0] <= '9');
        assert((seq!['+'] + body).drop_first() =~= body);
        assert((seq!['+'] + body)[0] == '+');
    }
}

/// A text writes no two numbers, so that what is read is never in doubt.
pub proof fn lemma_number_is_one(text: Seq<char>, m: nat, n: nat)
    requires
        writes_number(text, m),
        writes_number(text, n),
    ensures
        m == n,
{
    let max = if m < n {
        n
    } else {
        m
    };
    lemma_number_text(text, max as int, m);
    lemma_number_text(text, max as int, n);
}

/// Text in ASCII without capitals is in lower case.
pub proof fn lemma_lowered(text: Seq<char>)
    requires
        is_ascii_chars(text),
        forall|i: int| 0 <= i < text.len() ==> !('A' <= #[trigger] text[i] <= 'Z'),
    ensures
        lowered(text) == text,
{
    assert(text.map_values(|c: char| ascii_lower(c)) =~= text);
}

/// Texts in ASCII that differ in case only are the same in lower case.
pub proof fn lemma_case_is_free(a: Seq<char>, b: Seq<char>)
    requires
        is_ascii_chars(a),
        is_ascii_chars(b),
        a.len() == b.len(),
        forall|i: int|
            0 <= i < a.len() ==> #[trigger] a[i] == b[i] || ('A' <= a[i] <= 'Z' && b[i] as int
                == a[i] as int + 32),
    ensures
        lowered(a) == lowered(b),
{
    assert(a.map_values(|c: char| ascii_lower(c)) =~= b.map_values(|c: char| ascii_lower(c)));
}

/// What is read as a number is not negative.
pub(crate) proof fn lemma_value_is_natural(text: Seq<char>, max: int)
    ensures
        unsigned_value(text, max) matches Some(n) ==> 0 <= n <= max,
{
    let digits = if text.len() > 0 && text[0] == '+' {
        text.drop_first()
    } else {
        text
    };
    if digits.len() > 0 && all_digits(digits) {
        let z = lemma_digits_shape(digits);
    }
}

/// A number in decimal is digits, at least one.
pub(crate) proof fn lemma_digits_only(n: nat)
    ensures
        decimal(n).len() > 0,
        all_digits(decimal(n)),
{
    lemma_decimal_digits(n);
}

/// Among the ASCII characters, white space is the space and the controls from tab to carriage
/// return.
pub proof fn lemma_white(c: char)
    requires
        (c as u32) < 0x80,
    ensures
        is_white(c) <==> c == ' ' || c == '\t' || c == '\n' || c == '\r' || c as u32 == 0x0b
            || c as u32 == 0x0c,
{
}

} // verus!
