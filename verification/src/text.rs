//! Text helpers: characters, words, lines and decimal numbers, with the
//! mathematical functions the other modules state their messages in.

use vstd::prelude::*;

verus! {

/// `String::push` appends the given character at the end of the string.
pub assume_specification[ String::push ](s: &mut String, c: char)
    ensures
        final(s)@ == old(s)@.push(c),
;

/// What `{:?}` prints for a string: the text in double quotes, with the
/// escapes that std chooses for the characters inside.
pub uninterp spec fn debug_quoted(text: Seq<char>) -> Seq<char>;

/// `format!("{text:?}")` of std: the debug form of `text`, named
/// [`debug_quoted`]. Which characters are escaped is not stated.
#[verifier::external_body]
pub(crate) fn quote_for_debug(text: &str) -> (quoted: String)
    ensures
        quoted@ == debug_quoted(text@),
{
    format!("{text:?}")
}

/// `label: detail`, the shape of every error that wraps another one.
pub open spec fn in_context(label: Seq<char>, detail: Seq<char>) -> Seq<char> {
    label + ": "@ + detail
}

/// Prefixes an error text with the step it came from.
pub fn context(label: &str, detail: &str) -> (text: String)
    ensures
        text@ == in_context(label@, detail@),
{
    let mut text = label.to_owned();
    text.append(": ");
    text.append(detail);
    text
}

/// The characters of a string.
pub fn chars_of(s: &str) -> (chars: Vec<char>)
    ensures
        chars@ == s@,
{
    let mut chars: Vec<char> = Vec::new();
    for c in it: s.chars()
        invariant
            it.seq() == s@,
            chars@ == it.seq().take(it.index()),
    {
        chars.push(c);
        assert(chars@ =~= it.seq().take(it.index() + 1));
    }
    assert(chars@ =~= s@);
    chars
}

/// Whether two texts are the same.
pub fn same_text(a: &str, b: &str) -> (same: bool)
    ensures
        same == (a@ == b@),
{
    let x = chars_of(a);
    let y = chars_of(b);
    if x.len() != y.len() {
        return false;
    }
    for i in 0..x.len()
        invariant
            x.len() == y.len(),
            x@ == a@,
            y@ == b@,
            forall|j: int| 0 <= j < i ==> x@[j] == y@[j],
    {
        if x[i] != y[i] {
            assert(a@[i as int] != b@[i as int]);
            return false;
        }
    }
    assert(x@ =~= y@);
    true
}

/// The string made of the given characters.
pub fn string_of(chars: &Vec<char>) -> (s: String)
    ensures
        s@ == chars@,
{
    let mut s = String::new();
    for i in 0..chars.len()
        invariant
            s@ == chars@.take(i as int),
    {
        s.push(chars[i]);
        assert(s@ =~= chars@.take(i + 1));
    }
    assert(s@ =~= chars@);
    s
}

/// The characters `from..to` of a text.
pub fn slice_of(chars: &Vec<char>, from: usize, to: usize) -> (part: Vec<char>)
    requires
        from <= to <= chars.len(),
    ensures
        part@ == chars@.subrange(from as int, to as int),
{
    let mut part: Vec<char> = Vec::new();
    for i in from..to
        invariant
            from <= i <= to <= chars.len(),
            part@ == chars@.subrange(from as int, i as int),
    {
        part.push(chars[i]);
        assert(part@ =~= chars@.subrange(from as int, i + 1));
    }
    part
}

/// Unicode's `White_Space` property.
pub open spec fn is_white(c: char) -> bool {
    let u = c as u32;
    ||| 0x09 <= u <= 0x0d
    ||| u == 0x20
    ||| u == 0x85
    ||| u == 0xa0
    ||| u == 0x1680
    ||| 0x2000 <= u <= 0x200a
    ||| u == 0x2028
    ||| u == 0x2029
    ||| u == 0x202f
    ||| u == 0x205f
    ||| u == 0x3000
}

/// Whether a character is white space.
pub fn white(c: char) -> (yes: bool)
    ensures
        yes == is_white(c),
{
    let u: u32 = c as u32;
    (0x09 <= u && u <= 0x0d) || u == 0x20 || u == 0x85 || u == 0xa0 || u == 0x1680 || (0x2000 <= u
        && u <= 0x200a) || u == 0x2028 || u == 0x2029 || u == 0x202f || u == 0x205f || u == 0x3000
}

/// How many white-space characters a text starts with.
pub open spec fn indent_len(s: Seq<char>) -> nat
    decreases s.len(),
{
    if s.len() == 0 || !is_white(s[0]) {
        0
    } else {
        1 + indent_len(s.drop_first())
    }
}

/// The text without its leading white space.
pub open spec fn unindented(s: Seq<char>) -> Seq<char> {
    s.skip(indent_len(s) as int)
}

/// The leading white space of the text.
pub open spec fn indent(s: Seq<char>) -> Seq<char> {
    s.take(indent_len(s) as int)
}

/// `indent_len` is the position of the first character that is not white.
pub proof fn lemma_indent_len(s: Seq<char>, n: int)
    requires
        0 <= n <= s.len(),
        forall|j: int| 0 <= j < n ==> is_white(#[trigger] s[j]),
        n < s.len() ==> !is_white(s[n]),
    ensures
        indent_len(s) == n,
    decreases n,
{
    if n > 0 {
        assert(is_white(s[0]));
        let t = s.drop_first();
        assert forall|j: int| 0 <= j < n - 1 implies is_white(#[trigger] t[j]) by {
            assert(t[j] == s[j + 1]);
        }
        lemma_indent_len(t, n - 1);
    }
}

/// What `indent_len` counts: only white space before it, and none at it.
pub proof fn lemma_indent_facts(s: Seq<char>)
    ensures
        indent_len(s) <= s.len(),
        forall|j: int| 0 <= j < indent_len(s) ==> is_white(#[trigger] s[j]),
        indent_len(s) < s.len() ==> !is_white(s[indent_len(s) as int]),
    decreases s.len(),
{
    if s.len() > 0 && is_white(s[0]) {
        let t = s.drop_first();
        lemma_indent_facts(t);
        assert forall|j: int| 0 <= j < indent_len(s) implies is_white(#[trigger] s[j]) by {
            if j > 0 {
                assert(t[j - 1] == s[j]);
            }
        }
        if indent_len(s) < s.len() {
            assert(t[indent_len(t) as int] == s[indent_len(s) as int]);
        }
    }
}

/// Counts the leading white space.
pub fn indent_count(chars: &Vec<char>) -> (n: usize)
    ensures
        n == indent_len(chars@),
        n <= chars.len(),
{
    let mut n: usize = 0;
    while n < chars.len() && white(chars[n])
        invariant
            n <= chars.len(),
            forall|j: int| 0 <= j < n ==> is_white(#[trigger] chars@[j]),
        decreases chars.len() - n,
    {
        n = n + 1;
    }
    proof {
        lemma_indent_len(chars@, n as int);
    }
    n
}

/// How many characters stand before the first of `stops`; the whole length
/// where there is none.
pub open spec fn until(s: Seq<char>, stops: Seq<char>) -> nat
    decreases s.len(),
{
    if s.len() == 0 || stops.contains(s[0]) {
        0
    } else {
        1 + until(s.drop_first(), stops)
    }
}

/// `until` is the position of the first stop.
pub proof fn lemma_until(s: Seq<char>, stops: Seq<char>, n: int)
    requires
        0 <= n <= s.len(),
        forall|j: int| 0 <= j < n ==> !stops.contains(#[trigger] s[j]),
        n < s.len() ==> stops.contains(s[n]),
    ensures
        until(s, stops) == n,
    decreases n,
{
    if n > 0 {
        assert(!stops.contains(s[0]));
        let t = s.drop_first();
        assert forall|j: int| 0 <= j < n - 1 implies !stops.contains(#[trigger] t[j]) by {
            assert(t[j] == s[j + 1]);
        }
        lemma_until(t, stops, n - 1);
    }
}

/// What `until` counts: no stop before it, and a stop at it unless it is the
/// end.
pub proof fn lemma_until_facts(s: Seq<char>, stops: Seq<char>)
    ensures
        until(s, stops) <= s.len(),
        forall|j: int| 0 <= j < until(s, stops) ==> !stops.contains(#[trigger] s[j]),
        until(s, stops) < s.len() ==> stops.contains(s[until(s, stops) as int]),
    decreases s.len(),
{
    if s.len() > 0 && !stops.contains(s[0]) {
        let t = s.drop_first();
        lemma_until_facts(t, stops);
        assert forall|j: int| 0 <= j < until(s, stops) implies !stops.contains(#[trigger] s[j]) by {
            if j > 0 {
                assert(t[j - 1] == s[j]);
            }
        }
        if until(s, stops) < s.len() {
            assert(t[until(t, stops) as int] == s[until(s, stops) as int]);
        }
    }
}

/// Whether a character is one of `stops`.
fn is_one_of(c: char, stops: &Vec<char>) -> (yes: bool)
    ensures
        yes == stops@.contains(c),
{
    for i in 0..stops.len()
        invariant
            forall|j: int| 0 <= j < i ==> stops@[j] != c,
    {
        if stops[i] == c {
            assert(stops@[i as int] == c);
            return true;
        }
    }
    false
}

/// The position of the first of `stops`, or the length.
pub fn find_first(chars: &Vec<char>, stops: &Vec<char>) -> (n: usize)
    ensures
        n == until(chars@, stops@),
        n <= chars.len(),
{
    let mut n: usize = 0;
    while n < chars.len() && !is_one_of(chars[n], stops)
        invariant
            n <= chars.len(),
            forall|j: int| 0 <= j < n ==> !stops@.contains(#[trigger] chars@[j]),
        decreases chars.len() - n,
    {
        n = n + 1;
    }
    proof {
        lemma_until(chars@, stops@, n as int);
    }
    n
}

/// What follows the last `mark`; the whole text where there is none.
pub open spec fn after_last(s: Seq<char>, mark: char) -> Seq<char>
    decreases s.len(),
{
    if s.len() == 0 || s.last() == mark {
        Seq::empty()
    } else {
        after_last(s.drop_last(), mark).push(s.last())
    }
}

proof fn lemma_after_last(s: Seq<char>, mark: char, n: int)
    requires
        0 <= n <= s.len(),
        forall|j: int| n <= j < s.len() ==> #[trigger] s[j] != mark,
        n > 0 ==> s[n - 1] == mark,
    ensures
        after_last(s, mark) == s.skip(n),
    decreases s.len() - n,
{
    if n == s.len() {
        assert(s.skip(n) =~= Seq::empty());
    } else {
        lemma_after_last(s.drop_last(), mark, n);
        assert(s.drop_last().skip(n).push(s.last()) =~= s.skip(n));
    }
}

/// The part of the text behind the last `mark`.
pub fn tail_after(chars: &Vec<char>, mark: char) -> (tail: Vec<char>)
    ensures
        tail@ == after_last(chars@, mark),
{
    let mut n: usize = chars.len();
    while n > 0 && chars[n - 1] != mark
        invariant
            n <= chars.len(),
            forall|j: int| n <= j < chars.len() ==> #[trigger] chars@[j] != mark,
        decreases n,
    {
        n = n - 1;
    }
    proof {
        lemma_after_last(chars@, mark, n as int);
        assert(chars@.skip(n as int) =~= chars@.subrange(n as int, chars.len() as int));
    }
    slice_of(chars, n, chars.len())
}

/// Whether `word` stands in `s` at position `at`.
pub open spec fn stands_at(s: Seq<char>, word: Seq<char>, at: int) -> bool {
    0 <= at && at + word.len() <= s.len() && s.subrange(at, at + word.len()) == word
}

/// Whether `word` stands anywhere in `s`.
pub open spec fn holds_text(s: Seq<char>, word: Seq<char>) -> bool {
    exists|at: int| stands_at(s, word, at)
}

/// Whether `word` stands at `at`.
pub fn word_at(chars: &Vec<char>, word: &Vec<char>, at: usize) -> (yes: bool)
    requires
        at <= chars.len(),
    ensures
        yes == stands_at(chars@, word@, at as int),
{
    if chars.len() - at < word.len() {
        return false;
    }
    for i in 0..word.len()
        invariant
            at <= chars.len(),
            word.len() <= chars.len() - at,
            forall|j: int| 0 <= j < i ==> chars@[at + j] == word@[j],
    {
        if chars[at + i] != word[i] {
            assert(chars@.subrange(at as int, at + word.len())[i as int] != word@[i as int]);
            return false;
        }
    }
    assert(chars@.subrange(at as int, at + word.len()) =~= word@);
    true
}

/// Whether `word` stands anywhere in the text.
pub fn has_word(chars: &Vec<char>, word: &Vec<char>) -> (yes: bool)
    ensures
        yes == holds_text(chars@, word@),
{
    for at in 0..chars.len()
        invariant
            forall|k: int| 0 <= k < at ==> !stands_at(chars@, word@, k),
    {
        if word_at(chars, word, at) {
            return true;
        }
    }
    word_at(chars, word, chars.len())
}

/// Whether a character occurs in the text.
pub fn has_char(chars: &Vec<char>, c: char) -> (yes: bool)
    ensures
        yes == chars@.contains(c),
{
    is_one_of(c, chars)
}

/// The line without the carriage return that ends it.
pub open spec fn without_cr(line: Seq<char>) -> Seq<char> {
    if line.len() > 0 && line.last() == '\r' {
        line.drop_last()
    } else {
        line
    }
}

/// The lines of a text, as `str::lines` cuts them: a line ends at a line feed,
/// with the carriage return right before it, and the last line need not end.
pub open spec fn lines_of(s: Seq<char>) -> Seq<Seq<char>>
    decreases s.len(),
    via lines_of_decreases
{
    if s.len() == 0 {
        Seq::empty()
    } else {
        let n = until(s, seq!['\n']) as int;
        if n >= s.len() {
            seq![s]
        } else {
            seq![without_cr(s.take(n))] + lines_of(s.skip(n + 1))
        }
    }
}

#[via_fn]
proof fn lines_of_decreases(s: Seq<char>) {
    lemma_until_facts(s, seq!['\n']);
}

/// The characters of each line.
pub open spec fn texts(lines: Seq<Vec<char>>) -> Seq<Seq<char>> {
    lines.map_values(|line: Vec<char>| line@)
}

/// Cuts a text into its lines.
pub fn split_lines(chars: &Vec<char>) -> (lines: Vec<Vec<char>>)
    ensures
        texts(lines@) == lines_of(chars@),
{
    let mut lines: Vec<Vec<char>> = Vec::new();
    let mut from: usize = 0;
    assert(chars@.skip(0) =~= chars@);
    assert(texts(lines@) =~= Seq::empty());
    assert(Seq::<Seq<char>>::empty() + lines_of(chars@) =~= lines_of(chars@));
    while from < chars.len()
        invariant
            from <= chars.len(),
            texts(lines@) + lines_of(chars@.skip(from as int)) == lines_of(chars@),
        decreases chars.len() - from,
    {
        let mut to: usize = from;
        let ghost rest = chars@.skip(from as int);
        while to < chars.len() && chars[to] != '\n'
            invariant
                from <= to <= chars.len(),
                forall|j: int| from <= j < to ==> #[trigger] chars@[j] != '\n',
            decreases chars.len() - to,
        {
            to = to + 1;
        }
        proof {
            assert(seq!['\n'][0] == '\n');
            lemma_until(rest, seq!['\n'], to - from);
        }
        let ghost before = lines@;
        if to == chars.len() {
            let line = slice_of(chars, from, to);
            proof {
                assert(line@ =~= rest);
                assert(texts(before.push(line)) =~= texts(before) + seq![rest]);
                assert(chars@.skip(chars.len() as int) =~= Seq::empty());
                assert(texts(before.push(line)) + Seq::empty() =~= texts(before.push(line)));
            }
            lines.push(line);
            from = to;
        } else {
            let end: usize = if to > from && chars[to - 1] == '\r' {
                to - 1
            } else {
                to
            };
            let line = slice_of(chars, from, end);
            proof {
                let cut = rest.take(to - from);
                if to > from {
                    assert(cut.last() == chars@[to - 1]);
                }
                assert(line@ =~= without_cr(cut));
                assert(rest.skip(to - from + 1) =~= chars@.skip(to + 1));
                assert(texts(before.push(line)) =~= texts(before) + seq![without_cr(cut)]);
                let tail = lines_of(chars@.skip(to + 1));
                assert(lines_of(rest) == seq![without_cr(cut)] + tail);
                assert(texts(before) + (seq![without_cr(cut)] + tail) =~= (texts(before)
                    + seq![without_cr(cut)]) + tail);
            }
            lines.push(line);
            from = to + 1;
        }
    }
    proof {
        assert(chars@.skip(from as int) =~= Seq::empty());
        assert(texts(lines@) + Seq::empty() =~= texts(lines@));
    }
    lines
}

/// Lines, each ended by a line feed.
pub open spec fn joined(lines: Seq<Seq<char>>) -> Seq<char>
    decreases lines.len(),
{
    if lines.len() == 0 {
        Seq::empty()
    } else {
        lines[0].push('\n') + joined(lines.drop_first())
    }
}

/// One more line at the end.
pub proof fn lemma_joined_push(lines: Seq<Seq<char>>, line: Seq<char>)
    ensures
        joined(lines.push(line)) == joined(lines) + line.push('\n'),
    decreases lines.len(),
{
    let all = lines.push(line);
    if lines.len() == 0 {
        assert(all.drop_first() =~= Seq::empty());
        assert(joined(all.drop_first()) =~= Seq::empty());
        assert(joined(all) =~= joined(lines) + line.push('\n'));
    } else {
        lemma_joined_push(lines.drop_first(), line);
        assert(all.drop_first() =~= lines.drop_first().push(line));
        assert(joined(all) =~= joined(lines) + line.push('\n'));
    }
}

/// Whether a text is a line as `lines_of` gives it back: without a line feed, and
/// without a carriage return at its end.
pub open spec fn is_line(line: Seq<char>) -> bool {
    !line.contains('\n') && (line.len() > 0 ==> line.last() != '\r')
}

/// No line holds a line feed.
pub proof fn lemma_lines_hold_no_feed(s: Seq<char>)
    ensures
        forall|i: int| 0 <= i < lines_of(s).len() ==> !(#[trigger] lines_of(s)[i]).contains('\n'),
    decreases s.len(),
{
    if s.len() > 0 {
        let n = until(s, seq!['\n']) as int;
        lemma_until_facts(s, seq!['\n']);
        assert(seq!['\n'][0] == '\n');
        assert forall|j: int| 0 <= j < n implies s[j] != '\n' by {
            assert(!seq!['\n'].contains(s[j]));
        }
        if n < s.len() {
            lemma_lines_hold_no_feed(s.skip(n + 1));
            let first = without_cr(s.take(n));
            let rest = lines_of(s.skip(n + 1));
            assert(!first.contains('\n'));
            assert forall|i: int| 0 <= i < lines_of(s).len() implies !(#[trigger] lines_of(
                s,
            )[i]).contains('\n') by {
                if i > 0 {
                    assert(lines_of(s)[i] == rest[i - 1]);
                }
            }
        }
    }
}

/// Joined lines come apart again.
pub proof fn lemma_lines_of_joined(lines: Seq<Seq<char>>)
    requires
        forall|i: int| 0 <= i < lines.len() ==> is_line(#[trigger] lines[i]),
    ensures
        lines_of(joined(lines)) == lines,
    decreases lines.len(),
{
    if lines.len() > 0 {
        let line = lines[0];
        let rest = joined(lines.drop_first());
        let s = joined(lines);
        let n = line.len() as int;
        assert(is_line(line));
        assert forall|j: int| 0 <= j < n implies !seq!['\n'].contains(#[trigger] s[j]) by {
            assert(s[j] == line[j]);
            assert(line.contains(line[j]));
        }
        assert(s[n] == '\n');
        assert(seq!['\n'][0] == '\n');
        lemma_until(s, seq!['\n'], n);
        assert(s.take(n) =~= line);
        assert(s.skip(n + 1) =~= rest);
        assert forall|i: int| 0 <= i < lines.drop_first().len() implies is_line(
            #[trigger] lines.drop_first()[i],
        ) by {
            assert(is_line(lines[i + 1]));
        }
        lemma_lines_of_joined(lines.drop_first());
        assert(seq![line] + lines.drop_first() =~= lines);
    } else {
        assert(lines =~= Seq::empty());
    }
}

/// The digit character of a number below ten.
pub open spec fn digit_char(d: nat) -> char {
    ('0' as u32 + d) as char
}

/// A number in decimal, without leading zeros.
pub open spec fn decimal(n: nat) -> Seq<char>
    decreases n,
{
    if n < 10 {
        seq![digit_char(n)]
    } else {
        decimal(n / 10).push(digit_char(n % 10))
    }
}

/// Prints a number in decimal.
pub fn to_decimal(n: u64) -> (s: String)
    ensures
        s@ == decimal(n as nat),
    decreases n,
{
    let d: u8 = (n % 10) as u8;
    let c: char = (48u8 + d) as char;
    if n < 10 {
        let mut s = String::new();
        s.push(c);
        assert(s@ =~= seq![digit_char(n as nat)]);
        s
    } else {
        let mut s = to_decimal(n / 10);
        s.push(c);
        s
    }
}

/// Whether a character is an ASCII digit.
pub open spec fn is_digit(c: char) -> bool {
    '0' <= c <= '9'
}

/// Whether a text is one or more digits.
pub open spec fn all_digits(s: Seq<char>) -> bool {
    s.len() > 0 && forall|i: int| 0 <= i < s.len() ==> is_digit(#[trigger] s[i])
}

/// The number that a text of digits writes.
pub open spec fn digits_value(s: Seq<char>) -> nat
    decreases s.len(),
{
    if s.len() == 0 {
        0
    } else {
        digits_value(s.drop_last()) * 10 + (s.last() as u32 - '0' as u32) as nat
    }
}

/// The text without one leading plus sign.
pub open spec fn unsigned_part(s: Seq<char>) -> Seq<char> {
    if s.len() > 0 && s[0] == '+' {
        s.drop_first()
    } else {
        s
    }
}

/// The 16-bit number that a text writes: digits, with one plus sign before
/// them at most, and a value that fits.
pub open spec fn u16_of(s: Seq<char>) -> Option<u16> {
    let digits = unsigned_part(s);
    if all_digits(digits) && digits_value(digits) <= u16::MAX {
        Some(digits_value(digits) as u16)
    } else {
        None
    }
}

proof fn lemma_digits_grow(s: Seq<char>, n: int)
    requires
        0 <= n <= s.len(),
        forall|i: int| 0 <= i < s.len() ==> is_digit(#[trigger] s[i]),
    ensures
        digits_value(s.take(n)) <= digits_value(s),
    decreases s.len() - n,
{
    if n == s.len() {
        assert(s.take(n) =~= s);
    } else {
        lemma_digits_grow(s, n + 1);
        assert(s.take(n + 1).drop_last() =~= s.take(n));
    }
}

/// Reads a 16-bit number.
pub fn parse_u16(chars: &Vec<char>) -> (n: Option<u16>)
    ensures
        n == u16_of(chars@),
{
    let from: usize = if chars.len() > 0 && chars[0] == '+' {
        1
    } else {
        0
    };
    let ghost digits = unsigned_part(chars@);
    assert(digits =~= chars@.skip(from as int));
    if from == chars.len() {
        return None;
    }
    let mut value: u32 = 0;
    assert(digits.take(0) =~= Seq::empty());
    let mut i: usize = from;
    while i < chars.len()
        invariant
            from <= i <= chars.len(),
            from < chars.len(),
            digits == unsigned_part(chars@),
            digits == chars@.skip(from as int),
            forall|j: int| from <= j < i ==> is_digit(#[trigger] chars@[j]),
            value == digits_value(digits.take(i - from)),
            value <= u16::MAX,
        decreases chars.len() - i,
    {
        let c = chars[i];
        if !('0' <= c && c <= '9') {
            assert(digits[i - from] == c);
            return None;
        }
        let d: u32 = c as u32 - 48;
        assert(digits.take(i - from + 1).drop_last() =~= digits.take(i - from));
        assert(digits.take(i - from + 1).last() == c);
        value = value * 10 + d;
        i = i + 1;
        if value > 65535 {
            proof {
                if all_digits(digits) {
                    lemma_digits_grow(digits, i - from);
                }
            }
            return None;
        }
    }
    proof {
        assert(digits.take(i - from) =~= digits);
        assert forall|j: int| 0 <= j < digits.len() implies is_digit(#[trigger] digits[j]) by {
            assert(chars@[from + j] == digits[j]);
        }
    }
    Some(value as u16)
}

/// An error in its context is the label, a colon and a blank, and the detail.
pub proof fn law_context_joins_label_and_detail(label: Seq<char>, detail: Seq<char>)
    ensures
        in_context(label, detail).len() == label.len() + 2 + detail.len(),
        in_context(label, detail).take(label.len() as int) == label,
        in_context(label, detail)[label.len() as int] == ':',
        in_context(label, detail)[label.len() as int + 1] == ' ',
        in_context(label, detail).skip(label.len() as int + 2) == detail,
{
    reveal_strlit(": ");
    assert(in_context(label, detail).take(label.len() as int) =~= label);
    assert(in_context(label, detail).skip(label.len() as int + 2) =~= detail);
}

/// A number in decimal reads back: its digits have its value, and it is written without
/// leading zeros.
pub proof fn law_decimal_reads_back(n: nat)
    ensures
        all_digits(decimal(n)),
        digits_value(decimal(n)) == n,
        n > 0 ==> decimal(n)[0] != '0',
        n <= 65535 ==> u16_of(decimal(n)) == Some(n as u16),
    decreases n,
{
    let s = decimal(n);
    let d = digit_char(n % 10);
    assert(d as u32 == 48 + n % 10);
    assert(is_digit(d));
    if n < 10 {
        assert(s =~= seq![d]);
        assert(s.drop_last() =~= Seq::empty());
        assert(digits_value(s.drop_last()) == 0);
    } else {
        law_decimal_reads_back(n / 10);
        let front = decimal(n / 10);
        assert(s.drop_last() =~= front);
        assert(s.last() == d);
        assert forall|i: int| 0 <= i < s.len() implies is_digit(#[trigger] s[i]) by {
            if i < front.len() {
                assert(s[i] == front[i]);
            }
        }
        assert(s[0] == front[0]);
    }
    assert(is_digit(s[0]));
    assert(s[0] != '+');
}

/// A 16-bit number is written in digits, with a plus sign before them or not: anything
/// else, and anything too large, is none.
pub proof fn law_only_digits_are_numbers(s: Seq<char>)
    ensures
        u16_of(s) is Some && s[0] != '+' ==> forall|i: int|
            0 <= i < s.len() ==> '0' <= #[trigger] s[i] <= '9',
        s.len() == 0 ==> u16_of(s) is None,
        u16_of(s) matches Some(v) ==> (s[0] != '+' ==> v == digits_value(s)) && (s[0] == '+' ==> v
            == digits_value(s.drop_first())),
        s.len() > 0 && s[0] != '+' ==> u16_of(seq!['+'] + s) == u16_of(s),
        all_digits(s) && digits_value(s) > 65535 ==> u16_of(s) is None,
{
    let plus = seq!['+'] + s;
    assert(plus.drop_first() =~= s);
    if all_digits(s) {
        assert(is_digit(s[0]));
    }
    if u16_of(s) is Some && s[0] != '+' {
        assert forall|i: int| 0 <= i < s.len() implies '0' <= #[trigger] s[i] <= '9' by {
            assert(is_digit(s[i]));
        }
    }
}

/// A further digit makes ten times the value and the digit.
pub proof fn law_digits_count_by_tens(s: Seq<char>, c: char)
    requires
        '0' <= c <= '9',
    ensures
        digits_value(s.push(c)) == 10 * digits_value(s) + (c as u32 - 48),
        digits_value(Seq::empty()) == 0,
{
    assert(s.push(c).drop_last() =~= s);
}

/// What follows the last mark holds no mark, ends the text, and stands right behind a
/// mark where there is one; else it is the whole text.
pub proof fn law_after_last_is_the_tail(s: Seq<char>, mark: char)
    ensures
        ({
            let tail = after_last(s, mark);
            &&& tail.len() <= s.len()
            &&& !tail.contains(mark)
            &&& s.skip(s.len() - tail.len()) == tail
            &&& s.contains(mark) ==> tail.len() < s.len() && s[s.len() - tail.len() - 1] == mark
            &&& !s.contains(mark) ==> tail == s
        }),
    decreases s.len(),
{
    let tail = after_last(s, mark);
    if s.len() == 0 || s.last() == mark {
        assert(s.skip(s.len() as int) =~= tail);
        if s.len() > 0 {
            assert(s[s.len() - 1] == mark);
        } else {
            assert(tail =~= s);
        }
    } else {
        let front = s.drop_last();
        law_after_last_is_the_tail(front, mark);
        let t = after_last(front, mark);
        if tail.contains(mark) {
            let i = tail.index_of(mark);
            if i < t.len() {
                assert(t[i] == mark);
            }
        }
        assert(s.skip(s.len() - tail.len()) =~= tail) by {
            assert(front.skip(front.len() - t.len()) =~= t);
            assert forall|i: int| 0 <= i < t.len() implies s[s.len() - tail.len() + i] == t[i] by {
                assert(front.skip(front.len() - t.len())[i] == t[i]);
            }
        }
        if s.contains(mark) {
            let i = s.index_of(mark);
            assert(front[i] == mark);
            assert(front.contains(mark));
        } else {
            if front.contains(mark) {
                let i = front.index_of(mark);
                assert(s[i] == mark);
            }
            assert(tail =~= s);
        }
    }
}

/// A word stands at a place exactly where each of its characters does.
pub proof fn law_words_stand_by_their_characters(s: Seq<char>, word: Seq<char>, at: int)
    ensures
        stands_at(s, word, at) <==> 0 <= at && at + word.len() <= s.len() && forall|j: int|
            0 <= j < word.len() ==> s[at + j] == #[trigger] word[j],
        holds_text(s, word) <==> exists|k: int| #[trigger] stands_at(s, word, k),
{
    if stands_at(s, word, at) {
        assert forall|j: int| 0 <= j < word.len() implies s[at + j] == #[trigger] word[j] by {
            assert(s.subrange(at, at + word.len())[j] == word[j]);
        }
    }
    if 0 <= at && at + word.len() <= s.len() && forall|j: int|
        0 <= j < word.len() ==> s[at + j] == #[trigger] word[j] {
        assert(s.subrange(at, at + word.len()) =~= word);
    }
}

/// A line ends at its line feed, with the one carriage return right before it; what
/// follows is read as if it stood alone, and a last line need not end.
pub proof fn law_lines_end_at_their_feed(line: Seq<char>, rest: Seq<char>)
    requires
        !line.contains('\n'),
    ensures
        lines_of(line.push('\n') + rest) == seq![
            if line.len() > 0 && line.last() == '\r' {
                line.drop_last()
            } else {
                line
            },
        ] + lines_of(rest),
        line.len() > 0 ==> lines_of(line) == seq![line],
        lines_of(Seq::empty()) == Seq::<Seq<char>>::empty(),
{
    let s = line.push('\n') + rest;
    let n = line.len() as int;
    assert(seq!['\n'][0] == '\n');
    assert forall|j: int| 0 <= j < n implies !seq!['\n'].contains(#[trigger] s[j]) by {
        assert(s[j] == line[j]);
        assert(line.contains(line[j]));
    }
    assert(s[n] == '\n');
    lemma_until(s, seq!['\n'], n);
    assert(s.take(n) =~= line);
    assert(s.skip(n + 1) =~= rest);
    assert forall|j: int| 0 <= j < n implies !seq!['\n'].contains(#[trigger] line[j]) by {
        assert(line.contains(line[j]));
    }
    lemma_until(line, seq!['\n'], n);
}

/// A text is its indent and the rest: the indent is white throughout, and the rest does
/// not begin with white space.
pub proof fn law_a_text_is_its_indent_and_the_rest(s: Seq<char>)
    ensures
        indent(s) + unindented(s) == s,
        forall|j: int| 0 <= j < indent(s).len() ==> is_white(#[trigger] indent(s)[j]),
        unindented(s).len() > 0 ==> !is_white(unindented(s)[0]),
{
    lemma_indent_facts(s);
    assert(indent(s) + unindented(s) =~= s);
    assert forall|j: int| 0 <= j < indent(s).len() implies is_white(#[trigger] indent(s)[j]) by {
        assert(indent(s)[j] == s[j]);
    }
}

/// Of the ASCII characters, exactly the blank and those from tab to carriage return are
/// white.
pub proof fn law_ascii_white_space(c: char)
    requires
        (c as u32) < 128,
    ensures
        is_white(c) <==> c == ' ' || 9 <= c as u32 <= 13,
{
}

/// Beyond ASCII, white space is the next-line mark, the no-break space, the Ogham space,
/// the typographic spaces from the en quad to the hair space, the line and paragraph
/// separators, the two narrow spaces and the ideographic space; no letter or sign of any
/// other block is.
pub proof fn law_white_space_beyond_ascii(c: char)
    requires
        c as u32 >= 0x80,
    ensures
        is_white(c) <==> c == '\u{85}' || c == '\u{a0}' || c == '\u{1680}' || '\u{2000}' <= c
            <= '\u{200a}' || c == '\u{2028}' || c == '\u{2029}' || c == '\u{202f}' || c
            == '\u{205f}' || c == '\u{3000}',
{
}

} // verus!
