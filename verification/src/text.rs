//! Text as sequences of characters: trimming, searching, counting lines,
//! cutting at a byte position and writing numbers.

use vstd::prelude::*;
use vstd::string::*;
use vstd::utf8::*;

verus! {

/// The characters with the Unicode property `White_Space`.
pub open spec fn white_space(c: char) -> bool {
    ||| '\u{9}' <= c <= '\u{d}'
    ||| c == ' '
    ||| c == '\u{85}'
    ||| c == '\u{a0}'
    ||| c == '\u{1680}'
    ||| '\u{2000}' <= c <= '\u{200a}'
    ||| c == '\u{2028}'
    ||| c == '\u{2029}'
    ||| c == '\u{202f}'
    ||| c == '\u{205f}'
    ||| c == '\u{3000}'
}

/// `s` without its leading white space.
pub open spec fn trim_front(s: Seq<char>) -> Seq<char>
    decreases s.len(),
{
    if s.len() > 0 && white_space(s.first()) {
        trim_front(s.drop_first())
    } else {
        s
    }
}

/// `s` without its trailing white space.
pub open spec fn trim_back(s: Seq<char>) -> Seq<char>
    decreases s.len(),
{
    if s.len() > 0 && white_space(s.last()) {
        trim_back(s.drop_last())
    } else {
        s
    }
}

/// `s` without its leading and trailing white space.
pub open spec fn trimmed(s: Seq<char>) -> Seq<char> {
    trim_back(trim_front(s))
}

/// Whether `pattern` stands in `s` at position `at`.
pub open spec fn occurs_at(s: Seq<char>, pattern: Seq<char>, at: int) -> bool {
    &&& 0 <= at
    &&& at + pattern.len() <= s.len()
    &&& s.subrange(at, at + pattern.len()) == pattern
}

/// The first position of `pattern` in `s`.
pub open spec fn is_first_occurrence(s: Seq<char>, pattern: Seq<char>, at: int) -> bool {
    &&& occurs_at(s, pattern, at)
    &&& forall|before: int| 0 <= before < at ==> !#[trigger] occurs_at(s, pattern, before)
}

/// What stands in `s` behind the first `marker`; nothing where `s` has no
/// `marker`.
pub open spec fn after_marker(s: Seq<char>, marker: Seq<char>) -> Option<Seq<char>> {
    if exists|at: int| #[trigger] is_first_occurrence(s, marker, at) {
        let at = choose|at: int| #[trigger] is_first_occurrence(s, marker, at);
        Some(s.skip(at + marker.len()))
    } else {
        None
    }
}

/// Whether `s` begins with `prefix`.
pub open spec fn starts_with(s: Seq<char>, prefix: Seq<char>) -> bool {
    occurs_at(s, prefix, 0)
}

/// How many newlines `s` has.
pub open spec fn newlines(s: Seq<char>) -> nat
    decreases s.len(),
{
    if s.len() == 0 {
        0
    } else if s.last() == '\n' {
        newlines(s.drop_last()) + 1
    } else {
        newlines(s.drop_last())
    }
}

/// How many lines `s` has: each newline ends one, and what follows the last
/// newline, if anything, is one more.
pub open spec fn line_count(s: Seq<char>) -> nat {
    if s.len() > 0 && s.last() != '\n' {
        newlines(s) + 1
    } else {
        newlines(s)
    }
}

/// The number of bytes that `s` takes in UTF-8.
pub open spec fn byte_len(s: Seq<char>) -> nat {
    encode_utf8(s).len()
}

/// Whether the UTF-8 form of `s` can be cut behind its first `n` bytes
/// without splitting a character.
pub open spec fn can_cut(s: Seq<char>, n: int) -> bool {
    is_char_boundary(encode_utf8(s), n)
}

/// The characters in the first `n` bytes of `s`.
pub open spec fn byte_prefix(s: Seq<char>, n: int) -> Seq<char> {
    decode_utf8(encode_utf8(s).subrange(0, n))
}

/// The decimal digit for `d`.
pub open spec fn digit(d: nat) -> char {
    (48 + d) as char
}

/// The decimal form of `n`, without leading zeros.
pub open spec fn decimal(n: nat) -> Seq<char>
    decreases n,
{
    if n < 10 {
        seq![digit(n)]
    } else {
        decimal(n / 10).push(digit(n % 10))
    }
}

/// The decimal form of `n`, with a minus sign where it is negative.
pub open spec fn signed_decimal(n: int) -> Seq<char> {
    if n < 0 {
        seq!['-'] + decimal((-n) as nat)
    } else {
        decimal(n as nat)
    }
}

/// The first `marker` in a text is where it is: there is no other one.
pub proof fn lemma_first_occurrence_is_unique(
    s: Seq<char>,
    pattern: Seq<char>,
    one: int,
    other: int,
)
    requires
        is_first_occurrence(s, pattern, one),
        is_first_occurrence(s, pattern, other),
    ensures
        one == other,
{
    assert(occurs_at(s, pattern, one) && occurs_at(s, pattern, other));
}

/// What was cut off at a byte position is the front of the text that it was
/// cut from, and takes as many bytes as were asked for.
pub proof fn lemma_byte_prefix(s: Seq<char>, n: int)
    requires
        can_cut(s, n),
        0 <= n <= byte_len(s),
    ensures
        byte_len(byte_prefix(s, n)) == n,
        byte_prefix(s, n).len() <= s.len(),
        byte_prefix(s, n) == s.take(byte_prefix(s, n).len() as int),
{
    let bytes = encode_utf8(s);
    encode_utf8_valid_utf8(s);
    encode_utf8_decode_utf8(s);
    valid_utf8_split(bytes, n);
    decode_utf8_split(bytes, n);
    decode_utf8_encode_utf8(bytes.subrange(0, n));
    let front = byte_prefix(s, n);
    assert(s == front + decode_utf8(bytes.subrange(n, bytes.len() as int)));
    assert(front =~= s.take(front.len() as int));
}

/// The characters of `s`, one by one.
pub fn chars_of(s: &str) -> (chars: Vec<char>)
    ensures
        chars@ == s@,
{
    let mut chars: Vec<char> = Vec::new();
    for c in it: s.chars()
        invariant
            chars@ == s@.take(it.index() as int),
            it.seq() == s@,
    {
        chars.push(c);
        assert(s@.take(it.index() as int + 1) =~= s@.take(it.index() as int).push(c));
    }
    assert(s@.take(s@.len() as int) =~= s@);
    chars
}

/// Whether `c` has the Unicode property `White_Space`.
pub fn is_white_space(c: char) -> (yes: bool)
    ensures
        yes == white_space(c),
{
    ('\u{9}' <= c && c <= '\u{d}') || c == ' ' || c == '\u{85}' || c == '\u{a0}'
        || c == '\u{1680}' || ('\u{2000}' <= c && c <= '\u{200a}') || c == '\u{2028}'
        || c == '\u{2029}' || c == '\u{202f}' || c == '\u{205f}' || c == '\u{3000}'
}

/// `s` without its leading and trailing white space.
pub fn trim(s: &str) -> (res: String)
    ensures
        res@ == trimmed(s@),
{
    let chars = chars_of(s);
    let mut start: usize = 0;
    assert(s@.skip(0) =~= s@);
    while start < chars.len() && is_white_space(chars[start])
        invariant
            chars@ == s@,
            start <= chars.len(),
            trim_front(s@) == trim_front(s@.skip(start as int)),
        decreases chars.len() - start,
    {
        assert(s@.skip(start as int).drop_first() =~= s@.skip(start as int + 1));
        start = start + 1;
    }
    let ghost front = s@.skip(start as int);
    assert(trim_front(s@) == front);
    let mut end: usize = chars.len();
    assert(s@.subrange(start as int, end as int) =~= front);
    while start < end && is_white_space(chars[end - 1])
        invariant
            chars@ == s@,
            start <= end <= chars.len(),
            front == s@.skip(start as int),
            trim_back(front) == trim_back(s@.subrange(start as int, end as int)),
        decreases end - start,
    {
        assert(s@.subrange(start as int, end as int).drop_last() =~= s@.subrange(
            start as int,
            end as int - 1,
        ));
        end = end - 1;
    }
    s.substring_char(start, end).to_string()
}

/// Whether `pattern` stands in `chars` at position `at`.
fn stands_at(chars: &Vec<char>, pattern: &Vec<char>, at: usize) -> (yes: bool)
    ensures
        yes == occurs_at(chars@, pattern@, at as int),
{
    if chars.len() < pattern.len() || chars.len() - pattern.len() < at {
        return false;
    }
    let mut i: usize = 0;
    while i < pattern.len()
        invariant
            at + pattern.len() <= chars.len(),
            i <= pattern.len(),
            forall|k: int| 0 <= k < i ==> chars@[at + k] == pattern@[k],
        decreases pattern.len() - i,
    {
        if chars[at + i] != pattern[i] {
            assert(chars@.subrange(at as int, at + pattern.len())[i as int] != pattern@[i as int]);
            return false;
        }
        i = i + 1;
    }
    assert(chars@.subrange(at as int, at + pattern.len()) =~= pattern@);
    true
}

/// What stands in `s` behind `prefix`, where `s` begins with it.
pub fn strip_prefix(s: &str, prefix: &str) -> (rest: Option<String>)
    ensures
        rest is Some <==> starts_with(s@, prefix@),
        rest matches Some(text) ==> text@ == s@.skip(prefix@.len() as int),
{
    let chars = chars_of(s);
    let pattern = chars_of(prefix);
    if stands_at(&chars, &pattern, 0) {
        let rest = s.substring_char(pattern.len(), chars.len()).to_string();
        assert(rest@ =~= s@.skip(prefix@.len() as int));
        Some(rest)
    } else {
        None
    }
}

/// What stands in `s` behind the first `marker`, where `s` has one.
pub fn rest_after(s: &str, marker: &str) -> (rest: Option<String>)
    ensures
        rest.deep_view() == after_marker(s@, marker@),
{
    let chars = chars_of(s);
    let pattern = chars_of(marker);
    let mut at: usize = 0;
    while at < chars.len() && !stands_at(&chars, &pattern, at)
        invariant
            chars@ == s@,
            pattern@ == marker@,
            at <= chars.len(),
            forall|before: int| 0 <= before < at ==> !#[trigger] occurs_at(s@, marker@, before),
        decreases chars.len() - at,
    {
        at = at + 1;
    }
    if stands_at(&chars, &pattern, at) {
        let rest = s.substring_char(at + pattern.len(), chars.len()).to_string();
        proof {
            assert(is_first_occurrence(s@, marker@, at as int));
            let found = choose|found: int| #[trigger] is_first_occurrence(s@, marker@, found);
            lemma_first_occurrence_is_unique(s@, marker@, at as int, found);
            assert(rest@ =~= s@.skip(at + marker@.len()));
        }
        Some(rest)
    } else {
        assert forall|found: int| !#[trigger] is_first_occurrence(s@, marker@, found) by {
            assert(at == s@.len());
            assert(found < 0 || found < at || found == at || found > at);
            assert(!occurs_at(s@, marker@, found));
        }
        None
    }
}

/// Whether `c` is one of the characters of `s`.
pub fn has_char(s: &str, c: char) -> (yes: bool)
    ensures
        yes == s@.contains(c),
{
    let chars = chars_of(s);
    let mut i: usize = 0;
    while i < chars.len()
        invariant
            chars@ == s@,
            i <= chars.len(),
            forall|k: int| 0 <= k < i ==> s@[k] != c,
        decreases chars.len() - i,
    {
        if chars[i] == c {
            return true;
        }
        i = i + 1;
    }
    false
}

/// Whether two texts hold the same characters.
pub fn same_text(a: &str, b: &str) -> (same: bool)
    ensures
        same == (a@ == b@),
{
    a.to_string() == b.to_string()
}

/// How many lines `s` has.
pub fn count_lines(s: &str) -> (lines: usize)
    ensures
        lines == line_count(s@),
{
    let chars = chars_of(s);
    let mut lines: usize = 0;
    let mut i: usize = 0;
    while i < chars.len()
        invariant
            chars@ == s@,
            i <= chars.len(),
            lines == newlines(s@.take(i as int)),
            lines <= i,
        decreases chars.len() - i,
    {
        assert(s@.take(i as int + 1).drop_last() =~= s@.take(i as int));
        if chars[i] == '\n' {
            lines = lines + 1;
        }
        i = i + 1;
    }
    assert(s@.take(s@.len() as int) =~= s@);
    if chars.len() > 0 && chars[chars.len() - 1] != '\n' {
        proof {
            lemma_newlines_bound(s@.drop_last());
        }
        lines = lines + 1;
    }
    lines
}

proof fn lemma_newlines_bound(s: Seq<char>)
    ensures
        newlines(s) <= s.len(),
    decreases s.len(),
{
    if s.len() > 0 {
        lemma_newlines_bound(s.drop_last());
    }
}

/// The UTF-8 form of `s`.
pub fn utf8_bytes(s: &str) -> (bytes: Vec<u8>)
    ensures
        bytes@ == encode_utf8(s@),
{
    let source = s.as_bytes();
    let mut bytes: Vec<u8> = Vec::new();
    let mut i: usize = 0;
    while i < source.len()
        invariant
            i <= source.len(),
            bytes@ == source@.take(i as int),
        decreases source.len() - i,
    {
        bytes.push(source[i]);
        assert(source@.take(i as int + 1) =~= source@.take(i as int).push(source@[i as int]));
        i = i + 1;
    }
    assert(source@.take(source.len() as int) =~= source@);
    bytes
}

/// The first `n` bytes of `s`.
pub fn cut(s: &str, n: usize) -> (front: String)
    requires
        can_cut(s@, n as int),
    ensures
        front@ == byte_prefix(s@, n as int),
{
    let (front, back) = s.split_at(n);
    proof {
        encode_utf8_decode_utf8(front@);
    }
    front.to_string()
}

fn digit_text(d: u64) -> (text: &'static str)
    requires
        d < 10,
    ensures
        text@ == seq![digit(d as nat)],
{
    proof {
        reveal_strlit("0");
        reveal_strlit("1");
        reveal_strlit("2");
        reveal_strlit("3");
        reveal_strlit("4");
        reveal_strlit("5");
        reveal_strlit("6");
        reveal_strlit("7");
        reveal_strlit("8");
        reveal_strlit("9");
    }
    let text: &'static str = match d {
        0 => "0",
        1 => "1",
        2 => "2",
        3 => "3",
        4 => "4",
        5 => "5",
        6 => "6",
        7 => "7",
        8 => "8",
        _ => "9",
    };
    assert(text@ =~= seq![digit(d as nat)]);
    text
}

/// The decimal form of `n`.
pub fn decimal_text(n: u64) -> (text: String)
    ensures
        text@ == decimal(n as nat),
    decreases n,
{
    if n < 10 {
        digit_text(n).to_string()
    } else {
        let mut text = decimal_text(n / 10);
        text.append(digit_text(n % 10));
        assert(text@ =~= decimal(n as nat));
        text
    }
}

/// The decimal form of `n`, with its sign where it is negative.
pub fn signed_decimal_text(n: i32) -> (text: String)
    ensures
        text@ == signed_decimal(n as int),
{
    if n < 0 {
        proof {
            reveal_strlit("-");
        }
        let mut text = "-".to_string();
        let magnitude: i64 = -(n as i64);
        text.append(decimal_text(magnitude as u64).as_str());
        assert(text@ =~= signed_decimal(n as int));
        text
    } else {
        decimal_text(n as u64)
    }
}

/// A number can be told from its decimal form, which is made of digits.
pub proof fn law_decimals_can_be_read_back(one: nat, other: nat)
    ensures
        decimal(one) == decimal(other) <==> one == other,
        decimal(one).len() > 0,
        forall|i: int| 0 <= i < decimal(one).len() ==> '0' <= #[trigger] decimal(one)[i] <= '9',
    decreases one,
{
    let (a, b) = (decimal(one), decimal(other));
    if one >= 10 {
        law_decimals_can_be_read_back(one / 10, other / 10);
        assert(a.drop_last() =~= decimal(one / 10));
        assert(a.len() >= 2);
        assert forall|i: int| 0 <= i < a.len() implies '0' <= #[trigger] a[i] <= '9' by {
            if i < a.len() - 1 {
                assert(a[i] == decimal(one / 10)[i]);
            }
        }
    }
    if a == b {
        assert(a.last() == digit(one % 10));
        assert(b.last() == digit(other % 10));
        if other >= 10 {
            lemma_decimal_is_not_empty(other / 10);
            assert(b.drop_last() =~= decimal(other / 10));
        }
    }
}

/// The decimal form of a number has no leading zero, but for that of zero.
pub proof fn law_decimals_have_no_leading_zero(n: nat)
    ensures
        n > 0 ==> decimal(n)[0] != '0',
        n == 0 ==> decimal(n) == seq!['0'],
    decreases n,
{
    if n >= 10 {
        law_decimals_have_no_leading_zero(n / 10);
        lemma_decimal_is_not_empty(n / 10);
        assert(decimal(n)[0] == decimal(n / 10)[0]);
    }
}

proof fn lemma_decimal_is_not_empty(n: nat)
    ensures
        decimal(n).len() > 0,
{
}

proof fn lemma_trim_front(s: Seq<char>) -> (k: int)
    ensures
        0 <= k <= s.len(),
        trim_front(s) == s.skip(k),
        forall|i: int| 0 <= i < k ==> white_space(#[trigger] s[i]),
        k < s.len() ==> !white_space(s[k]),
    decreases s.len(),
{
    if s.len() > 0 && white_space(s.first()) {
        let rest = s.drop_first();
        let k = lemma_trim_front(rest);
        assert(rest.skip(k) =~= s.skip(k + 1));
        assert forall|i: int| 0 <= i < k + 1 implies white_space(#[trigger] s[i]) by {
            if i > 0 {
                assert(s[i] == rest[i - 1]);
            }
        }
        k + 1
    } else {
        assert(s.skip(0) =~= s);
        0
    }
}

proof fn lemma_trim_back(s: Seq<char>) -> (k: int)
    ensures
        0 <= k <= s.len(),
        trim_back(s) == s.take(k),
        forall|i: int| k <= i < s.len() ==> white_space(#[trigger] s[i]),
        k > 0 ==> !white_space(s[k - 1]),
    decreases s.len(),
{
    if s.len() > 0 && white_space(s.last()) {
        let rest = s.drop_last();
        let k = lemma_trim_back(rest);
        assert(rest.take(k) =~= s.take(k));
        assert forall|i: int| k <= i < s.len() implies white_space(#[trigger] s[i]) by {
            if i < rest.len() {
                assert(s[i] == rest[i]);
            }
        }
        if k > 0 {
            assert(rest[k - 1] == s[k - 1]);
        }
        k
    } else {
        assert(s.take(s.len() as int) =~= s);
        s.len() as int
    }
}

/// What is trimmed off a text is white space alone, in front and behind; and
/// what is left neither begins nor ends with white space.
pub proof fn law_only_white_space_is_trimmed(s: Seq<char>)
    ensures
        exists|at: int| #[trigger]
            occurs_at(s, trimmed(s), at) && (forall|i: int|
                0 <= i < at || at + trimmed(s).len() <= i < s.len() ==> white_space(
                    #[trigger] s[i],
                )),
        trimmed(s).len() > 0 ==> !white_space(trimmed(s)[0]) && !white_space(
            trimmed(s)[trimmed(s).len() - 1],
        ),
{
    let at = lemma_trim_front(s);
    let rest = s.skip(at);
    let len = lemma_trim_back(rest);
    let t = trimmed(s);
    assert(t =~= s.subrange(at, at + len));
    assert(occurs_at(s, t, at));
    assert forall|i: int| 0 <= i < at || at + t.len() <= i < s.len() implies white_space(
        #[trigger] s[i],
    ) by {
        if i >= at {
            assert(rest[i - at] == s[i]);
        }
    }
    if t.len() > 0 {
        assert(t[0] == s[at]);
        assert(t[t.len() - 1] == rest[len - 1]);
    }
}

/// A text stands in another one at a position exactly where the characters
/// there are its own, one by one.
pub proof fn law_occurrence_is_character_by_character(
    s: Seq<char>,
    pattern: Seq<char>,
    at: int,
)
    ensures
        occurs_at(s, pattern, at) <==> {
            &&& 0 <= at
            &&& at + pattern.len() <= s.len()
            &&& forall|i: int| 0 <= i < pattern.len() ==> s[at + i] == #[trigger] pattern[i]
        },
        starts_with(s, pattern) <==> pattern.is_prefix_of(s),
{
    if 0 <= at && at + pattern.len() <= s.len() {
        let part = s.subrange(at, at + pattern.len());
        if part == pattern {
            assert forall|i: int| 0 <= i < pattern.len() implies s[at + i]
                == #[trigger] pattern[i] by {
                assert(part[i] == s[at + i]);
            }
        } else if forall|i: int| 0 <= i < pattern.len() ==> s[at + i] == #[trigger] pattern[i] {
            assert(part =~= pattern);
        }
    }
}

/// What stands behind the first marker in a text is the rest of the text: the
/// text is what is in front of it, the marker, and the rest. There is no rest
/// exactly where the marker stands nowhere in the text.
pub proof fn law_rest_behind_the_first_marker(
    front: Seq<char>,
    marker: Seq<char>,
    rest: Seq<char>,
    s: Seq<char>,
)
    ensures
        (forall|i: int|
            0 <= i < front.len() ==> !#[trigger] occurs_at(front + marker + rest, marker, i))
            ==> after_marker(front + marker + rest, marker) == Some(rest),
        after_marker(s, marker) is None <==> forall|i: int| !#[trigger] occurs_at(s, marker, i),
{
    let whole = front + marker + rest;
    let at = front.len() as int;
    assert(whole.subrange(at, at + marker.len()) =~= marker);
    assert(occurs_at(whole, marker, at));
    if forall|i: int| 0 <= i < at ==> !#[trigger] occurs_at(whole, marker, i) {
        assert(is_first_occurrence(whole, marker, at));
        let found = choose|found: int| #[trigger] is_first_occurrence(whole, marker, found);
        lemma_first_occurrence_is_unique(whole, marker, at, found);
        assert(whole.skip(at + marker.len()) =~= rest);
    }
    if exists|i: int| #[trigger] occurs_at(s, marker, i) {
        let i = choose|i: int| #[trigger] occurs_at(s, marker, i);
        let first = lemma_first_occurrence(s, marker, i);
        assert(is_first_occurrence(s, marker, first));
    } else if after_marker(s, marker) is Some {
        let found = choose|found: int| #[trigger] is_first_occurrence(s, marker, found);
        assert(occurs_at(s, marker, found));
    }
}

proof fn lemma_first_occurrence(s: Seq<char>, pattern: Seq<char>, at: int) -> (first: int)
    requires
        occurs_at(s, pattern, at),
    ensures
        is_first_occurrence(s, pattern, first),
    decreases at,
{
    if exists|before: int| 0 <= before < at && #[trigger] occurs_at(s, pattern, before) {
        let before = choose|before: int|
            0 <= before < at && #[trigger] occurs_at(s, pattern, before);
        lemma_first_occurrence(s, pattern, before)
    } else {
        at
    }
}

proof fn lemma_newlines_of_a_line(before: Seq<char>, line: Seq<char>)
    requires
        !line.contains('\n'),
    ensures
        newlines(before + line) == newlines(before),
    decreases line.len(),
{
    if line.len() == 0 {
        assert(before + line =~= before);
    } else {
        let whole = before + line;
        assert(line.contains(line.last()));
        assert(whole.last() == line.last());
        assert(whole.drop_last() =~= before + line.drop_last());
        assert(!line.drop_last().contains('\n')) by {
            if line.drop_last().contains('\n') {
                let i = choose|i: int|
                    0 <= i < line.drop_last().len() && line.drop_last()[i] == '\n';
                assert(line[i] == '\n');
            }
        }
        lemma_newlines_of_a_line(before, line.drop_last());
    }
}

/// A text without characters has no lines; behind whole lines, each further
/// one counts once, whether a newline ends it or not.
pub proof fn law_each_line_counts_once(before: Seq<char>, line: Seq<char>)
    requires
        before.len() == 0 || before.last() == '\n',
        !line.contains('\n'),
    ensures
        line_count(Seq::empty()) == 0,
        line_count(before + line + seq!['\n']) == line_count(before) + 1,
        line.len() > 0 ==> line_count(before + line) == line_count(before) + 1,
{
    lemma_newlines_of_a_line(before, line);
    let ended = before + line + seq!['\n'];
    assert(ended.drop_last() =~= before + line);
    assert(ended.last() == '\n');
    if line.len() > 0 {
        assert((before + line).last() == line.last());
        assert(line.contains(line.last()));
    }
}

/// To cut a text behind some bytes is to take as many bytes off the front of
/// its UTF-8 form, which can be done exactly where a character begins there, or
/// where the text ends.
pub proof fn law_cut_takes_the_first_bytes(s: Seq<char>, n: int)
    ensures
        byte_len(s) == encode_utf8(s).len(),
        can_cut(s, n) <==> is_char_boundary(encode_utf8(s), n),
        can_cut(s, n) && 0 <= n <= encode_utf8(s).len() ==> encode_utf8(byte_prefix(s, n))
            == encode_utf8(s).subrange(0, n),
{
    if can_cut(s, n) && 0 <= n <= encode_utf8(s).len() {
        encode_utf8_valid_utf8(s);
        valid_utf8_split(encode_utf8(s), n);
        decode_utf8_encode_utf8(encode_utf8(s).subrange(0, n));
    }
}

/// The number that some decimal digits stand for.
pub open spec fn numeral(digits: Seq<char>) -> int
    decreases digits.len(),
{
    if digits.len() == 0 {
        0
    } else {
        10 * numeral(digits.drop_last()) + (digits.last() as int - '0' as int)
    }
}

/// The decimal form of a number stands for that number, with a minus sign in
/// front exactly where it is negative.
pub proof fn law_decimals_stand_for_their_number(n: nat, z: int)
    ensures
        numeral(decimal(n)) == n,
        z >= 0 ==> numeral(signed_decimal(z)) == z && signed_decimal(z)[0] != '-',
        z < 0 ==> signed_decimal(z)[0] == '-' && numeral(signed_decimal(z).drop_first()) == -z,
{
    lemma_numeral(n);
    if z >= 0 {
        lemma_numeral(z as nat);
        law_decimals_can_be_read_back(z as nat, z as nat);
    } else {
        lemma_numeral((-z) as nat);
        assert(signed_decimal(z).drop_first() =~= decimal((-z) as nat));
    }
}

proof fn lemma_numeral(n: nat)
    ensures
        numeral(decimal(n)) == n,
    decreases n,
{
    if n < 10 {
        assert(decimal(n).drop_last() =~= Seq::<char>::empty());
        assert(numeral(Seq::<char>::empty()) == 0);
    } else {
        lemma_numeral(n / 10);
        assert(decimal(n).drop_last() =~= decimal(n / 10));
    }
}

} // verus!
