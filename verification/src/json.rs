//! JSON values, and the text that stands for them: without white space, and
//! such that the value can be told from it.

use crate::outside::json_string;
use crate::text::{chars_of, decimal_text, same_text};
use vstd::prelude::*;
use vstd::string::*;

verus! {

/// A JSON value.
#[derive(Debug)]
pub enum JsonValue {
    Null,
    Bool(bool),
    /// A number, in the form in which it is written.
    Number(String),
    Text(String),
    Array(Vec<JsonValue>),
    Object(Vec<JsonMember>),
}

/// A member of a JSON object.
#[derive(Debug)]
pub struct JsonMember {
    pub key: String,
    pub value: JsonValue,
}

/// The contents of a [`JsonValue`].
pub enum JsonView {
    Null,
    Bool(bool),
    Number(Seq<char>),
    Text(Seq<char>),
    Array(Seq<JsonView>),
    Object(Seq<MemberView>),
}

/// The contents of a [`JsonMember`].
pub struct MemberView {
    pub key: Seq<char>,
    pub value: JsonView,
}

/// The contents of a value.
pub open spec fn value_view(value: JsonValue) -> JsonView
    decreases value,
{
    match value {
        JsonValue::Null => JsonView::Null,
        JsonValue::Bool(b) => JsonView::Bool(b),
        JsonValue::Number(literal) => JsonView::Number(literal@),
        JsonValue::Text(text) => JsonView::Text(text@),
        JsonValue::Array(items) => JsonView::Array(value_views(items@)),
        JsonValue::Object(members) => JsonView::Object(member_views(members@)),
    }
}

/// The contents of some values.
pub open spec fn value_views(items: Seq<JsonValue>) -> Seq<JsonView>
    decreases items,
{
    if items.len() == 0 {
        Seq::empty()
    } else {
        value_views(items.drop_last()).push(value_view(items.last()))
    }
}

/// The contents of some members.
pub open spec fn member_views(members: Seq<JsonMember>) -> Seq<MemberView>
    decreases members,
{
    if members.len() == 0 {
        Seq::empty()
    } else {
        member_views(members.drop_last()).push(
            MemberView { key: members.last().key@, value: value_view(members.last().value) },
        )
    }
}

impl View for JsonValue {
    type V = JsonView;

    open spec fn view(&self) -> JsonView {
        value_view(*self)
    }
}

impl View for JsonMember {
    type V = MemberView;

    open spec fn view(&self) -> MemberView {
        MemberView { key: self.key@, value: value_view(self.value) }
    }
}

/// The parts one behind the other, with a comma between two of them.
pub open spec fn joined(parts: Seq<Seq<char>>) -> Seq<char>
    decreases parts.len(),
{
    if parts.len() == 0 {
        Seq::empty()
    } else if parts.len() == 1 {
        parts[0]
    } else {
        joined(parts.drop_last()) + seq![','] + parts.last()
    }
}

/// The text of a value.
pub open spec fn value_text(value: JsonView) -> Seq<char>
    decreases value,
{
    match value {
        JsonView::Null => "null"@,
        JsonView::Bool(true) => "true"@,
        JsonView::Bool(false) => "false"@,
        JsonView::Number(literal) => literal,
        JsonView::Text(text) => crate::outside::json_string_text(text),
        JsonView::Array(items) => seq!['['] + joined(value_texts(items)) + seq![']'],
        JsonView::Object(members) => seq!['{'] + joined(member_texts(members)) + seq!['}'],
    }
}

/// The texts of some values.
pub open spec fn value_texts(items: Seq<JsonView>) -> Seq<Seq<char>>
    decreases items,
{
    if items.len() == 0 {
        Seq::empty()
    } else {
        value_texts(items.drop_last()).push(value_text(items.last()))
    }
}

/// The texts of some members: key, colon and value.
pub open spec fn member_texts(members: Seq<MemberView>) -> Seq<Seq<char>>
    decreases members,
{
    if members.len() == 0 {
        Seq::empty()
    } else {
        member_texts(members.drop_last()).push(
            crate::outside::json_string_text(members.last().key) + seq![':'] + value_text(
                members.last().value,
            ),
        )
    }
}

/// Whether no two members have the same key.
pub open spec fn distinct_keys(members: Seq<MemberView>) -> bool {
    forall|i: int, j: int|
        0 <= i < j < members.len() ==> (#[trigger] members[i]).key != (#[trigger] members[j]).key
}

/// Whether `s` is made of decimal digits, and of at least one.
pub open spec fn is_digits(s: Seq<char>) -> bool {
    s.len() > 0 && forall|i: int| 0 <= i < s.len() ==> '0' <= #[trigger] s[i] <= '9'
}

/// A whole number without leading zeros.
pub open spec fn is_natural(s: Seq<char>) -> bool {
    is_digits(s) && (s.len() == 1 || s[0] != '0')
}

/// A whole number without leading zeros, perhaps behind a minus sign.
pub open spec fn is_integer(s: Seq<char>) -> bool {
    is_natural(s) || (s.len() > 0 && s[0] == '-' && is_natural(s.drop_first()))
}

/// Nothing, or a point and digits.
pub open spec fn is_fraction(s: Seq<char>) -> bool {
    s.len() == 0 || (s[0] == '.' && is_digits(s.drop_first()))
}

/// Nothing, or the letter of an exponent and digits, perhaps with a sign
/// between them.
pub open spec fn is_exponent(s: Seq<char>) -> bool {
    s.len() == 0 || ((s[0] == 'e' || s[0] == 'E') && (is_digits(s.drop_first()) || (s.len() > 1 && (
    s[1] == '+' || s[1] == '-') && is_digits(s.skip(2)))))
}

/// Whether `s` is a number whose fraction begins at `point`, and whose
/// exponent begins at `exponent`.
pub open spec fn is_number_with(s: Seq<char>, point: int, exponent: int) -> bool {
    &&& 0 <= point <= exponent <= s.len()
    &&& is_integer(s.take(point))
    &&& is_fraction(s.subrange(point, exponent))
    &&& is_exponent(s.skip(exponent))
}

/// Whether `literal` is a number as JSON writes it.
pub open spec fn is_number(literal: Seq<char>) -> bool {
    exists|point: int, exponent: int| #[trigger] is_number_with(literal, point, exponent)
}

/// The characters that numbers are made of.
spec fn number_char(c: char) -> bool {
    '0' <= c <= '9' || c == '-' || c == '+' || c == '.' || c == 'e' || c == 'E'
}

/// Whether `s` is made of the characters of numbers, the first of which is a
/// digit or a minus sign.
spec fn like_a_number(s: Seq<char>) -> bool {
    &&& s.len() > 0
    &&& '0' <= s[0] <= '9' || s[0] == '-'
    &&& forall|i: int| 0 <= i < s.len() ==> number_char(#[trigger] s[i])
}

proof fn lemma_number_chars(s: Seq<char>)
    requires
        is_number(s),
    ensures
        like_a_number(s),
{
    let (point, exponent) = choose|point: int, exponent: int| #[trigger]
        is_number_with(s, point, exponent);
    let whole = s.take(point);
    let fraction = s.subrange(point, exponent);
    let power = s.skip(exponent);
    assert(s[0] == whole[0]);
    assert forall|i: int| 0 <= i < s.len() implies number_char(#[trigger] s[i]) by {
        if i < point {
            assert(s[i] == whole[i]);
            if !is_natural(whole) && i > 0 {
                assert(whole.drop_first()[i - 1] == whole[i]);
            }
        } else if i < exponent {
            assert(s[i] == fraction[i - point]);
            if i > point {
                assert(fraction.drop_first()[i - point - 1] == fraction[i - point]);
            }
        } else {
            let k = i - exponent;
            assert(s[i] == power[k]);
            if is_digits(power.drop_first()) {
                if k > 0 {
                    assert(power.drop_first()[k - 1] == power[k]);
                }
            } else if k > 1 {
                assert(power.skip(2)[k - 2] == power[k]);
            }
        }
    }
}

/// A whole number without leading zeros is a number.
pub proof fn lemma_natural_is_a_number(s: Seq<char>)
    requires
        is_natural(s),
    ensures
        is_number(s),
{
    let len = s.len() as int;
    assert(s.take(len) =~= s);
    assert(s.subrange(len, len).len() == 0);
    assert(s.skip(len).len() == 0);
    assert(is_number_with(s, len, len));
}

/// Whether a value is well-formed: all numbers in it are numbers, and no key
/// stands twice in an object, at any depth.
pub open spec fn value_wf(value: JsonView) -> bool
    decreases value,
{
    match value {
        JsonView::Number(literal) => is_number(literal),
        JsonView::Array(items) => values_wf(items),
        JsonView::Object(members) => distinct_keys(members) && members_wf(members),
        _ => true,
    }
}

/// Whether some values are well-formed.
pub open spec fn values_wf(items: Seq<JsonView>) -> bool
    decreases items,
{
    items.len() > 0 ==> values_wf(items.drop_last()) && value_wf(items.last())
}

/// Whether the values of some members are well-formed.
pub open spec fn members_wf(members: Seq<MemberView>) -> bool
    decreases members,
{
    members.len() > 0 ==> members_wf(members.drop_last()) && value_wf(members.last().value)
}

proof fn lemma_value_texts(items: Seq<JsonView>)
    ensures
        value_texts(items).len() == items.len(),
        forall|i: int| 0 <= i < items.len() ==> #[trigger] value_texts(items)[i] == value_text(items[i]),
        values_wf(items) ==> forall|i: int|
            0 <= i < items.len() ==> value_wf(#[trigger] items[i]),
    decreases items.len(),
{
    if items.len() > 0 {
        let front = items.drop_last();
        lemma_value_texts(front);
        assert forall|i: int| 0 <= i < items.len() implies #[trigger] value_texts(items)[i]
            == value_text(items[i]) by {
            if i < front.len() {
                assert(value_texts(items)[i] == value_texts(front)[i]);
            }
        }
        if values_wf(items) {
            assert forall|i: int| 0 <= i < items.len() implies value_wf(#[trigger] items[i]) by {
                if i < front.len() {
                    assert(front[i] == items[i]);
                }
            }
        }
    }
}

pub(crate) proof fn lemma_member_texts(members: Seq<MemberView>)
    ensures
        member_texts(members).len() == members.len(),
        forall|i: int|
            0 <= i < members.len() ==> #[trigger] member_texts(members)[i]
                == crate::outside::json_string_text(members[i].key) + seq![':'] + value_text(
                members[i].value,
            ),
        members_wf(members) ==> forall|i: int|
            0 <= i < members.len() ==> value_wf((#[trigger] members[i]).value),
    decreases members.len(),
{
    if members.len() > 0 {
        let front = members.drop_last();
        lemma_member_texts(front);
        assert forall|i: int| 0 <= i < members.len() implies #[trigger] member_texts(members)[i]
            == crate::outside::json_string_text(members[i].key) + seq![':'] + value_text(
            members[i].value,
        ) by {
            if i < front.len() {
                assert(member_texts(members)[i] == member_texts(front)[i]);
            }
        }
        if members_wf(members) {
            assert forall|i: int| 0 <= i < members.len() implies value_wf(
                (#[trigger] members[i]).value,
            ) by {
                if i < front.len() {
                    assert(front[i] == members[i]);
                }
            }
        }
    }
}

pub(crate) proof fn lemma_values_wf(items: Seq<JsonView>)
    requires
        forall|i: int| 0 <= i < items.len() ==> value_wf(#[trigger] items[i]),
    ensures
        values_wf(items),
    decreases items.len(),
{
    if items.len() > 0 {
        let front = items.drop_last();
        assert forall|i: int| 0 <= i < front.len() implies value_wf(#[trigger] front[i]) by {
            assert(front[i] == items[i]);
        }
        lemma_values_wf(front);
        assert(value_wf(items[items.len() - 1]));
    }
}

pub(crate) proof fn lemma_members_wf(members: Seq<MemberView>)
    requires
        forall|i: int| 0 <= i < members.len() ==> value_wf((#[trigger] members[i]).value),
    ensures
        members_wf(members),
    decreases members.len(),
{
    if members.len() > 0 {
        let front = members.drop_last();
        assert forall|i: int| 0 <= i < front.len() implies value_wf(
            (#[trigger] front[i]).value,
        ) by {
            assert(front[i] == members[i]);
        }
        lemma_members_wf(front);
        assert(value_wf(members[members.len() - 1].value));
    }
}

fn enclosed(open: &str, parts: &Vec<String>, close: &str) -> (text: String)
    ensures
        text@ == open@ + joined(parts.deep_view()) + close@,
{
    let mut text = open.to_string();
    let mut i: usize = 0;
    let ghost all = parts.deep_view();
    assert(text@ =~= open@ + joined(all.take(0)));
    while i < parts.len()
        invariant
            i <= parts.len(),
            all == parts.deep_view(),
            text@ == open@ + joined(all.take(i as int)),
        decreases parts.len() - i,
    {
        if i > 0 {
            text.append(",");
        }
        text.append(parts[i].as_str());
        proof {
            reveal_strlit(",");
            assert(","@ =~= seq![',']);
            let next = all.take(i as int + 1);
            assert(next.drop_last() =~= all.take(i as int));
            assert(text@ =~= open@ + joined(next));
        }
        i = i + 1;
    }
    assert(all.take(parts.len() as int) =~= all);
    text.append(close);
    text
}

/// The text of a value.
pub fn encode_value(value: &JsonValue) -> (text: String)
    ensures
        text@ == value_text(value@),
    decreases value,
{
    match value {
        JsonValue::Null => "null".to_string(),
        JsonValue::Bool(b) => if *b {
            "true".to_string()
        } else {
            "false".to_string()
        },
        JsonValue::Number(literal) => literal.clone(),
        JsonValue::Text(text) => json_string(text.as_str()),
        JsonValue::Array(items) => {
            assert(decreases_to!(*value => value->Array_0));
            let parts = encode_values(items);
            proof {
                reveal_strlit("[");
                reveal_strlit("]");
                assert("["@ =~= seq!['[']);
                assert("]"@ =~= seq![']']);
            }
            enclosed("[", &parts, "]")
        },
        JsonValue::Object(members) => {
            assert(decreases_to!(*value => value->Object_0));
            let parts = encode_members(members);
            proof {
                reveal_strlit("{");
                reveal_strlit("}");
                assert("{"@ =~= seq!['{']);
                assert("}"@ =~= seq!['}']);
            }
            enclosed("{", &parts, "}")
        },
    }
}

/// The texts of some values.
fn encode_values(items: &Vec<JsonValue>) -> (texts: Vec<String>)
    ensures
        texts.deep_view() == value_texts(value_views(items@)),
    decreases items,
{
    let mut texts: Vec<String> = Vec::new();
    let mut i: usize = 0;
    assert(texts.deep_view() =~= value_texts(value_views(items@.take(0))));
    while i < items.len()
        invariant
            i <= items.len(),
            texts.deep_view() == value_texts(value_views(items@.take(i as int))),
        decreases items.len() - i,
    {
        assert(decreases_to!(*items => items@));
        assert(decreases_to!(items@ => items@[i as int]));
        let text = encode_value(&items[i]);
        let ghost before = texts.deep_view();
        texts.push(text);
        proof {
            let front = value_views(items@.take(i as int));
            assert(items@.take(i as int + 1).drop_last() =~= items@.take(i as int));
            assert(front.push(value_view(items@[i as int])).drop_last() =~= front);
            assert(texts.deep_view() =~= before.push(text@));
        }
        i = i + 1;
    }
    assert(items@.take(items.len() as int) =~= items@);
    texts
}

/// The texts of some members.
fn encode_members(members: &Vec<JsonMember>) -> (texts: Vec<String>)
    ensures
        texts.deep_view() == member_texts(member_views(members@)),
    decreases members,
{
    let mut texts: Vec<String> = Vec::new();
    let mut i: usize = 0;
    assert(texts.deep_view() =~= member_texts(member_views(members@.take(0))));
    while i < members.len()
        invariant
            i <= members.len(),
            texts.deep_view() == member_texts(member_views(members@.take(i as int))),
        decreases members.len() - i,
    {
        assert(decreases_to!(*members => members@));
        assert(decreases_to!(members@ => members@[i as int]));
        assert(decreases_to!(members@[i as int] => members@[i as int].value));
        let value = encode_value(&members[i].value);
        let mut text = json_string(members[i].key.as_str());
        text.append(":");
        text.append(value.as_str());
        let ghost before = texts.deep_view();
        texts.push(text);
        proof {
            reveal_strlit(":");
            assert(":"@ =~= seq![':']);
            let front = member_views(members@.take(i as int));
            assert(members@.take(i as int + 1).drop_last() =~= members@.take(i as int));
            assert(front.push(members@[i as int]@).drop_last() =~= front);
            assert(texts.deep_view() =~= before.push(text@));
        }
        i = i + 1;
    }
    assert(members@.take(members.len() as int) =~= members@);
    texts
}

/// Whether the digits that begin at `from` end at `to`.
spec fn is_run(s: Seq<char>, from: int, to: int) -> bool {
    &&& from <= to <= s.len()
    &&& forall|i: int| from <= i < to ==> '0' <= #[trigger] s[i] <= '9'
    &&& to < s.len() ==> !('0' <= s[to] <= '9')
}

fn run_end(chars: &Vec<char>, from: usize) -> (to: usize)
    requires
        from <= chars.len(),
    ensures
        is_run(chars@, from as int, to as int),
{
    let mut to: usize = from;
    while to < chars.len() && '0' <= chars[to] && chars[to] <= '9'
        invariant
            from <= to <= chars.len(),
            forall|i: int| from <= i < to ==> '0' <= #[trigger] chars@[i] <= '9',
        decreases chars.len() - to,
    {
        to = to + 1;
    }
    to
}

/// Where the parts of a number are is settled by its characters.
proof fn lemma_number_parts(
    s: Seq<char>,
    p: int,
    e: int,
    start: int,
    point: int,
    exponent: int,
)
    requires
        is_number_with(s, p, e),
        start == if s.len() > 0 && s[0] == '-' {
            1int
        } else {
            0
        },
        is_run(s, start, point),
        if point < s.len() && s[point] == '.' {
            is_run(s, point + 1, exponent)
        } else {
            exponent == point
        },
    ensures
        p == point,
        e == exponent,
{
    let whole = s.take(p);
    let fraction = s.subrange(p, e);
    let power = s.skip(e);
    assert(p > 0 && whole[0] == s[0]);
    assert(start < p) by {
        if start == 1 {
            assert(!is_natural(whole)) by {
                assert(!('0' <= whole[0] <= '9'));
            }
            assert(whole.drop_first().len() > 0);
        }
    }
    assert forall|i: int| start <= i < p implies '0' <= #[trigger] s[i] <= '9' by {
        if start == 1 {
            assert(!('0' <= whole[0] <= '9'));
            assert(whole.drop_first()[i - 1] == s[i]);
        } else {
            assert(whole[0] != '-');
            assert(whole[i] == s[i]);
        }
    }
    if p < s.len() {
        if p < e {
            assert(fraction[0] == s[p]);
        } else {
            assert(power[0] == s[p]);
        }
    }
    assert(p == point) by {
        if p < point {
            assert('0' <= s[p] <= '9');
        }
        if point < p {
            assert('0' <= s[point] <= '9');
        }
    }
    if p < e {
        assert(fraction[0] == s[p]);
        assert forall|i: int| p + 1 <= i < e implies '0' <= #[trigger] s[i] <= '9' by {
            assert(fraction.drop_first()[i - p - 1] == s[i]);
        }
        if e < s.len() {
            assert(power[0] == s[e]);
        }
        if e < exponent {
            assert('0' <= s[e] <= '9');
        }
        if exponent < e {
            assert('0' <= s[exponent] <= '9');
        }
    } else if p < s.len() {
        assert(power[0] == s[p]);
    }
}

fn is_exponent_from(chars: &Vec<char>, from: usize) -> (yes: bool)
    requires
        from <= chars.len(),
    ensures
        yes == is_exponent(chars@.skip(from as int)),
{
    let ghost power = chars@.skip(from as int);
    if from == chars.len() {
        return true;
    }
    assert(power[0] == chars@[from as int]);
    if chars[from] != 'e' && chars[from] != 'E' {
        return false;
    }
    let signed = from + 1 < chars.len() && (chars[from + 1] == '+' || chars[from + 1] == '-');
    let start: usize = if signed {
        from + 2
    } else {
        from + 1
    };
    let end = run_end(chars, start);
    let yes = end > start && end == chars.len();
    proof {
        let tail = if signed {
            power.skip(2)
        } else {
            power.drop_first()
        };
        assert(tail =~= chars@.skip(start as int));
        if signed {
            assert(power[1] == chars@[from + 1]);
            assert(power.drop_first()[0] == power[1]);
        } else if power.len() > 1 {
            assert(power[1] == chars@[from + 1]);
        }
        if yes {
            assert(is_digits(tail));
        } else if tail.len() > 0 && end < chars.len() {
            assert(tail[end - start] == chars@[end as int]);
        }
        assert(yes == is_digits(tail));
    }
    yes
}

/// Whether `literal` is a number as JSON writes it.
pub fn is_json_number(literal: &str) -> (yes: bool)
    ensures
        yes == is_number(literal@),
{
    let chars = chars_of(literal);
    let start: usize = if chars.len() > 0 && chars[0] == '-' {
        1
    } else {
        0
    };
    let point = run_end(&chars, start);
    let has_fraction = point < chars.len() && chars[point] == '.';
    let exponent: usize = if has_fraction {
        run_end(&chars, point + 1)
    } else {
        point
    };
    let whole_ok = point > start && (point - start == 1 || chars[start] != '0');
    let fraction_ok = !has_fraction || exponent > point + 1;
    let yes = whole_ok && fraction_ok && is_exponent_from(&chars, exponent);
    proof {
        let s = literal@;
        let whole = s.take(point as int);
        let fraction = s.subrange(point as int, exponent as int);
        if start == 1 {
            assert(whole.len() > 0 ==> whole[0] == '-');
            assert(point > 0 ==> whole.drop_first() =~= s.subrange(1, point as int));
        } else {
            assert(whole =~= s.subrange(0, point as int));
        }
        let natural = s.subrange(start as int, point as int);
        assert(whole_ok == is_natural(natural)) by {
            if point > start {
                assert(natural[0] == s[start as int]);
                assert(is_digits(natural));
            }
        }
        assert(whole_ok == is_integer(whole)) by {
            if start == 1 && point > 0 {
                assert(!is_natural(whole)) by {
                    assert(!('0' <= whole[0] <= '9'));
                }
            } else if point > 0 {
                assert(whole[0] != '-');
            }
        }
        if has_fraction {
            assert(fraction[0] == '.');
            assert(fraction.drop_first() =~= s.subrange(point + 1, exponent as int));
            assert(fraction_ok == is_digits(fraction.drop_first()));
        }
        assert(fraction_ok == is_fraction(fraction));
        assert(yes == is_number_with(s, point as int, exponent as int));
        if is_number(s) {
            let (p, e) = choose|p: int, e: int| #[trigger] is_number_with(s, p, e);
            lemma_number_parts(s, p, e, start as int, point as int, exponent as int);
        }
    }
    yes
}

proof fn lemma_member_views(members: Seq<JsonMember>)
    ensures
        member_views(members).len() == members.len(),
        forall|i: int|
            0 <= i < members.len() ==> #[trigger] member_views(members)[i] == members[i]@,
    decreases members.len(),
{
    if members.len() > 0 {
        let front = members.drop_last();
        lemma_member_views(front);
        assert forall|i: int| 0 <= i < members.len() implies #[trigger] member_views(members)[i]
            == members[i]@ by {
            if i < front.len() {
                assert(member_views(members)[i] == member_views(front)[i]);
            }
        }
    }
}

fn has_distinct_keys(members: &Vec<JsonMember>) -> (yes: bool)
    ensures
        yes == distinct_keys(member_views(members@)),
{
    let ghost views = member_views(members@);
    proof {
        lemma_member_views(members@);
    }
    let mut j: usize = 0;
    while j < members.len()
        invariant
            j <= members.len(),
            views == member_views(members@),
            views.len() == members.len(),
            forall|i: int| 0 <= i < members.len() ==> #[trigger] views[i] == members@[i]@,
            forall|a: int, b: int|
                0 <= a < b < j ==> (#[trigger] views[a]).key != (#[trigger] views[b]).key,
        decreases members.len() - j,
    {
        let mut i: usize = 0;
        while i < j
            invariant
                i <= j < members.len(),
                views == member_views(members@),
                views.len() == members.len(),
                forall|k: int| 0 <= k < members.len() ==> #[trigger] views[k] == members@[k]@,
                forall|a: int| 0 <= a < i ==> (#[trigger] views[a]).key != views[j as int].key,
            decreases j - i,
        {
            if same_text(members[i].key.as_str(), members[j].key.as_str()) {
                assert(views[i as int].key == views[j as int].key);
                return false;
            }
            assert(views[i as int].key != views[j as int].key);
            i = i + 1;
        }
        j = j + 1;
    }
    true
}

/// Whether a value is well-formed.
pub fn is_well_formed(value: &JsonValue) -> (yes: bool)
    ensures
        yes == value_wf(value@),
    decreases value,
{
    match value {
        JsonValue::Number(literal) => is_json_number(literal.as_str()),
        JsonValue::Array(items) => {
            let mut yes = true;
            let mut i: usize = 0;
            while i < items.len()
                invariant
                    i <= items.len(),
                    value == JsonValue::Array(*items),
                    yes == values_wf(value_views(items@.take(i as int))),
                decreases items.len() - i,
            {
                assert(decreases_to!(*value => value->Array_0));
                assert(decreases_to!(*items => items@));
                assert(decreases_to!(items@ => items@[i as int]));
                let item_ok = is_well_formed(&items[i]);
                proof {
                    let front = value_views(items@.take(i as int));
                    assert(items@.take(i as int + 1).drop_last() =~= items@.take(i as int));
                    assert(front.push(value_view(items@[i as int])).drop_last() =~= front);
                }
                yes = yes && item_ok;
                i = i + 1;
            }
            assert(items@.take(items.len() as int) =~= items@);
            yes
        },
        JsonValue::Object(members) => {
            assert(decreases_to!(*value => value->Object_0));
            members_are_well_formed(members)
        },
        _ => true,
    }
}

/// Whether some members make a well-formed object.
pub fn members_are_well_formed(members: &Vec<JsonMember>) -> (yes: bool)
    ensures
        yes == value_wf(JsonView::Object(member_views(members@))),
    decreases members,
{
    let mut yes = true;
    let mut i: usize = 0;
    while i < members.len()
        invariant
            i <= members.len(),
            yes == members_wf(member_views(members@.take(i as int))),
        decreases members.len() - i,
    {
        assert(decreases_to!(*members => members@));
        assert(decreases_to!(members@ => members@[i as int]));
        assert(decreases_to!(members@[i as int] => members@[i as int].value));
        let value_ok = is_well_formed(&members[i].value);
        proof {
            let front = member_views(members@.take(i as int));
            assert(members@.take(i as int + 1).drop_last() =~= members@.take(i as int));
            assert(front.push(members@[i as int]@).drop_last() =~= front);
        }
        yes = yes && value_ok;
        i = i + 1;
    }
    assert(members@.take(members.len() as int) =~= members@);
    yes && has_distinct_keys(members)
}

/// Put a value behind the others.
pub fn push_value(items: &mut Vec<JsonValue>, value: JsonValue)
    ensures
        value_views(final(items)@) == value_views(old(items)@).push(value@),
{
    items.push(value);
    assert(items@.drop_last() =~= old(items)@);
}

/// Put a member behind the others.
pub fn push_member(members: &mut Vec<JsonMember>, key: &str, value: JsonValue)
    ensures
        member_views(final(members)@) == member_views(old(members)@).push(
            MemberView { key: key@, value: value@ },
        ),
{
    members.push(JsonMember { key: key.to_string(), value });
    assert(members@.drop_last() =~= old(members)@);
}

/// Put a member with a string for its value behind the others.
pub fn push_text(members: &mut Vec<JsonMember>, key: &str, text: &str)
    ensures
        member_views(final(members)@) == member_views(old(members)@).push(
            MemberView { key: key@, value: JsonView::Text(text@) },
        ),
{
    push_member(members, key, JsonValue::Text(text.to_string()));
}

/// Put a member with a whole number for its value behind the others.
pub fn push_number(members: &mut Vec<JsonMember>, key: &str, number: u64)
    ensures
        member_views(final(members)@) == member_views(old(members)@).push(
            MemberView {
                key: key@,
                value: JsonView::Number(crate::text::decimal(number as nat)),
            },
        ),
{
    push_member(members, key, JsonValue::Number(decimal_text(number)));
}

/// A copy of a value.
pub fn copy_value(value: &JsonValue) -> (copy: JsonValue)
    ensures
        copy@ == value@,
    decreases value,
{
    match value {
        JsonValue::Null => JsonValue::Null,
        JsonValue::Bool(b) => JsonValue::Bool(*b),
        JsonValue::Number(literal) => JsonValue::Number(literal.clone()),
        JsonValue::Text(text) => JsonValue::Text(text.clone()),
        JsonValue::Array(items) => {
            assert(decreases_to!(*value => value->Array_0));
            let mut copies: Vec<JsonValue> = Vec::new();
            let mut i: usize = 0;
            assert(value_views(copies@) =~= value_views(items@.take(0)));
            while i < items.len()
                invariant
                    i <= items.len(),
                    value == JsonValue::Array(*items),
                    value_views(copies@) == value_views(items@.take(i as int)),
                decreases items.len() - i,
            {
                assert(decreases_to!(*value => value->Array_0));
                assert(decreases_to!(*items => items@));
                assert(decreases_to!(items@ => items@[i as int]));
                let copy = copy_value(&items[i]);
                push_value(&mut copies, copy);
                assert(items@.take(i as int + 1).drop_last() =~= items@.take(i as int));
                i = i + 1;
            }
            assert(items@.take(items.len() as int) =~= items@);
            JsonValue::Array(copies)
        },
        JsonValue::Object(members) => {
            assert(decreases_to!(*value => value->Object_0));
            JsonValue::Object(copy_members(members))
        },
    }
}

/// A copy of some members.
pub fn copy_members(members: &Vec<JsonMember>) -> (copies: Vec<JsonMember>)
    ensures
        member_views(copies@) == member_views(members@),
    decreases members,
{
    let mut copies: Vec<JsonMember> = Vec::new();
    let mut i: usize = 0;
    assert(member_views(copies@) =~= member_views(members@.take(0)));
    while i < members.len()
        invariant
            i <= members.len(),
            member_views(copies@) == member_views(members@.take(i as int)),
        decreases members.len() - i,
    {
        assert(decreases_to!(*members => members@));
        assert(decreases_to!(members@ => members@[i as int]));
        assert(decreases_to!(members@[i as int] => members@[i as int].value));
        let value = copy_value(&members[i].value);
        push_member(&mut copies, members[i].key.as_str(), value);
        assert(members@.take(i as int + 1).drop_last() =~= members@.take(i as int));
        i = i + 1;
    }
    assert(members@.take(members.len() as int) =~= members@);
    copies
}

impl Clone for JsonValue {
    /// A copy of the value.
    fn clone(&self) -> (copy: Self)
        ensures
            copy@ == self@,
    {
        copy_value(self)
    }
}

impl Clone for JsonMember {
    /// A copy of the member.
    fn clone(&self) -> (copy: Self)
        ensures
            copy@ == self@,
    {
        JsonMember { key: self.key.clone(), value: copy_value(&self.value) }
    }
}

/// Whether a text goes on as it does behind a value: not at all, or with a
/// comma or a closing bracket.
spec fn delimited(rest: Seq<char>) -> bool {
    rest.len() == 0 || rest[0] == ',' || rest[0] == ']' || rest[0] == '}'
}

proof fn lemma_strip(front: Seq<char>, x: Seq<char>, y: Seq<char>)
    requires
        front + x == front + y,
    ensures
        x == y,
{
    assert(x =~= (front + x).skip(front.len() as int));
    assert(y =~= (front + y).skip(front.len() as int));
}

proof fn lemma_escape_readable(c: char, d: char, x: Seq<char>, y: Seq<char>)
    requires
        crate::outside::json_escape(c) + x == crate::outside::json_escape(d) + y,
    ensures
        c == d,
        x == y,
{
    let one = crate::outside::json_escape(c);
    let other = crate::outside::json_escape(d);
    let whole = one + x;
    assert(whole[0] == one[0]);
    assert(whole[0] == other[0]);
    if one.len() > 1 {
        assert(whole[1] == one[1]);
        if other.len() > 1 {
            assert(whole[1] == other[1]);
            if one.len() == 6 && other.len() == 6 {
                assert(whole[4] == one[4] && whole[4] == other[4]);
                assert(whole[5] == one[5] && whole[5] == other[5]);
            }
        }
    }
    assert(c == d);
    lemma_strip(one, x, y);
}

proof fn lemma_escaped_readable(a: Seq<char>, b: Seq<char>, x: Seq<char>, y: Seq<char>)
    requires
        crate::outside::json_escaped(a) + seq!['"'] + x == crate::outside::json_escaped(b)
            + seq!['"'] + y,
    ensures
        a == b,
        x == y,
    decreases a.len(),
{
    let one = crate::outside::json_escaped(a) + seq!['"'] + x;
    let other = crate::outside::json_escaped(b) + seq!['"'] + y;
    if a.len() == 0 && b.len() == 0 {
        assert(a =~= b);
        assert(one =~= seq!['"'] + x);
        assert(other =~= seq!['"'] + y);
        lemma_strip(seq!['"'], x, y);
    } else if a.len() == 0 {
        assert(one[0] == '"');
        assert(other[0] == crate::outside::json_escape(b[0])[0]);
        assert(false);
    } else if b.len() == 0 {
        assert(other[0] == '"');
        assert(one[0] == crate::outside::json_escape(a[0])[0]);
        assert(false);
    } else {
        let u = crate::outside::json_escaped(a.drop_first()) + seq!['"'] + x;
        let v = crate::outside::json_escaped(b.drop_first()) + seq!['"'] + y;
        assert(one =~= crate::outside::json_escape(a[0]) + u);
        assert(other =~= crate::outside::json_escape(b[0]) + v);
        lemma_escape_readable(a[0], b[0], u, v);
        lemma_escaped_readable(a.drop_first(), b.drop_first(), x, y);
        assert(a =~= seq![a[0]] + a.drop_first());
        assert(b =~= seq![b[0]] + b.drop_first());
    }
}

proof fn lemma_string_readable(a: Seq<char>, b: Seq<char>, x: Seq<char>, y: Seq<char>)
    requires
        crate::outside::json_string_text(a) + x == crate::outside::json_string_text(b) + y,
    ensures
        a == b,
        x == y,
{
    let u = crate::outside::json_escaped(a) + seq!['"'] + x;
    let v = crate::outside::json_escaped(b) + seq!['"'] + y;
    assert(crate::outside::json_string_text(a) + x =~= seq!['"'] + u);
    assert(crate::outside::json_string_text(b) + y =~= seq!['"'] + v);
    lemma_strip(seq!['"'], u, v);
    lemma_escaped_readable(a, b, x, y);
}

proof fn lemma_number_readable(a: Seq<char>, b: Seq<char>, x: Seq<char>, y: Seq<char>)
    requires
        like_a_number(a),
        like_a_number(b),
        delimited(x),
        delimited(y),
        a + x == b + y,
    ensures
        a == b,
        x == y,
{
    let whole = a + x;
    assert(whole.len() == a.len() + x.len());
    assert(whole.len() == b.len() + y.len());
    if a.len() < b.len() {
        assert(whole[a.len() as int] == b[a.len() as int]);
        assert(whole[a.len() as int] == x[0]);
        assert(false);
    } else if b.len() < a.len() {
        assert(whole[b.len() as int] == a[b.len() as int]);
        assert((b + y)[b.len() as int] == y[0]);
        assert(false);
    }
    assert(a =~= whole.take(a.len() as int));
    assert(b =~= (b + y).take(a.len() as int));
    lemma_strip(a, x, y);
}

/// The kind of a value, by the first character of its text.
spec fn starts_like(value: JsonView, first: char) -> bool {
    match value {
        JsonView::Null => first == 'n',
        JsonView::Bool(true) => first == 't',
        JsonView::Bool(false) => first == 'f',
        JsonView::Number(_) => '0' <= first <= '9' || first == '-',
        JsonView::Text(_) => first == '"',
        JsonView::Array(_) => first == '[',
        JsonView::Object(_) => first == '{',
    }
}

proof fn lemma_first_char(value: JsonView)
    requires
        value_wf(value),
    ensures
        value_text(value).len() > 0,
        starts_like(value, value_text(value)[0]),
{
    reveal_strlit("null");
    reveal_strlit("true");
    reveal_strlit("false");
    if let JsonView::Number(literal) = value {
        lemma_number_chars(literal);
    }
}

proof fn lemma_joined_first(parts: Seq<Seq<char>>)
    requires
        parts.len() >= 2,
    ensures
        joined(parts) == parts[0] + seq![','] + joined(parts.drop_first()),
    decreases parts.len(),
{
    let front = parts.drop_last();
    let back = parts.drop_first();
    if parts.len() == 2 {
        assert(joined(front) == parts[0]);
        assert(joined(back) == parts[1]);
    } else {
        lemma_joined_first(front);
        assert(front.drop_first() =~= back.drop_last());
        assert(joined(parts) =~= parts[0] + seq![','] + joined(back));
    }
}

/// What stands behind the first of some parts, up to the closing bracket and
/// what follows it.
spec fn behind_first(parts: Seq<Seq<char>>, close: char, rest: Seq<char>) -> Seq<char> {
    if parts.len() <= 1 {
        seq![close] + rest
    } else {
        seq![','] + (joined(parts.drop_first()) + seq![close] + rest)
    }
}

proof fn lemma_behind_first(parts: Seq<Seq<char>>, close: char, rest: Seq<char>)
    requires
        parts.len() > 0,
    ensures
        joined(parts) + seq![close] + rest == parts[0] + behind_first(parts, close, rest),
{
    if parts.len() > 1 {
        lemma_joined_first(parts);
    }
    assert(joined(parts) + seq![close] + rest =~= parts[0] + behind_first(parts, close, rest));
}

proof fn lemma_value_readable(a: JsonView, b: JsonView, x: Seq<char>, y: Seq<char>)
    requires
        value_wf(a),
        value_wf(b),
        delimited(x),
        delimited(y),
        value_text(a) + x == value_text(b) + y,
    ensures
        a == b,
        x == y,
    decreases a,
{
    lemma_first_char(a);
    lemma_first_char(b);
    assert((value_text(a) + x)[0] == value_text(a)[0]);
    assert((value_text(b) + y)[0] == value_text(b)[0]);
    match (a, b) {
        (JsonView::Number(one), JsonView::Number(other)) => {
            lemma_number_chars(one);
            lemma_number_chars(other);
            lemma_number_readable(one, other, x, y);
        },
        (JsonView::Text(one), JsonView::Text(other)) => {
            lemma_string_readable(one, other, x, y);
        },
        (JsonView::Array(one), JsonView::Array(other)) => {
            let u = joined(value_texts(one)) + seq![']'] + x;
            let v = joined(value_texts(other)) + seq![']'] + y;
            assert(value_text(a) + x =~= seq!['['] + u);
            assert(value_text(b) + y =~= seq!['['] + v);
            lemma_strip(seq!['['], u, v);
            assert(decreases_to!(a => a->Array_0));
            lemma_items_readable(one, other, x, y);
        },
        (JsonView::Object(one), JsonView::Object(other)) => {
            let u = joined(member_texts(one)) + seq!['}'] + x;
            let v = joined(member_texts(other)) + seq!['}'] + y;
            assert(value_text(a) + x =~= seq!['{'] + u);
            assert(value_text(b) + y =~= seq!['{'] + v);
            lemma_strip(seq!['{'], u, v);
            assert(decreases_to!(a => a->Object_0));
            lemma_members_readable(one, other, x, y);
        },
        _ => {
            assert(a == b);
            lemma_strip(value_text(a), x, y);
        },
    }
}

proof fn lemma_items_readable(
    a: Seq<JsonView>,
    b: Seq<JsonView>,
    x: Seq<char>,
    y: Seq<char>,
)
    requires
        values_wf(a),
        values_wf(b),
        joined(value_texts(a)) + seq![']'] + x == joined(value_texts(b)) + seq![']'] + y,
    ensures
        a == b,
        x == y,
    decreases a,
{
    let one = joined(value_texts(a)) + seq![']'] + x;
    let other = joined(value_texts(b)) + seq![']'] + y;
    lemma_value_texts(a);
    lemma_value_texts(b);
    if a.len() > 0 {
        lemma_behind_first(value_texts(a), ']', x);
        lemma_first_char(a[0]);
        assert(one[0] == value_text(a[0])[0]);
    } else {
        assert(one =~= seq![']'] + x);
    }
    if b.len() > 0 {
        lemma_behind_first(value_texts(b), ']', y);
        lemma_first_char(b[0]);
        assert(other[0] == value_text(b[0])[0]);
    } else {
        assert(other =~= seq![']'] + y);
    }
    if a.len() > 0 && b.len() > 0 {
        let u = behind_first(value_texts(a), ']', x);
        let v = behind_first(value_texts(b), ']', y);
        assert(decreases_to!(a => a[0]));
        lemma_value_readable(a[0], b[0], u, v);
        assert(a.len() == 1 <==> u[0] == ']');
        assert(b.len() == 1 <==> v[0] == ']');
        if a.len() == 1 {
            lemma_strip(seq![']'], x, y);
            assert(a =~= b);
        } else {
            let (rest_a, rest_b) = (a.drop_first(), b.drop_first());
            lemma_value_texts(rest_a);
            lemma_value_texts(rest_b);
            assert(value_texts(a).drop_first() =~= value_texts(rest_a));
            assert(value_texts(b).drop_first() =~= value_texts(rest_b));
            lemma_strip(
                seq![','],
                joined(value_texts(rest_a)) + seq![']'] + x,
                joined(value_texts(rest_b)) + seq![']'] + y,
            );
            assert forall|i: int| 0 <= i < rest_a.len() implies value_wf(#[trigger] rest_a[i]) by {
                assert(rest_a[i] == a[i + 1]);
            }
            assert forall|i: int| 0 <= i < rest_b.len() implies value_wf(#[trigger] rest_b[i]) by {
                assert(rest_b[i] == b[i + 1]);
            }
            lemma_values_wf(rest_a);
            lemma_values_wf(rest_b);
            assert(decreases_to!(a => a.subrange(1, a.len() as int)));
            lemma_items_readable(rest_a, rest_b, x, y);
            assert(a =~= seq![a[0]] + rest_a);
            assert(b =~= seq![b[0]] + rest_b);
        }
    } else {
        assert(a.len() == 0 && b.len() == 0);
        assert(a =~= b);
        lemma_strip(seq![']'], x, y);
    }
}

proof fn lemma_members_readable(
    a: Seq<MemberView>,
    b: Seq<MemberView>,
    x: Seq<char>,
    y: Seq<char>,
)
    requires
        members_wf(a),
        members_wf(b),
        joined(member_texts(a)) + seq!['}'] + x == joined(member_texts(b)) + seq!['}'] + y,
    ensures
        a == b,
        x == y,
    decreases a,
{
    let one = joined(member_texts(a)) + seq!['}'] + x;
    let other = joined(member_texts(b)) + seq!['}'] + y;
    lemma_member_texts(a);
    lemma_member_texts(b);
    if a.len() > 0 {
        lemma_behind_first(member_texts(a), '}', x);
        assert(one[0] == '"');
    } else {
        assert(one =~= seq!['}'] + x);
    }
    if b.len() > 0 {
        lemma_behind_first(member_texts(b), '}', y);
        assert(other[0] == '"');
    } else {
        assert(other =~= seq!['}'] + y);
    }
    if a.len() > 0 && b.len() > 0 {
        let u = behind_first(member_texts(a), '}', x);
        let v = behind_first(member_texts(b), '}', y);
        let value_u = value_text(a[0].value) + u;
        let value_v = value_text(b[0].value) + v;
        assert(one =~= crate::outside::json_string_text(a[0].key) + (seq![':'] + value_u));
        assert(other =~= crate::outside::json_string_text(b[0].key) + (seq![':'] + value_v));
        lemma_string_readable(a[0].key, b[0].key, seq![':'] + value_u, seq![':'] + value_v);
        lemma_strip(seq![':'], value_u, value_v);
        assert(decreases_to!(a => a[0]));
        assert(decreases_to!(a[0] => a[0].value));
        lemma_value_readable(a[0].value, b[0].value, u, v);
        assert(a[0] == b[0]);
        assert(a.len() == 1 <==> u[0] == '}');
        assert(b.len() == 1 <==> v[0] == '}');
        if a.len() == 1 {
            lemma_strip(seq!['}'], x, y);
            assert(a =~= b);
        } else {
            let (rest_a, rest_b) = (a.drop_first(), b.drop_first());
            lemma_member_texts(rest_a);
            lemma_member_texts(rest_b);
            assert(member_texts(a).drop_first() =~= member_texts(rest_a));
            assert(member_texts(b).drop_first() =~= member_texts(rest_b));
            lemma_strip(
                seq![','],
                joined(member_texts(rest_a)) + seq!['}'] + x,
                joined(member_texts(rest_b)) + seq!['}'] + y,
            );
            assert forall|i: int| 0 <= i < rest_a.len() implies value_wf(
                (#[trigger] rest_a[i]).value,
            ) by {
                assert(rest_a[i] == a[i + 1]);
            }
            assert forall|i: int| 0 <= i < rest_b.len() implies value_wf(
                (#[trigger] rest_b[i]).value,
            ) by {
                assert(rest_b[i] == b[i + 1]);
            }
            lemma_members_wf(rest_a);
            lemma_members_wf(rest_b);
            assert(decreases_to!(a => a.subrange(1, a.len() as int)));
            lemma_members_readable(rest_a, rest_b, x, y);
            assert(a =~= seq![a[0]] + rest_a);
            assert(b =~= seq![b[0]] + rest_b);
        }
    } else {
        assert(a.len() == 0 && b.len() == 0);
        assert(a =~= b);
        lemma_strip(seq!['}'], x, y);
    }
}

/// A value can be told from its text: no other value has the same one.
pub proof fn law_values_can_be_read_back(one: JsonView, other: JsonView)
    requires
        value_wf(one),
        value_wf(other),
    ensures
        value_text(one) == value_text(other) <==> one == other,
{
    if value_text(one) == value_text(other) {
        let none = Seq::<char>::empty();
        assert(value_text(one) + none =~= value_text(one));
        assert(value_text(other) + none =~= value_text(other));
        lemma_value_readable(one, other, none, none);
    }
}

/// The text of a value that holds no others, and that of a value without
/// anything in it.
pub proof fn law_texts_of_plain_values(literal: Seq<char>, text: Seq<char>)
    ensures
        value_text(JsonView::Null) == "null"@,
        value_text(JsonView::Bool(true)) == "true"@,
        value_text(JsonView::Bool(false)) == "false"@,
        value_text(JsonView::Number(literal)) == literal,
        value_text(JsonView::Text(text)) == crate::outside::json_string_text(text),
        value_text(JsonView::Array(Seq::empty())) == "[]"@,
        value_text(JsonView::Object(Seq::empty())) == "{}"@,
{
    reveal_strlit("[]");
    reveal_strlit("{}");
    assert(value_text(JsonView::Array(Seq::empty())) =~= "[]"@);
    assert(value_text(JsonView::Object(Seq::empty())) =~= "{}"@);
}

/// A value that is put behind the others in an array comes last in its text,
/// behind a comma where there are others, and the text of these stays.
pub proof fn law_text_of_a_longer_array(items: Seq<JsonView>, added: JsonView)
    ensures
        value_text(JsonView::Array(items.push(added))) == if items.len() == 0 {
            seq!['['] + value_text(added) + seq![']']
        } else {
            value_text(JsonView::Array(items)).drop_last() + seq![','] + value_text(added)
                + seq![']']
        },
{
    let before = value_texts(items);
    lemma_value_texts(items);
    assert(items.push(added).drop_last() =~= items);
    assert(before.push(value_text(added)).drop_last() =~= before);
    if items.len() > 0 {
        assert(value_text(JsonView::Array(items)).drop_last() =~= seq!['['] + joined(before));
        assert(value_text(JsonView::Array(items.push(added))) =~= value_text(
            JsonView::Array(items),
        ).drop_last() + seq![','] + value_text(added) + seq![']']);
    }
}

/// A member that is put behind the others in an object comes last in its text,
/// key, colon and value, behind a comma where there are others, and the text
/// of these stays.
pub proof fn law_text_of_a_longer_object(members: Seq<MemberView>, added: MemberView)
    ensures
        ({
            let text = crate::outside::json_string_text(added.key) + seq![':'] + value_text(
                added.value,
            );
            value_text(JsonView::Object(members.push(added))) == if members.len() == 0 {
                seq!['{'] + text + seq!['}']
            } else {
                value_text(JsonView::Object(members)).drop_last() + seq![','] + text + seq!['}']
            }
        }),
{
    let text = crate::outside::json_string_text(added.key) + seq![':'] + value_text(added.value);
    let before = member_texts(members);
    lemma_member_texts(members);
    assert(members.push(added).drop_last() =~= members);
    assert(before.push(text).drop_last() =~= before);
    if members.len() > 0 {
        assert(value_text(JsonView::Object(members)).drop_last() =~= seq!['{'] + joined(before));
        assert(value_text(JsonView::Object(members.push(added))) =~= value_text(
            JsonView::Object(members),
        ).drop_last() + seq![','] + text + seq!['}']);
    }
}

/// A value is seen as what it holds, all of it and in its order.
pub proof fn law_values_are_seen_as_they_are(
    b: bool,
    text: String,
    items: Vec<JsonValue>,
    members: Vec<JsonMember>,
)
    ensures
        JsonValue::Null@ == JsonView::Null,
        JsonValue::Bool(b)@ == JsonView::Bool(b),
        JsonValue::Number(text)@ == JsonView::Number(text@),
        JsonValue::Text(text)@ == JsonView::Text(text@),
        JsonValue::Array(items)@ matches JsonView::Array(seen) && seen.len() == items@.len()
            && forall|i: int| 0 <= i < seen.len() ==> #[trigger] seen[i] == items@[i]@,
        JsonValue::Object(members)@ matches JsonView::Object(seen) && seen.len() == members@.len()
            && forall|i: int|
            0 <= i < seen.len() ==> (#[trigger] seen[i]).key == members@[i].key@ && seen[i].value
                == members@[i].value@,
{
    lemma_value_views(items@);
    lemma_member_views(members@);
}

proof fn lemma_value_views(items: Seq<JsonValue>)
    ensures
        value_views(items).len() == items.len(),
        forall|i: int| 0 <= i < items.len() ==> #[trigger] value_views(items)[i] == items[i]@,
    decreases items.len(),
{
    if items.len() > 0 {
        let front = items.drop_last();
        lemma_value_views(front);
        assert forall|i: int| 0 <= i < items.len() implies #[trigger] value_views(items)[i]
            == items[i]@ by {
            if i < front.len() {
                assert(value_views(items)[i] == value_views(front)[i]);
            }
        }
    }
}

/// Whether `s` is decimal digits, and at least one.
pub open spec fn some_digits(s: Seq<char>) -> bool {
    s.len() > 0 && forall|i: int| 0 <= i < s.len() ==> '0' <= #[trigger] s[i] && s[i] <= '9'
}

/// Whether the parts of a number are in order: a sign or none; digits without
/// a leading zero; a point and digits, or nothing; the letter of an exponent,
/// a sign or none, and digits, or nothing.
pub open spec fn number_parts(
    minus: Seq<char>,
    whole: Seq<char>,
    fraction: Seq<char>,
    power: Seq<char>,
) -> bool {
    &&& minus.len() == 0 || minus == seq!['-']
    &&& some_digits(whole) && (whole[0] == '0' ==> whole.len() == 1)
    &&& fraction.len() == 0 || (fraction[0] == '.' && some_digits(fraction.skip(1)))
    &&& power.len() == 0 || ((power[0] == 'e' || power[0] == 'E') && (some_digits(power.skip(1)) || (
    power.len() > 2 && (power[1] == '+' || power[1] == '-') && some_digits(power.skip(2)))))
}

/// A text is a number exactly where it is made of the parts of a number.
pub proof fn law_numbers_are_made_of_their_parts(
    literal: Seq<char>,
    minus: Seq<char>,
    whole: Seq<char>,
    fraction: Seq<char>,
    power: Seq<char>,
)
    ensures
        number_parts(minus, whole, fraction, power) ==> is_number(
            minus + whole + fraction + power,
        ),
        is_number(literal) ==> exists|m: Seq<char>, w: Seq<char>, f: Seq<char>, p: Seq<char>|
            #[trigger] number_parts(m, w, f, p) && literal == m + w + f + p,
{
    if number_parts(minus, whole, fraction, power) {
        let s = minus + whole + fraction + power;
        let point = (minus.len() + whole.len()) as int;
        let exponent = point + fraction.len();
        assert(s.take(point) =~= minus + whole);
        if minus.len() == 0 {
            assert(minus + whole =~= whole);
        } else {
            assert((minus + whole).drop_first() =~= whole);
        }
        assert(is_natural(whole));
        assert(s.subrange(point, exponent) =~= fraction);
        assert(s.skip(exponent) =~= power);
        assert(fraction.len() > 0 ==> fraction.drop_first() =~= fraction.skip(1));
        assert(power.len() > 0 ==> power.drop_first() =~= power.skip(1));
        assert(is_number_with(s, point, exponent));
    }
    if is_number(literal) {
        let (point, exponent) = choose|point: int, exponent: int| #[trigger]
            is_number_with(literal, point, exponent);
        let front = literal.take(point);
        let f = literal.subrange(point, exponent);
        let p = literal.skip(exponent);
        let (m, w) = if is_natural(front) {
            (Seq::<char>::empty(), front)
        } else {
            (seq!['-'], front.drop_first())
        };
        assert(m + w =~= front);
        assert(f.len() > 0 ==> f.drop_first() =~= f.skip(1));
        assert(p.len() > 0 ==> p.drop_first() =~= p.skip(1));
        assert(literal =~= m + w + f + p);
        assert(number_parts(m, w, f, p));
    }
}

/// A value is well-formed exactly where each number that it is, or holds at
/// any depth, is a number, and no object that it is, or holds, has a key twice.
pub proof fn law_well_formed_at_every_depth(
    literal: Seq<char>,
    text: Seq<char>,
    b: bool,
    items: Seq<JsonView>,
    members: Seq<MemberView>,
)
    ensures
        value_wf(JsonView::Null),
        value_wf(JsonView::Bool(b)),
        value_wf(JsonView::Text(text)),
        value_wf(JsonView::Number(literal)) <==> is_number(literal),
        value_wf(JsonView::Array(items)) <==> forall|i: int|
            0 <= i < items.len() ==> value_wf(#[trigger] items[i]),
        value_wf(JsonView::Object(members)) <==> {
            &&& forall|i: int| 0 <= i < members.len() ==> value_wf((#[trigger] members[i]).value)
            &&& forall|i: int, j: int|
                0 <= i < j < members.len() ==> (#[trigger] members[i]).key != (
                #[trigger] members[j]).key
        },
{
    lemma_value_texts(items);
    lemma_member_texts(members);
    if forall|i: int| 0 <= i < items.len() ==> value_wf(#[trigger] items[i]) {
        lemma_values_wf(items);
    }
    if forall|i: int| 0 <= i < members.len() ==> value_wf((#[trigger] members[i]).value) {
        lemma_members_wf(members);
    }
}

} // verus!
