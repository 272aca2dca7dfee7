//! Text assembly and recognition.
use vstd::prelude::*;
use vstd::string::*;

verus! {

/// What an optional text is.
pub open spec fn optional_text(content: Option<String>) -> Option<Seq<char>> {
    match content {
        Some(content) => Some(content@),
        None => None,
    }
}

/// The texts one after the other.
pub open spec fn concat(parts: Seq<Seq<char>>) -> Seq<char>
    decreases parts.len(),
{
    if parts.len() == 0 {
        Seq::empty()
    } else {
        concat(parts.drop_last()) + parts.last()
    }
}

/// The texts with a separator between each two.
pub open spec fn joined(parts: Seq<Seq<char>>, separator: Seq<char>) -> Seq<char>
    decreases parts.len(),
{
    if parts.len() == 0 {
        Seq::empty()
    } else if parts.len() == 1 {
        parts[0]
    } else {
        joined(parts.drop_last(), separator) + separator + parts.last()
    }
}

/// What a list of texts is.
pub open spec fn texts(parts: Seq<&str>) -> Seq<Seq<char>> {
    Seq::new(parts.len(), |i: int| parts[i]@)
}

/// What a list of owned texts is.
pub open spec fn owned_texts(parts: Seq<String>) -> Seq<Seq<char>> {
    Seq::new(parts.len(), |i: int| parts[i]@)
}

/// The texts one after the other.
pub(crate) fn assemble(parts: &Vec<&str>) -> (text: String)
    ensures
        text@ == concat(texts(parts@)),
{
    let mut text = String::new();
    for i in 0..parts.len()
        invariant
            text@ == concat(texts(parts@).take(i as int)),
    {
        text.append(parts[i]);
        assert(texts(parts@).take(i + 1).drop_last() =~= texts(parts@).take(i as int));
    }
    assert(texts(parts@).take(parts@.len() as int) =~= texts(parts@));
    text
}

/// Two texts one after the other.
pub(crate) fn concat2(a: &str, b: &str) -> (text: String)
    ensures
        text@ == concat(seq![a@, b@]),
{
    let parts: Vec<&str> = vec![a, b];
    assert(texts(parts@) =~= seq![a@, b@]);
    assemble(&parts)
}

/// Three texts one after the other.
pub(crate) fn concat3(a: &str, b: &str, c: &str) -> (text: String)
    ensures
        text@ == concat(seq![a@, b@, c@]),
{
    let parts: Vec<&str> = vec![a, b, c];
    assert(texts(parts@) =~= seq![a@, b@, c@]);
    assemble(&parts)
}

/// Four texts one after the other.
pub(crate) fn concat4(a: &str, b: &str, c: &str, d: &str) -> (text: String)
    ensures
        text@ == concat(seq![a@, b@, c@, d@]),
{
    let parts: Vec<&str> = vec![a, b, c, d];
    assert(texts(parts@) =~= seq![a@, b@, c@, d@]);
    assemble(&parts)
}

/// Five texts one after the other.
pub(crate) fn concat5(a: &str, b: &str, c: &str, d: &str, e: &str) -> (text: String)
    ensures
        text@ == concat(seq![a@, b@, c@, d@, e@]),
{
    let parts: Vec<&str> = vec![a, b, c, d, e];
    assert(texts(parts@) =~= seq![a@, b@, c@, d@, e@]);
    assemble(&parts)
}

/// Six texts one after the other.
pub(crate) fn concat6(a: &str, b: &str, c: &str, d: &str, e: &str, f: &str) -> (text: String)
    ensures
        text@ == concat(seq![a@, b@, c@, d@, e@, f@]),
{
    let parts: Vec<&str> = vec![a, b, c, d, e, f];
    assert(texts(parts@) =~= seq![a@, b@, c@, d@, e@, f@]);
    assemble(&parts)
}

/// Eight texts one after the other.
pub(crate) fn concat8(a: &str, b: &str, c: &str, d: &str, e: &str, f: &str, g: &str, h: &str) -> (text: String)
    ensures
        text@ == concat(seq![a@, b@, c@, d@, e@, f@, g@, h@]),
{
    let parts: Vec<&str> = vec![a, b, c, d, e, f, g, h];
    assert(texts(parts@) =~= seq![a@, b@, c@, d@, e@, f@, g@, h@]);
    assemble(&parts)
}

/// The texts with a separator between each two.
pub(crate) fn join(parts: &[String], separator: &str) -> (text: String)
    ensures
        text@ == joined(owned_texts(parts@), separator@),
{
    let mut text = String::new();
    for i in 0..parts.len()
        invariant
            text@ == joined(owned_texts(parts@).take(i as int), separator@),
    {
        let ghost next = owned_texts(parts@).take(i + 1);
        assert(next.drop_last() =~= owned_texts(parts@).take(i as int));
        assert(next.last() == parts@[i as int]@);
        let ghost before = text@;
        if i > 0 {
            text.append(separator);
        }
        text.append(parts[i].as_str());
        proof {
            if i == 0 {
                assert(next[0] == parts@[0]@);
                assert(before =~= Seq::empty());
                assert(text@ =~= parts@[0]@);
            } else {
                assert(text@ =~= before + separator@ + parts@[i as int]@);
            }
        }
    }
    assert(owned_texts(parts@).take(parts@.len() as int) =~= owned_texts(parts@));
    text
}

/// How `std::str::from_utf8` words its rejection of bytes.
pub uninterp spec fn utf8_rejection(bytes: Seq<u8>) -> Seq<char>;

/// `std::str::from_utf8`: the text that the bytes encode, where they are UTF-8;
/// else the wording of the rejection, fixed by the bytes.
#[verifier::external_body]
pub(crate) fn decode_utf8(bytes: &[u8]) -> (decoded: Result<String, String>)
    ensures
        match decoded {
            Ok(content) => vstd::utf8::encode_utf8(content@) == bytes@
                && vstd::utf8::valid_utf8(bytes@),
            Err(fault) => !vstd::utf8::valid_utf8(bytes@) && fault@ == utf8_rejection(bytes@),
        },
{
    match std::str::from_utf8(bytes) {
        Ok(content) => Ok(content.to_owned()),
        Err(fault) => Err(fault.to_string()),
    }
}

/// The same texts.
pub(crate) fn copy_texts(texts: &Vec<String>) -> (copy: Vec<String>)
    ensures
        owned_texts(copy@) == owned_texts(texts@),
{
    let mut copy: Vec<String> = Vec::new();
    for i in 0..texts.len()
        invariant
            copy@.len() == i,
            forall|j: int| 0 <= j < i ==> (#[trigger] copy@[j])@ == texts@[j]@,
    {
        copy.push(texts[i].clone());
    }
    assert(owned_texts(copy@) =~= owned_texts(texts@));
    copy
}

/// The characters of a text.
pub(crate) fn characters(text: &str) -> (chars: Vec<char>)
    ensures
        chars@ == text@,
{
    let mut chars: Vec<char> = Vec::new();
    for c in iter: text.chars()
        invariant
            iter.seq() == text@,
            chars@ == text@.take(iter.index()),
    {
        chars.push(c);
    }
    assert(text@.take(text@.len() as int) =~= text@);
    chars
}

/// Whether a character is white space.
pub open spec fn is_blank_char(c: char) -> bool {
    let code = c as u32;
    ||| 0x09 <= code <= 0x0d
    ||| code == 0x20
    ||| code == 0x85
    ||| code == 0xa0
    ||| code == 0x1680
    ||| 0x2000 <= code <= 0x200a
    ||| code == 0x2028
    ||| code == 0x2029
    ||| code == 0x202f
    ||| code == 0x205f
    ||| code == 0x3000
}

fn blank_char(c: char) -> (blank: bool)
    ensures
        blank == is_blank_char(c),
{
    let code: u32 = c as u32;
    (0x09 <= code && code <= 0x0d) || code == 0x20 || code == 0x85 || code == 0xa0 || code == 0x1680
        || (0x2000 <= code && code <= 0x200a) || code == 0x2028 || code == 0x2029 || code == 0x202f
        || code == 0x205f || code == 0x3000
}

/// Whether a text holds white space alone.
pub open spec fn is_blank(text: Seq<char>) -> bool {
    forall|i: int| 0 <= i < text.len() ==> is_blank_char(#[trigger] text[i])
}

/// Whether a text holds white space alone.
pub(crate) fn blank(text: &str) -> (yes: bool)
    ensures
        yes == is_blank(text@),
{
    let chars = characters(text);
    for i in 0..chars.len()
        invariant
            chars@ == text@,
            forall|j: int| 0 <= j < i ==> is_blank_char(#[trigger] text@[j]),
    {
        if !blank_char(chars[i]) {
            return false;
        }
    }
    true
}

/// A text without the white space at its ends.
pub open spec fn trimmed(text: Seq<char>) -> Seq<char>
    decreases text.len(),
{
    if text.len() == 0 {
        text
    } else if is_blank_char(text[0]) {
        trimmed(text.skip(1))
    } else if is_blank_char(text.last()) {
        trimmed(text.drop_last())
    } else {
        text
    }
}

/// A text up to its first line break.
pub open spec fn first_line(text: Seq<char>) -> Seq<char>
    decreases text.len(),
{
    if text.len() == 0 || text[0] == '\n' {
        Seq::empty()
    } else {
        seq![text[0]] + first_line(text.skip(1))
    }
}

proof fn lemma_first_line_at(text: Seq<char>, end: int)
    requires
        0 <= end <= text.len(),
        forall|j: int| 0 <= j < end ==> #[trigger] text[j] != '\n',
        end == text.len() || text[end] == '\n',
    ensures
        first_line(text) == text.take(end),
    decreases text.len(),
{
    if end == 0 {
        assert(first_line(text) =~= text.take(end));
    } else {
        assert(text[0] != '\n');
        let rest = text.skip(1);
        assert forall|j: int| 0 <= j < end - 1 implies #[trigger] rest[j] != '\n' by {
            assert(text[j + 1] != '\n');
        }
        lemma_first_line_at(rest, end - 1);
        assert(first_line(text) =~= text.take(end));
    }
}

/// The first line of a text without the white space at its ends.
pub(crate) fn trimmed_first_line(text: &str) -> (line: String)
    ensures
        line@ == trimmed(first_line(text@)),
{
    let chars = characters(text);
    let mut to: usize = 0;
    while to < chars.len() && chars[to] != '\n'
        invariant
            to <= chars@.len(),
            forall|j: int| 0 <= j < to ==> #[trigger] chars@[j] != '\n',
        decreases chars.len() - to,
    {
        to = to + 1;
    }
    proof {
        lemma_first_line_at(text@, to as int);
    }
    let ghost line = text@.take(to as int);
    let mut from: usize = 0;
    assert(text@.subrange(0, to as int) =~= line);
    while from < to && blank_char(chars[from])
        invariant
            from <= to <= chars@.len(),
            chars@ == text@,
            trimmed(line) == trimmed(text@.subrange(from as int, to as int)),
        decreases to - from,
    {
        assert(text@.subrange(from as int, to as int).skip(1) =~= text@.subrange(
            from + 1,
            to as int,
        ));
        from = from + 1;
    }
    while from < to && blank_char(chars[to - 1])
        invariant
            from <= to <= chars@.len(),
            chars@ == text@,
            from < to ==> !is_blank_char(chars@[from as int]),
            trimmed(line) == trimmed(text@.subrange(from as int, to as int)),
        decreases to - from,
    {
        assert(text@.subrange(from as int, to as int).drop_last() =~= text@.subrange(
            from as int,
            to - 1,
        ));
        to = to - 1;
    }
    let ghost rest = text@.subrange(from as int, to as int);
    assert(trimmed(rest) == rest);
    text.substring_char(from, to).to_owned()
}

/// The digit of a number below ten.
pub open spec fn digit(value: nat) -> char {
    if value == 0 {
        '0'
    } else if value == 1 {
        '1'
    } else if value == 2 {
        '2'
    } else if value == 3 {
        '3'
    } else if value == 4 {
        '4'
    } else if value == 5 {
        '5'
    } else if value == 6 {
        '6'
    } else if value == 7 {
        '7'
    } else if value == 8 {
        '8'
    } else {
        '9'
    }
}

/// A number in decimal.
pub open spec fn decimal(value: nat) -> Seq<char>
    decreases value,
{
    if value < 10 {
        seq![digit(value)]
    } else {
        decimal(value / 10).push(digit(value % 10))
    }
}

fn digit_text(value: u64) -> (text: &'static str)
    requires
        value < 10,
    ensures
        text@ == seq![digit(value as nat)],
{
    proof {
        reveal_strlit("0");
        reveal_strlit("1");
        reveal_strlit("2");
        reveal_strlit("3");
        reveal_strlit("4");
        reveal_strlit("5");
        reveal_strlit("6");
        reveal_strlit("7");
        reveal_strlit("8");
        reveal_strlit("9");
    }
    if value == 0 {
        "0"
    } else if value == 1 {
        "1"
    } else if value == 2 {
        "2"
    } else if value == 3 {
        "3"
    } else if value == 4 {
        "4"
    } else if value == 5 {
        "5"
    } else if value == 6 {
        "6"
    } else if value == 7 {
        "7"
    } else if value == 8 {
        "8"
    } else {
        "9"
    }
}

/// A number in decimal.
pub(crate) fn decimal_text(value: u64) -> (text: String)
    ensures
        text@ == decimal(value as nat),
    decreases value,
{
    if value < 10 {
        String::from_str(digit_text(value))
    } else {
        let mut text = decimal_text(value / 10);
        let ghost before = text@;
        text.append(digit_text(value % 10));
        assert(text@ =~= before.push(digit((value % 10) as nat)));
        text
    }
}

/// The value of a decimal digit.
pub open spec fn digit_value(c: char) -> Option<nat> {
    if '0' <= c <= '9' {
        Some((c as u32 - '0' as u32) as nat)
    } else {
        None
    }
}

/// The number that a non-empty run of decimal digits denotes.
pub open spec fn digits_value(text: Seq<char>) -> Option<nat>
    decreases text.len(),
{
    if text.len() == 0 {
        None
    } else if text.len() == 1 {
        digit_value(text[0])
    } else {
        match (digits_value(text.drop_last()), digit_value(text.last())) {
            (Some(front), Some(last)) => Some(10 * front + last),
            _ => None,
        }
    }
}

/// The integer that a decimal numeral with an optional sign denotes.
pub open spec fn integer_value(text: Seq<char>) -> Option<int> {
    if text.len() > 0 && text[0] == '-' {
        match digits_value(text.skip(1)) {
            Some(value) => Some(-(value as int)),
            None => None,
        }
    } else {
        match natural_value(text) {
            Some(value) => Some(value as int),
            None => None,
        }
    }
}

/// The number that a decimal numeral with an optional plus sign denotes.
pub open spec fn natural_value(text: Seq<char>) -> Option<nat> {
    if text.len() > 0 && text[0] == '+' {
        digits_value(text.skip(1))
    } else {
        digits_value(text)
    }
}

proof fn lemma_digits_prefix(text: Seq<char>, at: int)
    requires
        0 < at <= text.len(),
        digits_value(text) is Some,
    ensures
        digits_value(text.take(at)) is Some,
        digits_value(text.take(at))->0 <= digits_value(text)->0,
    decreases text.len(),
{
    if at == text.len() {
        assert(text.take(at) =~= text);
    } else {
        lemma_digits_prefix(text.drop_last(), at);
        assert(text.drop_last().take(at) =~= text.take(at));
    }
}

/// The digits from `from` on, as far as they fit the machine integer.
fn parse_digits(chars: &Vec<char>, from: usize) -> (value: Option<u128>)
    requires
        from <= chars@.len(),
    ensures
        match digits_value(chars@.skip(from as int)) {
            Some(exact) => if exact <= u128::MAX {
                value == Some(exact as u128)
            } else {
                value is None
            },
            None => value is None,
        },
{
    let ghost digits = chars@.skip(from as int);
    if from == chars.len() {
        return None;
    }
    let mut value: u128 = 0;
    let mut at: usize = from;
    while at < chars.len()
        invariant
            from <= at <= chars@.len(),
            digits == chars@.skip(from as int),
            at > from ==> digits_value(digits.take(at - from)) == Some(value as nat),
            at == from ==> value == 0,
        decreases chars.len() - at,
    {
        let c: char = chars[at];
        let ghost next = digits.take(at - from + 1);
        assert(next.drop_last() =~= digits.take(at - from));
        assert(next.last() == c);
        proof {
            if digits_value(digits) is Some {
                lemma_digits_prefix(digits, at - from + 1);
            }
        }
        if c < '0' || '9' < c {
            assert(digits_value(next) is None);
            return None;
        }
        let digit: u128 = c as u128 - '0' as u128;
        assert(digit_value(c) == Some(digit as nat));
        assert(digits_value(next) == Some((10 * value + digit) as nat));
        match value.checked_mul(10) {
            None => {
                return None;
            },
            Some(scaled) => match scaled.checked_add(digit) {
                None => {
                    return None;
                },
                Some(total) => {
                    value = total;
                },
            },
        }
        at = at + 1;
    }
    assert(digits.take(at - from) =~= digits);
    Some(value)
}

/// The number that a decimal numeral denotes, where it fits the machine integer.
pub(crate) fn parse_u128(text: &str) -> (value: Option<u128>)
    ensures
        match natural_value(text@) {
            Some(exact) => if exact <= u128::MAX {
                value == Some(exact as u128)
            } else {
                value is None
            },
            None => value is None,
        },
{
    let chars = characters(text);
    if chars.len() > 0 && chars[0] == '+' {
        parse_digits(&chars, 1)
    } else {
        assert(chars@.skip(0) =~= chars@);
        parse_digits(&chars, 0)
    }
}

/// The integer that a decimal numeral denotes, where it fits the machine integer.
pub(crate) fn parse_i128(text: &str) -> (value: Option<i128>)
    ensures
        match integer_value(text@) {
            Some(exact) => if i128::MIN <= exact <= i128::MAX {
                value == Some(exact as i128)
            } else {
                value is None
            },
            None => value is None,
        },
{
    let chars = characters(text);
    if chars.len() > 0 && chars[0] == '-' {
        match parse_digits(&chars, 1) {
            Some(magnitude) => {
                if magnitude <= i128::MAX as u128 {
                    Some(-(magnitude as i128))
                } else if magnitude == i128::MAX as u128 + 1 {
                    Some(i128::MIN)
                } else {
                    None
                }
            },
            None => None,
        }
    } else {
        match parse_u128(text) {
            Some(magnitude) => {
                if magnitude <= i128::MAX as u128 {
                    Some(magnitude as i128)
                } else {
                    None
                }
            },
            None => None,
        }
    }
}

/// Whether a text occurs in another.
pub open spec fn contains(text: Seq<char>, pattern: Seq<char>) -> bool {
    exists|at: int|
        0 <= at && at + pattern.len() <= text.len() && #[trigger] text.subrange(
            at,
            at + pattern.len(),
        ) == pattern
}

fn matches_at(text: &Vec<char>, pattern: &Vec<char>, at: usize) -> (yes: bool)
    requires
        at + pattern@.len() <= text@.len(),
    ensures
        yes == (text@.subrange(at as int, at + pattern@.len()) == pattern@),
{
    let length: usize = text.len();
    for i in 0..pattern.len()
        invariant
            length == text@.len(),
            at + pattern@.len() <= text@.len(),
            forall|j: int| 0 <= j < i ==> text@[at + j] == #[trigger] pattern@[j],
    {
        if text[at + i] != pattern[i] {
            assert(text@.subrange(at as int, at + pattern@.len())[i as int] != pattern@[i as int]);
            return false;
        }
    }
    assert(text@.subrange(at as int, at + pattern@.len()) =~= pattern@);
    true
}

/// Whether a text occurs in another.
pub(crate) fn has_substring(text: &str, pattern: &str) -> (yes: bool)
    ensures
        yes == contains(text@, pattern@),
{
    let chars = characters(text);
    let wanted = characters(pattern);
    if wanted.len() > chars.len() {
        return false;
    }
    let last: usize = chars.len() - wanted.len();
    let mut at: usize = 0;
    while at <= last
        invariant
            chars@ == text@,
            wanted@ == pattern@,
            last == chars@.len() - wanted@.len(),
            at <= last + 1,
            forall|j: int|
                0 <= j < at ==> #[trigger] text@.subrange(j, j + pattern@.len()) != pattern@,
        decreases last + 1 - at,
    {
        if matches_at(&chars, &wanted, at) {
            assert(text@.subrange(at as int, at + pattern@.len()) == pattern@);
            return true;
        }
        if at == last {
            return false;
        }
        at = at + 1;
    }
    false
}

/// Whether a text is the given one.
pub(crate) fn same_text(left: &str, right: &str) -> (equal: bool)
    ensures
        equal == (left@ == right@),
{
    let left_chars = characters(left);
    let right_chars = characters(right);
    if left_chars.len() != right_chars.len() {
        return false;
    }
    for i in 0..left_chars.len()
        invariant
            left_chars@ == left@,
            right_chars@ == right@,
            left_chars@.len() == right_chars@.len(),
            forall|j: int| 0 <= j < i ==> #[trigger] left@[j] == right@[j],
    {
        if left_chars[i] != right_chars[i] {
            assert(left@[i as int] != right@[i as int]);
            return false;
        }
    }
    assert(left@ =~= right@);
    true
}

} // verus!
