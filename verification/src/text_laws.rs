//! How texts are put together and read.
use vstd::prelude::*;

use crate::text;
use crate::verdicts;

verus! {

/// The decimal numeral of a number reads as that number.
pub proof fn law_decimals_read_back(value: nat)
    ensures
        text::digits_value(text::decimal(value)) == Some(value),
        text::decimal(value).len() >= 1,
        value < 10 ==> text::decimal(value).len() == 1,
        value >= 10 ==> text::decimal(value)[0] != '0',
    decreases value,
{
    if value >= 10 {
        law_decimals_read_back(value / 10);
        let front = text::decimal(value / 10);
        assert(text::decimal(value).drop_last() =~= front);
        assert(text::decimal(value).last() == text::digit(value % 10));
        assert(text::decimal(value)[0] == front[0]);
        if value / 10 < 10 {
            assert(front == seq![text::digit(value / 10)]);
        }
    }
}

/// Two runs of texts come one after the other, and one text is itself.
pub proof fn law_concatenations_split(front: Seq<Seq<char>>, back: Seq<Seq<char>>)
    ensures
        text::concat(front + back) == text::concat(front) + text::concat(back),
        front.len() == 1 ==> text::concat(front) == front[0],
        front.len() == 0 ==> text::concat(front).len() == 0,
    decreases back.len(),
{
    if front.len() == 1 {
        assert(front.drop_last() =~= Seq::<Seq<char>>::empty());
        assert(text::concat(front.drop_last()) =~= Seq::<char>::empty());
        assert(text::concat(front) =~= front[0]);
    }
    if back.len() == 0 {
        assert(front + back =~= front);
        assert(text::concat(front) + text::concat(back) =~= text::concat(front));
    } else {
        law_concatenations_split(front, back.drop_last());
        assert((front + back).drop_last() =~= front + back.drop_last());
        assert(text::concat(front + back) =~= text::concat(front) + text::concat(back));
    }
}

/// Joined texts have the separator between each two and nowhere else: one text is itself,
/// and two runs of texts are joined by one separator.
pub proof fn law_separators_stand_between(
    front: Seq<Seq<char>>,
    back: Seq<Seq<char>>,
    separator: Seq<char>,
)
    requires
        front.len() > 0,
        back.len() > 0,
    ensures
        text::joined(front + back, separator) == text::joined(front, separator) + separator
            + text::joined(back, separator),
        front.len() == 1 ==> text::joined(front, separator) == front[0],
    decreases back.len(),
{
    assert((front + back).drop_last() =~= front + back.drop_last());
    if back.len() == 1 {
        assert(front + back.drop_last() =~= front);
    } else {
        law_separators_stand_between(front, back.drop_last(), separator);
    }
    assert(text::joined(front + back, separator) =~= text::joined(front, separator) + separator
        + text::joined(back, separator));
}

/// Every one of several joined texts is part of what they are joined to, in its place.
pub proof fn law_joined_texts_are_kept(parts: Seq<Seq<char>>, separator: Seq<char>, i: int) -> (ends: (
    Seq<char>,
    Seq<char>,
))
    requires
        0 <= i < parts.len(),
    ensures
        text::joined(parts, separator) == ends.0 + parts[i] + ends.1,
        i == 0 ==> ends.0.len() == 0,
        i == parts.len() - 1 ==> ends.1.len() == 0,
    decreases parts.len(),
{
    if parts.len() == 1 {
        let ends = (Seq::<char>::empty(), Seq::<char>::empty());
        assert(text::joined(parts, separator) =~= ends.0 + parts[i] + ends.1);
        ends
    } else if i == parts.len() - 1 {
        let ends = (
            text::joined(parts.drop_last(), separator) + separator,
            Seq::<char>::empty(),
        );
        assert(text::joined(parts, separator) =~= ends.0 + parts[i] + ends.1);
        ends
    } else {
        let (before, after) = law_joined_texts_are_kept(parts.drop_last(), separator, i);
        let ends = (before, after + separator + parts.last());
        assert(text::joined(parts, separator) =~= ends.0 + parts[i] + ends.1);
        ends
    }
}

proof fn lemma_middle_is_found(before: Seq<char>, middle: Seq<char>, after: Seq<char>)
    ensures
        text::contains(before + middle + after, middle),
{
    let whole = before + middle + after;
    let at = before.len() as int;
    assert(whole.subrange(at, at + middle.len()) =~= middle);
}

/// The reason for which a refutation is not reported tells how many unsupported
/// constructs there are, and names each of them.
pub proof fn law_demotions_tell_their_constructs(sites: nat, reasons: Seq<Seq<char>>, i: int)
    ensures
        text::contains(verdicts::demotion_reason(sites, reasons), text::decimal(sites)),
        0 <= i < reasons.len() ==> text::contains(
            verdicts::demotion_reason(sites, reasons),
            reasons[i],
        ),
{
    let head = "fail-closed lowering reachable: "@;
    let count = text::decimal(sites);
    let tail =
        " unsupported trust_ir construct(s) lowered to unconditional error rules; refutation demoted to unknown"@;
    let message = text::concat(seq![head, count, tail]);
    let told = verdicts::demotion_reason(sites, reasons);
    law_concatenations_split(seq![head], seq![count, tail]);
    law_concatenations_split(seq![count], seq![tail]);
    law_concatenations_split(seq![tail], Seq::empty());
    assert(seq![head] + seq![count, tail] =~= seq![head, count, tail]);
    assert(seq![count] + seq![tail] =~= seq![count, tail]);
    assert(message =~= head + count + tail);
    if reasons.len() == 0 {
        lemma_middle_is_found(head, count, tail);
    } else {
        let open = " (constructs: "@;
        let listed = text::joined(reasons, ", "@);
        let close = ")"@;
        law_concatenations_split(seq![message], seq![open, listed, close]);
        law_concatenations_split(seq![open], seq![listed, close]);
        law_concatenations_split(seq![listed], seq![close]);
        law_concatenations_split(seq![close], Seq::empty());
        assert(seq![message] + seq![open, listed, close] =~= seq![message, open, listed, close]);
        assert(seq![open] + seq![listed, close] =~= seq![open, listed, close]);
        assert(seq![listed] + seq![close] =~= seq![listed, close]);
        assert(told =~= message + open + listed + close);
        assert(told =~= head + count + (tail + open + listed + close));
        lemma_middle_is_found(head, count, tail + open + listed + close);
        if 0 <= i < reasons.len() {
            let (before, after) = law_joined_texts_are_kept(reasons, ", "@, i);
            assert(told =~= (message + open + before) + reasons[i] + (after + close));
            lemma_middle_is_found(message + open + before, reasons[i], after + close);
        }
    }
}

} // verus!
