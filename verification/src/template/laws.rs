//! What holds of every template and every page made from it.

use crate::template::{
    begins_with, filled, leading, lemma_token_lengths, page, Pending, Placeholder, Values,
};
use crate::text::{lemma_occurs_shifted, occurs_at};
use vstd::prelude::*;

verus! {

/// No pending placeholder's token stands in `text` before position `limit`.
pub open spec fn clear_before(text: Seq<char>, pending: Pending, limit: int) -> bool {
    forall|placeholder: Placeholder, at: int|
        pending.has(placeholder) && at < limit ==> !occurs_at(text, placeholder.token(), at)
}

/// `pattern` stands in `text` at one place and at no other.
pub open spec fn stands_once(text: Seq<char>, pattern: Seq<char>) -> bool {
    exists|at: int|
        occurs_at(text, pattern, at) && forall|other: int|
            occurs_at(text, pattern, other) ==> other == at
}

/// Five stretches of text with four texts put between them.
pub open spec fn woven(
    stretches: (Seq<char>, Seq<char>, Seq<char>, Seq<char>, Seq<char>),
    between: (Seq<char>, Seq<char>, Seq<char>, Seq<char>),
) -> Seq<char> {
    stretches.0 + between.0 + stretches.1 + between.1 + stretches.2 + between.2 + stretches.3
        + between.3 + stretches.4
}

/// No token stands anywhere in `text`.
pub open spec fn token_free(text: Seq<char>) -> bool {
    forall|placeholder: Placeholder, at: int| !occurs_at(text, placeholder.token(), at)
}

/// Two tokens never stand at the same place.
pub proof fn lemma_one_token_at_a_place(
    text: Seq<char>,
    one: Placeholder,
    other: Placeholder,
    at: int,
)
    requires
        occurs_at(text, one.token(), at),
        occurs_at(text, other.token(), at),
    ensures
        one == other,
{
    reveal_strlit("{{ TITLE }}");
    reveal_strlit("{{ TAGS }}");
    reveal_strlit("{{ PANDOC }}");
    reveal_strlit("{{ FUNGI }}");
    let left = text.subrange(at, at + one.token().len());
    let right = text.subrange(at, at + other.token().len());
    assert(left[3] == text[at + 3] && right[3] == text[at + 3]);
    assert(left[4] == text[at + 4] && right[4] == text[at + 4]);
}

/// The order in which the placeholders are looked for does not matter: a
/// pending placeholder is found at the head of a text just when its token
/// stands there.
pub proof fn lemma_any_order(text: Seq<char>, pending: Pending, placeholder: Placeholder)
    ensures
        leading(text, pending) == Some(placeholder) <==> begins_with(text, pending, placeholder),
{
    if begins_with(text, pending, placeholder) {
        let found = leading(text, pending)->0;
        lemma_one_token_at_a_place(text, found, placeholder, 0);
    }
}

/// A text in which no pending placeholder's token stands is left as it is.
pub proof fn lemma_plain_text(text: Seq<char>, values: Values, pending: Pending)
    requires
        clear_before(text, pending, text.len() as int),
    ensures
        filled(text, values, pending) == text,
    decreases text.len(),
{
    reveal(filled);
    if text.len() > 0 {
        let rest = text.skip(1);
        assert forall|placeholder: Placeholder, at: int|
            pending.has(placeholder) && at < rest.len() implies !occurs_at(
            rest,
            placeholder.token(),
            at,
        ) by {
            if 0 <= at {
                lemma_occurs_shifted(text, placeholder.token(), 1, at);
            }
        }
        lemma_plain_text(rest, values, pending);
    }
}

/// Where a pending placeholder's token stands in a text and no pending
/// token stands before it, the text up to there is copied, the value takes
/// the token's place, and what follows is filled with that placeholder no
/// longer pending.
pub proof fn lemma_first_placeholder(
    before: Seq<char>,
    placeholder: Placeholder,
    after: Seq<char>,
    values: Values,
    pending: Pending,
)
    requires
        pending.has(placeholder),
        clear_before(before + placeholder.token() + after, pending, before.len() as int),
    ensures
        filled(before + placeholder.token() + after, values, pending) == before + values.of(
            placeholder,
        ) + filled(after, values, pending.without(placeholder)),
    decreases before.len(),
{
    let token = placeholder.token();
    let text = before + token + after;
    reveal(filled);
    lemma_token_lengths();
    if before.len() == 0 {
        assert(text.subrange(0, token.len() as int) =~= token);
        lemma_any_order(text, pending, placeholder);
        assert(text.skip(token.len() as int) =~= after);
    } else {
        let rest = before.skip(1) + token + after;
        assert(text.skip(1) =~= rest);
        assert forall|other: Placeholder, at: int|
            pending.has(other) && at < before.len() - 1 implies !occurs_at(
            rest,
            other.token(),
            at,
        ) by {
            if 0 <= at {
                lemma_occurs_shifted(text, other.token(), 1, at);
            }
        }
        lemma_first_placeholder(before.skip(1), placeholder, after, values, pending);
    }
}

/// In a template that holds each placeholder exactly once, every
/// placeholder gives way to its value and the rest is copied: the page is
/// the template's own stretches, none of which holds a token, with the
/// values between them in the order of the placeholders. The values stand
/// in the page as they were given, whatever they hold.
pub proof fn lemma_each_placeholder_once(
    stretches: (Seq<char>, Seq<char>, Seq<char>, Seq<char>, Seq<char>),
    order: (Placeholder, Placeholder, Placeholder, Placeholder),
    values: Values,
)
    requires
        forall|placeholder: Placeholder|
            stands_once(
                woven(
                    stretches,
                    (order.0.token(), order.1.token(), order.2.token(), order.3.token()),
                ),
                #[trigger] placeholder.token(),
            ),
    ensures
        page(
            woven(stretches, (order.0.token(), order.1.token(), order.2.token(), order.3.token())),
            values,
        ) == woven(
            stretches,
            (values.of(order.0), values.of(order.1), values.of(order.2), values.of(order.3)),
        ),
        token_free(stretches.0),
        token_free(stretches.1),
        token_free(stretches.2),
        token_free(stretches.3),
        token_free(stretches.4),
{
    let (r0, r1, r2, r3, r4) = stretches;
    let (first, second, third, fourth) = order;
    let between = (first.token(), second.token(), third.token(), fourth.token());
    let template = woven(stretches, between);
    let at1 = r0.len() as int;
    let from1 = at1 + first.token().len();
    let at2 = from1 + r1.len();
    let from2 = at2 + second.token().len();
    let at3 = from2 + r2.len();
    let from3 = at3 + third.token().len();
    let at4 = from3 + r3.len();
    let from4 = at4 + fourth.token().len();
    lemma_token_lengths();
    lemma_woven(stretches, between);
    assert forall|placeholder: Placeholder| among(placeholder, order) by {}
    let pending1 = Pending::all();
    let pending2 = pending1.without(first);
    let pending3 = pending2.without(second);
    let pending4 = pending3.without(third);
    let pending5 = pending4.without(fourth);
    assert(template.skip(0) =~= template);
    lemma_cut(template, 0, r0, first, values, pending1);
    lemma_cut(template, from1, r1, second, values, pending2);
    lemma_cut(template, from2, r2, third, values, pending3);
    lemma_cut(template, from3, r3, fourth, values, pending4);
    lemma_plain_text(r4, values, pending5);
    lemma_woven_nested(
        stretches,
        (values.of(first), values.of(second), values.of(third), values.of(fourth)),
    );
    lemma_stretches_token_free(stretches, order);
}

/// `placeholder` is one of the four in `order`.
spec fn among(
    placeholder: Placeholder,
    order: (Placeholder, Placeholder, Placeholder, Placeholder),
) -> bool {
    placeholder == order.0 || placeholder == order.1 || placeholder == order.2 || placeholder
        == order.3
}

/// Where each part of a woven text lies in it.
proof fn lemma_woven(
    stretches: (Seq<char>, Seq<char>, Seq<char>, Seq<char>, Seq<char>),
    between: (Seq<char>, Seq<char>, Seq<char>, Seq<char>),
)
    ensures
        ({
            let text = woven(stretches, between);
            let at1 = stretches.0.len() as int;
            let from1 = at1 + between.0.len();
            let at2 = from1 + stretches.1.len();
            let from2 = at2 + between.1.len();
            let at3 = from2 + stretches.2.len();
            let from3 = at3 + between.2.len();
            let at4 = from3 + stretches.3.len();
            let from4 = at4 + between.3.len();
            &&& text.len() == from4 + stretches.4.len()
            &&& text.subrange(0, at1) == stretches.0
            &&& text.subrange(from1, at2) == stretches.1
            &&& text.subrange(from2, at3) == stretches.2
            &&& text.subrange(from3, at4) == stretches.3
            &&& text.subrange(from4, text.len() as int) == stretches.4
            &&& occurs_at(text, between.0, at1)
            &&& occurs_at(text, between.1, at2)
            &&& occurs_at(text, between.2, at3)
            &&& occurs_at(text, between.3, at4)
        }),
{
    let text = woven(stretches, between);
    let at1 = stretches.0.len() as int;
    let from1 = at1 + between.0.len();
    let at2 = from1 + stretches.1.len();
    let from2 = at2 + between.1.len();
    let at3 = from2 + stretches.2.len();
    let from3 = at3 + between.2.len();
    let at4 = from3 + stretches.3.len();
    let from4 = at4 + between.3.len();
    assert(text.subrange(at1, from1) =~= between.0);
    assert(text.subrange(at2, from2) =~= between.1);
    assert(text.subrange(at3, from3) =~= between.2);
    assert(text.subrange(at4, from4) =~= between.3);
}

/// A woven text, built up from its end.
proof fn lemma_woven_nested(
    stretches: (Seq<char>, Seq<char>, Seq<char>, Seq<char>, Seq<char>),
    between: (Seq<char>, Seq<char>, Seq<char>, Seq<char>),
)
    ensures
        woven(stretches, between) == stretches.0 + between.0 + (stretches.1 + between.1 + (
        stretches.2 + between.2 + (stretches.3 + between.3 + stretches.4))),
{
}

/// The reading of a text from `from` on, where a stretch without pending
/// tokens is followed by the token of a pending placeholder.
proof fn lemma_cut(
    text: Seq<char>,
    from: int,
    stretch: Seq<char>,
    placeholder: Placeholder,
    values: Values,
    pending: Pending,
)
    requires
        0 <= from,
        text.subrange(from, from + stretch.len()) == stretch,
        occurs_at(text, placeholder.token(), from + stretch.len()),
        pending.has(placeholder),
        forall|other: Placeholder, at: int|
            pending.has(other) && occurs_at(text, other.token(), at) ==> from + stretch.len()
                <= at,
    ensures
        filled(text.skip(from), values, pending) == stretch + values.of(placeholder) + filled(
            text.skip(from + stretch.len() + placeholder.token().len()),
            values,
            pending.without(placeholder),
        ),
{
    let token = placeholder.token();
    let after = text.skip(from + stretch.len() + token.len());
    assert(text.skip(from) =~= stretch + token + after);
    assert forall|other: Placeholder, at: int|
        pending.has(other) && at < stretch.len() implies !occurs_at(
        text.skip(from),
        other.token(),
        at,
    ) by {
        if 0 <= at {
            lemma_occurs_shifted(text, other.token(), from, at);
        }
    }
    lemma_first_placeholder(stretch, placeholder, after, values, pending);
}

/// A stretch of a text holds no token if every token that stands in the
/// text stands outside the stretch.
proof fn lemma_stretch_token_free(text: Seq<char>, stretch: Seq<char>, from: int)
    requires
        0 <= from,
        from + stretch.len() <= text.len(),
        text.subrange(from, from + stretch.len()) == stretch,
        forall|placeholder: Placeholder, at: int|
            occurs_at(text, placeholder.token(), at) ==> at < from || from + stretch.len() < at
                + placeholder.token().len(),
    ensures
        token_free(stretch),
{
    assert forall|placeholder: Placeholder, at: int|
        occurs_at(stretch, placeholder.token(), at) implies false by {
        let token = placeholder.token();
        assert(text.subrange(from + at, from + at + token.len()) =~= stretch.subrange(
            at,
            at + token.len(),
        ));
        assert(occurs_at(text, token, from + at));
    }
}

/// In a template that holds each placeholder exactly once, no token stands
/// in the stretches between the placeholders.
proof fn lemma_stretches_token_free(
    stretches: (Seq<char>, Seq<char>, Seq<char>, Seq<char>, Seq<char>),
    order: (Placeholder, Placeholder, Placeholder, Placeholder),
)
    requires
        forall|placeholder: Placeholder|
            stands_once(
                woven(
                    stretches,
                    (order.0.token(), order.1.token(), order.2.token(), order.3.token()),
                ),
                #[trigger] placeholder.token(),
            ),
    ensures
        token_free(stretches.0),
        token_free(stretches.1),
        token_free(stretches.2),
        token_free(stretches.3),
        token_free(stretches.4),
{
    let (r0, r1, r2, r3, r4) = stretches;
    let (first, second, third, fourth) = order;
    let between = (first.token(), second.token(), third.token(), fourth.token());
    let template = woven(stretches, between);
    let at1 = r0.len() as int;
    let from1 = at1 + first.token().len();
    let at2 = from1 + r1.len();
    let from2 = at2 + second.token().len();
    let at3 = from2 + r2.len();
    let from3 = at3 + third.token().len();
    let at4 = from3 + r3.len();
    let from4 = at4 + fourth.token().len();
    lemma_token_lengths();
    lemma_woven(stretches, between);
    assert forall|placeholder: Placeholder, at: int|
        occurs_at(template, placeholder.token(), at) implies (at == at1 && at
        + placeholder.token().len() == from1) || (at == at2 && at + placeholder.token().len()
        == from2) || (at == at3 && at + placeholder.token().len() == from3) || (at == at4 && at
        + placeholder.token().len() == from4) by {
    }
    lemma_stretch_token_free(template, r0, 0);
    lemma_stretch_token_free(template, r1, from1);
    lemma_stretch_token_free(template, r2, from2);
    lemma_stretch_token_free(template, r3, from3);
    lemma_stretch_token_free(template, r4, from4);
}

} // verus!
