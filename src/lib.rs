//! Removal of Hebrew diacritics ("niqqud") and, optionally, Hebrew
//! punctuation such as gershayim, by filtering a text's codepoints against
//! two fixed ranges of the Unicode Hebrew block.
//!
//! reference: <https://www.unicode.org/charts/PDF/U0590.pdf>
use std::borrow::Cow;
use vstd::prelude::*;

pub mod filtering;

verus! {

/// The Hebrew accents, points and cantillation marks: `U+0590`..=`U+05CF`.
/// Membership is by range alone, so the block's punctuation (maqaf, paseq)
/// counts as well.
pub open spec fn diacritic(c: char) -> bool {
    0x0590 <= (c as u32) && (c as u32) <= 0x05CF
}

/// Hebrew punctuation such as geresh and gershayim: `U+05EB`..=`U+05FF`,
/// unassigned codepoints of the range included.
pub open spec fn special(c: char) -> bool {
    0x05EB <= (c as u32) && (c as u32) <= 0x05FF
}

/// What `remove` keeps of a text: every codepoint that is no diacritic, in order.
pub open spec fn without_diacritics(t: Seq<char>) -> Seq<char> {
    t.filter(|c: char| !diacritic(c))
}

/// What `remove_thorough` keeps of a text: every codepoint that is neither a
/// diacritic nor special, in order.
pub open spec fn without_diacritics_or_specials(t: Seq<char>) -> Seq<char> {
    t.filter(|c: char| !diacritic(c) && !special(c))
}

/// Relies on `String::push`: the character is appended at the end.
#[verifier::external_body]
fn push_char(s: &mut String, c: char)
    ensures
        final(s)@ == old(s)@.push(c),
{
    s.push(c)
}

/// Removes hebrew diacritics from a string.
///
/// Note: this function does NOT remove hebrew quotes ('״', '׳').
pub fn remove(string: &str) -> (r: Cow<'_, str>)
    ensures
        r@ == without_diacritics(string@),
{
    let mut out = String::new();
    for c in it: string.chars()
        invariant
            it.seq() == string@,
            out@ == it.seq().take(it.index()).filter(|c: char| !diacritic(c)),
    {
        proof {
            assert(it.seq().take(it.index() + 1) == it.seq().take(it.index()).push(c));
            filtering::lemma_filter_push(it.seq().take(it.index()), c, |c: char| !diacritic(c));
        }
        if !is_diacritic(c) {
            push_char(&mut out, c);
        }
    }
    assert(string@.take(string@.len() as int) == string@);
    Cow::Owned(out)
}

/// Removes hebrew diacritics from a string, while also removing hebrew quotes ('״', '׳').
pub fn remove_thorough(string: &str) -> (r: Cow<'_, str>)
    ensures
        r@ == without_diacritics_or_specials(string@),
{
    let mut out = String::new();
    for c in it: string.chars()
        invariant
            it.seq() == string@,
            out@ == it.seq().take(it.index()).filter(|c: char| !diacritic(c) && !special(c)),
    {
        proof {
            assert(it.seq().take(it.index() + 1) == it.seq().take(it.index()).push(c));
            filtering::lemma_filter_push(
                it.seq().take(it.index()),
                c,
                |c: char| !diacritic(c) && !special(c),
            );
        }
        if !is_diacritic(c) && !is_special(c) {
            push_char(&mut out, c);
        }
    }
    assert(string@.take(string@.len() as int) == string@);
    Cow::Owned(out)
}

/// Returns true if the character is a diacritic.
fn is_diacritic(c: char) -> (r: bool)
    ensures
        r == diacritic(c),
{
    let v = c as u32;
    0x0590 <= v && v <= 0x05CF
}

/// Returns true if the character is a special (HEB) character, such as
/// hebrew quotes '״' ("Gershayim", Hebrew: גֵּרְשַׁיִם).
fn is_special(c: char) -> (r: bool)
    ensures
        r == special(c),
{
    let v = c as u32;
    0x05EB <= v && v <= 0x05FF
}

/// What `remove` returns is a subsequence of its input that holds no
/// codepoint of `U+0590`..=`U+05CF` and every other codepoint of the input
/// as often as the input does.
pub proof fn lemma_remove_keeps_non_diacritics(t: Seq<char>)
    ensures
        filtering::is_subsequence(without_diacritics(t), t),
        forall|i: int|
            0 <= i < without_diacritics(t).len() ==> !diacritic(
                #[trigger] without_diacritics(t)[i],
            ),
        forall|c: char|
            !diacritic(c) ==> #[trigger] without_diacritics(t).to_multiset().count(c)
                == t.to_multiset().count(c),
{
    let p = |c: char| !diacritic(c);
    filtering::lemma_filter_is_subsequence(t, p);
    filtering::lemma_filter_all(t, p);
    assert forall|c: char| !diacritic(c) implies #[trigger] without_diacritics(
        t,
    ).to_multiset().count(c) == t.to_multiset().count(c) by {
        filtering::lemma_filter_count(t, p, c);
    }
}

/// What `remove_thorough` returns is a subsequence of its input that holds
/// no codepoint of `U+0590`..=`U+05CF` or of `U+05EB`..=`U+05FF`, and every
/// other codepoint of the input as often as the input does.
pub proof fn lemma_remove_thorough_keeps_the_rest(t: Seq<char>)
    ensures
        filtering::is_subsequence(without_diacritics_or_specials(t), t),
        forall|i: int|
            0 <= i < without_diacritics_or_specials(t).len() ==> {
                let c = #[trigger] without_diacritics_or_specials(t)[i];
                !diacritic(c) && !special(c)
            },
        forall|c: char|
            !diacritic(c) && !special(c) ==> #[trigger] without_diacritics_or_specials(
                t,
            ).to_multiset().count(c) == t.to_multiset().count(c),
{
    let p = |c: char| !diacritic(c) && !special(c);
    filtering::lemma_filter_is_subsequence(t, p);
    filtering::lemma_filter_all(t, p);
    assert forall|c: char| !diacritic(c) && !special(c) implies #[trigger] without_diacritics_or_specials(
        t,
    ).to_multiset().count(c) == t.to_multiset().count(c) by {
        filtering::lemma_filter_count(t, p, c);
    }
}

/// `remove_thorough` removes more than `remove`: its result is what remains
/// of `remove`'s once the special codepoints are filtered out, and so a
/// subsequence of it.
pub proof fn lemma_thorough_within_remove(t: Seq<char>)
    ensures
        without_diacritics_or_specials(t) == without_diacritics(t).filter(|c: char| !special(c)),
        filtering::is_subsequence(without_diacritics_or_specials(t), without_diacritics(t)),
{
    let p = |c: char| !diacritic(c);
    let q = |c: char| !special(c);
    filtering::lemma_filter_filter(t, p, q);
    assert(t.filter(|x: char| p(x) && q(x)) == without_diacritics_or_specials(t)) by {
        assert((|x: char| p(x) && q(x)) == (|c: char| !diacritic(c) && !special(c)));
    }
    filtering::lemma_filter_is_subsequence(without_diacritics(t), q);
}

/// Removing twice removes no more than removing once, for both functions.
pub proof fn lemma_remove_idempotent(t: Seq<char>)
    ensures
        without_diacritics(without_diacritics(t)) == without_diacritics(t),
        without_diacritics_or_specials(without_diacritics_or_specials(t))
            == without_diacritics_or_specials(t),
{
    filtering::lemma_filter_idempotent(t, |c: char| !diacritic(c));
    filtering::lemma_filter_idempotent(t, |c: char| !diacritic(c) && !special(c));
}

/// A text without any codepoint of the Hebrew block `U+0590`..=`U+05FF` is
/// left as it is by both functions.
pub proof fn lemma_non_hebrew_unchanged(t: Seq<char>)
    requires
        forall|i: int| 0 <= i < t.len() ==> !(0x0590 <= (#[trigger] t[i] as u32) <= 0x05FF),
    ensures
        without_diacritics(t) == t,
        without_diacritics_or_specials(t) == t,
{
    filtering::lemma_filter_keeps_all(t, |c: char| !diacritic(c));
    filtering::lemma_filter_keeps_all(t, |c: char| !diacritic(c) && !special(c));
}

} // verus!
