//! What the lines of the output say, word by word.

use vstd::prelude::*;

use crate::text;

verus! {

/// The word that a text ends in, empty if it ends in a space.
#[verifier::opaque]
pub open spec fn open_word(s: Seq<char>) -> Seq<char>
    decreases s.len(),
{
    if s.len() == 0 || s.last() == ' ' {
        Seq::empty()
    } else {
        open_word(s.drop_last()).push(s.last())
    }
}

/// The words of a text that a space ends.
#[verifier::opaque]
pub open spec fn closed_words(s: Seq<char>) -> Seq<Seq<char>>
    decreases s.len(),
{
    if s.len() == 0 {
        Seq::empty()
    } else if s.last() == ' ' && open_word(s.drop_last()).len() > 0 {
        closed_words(s.drop_last()).push(open_word(s.drop_last()))
    } else {
        closed_words(s.drop_last())
    }
}

/// The words of a text: what stands between its spaces, in order.
pub open spec fn words(s: Seq<char>) -> Seq<Seq<char>> {
    if open_word(s).len() > 0 {
        closed_words(s).push(open_word(s))
    } else {
        closed_words(s)
    }
}

/// Whether a text is one word.
#[verifier::opaque]
pub open spec fn solid(s: Seq<char>) -> bool {
    s.len() > 0 && forall|i: int| 0 <= i < s.len() ==> s[i] != ' '
}

/// Whether a text is spaces and nothing else.
#[verifier::opaque]
pub open spec fn blank(s: Seq<char>) -> bool {
    s.len() > 0 && forall|i: int| 0 <= i < s.len() ==> s[i] == ' '
}

/// Whether a text starts with a space.
#[verifier::opaque]
pub open spec fn spaced(s: Seq<char>) -> bool {
    s.len() > 0 && s[0] == ' '
}

/// Whether a text is one word and spaces behind it.
#[verifier::opaque]
pub open spec fn ended(s: Seq<char>, word: Seq<char>) -> bool {
    solid(word) && blank(s.skip(word.len() as int)) && s == word + s.skip(word.len() as int)
}

/// The word that goes on when `t` is written behind `s`.
pub open spec fn grown(s: Seq<char>, t: Seq<char>) -> Seq<char> {
    if open_word(s).len() > 0 {
        open_word(s) + t
    } else {
        t
    }
}

pub broadcast proof fn lemma_words_nothing(s: Seq<char>, t: Seq<char>)
    requires
        t.len() == 0,
    ensures
        #![trigger closed_words(s + t)]
        #![trigger open_word(s + t)]
        closed_words(s + t) == closed_words(s),
        open_word(s + t) == open_word(s),
{
    assert(s + t =~= s);
}

pub broadcast proof fn lemma_words_solid(s: Seq<char>, t: Seq<char>)
    requires
        solid(t),
    ensures
        #![trigger closed_words(s + t)]
        #![trigger open_word(s + t)]
        closed_words(s + t) == closed_words(s),
        open_word(s + t) == grown(s, t),
        open_word(s + t).len() > 0,
    decreases t.len(),
{
    reveal(solid);
    reveal(open_word);
    reveal(closed_words);
    let front = t.drop_last();
    assert((s + t).drop_last() =~= s + front);
    if front.len() > 0 {
        lemma_words_solid(s, front);
        assert(grown(s, front).push(t.last()) =~= grown(s, t));
    } else {
        assert(s + front =~= s);
        assert(open_word(s).push(t.last()) =~= grown(s, t));
    }
}

pub broadcast proof fn lemma_words_blank(s: Seq<char>, t: Seq<char>)
    requires
        blank(t),
    ensures
        #![trigger closed_words(s + t)]
        #![trigger open_word(s + t)]
        closed_words(s + t) == words(s),
        open_word(s + t).len() == 0,
    decreases t.len(),
{
    reveal(blank);
    reveal(open_word);
    reveal(closed_words);
    let front = t.drop_last();
    assert((s + t).drop_last() =~= s + front);
    if front.len() > 0 {
        lemma_words_blank(s, front);
    } else {
        assert(s + front =~= s);
    }
}

pub broadcast proof fn lemma_words_ended(s: Seq<char>, t: Seq<char>, word: Seq<char>)
    requires
        ended(t, word),
    ensures
        #![trigger closed_words(s + t), ended(t, word)]
        #![trigger open_word(s + t), ended(t, word)]
        closed_words(s + t) == closed_words(s).push(grown(s, word)),
        open_word(s + t).len() == 0,
{
    reveal(ended);
    let rest = t.skip(word.len() as int);
    assert(s + t =~= (s + word) + rest);
    lemma_words_solid(s, word);
    lemma_words_blank(s + word, rest);
}

/// A text that starts with a space ends the word before it.
pub broadcast proof fn lemma_words_spaced(s: Seq<char>, t: Seq<char>)
    requires
        spaced(t),
    ensures
        #![trigger closed_words(s + t)]
        #![trigger open_word(s + t)]
        closed_words(s + t) == words(s) + closed_words(t),
        open_word(s + t) == open_word(t),
    decreases t.len(),
{
    reveal(spaced);
    reveal(open_word);
    reveal(closed_words);
    let front = t.drop_last();
    assert((s + t).drop_last() =~= s + front);
    if front.len() > 0 {
        lemma_words_spaced(s, front);
        assert(closed_words(s + t) =~= words(s) + closed_words(t));
    } else {
        assert(s + front =~= s);
        assert(closed_words(front) =~= Seq::empty());
        assert(open_word(front) =~= Seq::empty());
        assert(closed_words(s + t) =~= words(s) + closed_words(t));
    }
}

/// Behind a space a text is read as if it stood alone.
pub proof fn lemma_words_fresh(s: Seq<char>, t: Seq<char>)
    requires
        open_word(s).len() == 0,
    ensures
        closed_words(s + t) == closed_words(s) + closed_words(t),
        open_word(s + t) == open_word(t),
    decreases t.len(),
{
    reveal(open_word);
    reveal(closed_words);
    if t.len() > 0 {
        let front = t.drop_last();
        assert((s + t).drop_last() =~= s + front);
        lemma_words_fresh(s, front);
        assert(closed_words(s + t) =~= closed_words(s) + closed_words(t));
    } else {
        assert(s + t =~= s);
        assert(closed_words(s) + closed_words(t) =~= closed_words(s));
        assert(open_word(s) =~= open_word(t));
    }
}

/// Words joined by a word between spaces alternate with it.
pub proof fn lemma_words_joined(parts: Seq<Seq<char>>, separator: Seq<char>, between: Seq<char>)
    requires
        parts.len() > 0,
        forall|i: int| 0 <= i < parts.len() ==> solid(#[trigger] parts[i]),
        spaced(separator),
        closed_words(separator) == seq![between],
        open_word(separator).len() == 0,
    ensures
        ({
            let all = words(text::joined(parts, separator));
            &&& open_word(text::joined(parts, separator)).len() > 0
            &&& all.len() == 2 * parts.len() - 1
            &&& forall|i: int| 0 <= i < parts.len() ==> all[2 * i] == #[trigger] parts[i]
            &&& forall|i: int| 0 <= i < parts.len() - 1 ==> #[trigger] all[2 * i + 1] == between
        }),
    decreases parts.len(),
{
    if parts.len() == 1 {
        lemma_words_first(parts[0]);
    } else {
        let front = parts.drop_last();
        assert forall|i: int| 0 <= i < front.len() implies solid(#[trigger] front[i]) by {
            assert(front[i] == parts[i]);
        }
        lemma_words_joined(front, separator, between);
        let before = text::joined(front, separator);
        lemma_words_spaced(before, separator);
        lemma_words_solid(before + separator, parts.last());
        let all = words(text::joined(parts, separator));
        assert(all =~= words(before).push(between).push(parts.last()));
        assert forall|i: int| 0 <= i < parts.len() implies all[2 * i] == #[trigger] parts[i] by {
            if i < front.len() {
                assert(front[i] == parts[i]);
            }
        }
    }
}

/// A single word read from its start.
pub broadcast proof fn lemma_words_first(t: Seq<char>)
    requires
        solid(t),
    ensures
        #![trigger closed_words(t)]
        #![trigger open_word(t)]
        closed_words(t) == Seq::<Seq<char>>::empty(),
        open_word(t) == t,
        open_word(t).len() > 0,
{
    lemma_words_empty();
    lemma_words_solid(Seq::empty(), t);
    assert(Seq::<char>::empty() + t =~= t);
}

/// Spaces read from their start.
pub broadcast proof fn lemma_words_first_blank(t: Seq<char>)
    requires
        blank(t),
    ensures
        #![trigger closed_words(t)]
        #![trigger open_word(t)]
        closed_words(t) == Seq::<Seq<char>>::empty(),
        open_word(t) == Seq::<char>::empty(),
{
    lemma_words_empty();
    lemma_words_blank(Seq::empty(), t);
    assert(Seq::<char>::empty() + t =~= t);
    assert(open_word(t) =~= Seq::empty());
}

pub proof fn lemma_words_empty()
    ensures
        closed_words(Seq::empty()) == Seq::<Seq<char>>::empty(),
        open_word(Seq::empty()) == Seq::<char>::empty(),
        closed_words(""@) == Seq::<Seq<char>>::empty(),
        open_word(""@) == Seq::<char>::empty(),
        ""@.len() == 0,
{
    reveal_strlit("");
    reveal(open_word);
    reveal(closed_words);
    assert(""@ =~= Seq::empty());
}

/// Padding adds no word and changes none.
pub broadcast proof fn lemma_words_padded(s: Seq<char>, t: Seq<char>, width: nat)
    requires
        solid(t),
    ensures
        #![trigger closed_words(s + text::pad_right(t, width))]
        #![trigger open_word(s + text::pad_right(t, width))]
        words(s + text::pad_right(t, width)) == closed_words(s).push(grown(s, t)),
{
    let fill = text::run_of(' ', text::shortfall(t, width));
    assert(s + text::pad_right(t, width) =~= (s + t) + fill);
    lemma_words_solid(s, t);
    if fill.len() > 0 {
        assert(blank(fill)) by {
            reveal(blank);
        }
        lemma_words_blank(s + t, fill);
    } else {
        lemma_words_nothing(s + t, fill);
    }
}

pub broadcast proof fn lemma_solid_digits(n: nat, base: nat)
    requires
        base == 10 || base == 16,
    ensures
        #[trigger] solid(text::digits(n, base)),
    decreases n,
{
    reveal(solid);
    if n >= base {
        assert(n / base < n) by (nonlinear_arith)
            requires
                n >= base,
                base >= 2,
        ;
        lemma_solid_digits(n / base, base);
        assert(n % base < base);
    }
}

pub broadcast proof fn lemma_solid_zeros(s: Seq<char>, width: nat)
    requires
        solid(s),
    ensures
        #[trigger] solid(text::zero_fill(s, width)),
{
    reveal(solid);
}

pub broadcast proof fn lemma_solid_concat(a: Seq<char>, b: Seq<char>)
    requires
        solid(a),
        solid(b),
    ensures
        #[trigger] solid(a + b),
{
    reveal(solid);
}

/// A text that starts with a space still does when it goes on.
pub broadcast proof fn lemma_spaced_concat(a: Seq<char>, b: Seq<char>)
    requires
        spaced(a),
    ensures
        #[trigger] spaced(a + b),
{
    reveal(spaced);
}

pub broadcast group group_words {
    lemma_words_nothing,
    lemma_words_solid,
    lemma_words_blank,
    lemma_words_ended,
    lemma_words_spaced,
    lemma_words_first,
    lemma_words_first_blank,
    lemma_words_padded,
    lemma_solid_digits,
    lemma_solid_zeros,
    lemma_solid_concat,
    lemma_spaced_concat,
}

} // verus!
