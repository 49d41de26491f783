//! Plain text: what counts as white space, and how words are set one space
//! apart.

use vstd::prelude::*;

verus! {

/// `String::push`: the string afterwards is the string before with `c` at
/// its end.
pub assume_specification[ String::push ](text: &mut String, c: char)
    ensures
        final(text)@ == old(text)@.push(c),
;

/// The text without the zeros it starts with.
pub open spec fn without_leading_zeros(text: Seq<char>) -> Seq<char>
    decreases text.len(),
{
    if text.len() > 0 && text[0] == '0' {
        without_leading_zeros(text.drop_first())
    } else {
        text
    }
}

/// The number of zeros that `text` starts with.
pub open spec fn leading_zeros(text: Seq<char>) -> nat
    decreases text.len(),
{
    if text.len() > 0 && text[0] == '0' {
        1 + leading_zeros(text.drop_first())
    } else {
        0
    }
}

/// The text without the zeros it starts with is what stands behind them: it
/// starts with no zero, and nothing but zeros has been dropped.
pub proof fn lemma_without_leading_zeros(text: Seq<char>)
    ensures
        leading_zeros(text) <= text.len(),
        forall|i: int| 0 <= i < leading_zeros(text) ==> text[i] == '0',
        leading_zeros(text) < text.len() ==> text[leading_zeros(text) as int] != '0',
        without_leading_zeros(text) == text.subrange(leading_zeros(text) as int, text.len() as int),
    decreases text.len(),
{
    if text.len() > 0 && text[0] == '0' {
        let rest = text.drop_first();
        lemma_without_leading_zeros(rest);
        let k = leading_zeros(rest) as int;
        assert forall|i: int| 0 <= i < leading_zeros(text) implies text[i] == '0' by {
            if i > 0 {
                assert(text[i] == rest[i - 1]);
            }
        }
        if k < rest.len() {
            assert(text[k + 1] == rest[k]);
        }
        assert(rest.subrange(k, rest.len() as int) =~= text.subrange(
            k + 1,
            text.len() as int,
        ));
    } else {
        assert(text.subrange(0, text.len() as int) =~= text);
    }
}

/// The text without the zeros it starts with.
pub fn strip_leading_zeros(text: &str) -> (stripped: String)
    ensures
        stripped@ == without_leading_zeros(text@),
{
    let mut stripped = String::new();
    let mut leading = true;
    let ghost all = text@;
    assert(all.subrange(0, all.len() as int) =~= all);
    for c in it: text.chars()
        invariant
            it.seq() == all,
            without_leading_zeros(all) == stripped@ + if leading {
                without_leading_zeros(all.subrange(it.index() as int, all.len() as int))
            } else {
                all.subrange(it.index() as int, all.len() as int)
            },
    {
        let ghost at = it.index() as int;
        let ghost rest = all.subrange(at, all.len() as int);
        assert(rest.drop_first() =~= all.subrange(at + 1, all.len() as int));
        assert(rest[0] == c);
        if leading && c == '0' {
        } else {
            let ghost before = stripped@;
            leading = false;
            stripped.push(c);
            assert(before + rest =~= before.push(c) + rest.drop_first());
        }
    }
    stripped
}

/// Whether `c` is white space: one of the characters U+0009 to U+000D,
/// U+0020, U+0085, U+00A0, U+1680, U+2000 to U+200A, U+2028, U+2029, U+202F,
/// U+205F and U+3000.
pub open spec fn is_space(c: char) -> bool {
    let code = c as u32;
    ||| 0x09 <= code <= 0x0D
    ||| code == 0x20
    ||| code == 0x85
    ||| code == 0xA0
    ||| code == 0x1680
    ||| 0x2000 <= code <= 0x200A
    ||| code == 0x2028
    ||| code == 0x2029
    ||| code == 0x202F
    ||| code == 0x205F
    ||| code == 0x3000
}

/// Whether `c` is white space.
pub fn is_whitespace(c: char) -> (space: bool)
    ensures
        space == is_space(c),
{
    let code: u32 = c as u32;
    (0x09 <= code && code <= 0x0D) || code == 0x20 || code == 0x85 || code == 0xA0 || code
        == 0x1680 || (0x2000 <= code && code <= 0x200A) || code == 0x2028 || code == 0x2029
        || code == 0x202F || code == 0x205F || code == 0x3000
}

/// The words of `text`: its longest runs of characters that are not white
/// space, in their order.
pub open spec fn words(text: Seq<char>) -> Seq<Seq<char>>
    decreases text.len(),
{
    if text.len() == 0 {
        Seq::empty()
    } else {
        let front = words(text.drop_last());
        let c = text.last();
        if is_space(c) {
            front
        } else if text.len() >= 2 && !is_space(text[text.len() - 2]) {
            front.drop_last().push(front.last().push(c))
        } else {
            front.push(seq![c])
        }
    }
}

/// The words of `words`, with one space between each two.
pub open spec fn spaced(words: Seq<Seq<char>>) -> Seq<char>
    decreases words.len(),
{
    if words.len() == 0 {
        Seq::empty()
    } else if words.len() == 1 {
        words[0]
    } else {
        spaced(words.drop_last()) + seq![' '] + words.last()
    }
}

/// The words of `text`, one space apart, with no white space in front of the
/// first or behind the last.
pub open spec fn collapsed(text: Seq<char>) -> Seq<char> {
    spaced(words(text))
}

/// No word is empty, and no word holds white space.
pub proof fn lemma_words_hold_no_space(text: Seq<char>)
    ensures
        forall|i: int| 0 <= i < words(text).len() ==> (#[trigger] words(text)[i]).len() > 0,
        forall|i: int, j: int|
            0 <= i < words(text).len() && 0 <= j < words(text)[i].len() ==> !is_space(
                #[trigger] words(text)[i][j],
            ),
    decreases text.len(),
{
    if text.len() > 0 {
        let front = words(text.drop_last());
        lemma_words_hold_no_space(text.drop_last());
        let c = text.last();
        if is_space(c) {
        } else if text.len() >= 2 && !is_space(text[text.len() - 2]) {
            lemma_word_at_end(text.drop_last());
            let all = words(text);
            assert forall|i: int| 0 <= i < all.len() implies (#[trigger] all[i]).len() > 0 by {
                if i < all.len() - 1 {
                    assert(all[i] == front[i]);
                }
            }
            assert forall|i: int, j: int|
                0 <= i < all.len() && 0 <= j < all[i].len() implies !is_space(
                #[trigger] all[i][j],
            ) by {
                if i < all.len() - 1 {
                    assert(all[i] == front[i]);
                } else if j < all[i].len() - 1 {
                    assert(all[i][j] == front.last()[j]);
                }
            }
        } else {
            let all = words(text);
            assert forall|i: int| 0 <= i < all.len() implies (#[trigger] all[i]).len() > 0 by {
                if i < all.len() - 1 {
                    assert(all[i] == front[i]);
                }
            }
            assert forall|i: int, j: int|
                0 <= i < all.len() && 0 <= j < all[i].len() implies !is_space(
                #[trigger] all[i][j],
            ) by {
                if i < all.len() - 1 {
                    assert(all[i] == front[i]);
                }
            }
        }
    }
}

/// Text that ends in a character that is not white space has a word.
proof fn lemma_word_at_end(text: Seq<char>)
    requires
        text.len() > 0,
        !is_space(text.last()),
    ensures
        words(text).len() > 0,
    decreases text.len(),
{
    if text.len() >= 2 && !is_space(text[text.len() - 2]) {
        lemma_word_at_end(text.drop_last());
    }
}

/// A character added to the last word is added to the spaced text.
proof fn lemma_spaced_longer_word(words: Seq<Seq<char>>, c: char)
    requires
        words.len() > 0,
    ensures
        spaced(words.drop_last().push(words.last().push(c))) == spaced(words).push(c),
{
    let longer = words.drop_last().push(words.last().push(c));
    assert(longer.drop_last() =~= words.drop_last());
    if words.len() == 1 {
        assert(spaced(longer) =~= spaced(words).push(c));
    } else {
        assert(spaced(longer) =~= spaced(words).push(c));
    }
}

/// A new word is added to the spaced text behind one space, or is the spaced
/// text where it is the first word.
proof fn lemma_spaced_new_word(words: Seq<Seq<char>>, c: char)
    ensures
        spaced(words.push(seq![c])) == if words.len() == 0 {
            seq![c]
        } else {
            spaced(words).push(' ').push(c)
        },
{
    let more = words.push(seq![c]);
    assert(more.drop_last() =~= words);
    if words.len() == 0 {
        assert(spaced(more) =~= seq![c]);
    } else {
        assert(spaced(more) =~= spaced(words).push(' ').push(c));
    }
}

/// Sets the words of `text` one space apart, and drops the white space in
/// front of the first and behind the last.
pub fn collapse_whitespace(text: &str) -> (tidy: String)
    ensures
        tidy@ == collapsed(text@),
{
    let mut tidy = String::new();
    let mut in_word = false;
    let mut started = false;
    let ghost all = text@;
    assert(all.subrange(0, 0) =~= Seq::<char>::empty());
    for c in it: text.chars()
        invariant
            it.seq() == all,
            tidy@ == collapsed(all.subrange(0, it.index() as int)),
            started == (words(all.subrange(0, it.index() as int)).len() > 0),
            in_word == (it.index() > 0 && !is_space(all[it.index() - 1])),
    {
        let ghost at = it.index() as int;
        let ghost seen = all.subrange(0, at);
        let ghost next = all.subrange(0, at + 1);
        proof {
            assert(next.drop_last() =~= seen);
            assert(next.last() == c);
            if at > 0 {
                assert(next[next.len() - 2] == all[at - 1]);
                assert(seen.last() == all[at - 1]);
            }
        }
        if is_whitespace(c) {
            in_word = false;
        } else {
            if in_word {
                proof {
                    lemma_word_at_end(seen);
                    lemma_spaced_longer_word(words(seen), c);
                }
                tidy.push(c);
            } else {
                proof {
                    lemma_spaced_new_word(words(seen), c);
                }
                if started {
                    tidy.push(' ');
                }
                tidy.push(c);
            }
            in_word = true;
            started = true;
        }
    }
    assert(all.subrange(0, all.len() as int) =~= all);
    tidy
}

} // verus!
