//! Characters and words of a command line.

use vstd::prelude::*;
use vstd::string::StringExecFns;

verus! {

/// Whether `c` is white space: one of the characters that carry the
/// Unicode property White_Space, by their code points.
pub open spec fn white_space(c: char) -> bool {
    let code = c as u32;
    ||| 0x0009 <= code <= 0x000D
    ||| code == 0x0020
    ||| code == 0x0085
    ||| code == 0x00A0
    ||| code == 0x1680
    ||| 0x2000 <= code <= 0x200A
    ||| code == 0x2028
    ||| code == 0x2029
    ||| code == 0x202F
    ||| code == 0x205F
    ||| code == 0x3000
}

/// `char::is_whitespace` of std answers whether the character carries the
/// Unicode property White_Space.
pub assume_specification[ char::is_whitespace ](c: char) -> (b: bool)
    ensures
        b == white_space(c),
;

/// `String::push` of std appends one character to the end of the string.
pub assume_specification[ String::push ](s: &mut String, c: char)
    ensures
        final(s)@ == old(s)@.push(c),
;

/// What `str::to_lowercase` of std makes of a text.
pub uninterp spec fn lowercase(s: Seq<char>) -> Seq<char>;

/// `str::to_lowercase` of std: the lowercase equivalent of the text, which
/// depends on the text alone and which the contract names.
pub assume_specification[ str::to_lowercase ](s: &str) -> (lowered: String)
    ensures
        lowered@ == lowercase(s@),
;

/// The characters of `line`, in order.
pub fn chars_of(line: &str) -> (chars: Vec<char>)
    ensures
        chars@ == line@,
{
    let mut chars: Vec<char> = Vec::new();
    for c in it: line.chars()
        invariant
            chars@ == it.seq().take(it.index()),
    {
        chars.push(c);
    }
    chars
}

/// Whether two texts hold the same characters.
pub fn same_text(a: &str, b: &str) -> (same: bool)
    ensures
        same == (a@ == b@),
{
    let x = chars_of(a);
    let y = chars_of(b);
    if x.len() != y.len() {
        return false;
    }
    let mut i: usize = 0;
    while i < x.len()
        invariant
            i <= x.len(),
            x.len() == y.len(),
            x@ == a@,
            y@ == b@,
            forall|k: int| 0 <= k < i ==> x@[k] == y@[k],
        decreases x.len() - i,
    {
        if x[i] != y[i] {
            return false;
        }
        i += 1;
    }
    assert(x@ =~= y@);
    true
}

/// A character, marked as white space or not.
#[derive(Clone, Copy, Debug, PartialEq, Eq, Structural)]
pub struct Marked {
    pub character: char,
    pub space: bool,
}

/// The characters of `s`, each marked as white space where it is.
pub open spec fn marks(s: Seq<char>) -> Seq<Marked>
    decreases s.len(),
{
    if s.len() == 0 {
        Seq::empty()
    } else {
        marks(s.drop_last()).push(Marked { character: s.last(), space: white_space(s.last()) })
    }
}

/// The characters of `marked`, without their marks.
pub open spec fn characters(marked: Seq<Marked>) -> Seq<char> {
    marked.map_values(|m: Marked| m.character)
}

/// The number of characters before the first white space of `marked`, or
/// the length of `marked` where it holds none.
pub open spec fn word_len(marked: Seq<Marked>) -> nat
    decreases marked.len(),
{
    if marked.len() == 0 || marked[0].space {
        0
    } else {
        1 + word_len(marked.drop_first())
    }
}

/// The words of `marked`: its maximal runs of characters that are not
/// white space, from left to right.
pub open spec fn words_of(marked: Seq<Marked>) -> Seq<Seq<char>>
    decreases marked.len(),
    via words_of_decreases
{
    if marked.len() == 0 {
        Seq::empty()
    } else if marked[0].space {
        words_of(marked.drop_first())
    } else {
        seq![characters(marked.take(word_len(marked) as int))] + words_of(
            marked.skip(word_len(marked) as int),
        )
    }
}

#[via_fn]
proof fn words_of_decreases(marked: Seq<Marked>) {
    lemma_word_len_bound(marked);
}

/// The words of `s`: its maximal runs of characters that are not white
/// space, from left to right.
pub open spec fn words(s: Seq<char>) -> Seq<Seq<char>> {
    words_of(marks(s))
}

/// A first word is no longer than the text it starts.
pub proof fn lemma_word_len_bound(marked: Seq<Marked>)
    ensures
        word_len(marked) <= marked.len(),
    decreases marked.len(),
{
    if marked.len() > 0 && !marked[0].space {
        lemma_word_len_bound(marked.drop_first());
    }
}

/// The texts that a sequence of strings holds.
pub open spec fn texts(strings: Seq<String>) -> Seq<Seq<char>> {
    strings.map_values(|s: String| s@)
}

/// A run of `n` plain characters that ends at white space, or at the end
/// of `marked`, is the first word of `marked`.
pub proof fn lemma_word_len(marked: Seq<Marked>, n: nat)
    requires
        n <= marked.len(),
        forall|k: int| 0 <= k < n ==> !(#[trigger] marked[k]).space,
        n == marked.len() || marked[n as int].space,
    ensures
        word_len(marked) == n,
    decreases n,
{
    if n > 0 {
        let rest = marked.drop_first();
        assert forall|k: int| 0 <= k < n - 1 implies !(#[trigger] rest[k]).space by {
            assert(rest[k] == marked[k + 1]);
        }
        lemma_word_len(rest, (n - 1) as nat);
    }
}

/// Whether `c` stands somewhere in `marked` without the mark of white
/// space.
pub open spec fn plain_in(marked: Seq<Marked>, c: char) -> bool {
    exists|j: int|
        0 <= j < marked.len() && !(#[trigger] marked[j]).space && marked[j].character == c
}

/// No word is empty, and every character of a word stands in the text
/// without the mark of white space.
pub proof fn lemma_words_are_plain(marked: Seq<Marked>)
    ensures
        forall|i: int|
            0 <= i < words_of(marked).len() ==> (#[trigger] words_of(marked)[i]).len() > 0,
        forall|i: int, k: int|
            0 <= i < words_of(marked).len() && 0 <= k < words_of(marked)[i].len() ==> plain_in(
                marked,
                #[trigger] words_of(marked)[i][k],
            ),
    decreases marked.len(),
{
    if marked.len() == 0 {
    } else if marked[0].space {
        let rest = marked.drop_first();
        lemma_words_are_plain(rest);
        assert forall|i: int, k: int|
            0 <= i < words_of(marked).len() && 0 <= k < words_of(marked)[i].len() implies plain_in(
            marked,
            #[trigger] words_of(marked)[i][k],
        ) by {
            let c = words_of(rest)[i][k];
            assert(plain_in(rest, c));
            let j = choose|j: int|
                0 <= j < rest.len() && !(#[trigger] rest[j]).space && rest[j].character == c;
            assert(marked[j + 1] == rest[j]);
        }
    } else {
        let n = word_len(marked) as int;
        lemma_word_len_bound(marked);
        lemma_first_word_is_plain(marked);
        let rest = marked.skip(n);
        lemma_words_are_plain(rest);
        let found = words_of(marked);
        assert(found[0] == characters(marked.take(n)));
        assert forall|i: int| 0 <= i < found.len() implies (#[trigger] found[i]).len() > 0 by {
            if i > 0 {
                assert(found[i] == words_of(rest)[i - 1]);
            }
        }
        assert forall|i: int, k: int|
            0 <= i < found.len() && 0 <= k < found[i].len() implies plain_in(
            marked,
            #[trigger] found[i][k],
        ) by {
            if i == 0 {
                assert(marked.take(n)[k] == marked[k]);
                assert(!marked[k].space);
            } else {
                assert(found[i] == words_of(rest)[i - 1]);
                let c = words_of(rest)[i - 1][k];
                assert(plain_in(rest, c));
                let j = choose|j: int|
                    0 <= j < rest.len() && !(#[trigger] rest[j]).space && rest[j].character == c;
                assert(marked[n + j] == rest[j]);
            }
        }
    }
}

/// The first word of a text that starts with a plain character is not
/// empty, and holds plain characters only.
pub proof fn lemma_first_word_is_plain(marked: Seq<Marked>)
    requires
        marked.len() > 0,
        !marked[0].space,
    ensures
        0 < word_len(marked) <= marked.len(),
        forall|k: int| 0 <= k < word_len(marked) ==> !(#[trigger] marked[k]).space,
    decreases marked.len(),
{
    let rest = marked.drop_first();
    assert(word_len(marked) == 1 + word_len(rest));
    if rest.len() > 0 && !rest[0].space {
        lemma_first_word_is_plain(rest);
        assert forall|k: int| 0 <= k < word_len(marked) implies !(#[trigger] marked[k]).space by {
            if k > 0 {
                assert(marked[k] == rest[k - 1]);
            }
        }
    } else {
        assert(word_len(rest) == 0);
    }
}

/// Marks `c` as white space where `char::is_whitespace` of std says so.
pub fn classify(c: char) -> (marked: Marked)
    ensures
        marked == (Marked { character: c, space: white_space(c) }),
{
    Marked { character: c, space: c.is_whitespace() }
}

/// The characters of `line`, each with its mark.
pub fn mark(line: &str) -> (marked: Vec<Marked>)
    ensures
        marked@ == marks(line@),
{
    let chars = chars_of(line);
    let mut marked: Vec<Marked> = Vec::new();
    let mut i: usize = 0;
    while i < chars.len()
        invariant
            i <= chars.len(),
            chars@ == line@,
            marked@ == marks(chars@.take(i as int)),
        decreases chars.len() - i,
    {
        assert(chars@.take(i + 1).drop_last() == chars@.take(i as int));
        marked.push(classify(chars[i]));
        i += 1;
    }
    assert(chars@.take(i as int) == chars@);
    marked
}

/// The words of `marked`.
pub fn split_marked(marked: &Vec<Marked>) -> (found: Vec<String>)
    ensures
        texts(found@) == words_of(marked@),
{
    let mut found: Vec<String> = Vec::new();
    let mut i: usize = 0;
    assert(marked@.skip(0) == marked@);
    assert(texts(found@) == Seq::<Seq<char>>::empty());
    while i < marked.len()
        invariant
            i <= marked.len(),
            texts(found@) + words_of(marked@.skip(i as int)) == words_of(marked@),
        decreases marked.len() - i,
    {
        let ghost rest = marked@.skip(i as int);
        if marked[i].space {
            assert(rest.drop_first() == marked@.skip(i + 1));
            i += 1;
        } else {
            let mut word = String::new();
            let mut j: usize = i;
            while j < marked.len() && !marked[j].space
                invariant
                    i <= j <= marked.len(),
                    word@ == characters(marked@.subrange(i as int, j as int)),
                    forall|k: int| i <= k < j ==> !(#[trigger] marked@[k]).space,
                decreases marked.len() - j,
            {
                word.push(marked[j].character);
                assert(characters(marked@.subrange(i as int, j + 1)) =~= characters(
                    marked@.subrange(i as int, j as int),
                ).push(marked@[j as int].character));
                j += 1;
            }
            proof {
                assert forall|k: int| 0 <= k < j - i implies !(#[trigger] rest[k]).space by {
                    assert(rest[k] == marked@[i + k]);
                }
                lemma_word_len(rest, (j - i) as nat);
                assert(rest.take(j - i) == marked@.subrange(i as int, j as int));
                assert(rest.skip(j - i) == marked@.skip(j as int));
                assert(texts(found@.push(word)) == texts(found@) + seq![word@]);
            }
            found.push(word);
            i = j;
        }
    }
    assert(marked@.skip(i as int) == Seq::<Marked>::empty());
    found
}

/// The words of `line`, as `split_whitespace` of std would give them.
pub fn split_words(line: &str) -> (found: Vec<String>)
    ensures
        texts(found@) == words(line@),
{
    let marked = mark(line);
    split_marked(&marked)
}

/// The words of `ws`, each parted from the next by one space.
pub open spec fn joined(ws: Seq<Seq<char>>) -> Seq<char>
    decreases ws.len(),
{
    if ws.len() == 0 {
        Seq::empty()
    } else if ws.len() == 1 {
        ws[0]
    } else {
        joined(ws.drop_last()) + seq![' '] + ws.last()
    }
}

/// Words that are not empty join to the empty text only where there are
/// none.
pub proof fn lemma_joined_is_empty(ws: Seq<Seq<char>>)
    requires
        forall|i: int| 0 <= i < ws.len() ==> (#[trigger] ws[i]).len() > 0,
    ensures
        joined(ws).len() == 0 <==> ws.len() == 0,
{
    if ws.len() == 1 {
        assert(ws[0].len() > 0);
    } else if ws.len() > 1 {
        assert(ws.last().len() > 0);
    }
}

/// The words of `ws`, joined by single spaces.
pub fn join_words(ws: &Vec<String>) -> (line: String)
    ensures
        line@ == joined(texts(ws@)),
{
    assert(texts(ws@).skip(0) == texts(ws@));
    join_from(ws, 0)
}

/// The words of `ws` from index `from` on, joined by single spaces.
pub(crate) fn join_from(ws: &Vec<String>, from: usize) -> (line: String)
    requires
        from <= ws.len(),
    ensures
        line@ == joined(texts(ws@).skip(from as int)),
{
    let mut line = String::new();
    let mut i: usize = from;
    let ghost all = texts(ws@);
    assert(all.subrange(from as int, from as int) == Seq::<Seq<char>>::empty());
    while i < ws.len()
        invariant
            from <= i <= ws.len(),
            all == texts(ws@),
            line@ == joined(all.subrange(from as int, i as int)),
        decreases ws.len() - i,
    {
        let ghost before = all.subrange(from as int, i as int);
        let ghost after = all.subrange(from as int, i + 1);
        assert(after.drop_last() == before);
        assert(after.last() == ws@[i as int]@);
        if i > from {
            line.push(' ');
        }
        line.append(ws[i].as_str());
        assert(line@ == joined(after)) by {
            if i > from {
                assert(line@ == joined(before) + seq![' '] + after.last());
            } else {
                assert(before.len() == 0);
                assert(line@ == after.last());
            }
        }
        i += 1;
    }
    assert(all.subrange(from as int, ws.len() as int) == all.skip(from as int));
    line
}

} // verus!
