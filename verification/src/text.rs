//! Splitting text into words and paragraphs.
//!
//! Text is handled as a sequence of characters. A word is a maximal run of
//! characters that are not white space; a paragraph break is a pair of
//! consecutive line feeds.

use vstd::prelude::*;

verus! {

/// The white-space characters of Unicode.
pub open spec fn is_whitespace(c: char) -> bool {
    let u = c as u32;
    ||| 0x09 <= u <= 0x0D
    ||| u == 0x20
    ||| u == 0x85
    ||| u == 0xA0
    ||| u == 0x1680
    ||| 0x2000 <= u <= 0x200A
    ||| u == 0x2028
    ||| u == 0x2029
    ||| u == 0x202F
    ||| u == 0x205F
    ||| u == 0x3000
}

/// Tells whether `c` is white space.
pub fn is_space(c: char) -> (r: bool)
    ensures
        r == is_whitespace(c),
{
    let u: u32 = c as u32;
    (0x09 <= u && u <= 0x0D) || u == 0x20 || u == 0x85 || u == 0xA0 || u == 0x1680 || (0x2000 <= u
        && u <= 0x200A) || u == 0x2028 || u == 0x2029 || u == 0x202F || u == 0x205F || u == 0x3000
}

/// The number of bytes that `c` takes in UTF-8.
pub open spec fn utf8_width(c: char) -> nat {
    let u = c as u32;
    if u < 0x80 {
        1
    } else if u < 0x800 {
        2
    } else if u < 0x10000 {
        3
    } else {
        4
    }
}

/// The number of bytes that `s` takes in UTF-8.
pub open spec fn utf8_len(s: Seq<char>) -> nat
    decreases s.len(),
{
    if s.len() == 0 {
        0
    } else {
        utf8_len(s.drop_last()) + utf8_width(s.last())
    }
}

/// The length of the run of characters at the front of `s` that are not
/// white space.
pub open spec fn run_len(s: Seq<char>) -> nat
    decreases s.len(),
{
    if s.len() == 0 || is_whitespace(s[0]) {
        0
    } else {
        1 + run_len(s.skip(1))
    }
}

/// The run at the front of `s` ends within `s`.
pub proof fn lemma_run_len_bound(s: Seq<char>)
    ensures
        run_len(s) <= s.len(),
    decreases s.len(),
{
    if !(s.len() == 0 || is_whitespace(s[0])) {
        lemma_run_len_bound(s.skip(1));
    }
}

/// The words of `s`: its maximal runs of characters that are not white
/// space, in order.
pub open spec fn words(s: Seq<char>) -> Seq<Seq<char>>
    decreases s.len(),
{
    if s.len() == 0 {
        Seq::empty()
    } else if is_whitespace(s[0]) {
        words(s.skip(1))
    } else {
        proof {
            lemma_run_len_bound(s);
        }
        seq![s.take(run_len(s) as int)] + words(s.skip(run_len(s) as int))
    }
}

/// `words` set one after another with a single space between neighbours.
pub open spec fn joined(words: Seq<Seq<char>>) -> Seq<char>
    decreases words.len(),
{
    if words.len() == 0 {
        Seq::empty()
    } else if words.len() == 1 {
        words[0]
    } else {
        joined(words.drop_last()) + seq![' '] + words.last()
    }
}

/// The index at which the first pair of consecutive line feeds of `s`
/// starts, or the length of `s` if it has none.
pub open spec fn break_at(s: Seq<char>) -> nat
    decreases s.len(),
{
    if s.len() < 2 {
        s.len()
    } else if s[0] == '\n' && s[1] == '\n' {
        0
    } else {
        1 + break_at(s.skip(1))
    }
}

/// Where `break_at` points there is a pair of line feeds, and it lies
/// within `s`.
pub proof fn lemma_break_at_bound(s: Seq<char>)
    ensures
        break_at(s) <= s.len(),
        break_at(s) < s.len() ==> break_at(s) + 2 <= s.len() && s[break_at(s) as int] == '\n' && s[
            break_at(s) as int + 1] == '\n',
    decreases s.len(),
{
    if s.len() >= 2 && !(s[0] == '\n' && s[1] == '\n') {
        lemma_break_at_bound(s.skip(1));
    }
}

/// The pieces of `s` between its paragraph breaks. Breaks are found from
/// the left and do not overlap; a piece may be empty.
pub open spec fn blocks(s: Seq<char>) -> Seq<Seq<char>>
    decreases s.len(),
{
    if break_at(s) >= s.len() {
        seq![s]
    } else {
        proof {
            lemma_break_at_bound(s);
        }
        seq![s.take(break_at(s) as int)] + blocks(s.skip(break_at(s) as int + 2))
    }
}

/// A block holds at least one word.
pub open spec fn has_words(block: Seq<char>) -> bool {
    words(block).len() > 0
}

/// A block with its white space tidied: its words with single spaces between.
pub open spec fn tidy(block: Seq<char>) -> Seq<char> {
    joined(words(block))
}

/// The paragraphs of `s`: each block that holds a word, tidied.
pub open spec fn paragraphs(s: Seq<char>) -> Seq<Seq<char>> {
    blocks(s).filter(|b: Seq<char>| has_words(b)).map_values(|b: Seq<char>| tidy(b))
}

/// `s` could be a word: it is not empty and holds no white space.
pub open spec fn is_word(s: Seq<char>) -> bool {
    s.len() > 0 && forall|i: int| 0 <= i < s.len() ==> !is_whitespace(#[trigger] s[i])
}

/// The number of words in all of `pieces` together.
pub open spec fn word_total(pieces: Seq<Seq<char>>) -> nat
    decreases pieces.len(),
{
    if pieces.len() == 0 {
        0
    } else {
        word_total(pieces.drop_last()) + words(pieces.last()).len()
    }
}

/// The run at the front of `s` holds no white space.
pub proof fn lemma_run_is_clean(s: Seq<char>)
    ensures
        run_len(s) <= s.len(),
        forall|i: int| 0 <= i < run_len(s) ==> !is_whitespace(#[trigger] s[i]),
    decreases s.len(),
{
    if !(s.len() == 0 || is_whitespace(s[0])) {
        let rest = s.skip(1);
        lemma_run_is_clean(rest);
        assert forall|i: int| 0 <= i < run_len(s) implies !is_whitespace(#[trigger] s[i]) by {
            if i > 0 {
                assert(rest[i - 1] == s[i]);
            }
        }
    }
}

/// A sequence without white space is one run.
pub proof fn lemma_run_of_clean(w: Seq<char>)
    requires
        forall|i: int| 0 <= i < w.len() ==> !is_whitespace(#[trigger] w[i]),
    ensures
        run_len(w) == w.len(),
    decreases w.len(),
{
    if w.len() > 0 {
        let rest = w.skip(1);
        assert forall|i: int| 0 <= i < rest.len() implies !is_whitespace(#[trigger] rest[i]) by {
            assert(rest[i] == w[i + 1]);
        }
        lemma_run_of_clean(rest);
    }
}

/// A run ends at the first white space, whatever follows it.
pub proof fn lemma_run_stops_at_space(a: Seq<char>, c: char, b: Seq<char>)
    requires
        is_whitespace(c),
    ensures
        run_len(a + seq![c] + b) == run_len(a),
    decreases a.len(),
{
    let s = a + seq![c] + b;
    if a.len() == 0 {
        assert(s[0] == c);
    } else {
        assert(s[0] == a[0]);
        if !is_whitespace(a[0]) {
            assert(s.skip(1) == a.skip(1) + seq![c] + b);
            lemma_run_stops_at_space(a.skip(1), c, b);
        }
    }
}

/// White space separates: the words of two texts with a white-space
/// character between them are the words of the first followed by the words
/// of the second.
pub proof fn lemma_words_split(a: Seq<char>, c: char, b: Seq<char>)
    requires
        is_whitespace(c),
    ensures
        words(a + seq![c] + b) == words(a) + words(b),
    decreases a.len(),
{
    let s = a + seq![c] + b;
    if a.len() == 0 {
        assert(s[0] == c);
        assert(s.skip(1) == b);
        assert(words(a) + words(b) == words(b));
    } else if is_whitespace(a[0]) {
        assert(s[0] == a[0]);
        assert(s.skip(1) == a.skip(1) + seq![c] + b);
        lemma_words_split(a.skip(1), c, b);
    } else {
        assert(s[0] == a[0]);
        lemma_run_stops_at_space(a, c, b);
        lemma_run_len_bound(a);
        let n = run_len(a) as int;
        assert(s.take(n) == a.take(n));
        assert(s.skip(n) == a.skip(n) + seq![c] + b);
        lemma_words_split(a.skip(n), c, b);
        assert(seq![a.take(n)] + (words(a.skip(n)) + words(b)) == (seq![a.take(n)] + words(
            a.skip(n),
        )) + words(b));
    }
}

/// Every word of a text is not empty and holds no white space, and a text
/// has no more words than characters.
pub proof fn lemma_words_are_words(s: Seq<char>)
    ensures
        forall|i: int| 0 <= i < words(s).len() ==> is_word(#[trigger] words(s)[i]),
        words(s).len() <= s.len(),
    decreases s.len(),
{
    if s.len() == 0 {
    } else if is_whitespace(s[0]) {
        lemma_words_are_words(s.skip(1));
    } else {
        lemma_run_is_clean(s);
        let n = run_len(s) as int;
        let first = s.take(n);
        let rest = words(s.skip(n));
        lemma_words_are_words(s.skip(n));
        assert(is_word(first));
        assert forall|i: int| 0 <= i < words(s).len() implies is_word(#[trigger] words(s)[i]) by {
            if i > 0 {
                assert(words(s)[i] == rest[i - 1]);
            }
        }
    }
}

/// A word is the only word of itself.
pub proof fn lemma_words_of_word(w: Seq<char>)
    requires
        is_word(w),
    ensures
        words(w) == seq![w],
{
    lemma_run_of_clean(w);
    let n = w.len() as int;
    assert(!is_whitespace(w[0]));
    assert(w.take(n) == w);
    assert(w.skip(n).len() == 0);
    assert(words(w.skip(n)) == Seq::<Seq<char>>::empty());
    assert(seq![w] + Seq::<Seq<char>>::empty() == seq![w]);
}

/// Joining words and splitting the result gives the words back.
pub proof fn lemma_words_of_joined(ws: Seq<Seq<char>>)
    requires
        forall|i: int| 0 <= i < ws.len() ==> is_word(#[trigger] ws[i]),
    ensures
        words(joined(ws)) == ws,
    decreases ws.len(),
{
    if ws.len() == 0 {
        assert(words(joined(ws)) == ws);
    } else if ws.len() == 1 {
        lemma_words_of_word(ws[0]);
        assert(seq![ws[0]] == ws);
    } else {
        let init = ws.drop_last();
        assert forall|i: int| 0 <= i < init.len() implies is_word(#[trigger] init[i]) by {
            assert(init[i] == ws[i]);
        }
        lemma_words_of_joined(init);
        lemma_words_of_word(ws.last());
        lemma_words_split(joined(init), ' ', ws.last());
        assert(init + seq![ws.last()] == ws);
    }
}

/// Tidying a block keeps its words, and a tidied block is tidy.
pub proof fn lemma_tidy_keeps_words(block: Seq<char>)
    ensures
        words(tidy(block)) == words(block),
        tidy(tidy(block)) == tidy(block),
{
    lemma_words_are_words(block);
    lemma_words_of_joined(words(block));
}

/// One piece alone holds its own words.
pub proof fn lemma_word_total_one(piece: Seq<char>)
    ensures
        word_total(seq![piece]) == words(piece).len(),
{
    assert(seq![piece].drop_last() == Seq::<Seq<char>>::empty());
    assert(word_total(Seq::<Seq<char>>::empty()) == 0);
    assert(seq![piece].last() == piece);
}

/// The words of pieces set side by side are counted piece by piece.
pub proof fn lemma_word_total_add(a: Seq<Seq<char>>, b: Seq<Seq<char>>)
    ensures
        word_total(a + b) == word_total(a) + word_total(b),
    decreases b.len(),
{
    if b.len() == 0 {
        assert(a + b == a);
    } else {
        assert((a + b).drop_last() == a + b.drop_last());
        assert((a + b).last() == b.last());
        lemma_word_total_add(a, b.drop_last());
    }
}

/// Cutting a text at its paragraph breaks loses no word and adds none.
pub proof fn lemma_blocks_keep_words(s: Seq<char>)
    ensures
        word_total(blocks(s)) == words(s).len(),
    decreases s.len(),
{
    let k = break_at(s) as int;
    if k >= s.len() {
        lemma_word_total_one(s);
    } else {
        lemma_break_at_bound(s);
        let head = s.take(k);
        let tail = s.skip(k + 2);
        let middle = seq!['\n'] + tail;
        assert(s == head + seq!['\n'] + middle);
        lemma_words_split(head, '\n', middle);
        assert(middle == Seq::<char>::empty() + seq!['\n'] + tail);
        lemma_words_split(Seq::<char>::empty(), '\n', tail);
        assert(words(Seq::<char>::empty()) + words(tail) == words(tail));
        lemma_blocks_keep_words(tail);
        lemma_word_total_add(seq![head], blocks(tail));
        lemma_word_total_one(head);
    }
}

/// Dropping the pieces without words and tidying the others keeps the
/// number of words.
pub proof fn lemma_tidying_keeps_word_total(pieces: Seq<Seq<char>>)
    ensures
        word_total(
            pieces.filter(|b: Seq<char>| has_words(b)).map_values(|b: Seq<char>| tidy(b)),
        ) == word_total(pieces),
    decreases pieces.len(),
{
    let keep = |b: Seq<char>| has_words(b);
    let shape = |b: Seq<char>| tidy(b);
    reveal(Seq::filter);
    if pieces.len() > 0 {
        let init = pieces.drop_last();
        let last = pieces.last();
        lemma_tidying_keeps_word_total(init);
        if has_words(last) {
            assert(pieces.filter(keep) == init.filter(keep).push(last));
            let tidied = pieces.filter(keep).map_values(shape);
            assert(tidied.drop_last() == init.filter(keep).map_values(shape));
            assert(tidied.last() == tidy(last));
            lemma_tidy_keeps_words(last);
        } else {
            assert(pieces.filter(keep) == init.filter(keep));
        }
    } else {
        assert(pieces.filter(keep).len() == 0);
    }
}

/// The paragraphs of a text hold, together, exactly the words of the text:
/// counting words paragraph by paragraph gives the number of words of the
/// text. Every paragraph holds a word and is tidy.
pub proof fn law_paragraphs_hold_the_words(s: Seq<char>)
    ensures
        word_total(paragraphs(s)) == words(s).len(),
        forall|i: int|
            0 <= i < paragraphs(s).len() ==> has_words(#[trigger] paragraphs(s)[i]) && tidy(
                paragraphs(s)[i],
            ) == paragraphs(s)[i],
{
    lemma_blocks_keep_words(s);
    lemma_tidying_keeps_word_total(blocks(s));
    let keep = |b: Seq<char>| has_words(b);
    let kept = blocks(s).filter(keep);
    assert forall|i: int| 0 <= i < paragraphs(s).len() implies has_words(
        #[trigger] paragraphs(s)[i],
    ) && tidy(paragraphs(s)[i]) == paragraphs(s)[i] by {
        lemma_filter_yields_kept(blocks(s), i);
        lemma_tidy_keeps_words(kept[i]);
    }
}

/// Every piece that survives the filter holds a word.
proof fn lemma_filter_yields_kept(pieces: Seq<Seq<char>>, i: int)
    requires
        0 <= i < pieces.filter(|b: Seq<char>| has_words(b)).len(),
    ensures
        has_words(pieces.filter(|b: Seq<char>| has_words(b))[i]),
{
    let keep = |b: Seq<char>| has_words(b);
    pieces.lemma_filter_pred(keep, i);
}

/// The character sequences that `items` hold.
pub open spec fn views(items: Seq<Vec<char>>) -> Seq<Seq<char>> {
    items.map_values(|w: Vec<char>| w@)
}

/// The character sequences that `items` hold.
pub open spec fn string_views(items: Seq<String>) -> Seq<Seq<char>> {
    items.map_values(|w: String| w@)
}

/// Calls `String::push`, which appends one character to the string.
#[verifier::external_body]
fn push_char(s: &mut String, c: char)
    ensures
        final(s)@ == old(s)@.push(c),
{
    s.push(c)
}

/// The characters of `s`.
pub fn chars_of(s: &str) -> (v: Vec<char>)
    ensures
        v@ == s@,
{
    let mut v: Vec<char> = Vec::new();
    for c in it: s.chars()
        invariant
            it.seq() == s@,
            v@ == it.seq().take(it.index() as int),
    {
        v.push(c);
        assert(it.seq().take(it.index() + 1) == it.seq().take(it.index() as int).push(c));
    }
    assert(s@.take(s@.len() as int) == s@);
    v
}

/// The string made of `chars`.
pub fn string_of(chars: &Vec<char>) -> (s: String)
    ensures
        s@ == chars@,
{
    let mut s = String::new();
    let mut i: usize = 0;
    while i < chars.len()
        invariant
            i <= chars.len(),
            s@ == chars@.take(i as int),
        decreases chars.len() - i,
    {
        push_char(&mut s, chars[i]);
        assert(chars@.take(i + 1) == chars@.take(i as int).push(chars@[i as int]));
        i += 1;
    }
    assert(chars@.take(chars@.len() as int) == chars@);
    s
}

/// The characters of `v` from index `from` up to, not including, `to`.
pub fn copy_range(v: &Vec<char>, from: usize, to: usize) -> (r: Vec<char>)
    requires
        from <= to <= v.len(),
    ensures
        r@ == v@.subrange(from as int, to as int),
{
    let mut r: Vec<char> = Vec::new();
    let mut i: usize = from;
    while i < to
        invariant
            from <= i <= to <= v.len(),
            r@ == v@.subrange(from as int, i as int),
        decreases to - i,
    {
        r.push(v[i]);
        assert(v@.subrange(from as int, i + 1) == v@.subrange(from as int, i as int).push(
            v@[i as int],
        ));
        i += 1;
    }
    r
}

/// The number of bytes that `word` takes in UTF-8, or `usize::MAX` if that
/// is more than a `usize` holds.
pub fn byte_len(word: &Vec<char>) -> (n: usize)
    ensures
        n == if utf8_len(word@) <= usize::MAX {
            utf8_len(word@)
        } else {
            usize::MAX as nat
        },
{
    let mut n: usize = 0;
    let mut i: usize = 0;
    while i < word.len()
        invariant
            i <= word.len(),
            n == if utf8_len(word@.take(i as int)) <= usize::MAX {
                utf8_len(word@.take(i as int))
            } else {
                usize::MAX as nat
            },
        decreases word.len() - i,
    {
        let u: u32 = word[i] as u32;
        let w: usize = if u < 0x80 {
            1
        } else if u < 0x800 {
            2
        } else if u < 0x10000 {
            3
        } else {
            4
        };
        assert(word@.take(i + 1).drop_last() == word@.take(i as int));
        n = n.saturating_add(w);
        i += 1;
    }
    assert(word@.take(word@.len() as int) == word@);
    n
}

/// Splits `v` into its words.
pub fn split_words(v: &Vec<char>) -> (out: Vec<Vec<char>>)
    ensures
        views(out@) == words(v@),
        out.len() <= v.len(),
{
    let mut out: Vec<Vec<char>> = Vec::new();
    let mut i: usize = 0;
    assert(v@.skip(0) == v@);
    while i < v.len()
        invariant
            i <= v.len(),
            out.len() <= i,
            words(v@) == views(out@) + words(v@.skip(i as int)),
        decreases v.len() - i,
    {
        let ghost rest = v@.skip(i as int);
        if is_space(v[i]) {
            assert(rest.skip(1) == v@.skip(i + 1));
            i += 1;
        } else {
            let start = i;
            let mut j: usize = i + 1;
            assert(rest.skip(1) == v@.skip(j as int));
            while j < v.len() && !is_space(v[j])
                invariant
                    start < j <= v.len(),
                    run_len(v@.skip(start as int)) == (j - start) + run_len(v@.skip(j as int)),
                decreases v.len() - j,
            {
                assert(v@.skip(j as int).skip(1) == v@.skip(j + 1));
                j += 1;
            }
            assert(run_len(rest) == j - start);
            let word = copy_range(v, start, j);
            assert(rest.take(j - start) == v@.subrange(start as int, j as int));
            assert(rest.skip(j - start) == v@.skip(j as int));
            let ghost before = views(out@);
            out.push(word);
            assert(views(out@) == before + seq![word@]);
            i = j;
        }
    }
    assert(v@.skip(v@.len() as int).len() == 0);
    out
}

/// Sets `words` one after another with a single space between neighbours.
pub fn join_words(words: &Vec<Vec<char>>) -> (r: Vec<char>)
    ensures
        r@ == joined(views(words@)),
{
    let mut r: Vec<char> = Vec::new();
    let mut k: usize = 0;
    while k < words.len()
        invariant
            k <= words.len(),
            r@ == joined(views(words@).take(k as int)),
        decreases words.len() - k,
    {
        let ghost done = views(words@).take(k as int);
        let ghost next = views(words@).take(k + 1);
        assert(next.drop_last() == done);
        assert(next.last() == words@[k as int]@);
        if k > 0 {
            r.push(' ');
        }
        let word = &words[k];
        let ghost base = r@;
        let mut i: usize = 0;
        while i < word.len()
            invariant
                i <= word.len(),
                r@ == base + word@.take(i as int),
            decreases word.len() - i,
        {
            r.push(word[i]);
            assert(word@.take(i + 1) == word@.take(i as int).push(word@[i as int]));
            i += 1;
        }
        assert(word@.take(word@.len() as int) == word@);
        assert(r@ == joined(next)) by {
            if k == 0 {
                assert(base == Seq::<char>::empty());
                assert(base + word@ == word@);
            } else {
                assert(base == joined(done) + seq![' ']);
            }
        }
        k += 1;
    }
    assert(views(words@).take(words@.len() as int) == views(words@));
    r
}

/// Splits `v` at its paragraph breaks.
pub fn split_blocks(v: &Vec<char>) -> (out: Vec<Vec<char>>)
    ensures
        views(out@) == blocks(v@),
{
    let mut out: Vec<Vec<char>> = Vec::new();
    let mut start: usize = 0;
    let mut j: usize = 0;
    assert(v@.skip(0) == v@);
    while j < v.len() && j + 1 < v.len()
        invariant
            start <= j <= v.len(),
            blocks(v@) == views(out@) + blocks(v@.skip(start as int)),
            break_at(v@.skip(start as int)) == (j - start) + break_at(v@.skip(j as int)),
        decreases v.len() - j,
    {
        let ghost here = v@.skip(j as int);
        if v[j] == '\n' && v[j + 1] == '\n' {
            let ghost rest = v@.skip(start as int);
            assert(break_at(here) == 0);
            assert(break_at(rest) == j - start);
            let block = copy_range(v, start, j);
            assert(rest.take(j - start) == v@.subrange(start as int, j as int));
            assert(rest.skip(j - start + 2) == v@.skip(j + 2));
            let ghost before = views(out@);
            out.push(block);
            assert(views(out@) == before + seq![block@]);
            start = j + 2;
            j = j + 2;
        } else {
            assert(here.skip(1) == v@.skip(j + 1));
            j += 1;
        }
    }
    let ghost rest = v@.skip(start as int);
    assert(break_at(v@.skip(j as int)) == v@.len() - j);
    assert(break_at(rest) >= rest.len());
    let block = copy_range(v, start, v.len());
    assert(v@.subrange(start as int, v@.len() as int) == rest);
    let ghost before = views(out@);
    out.push(block);
    assert(views(out@) == before + seq![block@]);
    out
}

/// The paragraphs of `text`, and the number of words in `text`.
pub fn split_paragraphs(text: &str) -> (r: (Vec<String>, usize))
    ensures
        string_views(r.0@) == paragraphs(text@),
        r.1 == words(text@).len(),
{
    let chars = chars_of(text);
    let count = split_words(&chars).len();
    let pieces = split_blocks(&chars);
    let ghost keep = |b: Seq<char>| has_words(b);
    let ghost shape = |b: Seq<char>| tidy(b);
    let mut out: Vec<String> = Vec::new();
    let mut k: usize = 0;
    while k < pieces.len()
        invariant
            k <= pieces.len(),
            views(pieces@) == blocks(text@),
            keep == |b: Seq<char>| has_words(b),
            shape == |b: Seq<char>| tidy(b),
            string_views(out@) == blocks(text@).take(k as int).filter(keep).map_values(shape),
        decreases pieces.len() - k,
    {
        let ghost done = blocks(text@).take(k as int);
        let ghost next = blocks(text@).take(k + 1);
        assert(next.drop_last() == done);
        assert(next.last() == pieces@[k as int]@);
        proof {
            reveal(Seq::filter);
        }
        let found = split_words(&pieces[k]);
        if found.len() > 0 {
            let tidied = string_of(&join_words(&found));
            let ghost before = string_views(out@);
            out.push(tidied);
            assert(string_views(out@) == before.push(tidied@));
            assert(next.filter(keep) == done.filter(keep).push(next.last()));
            assert(next.filter(keep).map_values(shape) == done.filter(keep).map_values(
                shape,
            ).push(tidy(next.last())));
        } else {
            assert(next.filter(keep) == done.filter(keep));
        }
        k += 1;
    }
    assert(blocks(text@).take(pieces@.len() as int) == blocks(text@));
    (out, count)
}

} // verus!
