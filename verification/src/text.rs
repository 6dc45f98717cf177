//! Character-level text primitives shared by the codecs: conversion between
//! strings and character vectors, white space, trimming and splitting.

use vstd::prelude::*;

verus! {

/// Taken on trust from the standard library, not proved here:
/// `String::push` appends `ch` to the end of the string and leaves the
/// characters before it as they were.
pub assume_specification[ String::push ](s: &mut String, ch: char)
    ensures
        final(s)@ == old(s)@.push(ch),
;

/// The characters of `s`, in order.
pub fn chars_of(s: &str) -> (v: Vec<char>)
    ensures
        v@ == s@,
{
    let mut v: Vec<char> = Vec::new();
    for c in it: s.chars()
        invariant
            v@ == it.seq().take(it.index()),
            it.seq() == s@,
    {
        v.push(c);
    }
    v
}

/// The string made of the characters of `v`, in order.
pub fn string_of(v: &[char]) -> (s: String)
    ensures
        s@ == v@,
{
    let mut s = String::new();
    let mut i: usize = 0;
    while i < v.len()
        invariant
            i <= v.len(),
            s@ == v@.take(i as int),
        decreases v.len() - i,
    {
        s.push(v[i]);
        i += 1;
    }
    s
}

/// The characters of `v` from `from` up to, not including, `to`.
pub fn copy_range(v: &[char], from: usize, to: usize) -> (r: Vec<char>)
    requires
        from <= to <= v.len(),
    ensures
        r@ == v@.subrange(from as int, to as int),
{
    let mut r: Vec<char> = Vec::new();
    let mut i: usize = from;
    while i < to
        invariant
            from <= i <= to <= v.len(),
            r@ == v@.subrange(from as int, i as int),
        decreases to - i,
    {
        r.push(v[i]);
        i += 1;
    }
    r
}

/// White space: the characters with the Unicode property `White_Space`.
pub open spec fn is_whitespace(c: char) -> bool {
    let n = c as u32;
    ||| 0x09 <= n <= 0x0D
    ||| n == 0x20
    ||| n == 0x85
    ||| n == 0xA0
    ||| n == 0x1680
    ||| 0x2000 <= n <= 0x200A
    ||| n == 0x2028
    ||| n == 0x2029
    ||| n == 0x202F
    ||| n == 0x205F
    ||| n == 0x3000
}

/// Whether `c` is white space.
pub fn whitespace(c: char) -> (b: bool)
    ensures
        b == is_whitespace(c),
{
    let n: u32 = c as u32;
    (0x09 <= n && n <= 0x0D) || n == 0x20 || n == 0x85 || n == 0xA0 || n == 0x1680 || (0x2000 <= n
        && n <= 0x200A) || n == 0x2028 || n == 0x2029 || n == 0x202F || n == 0x205F || n == 0x3000
}

/// No character of `s` is white space.
pub open spec fn no_whitespace(s: Seq<char>) -> bool {
    forall|i: int| 0 <= i < s.len() ==> !is_whitespace(#[trigger] s[i])
}

/// `s` without its leading white space.
pub open spec fn trim_start(s: Seq<char>) -> Seq<char>
    decreases s.len(),
{
    if s.len() > 0 && is_whitespace(s[0]) {
        trim_start(s.skip(1))
    } else {
        s
    }
}

/// `s` without its trailing white space.
pub open spec fn trim_end(s: Seq<char>) -> Seq<char>
    decreases s.len(),
{
    if s.len() > 0 && is_whitespace(s.last()) {
        trim_end(s.drop_last())
    } else {
        s
    }
}

/// `s` without leading and trailing white space.
pub open spec fn trim(s: Seq<char>) -> Seq<char> {
    trim_end(trim_start(s))
}

/// Skipping `n` leading white-space characters does not change what
/// `trim_start` gives.
pub proof fn lemma_trim_start_skip(s: Seq<char>, n: int)
    requires
        0 <= n <= s.len(),
        forall|i: int| 0 <= i < n ==> is_whitespace(#[trigger] s[i]),
    ensures
        trim_start(s) == trim_start(s.skip(n)),
    decreases n,
{
    if n > 0 {
        assert(s.skip(1).skip(n - 1) =~= s.skip(n));
        lemma_trim_start_skip(s.skip(1), n - 1);
    } else {
        assert(s.skip(0) =~= s);
    }
}

/// Dropping trailing white-space characters down to length `n` does not
/// change what `trim_end` gives.
pub proof fn lemma_trim_end_take(s: Seq<char>, n: int)
    requires
        0 <= n <= s.len(),
        forall|i: int| n <= i < s.len() ==> is_whitespace(#[trigger] s[i]),
    ensures
        trim_end(s) == trim_end(s.take(n)),
    decreases s.len() - n,
{
    if n < s.len() {
        assert(s.drop_last().take(n) =~= s.take(n));
        lemma_trim_end_take(s.drop_last(), n);
    } else {
        assert(s.take(n) =~= s);
    }
}

/// `v` without leading and trailing white space.
pub fn trimmed(v: &[char]) -> (r: Vec<char>)
    ensures
        r@ == trim(v@),
{
    let mut a: usize = 0;
    while a < v.len() && whitespace(v[a])
        invariant
            a <= v.len(),
            forall|i: int| 0 <= i < a ==> is_whitespace(#[trigger] v@[i]),
        decreases v.len() - a,
    {
        a += 1;
    }
    let mut b: usize = v.len();
    while b > a && whitespace(v[b - 1])
        invariant
            a <= b <= v.len(),
            forall|i: int| b <= i < v.len() ==> is_whitespace(#[trigger] v@[i]),
        decreases b,
    {
        b -= 1;
    }
    proof {
        let t = v@.skip(a as int);
        lemma_trim_start_skip(v@, a as int);
        assert(trim_start(t) == t);
        lemma_trim_end_take(t, b - a);
        assert(t.take(b - a) =~= v@.subrange(a as int, b as int));
        let u = v@.subrange(a as int, b as int);
        assert(trim_end(u) == u) by {
            if u.len() > 0 {
                assert(u.last() == v@[b - 1]);
            }
        }
    }
    copy_range(v, a, b)
}

/// The character sequences that the vectors of `v` hold.
pub open spec fn seqs(v: Seq<Vec<char>>) -> Seq<Seq<char>> {
    Seq::new(v.len(), |i: int| v[i]@)
}

/// The index of the first `c` in `s`, or the length of `s` where there is none.
pub open spec fn index_of(s: Seq<char>, c: char) -> int
    decreases s.len(),
{
    if s.len() == 0 || s[0] == c {
        0
    } else {
        1 + index_of(s.skip(1), c)
    }
}

/// The pieces of `s` between the occurrences of `sep`: one more piece than
/// there are separators, empty pieces included.
pub open spec fn split_on(s: Seq<char>, sep: char) -> Seq<Seq<char>>
    decreases s.len(),
{
    let i = index_of(s, sep);
    if 0 <= i < s.len() {
        seq![s.take(i)] + split_on(s.skip(i + 1), sep)
    } else {
        seq![s]
    }
}

/// `index_of` is the position before which no `c` stands and at which one
/// does, or the end.
pub proof fn lemma_index_of(s: Seq<char>, c: char, i: int)
    requires
        0 <= i <= s.len(),
        forall|k: int| 0 <= k < i ==> #[trigger] s[k] != c,
        i < s.len() ==> s[i] == c,
    ensures
        index_of(s, c) == i,
    decreases i,
{
    if i > 0 {
        lemma_index_of(s.skip(1), c, i - 1);
    }
}

/// The pieces of `v` between the occurrences of `sep`.
pub fn split(v: &[char], sep: char) -> (r: Vec<Vec<char>>)
    ensures
        seqs(r@) == split_on(v@, sep),
{
    let mut r: Vec<Vec<char>> = Vec::new();
    let mut start: usize = 0;
    let mut i: usize = 0;
    proof {
        assert(v@.skip(0) =~= v@);
        assert(seqs(r@) + split_on(v@, sep) =~= split_on(v@, sep));
    }
    while i < v.len()
        invariant
            start <= i <= v.len(),
            forall|k: int| start <= k < i ==> #[trigger] v@[k] != sep,
            split_on(v@, sep) == seqs(r@) + split_on(v@.skip(start as int), sep),
        decreases v.len() - i,
    {
        if v[i] == sep {
            let piece = copy_range(v, start, i);
            proof {
                let rest = v@.skip(start as int);
                lemma_index_of(rest, sep, i - start);
                assert(rest.take(i - start) =~= piece@);
                assert(rest.skip(i - start + 1) =~= v@.skip(i + 1));
                assert(seqs(r@.push(piece)) =~= seqs(r@).push(piece@));
                assert(seqs(r@).push(piece@) + split_on(v@.skip(i + 1), sep) =~= seqs(r@)
                    + split_on(rest, sep));
            }
            r.push(piece);
            start = i + 1;
        }
        i += 1;
    }
    let piece = copy_range(v, start, v.len());
    proof {
        let rest = v@.skip(start as int);
        lemma_index_of(rest, sep, rest.len() as int);
        assert(rest =~= piece@);
        assert(seqs(r@.push(piece)) =~= seqs(r@).push(piece@));
        assert(seqs(r@).push(piece@) =~= seqs(r@) + split_on(rest, sep));
    }
    r.push(piece);
    r
}

/// The length of the run of characters at the start of `s` that are not
/// white space.
pub open spec fn word_len(s: Seq<char>) -> int
    decreases s.len(),
{
    if s.len() == 0 || is_whitespace(s[0]) {
        0
    } else {
        1 + word_len(s.skip(1))
    }
}

/// A run is no longer than the text, and has a character where the text
/// starts with one that is not white space.
pub proof fn lemma_word_len_bounds(s: Seq<char>)
    ensures
        0 <= word_len(s) <= s.len(),
        s.len() > 0 && !is_whitespace(s[0]) ==> word_len(s) > 0,
    decreases s.len(),
{
    if s.len() > 0 && !is_whitespace(s[0]) {
        lemma_word_len_bounds(s.skip(1));
    }
}

/// The words of `s`: its maximal runs of characters that are not white
/// space, in order.
pub open spec fn words(s: Seq<char>) -> Seq<Seq<char>>
    decreases s.len(),
{
    if s.len() == 0 {
        Seq::empty()
    } else if is_whitespace(s[0]) {
        words(s.skip(1))
    } else {
        proof {
            lemma_word_len_bounds(s);
        }
        seq![s.take(word_len(s))] + words(s.skip(word_len(s)))
    }
}

/// `word_len` is the position before which no white space stands and at
/// which some does, or the end.
pub proof fn lemma_word_len(s: Seq<char>, n: int)
    requires
        0 <= n <= s.len(),
        forall|k: int| 0 <= k < n ==> !is_whitespace(#[trigger] s[k]),
        n < s.len() ==> is_whitespace(s[n]),
    ensures
        word_len(s) == n,
    decreases n,
{
    if n > 0 {
        lemma_word_len(s.skip(1), n - 1);
    }
}

/// The words of `v`.
pub fn split_words(v: &[char]) -> (r: Vec<Vec<char>>)
    ensures
        seqs(r@) == words(v@),
{
    let mut r: Vec<Vec<char>> = Vec::new();
    let mut i: usize = 0;
    proof {
        assert(v@.skip(0) =~= v@);
        assert(seqs(r@) + words(v@) =~= words(v@));
    }
    while i < v.len()
        invariant
            i <= v.len(),
            words(v@) == seqs(r@) + words(v@.skip(i as int)),
        decreases v.len() - i,
    {
        if whitespace(v[i]) {
            proof {
                assert(v@.skip(i as int).skip(1) =~= v@.skip(i + 1));
            }
            i += 1;
        } else {
            let start = i;
            while i < v.len() && !whitespace(v[i])
                invariant
                    start <= i <= v.len(),
                    forall|k: int| start <= k < i ==> !is_whitespace(#[trigger] v@[k]),
                decreases v.len() - i,
            {
                i += 1;
            }
            let word = copy_range(v, start, i);
            proof {
                let rest = v@.skip(start as int);
                lemma_word_len(rest, i - start);
                assert(rest.take(i - start) =~= word@);
                assert(rest.skip(i - start) =~= v@.skip(i as int));
                assert(seqs(r@.push(word)) =~= seqs(r@).push(word@));
                assert(seqs(r@).push(word@) + words(v@.skip(i as int)) =~= seqs(r@) + words(rest));
            }
            r.push(word);
        }
    }
    proof {
        assert(seqs(r@) + words(v@.skip(i as int)) =~= seqs(r@));
    }
    r
}

/// A word: at least one character, none of them white space.
pub open spec fn is_word(s: Seq<char>) -> bool {
    s.len() > 0 && no_whitespace(s)
}

/// The words of `ws` with one space between neighbours.
pub open spec fn join(ws: Seq<Seq<char>>) -> Seq<char>
    decreases ws.len(),
{
    if ws.len() == 0 {
        Seq::empty()
    } else if ws.len() == 1 {
        ws[0]
    } else {
        ws[0] + seq![' '] + join(ws.skip(1))
    }
}

/// Splitting what `join` made gives the words back.
pub proof fn lemma_words_of_join(ws: Seq<Seq<char>>)
    requires
        forall|i: int| 0 <= i < ws.len() ==> is_word(#[trigger] ws[i]),
    ensures
        words(join(ws)) == ws,
    decreases ws.len(),
{
    if ws.len() == 0 {
        assert(ws =~= Seq::<Seq<char>>::empty());
    } else {
        let w = ws[0];
        let t = join(ws);
        assert(is_word(w));
        assert(!is_whitespace(w[0]));
        if ws.len() == 1 {
            lemma_word_len(t, t.len() as int);
            assert(t.take(t.len() as int) =~= t);
            assert(words(t.skip(t.len() as int)) =~= Seq::<Seq<char>>::empty());
            assert(words(t) =~= ws);
        } else {
            let tail = ws.skip(1);
            assert forall|i: int| 0 <= i < tail.len() implies is_word(#[trigger] tail[i]) by {
                assert(tail[i] == ws[i + 1]);
            }
            lemma_words_of_join(tail);
            let n = w.len() as int;
            assert(t[n] == ' ');
            assert(is_whitespace(' '));
            assert forall|k: int| 0 <= k < n implies !is_whitespace(#[trigger] t[k]) by {
                assert(t[k] == w[k]);
            }
            lemma_word_len(t, n);
            assert(t.take(n) =~= w);
            let rest = t.skip(n);
            assert(rest[0] == ' ');
            assert(rest.skip(1) =~= join(tail));
            assert(words(rest) == words(rest.skip(1)));
            assert(seq![w] + tail =~= ws);
        }
    }
}

/// The words of `ws` with one space between neighbours.
pub fn join_words(ws: &Vec<Vec<char>>) -> (r: Vec<char>)
    ensures
        r@ == join(seqs(ws@)),
{
    let ghost all = seqs(ws@);
    let mut r: Vec<char> = Vec::new();
    let mut i: usize = 0;
    proof {
        assert(all.skip(0) =~= all);
        assert(r@ + join(all) =~= join(all));
    }
    while i < ws.len()
        invariant
            i <= ws.len(),
            all == seqs(ws@),
            join(all) == r@ + if 0 < i < ws.len() {
                seq![' '] + join(all.skip(i as int))
            } else {
                join(all.skip(i as int))
            },
        decreases ws.len() - i,
    {
        let ghost before = r@;
        if i > 0 {
            r.push(' ');
        }
        let w = &ws[i];
        let mut k: usize = 0;
        let ghost base = r@;
        while k < w.len()
            invariant
                k <= w.len(),
                r@ == base + w@.take(k as int),
            decreases w.len() - k,
        {
            r.push(w[k]);
            k += 1;
        }
        proof {
            assert(w@.take(w.len() as int) =~= w@);
            let here = all.skip(i as int);
            assert(here[0] == w@);
            if i + 1 < ws.len() {
                assert(here.skip(1) =~= all.skip(i + 1));
                assert(join(here) == w@ + seq![' '] + join(all.skip(i + 1)));
                assert(join(all) =~= r@ + (seq![' '] + join(all.skip(i + 1))));
            } else {
                assert(join(here) == w@);
                assert(all.skip(i + 1) =~= Seq::<Seq<char>>::empty());
                assert(join(all) =~= r@ + join(all.skip(i + 1)));
            }
        }
        i += 1;
    }
    proof {
        assert(all.skip(i as int) =~= Seq::<Seq<char>>::empty());
        assert(join(all) =~= r@);
    }
    r
}

/// Whether the characters of `v` are those of `word`.
pub fn word_is(v: &[char], word: &str) -> (b: bool)
    ensures
        b == (v@ == word@),
{
    let mut i: usize = 0;
    for c in it: word.chars()
        invariant
            i == it.index(),
            it.seq() == word@,
            i <= v.len(),
            v@.take(i as int) == word@.take(i as int),
    {
        if i >= v.len() || v[i] != c {
            return false;
        }
        proof {
            assert(v@.take(i + 1) =~= v@.take(i as int).push(v@[i as int]));
            assert(word@.take(i + 1) =~= word@.take(i as int).push(word@[i as int]));
        }
        i += 1;
    }
    proof {
        assert(word@.take(i as int) =~= word@);
        if i == v.len() {
            assert(v@.take(i as int) =~= v@);
        }
    }
    i == v.len()
}

/// Every word of a text is a word: it has a character, and no white space.
pub proof fn lemma_words_are_words(s: Seq<char>)
    ensures
        forall|i: int| 0 <= i < words(s).len() ==> is_word(#[trigger] words(s)[i]),
    decreases s.len(),
{
    if s.len() > 0 {
        if is_whitespace(s[0]) {
            lemma_words_are_words(s.skip(1));
            assert(words(s) == words(s.skip(1)));
        } else {
            let n = word_len(s);
            lemma_word_len_bounds(s);
            lemma_run_has_no_whitespace(s);
            assert(words(s)[0] == s.take(n));
            lemma_words_are_words(s.skip(n));
            let rest = words(s.skip(n));
            assert forall|i: int| 0 <= i < words(s).len() implies is_word(
                #[trigger] words(s)[i],
            ) by {
                if i > 0 {
                    assert(words(s)[i] == rest[i - 1]);
                }
            }
        }
    }
}

/// The run at the start of a text holds no white space.
pub proof fn lemma_run_has_no_whitespace(s: Seq<char>)
    ensures
        no_whitespace(s.take(word_len(s))),
    decreases s.len(),
{
    lemma_word_len_bounds(s);
    if s.len() > 0 && !is_whitespace(s[0]) {
        lemma_run_has_no_whitespace(s.skip(1));
        lemma_word_len_bounds(s.skip(1));
        let n = word_len(s);
        assert forall|i: int| 0 <= i < n implies !is_whitespace(#[trigger] s.take(n)[i]) by {
            if i > 0 {
                assert(s.take(n)[i] == s.skip(1).take(n - 1)[i - 1]);
            }
        }
    }
}

/// Cutting at a separator gives at least one piece, and no piece holds the
/// separator.
pub proof fn lemma_split_on(s: Seq<char>, sep: char)
    ensures
        split_on(s, sep).len() >= 1,
        forall|i: int|
            0 <= i < split_on(s, sep).len() ==> !(#[trigger] split_on(s, sep)[i]).contains(sep),
    decreases s.len(),
{
    let p = index_of(s, sep);
    lemma_index_of_bounds(s, sep);
    if 0 <= p < s.len() {
        lemma_split_on(s.skip(p + 1), sep);
        let rest = split_on(s.skip(p + 1), sep);
        assert forall|i: int| 0 <= i < split_on(s, sep).len() implies !(#[trigger] split_on(
            s,
            sep,
        )[i]).contains(sep) by {
            if i > 0 {
                assert(split_on(s, sep)[i] == rest[i - 1]);
            } else {
                assert(split_on(s, sep)[0] == s.take(p));
            }
        }
    } else {
        assert(s.take(p) =~= s);
        assert(split_on(s, sep)[0] == s);
    }
}

/// `index_of` lies within the text, no separator stands before it, and one
/// stands at it unless it is the end.
pub proof fn lemma_index_of_bounds(s: Seq<char>, c: char)
    ensures
        0 <= index_of(s, c) <= s.len(),
        !s.take(index_of(s, c)).contains(c),
        index_of(s, c) < s.len() ==> s[index_of(s, c)] == c,
    decreases s.len(),
{
    if s.len() > 0 && s[0] != c {
        lemma_index_of_bounds(s.skip(1), c);
        let p = index_of(s, c);
        let front = s.take(p);
        if front.contains(c) {
            let i = choose|i: int| 0 <= i < front.len() && front[i] == c;
            assert(i > 0);
            assert(s.skip(1).take(p - 1)[i - 1] == c);
            assert(s.skip(1).take(p - 1).contains(c));
        }
    } else {
        let front = s.take(index_of(s, c));
        if front.contains(c) {
            let i = choose|i: int| 0 <= i < front.len() && front[i] == c;
        }
    }
}

/// What `trim` leaves neither starts nor ends with white space.
pub proof fn lemma_trim(s: Seq<char>)
    ensures
        trim(s).len() > 0 ==> !is_whitespace(trim(s)[0]) && !is_whitespace(trim(s).last()),
{
    lemma_trim_start(s);
    lemma_trim_end(trim_start(s));
}

/// What `trim_start` leaves is the end of the text, and does not start with
/// white space.
pub proof fn lemma_trim_start(s: Seq<char>)
    ensures
        trim_start(s).len() <= s.len(),
        trim_start(s) == s.skip(s.len() - trim_start(s).len()),
        trim_start(s).len() > 0 ==> !is_whitespace(trim_start(s)[0]),
    decreases s.len(),
{
    if s.len() > 0 && is_whitespace(s[0]) {
        lemma_trim_start(s.skip(1));
        let t = trim_start(s);
        assert(s.skip(1).skip(s.len() - 1 - t.len()) =~= s.skip(s.len() - t.len()));
    } else {
        assert(s.skip(0) =~= s);
    }
}

/// What `trim_end` leaves is the start of the text, and does not end with
/// white space.
pub proof fn lemma_trim_end(s: Seq<char>)
    ensures
        trim_end(s).len() <= s.len(),
        trim_end(s) == s.take(trim_end(s).len() as int),
        trim_end(s).len() > 0 ==> !is_whitespace(trim_end(s).last()),
        s.len() > 0 && !is_whitespace(s[0]) ==> trim_end(s).len() > 0 && trim_end(s)[0] == s[0],
    decreases s.len(),
{
    if s.len() > 0 && is_whitespace(s.last()) {
        lemma_trim_end(s.drop_last());
        let t = trim_end(s);
        assert(s.drop_last().take(t.len() as int) =~= s.take(t.len() as int));
    } else {
        assert(s.take(s.len() as int) =~= s);
    }
}

/// What holds of the space and of every character of every word holds of
/// every character of the joined text.
pub proof fn lemma_join_chars(ws: Seq<Seq<char>>, p: spec_fn(char) -> bool)
    requires
        p(' '),
        forall|i: int, j: int| 0 <= i < ws.len() && 0 <= j < ws[i].len() ==> p(#[trigger] ws[i][j]),
    ensures
        forall|k: int| 0 <= k < join(ws).len() ==> p(#[trigger] join(ws)[k]),
        ws.len() > 0 && ws[0].len() > 0 ==> join(ws).len() > 0,
    decreases ws.len(),
{
    if ws.len() > 1 {
        let tail = ws.skip(1);
        assert forall|i: int, j: int| 0 <= i < tail.len() && 0 <= j < tail[i].len() implies p(
            #[trigger] tail[i][j],
        ) by {
            assert(tail[i][j] == ws[i + 1][j]);
        }
        lemma_join_chars(tail, p);
        let t = join(ws);
        let n = ws[0].len() as int;
        assert forall|k: int| 0 <= k < t.len() implies p(#[trigger] t[k]) by {
            if k < n {
                assert(t[k] == ws[0][k]);
            } else if k == n {
                assert(t[k] == ' ');
            } else {
                assert(t[k] == join(tail)[k - n - 1]);
            }
        }
    } else if ws.len() == 1 {
        assert forall|k: int| 0 <= k < join(ws).len() implies p(#[trigger] join(ws)[k]) by {
            assert(join(ws)[k] == ws[0][k]);
        }
    }
}

} // verus!
