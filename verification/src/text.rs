//! Text as sequences of characters: fields, words and numerals.

use vstd::prelude::*;

verus! {

/// The characters of a string, in order.
pub fn chars_of(s: &str) -> (r: Vec<char>)
    ensures
        r@ == s@,
{
    let mut out: Vec<char> = Vec::new();
    for c in it: s.chars()
        invariant
            out@ == it.seq().take(it.index()),
    {
        out.push(c);
    }
    out
}

/// The views of a sequence of character vectors.
pub open spec fn views(v: Seq<Vec<char>>) -> Seq<Seq<char>> {
    v.map_values(|x: Vec<char>| x@)
}

/// The position of the first `c` in `s`, or the length of `s` where there
/// is none.
pub open spec fn first_index(s: Seq<char>, c: char) -> int
    decreases s.len(),
{
    if s.len() == 0 {
        0
    } else if s[0] == c {
        0
    } else {
        1 + first_index(s.drop_first(), c)
    }
}

/// The pieces of `s` between occurrences of `sep`: one more piece than
/// there are separators, empty pieces included.
pub open spec fn fields(s: Seq<char>, sep: char) -> Seq<Seq<char>>
    decreases s.len(),
{
    let i = first_index(s, sep);
    if 0 <= i < s.len() {
        seq![s.take(i)] + fields(s.skip(i + 1), sep)
    } else {
        seq![s]
    }
}

/// `first_index` is the least position that holds `c`.
pub proof fn lemma_first_index(s: Seq<char>, c: char)
    ensures
        0 <= first_index(s, c) <= s.len(),
        first_index(s, c) < s.len() ==> s[first_index(s, c)] == c,
        forall|j: int| 0 <= j < first_index(s, c) ==> s[j] != c,
    decreases s.len(),
{
    if s.len() != 0 && s[0] != c {
        let t = s.drop_first();
        lemma_first_index(t, c);
        assert forall|j: int| 0 <= j < first_index(s, c) implies s[j] != c by {
            if j > 0 {
                assert(s[j] == t[j - 1]);
            }
        }
    }
}

/// A position before which no `c` stands, and which holds `c` or ends `s`,
/// is the first index of `c`.
pub proof fn lemma_first_index_is(s: Seq<char>, c: char, k: int)
    requires
        0 <= k <= s.len(),
        forall|j: int| 0 <= j < k ==> s[j] != c,
        k < s.len() ==> s[k] == c,
    ensures
        first_index(s, c) == k,
{
    lemma_first_index(s, c);
    let f = first_index(s, c);
    if f < k {
        assert(s[f] == c);
    } else if f > k {
        assert(s[k] == c);
    }
}

/// A text that does not hold the separator is one field.
pub proof fn lemma_fields_whole(s: Seq<char>, sep: char)
    requires
        forall|i: int| 0 <= i < s.len() ==> s[i] != sep,
    ensures
        fields(s, sep) == seq![s],
{
    lemma_first_index_is(s, sep, s.len() as int);
}

/// Where a text without the separator stands before a separator, it is the
/// first field, and the fields of what follows the separator follow it.
pub proof fn lemma_fields_first(a: Seq<char>, sep: char, rest: Seq<char>)
    requires
        forall|i: int| 0 <= i < a.len() ==> a[i] != sep,
    ensures
        fields(a + seq![sep] + rest, sep) == seq![a] + fields(rest, sep),
{
    let s = a + seq![sep] + rest;
    lemma_first_index_is(s, sep, a.len() as int);
    assert(s.take(a.len() as int) =~= a);
    assert(s.skip(a.len() as int + 1) =~= rest);
}

/// A text has at least one field.
pub proof fn lemma_fields_some(s: Seq<char>, sep: char)
    ensures
        fields(s, sep).len() >= 1,
        (exists|i: int| 0 <= i < s.len() && s[i] == sep) ==> fields(s, sep).len() >= 2,
    decreases s.len(),
{
    lemma_first_index(s, sep);
    let i = first_index(s, sep);
    if 0 <= i < s.len() {
        lemma_fields_some(s.skip(i + 1), sep);
    }
}

/// Splits `s` at every `sep`.
pub fn split(s: &Vec<char>, sep: char) -> (r: Vec<Vec<char>>)
    ensures
        views(r@) == fields(s@, sep),
{
    let mut out: Vec<Vec<char>> = Vec::new();
    let mut piece: Vec<char> = Vec::new();
    let mut start: usize = 0;
    let mut i: usize = 0;
    proof {
        assert(s@.skip(0) =~= s@);
        assert(views(out@) + fields(s@, sep) =~= fields(s@, sep));
    }
    while i < s.len()
        invariant
            start <= i <= s.len(),
            piece@ == s@.subrange(start as int, i as int),
            forall|j: int| start <= j < i ==> s@[j] != sep,
            fields(s@, sep) == views(out@) + fields(s@.skip(start as int), sep),
        decreases s.len() - i,
    {
        let c = s[i];
        if c == sep {
            proof {
                let rest = s@.skip(start as int);
                lemma_first_index_is(rest, sep, i - start);
                assert(rest.take(i - start) =~= piece@);
                assert(rest.skip(i - start + 1) =~= s@.skip(i + 1));
                assert(views(out@.push(piece)) =~= views(out@) + seq![piece@]);
            }
            out.push(piece);
            piece = Vec::new();
            start = i + 1;
            assert(piece@ =~= s@.subrange(start as int, i + 1));
        } else {
            piece.push(c);
            assert(piece@ =~= s@.subrange(start as int, i + 1));
        }
        i += 1;
    }
    proof {
        let rest = s@.skip(start as int);
        lemma_first_index_is(rest, sep, rest.len() as int);
        assert(rest =~= piece@);
        assert(views(out@.push(piece)) =~= views(out@) + seq![piece@]);
    }
    out.push(piece);
    out
}

/// The string that holds the given characters (`String::from_iter`, by way
/// of `collect`): the same characters in the same order.
#[verifier::external_body]
pub(crate) fn string_of(chars: &Vec<char>) -> (r: String)
    ensures
        r@ == chars@,
{
    chars.iter().collect()
}

/// What `str::to_uppercase` makes of a text. The mapping follows the
/// Unicode character database and can lengthen a text, so it is named here
/// and not spelled out.
pub uninterp spec fn uppercased(s: Seq<char>) -> Seq<char>;

/// The upper-case form of a text (`str::to_uppercase`). The result depends
/// on the characters alone.
#[verifier::external_body]
pub(crate) fn to_upper(chars: &Vec<char>) -> (r: Vec<char>)
    ensures
        r@ == uppercased(chars@),
{
    chars.iter().collect::<String>().to_uppercase().chars().collect()
}

/// Whether a character belongs to ASCII.
pub open spec fn is_ascii_char(c: char) -> bool {
    (c as u32) < 0x80
}

/// Whether a text holds ASCII characters only.
pub open spec fn is_ascii_text(s: Seq<char>) -> bool {
    forall|i: int| 0 <= i < s.len() ==> is_ascii_char(#[trigger] s[i])
}

/// The capital of a letter from `a` to `z`; any other character itself.
pub open spec fn ascii_capital(c: char) -> char {
    if 'a' <= c <= 'z' {
        ((c as u32) - 0x20) as char
    } else {
        c
    }
}

/// The upper-case form of a text: for a text in ASCII, the letters from
/// `a` to `z` raised and all else kept; for any other text, what
/// `str::to_uppercase` makes of it.
pub open spec fn upper(s: Seq<char>) -> Seq<char> {
    if is_ascii_text(s) {
        Seq::new(s.len(), |i: int| ascii_capital(s[i]))
    } else {
        uppercased(s)
    }
}

fn capital_of(c: char) -> (r: char)
    requires
        is_ascii_char(c),
    ensures
        r == ascii_capital(c),
{
    if c >= 'a' && c <= 'z' {
        ((c as u8) - 0x20) as char
    } else {
        c
    }
}

/// Raises a text to upper case.
pub fn to_uppercase(s: &Vec<char>) -> (r: Vec<char>)
    ensures
        r@ == upper(s@),
{
    let mut out: Vec<char> = Vec::new();
    let mut i: usize = 0;
    while i < s.len()
        invariant
            i <= s.len(),
            out@.len() == i,
            forall|j: int| 0 <= j < i ==> is_ascii_char(#[trigger] s@[j]),
            forall|j: int| 0 <= j < i ==> out@[j] == ascii_capital(s@[j]),
        decreases s.len() - i,
    {
        let c = s[i];
        if (c as u32) >= 0x80 {
            assert(!is_ascii_char(s@[i as int]));
            return to_upper(s);
        }
        out.push(capital_of(c));
        i += 1;
    }
    assert(out@ =~= upper(s@));
    out
}

/// Whether a character is white space in the sense of Unicode's property
/// `White_Space`.
pub open spec fn is_space(c: char) -> bool {
    let n = c as u32;
    ||| 0x09 <= n <= 0x0d
    ||| n == 0x20
    ||| n == 0x85
    ||| n == 0xa0
    ||| n == 0x1680
    ||| 0x2000 <= n <= 0x200a
    ||| n == 0x2028
    ||| n == 0x2029
    ||| n == 0x202f
    ||| n == 0x205f
    ||| n == 0x3000
}

/// Whether a character is white space.
pub fn is_whitespace(c: char) -> (r: bool)
    ensures
        r == is_space(c),
{
    let n: u32 = c as u32;
    (0x09 <= n && n <= 0x0d) || n == 0x20 || n == 0x85 || n == 0xa0 || n == 0x1680 || (0x2000 <= n
        && n <= 0x200a) || n == 0x2028 || n == 0x2029 || n == 0x202f || n == 0x205f || n == 0x3000
}

/// `word`, as a sequence of one word, unless it is empty.
pub open spec fn finished(word: Seq<char>) -> Seq<Seq<char>> {
    if word.len() > 0 {
        seq![word]
    } else {
        Seq::empty()
    }
}

/// The words of a text of which `word` has been read into the current
/// word, and `s` is still to come.
pub open spec fn words_after(word: Seq<char>, s: Seq<char>) -> Seq<Seq<char>>
    decreases s.len(),
{
    if s.len() == 0 {
        finished(word)
    } else if is_space(s[0]) {
        finished(word) + words_after(Seq::empty(), s.drop_first())
    } else {
        words_after(word.push(s[0]), s.drop_first())
    }
}

/// The words of a text: its longest runs of characters that are not white
/// space, in order.
pub open spec fn words(s: Seq<char>) -> Seq<Seq<char>> {
    words_after(Seq::empty(), s)
}

/// Whether no character of `s` is white space.
pub open spec fn solid(s: Seq<char>) -> bool {
    forall|i: int| 0 <= i < s.len() ==> !is_space(#[trigger] s[i])
}

/// A run without white space that follows the current word lengthens it.
pub proof fn lemma_words_after_run(word: Seq<char>, run: Seq<char>, rest: Seq<char>)
    requires
        solid(run),
    ensures
        words_after(word, run + rest) == words_after(word + run, rest),
    decreases run.len(),
{
    if run.len() == 0 {
        assert(run + rest =~= rest);
        assert(word + run =~= word);
    } else {
        let s = run + rest;
        assert(s[0] == run[0]);
        assert(!is_space(run[0]));
        assert(s.drop_first() =~= run.drop_first() + rest);
        assert forall|i: int| 0 <= i < run.drop_first().len() implies !is_space(
            #[trigger] run.drop_first()[i],
        ) by {
            assert(run.drop_first()[i] == run[i + 1]);
        }
        lemma_words_after_run(word.push(run[0]), run.drop_first(), rest);
        assert(word.push(run[0]) + run.drop_first() =~= word + run);
    }
}

/// What the words of a text are, piece by piece: a text without white
/// space is one word, unless it is empty; white space in front counts for
/// nothing; and a run without white space that a white space follows is a
/// word, after which the words of the rest come.
pub proof fn lemma_words(run: Seq<char>, space: char, rest: Seq<char>)
    requires
        solid(run),
        is_space(space),
    ensures
        words(Seq::empty()) == Seq::<Seq<char>>::empty(),
        words(run) == finished(run),
        words(seq![space] + rest) == words(rest),
        words(run + seq![space] + rest) == finished(run) + words(rest),
{
    let empty = Seq::<char>::empty();
    assert(run + empty =~= run);
    assert(empty + run =~= run);
    lemma_words_after_run(empty, run, empty);
    let tail = seq![space] + rest;
    assert(tail[0] == space);
    assert(tail.drop_first() =~= rest);
    assert(finished(empty) + words(rest) =~= words(rest));
    assert(run + seq![space] + rest =~= run + tail);
    lemma_words_after_run(empty, run, tail);
}

/// Splits a text into its words.
pub fn split_words(s: &Vec<char>) -> (r: Vec<Vec<char>>)
    ensures
        views(r@) == words(s@),
{
    let mut out: Vec<Vec<char>> = Vec::new();
    let mut word: Vec<char> = Vec::new();
    let mut i: usize = 0;
    proof {
        assert(s@.skip(0) =~= s@);
        assert(views(out@) + words(s@) =~= words(s@));
    }
    while i < s.len()
        invariant
            i <= s.len(),
            words(s@) == views(out@) + words_after(word@, s@.skip(i as int)),
        decreases s.len() - i,
    {
        let c = s[i];
        proof {
            assert(s@.skip(i as int).drop_first() =~= s@.skip(i + 1));
            assert(s@.skip(i as int)[0] == c);
        }
        if is_whitespace(c) {
            if word.len() > 0 {
                proof {
                    assert(views(out@.push(word)) =~= views(out@) + seq![word@]);
                    assert(views(out@) + (seq![word@] + words_after(
                        Seq::empty(),
                        s@.skip(i + 1),
                    )) =~= views(out@) + seq![word@] + words_after(Seq::empty(), s@.skip(i + 1)));
                }
                out.push(word);
                word = Vec::new();
            } else {
                assert(finished(word@) + words_after(Seq::empty(), s@.skip(i + 1))
                    =~= words_after(Seq::empty(), s@.skip(i + 1)));
                assert(word@ =~= Seq::<char>::empty());
            }
        } else {
            word.push(c);
        }
        i += 1;
    }
    if word.len() > 0 {
        proof {
            assert(views(out@.push(word)) =~= views(out@) + seq![word@]);
        }
        out.push(word);
    } else {
        assert(views(out@) + finished(word@) =~= views(out@));
    }
    out
}

/// Whether `pat` stands in `s` from position `i` on.
pub open spec fn occurs_at(s: Seq<char>, pat: Seq<char>, i: int) -> bool {
    0 <= i && i + pat.len() <= s.len() && s.subrange(i, i + pat.len()) == pat
}

/// Whether `pat` stands somewhere in `s`.
pub open spec fn contains_text(s: Seq<char>, pat: Seq<char>) -> bool {
    exists|i: int| occurs_at(s, pat, i)
}

/// Whether `pat` stands in `s` from position `at` on.
fn matches_at(s: &Vec<char>, pat: &Vec<char>, at: usize) -> (r: bool)
    requires
        at + pat@.len() <= s@.len(),
    ensures
        r == occurs_at(s@, pat@, at as int),
{
    let n = s.len();
    let mut j: usize = 0;
    while j < pat.len()
        invariant
            j <= pat@.len(),
            n == s@.len(),
            at + pat@.len() <= n,
            forall|k: int| 0 <= k < j ==> s@[at + k] == pat@[k],
        decreases pat@.len() - j,
    {
        if s[at + j] != pat[j] {
            assert(s@.subrange(at as int, at + pat@.len())[j as int] != pat@[j as int]);
            return false;
        }
        j += 1;
    }
    assert(s@.subrange(at as int, at + pat@.len()) =~= pat@);
    true
}

/// Looks for `pat` in `s`.
pub fn contains(s: &Vec<char>, pat: &Vec<char>) -> (r: bool)
    ensures
        r == contains_text(s@, pat@),
{
    if pat.len() > s.len() {
        return false;
    }
    let last: usize = s.len() - pat.len();
    let mut i: usize = 0;
    while i < last
        invariant
            i <= last,
            last == s@.len() - pat@.len(),
            forall|k: int| 0 <= k < i ==> !occurs_at(s@, pat@, k),
        decreases last - i,
    {
        if matches_at(s, pat, i) {
            return true;
        }
        i += 1;
    }
    matches_at(s, pat, last)
}

/// `s` without the occurrences of `c`.
pub open spec fn without(s: Seq<char>, c: char) -> Seq<char>
    decreases s.len(),
{
    if s.len() == 0 {
        Seq::empty()
    } else if s.last() == c {
        without(s.drop_last(), c)
    } else {
        without(s.drop_last(), c).push(s.last())
    }
}

/// Removes every `c` from `s`.
pub fn remove_char(s: &Vec<char>, c: char) -> (r: Vec<char>)
    ensures
        r@ == without(s@, c),
{
    let mut out: Vec<char> = Vec::new();
    let mut i: usize = 0;
    while i < s.len()
        invariant
            i <= s.len(),
            out@ == without(s@.take(i as int), c),
        decreases s.len() - i,
    {
        assert(s@.take(i + 1).drop_last() =~= s@.take(i as int));
        if s[i] != c {
            out.push(s[i]);
        }
        i += 1;
    }
    assert(s@.take(s@.len() as int) =~= s@);
    out
}

/// The texts of `parts` in order, with one blank between neighbours.
pub open spec fn joined(parts: Seq<Seq<char>>) -> Seq<char>
    decreases parts.len(),
{
    if parts.len() == 0 {
        Seq::empty()
    } else if parts.len() == 1 {
        parts[0]
    } else {
        joined(parts.drop_last()) + seq![' '] + parts.last()
    }
}

/// Joins the texts of `parts` from position `from` on, with one blank
/// between neighbours.
pub fn join_from(parts: &Vec<Vec<char>>, from: usize) -> (r: Vec<char>)
    requires
        from <= parts@.len(),
    ensures
        r@ == joined(views(parts@).skip(from as int)),
{
    let mut out: Vec<char> = Vec::new();
    let ghost all = views(parts@).skip(from as int);
    let mut i: usize = from;
    while i < parts.len()
        invariant
            from <= i <= parts@.len(),
            all == views(parts@).skip(from as int),
            out@ == joined(all.take(i - from)),
        decreases parts@.len() - i,
    {
        proof {
            assert(all.take(i - from + 1).drop_last() =~= all.take(i - from));
            assert(all.take(i - from + 1).last() == parts@[i as int]@);
        }
        if i > from {
            out.push(' ');
        }
        let part = &parts[i];
        let ghost before = out@;
        let mut j: usize = 0;
        while j < part.len()
            invariant
                j <= part@.len(),
                out@ == before + part@.take(j as int),
            decreases part@.len() - j,
        {
            out.push(part[j]);
            assert(part@.take(j + 1) =~= part@.take(j as int).push(part@[j as int]));
            j += 1;
        }
        assert(part@.take(part@.len() as int) =~= part@);
        assert(out@ =~= joined(all.take(i - from + 1)));
        i += 1;
    }
    assert(all.take(all.len() as int) =~= all);
    out
}

} // verus!
