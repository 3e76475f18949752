//! Text as sequences of characters: the small operations that the directive
//! protocol is written in.

use vstd::prelude::*;

verus! {

/// `String::push`: the string grows by the one character.
#[verifier::external_body]
pub(crate) fn push_char(s: &mut String, c: char)
    ensures
        final(s)@ == old(s)@.push(c),
{
    s.push(c)
}

/// The characters of a string.
pub fn chars_of(s: &str) -> (chars: Vec<char>)
    ensures
        chars@ == s@,
{
    let mut chars: Vec<char> = Vec::new();
    for c in it: s.chars()
        invariant
            it.seq() == s@,
            chars@ == s@.take(it.index()),
    {
        proof {
            assert(s@.take(it.index() + 1) == s@.take(it.index()).push(c));
        }
        chars.push(c);
    }
    proof {
        assert(s@.take(s@.len() as int) == s@);
    }
    chars
}

/// The string that holds the given characters.
pub fn string_of(chars: &Vec<char>) -> (s: String)
    ensures
        s@ == chars@,
{
    let mut s = String::new();
    let mut i: usize = 0;
    while i < chars.len()
        invariant
            i <= chars.len(),
            s@ == chars@.take(i as int),
        decreases chars.len() - i,
    {
        proof {
            assert(chars@.take(i + 1) == chars@.take(i as int).push(chars[i as int]));
        }
        push_char(&mut s, chars[i]);
        i += 1;
    }
    proof {
        assert(chars@.take(chars@.len() as int) == chars@);
    }
    s
}

/// The contents of a list of character vectors, vector by vector.
pub open spec fn pieces(parts: Seq<Vec<char>>) -> Seq<Seq<char>> {
    parts.map_values(|p: Vec<char>| p@)
}

/// The contents of a list of strings, string by string.
pub open spec fn texts(strings: Seq<String>) -> Seq<Seq<char>> {
    strings.map_values(|s: String| s@)
}

/// The contents of a list of character vectors grow with the list.
pub proof fn lemma_pieces_push(parts: Seq<Vec<char>>, p: Vec<char>)
    ensures
        pieces(parts.push(p)) == pieces(parts).push(p@),
{
    assert(pieces(parts.push(p)) =~= pieces(parts).push(p@));
}

/// The contents of a list of strings grow with the list.
pub proof fn lemma_texts_push(strings: Seq<String>, s: String)
    ensures
        texts(strings.push(s)) == texts(strings).push(s@),
{
    assert(texts(strings.push(s)) =~= texts(strings).push(s@));
}

/// Whether two texts hold the same characters.
pub fn same_text(a: &Vec<char>, b: &Vec<char>) -> (same: bool)
    ensures
        same == (a@ == b@),
{
    if a.len() != b.len() {
        return false;
    }
    let mut i: usize = 0;
    while i < a.len()
        invariant
            i <= a.len(),
            a.len() == b.len(),
            a@.take(i as int) == b@.take(i as int),
        decreases a.len() - i,
    {
        if a[i] != b[i] {
            return false;
        }
        proof {
            assert(a@.take(i + 1) == a@.take(i as int).push(a[i as int]));
            assert(b@.take(i + 1) == b@.take(i as int).push(b[i as int]));
        }
        i += 1;
    }
    proof {
        assert(a@.take(a@.len() as int) == a@);
        assert(b@.take(b@.len() as int) == b@);
    }
    true
}

/// Whether a string holds exactly the given characters.
pub fn str_is(s: &str, chars: &str) -> (same: bool)
    ensures
        same == (s@ == chars@),
{
    let a = chars_of(s);
    let b = chars_of(chars);
    same_text(&a, &b)
}

/// White space: the characters that separate words and that trimming
/// removes.
pub open spec fn is_whitespace(c: char) -> bool {
    let u = c as u32;
    ||| 0x09 <= u <= 0x0D
    ||| u == 0x20
    ||| u == 0x85
    ||| u == 0xA0
    ||| u == 0x1680
    ||| 0x2000 <= u <= 0x200A
    ||| u == 0x2028
    ||| u == 0x2029
    ||| u == 0x202F
    ||| u == 0x205F
    ||| u == 0x3000
}

/// Whether a character is white space.
pub fn char_is_whitespace(c: char) -> (b: bool)
    ensures
        b == is_whitespace(c),
{
    let u: u32 = c as u32;
    (0x09 <= u && u <= 0x0D) || u == 0x20 || u == 0x85 || u == 0xA0 || u == 0x1680 || (0x2000 <= u
        && u <= 0x200A) || u == 0x2028 || u == 0x2029 || u == 0x202F || u == 0x205F || u == 0x3000
}

/// The pieces into which the separator `sep` cuts a text. There is one piece
/// more than there are separators, so a text without any is its own single
/// piece.
pub open spec fn split_on(s: Seq<char>, sep: char) -> Seq<Seq<char>>
    decreases s.len(),
{
    if s.len() == 0 {
        seq![Seq::<char>::empty()]
    } else {
        let front = split_on(s.drop_last(), sep);
        if s.last() == sep {
            front.push(Seq::empty())
        } else {
            front.drop_last().push(front.last().push(s.last()))
        }
    }
}

/// A text is cut into at least one piece.
pub proof fn lemma_split_on_len(s: Seq<char>, sep: char)
    ensures
        split_on(s, sep).len() >= 1,
    decreases s.len(),
{
    if s.len() > 0 {
        lemma_split_on_len(s.drop_last(), sep);
    }
}

/// Cuts a text at each separator.
pub fn split(s: &Vec<char>, sep: char) -> (parts: Vec<Vec<char>>)
    ensures
        pieces(parts@) == split_on(s@, sep),
{
    let mut parts: Vec<Vec<char>> = Vec::new();
    let mut current: Vec<char> = Vec::new();
    let mut i: usize = 0;
    proof {
        assert(pieces(parts@).push(current@) =~= split_on(s@.take(0), sep));
    }
    while i < s.len()
        invariant
            i <= s.len(),
            pieces(parts@).push(current@) == split_on(s@.take(i as int), sep),
        decreases s.len() - i,
    {
        let c = s[i];
        proof {
            let front = split_on(s@.take(i as int), sep);
            assert(s@.take(i + 1).drop_last() == s@.take(i as int));
            assert(front.last() == current@);
            assert(front.drop_last() == pieces(parts@));
        }
        if c == sep {
            proof {
                lemma_pieces_push(parts@, current);
            }
            parts.push(current);
            current = Vec::new();
        } else {
            current.push(c);
        }
        i += 1;
    }
    proof {
        assert(s@.take(s@.len() as int) == s@);
        lemma_pieces_push(parts@, current);
    }
    parts.push(current);
    parts
}

/// The words of a text: its longest runs of characters that are not white
/// space, in order.
pub open spec fn words(s: Seq<char>) -> Seq<Seq<char>>
    decreases s.len(),
{
    if s.len() == 0 {
        Seq::empty()
    } else {
        let front = words(s.drop_last());
        let c = s.last();
        if is_whitespace(c) {
            front
        } else if s.len() >= 2 && !is_whitespace(s[s.len() - 2]) {
            front.drop_last().push(front.last().push(c))
        } else {
            front.push(seq![c])
        }
    }
}

/// A text that ends in a character that is not white space ends in a word.
pub proof fn lemma_words_open(s: Seq<char>)
    requires
        s.len() > 0,
        !is_whitespace(s.last()),
    ensures
        words(s).len() >= 1,
    decreases s.len(),
{
    if s.len() >= 2 && !is_whitespace(s[s.len() - 2]) {
        lemma_words_open(s.drop_last());
    }
}

/// Cuts a text into its words.
pub fn split_whitespace(s: &Vec<char>) -> (parts: Vec<Vec<char>>)
    ensures
        pieces(parts@) == words(s@),
{
    let mut parts: Vec<Vec<char>> = Vec::new();
    let mut current: Vec<char> = Vec::new();
    let mut in_word = false;
    let mut i: usize = 0;
    proof {
        assert(pieces(parts@) =~= words(s@.take(0)));
    }
    while i < s.len()
        invariant
            i <= s.len(),
            in_word <==> i > 0 && !is_whitespace(s[i - 1]),
            in_word ==> pieces(parts@).push(current@) == words(s@.take(i as int)),
            !in_word ==> pieces(parts@) == words(s@.take(i as int)),
        decreases s.len() - i,
    {
        let c = s[i];
        proof {
            let before = s@.take(i as int);
            let upto = s@.take(i + 1);
            assert(upto.drop_last() == before);
            assert(upto.last() == c);
            if i > 0 {
                assert(upto[upto.len() - 2] == s[i - 1]);
                assert(before.last() == s[i - 1]);
            }
            if in_word {
                lemma_words_open(before);
                assert(words(before).last() == current@);
                assert(words(before).drop_last() == pieces(parts@));
            }
        }
        if char_is_whitespace(c) {
            if in_word {
                proof {
                    lemma_pieces_push(parts@, current);
                }
                parts.push(current);
                current = Vec::new();
                in_word = false;
            }
        } else {
            if in_word {
                current.push(c);
            } else {
                current = Vec::new();
                current.push(c);
                in_word = true;
                proof {
                    assert(current@ == seq![c]);
                }
            }
        }
        i += 1;
    }
    proof {
        assert(s@.take(s@.len() as int) == s@);
    }
    if in_word {
        proof {
            lemma_pieces_push(parts@, current);
        }
        parts.push(current);
    }
    parts
}

/// A text without the white space that it starts with.
pub open spec fn trim_start(s: Seq<char>) -> Seq<char>
    decreases s.len(),
{
    if s.len() > 0 && is_whitespace(s[0]) {
        trim_start(s.drop_first())
    } else {
        s
    }
}

/// A text without the white space that it ends with.
pub open spec fn trim_end(s: Seq<char>) -> Seq<char>
    decreases s.len(),
{
    if s.len() > 0 && is_whitespace(s.last()) {
        trim_end(s.drop_last())
    } else {
        s
    }
}

/// A text without the white space at either end.
pub open spec fn trimmed(s: Seq<char>) -> Seq<char> {
    trim_end(trim_start(s))
}

/// Removes the white space at both ends of a text.
pub fn trim(s: &Vec<char>) -> (t: Vec<char>)
    ensures
        t@ == trimmed(s@),
{
    let mut from: usize = 0;
    proof {
        assert(s@.skip(0) == s@);
    }
    while from < s.len() && char_is_whitespace(s[from])
        invariant
            from <= s.len(),
            trim_start(s@) == trim_start(s@.skip(from as int)),
        decreases s.len() - from,
    {
        proof {
            assert(s@.skip(from as int).drop_first() == s@.skip(from + 1));
        }
        from += 1;
    }
    assert(trim_start(s@) == s@.skip(from as int));
    let mut to: usize = s.len();
    proof {
        assert(s@.skip(from as int) == s@.subrange(from as int, to as int));
    }
    while to > from && char_is_whitespace(s[to - 1])
        invariant
            from <= to <= s.len(),
            trimmed(s@) == trim_end(s@.subrange(from as int, to as int)),
        decreases to,
    {
        proof {
            assert(s@.subrange(from as int, to as int).drop_last() == s@.subrange(
                from as int,
                to - 1,
            ));
        }
        to -= 1;
    }
    assert(trimmed(s@) == s@.subrange(from as int, to as int));
    let mut t: Vec<char> = Vec::new();
    let mut i: usize = from;
    while i < to
        invariant
            from <= i <= to <= s.len(),
            t@ == s@.subrange(from as int, i as int),
        decreases to - i,
    {
        proof {
            assert(s@.subrange(from as int, i + 1) == s@.subrange(from as int, i as int).push(
                s[i as int],
            ));
        }
        t.push(s[i]);
        i += 1;
    }
    t
}

/// Whether a character is one of the ten decimal digits.
pub open spec fn is_digit(c: char) -> bool {
    '0' <= c <= '9'
}

/// The number that a run of decimal digits writes; `None` where a character
/// is no digit. The empty run writes zero.
pub open spec fn digits_value(s: Seq<char>) -> Option<nat>
    decreases s.len(),
{
    if s.len() == 0 {
        Some(0nat)
    } else {
        match digits_value(s.drop_last()) {
            Some(v) => if is_digit(s.last()) {
                Some(v * 10 + ((s.last() as u32 - '0' as u32) as nat))
            } else {
                None
            },
            None => None,
        }
    }
}

/// The number that a text writes in decimal: an optional `+`, then one or
/// more digits and nothing else, with a value that fits in 64 bits.
pub open spec fn decimal_u64(s: Seq<char>) -> Option<u64> {
    let digits = if s.len() > 0 && s[0] == '+' {
        s.drop_first()
    } else {
        s
    };
    if digits.len() == 0 {
        None
    } else {
        match digits_value(digits) {
            Some(v) => if v <= u64::MAX {
                Some(v as u64)
            } else {
                None
            },
            None => None,
        }
    }
}

/// Once a run of digits has left the 64 bits, no longer run comes back.
proof fn lemma_digits_grow(s: Seq<char>, n: int)
    requires
        0 <= n <= s.len(),
    ensures
        digits_value(s.take(n)) is None ==> digits_value(s) is None,
        digits_value(s) matches Some(v) ==> digits_value(s.take(n)).unwrap() <= v,
    decreases s.len(),
{
    if n == s.len() {
        assert(s.take(n) == s);
    } else {
        assert(s.drop_last().take(n) == s.take(n));
        lemma_digits_grow(s.drop_last(), n);
    }
}

/// Reads a number written in decimal.
pub fn parse_u64(s: &Vec<char>) -> (n: Option<u64>)
    ensures
        n == decimal_u64(s@),
{
    let start: usize = if s.len() > 0 && s[0] == '+' {
        1
    } else {
        0
    };
    let ghost digits = s@.skip(start as int);
    proof {
        assert(s@.skip(0) == s@);
        assert(s@.len() > 0 ==> s@.drop_first() == s@.skip(1));
    }
    if start >= s.len() {
        return None;
    }
    let mut value: u64 = 0;
    let mut i: usize = start;
    proof {
        assert(digits.take(0) =~= Seq::<char>::empty());
    }
    while i < s.len()
        invariant
            start <= i <= s.len(),
            digits == s@.skip(start as int),
            digits.len() > 0,
            digits == if s@.len() > 0 && s@[0] == '+' {
                s@.drop_first()
            } else {
                s@
            },
            digits_value(digits.take(i - start)) == Some(value as nat),
        decreases s.len() - i,
    {
        let c = s[i];
        proof {
            assert(digits.take(i + 1 - start).drop_last() == digits.take(i - start));
            assert(digits.take(i + 1 - start).last() == c);
            lemma_digits_grow(digits, i + 1 - start);
        }
        if !('0' <= c && c <= '9') {
            return None;
        }
        let d: u64 = (c as u32 - '0' as u32) as u64;
        if value > (u64::MAX - d) / 10 {
            return None;
        }
        value = value * 10 + d;
        i += 1;
    }
    proof {
        assert(digits.take(digits.len() as int) == digits);
    }
    Some(value)
}

/// A text in which each occurrence of `from` gives way to `to`. Occurrences
/// are found from the left and do not overlap.
pub open spec fn replaced(s: Seq<char>, from: Seq<char>, to: Seq<char>) -> Seq<char>
    decreases s.len(),
{
    if from.len() == 0 || s.len() == 0 {
        s
    } else if from.is_prefix_of(s) {
        to + replaced(s.skip(from.len() as int), from, to)
    } else {
        seq![s[0]] + replaced(s.skip(1), from, to)
    }
}

/// Whether `pattern` stands in `s` at position `at`.
fn matches_at(s: &Vec<char>, at: usize, pattern: &Vec<char>) -> (found: bool)
    requires
        at <= s.len(),
    ensures
        found == pattern@.is_prefix_of(s@.skip(at as int)),
{
    if pattern.len() > s.len() - at {
        return false;
    }
    let rest = Ghost(s@.skip(at as int));
    let mut k: usize = 0;
    while k < pattern.len()
        invariant
            at <= s.len(),
            k <= pattern.len() <= s.len() - at,
            rest@ == s@.skip(at as int),
            pattern@.take(k as int) == rest@.take(k as int),
        decreases pattern.len() - k,
    {
        if s[at + k] != pattern[k] {
            proof {
                assert(rest@.subrange(0, pattern@.len() as int)[k as int] != pattern@[k as int]);
            }
            return false;
        }
        proof {
            assert(pattern@.take(k + 1) == pattern@.take(k as int).push(pattern[k as int]));
            assert(rest@.take(k + 1) == rest@.take(k as int).push(rest@[k as int]));
        }
        k += 1;
    }
    proof {
        assert(pattern@.take(pattern@.len() as int) == pattern@);
        assert(rest@.take(pattern@.len() as int) == rest@.subrange(0, pattern@.len() as int));
    }
    true
}

/// Puts `to` in the place of each occurrence of `from`.
pub fn replace(s: &Vec<char>, from: &Vec<char>, to: &Vec<char>) -> (out: Vec<char>)
    requires
        from.len() > 0,
    ensures
        out@ == replaced(s@, from@, to@),
{
    let mut out: Vec<char> = Vec::new();
    let mut i: usize = 0;
    proof {
        assert(s@.skip(0) == s@);
        assert(out@ + replaced(s@, from@, to@) == replaced(s@, from@, to@));
    }
    while i < s.len()
        invariant
            i <= s.len(),
            from.len() > 0,
            out@ + replaced(s@.skip(i as int), from@, to@) == replaced(s@, from@, to@),
        decreases s.len() - i,
    {
        let ghost rest = s@.skip(i as int);
        let ghost done = out@;
        if matches_at(s, i, from) {
            let mut k: usize = 0;
            while k < to.len()
                invariant
                    k <= to.len(),
                    out@ == done + to@.take(k as int),
                decreases to.len() - k,
            {
                proof {
                    assert(to@.take(k + 1) == to@.take(k as int).push(to[k as int]));
                }
                out.push(to[k]);
                k += 1;
            }
            proof {
                assert(to@.take(to@.len() as int) == to@);
                assert(rest.skip(from@.len() as int) == s@.skip(i + from@.len()));
                assert((done + to@) + replaced(s@.skip(i + from@.len()), from@, to@) == done + (to@
                    + replaced(s@.skip(i + from@.len()), from@, to@)));
            }
            i += from.len();
        } else {
            proof {
                assert(rest.skip(1) == s@.skip(i + 1));
                assert(done.push(s[i as int]) + replaced(s@.skip(i + 1), from@, to@) == done + (
                seq![rest[0]] + replaced(s@.skip(i + 1), from@, to@)));
            }
            out.push(s[i]);
            i += 1;
        }
    }
    proof {
        assert(out@ + Seq::<char>::empty() == out@);
    }
    out
}

/// The given texts, each closed by a line feed, one after the other.
pub open spec fn lines_joined(lines: Seq<Seq<char>>) -> Seq<char>
    decreases lines.len(),
{
    if lines.len() == 0 {
        Seq::empty()
    } else {
        lines_joined(lines.drop_last()) + lines.last() + seq!['\n']
    }
}

/// Writes the given texts one after the other, each closed by a line feed.
pub fn join_lines(lines: &Vec<String>) -> (out: String)
    ensures
        out@ == lines_joined(texts(lines@)),
{
    let mut out = String::new();
    let mut i: usize = 0;
    proof {
        assert(texts(lines@).take(0) =~= Seq::<Seq<char>>::empty());
    }
    while i < lines.len()
        invariant
            i <= lines.len(),
            out@ == lines_joined(texts(lines@).take(i as int)),
        decreases lines.len() - i,
    {
        proof {
            assert(texts(lines@).take(i + 1).drop_last() == texts(lines@).take(i as int));
            assert(texts(lines@).take(i + 1).last() == lines[i as int]@);
        }
        out.append(lines[i].as_str());
        push_char(&mut out, '\n');
        i += 1;
    }
    proof {
        assert(texts(lines@).take(lines@.len() as int) == texts(lines@));
    }
    out
}

} // verus!
