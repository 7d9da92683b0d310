//! Words and the whitespace between them.
//!
//! A line is cut at every whitespace character. The characters cut out are
//! kept, in order, so that any run of words can be put back together exactly
//! as it stood in the line.

use vstd::prelude::*;
use vstd::utf8::{decode_utf8, valid_utf8};

verus! {

/// Whether `c` has the Unicode property `White_Space`.
pub open spec fn is_space(c: char) -> bool {
    let u = c as u32;
    ||| 0x09 <= u <= 0x0D
    ||| u == 0x20
    ||| u == 0x85
    ||| u == 0xA0
    ||| u == 0x1680
    ||| 0x2000 <= u <= 0x200A
    ||| u == 0x2028
    ||| u == 0x2029
    ||| u == 0x202F
    ||| u == 0x205F
    ||| u == 0x3000
}

/// Whether `c` separates words.
pub fn is_whitespace(c: char) -> (r: bool)
    ensures
        r == is_space(c),
{
    let u: u32 = c as u32;
    (0x09 <= u && u <= 0x0D) || u == 0x20 || u == 0x85 || u == 0xA0 || u == 0x1680 || (0x2000 <= u
        && u <= 0x200A) || u == 0x2028 || u == 0x2029 || u == 0x202F || u == 0x205F || u == 0x3000
}

/// The index of the first whitespace character of `s`, or its length if it has none.
pub open spec fn first_space(s: Seq<char>) -> int
    decreases s.len(),
{
    if s.len() == 0 || is_space(s[0]) {
        0
    } else {
        1 + first_space(s.skip(1))
    }
}

/// The words of `s`: the stretches between whitespace characters, empty ones
/// included. A text with `n` whitespace characters has `n + 1` words.
pub open spec fn words(s: Seq<char>) -> Seq<Seq<char>>
    decreases s.len(),
{
    let e = first_space(s);
    if 0 <= e < s.len() {
        seq![s.take(e)] + words(s.skip(e + 1))
    } else {
        seq![s]
    }
}

/// The whitespace characters of `s`, in order.
pub open spec fn gaps(s: Seq<char>) -> Seq<char>
    decreases s.len(),
{
    let e = first_space(s);
    if 0 <= e < s.len() {
        seq![s[e]] + gaps(s.skip(e + 1))
    } else {
        Seq::empty()
    }
}

/// What is left of `s` after its first `k` words and the whitespace character
/// that follows each of them.
pub open spec fn rest(s: Seq<char>, k: nat) -> Seq<char>
    decreases k,
{
    if k == 0 {
        s
    } else {
        let e = first_space(s);
        if 0 <= e < s.len() {
            rest(s.skip(e + 1), (k - 1) as nat)
        } else {
            Seq::empty()
        }
    }
}

/// The words `w` with the separators `p` put back between them: the first
/// word, the first separator, the second word, and so on, up to the last word
/// or the word after the last separator.
pub open spec fn rejoined(w: Seq<Seq<char>>, p: Seq<char>) -> Seq<char>
    decreases w.len(),
{
    if w.len() == 0 {
        Seq::empty()
    } else if w.len() == 1 || p.len() == 0 {
        w[0]
    } else {
        w[0] + seq![p[0]] + rejoined(w.skip(1), p.skip(1))
    }
}

/// `s` without its first and its last character; empty if `s` has fewer than two.
pub open spec fn stripped(s: Seq<char>) -> Seq<char> {
    if s.len() >= 2 {
        s.subrange(1, s.len() - 1)
    } else {
        Seq::empty()
    }
}

/// The texts of a list of words.
pub open spec fn texts(w: Seq<Vec<char>>) -> Seq<Seq<char>> {
    Seq::new(w.len(), |i: int| w[i]@)
}

/// The text that bytes stand for when every byte sequence that is not UTF-8 is
/// replaced by U+FFFD, as `String::from_utf8_lossy` does it.
pub uninterp spec fn lossy(bytes: Seq<u8>) -> Seq<char>;

/// Calls `String::from_utf8_lossy` and hands back the characters of the
/// text. The result is `lossy` of the bytes; of bytes that are UTF-8 it is
/// the text they encode.
#[verifier::external_body]
pub(crate) fn lossy_chars(bytes: &[u8]) -> (r: Vec<char>)
    ensures
        r@ == lossy(bytes@),
        valid_utf8(bytes@) ==> r@ == decode_utf8(bytes@),
{
    String::from_utf8_lossy(bytes).chars().collect()
}

/// Collects characters into a `String`, by `String::from_iter`: the
/// string holds the same characters in the same order.
#[verifier::external_body]
pub(crate) fn string_of(chars: &[char]) -> (r: String)
    ensures
        r@ == chars@,
{
    String::from_iter(chars.iter())
}

/// Calls `std::str::from_utf8` and hands back the text as a `String`:
/// there is one exactly when the bytes are UTF-8, and it is the text that
/// they encode.
#[verifier::external_body]
pub(crate) fn text_from_utf8(bytes: &[u8]) -> (r: Option<String>)
    ensures
        r is Some <==> valid_utf8(bytes@),
        r matches Some(text) ==> text@ == decode_utf8(bytes@),
{
    match std::str::from_utf8(bytes) {
        Ok(text) => Some(text.to_owned()),
        Err(_) => None,
    }
}

/// Appends the items of `more` to `out`.
pub fn append<T: Copy>(out: &mut Vec<T>, more: &[T])
    ensures
        final(out)@ == old(out)@ + more@,
{
    let mut i: usize = 0;
    proof {
        assert(out@ =~= old(out)@ + more@.take(0));
    }
    while i < more.len()
        invariant
            0 <= i <= more@.len(),
            out@ == old(out)@ + more@.take(i as int),
        decreases more@.len() - i,
    {
        out.push(more[i]);
        proof {
            assert(out@ =~= old(out)@ + more@.take(i + 1));
        }
        i = i + 1;
    }
    proof {
        assert(more@.take(more@.len() as int) =~= more@);
    }
}

/// `first_space` lies within the text, on a whitespace character if inside
/// it, with none before it.
pub proof fn first_space_is_first(s: Seq<char>)
    ensures
        0 <= first_space(s) <= s.len(),
        first_space(s) < s.len() ==> is_space(s[first_space(s)]),
        forall|i: int| 0 <= i < first_space(s) ==> !is_space(#[trigger] s[i]),
    decreases s.len(),
{
    if s.len() == 0 || is_space(s[0]) {
    } else {
        let t = s.skip(1);
        first_space_is_first(t);
        assert forall|i: int| 0 <= i < first_space(s) implies !is_space(#[trigger] s[i]) by {
            if i > 0 {
                assert(s[i] == t[i - 1]);
            }
        }
        if first_space(s) < s.len() {
            assert(s[first_space(s)] == t[first_space(t)]);
        }
    }
}

/// A position with a whitespace character, and none before it, is `first_space`.
pub proof fn first_space_at(s: Seq<char>, j: int)
    requires
        0 <= j <= s.len(),
        j < s.len() ==> is_space(s[j]),
        forall|i: int| 0 <= i < j ==> !is_space(#[trigger] s[i]),
    ensures
        first_space(s) == j,
{
    first_space_is_first(s);
    let e = first_space(s);
    if e < j {
        assert(!is_space(s[e]));
    } else if j < e {
        assert(!is_space(s[j]));
    }
}

/// There is one word more than there are separators.
pub proof fn words_and_gaps(s: Seq<char>)
    ensures
        words(s).len() == gaps(s).len() + 1,
    decreases s.len(),
{
    first_space_is_first(s);
    let e = first_space(s);
    if e < s.len() {
        words_and_gaps(s.skip(e + 1));
    }
}

/// Cutting a text into words and putting the words back with their
/// separators gives the text again.
pub proof fn rejoin_words(s: Seq<char>)
    ensures
        rejoined(words(s), gaps(s)) == s,
    decreases s.len(),
{
    first_space_is_first(s);
    let e = first_space(s);
    if e < s.len() {
        let t = s.skip(e + 1);
        rejoin_words(t);
        words_and_gaps(t);
        let w = words(s);
        let p = gaps(s);
        assert(w.skip(1) =~= words(t));
        assert(p.skip(1) =~= gaps(t));
        assert(s =~= s.take(e) + seq![s[e]] + t);
    } else {
        assert(gaps(s).len() == 0);
    }
}

/// Whitespace is preserved: the words from the `k`-th on, put back with
/// their separators, are the very text that follows the first `k` words, and
/// that text is the end of the line, character for character.
pub proof fn rejoin_is_rest(s: Seq<char>, k: nat)
    requires
        k <= words(s).len(),
    ensures
        rejoined(words(s).skip(k as int), gaps(s).skip(k as int)) == rest(s, k),
        rest(s, k).len() <= s.len(),
        s.skip(s.len() - rest(s, k).len()) == rest(s, k),
    decreases k,
{
    first_space_is_first(s);
    words_and_gaps(s);
    let e = first_space(s);
    if k == 0 {
        rejoin_words(s);
        assert(words(s).skip(0) =~= words(s));
        assert(gaps(s).skip(0) =~= gaps(s));
        assert(s.skip(0) =~= s);
    } else if e < s.len() {
        let t = s.skip(e + 1);
        rejoin_is_rest(t, (k - 1) as nat);
        words_and_gaps(t);
        assert(words(s).skip(1) =~= words(t));
        assert(gaps(s).skip(1) =~= gaps(t));
        assert(words(s) =~= seq![s.take(e)] + words(t));
        assert(gaps(s) =~= seq![s[e]] + gaps(t));
        assert(words(s).skip(k as int) =~= words(t).skip(k - 1));
        if k < words(s).len() {
            assert(gaps(s).skip(k as int) =~= gaps(t).skip(k - 1));
        }
        let r = rest(s, k);
        assert(s.skip(s.len() - r.len()) =~= t.skip(t.len() - r.len()));
    } else {
        assert(words(s).len() == 1);
        assert(words(s).skip(k as int).len() == 0);
        assert(s.skip(s.len() as int) =~= Seq::<char>::empty());
    }
}

/// Whether `s` holds no whitespace: it stays one word wherever it stands.
pub open spec fn plain(s: Seq<char>) -> bool {
    forall|i: int| 0 <= i < s.len() ==> !is_space(#[trigger] s[i])
}

/// A text that opens with a word, a separator after it, has that word as
/// its first and the words of what follows as the others; and what is left
/// of it after one word more is what is left of what follows.
pub proof fn first_word(a: Seq<char>, sep: char, b: Seq<char>, k: nat)
    requires
        plain(a),
        is_space(sep),
    ensures
        words(a + seq![sep] + b) == seq![a] + words(b),
        rest(a + seq![sep] + b, k + 1) == rest(b, k),
{
    let s = a + seq![sep] + b;
    let e = a.len() as int;
    assert forall|i: int| 0 <= i < e implies !is_space(#[trigger] s[i]) by {
        assert(s[i] == a[i]);
    }
    assert(s[e] == sep);
    first_space_at(s, e);
    assert(s.take(e) =~= a);
    assert(s.skip(e + 1) =~= b);
}

/// Cuts `line` at every whitespace character. Returns the words and the
/// characters cut out, both in the order of the line.
pub fn tokenize(line: &[char]) -> (r: (Vec<Vec<char>>, Vec<char>))
    ensures
        texts(r.0@) == words(line@),
        r.1@ == gaps(line@),
        r.0@.len() == r.1@.len() + 1,
{
    let mut done: Vec<Vec<char>> = Vec::new();
    let mut cut: Vec<char> = Vec::new();
    let mut word: Vec<char> = Vec::new();
    let mut start: usize = 0;
    let mut i: usize = 0;
    let n: usize = line.len();
    proof {
        assert(line@.skip(0) =~= line@);
        assert(texts(done@) + words(line@) =~= words(line@));
        assert(cut@ + gaps(line@) =~= gaps(line@));
        assert(word@ =~= line@.subrange(0, 0));
    }
    while i < n
        invariant
            n == line@.len(),
            0 <= start <= i <= n,
            word@ == line@.subrange(start as int, i as int),
            forall|j: int| start <= j < i ==> !is_space(#[trigger] line@[j]),
            words(line@) == texts(done@) + words(line@.skip(start as int)),
            gaps(line@) == cut@ + gaps(line@.skip(start as int)),
            done@.len() == cut@.len(),
        decreases n - i,
    {
        let c: char = line[i];
        if is_whitespace(c) {
            proof {
                let t = line@.skip(start as int);
                assert forall|j: int| 0 <= j < i - start implies !is_space(#[trigger] t[j]) by {
                    assert(t[j] == line@[start + j]);
                }
                first_space_at(t, i - start);
                assert(t.take(i - start) =~= word@);
                assert(t.skip(i - start + 1) =~= line@.skip(i + 1));
                assert(texts(done@.push(word)) =~= texts(done@) + seq![word@]);
                assert(cut@.push(c) =~= cut@ + seq![c]);
                assert(texts(done@) + (seq![word@] + words(line@.skip(i + 1))) =~= (texts(done@)
                    + seq![word@]) + words(line@.skip(i + 1)));
                assert(cut@ + (seq![c] + gaps(line@.skip(i + 1))) =~= (cut@ + seq![c]) + gaps(
                    line@.skip(i + 1),
                ));
            }
            done.push(word);
            cut.push(c);
            word = Vec::new();
            start = i + 1;
            proof {
                assert(word@ =~= line@.subrange(start as int, start as int));
            }
        } else {
            word.push(c);
            proof {
                assert(word@ =~= line@.subrange(start as int, i + 1));
            }
        }
        i = i + 1;
    }
    proof {
        let t = line@.skip(start as int);
        assert forall|j: int| 0 <= j < t.len() implies !is_space(#[trigger] t[j]) by {
            assert(t[j] == line@[start + j]);
        }
        first_space_at(t, t.len() as int);
        assert(t =~= word@);
        assert(texts(done@.push(word)) =~= texts(done@) + seq![word@]);
        assert(cut@ + Seq::<char>::empty() =~= cut@);
    }
    done.push(word);
    (done, cut)
}

/// Puts the separators `seps` back between the words `words`.
pub fn rejoin(words: &[Vec<char>], seps: &[char]) -> (r: Vec<char>)
    ensures
        r@ == rejoined(texts(words@), seps@),
{
    let mut out: Vec<char> = Vec::new();
    let n: usize = words.len();
    let m: usize = seps.len();
    let mut i: usize = 0;
    proof {
        assert(texts(words@).skip(0) =~= texts(words@));
        assert(seps@.skip(0) =~= seps@);
        assert(out@ + rejoined(texts(words@), seps@) =~= rejoined(texts(words@), seps@));
    }
    while i < n
        invariant
            n == words@.len(),
            m == seps@.len(),
            0 <= i <= n,
            i < n ==> i <= m,
            i < n ==> out@ + rejoined(texts(words@).skip(i as int), seps@.skip(i as int))
                == rejoined(texts(words@), seps@),
            i == n ==> out@ == rejoined(texts(words@), seps@),
        decreases n - i,
    {
        let ghost w = texts(words@).skip(i as int);
        let ghost p = seps@.skip(i as int);
        let ghost before = out@;
        let word: &Vec<char> = &words[i];
        append(&mut out, word.as_slice());
        proof {
            assert(w[0] == word@);
        }
        if i + 1 < n && i < m {
            out.push(seps[i]);
            proof {
                assert(w.skip(1) =~= texts(words@).skip(i + 1));
                assert(p.skip(1) =~= seps@.skip(i + 1));
                assert(p[0] == seps@[i as int]);
                assert(out@ =~= before + (w[0] + seq![p[0]]));
                assert(before + (w[0] + seq![p[0]] + rejoined(w.skip(1), p.skip(1))) =~= (before
                    + (w[0] + seq![p[0]])) + rejoined(w.skip(1), p.skip(1)));
            }
            i = i + 1;
        } else {
            proof {
                assert(w.len() == 1 || p.len() == 0);
                assert(rejoined(w, p) == w[0]);
            }
            i = n;
        }
    }
    proof {
        if n == 0 {
            assert(texts(words@).len() == 0);
        }
    }
    out
}

/// Removes one character from each end of `s`: one layer of brackets, and no more.
pub fn strip_one(s: &[char]) -> (r: Vec<char>)
    ensures
        r@ == stripped(s@),
{
    let mut out: Vec<char> = Vec::new();
    let n: usize = s.len();
    if n >= 2 {
        let mut i: usize = 1;
        while i < n - 1
            invariant
                n == s@.len(),
                n >= 2,
                1 <= i <= n - 1,
                out@ == s@.subrange(1, i as int),
            decreases n - i,
        {
            out.push(s[i]);
            proof {
                assert(out@ =~= s@.subrange(1, i + 1));
            }
            i = i + 1;
        }
    }
    out
}

/// Whether `word` is the text `lit`.
pub fn word_is(word: &[char], lit: &str) -> (r: bool)
    ensures
        r == (word@ == lit@),
{
    let n: usize = lit.unicode_len();
    if word.len() != n {
        return false;
    }
    let mut i: usize = 0;
    while i < n
        invariant
            n == lit@.len(),
            n == word@.len(),
            0 <= i <= n,
            forall|j: int| 0 <= j < i ==> word@[j] == lit@[j],
        decreases n - i,
    {
        if word[i] != lit.get_char(i) {
            return false;
        }
        i = i + 1;
    }
    proof {
        assert(word@ =~= lit@);
    }
    true
}

/// Whether `word` begins with the text `lit`.
pub fn word_starts_with(word: &[char], lit: &str) -> (r: bool)
    ensures
        r == lit@.is_prefix_of(word@),
{
    let n: usize = lit.unicode_len();
    if word.len() < n {
        return false;
    }
    let mut i: usize = 0;
    while i < n
        invariant
            n == lit@.len(),
            n <= word@.len(),
            0 <= i <= n,
            forall|j: int| 0 <= j < i ==> word@[j] == lit@[j],
        decreases n - i,
    {
        if word[i] != lit.get_char(i) {
            proof {
                assert(word@.subrange(0, n as int)[i as int] != lit@[i as int]);
            }
            return false;
        }
        i = i + 1;
    }
    proof {
        assert(word@.subrange(0, n as int) =~= lit@);
    }
    true
}

} // verus!
