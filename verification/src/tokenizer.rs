//! The sentence-splitting jieba tokenizer of the full-text index.
//!
//! A text is cut into sentences at punctuation and line breaks, each sentence
//! is segmented by jieba, and every word becomes a token with its byte range
//! in the text: blank and punctuation words are dropped, words are
//! NFKC-folded to lower case, stop words are dropped (unless disabled), and
//! all-ASCII words of more than one byte are stemmed.

use vstd::prelude::*;
use vstd::utf8::encode_utf8;
use crate::documents::{char_is_ws, is_ws};
use crate::text::{chars_of, string_of_range};
use crate::ttl::strs;

verus! {

#[verifier::external_type_specification]
#[verifier::external_body]
pub struct ExJieba(jieba_rs::Jieba);

// ════════════════════════════════════════════════════════════════
// Characters and UTF-8 widths
// ════════════════════════════════════════════════════════════════

/// The characters at which a text is cut into sentences: Chinese and ASCII
/// sentence punctuation, quotes and brackets, line breaks and tabs.
pub open spec fn spec_is_sentence_boundary(c: char) -> bool {
    c == '。' || c == '，' || c == '！' || c == '？' || c == '；' || c == '：' || c == '\n' || c
        == '\r' || c == '\t' || c == '．' || c == '…' || c == '“' || c == '”' || c == '‘' || c
        == '’' || c == '（' || c == '）' || c == '《' || c == '》' || c == '【' || c == '】' || c
        == '.' || c == ',' || c == '!' || c == '?' || c == ';' || c == ':'
}

/// The sentence marks: the Chinese full stop, comma, exclamation and
/// question marks, semicolon and colon, the fullwidth full stop, the ellipsis,
/// curly quotes, fullwidth parentheses, book-title marks and lenticular
/// brackets; the ASCII `.`, `,`, `!`, `?`, `;`, `:`; line feed, carriage
/// return and tab.
pub open spec fn sentence_marks() -> Set<char> {
    set![
        '。', '，', '！', '？', '；', '：', '．', '…', '“', '”', '‘', '’', '（', '）', '《', '》',
        '【', '】', '.', ',', '!', '?', ';', ':', '\n', '\r', '\t'
    ]
}

/// A sentence ends exactly at a sentence mark.
pub proof fn law_sentence_boundaries(c: char)
    ensures
        spec_is_sentence_boundary(c) <==> sentence_marks().contains(c),
{
}

/// Whether a sentence ends at `ch`.
pub fn is_sentence_boundary(ch: char) -> (r: bool)
    ensures
        r == spec_is_sentence_boundary(ch),
{
    ch == '。' || ch == '，' || ch == '！' || ch == '？' || ch == '；' || ch == '：' || ch == '\n'
        || ch == '\r' || ch == '\t' || ch == '．' || ch == '…' || ch == '“' || ch == '”' || ch
        == '‘' || ch == '’' || ch == '（' || ch == '）' || ch == '《' || ch == '》' || ch == '【'
        || ch == '】' || ch == '.' || ch == ',' || ch == '!' || ch == '?' || ch == ';' || ch == ':'
}

/// The length of a UTF-8 sequence announced by its first byte; 1 for a byte
/// that announces none.
pub open spec fn spec_utf8_char_len(first: u8) -> nat {
    if first < 0x80 {
        1
    } else if 0xC0 <= first && first < 0xE0 {
        2
    } else if 0xE0 <= first && first < 0xF0 {
        3
    } else if 0xF0 <= first && first < 0xF8 {
        4
    } else {
        1
    }
}

/// The length of the UTF-8 sequence that starts with `first`.
pub fn utf8_char_len(first: u8) -> (r: usize)
    ensures
        r == spec_utf8_char_len(first),
{
    proof {
        assert((first >> 5u8 == 6u8) == (0xC0u8 <= first && first < 0xE0u8)) by (bit_vector);
        assert((first >> 4u8 == 14u8) == (0xE0u8 <= first && first < 0xF0u8)) by (bit_vector);
        assert((first >> 3u8 == 30u8) == (0xF0u8 <= first && first < 0xF8u8)) by (bit_vector);
    }
    if first < 0x80 {
        1
    } else if first >> 5u8 == 6u8 {
        2
    } else if first >> 4u8 == 14u8 {
        3
    } else if first >> 3u8 == 30u8 {
        4
    } else {
        1
    }
}

/// How many bytes UTF-8 takes for a character.
pub open spec fn char_width(c: char) -> nat {
    let u = c as u32;
    if u < 0x80 {
        1
    } else if u < 0x800 {
        2
    } else if u < 0x10000 {
        3
    } else {
        4
    }
}

/// How many bytes UTF-8 takes for a text.
pub open spec fn utf8_len(s: Seq<char>) -> nat
    decreases s.len(),
{
    if s.len() == 0 {
        0
    } else {
        char_width(s[0]) + utf8_len(s.drop_first())
    }
}

/// The byte length is the length of the UTF-8 encoding.
pub proof fn lemma_utf8_len_is_encoding_len(s: Seq<char>)
    ensures
        encode_utf8(s).len() == utf8_len(s),
    decreases s.len(),
{
    if s.len() > 0 {
        vstd::utf8::char_is_scalar(s[0]);
        lemma_utf8_len_is_encoding_len(s.drop_first());
    }
}

pub proof fn lemma_utf8_len_append(a: Seq<char>, b: Seq<char>)
    ensures
        utf8_len(a + b) == utf8_len(a) + utf8_len(b),
    decreases a.len(),
{
    if a.len() > 0 {
        assert((a + b).drop_first() =~= a.drop_first() + b);
        lemma_utf8_len_append(a.drop_first(), b);
    } else {
        assert(a + b =~= b);
    }
}

proof fn lemma_utf8_len_push(a: Seq<char>, c: char)
    ensures
        utf8_len(a.push(c)) == utf8_len(a) + char_width(c),
{
    let one = seq![c];
    assert(one.drop_first() =~= Seq::<char>::empty());
    assert(one[0] == c);
    assert(utf8_len(one.drop_first()) == 0);
    assert(utf8_len(one) == char_width(c));
    lemma_utf8_len_append(a, one);
    assert(a + one =~= a.push(c));
}

fn char_width_of(c: char) -> (r: usize)
    ensures
        r == char_width(c),
{
    let u = c as u32;
    if u < 0x80 {
        1
    } else if u < 0x800 {
        2
    } else if u < 0x10000 {
        3
    } else {
        4
    }
}

/// How many bytes UTF-8 takes for a text.
pub fn utf8_byte_len(s: &str) -> (r: u128)
    ensures
        r == utf8_len(s@),
{
    let cs = chars_of(s);
    let n = cs.len();
    let mut total: u128 = 0;
    let mut i: usize = 0;
    assert(s@.take(0) =~= Seq::<char>::empty());
    while i < n
        invariant
            cs@ == s@,
            n == s@.len(),
            i <= n,
            total == utf8_len(s@.take(i as int)),
            total <= 4 * i,
        decreases n - i,
    {
        proof {
            lemma_utf8_len_push(s@.take(i as int), cs@[i as int]);
            assert(s@.take(i as int).push(cs@[i as int]) =~= s@.take(i + 1));
        }
        total = total + char_width_of(cs[i]) as u128;
        i = i + 1;
    }
    assert(s@.take(n as int) =~= s@);
    total
}

// ════════════════════════════════════════════════════════════════
// Sentences
// ════════════════════════════════════════════════════════════════

/// The sentences of `s[i..]` as character ranges, the current one starting at
/// `from`: a boundary closes the current sentence (when it is not empty) and
/// the next starts after it; the end closes the last one.
pub open spec fn sentence_spans(s: Seq<char>, from: int, i: int) -> Seq<(int, int)>
    decreases s.len() - i,
{
    if i >= s.len() {
        if from < s.len() {
            seq![(from, s.len() as int)]
        } else {
            Seq::empty()
        }
    } else if spec_is_sentence_boundary(s[i]) {
        (if i > from {
            seq![(from, i)]
        } else {
            Seq::empty()
        }) + sentence_spans(s, i + 1, i + 1)
    } else {
        sentence_spans(s, from, i + 1)
    }
}

/// No sentence mark stands in `s[a..b]`.
pub open spec fn no_mark_in(s: Seq<char>, a: int, b: int) -> bool {
    forall|j: int| a <= j < b ==> !spec_is_sentence_boundary(#[trigger] s[j])
}

/// `s[a..b]` is a whole run of text between sentence marks: not empty, free
/// of marks, and bounded by a mark or an end of the text on each side.
pub open spec fn is_mark_free_run(s: Seq<char>, a: int, b: int) -> bool {
    &&& 0 <= a < b <= s.len()
    &&& no_mark_in(s, a, b)
    &&& a == 0 || spec_is_sentence_boundary(s[a - 1])
    &&& b == s.len() || spec_is_sentence_boundary(s[b])
}

proof fn lemma_spans(s: Seq<char>, from: int, i: int)
    requires
        0 <= from <= i <= s.len(),
        no_mark_in(s, from, i),
        from == 0 || spec_is_sentence_boundary(s[from - 1]),
    ensures
        forall|k: int|
            0 <= k < sentence_spans(s, from, i).len() ==> is_mark_free_run(
                s,
                (#[trigger] sentence_spans(s, from, i)[k]).0,
                sentence_spans(s, from, i)[k].1,
            ) && from <= sentence_spans(s, from, i)[k].0,
        forall|k: int, l: int|
            0 <= k < l < sentence_spans(s, from, i).len() ==> (#[trigger] sentence_spans(s, from, i)[k]).1
                < (#[trigger] sentence_spans(s, from, i)[l]).0,
        forall|j: int|
            from <= j < s.len() && !spec_is_sentence_boundary(#[trigger] s[j]) ==> exists|k: int|
                0 <= k < sentence_spans(s, from, i).len() && (#[trigger] sentence_spans(s, from, i)[k]).0 <= j
                    < sentence_spans(s, from, i)[k].1,
    decreases s.len() - i,
{
    let sp = sentence_spans(s, from, i);
    if i >= s.len() {
        if from < s.len() {
            assert(sp == seq![(from, s.len() as int)]);
            assert(is_mark_free_run(s, from, s.len() as int));
            assert forall|j: int| from <= j < s.len() && !spec_is_sentence_boundary(#[trigger] s[j]) implies exists|k: int|
                0 <= k < sp.len() && (#[trigger] sp[k]).0 <= j < sp[k].1 by {
                assert(sp[0].0 <= j < sp[0].1);
            }
        }
    } else if spec_is_sentence_boundary(s[i]) {
        lemma_spans(s, i + 1, i + 1);
        let rest = sentence_spans(s, i + 1, i + 1);
        let left = if i > from {
            seq![(from, i)]
        } else {
            Seq::<(int, int)>::empty()
        };
        assert(sp == left + rest);
        if i > from {
            assert(is_mark_free_run(s, from, i));
        }
        assert forall|k: int| 0 <= k < sp.len() implies is_mark_free_run(s, (#[trigger] sp[k]).0, sp[k].1)
            && from <= sp[k].0 by {
            if k >= left.len() {
                assert(sp[k] == rest[k - left.len()]);
            }
        }
        assert forall|k: int, l: int| 0 <= k < l < sp.len() implies (#[trigger] sp[k]).1 < (#[trigger] sp[l]).0 by {
            if k >= left.len() {
                assert(sp[k] == rest[k - left.len()]);
                assert(sp[l] == rest[l - left.len()]);
            } else {
                assert(sp[l] == rest[l - left.len()]);
                assert(is_mark_free_run(s, rest[l - left.len()].0, rest[l - left.len()].1));
            }
        }
        assert forall|j: int| from <= j < s.len() && !spec_is_sentence_boundary(#[trigger] s[j]) implies exists|k: int|
            0 <= k < sp.len() && (#[trigger] sp[k]).0 <= j < sp[k].1 by {
            if j < i {
                assert(sp[0] == (from, i));
            } else {
                assert(j > i);
                let k = choose|k: int| 0 <= k < rest.len() && (#[trigger] rest[k]).0 <= j < rest[k].1;
                assert(sp[k + left.len()] == rest[k]);
            }
        }
    } else {
        lemma_spans(s, from, i + 1);
    }
}

/// A text is cut into sentences at its sentence marks: the sentences are
/// the maximal non-empty runs of text between marks, in order, and every
/// character that is not a mark lies in one of them.
pub proof fn law_sentences_are_the_runs_between_marks(s: Seq<char>)
    ensures
        forall|k: int|
            0 <= k < sentence_spans(s, 0, 0).len() ==> is_mark_free_run(
                s,
                (#[trigger] sentence_spans(s, 0, 0)[k]).0,
                sentence_spans(s, 0, 0)[k].1,
            ),
        forall|k: int, l: int|
            0 <= k < l < sentence_spans(s, 0, 0).len() ==> (#[trigger] sentence_spans(s, 0, 0)[k]).1
                < (#[trigger] sentence_spans(s, 0, 0)[l]).0,
        forall|j: int|
            0 <= j < s.len() && !spec_is_sentence_boundary(#[trigger] s[j]) ==> exists|k: int|
                0 <= k < sentence_spans(s, 0, 0).len() && (#[trigger] sentence_spans(s, 0, 0)[k]).0 <= j
                    < sentence_spans(s, 0, 0)[k].1,
{
    lemma_spans(s, 0, 0);
}

/// A sentence of a text: its byte offset and its characters.
pub struct Sentence {
    pub byte_start: usize,
    pub text: String,
}

pub open spec fn sentence_v(s: Sentence) -> (nat, Seq<char>) {
    (s.byte_start as nat, s.text@)
}

/// The sentences of a text, each with its byte offset.
pub open spec fn spec_sentences(s: Seq<char>) -> Seq<(nat, Seq<char>)> {
    sentence_spans(s, 0, 0).map_values(
        |r: (int, int)| (utf8_len(s.take(r.0)), s.subrange(r.0, r.1)),
    )
}

/// Cuts a text into sentences at the boundary characters; empty sentences
/// are dropped.
pub fn split_sentences(text: &str) -> (r: Vec<Sentence>)
    requires
        utf8_len(text@) <= usize::MAX,
    ensures
        r@.map_values(|x: Sentence| sentence_v(x)) == spec_sentences(text@),
        forall|k: int|
            0 <= k < r@.len() ==> r@[k].byte_start + utf8_len(#[trigger] r@[k].text@) <= utf8_len(
                text@,
            ),
{
    let cs = chars_of(text);
    let ghost s = text@;
    let n = cs.len();
    let mut out: Vec<Sentence> = Vec::new();
    let mut from: usize = 0;
    let mut from_byte: usize = 0;
    let mut byte: usize = 0;
    let mut i: usize = 0;
    let ghost f = |r: (int, int)| (utf8_len(s.take(r.0)), s.subrange(r.0, r.1));
    assert(s.take(0) =~= Seq::<char>::empty());
    while i < n
        invariant
            cs@ == s,
            n == s.len(),
            from <= i <= n,
            utf8_len(s) <= usize::MAX,
            byte == utf8_len(s.take(i as int)),
            from_byte == utf8_len(s.take(from as int)),
            f == (|r: (int, int)| (utf8_len(s.take(r.0)), s.subrange(r.0, r.1))),
            forall|k: int|
                0 <= k < out@.len() ==> out@[k].byte_start + utf8_len(#[trigger] out@[k].text@)
                    <= utf8_len(s),
            out@.map_values(|x: Sentence| sentence_v(x)) + sentence_spans(
                s,
                from as int,
                i as int,
            ).map_values(f) == spec_sentences(s),
        decreases n - i,
    {
        let c = cs[i];
        proof {
            lemma_utf8_len_push(s.take(i as int), c);
            assert(s.take(i as int).push(c) =~= s.take(i + 1));
            lemma_utf8_len_append(s.take(i + 1), s.skip(i + 1));
            assert(s.take(i + 1) + s.skip(i + 1) =~= s);
        }
        let w = char_width_of(c);
        if is_sentence_boundary(c) {
            let ghost old_out = out@.map_values(|x: Sentence| sentence_v(x));
            if i > from {
                proof {
                    lemma_utf8_len_append(s.take(from as int), s.subrange(from as int, i as int));
                    assert(s.take(from as int) + s.subrange(from as int, i as int) =~= s.take(
                        i as int,
                    ));
                    lemma_utf8_len_append(s.take(i as int), s.skip(i as int));
                    assert(s.take(i as int) + s.skip(i as int) =~= s);
                }
                let t = string_of_range(cs.as_slice(), from, i);
                out.push(Sentence { byte_start: from_byte, text: t });
                assert(out@.map_values(|x: Sentence| sentence_v(x)) =~= old_out.push(
                    f((from as int, i as int)),
                ));
                assert(seq![(from as int, i as int)].map_values(f) =~= seq![
                    f((from as int, i as int)),
                ]);
                assert((seq![(from as int, i as int)] + sentence_spans(s, i + 1, i + 1)).map_values(
                    f,
                ) =~= seq![f((from as int, i as int))] + sentence_spans(s, i + 1, i + 1).map_values(
                    f,
                ));
                assert(old_out.push(f((from as int, i as int))) + sentence_spans(
                    s,
                    i + 1,
                    i + 1,
                ).map_values(f) =~= old_out + (seq![f((from as int, i as int))] + sentence_spans(
                    s,
                    i + 1,
                    i + 1,
                ).map_values(f)));
            } else {
                assert((Seq::<(int, int)>::empty() + sentence_spans(s, i + 1, i + 1)) =~= sentence_spans(
                    s,
                    i + 1,
                    i + 1,
                ));
            }
            from = i + 1;
            from_byte = byte + w;
        }
        byte = byte + w;
        i = i + 1;
    }
    assert(s.take(n as int) =~= s);
    if from < n {
        proof {
            lemma_utf8_len_append(s.take(from as int), s.subrange(from as int, n as int));
            assert(s.take(from as int) + s.subrange(from as int, n as int) =~= s);
        }
        let ghost old_out = out@.map_values(|x: Sentence| sentence_v(x));
        let t = string_of_range(cs.as_slice(), from, n);
        out.push(Sentence { byte_start: from_byte, text: t });
        assert(out@.map_values(|x: Sentence| sentence_v(x)) =~= old_out.push(
            f((from as int, n as int)),
        ));
        assert(seq![(from as int, n as int)].map_values(f) =~= seq![f((from as int, n as int))]);
        assert(old_out + seq![f((from as int, n as int))] =~= old_out.push(f((from as int, n as int))));
    } else {
        assert(out@.map_values(|x: Sentence| sentence_v(x)) + Seq::<(int, int)>::empty().map_values(
            f,
        ) =~= out@.map_values(|x: Sentence| sentence_v(x)));
    }
    out
}

// ════════════════════════════════════════════════════════════════
// Words and tokens
// ════════════════════════════════════════════════════════════════

/// A control character (general category Cc).
pub open spec fn is_control(c: char) -> bool {
    let u = c as u32;
    u <= 0x1f || (0x7f <= u && u <= 0x9f)
}

/// An ASCII punctuation character.
pub open spec fn is_ascii_punct(c: char) -> bool {
    let u = c as u32;
    (0x21 <= u && u <= 0x2f) || (0x3a <= u && u <= 0x40) || (0x5b <= u && u <= 0x60) || (0x7b <= u
        && u <= 0x7e)
}

/// A word made only of whitespace, control characters and ASCII punctuation.
pub open spec fn spec_space_or_punct(s: Seq<char>) -> bool {
    forall|i: int| 0 <= i < s.len() ==> is_ws(#[trigger] s[i]) || is_control(s[i]) || is_ascii_punct(s[i])
}

/// An ASCII letter or digit.
pub open spec fn ascii_alnum_char(c: char) -> bool {
    ('a' <= c && c <= 'z') || ('A' <= c && c <= 'Z') || ('0' <= c && c <= '9')
}

/// The ASCII punctuation characters are the visible ASCII characters
/// (`!` to `~`) that are neither letters nor digits: the 32 of
/// `char::is_ascii_punctuation`, `[`, `\`, `]`, `^`, `_` and `` ` `` among them.
pub proof fn law_ascii_punctuation(c: char)
    ensures
        is_ascii_punct(c) <==> (0x21 <= (c as u32) && (c as u32) <= 0x7e && !ascii_alnum_char(c)),
{
    let u = c as u32;
    assert(('a' <= c && c <= 'z') <==> (0x61 <= u && u <= 0x7a));
    assert(('A' <= c && c <= 'Z') <==> (0x41 <= u && u <= 0x5a));
    assert(('0' <= c && c <= '9') <==> (0x30 <= u && u <= 0x39));
}

/// The control characters (general category Cc) are C0 (below U+0020), DEL
/// and C1 (U+007F to U+009F).
pub proof fn law_control_characters(c: char)
    ensures
        is_control(c) <==> ((c as u32) < 0x20 || (0x7f <= (c as u32) && (c as u32) < 0xa0)),
{
}

/// A word made only of ASCII punctuation (such as `[` or `]`) gives no
/// token; a word with an ASCII letter or digit gives one unless it is a
/// dropped stop word.
pub proof fn law_punctuation_words_give_no_token(w: Seq<char>, start: nat, stop: bool)
    ensures
        (forall|i: int| 0 <= i < w.len() ==> 0x21 <= (#[trigger] w[i] as u32) && (w[i] as u32) <= 0x7e
            && !ascii_alnum_char(w[i])) ==> word_token(w, start, stop) is None,
        (exists|i: int| 0 <= i < w.len() && ascii_alnum_char(#[trigger] w[i])) && !stop ==> word_token(
            w,
            start,
            stop,
        ) is Some,
{
    if forall|i: int| 0 <= i < w.len() ==> 0x21 <= (#[trigger] w[i] as u32) && (w[i] as u32) <= 0x7e
        && !ascii_alnum_char(w[i]) {
        assert forall|i: int| 0 <= i < w.len() implies is_ws(#[trigger] w[i]) || is_control(w[i])
            || is_ascii_punct(w[i]) by {
            law_ascii_punctuation(w[i]);
        }
    }
    if exists|i: int| 0 <= i < w.len() && ascii_alnum_char(#[trigger] w[i]) {
        let i = choose|i: int| 0 <= i < w.len() && ascii_alnum_char(#[trigger] w[i]);
        law_ascii_punctuation(w[i]);
        let u = w[i] as u32;
        assert(0x30 <= u && u <= 0x7a) by {
            assert(('a' <= w[i] && w[i] <= 'z') ==> (0x61 <= u && u <= 0x7a));
            assert(('A' <= w[i] && w[i] <= 'Z') ==> (0x41 <= u && u <= 0x5a));
            assert(('0' <= w[i] && w[i] <= '9') ==> (0x30 <= u && u <= 0x39));
        }
        assert(!is_ws(w[i]) && !is_control(w[i]) && !is_ascii_punct(w[i]));
        assert(!spec_space_or_punct(w));
    }
}

/// Whether a word is made only of whitespace, control characters and ASCII
/// punctuation, as `sqlite_english_stemmer::is_space_or_ascii_punctuation_str`
/// decides it (`char::is_whitespace`, `is_control`, `is_ascii_punctuation`).
fn space_or_ascii_punctuation(word: &str) -> (r: bool)
    ensures
        r == spec_space_or_punct(word@),
{
    let cs = chars_of(word);
    let mut i: usize = 0;
    while i < cs.len()
        invariant
            cs@ == word@,
            i <= cs@.len(),
            forall|j: int| 0 <= j < i ==> is_ws(#[trigger] cs@[j]) || is_control(cs@[j]) || is_ascii_punct(cs@[j]),
        decreases cs@.len() - i,
    {
        let c = cs[i];
        let u = c as u32;
        let control = u <= 0x1f || (0x7f <= u && u <= 0x9f);
        let punct = (0x21 <= u && u <= 0x2f) || (0x3a <= u && u <= 0x40) || (0x5b <= u && u <= 0x60)
            || (0x7b <= u && u <= 0x7e);
        if !char_is_ws(c) && !control && !punct {
            return false;
        }
        i = i + 1;
    }
    true
}

/// What `sqlite_english_stemmer::make_lowercase` gives for a word: the NFKC
/// form without combining diacritics, lower-cased; and whether it asks to be
/// stemmed (all ASCII and longer than one byte).
pub uninterp spec fn folded_word(s: Seq<char>) -> (Seq<char>, bool);

/// `sqlite_english_stemmer::make_lowercase` into a fresh buffer. Claimed: the
/// named result, a function of the word alone.
#[verifier::external_body]
fn fold_word(word: &str) -> (r: (String, bool))
    ensures
        (r.0@, r.1) == folded_word(word@),
{
    let mut buf = String::new();
    let need_stem = sqlite_english_stemmer::make_lowercase(word, &mut buf);
    (buf, need_stem)
}

/// Whether a word is in `sqlite_chinese_stopword::STOPWORD` (a fixed list).
pub uninterp spec fn is_stopword(s: Seq<char>) -> bool;

/// `STOPWORD.contains`. Claimed: the named membership.
#[verifier::external_body]
fn stopword_contains(word: &str) -> (r: bool)
    ensures
        r == is_stopword(word@),
{
    sqlite_chinese_stopword::STOPWORD.contains(word)
}

/// What the English snowball stemmer of `sqlite_english_stemmer` gives for a word.
pub uninterp spec fn english_stem(s: Seq<char>) -> Seq<char>;

/// `EN_STEMMER.stem`. Claimed: the named stem.
#[verifier::external_body]
fn stem_english(word: &str) -> (r: String)
    ensures
        r@ == english_stem(word@),
{
    sqlite_english_stemmer::EN_STEMMER.stem(word).into_owned()
}

/// `jieba_rs::Jieba::new`: a segmenter with the default dictionary.
#[verifier::external_body]
fn new_jieba() -> (r: jieba_rs::Jieba) {
    jieba_rs::Jieba::new()
}

/// The words of a sequence joined together.
pub open spec fn concat_all(ws: Seq<Seq<char>>) -> Seq<char>
    decreases ws.len(),
{
    if ws.len() == 0 {
        Seq::empty()
    } else {
        ws[0] + concat_all(ws.drop_first())
    }
}

/// The words that `Jieba::cut` with HMM gives for a sentence, on a segmenter
/// made by `Jieba::new` (the default dictionary).
pub uninterp spec fn jieba_words(sentence: Seq<char>) -> Seq<Seq<char>>;

/// `Jieba::cut` with HMM, as the words' texts. The segmenter is the one
/// `new_jieba` makes, the only way this crate makes one, and `cut` reads it
/// without changing it; the result is then a function of the sentence,
/// named `jieba_words`. Claimed besides: the words, in order, make up the
/// sentence (a segmentation covers its input).
#[verifier::external_body]
fn jieba_cut(jieba: &jieba_rs::Jieba, sentence: &str) -> (r: Vec<String>)
    ensures
        strs(r@) == jieba_words(sentence@),
        concat_all(strs(r@)) == sentence@,
{
    jieba.cut(sentence, true).into_iter().map(|t| t.word.to_owned()).collect()
}

/// A token of the index: its text and its byte range in the indexed text.
pub struct Token {
    pub text: String,
    pub start: usize,
    pub end: usize,
}

pub type TokenV = (Seq<char>, nat, nat);

pub open spec fn token_v(t: Token) -> TokenV {
    (t.text@, t.start as nat, t.end as nat)
}

pub open spec fn tokens_v(ts: Seq<Token>) -> Seq<TokenV> {
    ts.map_values(|t: Token| token_v(t))
}

/// The token of a word that starts at byte `start`: none for blanks and
/// punctuation or (when stop words are on) a stop word; otherwise the folded
/// word, stemmed when the fold asks for it, over the word's bytes.
pub open spec fn word_token(w: Seq<char>, start: nat, stop: bool) -> Option<TokenV> {
    if spec_space_or_punct(w) {
        None
    } else {
        let (f, need_stem) = folded_word(w);
        if stop && is_stopword(f) {
            None
        } else {
            Some(
                (
                    if need_stem {
                        english_stem(f)
                    } else {
                        f
                    },
                    start,
                    start + utf8_len(w),
                ),
            )
        }
    }
}

/// The tokens of consecutive words, the first starting at byte `start`.
pub open spec fn word_tokens(ws: Seq<Seq<char>>, start: nat, stop: bool) -> Seq<TokenV>
    decreases ws.len(),
{
    if ws.len() == 0 {
        Seq::empty()
    } else {
        let rest = word_tokens(ws.drop_first(), start + utf8_len(ws[0]), stop);
        match word_token(ws[0], start, stop) {
            Some(t) => seq![t] + rest,
            None => rest,
        }
    }
}

proof fn lemma_concat_all_step(ws: Seq<Seq<char>>, k: int)
    requires
        0 <= k < ws.len(),
    ensures
        utf8_len(concat_all(ws.skip(k))) == utf8_len(ws[k]) + utf8_len(concat_all(ws.skip(k + 1))),
{
    assert(ws.skip(k)[0] == ws[k]);
    assert(ws.skip(k).drop_first() =~= ws.skip(k + 1));
    lemma_utf8_len_append(ws[k], concat_all(ws.skip(k + 1)));
}

/// The tokens of the words of one sentence that starts at byte `base`.
pub fn sentence_tokens(words: &Vec<String>, base: usize, enable_stopword: bool) -> (r: Vec<Token>)
    requires
        base + utf8_len(concat_all(strs(words@))) <= usize::MAX,
    ensures
        tokens_v(r@) == word_tokens(strs(words@), base as nat, enable_stopword),
{
    let ghost ws = strs(words@);
    let n = words.len();
    let mut out: Vec<Token> = Vec::new();
    let mut off: usize = base;
    let mut k: usize = 0;
    assert(ws.skip(0) =~= ws);
    assert(tokens_v(out@) =~= Seq::<TokenV>::empty());
    while k < n
        invariant
            n == words@.len(),
            ws == strs(words@),
            k <= n,
            off + utf8_len(concat_all(ws.skip(k as int))) == base + utf8_len(concat_all(ws)),
            base + utf8_len(concat_all(ws)) <= usize::MAX,
            tokens_v(out@) + word_tokens(ws.skip(k as int), off as nat, enable_stopword)
                == word_tokens(ws, base as nat, enable_stopword),
        decreases n - k,
    {
        let w = &words[k];
        proof {
            lemma_concat_all_step(ws, k as int);
            lemma_utf8_len_is_encoding_len(w@);
            assert(ws.skip(k as int)[0] == w@);
            assert(ws.skip(k as int).drop_first() =~= ws.skip(k + 1));
        }
        let len = w.as_str().len();
        let start = off;
        let end = off + len;
        let ghost before = tokens_v(out@);
        if !space_or_ascii_punctuation(w.as_str()) {
            let (folded, need_stem) = fold_word(w.as_str());
            if !(enable_stopword && stopword_contains(folded.as_str())) {
                let text = if need_stem {
                    stem_english(folded.as_str())
                } else {
                    folded
                };
                let t = Token { text, start, end };
                out.push(t);
                assert(tokens_v(out@) =~= before.push(token_v(t)));
                assert(before.push(token_v(t)) + word_tokens(ws.skip(k + 1), end as nat, enable_stopword)
                    =~= before + (seq![token_v(t)] + word_tokens(
                    ws.skip(k + 1),
                    end as nat,
                    enable_stopword,
                )));
            }
        }
        off = end;
        k = k + 1;
    }
    assert(ws.skip(n as int) =~= Seq::<Seq<char>>::empty());
    assert(tokens_v(out@) + Seq::<TokenV>::empty() =~= tokens_v(out@));
    out
}

/// The tokens of a text, sentence after sentence, given a segmentation of
/// each sentence into words.
pub open spec fn text_tokens(sents: Seq<(nat, Seq<char>)>, segs: Seq<Seq<Seq<char>>>, stop: bool) -> Seq<TokenV>
    decreases sents.len(),
{
    if sents.len() == 0 || segs.len() == 0 {
        Seq::empty()
    } else {
        text_tokens(sents.drop_last(), segs.drop_last(), stop) + word_tokens(
            segs.last(),
            sents.last().0,
            stop,
        )
    }
}

/// The segmentation of each sentence of a text by jieba.
pub open spec fn jieba_segs(text: Seq<char>) -> Seq<Seq<Seq<char>>> {
    spec_sentences(text).map_values(|s: (nat, Seq<char>)| jieba_words(s.1))
}

/// The jieba tokenizer that cuts texts into sentences first.
pub struct JiebaSentenceTokenizer {
    enable_stopword: bool,
    jieba: jieba_rs::Jieba,
}

impl JiebaSentenceTokenizer {
    /// Whether stop words are dropped.
    pub closed spec fn stopwords_enabled(&self) -> bool {
        self.enable_stopword
    }

    /// The segmenter.
    pub closed spec fn segmenter(&self) -> jieba_rs::Jieba {
        self.jieba
    }

    /// A tokenizer that drops stop words.
    pub fn new() -> (r: JiebaSentenceTokenizer)
        ensures
            r.stopwords_enabled(),
    {
        JiebaSentenceTokenizer { enable_stopword: true, jieba: new_jieba() }
    }

    /// A tokenizer configured by the arguments of `tokenize='jieba ...'`:
    /// `disable_stopword` keeps stop words.
    pub fn with_args(args: &Vec<String>) -> (r: JiebaSentenceTokenizer)
        ensures
            r.stopwords_enabled() == !strs(args@).contains("disable_stopword"@),
    {
        let mut t = JiebaSentenceTokenizer::new();
        let key = "disable_stopword".to_owned();
        if crate::store::contains_string(args, &key) {
            t.disable_stopword();
        }
        t
    }

    /// Keeps stop words from now on.
    pub fn disable_stopword(&mut self)
        ensures
            !final(self).stopwords_enabled(),
            final(self).segmenter() == old(self).segmenter(),
    {
        self.enable_stopword = false;
    }

    /// The tokens of a text: sentence by sentence, each segmented by jieba.
    pub fn tokenize_precise(&self, text: &str) -> (r: Vec<Token>)
        requires
            utf8_len(text@) <= usize::MAX,
        ensures
            tokens_v(r@) == text_tokens(spec_sentences(text@), jieba_segs(text@), self.stopwords_enabled()),
    {
        let sents = split_sentences(text);
        let ghost sv = spec_sentences(text@);
        let ghost g = |x: Sentence| sentence_v(x);
        assert(sents@.map_values(g) == sv);
        let n = sents.len();
        let mut out: Vec<Token> = Vec::new();
        let ghost mut segs: Seq<Seq<Seq<char>>> = Seq::empty();
        let mut k: usize = 0;
        assert(sv.take(0) =~= Seq::<(nat, Seq<char>)>::empty());
        assert(tokens_v(out@) =~= Seq::<TokenV>::empty());
        while k < n
            invariant
                n == sents@.len(),
                k <= n,
                sv == spec_sentences(text@),
                g == (|x: Sentence| sentence_v(x)),
                sents@.map_values(g) == sv,
                forall|j: int|
                    0 <= j < sents@.len() ==> sents@[j].byte_start + utf8_len(
                        #[trigger] sents@[j].text@,
                    ) <= utf8_len(text@),
                utf8_len(text@) <= usize::MAX,
                segs.len() == k,
                forall|j: int| 0 <= j < k ==> #[trigger] segs[j] == jieba_words(sv[j].1),
                tokens_v(out@) == text_tokens(sv.take(k as int), segs, self.stopwords_enabled()),
            decreases n - k,
        {
            let s = &sents[k];
            assert(sv[k as int] == sentence_v(*s));
            let words = jieba_cut(&self.jieba, s.text.as_str());
            let ghost before = tokens_v(out@);
            let mut toks = sentence_tokens(&words, s.byte_start, self.enable_stopword);
            let ghost mid = tokens_v(toks@);
            out.append(&mut toks);
            proof {
                let old_segs = segs;
                segs = segs.push(strs(words@));
                assert(tokens_v(out@) =~= before + mid);
                assert(sv.take(k + 1).drop_last() =~= sv.take(k as int));
                assert(segs.drop_last() =~= old_segs);
                assert(segs.last() == strs(words@));
                assert(sv.take(k + 1).last() == sv[k as int]);
                assert(text_tokens(sv.take(k + 1), segs, self.stopwords_enabled()) == text_tokens(
                    sv.take(k as int),
                    old_segs,
                    self.stopwords_enabled(),
                ) + word_tokens(strs(words@), s.byte_start as nat, self.stopwords_enabled()));
            }
            k = k + 1;
        }
        assert(sv.take(n as int) =~= sv);
        assert(segs =~= jieba_segs(text@));
        out
    }
}

} // verus!
