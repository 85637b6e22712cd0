//! Text-wrapping utilities: a hard character-count wrap for paths and a
//! word-boundary wrap for prose. Both are pure and independent of the
//! layout engine's state.

use vstd::prelude::*;

use crate::text::push_char;

verus! {

/// `s` cut into chunks of exactly `n` characters, the last chunk holding
/// the remainder. A sequence no longer than `n` (the empty one included)
/// is a single chunk.
pub open spec fn spec_hard_wrap(s: Seq<char>, n: int) -> Seq<Seq<char>>
    decreases s.len(),
{
    if n < 1 {
        seq![s]
    } else if s.len() <= n {
        seq![s]
    } else {
        seq![s.take(n)] + spec_hard_wrap(s.skip(n), n)
    }
}

/// All the chunks joined back together.
pub open spec fn concat_all(ss: Seq<Seq<char>>) -> Seq<char>
    decreases ss.len(),
{
    if ss.len() == 0 {
        Seq::empty()
    } else {
        ss[0] + concat_all(ss.skip(1))
    }
}

/// Rejoining the chunks of a hard wrap reproduces the original sequence
/// exactly, for every chunk size and every input.
pub proof fn lemma_hard_wrap_rejoins(s: Seq<char>, n: int)
    ensures
        concat_all(spec_hard_wrap(s, n)) == s,
    decreases s.len(),
{
    if n < 1 || s.len() <= n {
        assert(spec_hard_wrap(s, n) == seq![s]);
        assert(concat_all(seq![s].skip(1)) == Seq::<char>::empty()) by {
            assert(seq![s].skip(1) =~= Seq::<Seq<char>>::empty());
        }
        assert(concat_all(seq![s]) =~= s);
    } else {
        lemma_hard_wrap_rejoins(s.skip(n), n);
        let chunks = spec_hard_wrap(s, n);
        assert(chunks.skip(1) =~= spec_hard_wrap(s.skip(n), n));
        assert(concat_all(chunks) =~= s.take(n) + s.skip(n));
        assert(s.take(n) + s.skip(n) =~= s);
    }
}

/// No chunk of a hard wrap is longer than `n`, and none is empty unless
/// the input itself was empty.
pub proof fn lemma_hard_wrap_chunk_sizes(s: Seq<char>, n: int)
    requires
        n >= 1,
    ensures
        forall|i: int|
            0 <= i < spec_hard_wrap(s, n).len() ==> (#[trigger] spec_hard_wrap(s, n)[i]).len()
                <= n,
        s.len() > 0 ==> forall|i: int|
            0 <= i < spec_hard_wrap(s, n).len() ==> (#[trigger] spec_hard_wrap(s, n)[i]).len() > 0,
    decreases s.len(),
{
    if s.len() > n {
        lemma_hard_wrap_chunk_sizes(s.skip(n), n);
        let chunks = spec_hard_wrap(s, n);
        assert forall|i: int| 0 <= i < chunks.len() implies (#[trigger] chunks[i]).len() <= n by {
            if i > 0 {
                assert(chunks[i] == spec_hard_wrap(s.skip(n), n)[i - 1]);
            }
        }
        assert forall|i: int| 0 <= i < chunks.len() implies (#[trigger] chunks[i]).len() > 0 by {
            if i > 0 {
                assert(chunks[i] == spec_hard_wrap(s.skip(n), n)[i - 1]);
            }
        }
    }
}

/// Splits `text` into chunks of at most `max_chars` characters each,
/// regardless of word boundaries. Empty input or a zero width yields the
/// original text as a single chunk.
pub fn wrap_text(text: &str, max_chars: usize) -> (r: Vec<String>)
    ensures
        r.deep_view() == spec_hard_wrap(text@, if max_chars == 0 {
            0int
        } else {
            max_chars as int
        }),
        r@.len() >= 1,
{
    let mut chunks: Vec<String> = Vec::new();
    let total = text.unicode_len();
    if max_chars == 0 || total == 0 {
        chunks.push(text.to_owned());
        proof {
            assert(chunks.deep_view() =~= seq![text@]);
        }
        return chunks;
    }
    let n = max_chars;
    let mut pos: usize = 0;
    proof {
        assert(text@.skip(0) =~= text@);
    }
    while pos < total
        invariant
            n == max_chars,
            1 <= n,
            total == text@.len(),
            pos <= total,
            pos < total ==> chunks.deep_view() + spec_hard_wrap(text@.skip(pos as int), n as int)
                =~= spec_hard_wrap(text@, n as int),
            pos == total ==> chunks.deep_view() =~= spec_hard_wrap(text@, n as int),
            pos == total ==> chunks@.len() >= 1,
        decreases total - pos,
    {
        let end = if total - pos > n {
            pos + n
        } else {
            total
        };
        let chunk = text.substring_char(pos, end).to_owned();
        let ghost old_chunks = chunks.deep_view();
        chunks.push(chunk);
        proof {
            let rest = text@.skip(pos as int);
            if end < total {
                assert(rest.take(n as int) =~= text@.subrange(pos as int, end as int));
                assert(rest.skip(n as int) =~= text@.skip(end as int));
                assert(spec_hard_wrap(rest, n as int) == seq![rest.take(n as int)]
                    + spec_hard_wrap(rest.skip(n as int), n as int));
                assert(chunks.deep_view() =~= old_chunks + seq![rest.take(n as int)]);
                assert(chunks.deep_view() + spec_hard_wrap(text@.skip(end as int), n as int)
                    =~= spec_hard_wrap(text@, n as int));
            } else {
                assert(rest.len() <= n);
                assert(rest =~= text@.subrange(pos as int, end as int));
                assert(spec_hard_wrap(rest, n as int) == seq![rest]);
                assert(chunks.deep_view() =~= old_chunks + seq![rest]);
                assert(chunks.deep_view() =~= spec_hard_wrap(text@, n as int));
            }
        }
        pos = end;
    }
    chunks
}

/// Is `c` a space for the purposes of word wrapping? The Unicode
/// `White_Space` set, written out: the ASCII whitespace controls and
/// space, next line, no-break space, the Ogham space mark, the en-quad
/// to hair-space range, line and paragraph separators, the narrow
/// no-break and medium mathematical spaces, and the ideographic space
/// — the same class `str::split_whitespace` splits at.
pub open spec fn spec_is_space(c: char) -> bool {
    ||| c == '\u{0009}'
    ||| c == '\u{000A}'
    ||| c == '\u{000B}'
    ||| c == '\u{000C}'
    ||| c == '\u{000D}'
    ||| c == ' '
    ||| c == '\u{0085}'
    ||| c == '\u{00A0}'
    ||| c == '\u{1680}'
    ||| ('\u{2000}' as u32) <= (c as u32) && (c as u32) <= ('\u{200A}' as u32)
    ||| c == '\u{2028}'
    ||| c == '\u{2029}'
    ||| c == '\u{202F}'
    ||| c == '\u{205F}'
    ||| c == '\u{3000}'
}

fn is_space(c: char) -> (r: bool)
    ensures
        r == spec_is_space(c),
{
    c == '\u{0009}' || c == '\u{000A}' || c == '\u{000B}' || c == '\u{000C}' || c == '\u{000D}'
        || c == ' ' || c == '\u{0085}' || c == '\u{00A0}' || c == '\u{1680}' || (('\u{2000}' as u32)
        <= (c as u32) && (c as u32) <= ('\u{200A}' as u32)) || c == '\u{2028}' || c == '\u{2029}'
        || c == '\u{202F}' || c == '\u{205F}' || c == '\u{3000}'
}

/// A line satisfies the word-wrap width bound when it fits in
/// `max_chars` characters, unless it is a single word (then it carries no
/// space at all).
pub open spec fn spec_within_wrap_width(line: Seq<char>, max_chars: int) -> bool {
    line.len() <= max_chars || (forall|j: int| 0 <= j < line.len() ==> line[j] != ' ')
}

/// The whitespace-delimited words of `s`, in order: maximal runs of
/// non-whitespace characters.
pub open spec fn spec_words(s: Seq<char>) -> Seq<Seq<char>>
    decreases s.len(),
{
    if s.len() == 0 {
        Seq::empty()
    } else {
        let rest = spec_words(s.drop_last());
        let c = s.last();
        if spec_is_space(c) {
            rest
        } else if s.len() >= 2 && !spec_is_space(s[s.len() - 2]) {
            rest.update(rest.len() - 1, rest.last().push(c))
        } else {
            rest.push(seq![c])
        }
    }
}

/// The greedy fill after the first `n` words: the finished lines and the
/// line under construction. A word joins the current line (with one
/// space) unless that would exceed `max`; then the current line is
/// finished and the word starts the next one.
pub open spec fn spec_wrap_acc(words: Seq<Seq<char>>, n: int, max: int) -> (
    Seq<Seq<char>>,
    Seq<char>,
)
    decreases n,
{
    if n <= 0 {
        (Seq::empty(), Seq::empty())
    } else {
        let prev = spec_wrap_acc(words, n - 1, max);
        let w = words[n - 1];
        if prev.1.len() == 0 {
            (prev.0, w)
        } else if prev.1.len() + 1 + w.len() > max {
            (prev.0.push(prev.1), w)
        } else {
            (prev.0, prev.1 + seq![' '] + w)
        }
    }
}

/// The word wrap of `text` at width `max`: the greedy fill over its
/// words, with the last line flushed; a zero width yields the text as a
/// single line.
pub open spec fn spec_word_wrap(text: Seq<char>, max: int) -> Seq<Seq<char>> {
    if max == 0 {
        seq![text]
    } else {
        let st = spec_wrap_acc(spec_words(text), spec_words(text).len() as int, max);
        if st.1.len() == 0 {
            st.0
        } else {
            st.0.push(st.1)
        }
    }
}

/// Splits `text` at whitespace into its words: exactly [`spec_words`],
/// so each returned word is non-empty and holds no whitespace character.
fn split_words(text: &str) -> (r: Vec<String>)
    ensures
        r.deep_view() == spec_words(text@),
        forall|i: int|
            0 <= i < r@.len() ==> (#[trigger] r@[i])@.len() > 0 && (forall|j: int|
                0 <= j < r@[i]@.len() ==> !spec_is_space(#[trigger] r@[i]@[j])),
{
    let mut words: Vec<String> = Vec::new();
    let mut cur = String::new();
    let total = text.unicode_len();
    let mut i: usize = 0;
    proof {
        assert(text@.take(0) =~= Seq::<char>::empty());
    }
    while i < total
        invariant
            total == text@.len(),
            i <= total,
            forall|j: int| 0 <= j < cur@.len() ==> !spec_is_space(#[trigger] cur@[j]),
            forall|k: int|
                0 <= k < words@.len() ==> (#[trigger] words@[k])@.len() > 0 && (forall|j: int|
                    0 <= j < words@[k]@.len() ==> !spec_is_space(#[trigger] words@[k]@[j])),
            spec_words(text@.take(i as int)) == words.deep_view() + (if cur@.len() > 0 {
                seq![cur@]
            } else {
                Seq::<Seq<char>>::empty()
            }),
            cur@.len() > 0 <==> (i > 0 && !spec_is_space(text@[i - 1])),
        decreases total - i,
    {
        let c = text.get_char(i);
        proof {
            assert(text@.take(i + 1).drop_last() =~= text@.take(i as int));
            assert(text@.take(i + 1).last() == text@[i as int]);
            if i > 0 {
                assert(text@.take(i + 1)[i - 1] == text@[i - 1]);
            }
        }
        let ghost done0 = words.deep_view();
        let ghost cur0 = cur@;
        if is_space(c) {
            if cur.unicode_len() > 0 {
                words.push(cur);
                cur = String::new();
                proof {
                    assert(words.deep_view() =~= done0.push(cur0));
                    assert(spec_words(text@.take(i + 1)) =~= words.deep_view());
                }
            }
        } else {
            push_char(&mut cur, c);
            proof {
                if cur0.len() > 0 {
                    let rest = spec_words(text@.take(i as int));
                    assert(spec_words(text@.take(i + 1)) == rest.update(
                        rest.len() - 1,
                        rest.last().push(text@[i as int]),
                    ));
                    assert(spec_words(text@.take(i + 1)) =~= done0 + seq![cur@]);
                } else {
                    assert(seq![text@[i as int]] =~= cur@);
                    assert(spec_words(text@.take(i + 1)) =~= done0 + seq![cur@]);
                }
            }
        }
        i = i + 1;
    }
    proof {
        assert(text@.take(total as int) =~= text@);
    }
    if cur.unicode_len() > 0 {
        let ghost done0 = words.deep_view();
        let ghost cur0 = cur@;
        words.push(cur);
        proof {
            assert(words.deep_view() =~= done0.push(cur0));
        }
    }
    proof {
        assert(words.deep_view() =~= spec_words(text@));
    }
    words
}

/// Word-wraps `text` into lines of at most `max_chars` characters,
/// breaking at word boundaries. A single word longer than `max_chars`
/// occupies its own line unsplit; no returned line is empty. A zero width
/// yields the original text as a single line.
pub fn word_wrap(text: &str, max_chars: usize) -> (r: Vec<String>)
    ensures
        r.deep_view() == spec_word_wrap(text@, max_chars as int),
        max_chars >= 1 ==> forall|i: int|
            0 <= i < r@.len() ==> spec_within_wrap_width(
                (#[trigger] r@[i])@,
                max_chars as int,
            ) && r@[i]@.len() > 0,
        max_chars == 0 ==> r@.len() == 1 && r@[0]@ == text@,
{
    let mut lines: Vec<String> = Vec::new();
    if max_chars == 0 {
        lines.push(text.to_owned());
        proof {
            assert(lines.deep_view() =~= seq![text@]);
        }
        return lines;
    }
    let words = split_words(text);
    let mut cur = String::new();
    let mut k: usize = 0;
    while k < words.len()
        invariant
            max_chars >= 1,
            k <= words@.len(),
            words.deep_view() == spec_words(text@),
            forall|i: int|
                0 <= i < words@.len() ==> (#[trigger] words@[i])@.len() > 0 && (forall|j: int|
                    0 <= j < words@[i]@.len() ==> !spec_is_space(#[trigger] words@[i]@[j])),
            cur@.len() > 0 ==> spec_within_wrap_width(cur@, max_chars as int),
            forall|i: int|
                0 <= i < lines@.len() ==> spec_within_wrap_width(
                    (#[trigger] lines@[i])@,
                    max_chars as int,
                ) && lines@[i]@.len() > 0,
            lines.deep_view() == spec_wrap_acc(
                words.deep_view(),
                k as int,
                max_chars as int,
            ).0,
            cur@ == spec_wrap_acc(words.deep_view(), k as int, max_chars as int).1,
        decreases words@.len() - k,
    {
        let word = &words[k];
        let cur_len = cur.unicode_len();
        let word_len = word.unicode_len();
        // Would appending " word" exceed the width? Stated without the sum
        // `cur_len + 1 + word_len`, which could overflow.
        let too_wide = cur_len > 0 && (cur_len >= max_chars || word_len >= max_chars || word_len
            > max_chars - cur_len - 1);
        proof {
            assert(too_wide == (cur@.len() > 0 && cur@.len() + 1 + word@.len()
                > max_chars as int));
        }
        let ghost lines0 = lines.deep_view();
        let ghost cur_before = cur@;
        if too_wide {
            lines.push(cur);
            cur = String::new();
            cur.append(word.as_str());
            proof {
                assert(lines.deep_view() =~= lines0.push(cur_before));
            }
        } else if cur_len > 0 {
            push_char(&mut cur, ' ');
            cur.append(word.as_str());
            proof {
                assert(cur@.len() <= max_chars);
                assert(cur@ =~= cur_before + seq![' '] + word@);
            }
        } else {
            cur.append(word.as_str());
            proof {
                assert(forall|j: int| 0 <= j < cur@.len() ==> cur@[j] != ' ');
                assert(cur@ =~= word@);
            }
        }
        proof {
            assert(words.deep_view()[k as int] == words@[k as int]@);
        }
        k = k + 1;
    }
    if cur.unicode_len() > 0 {
        let ghost lines0 = lines.deep_view();
        let ghost cur0 = cur@;
        lines.push(cur);
        proof {
            assert(lines.deep_view() =~= lines0.push(cur0));
        }
    }
    lines
}

} // verus!
