//! The texts of the reply that shows a player's scores on a beatmap.
use vstd::prelude::*;
use vstd::string::*;
use vstd::utf8::encode_utf8;

use crate::text::{dec, u64_to_decimal};
use crate::utils::url_parts::views;

verus! {

/// The most texts (embed fields) a reply holds.
pub const MAX_SCORE_TEXTS: usize = 25;

/// The most bytes a text (embed field) is filled to before a new one is
/// begun.
pub const MAX_TEXT_BYTES: usize = 1024;

/// The heading of the list of a player's other scores.
pub const OTHER_SCORES_HEADER: &'static str = "__Other scores on the beatmap:__";

/// The length in bytes of a text (what `str::len` gives).
pub open spec fn text_bytes(s: Seq<char>) -> int {
    (encode_utf8(s).len() as usize) as int
}

/// Adds the line of one score to the texts: dropped once the texts are
/// full, on a text of its own when the last text would pass the byte limit,
/// else at the end of the last text.
pub open spec fn add_line(texts: Seq<Seq<char>>, line: Seq<char>) -> Seq<Seq<char>> {
    if texts.len() >= MAX_SCORE_TEXTS {
        texts
    } else if texts.len() == 0 || text_bytes(texts.last()) + text_bytes(line) > MAX_TEXT_BYTES {
        texts.push(line)
    } else {
        texts.update(texts.len() - 1, texts.last() + line)
    }
}

/// The texts that the heading followed by the lines of the scores make.
pub open spec fn chunk_lines(lines: Seq<Seq<char>>) -> Seq<Seq<char>>
    decreases lines.len(),
{
    if lines.len() == 0 {
        seq![OTHER_SCORES_HEADER@]
    } else {
        add_line(chunk_lines(lines.drop_last()), lines.last())
    }
}

/// The texts of the list of other scores: one empty text when there is no
/// other score.
pub open spec fn other_scores_spec(lines: Seq<Seq<char>>) -> Seq<Seq<char>> {
    if lines.len() == 0 {
        seq![seq![]]
    } else {
        chunk_lines(lines)
    }
}

/// Lays out the lines of a player's other scores (one line per score, in
/// order) as the texts of a reply: a heading, then the lines, each text
/// filled until one more line would pass 1024 bytes, at most 25 texts (the
/// lines that do not fit are dropped). No scores give one empty text.
pub fn other_scores_text(lines: &Vec<String>) -> (r: Vec<String>)
    ensures
        views(r@) == other_scores_spec(views(lines@)),
{
    let ghost lv = views(lines@);
    if lines.len() == 0 {
        let r = vec![String::new()];
        proof {
            assert(views(r@) =~= seq![seq![]]);
        }
        return r;
    }
    let mut texts: Vec<String> = Vec::new();
    texts.push(String::from_str(OTHER_SCORES_HEADER));
    proof {
        assert(views(texts@) =~= chunk_lines(lv.take(0)));
    }
    let mut i: usize = 0;
    while i < lines.len()
        invariant
            lv == views(lines@),
            i <= lines.len(),
            views(texts@) == chunk_lines(lv.take(i as int)),
            texts.len() >= 1,
        decreases lines.len() - i,
    {
        let ghost before = views(texts@);
        proof {
            assert(lv.take(i + 1).drop_last() =~= lv.take(i as int));
            assert(lv.take(i + 1).last() == lines@[i as int]@);
        }
        if texts.len() < MAX_SCORE_TEXTS {
            let last_len = texts[texts.len() - 1].as_str().len();
            let line_len = lines[i].as_str().len();
            let full = match last_len.checked_add(line_len) {
                Some(total) => total > MAX_TEXT_BYTES,
                None => true,
            };
            proof {
                assert(texts@[texts.len() - 1]@ == before.last());
            }
            if full {
                texts.push(lines[i].clone());
                proof {
                    assert(views(texts@) =~= before.push(lines@[i as int]@));
                }
            } else {
                let mut last = texts.pop().unwrap();
                last.append(lines[i].as_str());
                texts.push(last);
                proof {
                    assert(views(texts@) =~= before.update(
                        before.len() - 1,
                        before.last() + lines@[i as int]@,
                    ));
                }
            }
        }
        i = i + 1;
    }
    proof {
        assert(lv.take(lines.len() as int) =~= lv);
    }
    texts
}

/// `__**Personal Best #{index}**__`
pub fn personal_best_text(index: usize) -> (r: String)
    ensures
        r@ == "__**Personal Best #"@ + dec(index as nat) + "**__"@,
{
    let mut s = String::from_str("__**Personal Best #");
    s.append(u64_to_decimal(index as u64).as_str());
    s.append("**__");
    s
}

/// The texts joined end to end.
pub open spec fn joined(texts: Seq<Seq<char>>) -> Seq<char>
    decreases texts.len(),
{
    if texts.len() == 0 {
        seq![]
    } else {
        joined(texts.drop_last()) + texts.last()
    }
}

/// How many of the lines the texts take in: all of them, or those that
/// came before the texts were full.
pub open spec fn lines_taken(lines: Seq<Seq<char>>) -> nat
    decreases lines.len(),
{
    if lines.len() == 0 {
        0
    } else if chunk_lines(lines.drop_last()).len() >= MAX_SCORE_TEXTS {
        lines_taken(lines.drop_last())
    } else {
        lines_taken(lines.drop_last()) + 1
    }
}

proof fn lemma_joined_update_last(texts: Seq<Seq<char>>, y: Seq<char>)
    requires
        texts.len() > 0,
    ensures
        joined(texts.update(texts.len() - 1, y)) == joined(texts.drop_last()) + y,
{
    let u = texts.update(texts.len() - 1, y);
    assert(u.drop_last() =~= texts.drop_last());
}

proof fn lemma_chunk_lines_shape(lines: Seq<Seq<char>>)
    ensures
        1 <= chunk_lines(lines).len() <= MAX_SCORE_TEXTS,
        lines_taken(lines) <= lines.len(),
        chunk_lines(lines).len() < MAX_SCORE_TEXTS ==> lines_taken(lines) == lines.len(),
        joined(chunk_lines(lines)) == OTHER_SCORES_HEADER@ + joined(lines.take(lines_taken(lines) as int)),
    decreases lines.len(),
{
    let header = OTHER_SCORES_HEADER@;
    if lines.len() == 0 {
        assert(lines.take(0) =~= Seq::<Seq<char>>::empty());
        let h = seq![header];
        assert(h.drop_last() =~= Seq::<Seq<char>>::empty());
        assert(joined(Seq::<Seq<char>>::empty()) =~= Seq::<char>::empty());
        assert(h.last() == header);
        assert(joined(h) == joined(h.drop_last()) + h.last());
        assert(joined(h) =~= header);
        assert(header + joined(lines.take(0)) =~= header);
    } else {
        let prev = lines.drop_last();
        let line = lines.last();
        lemma_chunk_lines_shape(prev);
        let texts = chunk_lines(prev);
        let k = lines_taken(prev);
        if texts.len() >= MAX_SCORE_TEXTS {
            assert(prev.take(k as int) =~= lines.take(k as int));
        } else {
            assert(k == prev.len());
            assert(lines.take(lines.len() as int) =~= lines);
            assert(prev.take(k as int) =~= prev);
            assert(joined(lines) == joined(prev) + line);
            assert(joined(texts) == header + joined(prev));
            if texts.len() == 0 || text_bytes(texts.last()) + text_bytes(line) > MAX_TEXT_BYTES {
                assert(texts.push(line).drop_last() =~= texts);
                assert(joined(texts.push(line)) == joined(texts) + line);
                assert(joined(texts) + line =~= header + (joined(prev) + line));
            } else {
                lemma_joined_update_last(texts, texts.last() + line);
                assert(texts.drop_last().push(texts.last()) =~= texts);
                assert(joined(texts) == joined(texts.drop_last()) + texts.last());
                assert(joined(texts.drop_last()) + (texts.last() + line) =~= (joined(texts.drop_last())
                    + texts.last()) + line);
                assert(joined(texts) + line =~= header + (joined(prev) + line));
            }
        }
    }
}

/// The list of other scores never holds more than 25 texts, and never
/// none.
pub proof fn lemma_other_scores_count(lines: Seq<Seq<char>>)
    ensures
        1 <= other_scores_spec(lines).len() <= MAX_SCORE_TEXTS,
{
    lemma_chunk_lines_shape(lines);
}

/// The lines of the scores are kept whole and in order: joined end to end,
/// the texts are the heading followed by the first lines (all of them, or
/// those that came before the texts were full).
pub proof fn lemma_other_scores_keep_lines(lines: Seq<Seq<char>>)
    requires
        lines.len() > 0,
    ensures
        lines_taken(lines) <= lines.len(),
        joined(other_scores_spec(lines)) == OTHER_SCORES_HEADER@ + joined(
            lines.take(lines_taken(lines) as int),
        ),
{
    lemma_chunk_lines_shape(lines);
}

proof fn lemma_encode_utf8_concat(a: Seq<char>, b: Seq<char>)
    ensures
        encode_utf8(a + b).len() == encode_utf8(a).len() + encode_utf8(b).len(),
    decreases a.len(),
{
    if a.len() == 0 {
        assert(a + b =~= b);
    } else {
        assert((a + b).drop_first() =~= a.drop_first() + b);
        assert((a + b)[0] == a[0]);
        lemma_encode_utf8_concat(a.drop_first(), b);
    }
}

/// A text is the heading, the line of one score, or lines that together
/// fit in 1024 bytes.
pub open spec fn text_fits(t: Seq<char>, lines: Seq<Seq<char>>) -> bool {
    ||| t == OTHER_SCORES_HEADER@
    ||| lines.contains(t)
    ||| encode_utf8(t).len() <= MAX_TEXT_BYTES
}

proof fn lemma_chunk_lines_fit(lines: Seq<Seq<char>>)
    requires
        forall|i: int| 0 <= i < lines.len() ==> encode_utf8(#[trigger] lines[i]).len() <= usize::MAX,
    ensures
        forall|i: int| 0 <= i < chunk_lines(lines).len() ==> text_fits(#[trigger] chunk_lines(lines)[i], lines),
        forall|i: int|
            0 <= i < chunk_lines(lines).len() ==> encode_utf8(#[trigger] chunk_lines(lines)[i]).len()
                <= usize::MAX || chunk_lines(lines)[i] == OTHER_SCORES_HEADER@,
    decreases lines.len(),
{
    if lines.len() > 0 {
        let prev = lines.drop_last();
        let line = lines.last();
        assert forall|i: int| 0 <= i < prev.len() implies encode_utf8(#[trigger] prev[i]).len() <= usize::MAX by {
            assert(prev[i] == lines[i]);
        }
        lemma_chunk_lines_shape(prev);
        lemma_chunk_lines_fit(prev);
        let texts = chunk_lines(prev);
        assert(line == lines[lines.len() - 1]);
        assert(lines.contains(line));
        assert forall|t: Seq<char>| prev.contains(t) implies lines.contains(t) by {
            let j = choose|j: int| 0 <= j < prev.len() && prev[j] == t;
            assert(lines[j] == t);
        }
        let r = chunk_lines(lines);
        if texts.len() >= MAX_SCORE_TEXTS {
        } else if texts.len() == 0 || text_bytes(texts.last()) + text_bytes(line) > MAX_TEXT_BYTES {
            assert forall|i: int| 0 <= i < r.len() implies text_fits(#[trigger] r[i], lines) by {
                if i < texts.len() {
                    assert(r[i] == texts[i]);
                }
            }
        } else {
            let last = texts.last();
            let n = texts.len() - 1;
            assert(last == texts[n]);
            assert(r[n] == last + line);
            if last == OTHER_SCORES_HEADER@ {
                reveal_strlit("__Other scores on the beatmap:__");
                assert(encode_utf8(OTHER_SCORES_HEADER@).len() <= usize::MAX) by {
                    lemma_ascii_encode_len(OTHER_SCORES_HEADER@);
                }
            }
            lemma_encode_utf8_concat(last, line);
            assert forall|i: int| 0 <= i < r.len() implies text_fits(#[trigger] r[i], lines) by {
                if i < n {
                    assert(r[i] == texts[i]);
                }
            }
        }
        assert forall|i: int| 0 <= i < r.len() implies encode_utf8(#[trigger] r[i]).len() <= usize::MAX
            || r[i] == OTHER_SCORES_HEADER@ by {
            if texts.len() < MAX_SCORE_TEXTS && i < texts.len() {
                if !(texts.len() == 0 || text_bytes(texts.last()) + text_bytes(line) > MAX_TEXT_BYTES) && i
                    == texts.len() - 1 {
                    let last = texts.last();
                    if last == OTHER_SCORES_HEADER@ {
                        reveal_strlit("__Other scores on the beatmap:__");
                        lemma_ascii_encode_len(OTHER_SCORES_HEADER@);
                    }
                    lemma_encode_utf8_concat(last, line);
                } else {
                    assert(r[i] == texts[i]);
                }
            }
        }
    } else {
        assert(chunk_lines(lines) =~= seq![OTHER_SCORES_HEADER@]);
    }
}

proof fn lemma_ascii_encode_len(s: Seq<char>)
    requires
        s.len() <= 64,
        forall|i: int| 0 <= i < s.len() ==> (#[trigger] s[i] as u32) < 128,
    ensures
        encode_utf8(s).len() == s.len(),
    decreases s.len(),
{
    if s.len() > 0 {
        assert forall|i: int| 0 <= i < s.drop_first().len() implies (#[trigger] s.drop_first()[i] as u32)
            < 128 by {
            assert(s.drop_first()[i] == s[i + 1]);
        }
        lemma_ascii_encode_len(s.drop_first());
        assert((s[0] as u32) < 128);
        assert(vstd::utf8::encode_scalar(s[0] as u32).len() == 1);
    }
}

/// Each text of the list of other scores is the heading, the line of a
/// single score, or lines that together fit in 1024 bytes (each line being
/// shorter than the machine's address space).
pub proof fn lemma_other_scores_fit(lines: Seq<Seq<char>>)
    requires
        lines.len() > 0,
        forall|i: int| 0 <= i < lines.len() ==> encode_utf8(#[trigger] lines[i]).len() <= usize::MAX,
    ensures
        forall|i: int|
            0 <= i < other_scores_spec(lines).len() ==> text_fits(#[trigger] other_scores_spec(lines)[i], lines),
{
    lemma_chunk_lines_fit(lines);
}

} // verus!
