//! Greedy word wrapping of a text into lines of a bounded width.
use vstd::prelude::*;

verus! {

/// The lines and current line after placing `word` on the line `line`: the
/// word joins the line, after one space, while the result stays shorter than
/// `width`; otherwise the line is closed and the word starts the next one.
/// An empty word changes nothing.
pub open spec fn place_word(
    lines: Seq<Seq<char>>,
    line: Seq<char>,
    word: Seq<char>,
    width: int,
) -> (Seq<Seq<char>>, Seq<char>) {
    if word.len() == 0 {
        (lines, line)
    } else if line.len() + word.len() + 1 < width {
        (lines, line + seq![' '] + word)
    } else {
        (lines.push(line), word)
    }
}

/// The closed lines, the open line and the unfinished word after reading
/// `text` from the start. Words are separated by spaces; a newline closes the
/// open line after placing the word before it.
pub open spec fn wrap_state(text: Seq<char>, width: int) -> (Seq<Seq<char>>, Seq<char>, Seq<char>)
    decreases text.len(),
{
    if text.len() == 0 {
        (seq![], seq![], seq![])
    } else {
        let st = wrap_state(text.drop_last(), width);
        let ch = text.last();
        if ch == ' ' {
            let placed = place_word(st.0, st.1, st.2, width);
            (placed.0, placed.1, seq![])
        } else if ch == '\n' {
            let placed = place_word(st.0, st.1, st.2, width);
            (placed.0.push(placed.1), seq![], seq![])
        } else {
            (st.0, st.1, st.2.push(ch))
        }
    }
}

/// The lines of `text` wrapped greedily to lines shorter than `width`: the
/// last word is placed and a non-empty open line closed.
pub open spec fn wrap_text(text: Seq<char>, width: int) -> Seq<Seq<char>> {
    let st = wrap_state(text, width);
    let placed = place_word(st.0, st.1, st.2, width);
    if placed.1.len() == 0 {
        placed.0
    } else {
        placed.0.push(placed.1)
    }
}

/// The characters of `s`, in order.
pub fn chars_of(s: &str) -> (r: Vec<char>)
    ensures
        r@ == s@,
{
    let n = s.unicode_len();
    let mut r: Vec<char> = Vec::new();
    let mut i: usize = 0;
    while i < n
        invariant
            n == s@.len(),
            i <= n,
            r@ == s@.subrange(0, i as int),
        decreases n - i,
    {
        r.push(s.get_char(i));
        i = i + 1;
    }
    assert(s@.subrange(0, n as int) == s@);
    r
}

/// The contents of a list of lines.
pub open spec fn lines_view(lines: Seq<Vec<char>>) -> Seq<Seq<char>> {
    lines.map_values(|l: Vec<char>| l@)
}

/// Places `word` on `line` as `place_word` says.
fn push_word(lines: &mut Vec<Vec<char>>, line: &mut Vec<char>, word: &Vec<char>, width: usize)
    ensures
        (lines_view(final(lines)@), final(line)@) == place_word(
            lines_view(old(lines)@),
            old(line)@,
            word@,
            width as int,
        ),
{
    if word.len() == 0 {
        return;
    }
    if line.len() < width && word.len() < width - line.len() - 1 {
        line.push(' ');
        let mut i: usize = 0;
        while i < word.len()
            invariant
                i <= word@.len(),
                line@ == old(line)@ + seq![' '] + word@.subrange(0, i as int),
                *lines == *old(lines),
            decreases word@.len() - i,
        {
            line.push(word[i]);
            i = i + 1;
        }
        assert(word@.subrange(0, word@.len() as int) == word@);
    } else {
        let closed = line.clone();
        assert(closed@ == line@);
        lines.push(closed);
        *line = word.clone();
        assert(lines_view(lines@) == lines_view(old(lines)@).push(old(line)@));
    }
}

/// Wraps `text` into lines as `wrap_text` says.
pub fn wrap_lines(text: &Vec<char>, width: usize) -> (r: Vec<Vec<char>>)
    ensures
        lines_view(r@) == wrap_text(text@, width as int),
{
    let mut lines: Vec<Vec<char>> = Vec::new();
    let mut line: Vec<char> = Vec::new();
    let mut word: Vec<char> = Vec::new();
    let mut i: usize = 0;
    while i < text.len()
        invariant
            i <= text@.len(),
            (lines_view(lines@), line@, word@) == wrap_state(text@.subrange(0, i as int), width as int),
        decreases text@.len() - i,
    {
        let ch = text[i];
        proof {
            let next = text@.subrange(0, i + 1);
            assert(next.drop_last() == text@.subrange(0, i as int));
            assert(next.last() == ch);
        }
        if ch == ' ' {
            push_word(&mut lines, &mut line, &word, width);
            word = Vec::new();
        } else if ch == '\n' {
            push_word(&mut lines, &mut line, &word, width);
            let closed = line.clone();
            assert(closed@ == line@);
            lines.push(closed);
            line = Vec::new();
            word = Vec::new();
            assert(lines_view(lines@) == wrap_state(text@.subrange(0, i + 1), width as int).0);
        } else {
            word.push(ch);
        }
        i = i + 1;
    }
    assert(text@.subrange(0, text@.len() as int) == text@);
    push_word(&mut lines, &mut line, &word, width);
    if line.len() != 0 {
        let closed = line.clone();
        assert(closed@ == line@);
        lines.push(closed);
        assert(lines_view(lines@) == wrap_text(text@, width as int));
    }
    lines
}

/// Whether `ch` ends a word: a space or a newline.
pub open spec fn is_break(ch: char) -> bool {
    ch == ' ' || ch == '\n'
}

/// Every stretch of `width` or more characters of `text` holds a space or a
/// newline: no word is `width` characters long or longer.
pub open spec fn no_long_word(text: Seq<char>, width: int) -> bool {
    forall|i: int, j: int|
        0 <= i <= j <= text.len() && j - i >= width ==> #[trigger] has_break(text, i, j)
}

/// Some character of `text` from index `i` up to, not including, `j` is a break.
pub open spec fn has_break(text: Seq<char>, i: int, j: int) -> bool {
    exists|k: int| i <= k < j && #[trigger] is_break(text[k])
}

/// What holds of the wrapping state: closed lines and the open line are
/// shorter than `width`, and the unfinished word is the end of `text`,
/// free of breaks.
spec fn wrap_state_bounded(text: Seq<char>, width: int) -> bool {
    let st = wrap_state(text, width);
    &&& forall|i: int| 0 <= i < st.0.len() ==> #[trigger] st.0[i].len() < width
    &&& st.1.len() < width
    &&& st.2.len() <= text.len()
    &&& st.2 == text.subrange(text.len() - st.2.len(), text.len() as int)
    &&& forall|k: int| 0 <= k < st.2.len() ==> !is_break(#[trigger] st.2[k])
}

proof fn lemma_word_short(text: Seq<char>, width: int, word: Seq<char>)
    requires
        no_long_word(text, width),
        word.len() <= text.len(),
        word == text.subrange(text.len() - word.len(), text.len() as int),
        forall|k: int| 0 <= k < word.len() ==> !is_break(#[trigger] word[k]),
    ensures
        word.len() < width,
{
    let i = text.len() - word.len();
    let j = text.len() as int;
    if word.len() >= width {
        assert(has_break(text, i, j));
        let k = choose|k: int| i <= k < j && #[trigger] is_break(text[k]);
        assert(word[k - i] == text[k]);
    }
}

proof fn lemma_place_word_bounded(
    lines: Seq<Seq<char>>,
    line: Seq<char>,
    word: Seq<char>,
    width: int,
)
    requires
        forall|i: int| 0 <= i < lines.len() ==> #[trigger] lines[i].len() < width,
        line.len() < width,
        word.len() < width,
    ensures
        ({
            let placed = place_word(lines, line, word, width);
            &&& forall|i: int| 0 <= i < placed.0.len() ==> #[trigger] placed.0[i].len() < width
            &&& placed.1.len() < width
        }),
{
    let placed = place_word(lines, line, word, width);
    assert forall|i: int| 0 <= i < placed.0.len() implies #[trigger] placed.0[i].len() < width by {
        if i < lines.len() {
            assert(placed.0[i] == lines[i]);
        }
    }
}

proof fn lemma_wrap_state_bounded(text: Seq<char>, width: int)
    requires
        no_long_word(text, width),
        width >= 1,
    ensures
        wrap_state_bounded(text, width),
    decreases text.len(),
{
    if text.len() > 0 {
        let init = text.drop_last();
        assert(no_long_word(init, width)) by {
            assert forall|i: int, j: int|
                0 <= i <= j <= init.len() && j - i >= width implies #[trigger] has_break(
                init,
                i,
                j,
            ) by {
                assert(has_break(text, i, j));
                let k = choose|k: int| i <= k < j && #[trigger] is_break(text[k]);
                assert(init[k] == text[k]);
            }
        }
        lemma_wrap_state_bounded(init, width);
        let st = wrap_state(init, width);
        let ch = text.last();
        lemma_word_short(init, width, st.2);
        lemma_place_word_bounded(st.0, st.1, st.2, width);
        if ch == ' ' || ch == '\n' {
            let placed = place_word(st.0, st.1, st.2, width);
            if ch == '\n' {
                let pushed = placed.0.push(placed.1);
                assert forall|i: int| 0 <= i < pushed.len() implies #[trigger] pushed[i].len()
                    < width by {
                    if i < placed.0.len() {
                        assert(pushed[i] == placed.0[i]);
                    }
                }
            }
            assert(text.subrange(text.len() as int, text.len() as int) =~= Seq::<char>::empty());
        } else {
            let word = st.2.push(ch);
            assert(word =~= text.subrange(text.len() - word.len(), text.len() as int));
            assert forall|k: int| 0 <= k < word.len() implies !is_break(#[trigger] word[k]) by {
                if k < st.2.len() {
                    assert(word[k] == st.2[k]);
                }
            }
        }
    } else {
        assert(text.subrange(0, 0) =~= Seq::<char>::empty());
    }
}

/// Where no word of `text` is `width` characters long or longer, every line
/// that wrapping makes is shorter than `width`.
pub proof fn lemma_wrapped_lines_fit(text: Seq<char>, width: int)
    requires
        width >= 1,
        no_long_word(text, width),
    ensures
        forall|i: int| 0 <= i < wrap_text(text, width).len() ==> #[trigger] wrap_text(text, width)[i].len() < width,
{
    lemma_wrap_state_bounded(text, width);
    let st = wrap_state(text, width);
    lemma_word_short(text, width, st.2);
    lemma_place_word_bounded(st.0, st.1, st.2, width);
    let placed = place_word(st.0, st.1, st.2, width);
    let lines = wrap_text(text, width);
    if placed.1.len() != 0 {
        assert forall|i: int| 0 <= i < lines.len() implies #[trigger] lines[i].len() < width by {
            if i < placed.0.len() {
                assert(lines[i] == placed.0[i]);
            }
        }
    }
}

} // verus!
