use vstd::prelude::*;
use crate::style::Style;
use vstd::utf8::{decode_utf8, encode_utf8, encode_utf8_decode_utf8, is_ascii_chars, is_ascii_chars_encode_utf8, is_char_boundary};
use vstd::string::{StrSliceExecFns, StringExecFns, StringSliceAdditionalSpecFns};

verus! {

/// The characters with the Unicode `White_Space` property.
pub open spec fn is_white_space(c: char) -> bool {
    let u = c as u32;
    ||| 0x09 <= u <= 0x0D
    ||| u == 0x20
    ||| u == 0x85
    ||| u == 0xA0
    ||| u == 0x1680
    ||| 0x2000 <= u <= 0x200A
    ||| u == 0x2028
    ||| u == 0x2029
    ||| u == 0x202F
    ||| u == 0x205F
    ||| u == 0x3000
}

/// Whether `c` has the Unicode `White_Space` property, as `char::is_whitespace` answers.
pub(crate) fn char_is_whitespace(c: char) -> (b: bool)
    ensures
        b == is_white_space(c),
{
    let u = c as u32;
    (0x09 <= u && u <= 0x0D) || u == 0x20 || u == 0x85 || u == 0xA0 || u == 0x1680 || (0x2000 <= u && u <= 0x200A)
        || u == 0x2028 || u == 0x2029 || u == 0x202F || u == 0x205F || u == 0x3000
}

/// How a `Text` node fits its content into the width it is given.
#[derive(PartialEq, Eq, Structural, Clone, Copy, Debug)]
pub enum TextWrap {
    /// Greedy word wrap.
    Wrap,
    /// Break every `width` characters, words or not.
    Hard,
    /// Keep the end, with `...` in front.
    TruncateStart,
    /// Keep both ends, with `...` between them.
    TruncateMiddle,
    /// Keep the start, with `...` after it.
    Truncate,
    /// Keep the first `width` characters.
    Cut,
}

impl Default for TextWrap {
    fn default() -> (w: TextWrap)
        ensures
            w == TextWrap::Wrap,
    {
        TextWrap::Wrap
    }
}

/// A single character together with the (already merged) style it is painted with.
#[derive(PartialEq, Eq, Structural, Clone, Copy, Debug)]
pub struct StyledChar {
    pub ch: char,
    pub style: Style,
}

/// `s` cut at every `'\n'`, the newlines dropped: the pieces are what lies before the first
/// newline, between consecutive ones and after the last one (always at least one piece).
pub open spec fn newline_pieces(s: Seq<StyledChar>) -> Seq<Seq<StyledChar>>
    decreases s.len(),
{
    if s.len() == 0 {
        seq![Seq::empty()]
    } else {
        let p = newline_pieces(s.drop_last());
        if s.last().ch == '\n' {
            p.push(Seq::empty())
        } else {
            p.update(p.len() - 1, p.last().push(s.last()))
        }
    }
}

/// The paragraphs of `s`, as `str::lines` gives them: a blank line in the middle survives as
/// an empty paragraph, a trailing newline does not add an empty one.
pub open spec fn paragraphs(s: Seq<StyledChar>) -> Seq<Seq<StyledChar>> {
    let p = newline_pieces(s);
    if p.last().len() == 0 { p.drop_last() } else { p }
}

proof fn lemma_newline_pieces_nonempty(s: Seq<StyledChar>)
    ensures
        newline_pieces(s).len() >= 1,
    decreases s.len(),
{
    if s.len() > 0 {
        lemma_newline_pieces_nonempty(s.drop_last());
    }
}

/// Splits `chars` on literal `'\n'`s into its paragraphs.
pub fn split_on_newline(chars: &Vec<StyledChar>) -> (out: Vec<Vec<StyledChar>>)
    ensures
        out@.map_values(|v: Vec<StyledChar>| v@) == paragraphs(chars@),
{
    let mut done: Vec<Vec<StyledChar>> = Vec::new();
    let mut cur: Vec<StyledChar> = Vec::new();
    let mut i: usize = 0;
    while i < chars.len()
        invariant
            i <= chars.len(),
            done@.map_values(|v: Vec<StyledChar>| v@).push(cur@) == newline_pieces(chars@.take(i as int)),
        decreases chars.len() - i,
    {
        let ghost pre = chars@.take(i as int);
        assert(chars@.take(i + 1).drop_last() == pre);
        proof { lemma_newline_pieces_nonempty(pre); }
        let sc = chars[i];
        if sc.ch == '\n' {
            let finished = cur;
            cur = Vec::new();
            done.push(finished);
            assert(done@.map_values(|v: Vec<StyledChar>| v@).push(cur@) =~= newline_pieces(chars@.take(i + 1)));
        } else {
            cur.push(sc);
            assert(done@.map_values(|v: Vec<StyledChar>| v@).push(cur@) =~= newline_pieces(chars@.take(i + 1)));
        }
        i += 1;
    }
    assert(chars@.take(chars.len() as int) == chars@);
    if cur.len() > 0 {
        done.push(cur);
    }
    assert(done@.map_values(|v: Vec<StyledChar>| v@) =~= paragraphs(chars@));
    done
}

} // verus!

verus! {

/// Scanning `s` from the left: the words completed so far and the word being read.
pub open spec fn word_state(s: Seq<StyledChar>) -> (Seq<Seq<StyledChar>>, Seq<StyledChar>)
    decreases s.len(),
{
    if s.len() == 0 {
        (Seq::empty(), Seq::empty())
    } else {
        let (ws, cur) = word_state(s.drop_last());
        let c = s.last();
        if is_white_space(c.ch) {
            if cur.len() > 0 { (ws.push(cur), Seq::empty()) } else { (ws, cur) }
        } else {
            (ws, cur.push(c))
        }
    }
}

/// The words of `s`: its maximal runs of non-whitespace characters, in order.
pub open spec fn words(s: Seq<StyledChar>) -> Seq<Seq<StyledChar>> {
    let (ws, cur) = word_state(s);
    if cur.len() > 0 { ws.push(cur) } else { ws }
}

/// One step of greedy line filling: `w` joins the current line after a single space when the
/// result still fits `width`, otherwise the current line is closed and `w` starts the next.
pub open spec fn greedy_step(
    state: (Seq<Seq<StyledChar>>, Seq<StyledChar>),
    w: Seq<StyledChar>,
    width: nat,
    sp: StyledChar,
) -> (Seq<Seq<StyledChar>>, Seq<StyledChar>) {
    let (lines, cur) = state;
    if cur.len() == 0 {
        (lines, w)
    } else if cur.len() + 1 + w.len() <= width {
        (lines, cur.push(sp) + w)
    } else {
        (lines.push(cur), w)
    }
}

/// Greedy line filling over a sequence of words: the closed lines and the open one.
pub open spec fn greedy(ws: Seq<Seq<StyledChar>>, width: nat, sp: StyledChar) -> (
    Seq<Seq<StyledChar>>,
    Seq<StyledChar>,
)
    decreases ws.len(),
{
    if ws.len() == 0 {
        (Seq::empty(), Seq::empty())
    } else {
        greedy_step(greedy(ws.drop_last(), width, sp), ws.last(), width, sp)
    }
}

/// The longest piece a word is cut into at `width`: `width` itself, or one character when
/// the width is zero.
pub open spec fn piece_width(width: nat) -> nat {
    if width == 0 { 1 } else { width }
}

/// The words `ws`, each cut into consecutive pieces of at most `piece_width(width)`
/// characters (a word that fits stays whole), in order.
pub open spec fn word_pieces(ws: Seq<Seq<StyledChar>>, width: nat) -> Seq<Seq<StyledChar>>
    decreases ws.len(),
{
    if ws.len() == 0 {
        Seq::empty()
    } else {
        word_pieces(ws.drop_last(), width) + hard_chunks(ws.last(), piece_width(width))
    }
}

/// The words of `p` packed greedily onto lines no wider than `width`, joined by single spaces
/// styled `sp`; a word wider than `width` is first cut into pieces of `width` characters, as
/// `textwrap::fill` does. Always at least one line; a paragraph with no words gives one empty
/// line.
pub open spec fn wrapped_words(p: Seq<StyledChar>, width: nat, sp: StyledChar) -> Seq<
    Seq<StyledChar>,
> {
    let (lines, cur) = greedy(word_pieces(words(p), width), width, sp);
    let all = if cur.len() > 0 { lines.push(cur) } else { lines };
    if all.len() == 0 { seq![Seq::empty()] } else { all }
}

fn push_all(dst: &mut Vec<StyledChar>, src: &Vec<StyledChar>)
    ensures
        final(dst)@ == old(dst)@ + src@,
{
    let mut i: usize = 0;
    while i < src.len()
        invariant
            i <= src.len(),
            dst@ == old(dst)@ + src@.take(i as int),
        decreases src.len() - i,
    {
        dst.push(src[i]);
        i += 1;
        assert(dst@ =~= old(dst)@ + src@.take(i as int));
    }
    assert(src@.take(src.len() as int) == src@);
}

/// Applies one greedy step for the finished word `word`.
fn place_word(
    lines: &mut Vec<Vec<StyledChar>>,
    current: &mut Vec<StyledChar>,
    word: &Vec<StyledChar>,
    width: usize,
    sp: StyledChar,
)
    ensures
        (final(lines)@.map_values(|v: Vec<StyledChar>| v@), final(current)@) == greedy_step(
            (old(lines)@.map_values(|v: Vec<StyledChar>| v@), old(current)@),
            word@,
            width as nat,
            sp,
        ),
{
    if current.len() == 0 {
        push_all(current, word);
        assert(current@ =~= word@);
    } else if word.len() <= width && current.len() < width - word.len() {
        current.push(sp);
        push_all(current, word);
    } else {
        let mut finished: Vec<StyledChar> = Vec::new();
        std::mem::swap(&mut finished, current);
        lines.push(finished);
        push_all(current, word);
        assert(current@ =~= word@);
        assert(lines@.map_values(|v: Vec<StyledChar>| v@) =~= old(lines)@.map_values(
            |v: Vec<StyledChar>| v@,
        ).push(old(current)@));
    }
}

/// Places the pieces of the finished word `word` one after the other, each as one greedy step.
fn place_word_pieces(
    lines: &mut Vec<Vec<StyledChar>>,
    current: &mut Vec<StyledChar>,
    word: &Vec<StyledChar>,
    width: usize,
    sp: StyledChar,
    Ghost(base): Ghost<Seq<Seq<StyledChar>>>,
)
    requires
        word.len() > 0,
        (old(lines)@.map_values(|v: Vec<StyledChar>| v@), old(current)@) == greedy(base, width as nat, sp),
    ensures
        (final(lines)@.map_values(|v: Vec<StyledChar>| v@), final(current)@) == greedy(
            base + hard_chunks(word@, piece_width(width as nat)),
            width as nat,
            sp,
        ),
{
    let pw: usize = if width == 0 { 1 } else { width };
    let pieces = chunks(word, pw);
    let ghost hc = hard_chunks(word@, piece_width(width as nat));
    assert(pieces@.map_values(|v: Vec<StyledChar>| v@) == hc);
    assert(base + hc.take(0) =~= base);
    let mut j: usize = 0;
    while j < pieces.len()
        invariant
            j <= pieces.len(),
            pieces@.map_values(|v: Vec<StyledChar>| v@) == hc,
            (lines@.map_values(|v: Vec<StyledChar>| v@), current@) == greedy(base + hc.take(j as int), width as nat, sp),
        decreases pieces.len() - j,
    {
        proof {
            assert((base + hc.take(j + 1)).drop_last() =~= base + hc.take(j as int));
            assert((base + hc.take(j + 1)).last() == hc[j as int]);
            assert(pieces@[j as int]@ == hc[j as int]);
        }
        place_word(lines, current, &pieces[j], width, sp);
        j += 1;
    }
    assert(hc.take(pieces.len() as int) =~= hc);
}

/// Greedily packs the whitespace-separated words of `paragraph` onto lines no wider than
/// `width`, normalizing the whitespace between words to a single space of `space_style`;
/// a word wider than `width` is cut into pieces of `width` characters first.
fn wrap_words(paragraph: &Vec<StyledChar>, width: usize, space_style: Style) -> (out: Vec<
    Vec<StyledChar>,
>)
    ensures
        out@.map_values(|v: Vec<StyledChar>| v@) == wrapped_words(
            paragraph@,
            width as nat,
            StyledChar { ch: ' ', style: space_style },
        ),
{
    let sp = StyledChar { ch: ' ', style: space_style };
    let mut lines: Vec<Vec<StyledChar>> = Vec::new();
    let mut current: Vec<StyledChar> = Vec::new();
    let mut word: Vec<StyledChar> = Vec::new();
    let ghost mut done: Seq<Seq<StyledChar>> = Seq::empty();
    let mut i: usize = 0;
    while i < paragraph.len()
        invariant
            i <= paragraph.len(),
            word_state(paragraph@.take(i as int)) == (done, word@),
            (lines@.map_values(|v: Vec<StyledChar>| v@), current@) == greedy(
                word_pieces(done, width as nat),
                width as nat,
                sp,
            ),
        decreases paragraph.len() - i,
    {
        assert(paragraph@.take(i + 1).drop_last() == paragraph@.take(i as int));
        let sc = paragraph[i];
        if char_is_whitespace(sc.ch) {
            if word.len() > 0 {
                place_word_pieces(&mut lines, &mut current, &word, width, sp, Ghost(word_pieces(done, width as nat)));
                proof {
                    assert(done.push(word@).drop_last() == done);
                    done = done.push(word@);
                }
                word = Vec::new();
            }
        } else {
            word.push(sc);
        }
        i += 1;
    }
    assert(paragraph@.take(paragraph.len() as int) == paragraph@);
    if word.len() > 0 {
        place_word_pieces(&mut lines, &mut current, &word, width, sp, Ghost(word_pieces(done, width as nat)));
        proof {
            assert(done.push(word@).drop_last() == done);
        }
    }
    if current.len() > 0 {
        lines.push(current);
    }
    if lines.len() == 0 {
        lines.push(Vec::new());
        assert(lines@.map_values(|v: Vec<StyledChar>| v@) =~= seq![Seq::<StyledChar>::empty()]);
    }
    lines
}

} // verus!

verus! {

/// The `...` an ellipsis mode inserts, in style `s`.
pub open spec fn dots(s: Style) -> Seq<StyledChar> {
    seq![StyledChar { ch: '.', style: s }, StyledChar { ch: '.', style: s }, StyledChar { ch: '.', style: s }]
}

/// `p` cut into consecutive pieces of `w` characters (the last one possibly shorter).
pub open spec fn hard_chunks(p: Seq<StyledChar>, w: nat) -> Seq<Seq<StyledChar>>
    decreases p.len(),
{
    if w == 0 || p.len() <= w {
        seq![p]
    } else {
        seq![p.take(w as int)] + hard_chunks(p.skip(w as int), w)
    }
}

/// The lines one paragraph (no embedded newline) becomes under `mode` at width `w`.
pub open spec fn wrapped_paragraph(mode: TextWrap, p: Seq<StyledChar>, w: nat, fallback: Style) -> Seq<
    Seq<StyledChar>,
> {
    if p.len() == 0 {
        seq![Seq::empty()]
    } else if p.len() <= w {
        seq![p]
    } else {
        match mode {
            TextWrap::Wrap => wrapped_words(p, w, StyledChar { ch: ' ', style: fallback }),
            TextWrap::Hard => hard_chunks(p, w),
            TextWrap::TruncateStart => if w <= 3 {
                seq![p.skip(p.len() - w)]
            } else {
                seq![dots(fallback) + p.skip(p.len() - (w - 3))]
            },
            TextWrap::TruncateMiddle => if w <= 3 {
                seq![p.take(w as int)]
            } else {
                let keep = (w - 3) as nat;
                let half = keep / 2;
                let extra = keep % 2;
                seq![p.take((half + extra) as int) + dots(fallback) + p.skip(p.len() - half)]
            },
            TextWrap::Truncate => if w <= 3 {
                seq![p.take(w as int)]
            } else {
                seq![p.take(w - 3) + dots(fallback)]
            },
            TextWrap::Cut => seq![p.take(w as int)],
        }
    }
}

/// The lines of every paragraph in `ps`, in order.
pub open spec fn wrapped_paragraphs(
    ps: Seq<Seq<StyledChar>>,
    mode: TextWrap,
    w: nat,
    fallback: Style,
) -> Seq<Seq<StyledChar>>
    decreases ps.len(),
{
    if ps.len() == 0 {
        Seq::empty()
    } else {
        wrapped_paragraphs(ps.drop_last(), mode, w, fallback) + wrapped_paragraph(
            mode,
            ps.last(),
            w,
            fallback,
        )
    }
}

/// The rows `chars` is shown as under `mode` at width `w`: each paragraph wrapped on its own,
/// and with no width to work with, the paragraphs as they are.
pub open spec fn wrapped_text(mode: TextWrap, chars: Seq<StyledChar>, w: nat, fallback: Style) -> Seq<
    Seq<StyledChar>,
> {
    if w == 0 {
        paragraphs(chars)
    } else {
        wrapped_paragraphs(paragraphs(chars), mode, w, fallback)
    }
}

fn copy_range(p: &Vec<StyledChar>, from: usize, to: usize) -> (out: Vec<StyledChar>)
    requires
        from <= to <= p.len(),
    ensures
        out@ == p@.subrange(from as int, to as int),
{
    let mut out: Vec<StyledChar> = Vec::new();
    let mut i = from;
    while i < to
        invariant
            from <= i <= to <= p.len(),
            out@ == p@.subrange(from as int, i as int),
        decreases to - i,
    {
        out.push(p[i]);
        i += 1;
        assert(out@ =~= p@.subrange(from as int, i as int));
    }
    out
}

fn push_dots(row: &mut Vec<StyledChar>, style: Style)
    ensures
        final(row)@ == old(row)@ + dots(style),
{
    let dot = StyledChar { ch: '.', style };
    row.push(dot);
    row.push(dot);
    row.push(dot);
    assert(row@ =~= old(row)@ + dots(style));
}

fn chunks(paragraph: &Vec<StyledChar>, width: usize) -> (out: Vec<Vec<StyledChar>>)
    requires
        width > 0,
        paragraph.len() > 0,
    ensures
        out@.map_values(|v: Vec<StyledChar>| v@) == hard_chunks(paragraph@, width as nat),
{
    let len = paragraph.len();
    let mut out: Vec<Vec<StyledChar>> = Vec::new();
    let mut start: usize = 0;
    assert(paragraph@.skip(0) =~= paragraph@);
    assert(out@.map_values(|v: Vec<StyledChar>| v@) =~= Seq::<Seq<StyledChar>>::empty());
    while width < len - start
        invariant
            width > 0,
            len == paragraph.len(),
            start < len,
            out@.map_values(|v: Vec<StyledChar>| v@) + hard_chunks(paragraph@.skip(start as int), width as nat)
                == hard_chunks(paragraph@, width as nat),
        decreases len - start,
    {
        let ghost rest = paragraph@.skip(start as int);
        assert(rest.skip(width as int) =~= paragraph@.skip(start + width));
        assert(rest.take(width as int) =~= paragraph@.subrange(start as int, start + width));
        let piece = copy_range(paragraph, start, start + width);
        out.push(piece);
        start = start + width;
        assert(out@.map_values(|v: Vec<StyledChar>| v@) =~= out@.drop_last().map_values(|v: Vec<StyledChar>| v@).push(piece@));
    }
    let last = copy_range(paragraph, start, len);
    assert(paragraph@.skip(start as int) =~= paragraph@.subrange(start as int, len as int));
    out.push(last);
    assert(out@.map_values(|v: Vec<StyledChar>| v@) =~= out@.drop_last().map_values(|v: Vec<StyledChar>| v@).push(last@));
    out
}

fn single_row(row: Vec<StyledChar>) -> (out: Vec<Vec<StyledChar>>)
    ensures
        out@.map_values(|v: Vec<StyledChar>| v@) == seq![row@],
{
    let mut out: Vec<Vec<StyledChar>> = Vec::new();
    out.push(row);
    assert(out@.map_values(|v: Vec<StyledChar>| v@) =~= seq![row@]);
    out
}

/// Wraps a single paragraph (no embedded newlines) per `mode`. `fallback_style` styles any
/// `...` an ellipsis mode inserts and the spaces word wrapping puts between words.
pub fn wrap_paragraph(mode: TextWrap, paragraph: &Vec<StyledChar>, width: usize, fallback_style: Style) -> (out: Vec<
    Vec<StyledChar>,
>)
    requires
        width > 0,
    ensures
        out@.map_values(|v: Vec<StyledChar>| v@) == wrapped_paragraph(
            mode,
            paragraph@,
            width as nat,
            fallback_style,
        ),
{
    let len = paragraph.len();
    if len == 0 {
        return single_row(Vec::new());
    }
    if len <= width {
        let all = copy_range(paragraph, 0, len);
        assert(paragraph@.subrange(0, len as int) =~= paragraph@);
        return single_row(all);
    }
    match mode {
        TextWrap::Wrap => wrap_words(paragraph, width, fallback_style),
        TextWrap::Hard => chunks(paragraph, width),
        TextWrap::TruncateStart => {
            if width <= 3 {
                let row = copy_range(paragraph, len - width, len);
                assert(paragraph@.skip(len - width) =~= paragraph@.subrange(len - width, len as int));
                return single_row(row);
            }
            let keep = width - 3;
            let mut row: Vec<StyledChar> = Vec::new();
            push_dots(&mut row, fallback_style);
            let tail = copy_range(paragraph, len - keep, len);
            push_all(&mut row, &tail);
            assert(paragraph@.skip(len - keep) =~= paragraph@.subrange(len - keep, len as int));
            single_row(row)
        },
        TextWrap::TruncateMiddle => {
            if width <= 3 {
                let row = copy_range(paragraph, 0, width);
                assert(paragraph@.take(width as int) =~= paragraph@.subrange(0, width as int));
                return single_row(row);
            }
            let keep = width - 3;
            let half = keep / 2;
            let extra = keep % 2;
            let mut row = copy_range(paragraph, 0, half + extra);
            push_dots(&mut row, fallback_style);
            let tail = copy_range(paragraph, len - half, len);
            push_all(&mut row, &tail);
            assert(paragraph@.take(half + extra) =~= paragraph@.subrange(0, half + extra));
            assert(paragraph@.skip(len - half) =~= paragraph@.subrange(len - half, len as int));
            single_row(row)
        },
        TextWrap::Truncate => {
            if width <= 3 {
                let row = copy_range(paragraph, 0, width);
                assert(paragraph@.take(width as int) =~= paragraph@.subrange(0, width as int));
                return single_row(row);
            }
            let keep = width - 3;
            let mut row = copy_range(paragraph, 0, keep);
            push_dots(&mut row, fallback_style);
            assert(paragraph@.take(keep as int) =~= paragraph@.subrange(0, keep as int));
            single_row(row)
        },
        TextWrap::Cut => {
            let row = copy_range(paragraph, 0, width);
            assert(paragraph@.take(width as int) =~= paragraph@.subrange(0, width as int));
            single_row(row)
        },
    }
}

/// Wraps/truncates `chars` per `mode`, one row of styled characters per resulting line.
/// Measuring a `Text` node and painting it both go through this function, so its measured size
/// and its painted content always come from the same wrapping.
pub fn wrap_styled(mode: TextWrap, chars: &Vec<StyledChar>, width: usize, fallback_style: Style) -> (out: Vec<
    Vec<StyledChar>,
>)
    ensures
        out@.map_values(|v: Vec<StyledChar>| v@) == wrapped_text(
            mode,
            chars@,
            width as nat,
            fallback_style,
        ),
{
    let paras = split_on_newline(chars);
    if width == 0 {
        return paras;
    }
    let ghost ps = paras@.map_values(|v: Vec<StyledChar>| v@);
    let mut out: Vec<Vec<StyledChar>> = Vec::new();
    let mut i: usize = 0;
    while i < paras.len()
        invariant
            width > 0,
            i <= paras.len(),
            ps == paras@.map_values(|v: Vec<StyledChar>| v@),
            out@.map_values(|v: Vec<StyledChar>| v@) == wrapped_paragraphs(
                ps.take(i as int),
                mode,
                width as nat,
                fallback_style,
            ),
        decreases paras.len() - i,
    {
        let mut lines = wrap_paragraph(mode, &paras[i], width, fallback_style);
        let ghost before = out@;
        let ghost added = lines@;
        out.append(&mut lines);
        assert(out@.map_values(|v: Vec<StyledChar>| v@) =~= before.map_values(|v: Vec<StyledChar>| v@) + added.map_values(|v: Vec<StyledChar>| v@));
        assert(ps.take(i + 1).drop_last() =~= ps.take(i as int));
        i += 1;
    }
    assert(ps.take(paras.len() as int) =~= ps);
    out
}

} // verus!

verus! {

/// Hard breaking loses and reorders nothing: the pieces, put back together, are the paragraph;
/// every piece is non-empty and at most `w` long.
pub proof fn lemma_hard_chunks_partition(p: Seq<StyledChar>, w: nat)
    requires
        w > 0,
        p.len() > 0,
    ensures
        hard_chunks(p, w).flatten() == p,
        forall|i: int|
            0 <= i < hard_chunks(p, w).len() ==> 0 < (#[trigger] hard_chunks(p, w)[i]).len() <= w,
    decreases p.len(),
{
    if p.len() <= w {
        hard_chunks(p, w).lemma_flatten_one_element();
    } else {
        let rest = p.skip(w as int);
        lemma_hard_chunks_partition(rest, w);
        let hc = hard_chunks(p, w);
        assert(hc.drop_first() =~= hard_chunks(rest, w));
        assert(hc.flatten() =~= p.take(w as int) + rest);
        assert(p.take(w as int) + rest =~= p);
        assert forall|i: int| 0 <= i < hc.len() implies 0 < (#[trigger] hc[i]).len() <= w by {
            if i > 0 {
                assert(hc[i] == hard_chunks(rest, w)[i - 1]);
            }
        }
    }
}

/// A paragraph longer than `w` (with `w > 0`) becomes a single row of exactly `w` characters
/// under every truncating mode and under `Cut`.
pub proof fn lemma_truncation_width(mode: TextWrap, p: Seq<StyledChar>, w: nat, fallback: Style)
    requires
        w > 0,
        p.len() > w,
        mode != TextWrap::Wrap,
        mode != TextWrap::Hard,
    ensures
        wrapped_paragraph(mode, p, w, fallback).len() == 1,
        wrapped_paragraph(mode, p, w, fallback)[0].len() == w,
{
}

/// Under word wrapping every row fits the width: no row is wider than `w` (for `w > 0`).
pub proof fn lemma_wrapped_words_fit(p: Seq<StyledChar>, w: nat, sp: StyledChar)
    requires
        w > 0,
    ensures
        wrapped_words(p, w, sp).len() >= 1,
        forall|i: int| 0 <= i < wrapped_words(p, w, sp).len() ==> (#[trigger] wrapped_words(p, w, sp)[i]).len() <= w,
{
    let ws = word_pieces(words(p), w);
    lemma_word_pieces_fit(words(p), w);
    lemma_greedy_fit(ws, w, sp);
}

/// Every piece the words are cut into is at most `piece_width(w)` long.
proof fn lemma_word_pieces_fit(ws: Seq<Seq<StyledChar>>, w: nat)
    ensures
        forall|i: int| 0 <= i < word_pieces(ws, w).len() ==> (#[trigger] word_pieces(ws, w)[i]).len() <= piece_width(w),
    decreases ws.len(),
{
    if ws.len() > 0 {
        lemma_word_pieces_fit(ws.drop_last(), w);
        let a = word_pieces(ws.drop_last(), w);
        let b = hard_chunks(ws.last(), piece_width(w));
        lemma_hard_chunks_bound(ws.last(), piece_width(w));
        assert forall|i: int| 0 <= i < word_pieces(ws, w).len() implies (#[trigger] word_pieces(ws, w)[i]).len() <= piece_width(w) by {
            if i < a.len() {
                assert(word_pieces(ws, w)[i] == a[i]);
            } else {
                assert(word_pieces(ws, w)[i] == b[i - a.len()]);
            }
        }
    }
}

/// Every piece of hard breaking at `w > 0` is at most `w` long.
proof fn lemma_hard_chunks_bound(p: Seq<StyledChar>, w: nat)
    requires
        w > 0,
    ensures
        forall|i: int| 0 <= i < hard_chunks(p, w).len() ==> (#[trigger] hard_chunks(p, w)[i]).len() <= w,
    decreases p.len(),
{
    if p.len() > w {
        let rest = p.skip(w as int);
        lemma_hard_chunks_bound(rest, w);
        let hc = hard_chunks(p, w);
        assert forall|i: int| 0 <= i < hc.len() implies (#[trigger] hc[i]).len() <= w by {
            if i > 0 {
                assert(hc[i] == hard_chunks(rest, w)[i - 1]);
            }
        }
    }
}

proof fn lemma_greedy_fit(ws: Seq<Seq<StyledChar>>, w: nat, sp: StyledChar)
    requires
        forall|i: int| 0 <= i < ws.len() ==> (#[trigger] ws[i]).len() <= w,
    ensures
        ({
            let (lines, cur) = greedy(ws, w, sp);
            &&& forall|i: int| 0 <= i < lines.len() ==> (#[trigger] lines[i]).len() <= w
            &&& cur.len() <= w
        }),
    decreases ws.len(),
{
    if ws.len() > 0 {
        let prev = ws.drop_last();
        assert forall|i: int| 0 <= i < prev.len() implies (#[trigger] prev[i]).len() <= w by {
            assert(prev[i] == ws[i]);
        }
        lemma_greedy_fit(prev, w, sp);
        let (lines0, cur0) = greedy(prev, w, sp);
        let (lines, cur) = greedy(ws, w, sp);
        assert(ws[ws.len() - 1] == ws.last());
        assert forall|i: int| 0 <= i < lines.len() implies (#[trigger] lines[i]).len() <= w by {
            if i < lines0.len() {
                assert(lines[i] == lines0[i]);
            } else {
                assert(lines[i] == cur0);
            }
        }
    }
}

} // verus!

verus! {

/// What `textwrap::fill` returns for `text` at `width`: the text word-wrapped onto lines no
/// wider than `width`, joined with `'\n'`.
pub uninterp spec fn textwrap_filled(text: Seq<char>, width: usize) -> Seq<char>;

/// `textwrap::fill(text, width)`, whose result depends on the text and the width alone.
#[verifier::external_body]
fn textwrap_fill(text: &str, width: usize) -> (r: String)
    ensures
        r@ == textwrap_filled(text@, width),
{
    textwrap::fill(text, width)
}

/// `String::push` from std: appends one character.
#[verifier::external_body]
pub(crate) fn string_push(s: &mut String, c: char)
    ensures
        final(s)@ == old(s)@.push(c),
{
    s.push(c)
}

/// The characters of `s` with a `'\n'` put in front of every `w`-th one (not the first).
pub open spec fn hard_broken(s: Seq<char>, w: nat) -> Seq<char>
    decreases s.len(),
{
    if s.len() == 0 {
        Seq::empty()
    } else {
        let i = s.len() - 1;
        let prev = hard_broken(s.drop_last(), w);
        if i > 0 && w > 0 && i % (w as int) == 0 {
            prev.push('\n').push(s.last())
        } else {
            prev.push(s.last())
        }
    }
}

/// The characters encoded by the bytes of `b` from `from` on.
pub open spec fn bytes_from(b: Seq<u8>, from: int) -> Seq<char> {
    decode_utf8(b.subrange(from, b.len() as int))
}

/// The characters encoded by the first `to` bytes of `b`.
pub open spec fn bytes_upto(b: Seq<u8>, to: int) -> Seq<char> {
    decode_utf8(b.subrange(0, to))
}

pub open spec fn ellipsis() -> Seq<char> {
    seq!['.', '.', '.']
}

/// Whether every byte offset `process` cuts the text at is a character boundary (cutting
/// anywhere else would split a character, and the slicing panics).
pub open spec fn process_cuts_on_boundaries(mode: TextWrap, b: Seq<u8>, w: nat) -> bool {
    b.len() <= w || w == 0 || match mode {
        TextWrap::TruncateStart => if w <= 3 {
            is_char_boundary(b, b.len() - w)
        } else {
            is_char_boundary(b, b.len() - (w - 3))
        },
        TextWrap::TruncateMiddle => if w <= 3 {
            is_char_boundary(b, w as int)
        } else {
            let keep = (w - 3) as nat;
            is_char_boundary(b, (keep / 2 + keep % 2) as int) && is_char_boundary(
                b,
                b.len() - keep / 2,
            )
        },
        TextWrap::Truncate => if w <= 3 {
            is_char_boundary(b, w as int)
        } else {
            is_char_boundary(b, w - 3)
        },
        _ => true,
    }
}

/// What `process` makes of a string with characters `s` and UTF-8 bytes `b` at width `w`.
/// Lengths are compared in bytes and the truncating modes cut at byte offsets, as the string
/// API counts them; `Hard` and `Cut` count characters.
pub open spec fn processed(mode: TextWrap, s: Seq<char>, b: Seq<u8>, w: nat) -> Seq<char> {
    if b.len() <= w || w == 0 {
        s
    } else {
        match mode {
            TextWrap::Wrap => textwrap_filled(s, w as usize),
            TextWrap::Hard => hard_broken(s, w),
            TextWrap::TruncateStart => if w <= 3 {
                bytes_from(b, b.len() - w)
            } else {
                ellipsis() + bytes_from(b, b.len() - (w - 3))
            },
            TextWrap::TruncateMiddle => if w <= 3 {
                bytes_upto(b, w as int)
            } else {
                let keep = (w - 3) as nat;
                bytes_upto(b, (keep / 2 + keep % 2) as int) + ellipsis() + bytes_from(
                    b,
                    b.len() - keep / 2,
                )
            },
            TextWrap::Truncate => if w <= 3 {
                bytes_upto(b, w as int)
            } else {
                bytes_upto(b, w - 3) + ellipsis()
            },
            TextWrap::Cut => if s.len() <= w {
                s
            } else {
                s.take(w as int)
            },
        }
    }
}

fn tail_from(text: &str, mid: usize) -> (r: String)
    requires
        mid <= text.spec_bytes().len(),
        is_char_boundary(text.spec_bytes(), mid as int),
    ensures
        r@ == bytes_from(text.spec_bytes(), mid as int),
{
    let (_, tail) = text.split_at(mid);
    proof {
        encode_utf8_decode_utf8(tail@);
    }
    String::from_str(tail)
}

fn head_upto(text: &str, mid: usize) -> (r: String)
    requires
        mid <= text.spec_bytes().len(),
        is_char_boundary(text.spec_bytes(), mid as int),
    ensures
        r@ == bytes_upto(text.spec_bytes(), mid as int),
{
    let (head, _) = text.split_at(mid);
    proof {
        encode_utf8_decode_utf8(head@);
    }
    String::from_str(head)
}

fn push_ellipsis(s: &mut String)
    ensures
        final(s)@ == old(s)@ + ellipsis(),
{
    string_push(s, '.');
    string_push(s, '.');
    string_push(s, '.');
    assert(s@ =~= old(s)@ + ellipsis());
}

impl TextWrap {
    /// Fits `text` into `width` per this mode; text that already fits (or a zero width) comes
    /// back unchanged.
    pub fn process(&self, text: &str, width: usize) -> (r: String)
        requires
            text.spec_bytes().len() <= usize::MAX,
            process_cuts_on_boundaries(*self, text.spec_bytes(), width as nat),
        ensures
            r@ == processed(*self, text@, text.spec_bytes(), width as nat),
    {
        let len = text.len();
        if len <= width || width == 0 {
            return String::from_str(text);
        }
        match self {
            TextWrap::Wrap => textwrap_fill(text, width),
            TextWrap::Hard => {
                let n = text.unicode_len();
                let mut result = String::new();
                let mut i: usize = 0;
                while i < n
                    invariant
                        n == text@.len(),
                        width > 0,
                        i <= n,
                        result@ == hard_broken(text@.take(i as int), width as nat),
                    decreases n - i,
                {
                    assert(text@.take(i + 1).drop_last() =~= text@.take(i as int));
                    if i > 0 && i % width == 0 {
                        string_push(&mut result, '\n');
                    }
                    string_push(&mut result, text.get_char(i));
                    i += 1;
                }
                assert(text@.take(n as int) =~= text@);
                result
            },
            TextWrap::TruncateStart => {
                if width <= 3 {
                    return tail_from(text, len - width);
                }
                let keep = width - 3;
                let mut result = String::new();
                push_ellipsis(&mut result);
                let tail = tail_from(text, len - keep);
                result.append(tail.as_str());
                result
            },
            TextWrap::TruncateMiddle => {
                if width <= 3 {
                    return head_upto(text, width);
                }
                let keep = width - 3;
                let half = keep / 2;
                let extra = keep % 2;
                let mut result = head_upto(text, half + extra);
                push_ellipsis(&mut result);
                let tail = tail_from(text, len - half);
                result.append(tail.as_str());
                result
            },
            TextWrap::Truncate => {
                if width <= 3 {
                    return head_upto(text, width);
                }
                let keep = width - 3;
                let mut result = head_upto(text, keep);
                push_ellipsis(&mut result);
                result
            },
            TextWrap::Cut => {
                let n = text.unicode_len();
                if n <= width {
                    String::from_str(text)
                } else {
                    String::from_str(text.substring_char(0, width))
                }
            },
        }
    }
}

} // verus!

verus! {

/// The length of the longest row (0 for no rows).
pub open spec fn widest(rows: Seq<Seq<StyledChar>>) -> nat
    decreases rows.len(),
{
    if rows.len() == 0 {
        0
    } else {
        let w = widest(rows.drop_last());
        if rows.last().len() > w { rows.last().len() } else { w }
    }
}

/// The size a `Text` node with content `chars` asks for when offered `available` columns:
/// its widest row and its number of rows, after the same wrapping painting uses.
pub fn measure_wrapped(mode: TextWrap, chars: &Vec<StyledChar>, available: usize, fallback_style: Style) -> (size: (usize, usize))
    ensures
        size.0 == widest(wrapped_text(mode, chars@, available as nat, fallback_style)),
        size.1 == wrapped_text(mode, chars@, available as nat, fallback_style).len(),
{
    let rows = wrap_styled(mode, chars, available, fallback_style);
    let ghost rs = rows@.map_values(|v: Vec<StyledChar>| v@);
    let mut best: usize = 0;
    let mut i: usize = 0;
    while i < rows.len()
        invariant
            i <= rows.len(),
            rs == rows@.map_values(|v: Vec<StyledChar>| v@),
            best == widest(rs.take(i as int)),
        decreases rows.len() - i,
    {
        assert(rs.take(i + 1).drop_last() =~= rs.take(i as int));
        if rows[i].len() > best {
            best = rows[i].len();
        }
        i += 1;
    }
    assert(rs.take(rows.len() as int) =~= rs);
    (best, rows.len())
}

} // verus!

verus! {

/// The characters of `p`, without their styles.
pub open spec fn plain_chars(p: Seq<StyledChar>) -> Seq<char> {
    p.map_values(|c: StyledChar| c.ch)
}

/// Rows as one text: each row's characters, the rows separated by line breaks.
pub open spec fn rows_joined(rows: Seq<Seq<StyledChar>>) -> Seq<char>
    decreases rows.len(),
{
    if rows.len() == 0 {
        Seq::empty()
    } else if rows.len() == 1 {
        plain_chars(rows[0])
    } else {
        plain_chars(rows[0]) + seq!['\n'] + rows_joined(rows.drop_first())
    }
}

/// For ASCII text, bytes and characters coincide: slicing the UTF-8 bytes at `k` slices the
/// characters at `k`.
proof fn lemma_ascii_slices(s: Seq<char>, k: int)
    requires
        is_ascii_chars(s),
        0 <= k <= s.len(),
    ensures
        encode_utf8(s).len() == s.len(),
        bytes_from(encode_utf8(s), k) == s.skip(k),
        bytes_upto(encode_utf8(s), k) == s.take(k),
{
    is_ascii_chars_encode_utf8(s);
    let b = encode_utf8(s);
    let t = s.skip(k);
    let h = s.take(k);
    assert(is_ascii_chars(t)) by {
        assert forall|i: int| 0 <= i < t.len() implies '\0' <= #[trigger] t[i] <= '\u{7f}' by {
            assert(t[i] == s[k + i]);
        }
    }
    assert(is_ascii_chars(h)) by {
        assert forall|i: int| 0 <= i < h.len() implies '\0' <= #[trigger] h[i] <= '\u{7f}' by {
            assert(h[i] == s[i]);
        }
    }
    is_ascii_chars_encode_utf8(t);
    is_ascii_chars_encode_utf8(h);
    assert forall|i: int| 0 <= i < t.len() implies b.subrange(k, b.len() as int)[i] == #[trigger] encode_utf8(t)[i] by {
        assert(t[i] == s[k + i]);
    }
    assert(b.subrange(k, b.len() as int) =~= encode_utf8(t));
    assert forall|i: int| 0 <= i < h.len() implies b.subrange(0, k)[i] == #[trigger] encode_utf8(h)[i] by {
        assert(h[i] == s[i]);
    }
    assert(b.subrange(0, k) =~= encode_utf8(h));
    encode_utf8_decode_utf8(t);
    encode_utf8_decode_utf8(h);
}

/// Text no longer than `w` gets no line break.
proof fn lemma_hard_broken_short(s: Seq<char>, w: nat)
    requires
        s.len() <= w,
    ensures
        hard_broken(s, w) == s,
    decreases s.len(),
{
    if s.len() > 0 {
        lemma_hard_broken_short(s.drop_last(), w);
        assert(s.drop_last().push(s.last()) =~= s);
        if w > 0 {
            vstd::arithmetic::div_mod::lemma_small_mod((s.len() - 1) as nat, w);
        }
    }
}

/// Text longer than `w` is broken after its first `w` characters, then the rest likewise.
proof fn lemma_hard_broken_split(s: Seq<char>, w: nat)
    requires
        w > 0,
        s.len() > w,
    ensures
        hard_broken(s, w) == s.take(w as int) + seq!['\n'] + hard_broken(s.skip(w as int), w),
    decreases s.len(),
{
    let i = s.len() - 1;
    let t = s.skip(w as int);
    if s.len() == w + 1 {
        lemma_hard_broken_short(s.drop_last(), w);
        assert(s.drop_last() =~= s.take(w as int));
        assert((w as int) % (w as int) == 0) by (nonlinear_arith) requires w > 0;
        assert(t =~= seq![s.last()]);
        assert(t.drop_last() =~= Seq::<char>::empty());
        assert(hard_broken(t.drop_last(), w) == Seq::<char>::empty());
        assert(hard_broken(t, w) =~= seq![s.last()]);
    } else {
        lemma_hard_broken_split(s.drop_last(), w);
        assert(s.drop_last().take(w as int) =~= s.take(w as int));
        assert(s.drop_last().skip(w as int) =~= t.drop_last());
        assert(t.last() == s.last());
        vstd::arithmetic::div_mod::lemma_mod_add_multiples_vanish(i - w, w as int);
        assert(t.len() - 1 == i - w);
    }
}

/// Hard breaking the styled paragraph and joining its rows gives the same text as hard
/// breaking its characters.
proof fn lemma_chunks_joined(p: Seq<StyledChar>, w: nat)
    requires
        w > 0,
        p.len() > 0,
    ensures
        rows_joined(hard_chunks(p, w)) == hard_broken(plain_chars(p), w),
    decreases p.len(),
{
    let s = plain_chars(p);
    if p.len() <= w {
        lemma_hard_broken_short(s, w);
    } else {
        let rest = p.skip(w as int);
        lemma_chunks_joined(rest, w);
        lemma_hard_broken_split(s, w);
        assert(plain_chars(p.take(w as int)) =~= s.take(w as int));
        assert(plain_chars(rest) =~= s.skip(w as int));
        let hc = hard_chunks(p, w);
        assert(hc.drop_first() =~= hard_chunks(rest, w));
        assert(hard_chunks(rest, w).len() >= 1);
    }
}

/// On ASCII text, painting and `TextWrap::process` agree: under every mode but `Wrap`, at
/// any width of at least one, the rows a paragraph is wrapped into, joined by line breaks,
/// are exactly what `process` makes of the paragraph's characters.
pub proof fn lemma_paragraph_matches_process(mode: TextWrap, p: Seq<StyledChar>, w: nat, fallback: Style)
    requires
        w > 0,
        mode != TextWrap::Wrap,
        is_ascii_chars(plain_chars(p)),
    ensures
        rows_joined(wrapped_paragraph(mode, p, w, fallback)) == processed(
            mode,
            plain_chars(p),
            encode_utf8(plain_chars(p)),
            w,
        ),
{
    let s = plain_chars(p);
    let n = p.len();
    lemma_ascii_slices(s, 0);
    let b = encode_utf8(s);
    assert(b.len() == n);
    if n == 0 {
        assert(rows_joined(seq![Seq::<StyledChar>::empty()]) =~= s);
    } else if n <= w {
    } else {
        assert(plain_chars(dots(fallback)) =~= ellipsis());
        match mode {
            TextWrap::Hard => {
                lemma_chunks_joined(p, w);
            },
            TextWrap::TruncateStart => {
                if w <= 3 {
                    lemma_ascii_slices(s, n - w);
                    assert(plain_chars(p.skip(n - w)) =~= s.skip(n - w));
                } else {
                    lemma_ascii_slices(s, n - (w - 3));
                    assert(plain_chars(dots(fallback) + p.skip(n - (w - 3))) =~= ellipsis() + s.skip(n - (w - 3)));
                }
            },
            TextWrap::TruncateMiddle => {
                if w <= 3 {
                    lemma_ascii_slices(s, w as int);
                    assert(plain_chars(p.take(w as int)) =~= s.take(w as int));
                } else {
                    let keep = (w - 3) as nat;
                    let half = keep / 2;
                    let extra = keep % 2;
                    lemma_ascii_slices(s, (half + extra) as int);
                    lemma_ascii_slices(s, n - half);
                    assert(plain_chars(p.take((half + extra) as int) + dots(fallback) + p.skip(n - half)) =~= s.take(
                        (half + extra) as int,
                    ) + ellipsis() + s.skip(n - half));
                }
            },
            TextWrap::Truncate => {
                if w <= 3 {
                    lemma_ascii_slices(s, w as int);
                    assert(plain_chars(p.take(w as int)) =~= s.take(w as int));
                } else {
                    lemma_ascii_slices(s, w - 3);
                    assert(plain_chars(p.take(w - 3) + dots(fallback)) =~= s.take(w - 3) + ellipsis());
                }
            },
            TextWrap::Cut => {
                assert(plain_chars(p.take(w as int)) =~= s.take(w as int));
            },
            TextWrap::Wrap => {},
        }
    }
}

} // verus!
