//! Breaking a multi-line text into display lines: at newlines, and where a
//! line would get too wide, after the last whitespace that still fits.
//! Widths are the caller's: it answers whether a run of characters fits.
use vstd::prelude::*;
use crate::text::{LineSpan, lines_within};

verus! {

/// Rust's `char::is_whitespace`: the Unicode White_Space property.
pub open spec fn is_whitespace_char(c: char) -> bool {
    let u = c as u32;
    (0x9 <= u && u <= 0xd) || u == 0x20 || u == 0x85 || u == 0xa0 || u == 0x1680 || (0x2000 <= u
        && u <= 0x200a) || u == 0x2028 || u == 0x2029 || u == 0x202f || u == 0x205f || u == 0x3000
}

/// Whether `c` is whitespace (Unicode White_Space).
pub fn is_whitespace(c: char) -> (r: bool)
    ensures
        r == is_whitespace_char(c),
{
    let u = c as u32;
    (0x9 <= u && u <= 0xd) || u == 0x20 || u == 0x85 || u == 0xa0 || u == 0x1680 || (0x2000 <= u
        && u <= 0x200a) || u == 0x2028 || u == 0x2029 || u == 0x202f || u == 0x205f || u == 0x3000
}

/// `lines` cuts `chars[from..to]` into consecutive, non-empty pieces.
pub open spec fn tiles(lines: Seq<LineSpan>, from: int, to: int) -> bool {
    &&& lines.len() > 0
    &&& lines[0].start == from
    &&& lines.last().end == to
    &&& forall|k: int| 0 <= k < lines.len() ==> #[trigger] lines[k].start < lines[k].end
    &&& forall|k: int| 0 <= k < lines.len() - 1 ==> #[trigger] lines[k].end == lines[k + 1].start
}

/// A line breaks at a word boundary where it can: it ends where its segment
/// ends, or right after whitespace, or it holds no whitespace at all (a word
/// too long for the width).
pub open spec fn breaks_at_word(chars: Seq<char>, line: LineSpan, seg_end: int) -> bool {
    ||| line.end == seg_end
    ||| is_whitespace_char(chars[line.end - 1])
    ||| forall|i: int| line.start <= i < line.end ==> !is_whitespace_char(#[trigger] chars[i])
}

/// A display line ends at the end of the text, at a newline, right after
/// whitespace, or holds no whitespace at all.
pub open spec fn line_ends_well(chars: Seq<char>, line: LineSpan) -> bool {
    ||| line.end == chars.len()
    ||| (line.end < chars.len() && chars[line.end as int] == '\n')
    ||| breaks_at_word(chars, line, -1)
}

/// A line fits: `fits` answered true for its span, or it holds at most one
/// character (a character too wide for the width still gets a line).
pub open spec fn line_fits<F: Fn(usize, usize) -> bool>(fits: F, line: LineSpan) -> bool {
    line.end <= line.start + 1 || fits.ensures((line.start, line.end), true)
}

/// `line` is what a greedy wrap makes from its start, where the characters
/// from the start up to `run` fit the width and, unless `run` is the
/// segment's end, one more does not: the rest of the segment when all of it
/// fits; else everything up to and including the last whitespace of the
/// fitting run; else the fitting run itself, or one character when not even
/// one fits.
#[verifier::opaque]
pub open spec fn greedy_line<F: Fn(usize, usize) -> bool>(
    fits: F,
    chars: Seq<char>,
    line: LineSpan,
    seg_end: int,
    run: int,
) -> bool {
    &&& line.start <= run <= seg_end
    &&& forall|b: usize| line.start < b <= run ==> #[trigger] fits.ensures((line.start, b), true)
    &&& run < seg_end ==> fits.ensures((line.start, (run + 1) as usize), false)
    &&& if run == seg_end {
        line.end == seg_end
    } else if exists|i: int| line.start <= i < run && is_whitespace_char(#[trigger] chars[i]) {
        &&& line.start < line.end <= run
        &&& is_whitespace_char(chars[line.end - 1])
        &&& forall|i: int| line.end <= i < run ==> !is_whitespace_char(#[trigger] chars[i])
    } else {
        line.end == if run > line.start {
            run
        } else {
            line.start + 1
        }
    }
}

/// `line` is what a greedy wrap makes from its start (see `greedy_line`),
/// for some fitting run.
pub open spec fn wraps_greedily<F: Fn(usize, usize) -> bool>(
    fits: F,
    chars: Seq<char>,
    line: LineSpan,
    seg_end: int,
) -> bool {
    exists|run: int| #[trigger] greedy_line(fits, chars, line, seg_end, run)
}

/// The line a greedy wrap starts at `start` within a segment ending at
/// `seg_end`.
fn next_line<F: Fn(usize, usize) -> bool>(
    chars: &[char],
    start: usize,
    seg_end: usize,
    fits: &F,
) -> (line: LineSpan)
    requires
        start < seg_end <= chars@.len(),
        forall|a: usize, b: usize| fits.requires((a, b)),
    ensures
        line.start == start,
        start < line.end <= seg_end,
        breaks_at_word(chars@, line, seg_end as int),
        line_fits(*fits, line),
        wraps_greedily(*fits, chars@, line, seg_end as int),
{
    let mut end = start;
    let mut last_break: Option<usize> = None;
    while end < seg_end
        invariant_except_break
            start <= end <= seg_end <= chars@.len(),
            forall|a: usize, b: usize| fits.requires((a, b)),
            last_break matches Some(b) ==> start < b <= end && is_whitespace_char(chars@[b - 1]),
            last_break matches Some(b) ==> forall|i: int|
                b <= i < end ==> !is_whitespace_char(#[trigger] chars@[i]),
            last_break is None ==> forall|i: int|
                start <= i < end ==> !is_whitespace_char(#[trigger] chars@[i]),
            forall|b: usize| start < b <= end ==> #[trigger] fits.ensures((start, b), true),
        ensures
            start <= end <= seg_end,
            last_break matches Some(b) ==> start < b <= end && is_whitespace_char(chars@[b - 1]),
            last_break matches Some(b) ==> forall|i: int|
                b <= i < end ==> !is_whitespace_char(#[trigger] chars@[i]),
            last_break is None ==> forall|i: int|
                start <= i < end ==> !is_whitespace_char(#[trigger] chars@[i]),
            forall|b: usize| start < b <= end ==> #[trigger] fits.ensures((start, b), true),
            end < seg_end ==> fits.ensures((start, (end + 1) as usize), false),
        decreases seg_end - end,
    {
        if !fits(start, end + 1) {
            break;
        }
        if is_whitespace(chars[end]) {
            last_break = Some(end + 1);
        }
        end += 1;
    }
    let break_idx = if end == seg_end {
        seg_end
    } else {
        match last_break {
            Some(candidate) => candidate,
            None => if end > start {
                end
            } else {
                start + 1
            },
        }
    };
    let line = LineSpan { start, end: break_idx };
    proof {
        if end < seg_end {
            if let Some(c) = last_break {
                assert(is_whitespace_char(chars@[c - 1]));
            } else {
                assert(!exists|i: int| start <= i < end && is_whitespace_char(#[trigger] chars@[i]));
            }
        }
        reveal(greedy_line);
        assert(greedy_line(*fits, chars@, line, seg_end as int, end as int));
        assert(wraps_greedily(*fits, chars@, line, seg_end as int));
    }
    line
}

/// Break `chars[seg_start..seg_end]` (a segment without newlines) into lines.
/// `fits(a, b)` tells whether `chars[a..b]` fits the available width. Each
/// line is the greedy one from where the previous ended (`greedy_line`): it
/// grows while the next character fits; when it must end early it ends after
/// its last whitespace, or else where the width ran out, and it always holds
/// at least one character. An empty segment gives one empty line.
pub fn wrap_segment<F: Fn(usize, usize) -> bool>(
    chars: &[char],
    seg_start: usize,
    seg_end: usize,
    fits: &F,
    lines: &mut Vec<LineSpan>,
)
    requires
        seg_start <= seg_end <= chars@.len(),
        forall|a: usize, b: usize| fits.requires((a, b)),
    ensures
        final(lines)@.len() > old(lines)@.len(),
        final(lines)@.subrange(0, old(lines)@.len() as int) == old(lines)@,
        seg_start == seg_end ==> final(lines)@ == old(lines)@.push(
            LineSpan { start: seg_start, end: seg_start },
        ),
        seg_start < seg_end ==> tiles(
            final(lines)@.subrange(old(lines)@.len() as int, final(lines)@.len() as int),
            seg_start as int,
            seg_end as int,
        ),
        forall|k: int|
            old(lines)@.len() <= k < final(lines)@.len() ==> breaks_at_word(
                chars@,
                #[trigger] final(lines)@[k],
                seg_end as int,
            ),
        forall|k: int|
            old(lines)@.len() <= k < final(lines)@.len() ==> line_fits(*fits, #[trigger] final(lines)@[k]),
        forall|k: int|
            old(lines)@.len() <= k < final(lines)@.len() ==> wraps_greedily(
                *fits,
                chars@,
                #[trigger] final(lines)@[k],
                seg_end as int,
            ),
        forall|k: int|
            old(lines)@.len() <= k < final(lines)@.len() ==> seg_start <= (
            #[trigger] final(lines)@[k]).start <= final(lines)@[k].end <= seg_end,
{
    if seg_start == seg_end {
        lines.push(LineSpan { start: seg_start, end: seg_start });
        proof {
            let k = old(lines)@.len() as int;
            assert(lines@[k] == LineSpan { start: seg_start, end: seg_start });
            reveal(greedy_line);
            assert(greedy_line(*fits, chars@, lines@[k], seg_end as int, seg_end as int));
            assert(wraps_greedily(*fits, chars@, lines@[k], seg_end as int));
        }
        return;
    }
    let ghost base = old(lines)@.len();
    let mut start = seg_start;
    while start < seg_end
        invariant
            seg_start <= start <= seg_end <= chars@.len(),
            seg_start < seg_end,
            forall|a: usize, b: usize| fits.requires((a, b)),
            lines@.len() >= base,
            lines@.subrange(0, base as int) == old(lines)@,
            start == seg_start ==> lines@.len() == base,
            start > seg_start ==> tiles(
                lines@.subrange(base as int, lines@.len() as int),
                seg_start as int,
                start as int,
            ),
            forall|k: int|
                base <= k < lines@.len() ==> breaks_at_word(chars@, #[trigger] lines@[k], seg_end as int),
            forall|k: int| base <= k < lines@.len() ==> line_fits(*fits, #[trigger] lines@[k]),
            forall|k: int|
                base <= k < lines@.len() ==> wraps_greedily(
                    *fits,
                    chars@,
                    #[trigger] lines@[k],
                    seg_end as int,
                ),
            forall|k: int|
                base <= k < lines@.len() ==> seg_start <= (#[trigger] lines@[k]).start
                    <= lines@[k].end <= start,
        decreases seg_end - start,
    {
        let line = next_line(chars, start, seg_end, fits);
        let ghost before = lines@;
        lines.push(line);
        proof {
            let new_tail = lines@.subrange(base as int, lines@.len() as int);
            if start == seg_start {
                assert(new_tail =~= seq![line]);
            } else {
                let old_tail = before.subrange(base as int, before.len() as int);
                assert(new_tail =~= old_tail.push(line));
                assert(new_tail[new_tail.len() - 2] == old_tail.last());
            }
            assert(lines@.subrange(0, base as int) =~= before.subrange(0, base as int));
        }
        assert forall|k: int| base <= k < lines@.len() implies wraps_greedily(
            *fits,
            chars@,
            #[trigger] lines@[k],
            seg_end as int,
        ) by {
            if k < before.len() {
                assert(lines@[k] == before[k]);
            } else {
                assert(lines@[k] == line);
            }
        }
        start = line.end;
    }
}

/// Where the newline-free segment holding position `from` ends: at the
/// first newline at or after `from`, else at the end of the text.
pub open spec fn segment_end(chars: Seq<char>, from: int) -> int
    decreases chars.len() - from,
{
    if from >= chars.len() {
        chars.len() as int
    } else if chars[from] == '\n' {
        from
    } else {
        segment_end(chars, from + 1)
    }
}

/// The display lines of `chars`: each newline-separated segment wrapped by
/// `wrap_segment`, in order, so that every line is the greedy one for its
/// segment; the newline characters themselves belong to no line.
pub fn layout_lines<F: Fn(usize, usize) -> bool>(chars: &[char], fits: &F) -> (lines: Vec<LineSpan>)
    requires
        forall|a: usize, b: usize| fits.requires((a, b)),
    ensures
        lines@.len() > 0,
        lines@[0].start == 0,
        lines@.last().end == chars@.len(),
        forall|k: int| 0 <= k < lines@.len() ==> #[trigger] lines@[k].start <= lines@[k].end,
        forall|k: int|
            0 <= k < lines@.len() - 1 ==> (#[trigger] lines@[k + 1]).start == lines@[k].end
                || (lines@[k + 1].start == lines@[k].end + 1 && chars@[lines@[k].end as int]
                == '\n'),
        forall|k: int, i: int|
            #![trigger lines@[k], chars@[i]]
            0 <= k < lines@.len() && lines@[k].start <= i < lines@[k].end ==> chars@[i] != '\n',
        forall|k: int| 0 <= k < lines@.len() ==> line_ends_well(chars@, #[trigger] lines@[k]),
        forall|k: int| 0 <= k < lines@.len() ==> line_fits(*fits, #[trigger] lines@[k]),
        forall|k: int|
            0 <= k < lines@.len() ==> wraps_greedily(
                *fits,
                chars@,
                #[trigger] lines@[k],
                segment_end(chars@, lines@[k].start as int),
            ),
        lines_within(lines@, chars@.len()),
{
    let mut lines: Vec<LineSpan> = Vec::new();
    let mut segment_start: usize = 0;
    let mut idx: usize = 0;
    while idx < chars.len()
        invariant
            segment_start <= idx <= chars@.len(),
            forall|a: usize, b: usize| fits.requires((a, b)),
            forall|i: int| segment_start <= i < idx ==> chars@[i] != '\n',
            segment_start > 0 ==> chars@[segment_start - 1] == '\n',
            lines@.len() == 0 ==> segment_start == 0,
            lines@.len() > 0 ==> {
                &&& lines@[0].start == 0
                &&& lines@.last().end + 1 == segment_start
                &&& chars@[lines@.last().end as int] == '\n'
            },
            forall|k: int| 0 <= k < lines@.len() ==> #[trigger] lines@[k].start <= lines@[k].end,
            forall|k: int|
                0 <= k < lines@.len() - 1 ==> (#[trigger] lines@[k + 1]).start == lines@[k].end
                    || (lines@[k + 1].start == lines@[k].end + 1 && chars@[lines@[k].end as int]
                    == '\n'),
            forall|k: int, i: int|
                #![trigger lines@[k], chars@[i]]
                0 <= k < lines@.len() && lines@[k].start <= i < lines@[k].end ==> chars@[i] != '\n',
            forall|k: int| 0 <= k < lines@.len() ==> line_ends_well(chars@, #[trigger] lines@[k]),
            forall|k: int| 0 <= k < lines@.len() ==> line_fits(*fits, #[trigger] lines@[k]),
            forall|k: int|
                0 <= k < lines@.len() ==> wraps_greedily(
                    *fits,
                    chars@,
                    #[trigger] lines@[k],
                    segment_end(chars@, lines@[k].start as int),
                ),
            forall|k: int| 0 <= k < lines@.len() ==> #[trigger] lines@[k].end <= segment_start,
        decreases chars.len() - idx,
    {
        if chars[idx] == '\n' {
            let ghost before = lines@;
            wrap_segment(chars, segment_start, idx, fits, &mut lines);
            proof {
                lemma_appended_segment(before, lines@, chars@, segment_start as int, idx as int);
                lemma_fits_kept(*fits, before, lines@);
                lemma_greedy_kept(*fits, chars@, before, lines@, segment_start as int, idx as int);
                assert forall|k: int| 0 <= k < lines@.len() implies #[trigger] lines@[k].end <= idx + 1 by {
                    if k < before.len() {
                        assert(lines@.subrange(0, before.len() as int)[k] == lines@[k]);
                    }
                }
            }
            segment_start = idx + 1;
        }
        idx += 1;
    }
    let ghost before = lines@;
    wrap_segment(chars, segment_start, chars.len(), fits, &mut lines);
    proof {
        lemma_appended_segment(before, lines@, chars@, segment_start as int, chars@.len() as int);
        lemma_fits_kept(*fits, before, lines@);
        lemma_greedy_kept(
            *fits,
            chars@,
            before,
            lines@,
            segment_start as int,
            chars@.len() as int,
        );
        assert forall|k: int| 0 <= k < lines@.len() implies #[trigger] lines@[k].start <= lines@[k].end
            <= chars@.len() by {
            if k < before.len() {
                assert(lines@.subrange(0, before.len() as int)[k] == lines@[k]);
            }
        }
    }
    lines
}

/// Lines appended after lines that fit, and fitting themselves, leave all
/// lines fitting.
proof fn lemma_fits_kept<F: Fn(usize, usize) -> bool>(
    fits: F,
    before: Seq<LineSpan>,
    after: Seq<LineSpan>,
)
    requires
        after.len() >= before.len(),
        after.subrange(0, before.len() as int) == before,
        forall|k: int| 0 <= k < before.len() ==> line_fits(fits, #[trigger] before[k]),
        forall|k: int| before.len() <= k < after.len() ==> line_fits(fits, #[trigger] after[k]),
    ensures
        forall|k: int| 0 <= k < after.len() ==> line_fits(fits, #[trigger] after[k]),
{
    assert forall|k: int| 0 <= k < after.len() implies line_fits(fits, #[trigger] after[k]) by {
        if k < before.len() {
            assert(after.subrange(0, before.len() as int)[k] == after[k]);
            assert(line_fits(fits, before[k]));
        }
    }
}

/// Every position of a newline-free stretch ending at a newline (or at the
/// end of the text) has that end as its segment end.
proof fn lemma_segment_end(chars: Seq<char>, x: int, end: int)
    requires
        0 <= x <= end <= chars.len(),
        forall|i: int| x <= i < end ==> chars[i] != '\n',
        end == chars.len() || chars[end] == '\n',
    ensures
        segment_end(chars, x) == end,
    decreases end - x,
{
    if x < end {
        lemma_segment_end(chars, x + 1, end);
    }
}

/// The lines of one more segment keep every line the greedy one for its own
/// segment.
proof fn lemma_greedy_kept<F: Fn(usize, usize) -> bool>(
    fits: F,
    chars: Seq<char>,
    before: Seq<LineSpan>,
    after: Seq<LineSpan>,
    seg_start: int,
    seg_end: int,
)
    requires
        0 <= seg_start <= seg_end <= chars.len(),
        forall|i: int| seg_start <= i < seg_end ==> chars[i] != '\n',
        seg_end == chars.len() || chars[seg_end] == '\n',
        after.len() >= before.len(),
        after.subrange(0, before.len() as int) == before,
        forall|k: int|
            0 <= k < before.len() ==> wraps_greedily(
                fits,
                chars,
                #[trigger] before[k],
                segment_end(chars, before[k].start as int),
            ),
        forall|k: int|
            before.len() <= k < after.len() ==> wraps_greedily(fits, chars, #[trigger] after[k], seg_end),
        forall|k: int|
            before.len() <= k < after.len() ==> seg_start <= (#[trigger] after[k]).start <= seg_end,
    ensures
        forall|k: int|
            0 <= k < after.len() ==> wraps_greedily(
                fits,
                chars,
                #[trigger] after[k],
                segment_end(chars, after[k].start as int),
            ),
{
    assert forall|k: int| 0 <= k < after.len() implies wraps_greedily(
        fits,
        chars,
        #[trigger] after[k],
        segment_end(chars, after[k].start as int),
    ) by {
        if k < before.len() {
            assert(after.subrange(0, before.len() as int)[k] == after[k]);
            assert(before[k] == after[k]);
        } else {
            lemma_segment_end(chars, after[k].start as int, seg_end);
        }
    }
}

/// Appending the lines of one segment keeps the layout properties.
proof fn lemma_appended_segment(
    before: Seq<LineSpan>,
    after: Seq<LineSpan>,
    chars: Seq<char>,
    seg_start: int,
    seg_end: int,
)
    requires
        0 <= seg_start <= seg_end <= chars.len(),
        seg_end <= usize::MAX,
        forall|i: int| seg_start <= i < seg_end ==> chars[i] != '\n',
        before.len() == 0 ==> seg_start == 0,
        before.len() > 0 ==> {
            &&& before[0].start == 0
            &&& before.last().end + 1 == seg_start
            &&& chars[before.last().end as int] == '\n'
        },
        forall|k: int| 0 <= k < before.len() ==> #[trigger] before[k].start <= before[k].end,
        forall|k: int|
            0 <= k < before.len() - 1 ==> (#[trigger] before[k + 1]).start == before[k].end || (
            before[k + 1].start == before[k].end + 1 && chars[before[k].end as int] == '\n'),
        forall|k: int, i: int|
            #![trigger before[k], chars[i]]
            0 <= k < before.len() && before[k].start <= i < before[k].end ==> chars[i] != '\n',
        after.len() > before.len(),
        after.subrange(0, before.len() as int) == before,
        seg_start == seg_end ==> after == before.push(
            LineSpan { start: seg_start as usize, end: seg_start as usize },
        ),
        seg_start < seg_end ==> tiles(
            after.subrange(before.len() as int, after.len() as int),
            seg_start,
            seg_end,
        ),
        seg_end == chars.len() || chars[seg_end] == '\n',
        forall|k: int| 0 <= k < before.len() ==> line_ends_well(chars, #[trigger] before[k]),
        forall|k: int|
            before.len() <= k < after.len() ==> breaks_at_word(chars, #[trigger] after[k], seg_end),
    ensures
        forall|k: int| 0 <= k < after.len() ==> line_ends_well(chars, #[trigger] after[k]),
        after[0].start == 0,
        after.last().end == seg_end,
        forall|k: int| 0 <= k < after.len() ==> #[trigger] after[k].start <= after[k].end,
        forall|k: int|
            0 <= k < after.len() - 1 ==> (#[trigger] after[k + 1]).start == after[k].end || (
            after[k + 1].start == after[k].end + 1 && chars[after[k].end as int] == '\n'),
        forall|k: int, i: int|
            #![trigger after[k], chars[i]]
            0 <= k < after.len() && after[k].start <= i < after[k].end ==> chars[i] != '\n',
{
    let n = before.len() as int;
    let tail = after.subrange(n, after.len() as int);
    assert forall|k: int| 0 <= k < after.len() implies line_ends_well(chars, #[trigger] after[k]) by {
        if k < n {
            assert(after.subrange(0, n)[k] == after[k]);
            assert(line_ends_well(chars, before[k]));
        } else {
            assert(breaks_at_word(chars, after[k], seg_end));
        }
    }
    assert forall|k: int| 0 <= k < n implies after[k] == before[k] by {
        assert(after.subrange(0, n)[k] == after[k]);
    }
    if seg_start < seg_end {
        assert forall|k: int| n <= k < after.len() implies after[k] == tail[k - n] by {}
        assert(tail[0] == after[n]);
        assert(tail.last() == after.last());
        assert forall|k: int| 0 <= k < after.len() implies #[trigger] after[k].start <= after[k].end by {
            if k >= n {
                assert(tail[k - n].start < tail[k - n].end);
            }
        }
        assert forall|k: int|
            0 <= k < after.len() - 1 implies (#[trigger] after[k + 1]).start == after[k].end || (
            after[k + 1].start == after[k].end + 1 && chars[after[k].end as int] == '\n') by {
            if k + 1 < n {
            } else if k + 1 == n {
                assert(after[k] == before.last());
            } else {
                assert(tail[k - n].end == tail[k - n + 1].start);
            }
        }
        assert forall|k: int, i: int|
            #![trigger after[k], chars[i]]
            0 <= k < after.len() && after[k].start <= i < after[k].end implies chars[i] != '\n' by {
            if k >= n {
                lemma_tiles_bounds(tail, seg_start, seg_end, k - n);
            }
        }
    } else {
        assert forall|k: int|
            0 <= k < after.len() - 1 implies (#[trigger] after[k + 1]).start == after[k].end || (
            after[k + 1].start == after[k].end + 1 && chars[after[k].end as int] == '\n') by {
            if k + 1 == n {
                assert(after[k] == before.last());
            }
        }
    }
}

/// Every piece of a tiling lies within the tiled range.
proof fn lemma_tiles_bounds(lines: Seq<LineSpan>, from: int, to: int, k: int)
    requires
        tiles(lines, from, to),
        0 <= k < lines.len(),
    ensures
        from <= lines[k].start,
        lines[k].end <= to,
    decreases lines.len() - k,
{
    lemma_tiles_lower(lines, from, to, k);
    if k < lines.len() - 1 {
        lemma_tiles_bounds(lines, from, to, k + 1);
        assert(lines[k].end == lines[k + 1].start);
    }
}

/// Every piece of a tiling starts at or after the tiled range's start.
proof fn lemma_tiles_lower(lines: Seq<LineSpan>, from: int, to: int, k: int)
    requires
        tiles(lines, from, to),
        0 <= k < lines.len(),
    ensures
        from <= lines[k].start,
    decreases k,
{
    if k > 0 {
        lemma_tiles_lower(lines, from, to, k - 1);
        assert(lines[k - 1].end == lines[k].start);
    }
}

} // verus!
