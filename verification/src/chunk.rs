//! Outbound chunking: long replies are split into parts no longer than a
//! transport limit, preferring to cut at a blank line, then at a line
//! break, then at the hard limit.  Newlines consumed at a cut are the only
//! characters dropped, so restoring them reconstructs the original text.

use vstd::prelude::*;
use vstd::string::StrSliceExecFns;
use vstd::string::StringExecFns;

verus! {

/// Everything from `pos` to the end of `text` is a newline.
pub open spec fn all_newlines_from(text: Seq<char>, pos: int) -> bool {
    forall|j: int| pos <= j < text.len() ==> text[j] == '\n'
}

/// A blank line (two consecutive newlines) begins at `j`.
pub open spec fn para_break_at(text: Seq<char>, j: int) -> bool {
    text[j] == '\n' && text[j + 1] == '\n'
}

/// Within the window of `max_len` characters starting at `pos`, the cut
/// `c` falls at the last blank line wholly inside the window; failing
/// one, at the last line break; failing both, at the hard limit.
pub open spec fn preferred_cut(text: Seq<char>, pos: int, c: int, max_len: int) -> bool {
    let e = pos + max_len;
    if exists|j: int| pos <= j && j + 1 < e && #[trigger] para_break_at(text, j) {
        &&& pos <= c && c + 1 < e
        &&& para_break_at(text, c)
        &&& forall|j: int| c < j && j + 1 < e ==> !(#[trigger] para_break_at(text, j))
    } else if exists|j: int| pos <= j < e && (#[trigger] text[j]) == '\n' {
        &&& pos <= c < e
        &&& text[c] == '\n'
        &&& forall|j: int| c < j < e ==> (#[trigger] text[j]) != '\n'
    } else {
        c == e
    }
}

/// `parts` covers `text` from `pos` on, with `gaps[i]` newlines dropped
/// after part `i`: each part is the next literal segment of `text`, parts
/// are separated only by maximal runs of dropped newlines, every part
/// fits in `max_len`, every mid-text cut is the preferred one for its
/// window, and a cut away from a newline run happens only at the hard
/// limit or at the end of the text.  After the last part only dropped
/// newlines may remain.
pub open spec fn chunks_with(
    parts: Seq<Seq<char>>,
    gaps: Seq<int>,
    text: Seq<char>,
    pos: int,
    max_len: int,
) -> bool
    decreases parts.len(),
{
    if parts.len() == 0 {
        gaps.len() == 0 && all_newlines_from(text, pos)
    } else {
        let p = parts[0];
        let k = gaps[0];
        &&& gaps.len() == parts.len()
        &&& 0 <= pos
        &&& 0 <= k
        &&& pos + p.len() + k <= text.len()
        &&& text.subrange(pos, pos + p.len()) == p
        &&& p.len() <= max_len
        &&& (forall|j: int| pos + p.len() <= j < pos + p.len() + k ==> text[j] == '\n')
        &&& (k == 0 ==> p.len() == max_len || pos + p.len() == text.len())
        &&& (pos + p.len() + k == text.len() || text[pos + p.len() + k] != '\n')
        &&& (pos + max_len < text.len() ==> preferred_cut(text, pos, pos + p.len(), max_len))
        &&& chunks_with(parts.drop_first(), gaps.drop_first(), text, pos + p.len() + k, max_len)
    }
}

/// `parts` is a chunking of the whole of `text`: for some sequence of
/// dropped newline runs, concatenating the parts with those runs restored
/// reconstructs `text` exactly.
pub open spec fn splits_to(parts: Seq<Seq<char>>, text: Seq<char>, max_len: int) -> bool {
    exists|gaps: Seq<int>| #[trigger] chunks_with(parts, gaps, text, 0, max_len)
}

proof fn lemma_chunks_cons(
    parts: Seq<Seq<char>>,
    gaps: Seq<int>,
    text: Seq<char>,
    pos: int,
    max_len: int,
)
    requires
        parts.len() > 0,
        gaps.len() == parts.len(),
        0 <= pos,
        0 <= gaps[0],
        pos + parts[0].len() + gaps[0] <= text.len(),
        text.subrange(pos, pos + parts[0].len()) == parts[0],
        parts[0].len() <= max_len,
        forall|j: int| pos + parts[0].len() <= j < pos + parts[0].len() + gaps[0] ==> text[j]
            == '\n',
        gaps[0] == 0 ==> parts[0].len() == max_len || pos + parts[0].len() == text.len(),
        pos + parts[0].len() + gaps[0] == text.len() || text[pos + parts[0].len() + gaps[0]]
            != '\n',
        pos + max_len < text.len() ==> preferred_cut(text, pos, pos + parts[0].len(), max_len),
        chunks_with(parts.drop_first(), gaps.drop_first(), text, pos + parts[0].len() + gaps[0],
        max_len),
    ensures
        chunks_with(parts, gaps, text, pos, max_len),
{
}

/// Split `text` into an ordered, non-empty sequence of parts of at most
/// `max_len` characters each.  A text that already fits is returned as
/// the single part, unchanged.
pub fn split_message(text: &str, max_len: usize) -> (parts: Vec<String>)
    requires
        max_len >= 1,
    ensures
        parts@.len() >= 1,
        splits_to(parts.deep_view(), text@, max_len as int),
        forall|i: int| 0 <= i < parts@.len() ==> #[trigger] parts.deep_view()[i].len() <= max_len,
        text@.len() <= max_len ==> parts.deep_view() =~= seq![text@],
{
    let n = text.unicode_len();
    let mut parts: Vec<String> = Vec::new();
    if n <= max_len {
        parts.push(text.to_owned());
        proof {
            assert(text@.subrange(0, text@.len() as int) =~= text@);
            assert(parts.deep_view() =~= seq![text@]);
            let gaps = seq![0int];
            assert(gaps.drop_first() =~= Seq::<int>::empty());
            assert(chunks_with(parts.deep_view().drop_first(), gaps.drop_first(), text@,
                text@.len() as int, max_len as int));
            lemma_chunks_cons(parts.deep_view(), gaps, text@, 0, max_len as int);
        }
        return parts;
    }
    let mut start: usize = 0;
    let ghost mut gaps: Seq<int> = Seq::empty();
    proof {
        assert(parts.deep_view() =~= Seq::<Seq<char>>::empty());
    }
    while n - start > max_len
        invariant
            n == text@.len(),
            max_len >= 1,
            n > max_len,
            start <= n,
            parts@.len() >= 1 || start == 0,
            forall|i: int|
                0 <= i < parts@.len() ==> #[trigger] parts.deep_view()[i].len() <= max_len,
            forall|rest: Seq<Seq<char>>, grest: Seq<int>|
                chunks_with(rest, grest, text@, start as int, max_len as int)
                    ==> #[trigger] chunks_with(
                    parts.deep_view() + rest,
                    gaps + grest,
                    text@,
                    0,
                    max_len as int,
                ),
        decreases n - start,
    {
        let end = start + max_len;
        // Prefer the last blank-line boundary in the window, then the last
        // line boundary, then the hard limit.
        let mut para: usize = 0;
        let mut has_para = false;
        let mut line: usize = 0;
        let mut has_line = false;
        let mut i = start;
        while i < end
            invariant
                n == text@.len(),
                start <= i <= end <= n,
                has_para ==> start <= para && para + 1 < end && para_break_at(text@, para as int),
                has_para ==> forall|j: int|
                    para < j && j + 1 < end && j < i ==> !(#[trigger] para_break_at(text@, j)),
                !has_para ==> forall|j: int|
                    start <= j && j + 1 < end && j < i ==> !(#[trigger] para_break_at(text@, j)),
                has_line ==> start <= line < end && text@[line as int] == '\n',
                has_line ==> forall|j: int| line < j < i ==> (#[trigger] text@[j]) != '\n',
                !has_line ==> forall|j: int| start <= j < i ==> (#[trigger] text@[j]) != '\n',
            decreases end - i,
        {
            if text.get_char(i) == '\n' {
                line = i;
                has_line = true;
                if i + 1 < end && text.get_char(i + 1) == '\n' {
                    para = i;
                    has_para = true;
                }
            }
            i += 1;
        }
        let found = has_para || has_line;
        let cut: usize = if has_para {
            para
        } else if has_line {
            line
        } else {
            end
        };
        let part = text.substring_char(start, cut).to_owned();
        let ghost old_parts = parts.deep_view();
        let ghost old_gaps = gaps;
        parts.push(part);
        let mut p = cut;
        while p < n && text.get_char(p) == '\n'
            invariant
                n == text@.len(),
                cut <= p <= n,
                forall|j: int| cut <= j < p ==> text@[j] == '\n',
            decreases n - p,
        {
            p += 1;
        }
        proof {
            gaps = old_gaps.push((p - cut) as int);
            assert(p == n || text@[p as int] != '\n');
            assert(p > start) by {
                if p == start {
                    assert(cut == start);
                    assert(found);
                    assert(text@[cut as int] == '\n');
                }
            }
            assert(parts.deep_view() =~= old_parts.push(part@));
            assert(start + part@.len() == cut as int);
            assert(p == cut ==> part@.len() == max_len || cut == n) by {
                if p == cut && found {
                    assert(text@[cut as int] == '\n');
                    assert(cut == n || text@[p as int] != '\n');
                }
            }
            assert(preferred_cut(text@, start as int, cut as int, max_len as int)) by {
                if has_para {
                    assert(para_break_at(text@, para as int));
                } else if has_line {
                    assert(!(exists|j: int|
                        start <= j && j + 1 < end && #[trigger] para_break_at(text@, j)));
                } else {
                    assert(!(exists|j: int|
                        start <= j && j + 1 < end && #[trigger] para_break_at(text@, j)));
                    assert(!(exists|j: int|
                        start <= j < end && (#[trigger] text@[j]) == '\n'));
                }
            }
            assert forall|rest: Seq<Seq<char>>, grest: Seq<int>|
                chunks_with(rest, grest, text@, p as int, max_len as int) implies #[trigger] chunks_with(
                parts.deep_view() + rest,
                gaps + grest,
                text@,
                0,
                max_len as int,
            ) by {
                let step = seq![part@] + rest;
                let gstep = seq![(p - cut) as int] + grest;
                assert(step.drop_first() =~= rest);
                assert(gstep.drop_first() =~= grest);
                lemma_chunks_cons(step, gstep, text@, start as int, max_len as int);
                assert(old_parts + step =~= parts.deep_view() + rest);
                assert(old_gaps + gstep =~= gaps + grest);
            }
        }
        start = p;
    }
    if start < n {
        let last = text.substring_char(start, n).to_owned();
        let ghost old_parts = parts.deep_view();
        parts.push(last);
        proof {
            let step = seq![last@];
            let gstep = seq![0int];
            assert(parts.deep_view() =~= old_parts.push(last@));
            assert(step.drop_first() =~= Seq::<Seq<char>>::empty());
            assert(gstep.drop_first() =~= Seq::<int>::empty());
            assert(start + last@.len() == n as int);
            assert(chunks_with(step.drop_first(), gstep.drop_first(), text@, n as int,
                max_len as int));
            lemma_chunks_cons(step, gstep, text@, start as int, max_len as int);
            assert(old_parts + step =~= parts.deep_view());
            let whole = gaps + gstep;
            assert(chunks_with(parts.deep_view(), whole, text@, 0, max_len as int));
        }
    } else {
        proof {
            assert(chunks_with(Seq::<Seq<char>>::empty(), Seq::<int>::empty(), text@, start as int,
                max_len as int));
            assert(parts.deep_view() + Seq::<Seq<char>>::empty() =~= parts.deep_view());
            assert(gaps + Seq::<int>::empty() =~= gaps);
            assert(chunks_with(parts.deep_view(), gaps, text@, 0, max_len as int));
        }
    }
    parts
}

/// Shorten `s` to at most `max` characters, marking elision with an
/// ellipsis; a short `s` is returned unchanged.
pub fn truncate(s: &str, max: usize) -> (r: String)
    ensures
        r@ == if s@.len() <= max {
            s@
        } else {
            s@.take(max as int) + "..."@
        },
{
    if s.unicode_len() <= max {
        s.to_owned()
    } else {
        proof {
            assert(s@.subrange(0, max as int) =~= s@.take(max as int));
        }
        s.substring_char(0, max).to_owned().concat("...")
    }
}

} // verus!
