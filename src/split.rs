use vstd::prelude::*;
use crate::error::ReporterError;

verus! {

/// The lines of a text: the segments between newline characters, in order.
/// A text with `k` newlines has `k + 1` lines; the empty text has one empty line.
pub open spec fn lines_of(s: Seq<char>) -> Seq<Seq<char>>
    decreases s.len(),
{
    if s.len() == 0 {
        seq![Seq::empty()]
    } else {
        let ls = lines_of(s.drop_last());
        if s.last() == '\n' {
            ls.push(Seq::empty())
        } else {
            ls.update(ls.len() - 1, ls.last().push(s.last()))
        }
    }
}

/// Lines put back together with a newline between each two neighbours.
pub open spec fn join_lines(ls: Seq<Seq<char>>) -> Seq<char>
    decreases ls.len(),
{
    if ls.len() == 0 {
        Seq::empty()
    } else if ls.len() == 1 {
        ls[0]
    } else {
        join_lines(ls.drop_last()) + seq!['\n'] + ls.last()
    }
}

pub proof fn lemma_lines_of_nonempty(s: Seq<char>)
    ensures
        lines_of(s).len() >= 1,
    decreases s.len(),
{
    if s.len() > 0 {
        lemma_lines_of_nonempty(s.drop_last());
    }
}

proof fn lemma_join_push_char(xs: Seq<Seq<char>>, y: Seq<char>, c: char)
    ensures
        join_lines(xs.push(y.push(c))) == join_lines(xs.push(y)).push(c),
{
    assert(xs.push(y.push(c)).drop_last() =~= xs);
    assert(xs.push(y).drop_last() =~= xs);
    if xs.len() == 0 {
    } else {
        assert((join_lines(xs) + seq!['\n'] + y).push(c) =~= join_lines(xs) + seq!['\n'] + y.push(c));
    }
}

/// Joining the lines of a text gives the text back.
pub proof fn lemma_join_lines_of(s: Seq<char>)
    ensures
        join_lines(lines_of(s)) == s,
    decreases s.len(),
{
    if s.len() == 0 {
    } else {
        let p = s.drop_last();
        let ls = lines_of(p);
        lemma_join_lines_of(p);
        lemma_lines_of_nonempty(p);
        if s.last() == '\n' {
            assert(ls.push(Seq::empty()).drop_last() =~= ls);
            assert(join_lines(ls) + seq!['\n'] + Seq::<char>::empty() =~= s);
        } else {
            let front = ls.drop_last();
            assert(ls =~= front.push(ls.last()));
            assert(ls.update(ls.len() - 1, ls.last().push(s.last())) =~= front.push(ls.last().push(s.last())));
            lemma_join_push_char(front, ls.last(), s.last());
            assert(p.push(s.last()) =~= s);
        }
    }
}


/// The greedy packing of lines into fragments, as far as the lines go:
/// the fragments already closed, and the fragment still open.
/// A line joins the open fragment (after a newline) while the result stays
/// shorter than `m`; otherwise the open fragment is closed and the line opens the next.
pub open spec fn pack_state(ls: Seq<Seq<char>>, m: nat) -> (Seq<Seq<char>>, Seq<char>)
    decreases ls.len(),
{
    if ls.len() <= 1 {
        (Seq::empty(), if ls.len() == 1 { ls[0] } else { Seq::empty() })
    } else {
        let (done, cur) = pack_state(ls.drop_last(), m);
        let l = ls.last();
        if cur.len() + 1 + l.len() >= m {
            (done.push(cur), l)
        } else {
            (done, cur + seq!['\n'] + l)
        }
    }
}

/// All fragments of the greedy packing, the open one closed at the end.
pub open spec fn pack(ls: Seq<Seq<char>>, m: nat) -> Seq<Seq<char>> {
    pack_state(ls, m).0.push(pack_state(ls, m).1)
}

/// Whether some line of `s` is `m` characters long or longer.
pub open spec fn has_long_line(s: Seq<char>, m: nat) -> bool {
    exists|k: int| 0 <= k < lines_of(s).len() && #[trigger] lines_of(s)[k].len() >= m
}

/// What splitting `s` into fragments shorter than `m` gives: `None` when a line
/// cannot fit in one fragment, no fragment for the empty text, and otherwise
/// the greedy packing of its lines.
pub open spec fn split_spec(s: Seq<char>, m: nat) -> Option<Seq<Seq<char>>> {
    if has_long_line(s, m) {
        None
    } else if s.len() == 0 {
        Some(Seq::empty())
    } else {
        Some(pack(lines_of(s), m))
    }
}

proof fn lemma_join_push_tail(xs: Seq<Seq<char>>, y: Seq<char>, l: Seq<char>)
    ensures
        join_lines(xs.push(y + seq!['\n'] + l)) == join_lines(xs.push(y)) + seq!['\n'] + l,
{
    assert(xs.push(y + seq!['\n'] + l).drop_last() =~= xs);
    assert(xs.push(y).drop_last() =~= xs);
    if xs.len() > 0 {
        assert(join_lines(xs) + seq!['\n'] + (y + seq!['\n'] + l) =~= join_lines(xs) + seq!['\n']
            + y + seq!['\n'] + l);
    }
}

proof fn lemma_pack_state(ls: Seq<Seq<char>>, m: nat)
    requires
        ls.len() >= 1,
        forall|k: int| 0 <= k < ls.len() ==> #[trigger] ls[k].len() < m,
    ensures
        join_lines(pack_state(ls, m).0.push(pack_state(ls, m).1)) == join_lines(ls),
        pack_state(ls, m).1.len() < m,
        forall|k: int|
            0 <= k < pack_state(ls, m).0.len() ==> #[trigger] pack_state(ls, m).0[k].len() < m,
    decreases ls.len(),
{
    if ls.len() == 1 {
    } else {
        let front = ls.drop_last();
        lemma_pack_state(front, m);
        let (done, cur) = pack_state(front, m);
        let l = ls.last();
        assert(l.len() < m) by {
            assert(l == ls[ls.len() - 1]);
        }
        if cur.len() + 1 + l.len() >= m {
            assert(done.push(cur).push(l).drop_last() =~= done.push(cur));
        } else {
            lemma_join_push_tail(done, cur, l);
        }
    }
}

/// When every line of `s` is shorter than `m`, the fragments of `s`, joined
/// with a newline between neighbours, give `s` back, and each is shorter than `m`;
/// a non-empty text gives at least one fragment.
pub proof fn lemma_split_reconstructs(s: Seq<char>, m: nat)
    requires
        !has_long_line(s, m),
    ensures
        split_spec(s, m) is Some,
        s.len() > 0 ==> split_spec(s, m)->0.len() > 0,
        join_lines(split_spec(s, m)->0) == s,
        forall|k: int|
            0 <= k < split_spec(s, m)->0.len() ==> #[trigger] split_spec(s, m)->0[k].len() < m,
{
    if s.len() > 0 {
        let ls = lines_of(s);
        lemma_lines_of_nonempty(s);
        assert forall|k: int| 0 <= k < ls.len() implies #[trigger] ls[k].len() < m by {
            if ls[k].len() >= m {
                assert(has_long_line(s, m));
            }
        }
        lemma_pack_state(ls, m);
        lemma_join_lines_of(s);
        let f = pack(ls, m);
        assert forall|k: int| 0 <= k < f.len() implies #[trigger] f[k].len() < m by {
            if k < f.len() - 1 {
                assert(f[k] == pack_state(ls, m).0[k]);
            }
        }
    }
}


/// Where line `k` starts, given the positions of the newlines.
pub open spec fn line_start(breaks: Seq<usize>, k: int) -> int {
    if k == 0 { 0 } else { breaks[k - 1] + 1 }
}

/// Where line `k` ends, given the positions of the newlines and the text's length.
pub open spec fn line_end(breaks: Seq<usize>, k: int, n: int) -> int {
    if k == breaks.len() { n } else { breaks[k] as int }
}

/// `breaks` are the newline positions of `s`, and so mark out the lines of `s`.
pub open spec fn marks_lines(s: Seq<char>, breaks: Seq<usize>) -> bool {
    &&& lines_of(s).len() == breaks.len() + 1
    &&& breaks.len() <= s.len()
    &&& forall|j: int| 0 <= j < breaks.len() ==> #[trigger] breaks[j] < s.len() && s[breaks[j] as int] == '\n'
    &&& forall|j: int, k: int| 0 <= j < k < breaks.len() ==> breaks[j] < breaks[k]
    &&& forall|k: int| 0 <= k <= breaks.len() ==>
        0 <= line_start(breaks, k) <= line_end(breaks, k, s.len() as int) <= s.len()
        && #[trigger] lines_of(s)[k] == s.subrange(line_start(breaks, k), line_end(breaks, k, s.len() as int))
}

/// The positions of the newlines of `text`.
fn newline_positions(text: &str) -> (breaks: Vec<usize>)
    ensures
        marks_lines(text@, breaks@),
{
    let n = text.unicode_len();
    let mut breaks: Vec<usize> = Vec::new();
    let mut i: usize = 0;
    assert(text@.take(0) =~= Seq::<char>::empty());
    assert(lines_of(Seq::<char>::empty())[0] =~= Seq::<char>::empty().subrange(0, 0));
    for c in it: text.chars()
        invariant
            n == text@.len(),
            it.seq() == text@,
            i == it.index(),
            i <= n,
            breaks@.len() <= i,
            marks_lines(text@.take(i as int), breaks@),
    {
        let ghost p = text@.take(i as int);
        let ghost q = text@.take(i + 1);
        assert(q.drop_last() =~= p);
        assert(q.last() == c);
        let ghost ls = lines_of(p);
        let ghost old_breaks = breaks@;
        if c == '\n' {
            breaks.push(i);
            assert forall|k: int| 0 <= k <= breaks@.len() implies
                0 <= line_start(breaks@, k) <= line_end(breaks@, k, q.len() as int) <= q.len()
                && #[trigger] lines_of(q)[k] == q.subrange(line_start(breaks@, k), line_end(breaks@, k, q.len() as int)) by {
                if k < breaks@.len() {
                    assert(ls[k] == p.subrange(line_start(old_breaks, k), line_end(old_breaks, k, p.len() as int)));
                    assert(p.subrange(line_start(old_breaks, k), line_end(old_breaks, k, p.len() as int))
                        =~= q.subrange(line_start(breaks@, k), line_end(breaks@, k, q.len() as int)));
                } else {
                    assert(q.subrange(line_start(breaks@, k), line_end(breaks@, k, q.len() as int)) =~= Seq::<char>::empty());
                }
            }
        } else {
            assert forall|k: int| 0 <= k <= breaks@.len() implies
                0 <= line_start(breaks@, k) <= line_end(breaks@, k, q.len() as int) <= q.len()
                && #[trigger] lines_of(q)[k] == q.subrange(line_start(breaks@, k), line_end(breaks@, k, q.len() as int)) by {
                assert(ls[k] == p.subrange(line_start(old_breaks, k), line_end(old_breaks, k, p.len() as int)));
                if k < breaks@.len() {
                    assert(p.subrange(line_start(old_breaks, k), line_end(old_breaks, k, p.len() as int))
                        =~= q.subrange(line_start(breaks@, k), line_end(breaks@, k, q.len() as int)));
                } else {
                    assert(p.subrange(line_start(old_breaks, k), line_end(old_breaks, k, p.len() as int)).push(c)
                        =~= q.subrange(line_start(breaks@, k), line_end(breaks@, k, q.len() as int)));
                }
            }
        }
        i = i + 1;
    }
    assert(text@.take(i as int) =~= text@);
    breaks
}


/// The contents of a list of strings.
pub open spec fn views(v: Seq<String>) -> Seq<Seq<char>> {
    v.map_values(|f: String| f@)
}

/// Splits `text` into fragments shorter than `max` characters each, packing
/// whole lines greedily in order. Fails when some line alone is `max`
/// characters long or longer; the empty text gives no fragment.
pub fn split_fragments(text: &str, max: usize) -> (r: Result<Vec<String>, ReporterError>)
    ensures
        r is Err <==> split_spec(text@, max as nat) is None,
        r matches Err(e) ==> e is MsgSplitFail,
        r matches Ok(v) ==> split_spec(text@, max as nat) == Some(views(v@)),
{
    let n = text.unicode_len();
    let breaks = newline_positions(text);
    let ghost ls = lines_of(text@);
    let ghost m = max as nat;
    let e0 = if breaks.len() == 0 { n } else { breaks[0] };
    assert(ls[0] == text@.subrange(0, e0 as int));
    if e0 >= max {
        assert(has_long_line(text@, m));
        return Err(ReporterError::MsgSplitFail);
    }
    let mut done: Vec<String> = Vec::new();
    let mut cs: usize = 0;
    let mut ce: usize = e0;
    let mut j: usize = 0;
    assert(ls.take(1) =~= seq![ls[0]]);
    assert(views(done@) =~= Seq::<Seq<char>>::empty());
    while j < breaks.len()
        invariant
            n == text@.len(),
            ls == lines_of(text@),
            m == max as nat,
            marks_lines(text@, breaks@),
            j <= breaks.len(),
            forall|i: int| 0 <= i <= j ==> #[trigger] ls[i].len() < m,
            views(done@) == pack_state(ls.take(j + 1), m).0,
            cs <= ce <= n,
            text@.subrange(cs as int, ce as int) == pack_state(ls.take(j + 1), m).1,
            ce == line_end(breaks@, j as int, n as int),
        decreases breaks.len() - j,
    {
        let k: usize = j + 1;
        let s = breaks[j] + 1;
        let e = if k == breaks.len() { n } else { breaks[k] };
        assert(ls[k as int] == text@.subrange(s as int, e as int));
        if e - s >= max {
            assert(has_long_line(text@, m));
            return Err(ReporterError::MsgSplitFail);
        }
        let ghost prev = pack_state(ls.take(k as int), m);
        assert(ls.take(k + 1).drop_last() =~= ls.take(k as int));
        assert(ls.take(k + 1).last() == ls[k as int]);
        if e - cs >= max {
            let piece = text.substring_char(cs, ce).to_owned();
            done.push(piece);
            assert(views(done@) =~= prev.0.push(prev.1));
            cs = s;
            ce = e;
        } else {
            assert(text@.subrange(cs as int, e as int) =~= text@.subrange(cs as int, ce as int)
                + seq!['\n'] + text@.subrange(s as int, e as int));
            ce = e;
        }
        j = k;
    }
    assert(ls.take(j + 1) =~= ls);
    assert(!has_long_line(text@, m));
    if n == 0 {
        return Ok(Vec::new());
    }
    let last = text.substring_char(cs, ce).to_owned();
    let ghost st = pack_state(ls, m);
    done.push(last);
    assert(views(done@) =~= st.0.push(st.1));
    Ok(done)
}


/// The fragment size that the chat service accepts by default, in characters.
pub const DEFAULT_FRAGMENT_SIZE: usize = 2000;

/// How a report is cut into messages.
#[derive(Debug, Clone, Copy, PartialEq, Eq)]
pub enum FragmentMode {
    /// The whole report goes out as one message, whatever its size.
    Single,
    /// The report is split into fragments shorter than `max` characters.
    Split { max: usize },
}

/// The fragments of `s` under `mode`; `None` when splitting fails.
pub open spec fn fragments_spec(s: Seq<char>, mode: FragmentMode) -> Option<Seq<Seq<char>>> {
    match mode {
        FragmentMode::Single => Some(seq![s]),
        FragmentMode::Split { max } => split_spec(s, max as nat),
    }
}

/// Cuts `text` into the messages to send under `mode`.
pub fn fragments(text: &str, mode: FragmentMode) -> (r: Result<Vec<String>, ReporterError>)
    ensures
        r is Err <==> fragments_spec(text@, mode) is None,
        r matches Err(e) ==> e is MsgSplitFail,
        r matches Ok(v) ==> fragments_spec(text@, mode) == Some(views(v@)),
{
    match mode {
        FragmentMode::Single => {
            let v = vec![text.to_owned()];
            assert(views(v@) =~= seq![text@]);
            Ok(v)
        },
        FragmentMode::Split { max } => split_fragments(text, max),
    }
}

/// With splitting off, any text is sent as exactly one fragment equal to it.
pub proof fn lemma_single_mode_one_fragment(s: Seq<char>)
    ensures
        fragments_spec(s, FragmentMode::Single) == Some(seq![s]),
{
}

/// A text with a line of `m` characters or more cannot be split: no fragment results.
pub proof fn lemma_long_line_fails(s: Seq<char>, m: nat, k: int)
    requires
        0 <= k < lines_of(s).len(),
        lines_of(s)[k].len() >= m,
    ensures
        split_spec(s, m) is None,
{
    assert(has_long_line(s, m));
}

} // verus!
