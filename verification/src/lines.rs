use vstd::prelude::*;

verus! {

/// The record delimiter: a newline byte.
pub const NL: u8 = 10;

/// The unterminated bytes after the last newline of `s` (empty when
/// `s` is empty or ends with a newline).
pub open spec fn tail_fragment(s: Seq<u8>) -> Seq<u8>
    decreases s.len(),
{
    if s.len() == 0 {
        Seq::empty()
    } else if s.last() == NL {
        Seq::empty()
    } else {
        tail_fragment(s.drop_last()).push(s.last())
    }
}

/// The newline-terminated records of `s`, in order, each with its
/// newline excluded. An unterminated trailing fragment contributes
/// no record.
pub open spec fn complete_lines(s: Seq<u8>) -> Seq<Seq<u8>>
    decreases s.len(),
{
    if s.len() == 0 {
        Seq::empty()
    } else if s.last() == NL {
        complete_lines(s.drop_last()).push(tail_fragment(s.drop_last()))
    } else {
        complete_lines(s.drop_last())
    }
}

/// Each record followed by one newline, concatenated in order.
pub open spec fn join_lines(lines: Seq<Seq<u8>>) -> Seq<u8>
    decreases lines.len(),
{
    if lines.len() == 0 {
        Seq::empty()
    } else {
        join_lines(lines.drop_last()) + lines.last() + seq![NL]
    }
}

/// The mathematical contents of a vector of byte records.
pub open spec fn views_of(v: Seq<Vec<u8>>) -> Seq<Seq<u8>> {
    v.map_values(|x: Vec<u8>| x@)
}

/// Splits `bytes` into its newline-terminated records, dropping the
/// unterminated trailing fragment, if any.
#[verifier::loop_isolation(false)]
pub fn split_complete_lines(bytes: &Vec<u8>) -> (lines: Vec<Vec<u8>>)
    ensures
        views_of(lines@) == complete_lines(bytes@),
{
    let mut lines: Vec<Vec<u8>> = Vec::new();
    let mut frag: Vec<u8> = Vec::new();
    let mut i: usize = 0;
    while i < bytes.len()
        invariant
            i <= bytes@.len(),
            views_of(lines@) == complete_lines(bytes@.take(i as int)),
            frag@ == tail_fragment(bytes@.take(i as int)),
        decreases bytes@.len() - i,
    {
        proof {
            assert(bytes@.take(i + 1).drop_last() =~= bytes@.take(i as int));
            assert(bytes@.take(i + 1).last() == bytes@[i as int]);
        }
        let b = bytes[i];
        if b == NL {
            let ghost prev = lines@;
            lines.push(frag);
            frag = Vec::new();
            proof {
                assert(views_of(lines@) =~= views_of(prev).push(tail_fragment(bytes@.take(
                    i as int))));
            }
        } else {
            frag.push(b);
        }
        i = i + 1;
    }
    proof {
        assert(bytes@.take(bytes@.len() as int) =~= bytes@);
    }
    lines
}

/// Splitting accounts for every byte: the records, each rejoined with
/// its newline, followed by the dropped fragment, rebuild the stream.
pub proof fn lemma_lines_decompose(s: Seq<u8>)
    ensures
        join_lines(complete_lines(s)) + tail_fragment(s) == s,
    decreases s.len(),
{
    if s.len() == 0 {
        assert(join_lines(complete_lines(s)) + tail_fragment(s) =~= s);
    } else if s.last() == NL {
        lemma_lines_decompose(s.drop_last());
        let d = s.drop_last();
        assert(complete_lines(s).drop_last() =~= complete_lines(d));
        assert(join_lines(complete_lines(s)) == join_lines(complete_lines(d)) + tail_fragment(d)
            + seq![NL]);
        assert(join_lines(complete_lines(d)) + tail_fragment(d) + seq![NL] =~= d.push(NL));
        assert(d.push(NL) =~= s);
        assert(join_lines(complete_lines(s)) + tail_fragment(s) =~= s);
    } else {
        lemma_lines_decompose(s.drop_last());
        let d = s.drop_last();
        assert(join_lines(complete_lines(s)) + tail_fragment(s) =~= (join_lines(complete_lines(d))
            + tail_fragment(d)).push(s.last()));
        assert((join_lines(complete_lines(d)) + tail_fragment(d)).push(s.last()) =~= s);
    }
}

/// A stream that is empty or ends with a newline is recovered in
/// full: no byte is lost to the dropped fragment.
pub proof fn lemma_no_loss(s: Seq<u8>)
    requires
        s.len() == 0 || s.last() == NL,
    ensures
        join_lines(complete_lines(s)) == s,
{
    lemma_lines_decompose(s);
    assert(tail_fragment(s) =~= Seq::<u8>::empty());
    assert(join_lines(complete_lines(s)) =~= join_lines(complete_lines(s)) + Seq::<u8>::empty());
}

/// A longer stream never yields fewer records, and never changes the
/// records its shorter prefix already yielded.
pub proof fn lemma_lines_monotone(p: Seq<u8>, q: Seq<u8>)
    requires
        p.is_prefix_of(q),
    ensures
        complete_lines(p).is_prefix_of(complete_lines(q)),
    decreases q.len(),
{
    if p.len() == q.len() {
        assert(p =~= q);
    } else {
        assert(p.is_prefix_of(q.drop_last()));
        lemma_lines_monotone(p, q.drop_last());
        assert(complete_lines(q.drop_last()).is_prefix_of(complete_lines(q)));
    }
}

/// Bytes that never reach a newline change no record: the splitter
/// fabricates nothing out of an unterminated trailing fragment.
pub proof fn lemma_fragment_dropped(s: Seq<u8>, t: Seq<u8>)
    requires
        forall|i: int| 0 <= i < t.len() ==> t[i] != NL,
    ensures
        complete_lines(s + t) == complete_lines(s),
    decreases t.len(),
{
    if t.len() == 0 {
        assert(s + t =~= s);
    } else {
        assert((s + t).drop_last() =~= s + t.drop_last());
        assert((s + t).last() == t.last());
        lemma_fragment_dropped(s, t.drop_last());
    }
}

} // verus!
