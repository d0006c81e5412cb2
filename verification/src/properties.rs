//! Proved laws of the tokenizer's transition function.
//!
//! Each lemma states a guarantee of [`crate::dataset::spec_next`], the exact
//! model of [`crate::dataset::DataSetReader::next`]: step lemmas here compose
//! over a run of calls, since each call is proved to follow `spec_next`.

use vstd::prelude::*;

use crate::dataset::{spec_next, DataTokenView, ReaderView};
use crate::decode::{spec_decode_header, spec_read_value, HeaderOutcome, ValueOutcome};
use crate::header::{DataElementHeader, Error, Tag, VR};

verus! {

/// The control states the machine can reach: it never both expects an item
/// header and owes a value, and a pending delimiter check never coexists
/// with an owed value. [`DataSetReader::new`](crate::dataset::DataSetReader)
/// establishes this and [`lemma_step_preserves_wf`] shows every step keeps
/// it.
pub open spec fn spec_wf(s: ReaderView) -> bool {
    &&& !(s.in_sequence && s.last_header is Some)
    &&& (s.delimiter_check_pending ==> s.last_header is None)
}

/// Every step preserves the reachable-state exclusion [`spec_wf`].
pub proof fn lemma_step_preserves_wf(s: ReaderView)
    requires
        spec_wf(s),
    ensures
        spec_wf(spec_next(s).0),
{
}

/// Fuse, terminal form: a terminated reader emits nothing and changes
/// nothing, so every call after the end of iteration returns `None`.
pub proof fn lemma_fused_step(s: ReaderView)
    requires
        s.hard_break,
    ensures
        spec_next(s).0 == s,
        spec_next(s).1 is None,
{
}

/// Fuse: any surfaced error terminates the reader, so the call after an
/// `Err` — and every call thereafter — returns `None`.
pub proof fn lemma_error_fuses(s: ReaderView)
    requires
        spec_next(s).1 matches Some(r) && r is Err,
    ensures
        spec_next(s).0.hard_break,
        spec_next(spec_next(s).0).1 is None,
{
    lemma_fused_step(spec_next(s).0);
}

/// Position monotonicity: a step never moves the parser backwards, so the
/// positions sampled between consecutive emissions never decrease.
pub proof fn lemma_position_monotonic(s: ReaderView)
    ensures
        s.pos <= spec_next(s).0.pos,
        spec_next(s).0.source == s.source,
{
}

/// Header before value, first half: a `PrimitiveValue` token is emitted only
/// from a state that owes a value, that is, one whose `last_header` is set.
pub proof fn lemma_value_needs_header(s: ReaderView)
    requires
        spec_next(s).1 matches Some(r) && r matches Ok(t) && t is PrimitiveValue,
    ensures
        s.last_header is Some,
        !s.in_sequence,
        !s.hard_break,
        spec_next(s).0.last_header is None,
{
}

/// Header before value, second half: a step starting without an owed value
/// leaves `last_header` set only by emitting that very header as an
/// `ElementHeader` token. With [`lemma_value_needs_header`], every
/// `PrimitiveValue` in a stream is immediately preceded by the
/// `ElementHeader` of the same element.
pub proof fn lemma_last_header_set_by_header_token(s: ReaderView, h: DataElementHeader)
    requires
        s.last_header is None,
        spec_next(s).0.last_header == Some(h),
    ensures
        spec_next(s).1 == Some(Ok::<DataTokenView, Error>(DataTokenView::ElementHeader(h))),
{
}

/// The stack-height change that a token announces: opening tokens push one
/// scope, closing tokens pop one, headers and values leave the stack alone.
pub open spec fn spec_nesting_delta(t: DataTokenView) -> int {
    match t {
        DataTokenView::SequenceStart { tag, len } => 1,
        DataTokenView::ItemStart { len } => 1,
        DataTokenView::SequenceEnd => -1,
        DataTokenView::ItemEnd => -1,
        _ => 0,
    }
}

/// Whether the step from `s` would take the recovery path for an item-end
/// tag found at element-header position (produced by some encoders when
/// undefined-length items are closed outside the item-header path): that
/// path re-enters the enclosing sequence without popping the delimiter
/// stack, and is the one emission whose token does not track the stack.
pub open spec fn spec_is_item_end_recovery(s: ReaderView) -> bool {
    &&& !s.in_sequence
    &&& s.last_header is None
    &&& match spec_decode_header(s.source, s.pos) {
        HeaderOutcome::Decoded { header, end } => header.vr != VR::SQ && header.tag == Tag(
            0xFFFE,
            0xE00D,
        ),
        _ => false,
    }
}

/// Balanced nesting, step form: apart from the item-end recovery path, each
/// successfully emitted token changes the height of the delimiter stack by
/// exactly its nesting delta. Over an error-free run that starts and ends
/// with an empty stack, the opening and closing tokens are therefore
/// balanced and correctly nested, each closing token closing the innermost
/// open scope.
pub proof fn lemma_nesting_depth_tracks_stack(s: ReaderView, t: DataTokenView)
    requires
        s.in_sequence ==> s.seq_delimiters.len() > 0,
        !spec_is_item_end_recovery(s),
        spec_next(s).1 == Some(Ok::<DataTokenView, Error>(t)),
    ensures
        spec_next(s).0.seq_delimiters.len() == s.seq_delimiters.len() + spec_nesting_delta(t),
{
}

/// The net nesting announced by the outputs of steps `0..n` of a run from
/// `s`: the sum of the nesting deltas of the emitted tokens.
pub open spec fn spec_net_nesting(s: ReaderView, n: nat) -> int
    decreases n,
{
    if n == 0 {
        0
    } else {
        spec_net_nesting(s, (n - 1) as nat) + match spec_run_out(s, (n - 1) as nat) {
            Some(r) => match r {
                Ok(t) => spec_nesting_delta(t),
                Err(e) => 0,
            },
            None => 0,
        }
    }
}

/// Balanced nesting, run form: along a run in which every expected item
/// header finds an open scope and no step takes the item-end recovery path,
/// the height of the delimiter stack tracks the net nesting of the emitted
/// tokens exactly. Applied to every prefix, the net nesting never drops
/// below minus the starting height; a run that starts and ends with an
/// empty stack therefore emits balanced, correctly nested opening and
/// closing tokens, each closing token closing the innermost open scope.
pub proof fn lemma_run_nesting(s: ReaderView, n: nat)
    requires
        forall|i: nat|
            #![trigger spec_run(s, i)]
            i < n ==> (spec_run(s, i).in_sequence ==> spec_run(s, i).seq_delimiters.len() > 0),
        forall|i: nat| #![trigger spec_run(s, i)] i < n ==> !spec_is_item_end_recovery(
            spec_run(s, i),
        ),
    ensures
        spec_run(s, n).seq_delimiters.len() == s.seq_delimiters.len() + spec_net_nesting(s, n),
    decreases n,
{
    if n > 0 {
        lemma_run_nesting(s, (n - 1) as nat);
        let prev = spec_run(s, (n - 1) as nat);
        match spec_run_out(s, (n - 1) as nat) {
            Some(r) => match r {
                Ok(t) => lemma_nesting_depth_tracks_stack(prev, t),
                Err(e) => {
                    // an error fuses the reader and leaves the stack alone
                },
            },
            None => {
                // the end of iteration leaves the stack alone
            },
        }
    }
}

/// Explicit-length closure, terminal form: once every scope has been closed
/// and the input is exhausted exactly, the next step terminates the
/// iteration gracefully: it emits `None` and fuses the reader, consuming
/// nothing.
pub proof fn lemma_exhausted_stream_terminates(s: ReaderView)
    requires
        !s.hard_break,
        !s.in_sequence,
        s.last_header is None,
        s.delimiter_check_pending ==> s.seq_delimiters.len() == 0,
        s.pos == s.source.len(),
    ensures
        spec_next(s).0.hard_break,
        spec_next(s).1 is None,
        spec_next(s).0.pos == s.pos,
{
}

/// The state after `n` steps from `s`.
pub open spec fn spec_run(s: ReaderView, n: nat) -> ReaderView
    decreases n,
{
    if n == 0 {
        s
    } else {
        spec_next(spec_run(s, (n - 1) as nat)).0
    }
}

/// The output of step `i` of a run from `s`: what the `i + 1`-th call to
/// `next` returns.
pub open spec fn spec_run_out(s: ReaderView, i: nat) -> Option<Result<DataTokenView, Error>> {
    spec_next(spec_run(s, i)).1
}

/// Fuse, run form: a terminated reader stays terminated, so every call after
/// the end of iteration — in particular after a surfaced error — returns
/// `None`.
pub proof fn lemma_run_fused(s: ReaderView, n: nat)
    requires
        s.hard_break,
    ensures
        spec_run(s, n) == s,
        spec_run_out(s, n) is None,
    decreases n,
{
    lemma_fused_step(s);
    if n > 0 {
        lemma_run_fused(s, (n - 1) as nat);
    }
}

/// Position monotonicity, run form: over any number of steps the parser
/// position never decreases and the source never changes, so the positions
/// sampled between consecutive emissions are non-decreasing.
pub proof fn lemma_run_position_monotonic(s: ReaderView, n: nat)
    ensures
        s.pos <= spec_run(s, n).pos,
        spec_run(s, n).source == s.source,
    decreases n,
{
    if n > 0 {
        lemma_run_position_monotonic(s, (n - 1) as nat);
        lemma_position_monotonic(spec_run(s, (n - 1) as nat));
    }
}

/// The reachable-state exclusion [`spec_wf`] holds along whole runs.
pub proof fn lemma_run_preserves_wf(s: ReaderView, n: nat)
    requires
        spec_wf(s),
    ensures
        spec_wf(spec_run(s, n)),
    decreases n,
{
    if n > 0 {
        lemma_run_preserves_wf(s, (n - 1) as nat);
        lemma_step_preserves_wf(spec_run(s, (n - 1) as nat));
    }
}

/// Header before value, run form: in a run from a well-formed state that
/// owes no value — such as a fresh reader — whenever step `i` emits a
/// `PrimitiveValue`, the step immediately before it emitted the
/// `ElementHeader` of the very element whose value is read at step `i`.
pub proof fn lemma_run_header_before_value(s: ReaderView, i: nat)
    requires
        spec_wf(s),
        s.last_header is None,
        spec_run_out(s, i) matches Some(r) && r matches Ok(t) && t is PrimitiveValue,
    ensures
        i > 0,
        spec_run_out(s, (i - 1) as nat) == Some(Ok::<DataTokenView, Error>(
            DataTokenView::ElementHeader(spec_run(s, i).last_header->Some_0),
        )),
{
    lemma_value_needs_header(spec_run(s, i));
    assert(i > 0);
    let prev = spec_run(s, (i - 1) as nat);
    lemma_run_preserves_wf(s, (i - 1) as nat);
    assert(spec_run(s, i) == spec_next(prev).0);
    if prev.last_header is Some {
        if prev.hard_break {
            lemma_fused_step(prev);
            assert(false);
        } else {
            // well-formedness leaves only the value branch, which always
            // clears the owed header, while the step to `spec_run(s, i)`
            // left one set
            assert(false);
        }
    }
    lemma_last_header_set_by_header_token(prev, spec_run(s, i).last_header->Some_0);
}

/// Runs compose: stepping `a + b` times is stepping `a` times, then `b`
/// times from there.
pub proof fn lemma_run_compose(s: ReaderView, a: nat, b: nat)
    ensures
        spec_run(s, (a + b) as nat) == spec_run(spec_run(s, a), b),
    decreases b,
{
    if b > 0 {
        lemma_run_compose(s, a, (b - 1) as nat);
    }
}

/// Whether `n` plain elements parse from `pos`: each an element header with
/// an ordinary tag and a non-sequence representation followed by its full
/// value, with the input exhausted exactly after the last one.
pub open spec fn spec_flat_parse(d: Seq<u8>, pos: int, n: nat) -> bool
    decreases n,
{
    if n == 0 {
        pos == d.len()
    } else {
        match spec_decode_header(d, pos) {
            HeaderOutcome::Decoded { header, end } => header.vr != VR::SQ && header.tag.0
                != 0xFFFE && match spec_read_value(d, end, header) {
                ValueOutcome::Decoded { value, end: end2 } => spec_flat_parse(
                    d,
                    end2,
                    (n - 1) as nat,
                ),
                _ => false,
            },
            _ => false,
        }
    }
}

/// Round-trip boundary, run form: over input consisting solely of `n` valid
/// plain elements, a run from a clean top-level state emits exactly `2 * n`
/// tokens, alternating `ElementHeader` and `PrimitiveValue`, and the next
/// call after the last value returns `None`.
pub proof fn lemma_run_flat_round_trip(s: ReaderView, n: nat)
    requires
        !s.hard_break,
        !s.in_sequence,
        s.last_header is None,
        s.seq_delimiters.len() == 0,
        spec_flat_parse(s.source, s.pos, n),
    ensures
        forall|i: nat|
            #![trigger spec_run_out(s, i)]
            i < 2 * n ==> (spec_run_out(s, i) matches Some(r) && r is Ok),
        forall|i: nat|
            #![trigger spec_run_out(s, (2 * i) as nat)]
            i < n ==> (spec_run_out(s, (2 * i) as nat) matches Some(r) && r matches Ok(t)
                && t is ElementHeader),
        forall|i: nat|
            #![trigger spec_run_out(s, (2 * i + 1) as nat)]
            i < n ==> (spec_run_out(s, (2 * i + 1) as nat) matches Some(r) && r matches Ok(
                t,
            ) && t is PrimitiveValue),
        spec_run_out(s, (2 * n) as nat) is None,
    decreases n,
{
    if n == 0 {
        lemma_exhausted_stream_terminates(s);
    } else {
        let s1 = spec_next(s).0;
        let s2 = spec_next(s1).0;
        assert(spec_run(s, 1) == s1);
        assert(spec_run(s, 2) == s2);
        assert(spec_run_out(s, 0) matches Some(r) && r matches Ok(t) && t is ElementHeader);
        assert(spec_run_out(s, 1) matches Some(r) && r matches Ok(t) && t is PrimitiveValue);
        assert(!s2.hard_break && !s2.in_sequence && s2.last_header is None
            && s2.seq_delimiters.len() == 0);
        assert(spec_flat_parse(s2.source, s2.pos, (n - 1) as nat));
        lemma_run_flat_round_trip(s2, (n - 1) as nat);
        assert forall|i: nat| #![trigger spec_run_out(s, i)] 2 <= i implies spec_run_out(s, i) == spec_run_out(
            s2,
            (i - 2) as nat,
        ) by {
            lemma_run_compose(s, 2, (i - 2) as nat);
        }
        assert forall|i: nat| #![trigger spec_run_out(s, i)] i < 2 * n implies (spec_run_out(s, i) matches Some(r) && r
            is Ok) by {
            if i >= 2 {
                assert(spec_run_out(s2, (i - 2) as nat) matches Some(r) && r is Ok);
            }
        }
        assert forall|i: nat| #![trigger spec_run_out(s, (2 * i) as nat)] i < n implies (spec_run_out(s, (2 * i) as nat) matches Some(r)
            && r matches Ok(t) && t is ElementHeader) by {
            if i >= 1 {
                assert(spec_run_out(s2, (2 * (i - 1)) as nat) matches Some(r) && r matches Ok(
                    t,
                ) && t is ElementHeader);
                assert((2 * i - 2) as nat == (2 * (i - 1)) as nat);
            }
        }
        assert forall|i: nat| #![trigger spec_run_out(s, (2 * i + 1) as nat)] i < n implies (spec_run_out(s, (2 * i + 1) as nat) matches Some(
            r,
        ) && r matches Ok(t) && t is PrimitiveValue) by {
            if i >= 1 {
                assert(spec_run_out(s2, (2 * (i - 1) + 1) as nat) matches Some(r) && r matches
                    Ok(t) && t is PrimitiveValue);
                assert((2 * i + 1 - 2) as nat == (2 * (i - 1) + 1) as nat);
            }
        }
        assert(spec_run_out(s2, (2 * (n - 1)) as nat) is None);
        lemma_run_compose(s, 2, (2 * (n - 1)) as nat);
        assert((2 * n - 2) as nat == (2 * (n - 1)) as nat);
        assert(spec_run_out(s, (2 * n) as nat) is None);
    }
}

/// Explicit-length closure over flat runs: over input consisting solely of
/// `n` valid plain elements, the run that emits them consumes the input
/// exactly — after the `2 * n` tokens, the bytes read equal the input
/// length.
pub proof fn lemma_run_flat_consumes_exactly(s: ReaderView, n: nat)
    requires
        !s.hard_break,
        !s.in_sequence,
        s.last_header is None,
        s.seq_delimiters.len() == 0,
        spec_flat_parse(s.source, s.pos, n),
    ensures
        spec_run(s, (2 * n) as nat).pos == s.source.len(),
    decreases n,
{
    if n > 0 {
        let s1 = spec_next(s).0;
        let s2 = spec_next(s1).0;
        assert(spec_run(s, 0) == s);
        assert(spec_run(s, 1) == s1);
        assert(spec_run(s, 2) == s2);
        assert(!s2.hard_break && !s2.in_sequence && s2.last_header is None
            && s2.seq_delimiters.len() == 0);
        assert(spec_flat_parse(s2.source, s2.pos, (n - 1) as nat));
        lemma_run_flat_consumes_exactly(s2, (n - 1) as nat);
        lemma_run_compose(s, 2, (2 * (n - 1)) as nat);
        assert((2 + 2 * (n - 1)) as nat == (2 * n) as nat);
    }
}

/// Round-trip boundary, step form: at the top level, a decoded non-sequence
/// header with an ordinary tag is emitted as an `ElementHeader` token, and
/// the very next step emits the element's `PrimitiveValue` or surfaces an
/// error — never a third kind of token and never the end of iteration. For
/// input consisting solely of valid element headers and their values, the
/// stream therefore alternates `ElementHeader`, `PrimitiveValue`, two
/// tokens per element.
pub proof fn lemma_flat_element_alternation(s: ReaderView, header: DataElementHeader, end: int)
    requires
        !s.hard_break,
        !s.in_sequence,
        !s.delimiter_check_pending,
        s.last_header is None,
        spec_decode_header(s.source, s.pos) == (HeaderOutcome::Decoded { header, end }),
        header.vr != VR::SQ,
        header.tag != Tag(0xFFFE, 0xE00D),
    ensures
        spec_next(s).1 == Some(Ok::<DataTokenView, Error>(DataTokenView::ElementHeader(header))),
        spec_next(s).0.last_header == Some(header),
        spec_next(s).0.pos == end,
        !(spec_next(spec_next(s).0).1 is None),
        spec_next(spec_next(s).0).1 matches Some(r2) && r2 matches Ok(t2) ==> t2
            is PrimitiveValue,
{
}

} // verus!
