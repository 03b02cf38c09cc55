//! Highlight spans of a line: joining the spans of several patterns into one
//! list that stays in order and free of overlap.

use vstd::prelude::*;
use crate::search::pattern::valid_spans;

verus! {

/// The span from the earlier of two starts to the later of two ends.
pub open spec fn joined(a: (usize, usize), b: (usize, usize)) -> (usize, usize) {
    (
        if a.0 <= b.0 {
            a.0
        } else {
            b.0
        },
        if a.1 >= b.1 {
            a.1
        } else {
            b.1
        },
    )
}

/// `spans` with one more span. The new span takes its place in the order;
/// it is joined with every span that it overlaps or touches.
pub open spec fn with_span(spans: Seq<(usize, usize)>, span: (usize, usize)) -> Seq<(usize, usize)>
    decreases spans.len(),
{
    if spans.len() == 0 {
        seq![span]
    } else if spans[0].1 < span.0 {
        seq![spans[0]] + with_span(spans.skip(1), span)
    } else if span.1 < spans[0].0 {
        seq![span] + spans
    } else {
        with_span(spans.skip(1), joined(spans[0], span))
    }
}

/// `spans` with each span of `more`, added one after the other.
pub open spec fn with_spans(spans: Seq<(usize, usize)>, more: Seq<(usize, usize)>) -> Seq<
    (usize, usize),
>
    decreases more.len(),
{
    if more.len() == 0 {
        spans
    } else {
        with_span(with_spans(spans, more.drop_last()), more.last())
    }
}

/// Whether a span of `spans` covers the byte at offset `at`.
pub open spec fn covers(spans: Seq<(usize, usize)>, at: int) -> bool {
    exists|i: int| 0 <= i < spans.len() && (#[trigger] spans[i]).0 <= at < spans[i].1
}

/// Adding a span to valid spans gives valid spans, none of which starts
/// before both the new span and the first of the old ones.
pub proof fn lemma_with_span_valid(len: nat, spans: Seq<(usize, usize)>, span: (usize, usize))
    requires
        valid_spans(len, spans),
        span.0 <= span.1 <= len,
    ensures
        valid_spans(len, with_span(spans, span)),
        with_span(spans, span).len() > 0,
        with_span(spans, span)[0].0 == (if spans.len() > 0 && spans[0].0 <= span.0 {
            spans[0].0
        } else {
            span.0
        }),
    decreases spans.len(),
{
    let out = with_span(spans, span);
    if spans.len() == 0 {
    } else if spans[0].1 < span.0 {
        let rest = with_span(spans.skip(1), span);
        assert(valid_spans(len, spans.skip(1))) by {
            assert forall|i: int| 0 <= i < spans.skip(1).len() implies (#[trigger] spans.skip(
                1,
            )[i]).0 <= spans.skip(1)[i].1 <= len by {
                assert(spans.skip(1)[i] == spans[i + 1]);
            }
            assert forall|i: int, j: int| 0 <= i < j < spans.skip(1).len() implies (
            #[trigger] spans.skip(1)[i]).1 <= (#[trigger] spans.skip(1)[j]).0 by {
                assert(spans.skip(1)[i] == spans[i + 1]);
                assert(spans.skip(1)[j] == spans[j + 1]);
            }
        }
        lemma_with_span_valid(len, spans.skip(1), span);
        if spans.len() > 1 {
            assert(spans.skip(1)[0] == spans[1]);
        }
        assert forall|i: int, j: int| 0 <= i < j < out.len() implies (#[trigger] out[i]).1 <= (
        #[trigger] out[j]).0 by {
            assert(out[j] == rest[j - 1]);
            if i > 0 {
                assert(out[i] == rest[i - 1]);
            } else {
                assert(rest[0].1 <= rest[j - 1].0 || j - 1 == 0);
                assert(rest[0].0 <= rest[j - 1].0) by {
                    if j - 1 > 0 {
                        assert(rest[0].0 <= rest[0].1);
                    }
                }
            }
        }
        assert forall|i: int| 0 <= i < out.len() implies (#[trigger] out[i]).0 <= out[i].1
            <= len by {
            if i > 0 {
                assert(out[i] == rest[i - 1]);
            }
        }
    } else if span.1 < spans[0].0 {
        assert forall|i: int, j: int| 0 <= i < j < out.len() implies (#[trigger] out[i]).1 <= (
        #[trigger] out[j]).0 by {
            assert(out[j] == spans[j - 1]);
            if i > 0 {
                assert(out[i] == spans[i - 1]);
            } else if j - 1 > 0 {
                assert(spans[0].1 <= spans[j - 1].0);
            }
        }
        assert forall|i: int| 0 <= i < out.len() implies (#[trigger] out[i]).0 <= out[i].1
            <= len by {
            if i > 0 {
                assert(out[i] == spans[i - 1]);
            }
        }
    } else {
        assert(valid_spans(len, spans.skip(1))) by {
            assert forall|i: int| 0 <= i < spans.skip(1).len() implies (#[trigger] spans.skip(
                1,
            )[i]).0 <= spans.skip(1)[i].1 <= len by {
                assert(spans.skip(1)[i] == spans[i + 1]);
            }
            assert forall|i: int, j: int| 0 <= i < j < spans.skip(1).len() implies (
            #[trigger] spans.skip(1)[i]).1 <= (#[trigger] spans.skip(1)[j]).0 by {
                assert(spans.skip(1)[i] == spans[i + 1]);
                assert(spans.skip(1)[j] == spans[j + 1]);
            }
        }
        lemma_with_span_valid(len, spans.skip(1), joined(spans[0], span));
        if spans.len() > 1 {
            assert(spans.skip(1)[0] == spans[1]);
            assert(spans[0].1 <= spans[1].0);
        }
    }
}

/// Adding spans to valid spans gives valid spans.
pub proof fn lemma_with_spans_valid(len: nat, spans: Seq<(usize, usize)>, more: Seq<(usize, usize)>)
    requires
        valid_spans(len, spans),
        valid_spans(len, more),
    ensures
        valid_spans(len, with_spans(spans, more)),
    decreases more.len(),
{
    if more.len() > 0 {
        assert(valid_spans(len, more.drop_last())) by {
            assert forall|i: int| 0 <= i < more.drop_last().len() implies (
            #[trigger] more.drop_last()[i]).0 <= more.drop_last()[i].1 <= len by {
                assert(more.drop_last()[i] == more[i]);
            }
            assert forall|i: int, j: int| 0 <= i < j < more.drop_last().len() implies (
            #[trigger] more.drop_last()[i]).1 <= (#[trigger] more.drop_last()[j]).0 by {
                assert(more.drop_last()[i] == more[i]);
                assert(more.drop_last()[j] == more[j]);
            }
        }
        lemma_with_spans_valid(len, spans, more.drop_last());
        assert(more.last() == more[more.len() - 1]);
        lemma_with_span_valid(len, with_spans(spans, more.drop_last()), more.last());
    }
}

/// A byte is covered by spans where the first span covers it or one of the
/// others does.
proof fn lemma_covers_first(spans: Seq<(usize, usize)>, at: int)
    requires
        spans.len() > 0,
    ensures
        covers(spans, at) <==> (spans[0].0 <= at < spans[0].1) || covers(spans.skip(1), at),
{
    let rest = spans.skip(1);
    if covers(spans, at) {
        let i = choose|i: int| 0 <= i < spans.len() && (#[trigger] spans[i]).0 <= at < spans[i].1;
        if i > 0 {
            assert(rest[i - 1] == spans[i]);
        }
    }
    if covers(rest, at) {
        let i = choose|i: int| 0 <= i < rest.len() && (#[trigger] rest[i]).0 <= at < rest[i].1;
        assert(spans[i + 1] == rest[i]);
    }
}

/// Adding a span covers what the span covers and what was covered before,
/// and nothing else.
pub proof fn lemma_with_span_covers(spans: Seq<(usize, usize)>, span: (usize, usize), at: int)
    requires
        span.0 <= span.1,
        forall|i: int| 0 <= i < spans.len() ==> (#[trigger] spans[i]).0 <= spans[i].1,
    ensures
        covers(with_span(spans, span), at) <==> covers(spans, at) || span.0 <= at < span.1,
    decreases spans.len(),
{
    let out = with_span(spans, span);
    if spans.len() == 0 {
        lemma_covers_first(out, at);
        assert(!covers(out.skip(1), at));
        assert(!covers(spans, at));
    } else {
        let rest = spans.skip(1);
        assert forall|i: int| 0 <= i < rest.len() implies (#[trigger] rest[i]).0 <= rest[i].1 by {
            assert(rest[i] == spans[i + 1]);
        }
        lemma_covers_first(spans, at);
        if spans[0].1 < span.0 {
            lemma_with_span_covers(rest, span, at);
            lemma_covers_first(out, at);
            assert(out.skip(1) =~= with_span(rest, span));
        } else if span.1 < spans[0].0 {
            lemma_covers_first(out, at);
            assert(out.skip(1) =~= spans);
        } else {
            lemma_with_span_covers(rest, joined(spans[0], span), at);
        }
    }
}

/// Adding spans covers what they cover and what was covered before, and
/// nothing else.
pub proof fn lemma_with_spans_covers(
    spans: Seq<(usize, usize)>,
    more: Seq<(usize, usize)>,
    len: nat,
    at: int,
)
    requires
        valid_spans(len, spans),
        valid_spans(len, more),
    ensures
        covers(with_spans(spans, more), at) <==> covers(spans, at) || covers(more, at),
    decreases more.len(),
{
    if more.len() == 0 {
        assert(!covers(more, at));
    } else {
        let earlier = more.drop_last();
        assert(valid_spans(len, earlier)) by {
            assert forall|i: int| 0 <= i < earlier.len() implies (#[trigger] earlier[i]).0
                <= earlier[i].1 <= len by {
                assert(earlier[i] == more[i]);
            }
            assert forall|i: int, j: int| 0 <= i < j < earlier.len() implies (
            #[trigger] earlier[i]).1 <= (#[trigger] earlier[j]).0 by {
                assert(earlier[i] == more[i]);
                assert(earlier[j] == more[j]);
            }
        }
        lemma_with_spans_covers(spans, earlier, len, at);
        lemma_with_spans_valid(len, spans, earlier);
        assert(more.last() == more[more.len() - 1]);
        lemma_with_span_covers(with_spans(spans, earlier), more.last(), at);
        if covers(more, at) {
            let i = choose|i: int| 0 <= i < more.len() && (#[trigger] more[i]).0 <= at < more[i].1;
            if i < earlier.len() {
                assert(earlier[i] == more[i]);
            }
        }
        if covers(earlier, at) {
            let i = choose|i: int|
                0 <= i < earlier.len() && (#[trigger] earlier[i]).0 <= at < earlier[i].1;
            assert(more[i] == earlier[i]);
        }
    }
}

/// Adds one span to `spans`.
pub fn add_span(spans: &Vec<(usize, usize)>, span: (usize, usize)) -> (out: Vec<(usize, usize)>)
    ensures
        out@ == with_span(spans@, span),
{
    let mut out: Vec<(usize, usize)> = Vec::new();
    let mut pending = span;
    let mut placed = false;
    let mut i: usize = 0;
    assert(spans@.skip(0) =~= spans@);
    while i < spans.len()
        invariant
            i <= spans@.len(),
            with_span(spans@, span) == out@ + (if placed {
                spans@.skip(i as int)
            } else {
                with_span(spans@.skip(i as int), pending)
            }),
        decreases spans@.len() - i,
    {
        let head = spans[i];
        let ghost rest = spans@.skip(i as int);
        proof {
            assert(rest[0] == head);
            assert(rest.skip(1) =~= spans@.skip(i as int + 1));
        }
        if placed {
            assert(out@ + rest =~= out@.push(head) + rest.skip(1));
            out.push(head);
        } else if head.1 < pending.0 {
            assert(out@ + (seq![head] + with_span(rest.skip(1), pending)) =~= out@.push(head)
                + with_span(rest.skip(1), pending));
            out.push(head);
        } else if pending.1 < head.0 {
            assert(out@ + (seq![pending] + rest) =~= out@.push(pending).push(head) + rest.skip(
                1,
            ));
            out.push(pending);
            out.push(head);
            placed = true;
        } else {
            pending = (
                if head.0 <= pending.0 {
                    head.0
                } else {
                    pending.0
                },
                if head.1 >= pending.1 {
                    head.1
                } else {
                    pending.1
                },
            );
        }
        i += 1;
    }
    if !placed {
        assert(out@ + seq![pending] =~= out@.push(pending));
        out.push(pending);
    } else {
        assert(out@ + spans@.skip(i as int) =~= out@);
    }
    out
}

/// Adds each span of `more` to `spans`.
pub fn add_spans(spans: Vec<(usize, usize)>, more: &Vec<(usize, usize)>) -> (out: Vec<
    (usize, usize),
>)
    ensures
        out@ == with_spans(spans@, more@),
{
    let mut out = spans;
    let mut i: usize = 0;
    assert(more@.take(0) =~= Seq::empty());
    while i < more.len()
        invariant
            i <= more@.len(),
            out@ == with_spans(spans@, more@.take(i as int)),
        decreases more@.len() - i,
    {
        assert(more@.take(i as int + 1).drop_last() =~= more@.take(i as int));
        out = add_span(&out, more[i]);
        i += 1;
    }
    assert(more@.take(more@.len() as int) =~= more@);
    out
}

} // verus!
