//! Multi-device v4l2loopback sink.

use vstd::prelude::*;

use crate::sink::v4l2loop::sink::V4l2LoopSink;
use crate::sink::SinkError;
use crate::sink::SinkErrorKind;
use crate::text::join;

verus! {

/// Writes each frame to *all* provided loopback device paths. Used when
/// `multi_reader=true` and the module was loaded with `devices >= 2`.
pub struct V4l2LoopMultiSink {
    pub sinks: Vec<V4l2LoopSink>,
}

/// The paths of a list of sinks.
pub open spec fn sink_paths(sinks: Seq<V4l2LoopSink>) -> Seq<Seq<char>> {
    sinks.map_values(|s: V4l2LoopSink| s.path@)
}

/// Whether a device failed for another reason than a missing reader.
pub open spec fn is_real_error(outcome: Result<(), SinkError>) -> bool {
    outcome matches Err(e) && e.kind != SinkErrorKind::WouldBlock
}

/// What writing a frame to every device came to: `None` if every device took it
/// or had no reader, else the first error of another kind.
pub open spec fn first_error(outcomes: Seq<Result<(), SinkError>>) -> Option<SinkError>
    decreases outcomes.len(),
{
    if outcomes.len() == 0 {
        None
    } else if is_real_error(outcomes[0]) {
        Some(outcomes[0]->Err_0)
    } else {
        first_error(outcomes.drop_first())
    }
}

impl V4l2LoopMultiSink {
    /// One sink for each path; no device is open yet.
    pub fn new(paths: &Vec<String>) -> (r: Self)
        ensures
            sink_paths(r.sinks@) == crate::text::texts(paths@),
            forall|i: int|
                0 <= i < r.sinks@.len() ==> (#[trigger] r.sinks@[i]).is_fresh(),
    {
        let mut sinks: Vec<V4l2LoopSink> = Vec::new();
        for i in 0..paths.len()
            invariant
                sinks@.len() == i,
                forall|j: int|
                    0 <= j < i ==> (#[trigger] sinks@[j]).is_fresh() && sinks@[j].path@
                        == paths@[j]@,
        {
            sinks.push(V4l2LoopSink::new(paths[i].as_str()));
        }
        assert(sink_paths(sinks@) =~= crate::text::texts(paths@));
        V4l2LoopMultiSink { sinks }
    }

    /// The outcome of a frame, from its outcomes on the single devices, in their
    /// order. A device without a reader does not keep the others from being fed; the
    /// first real error is surfaced at the end.
    pub fn settle(outcomes: &Vec<Result<(), SinkError>>) -> (r: Result<(), SinkError>)
        ensures
            match first_error(outcomes@) {
                Some(e) => r == Err::<(), SinkError>(e),
                None => r is Ok,
            },
    {
        assert(outcomes@.skip(0) =~= outcomes@);
        for i in 0..outcomes.len()
            invariant
                first_error(outcomes@.skip(i as int)) == first_error(outcomes@),
        {
            assert(outcomes@.skip(i as int).drop_first() =~= outcomes@.skip(i + 1));
            if let Err(e) = &outcomes[i] {
                if e.kind != SinkErrorKind::WouldBlock {
                    return Err(e.clone());
                }
            }
        }
        Ok(())
    }

    /// A short text that names the sink.
    pub fn describe(&self) -> (r: String)
        ensures
            r@ == "v4l2loopback:multi("@ + crate::text::joined(sink_paths(self.sinks@), ", "@)
                + ")"@,
    {
        let mut paths: Vec<String> = Vec::new();
        for i in 0..self.sinks.len()
            invariant
                paths@.len() == i,
                forall|j: int| 0 <= j < i ==> (#[trigger] paths@[j])@ == self.sinks@[j].path@,
        {
            paths.push(self.sinks[i].path.clone());
        }
        assert(crate::text::texts(paths@) =~= sink_paths(self.sinks@));
        let mut r = "v4l2loopback:multi(".to_owned();
        r.append(join(&paths, ", ").as_str());
        r.append(")");
        r
    }
}

/// A frame succeeds as a whole exactly when no device failed for another reason
/// than a missing reader. Otherwise the error is that of a device before which none
/// failed so.
pub proof fn law_first_real_error(outcomes: Seq<Result<(), SinkError>>)
    ensures
        first_error(outcomes) is None <==> forall|i: int|
            0 <= i < outcomes.len() ==> !is_real_error(#[trigger] outcomes[i]),
        first_error(outcomes) matches Some(e) ==> exists|n: int|
            0 <= n < outcomes.len() && #[trigger] outcomes[n] == Err::<(), SinkError>(e)
                && is_real_error(outcomes[n]) && forall|i: int|
                0 <= i < n ==> !is_real_error(#[trigger] outcomes[i]),
    decreases outcomes.len(),
{
    if outcomes.len() > 0 && !is_real_error(outcomes[0]) {
        let rest = outcomes.drop_first();
        law_first_real_error(rest);
        assert(forall|i: int| 0 <= i < rest.len() ==> #[trigger] rest[i] == outcomes[i + 1]);
        if first_error(rest) is None {
            assert forall|i: int| 0 <= i < outcomes.len() implies !is_real_error(
                #[trigger] outcomes[i],
            ) by {
                if i > 0 {
                    assert(rest[i - 1] == outcomes[i]);
                }
            }
        } else {
            let e = first_error(rest)->Some_0;
            let n = choose|n: int|
                0 <= n < rest.len() && #[trigger] rest[n] == Err::<(), SinkError>(e)
                    && is_real_error(rest[n]) && forall|i: int|
                    0 <= i < n ==> !is_real_error(#[trigger] rest[i]);
            assert(outcomes[n + 1] == rest[n]);
            assert forall|i: int| 0 <= i < n + 1 implies !is_real_error(
                #[trigger] outcomes[i],
            ) by {
                if i > 0 {
                    assert(rest[i - 1] == outcomes[i]);
                }
            }
        }
    } else if outcomes.len() > 0 {
        assert(outcomes[0] == Err::<(), SinkError>(outcomes[0]->Err_0));
    }
}

/// A device that took the frame and a device without a reader did not fail; every other
/// error is a failure. The outcome of a row of devices is that of the first ones if they
/// failed, and else that of the rest.
pub proof fn law_missing_readers_are_no_failure(
    e: SinkError,
    a: Seq<Result<(), SinkError>>,
    b: Seq<Result<(), SinkError>>,
)
    ensures
        !is_real_error(Ok::<(), SinkError>(())),
        is_real_error(Err::<(), SinkError>(e)) <==> e.kind != SinkErrorKind::WouldBlock,
        first_error(seq![Err::<(), SinkError>(e)]) == if e.kind != SinkErrorKind::WouldBlock {
            Some(e)
        } else {
            None
        },
        first_error(a + b) == if first_error(a) is Some {
            first_error(a)
        } else {
            first_error(b)
        },
    decreases a.len(),
{
    let one = seq![Err::<(), SinkError>(e)];
    assert(one.drop_first() =~= Seq::<Result<(), SinkError>>::empty());
    assert(first_error(one.drop_first()) is None);
    if a.len() == 0 {
        assert(a + b =~= b);
    } else {
        assert((a + b)[0] == a[0]);
        assert((a + b).drop_first() =~= a.drop_first() + b);
        law_missing_readers_are_no_failure(e, a.drop_first(), b);
    }
}

} // verus!
