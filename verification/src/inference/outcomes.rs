//! Folding the answers of several backends into the outcome of one call.

use vstd::prelude::*;

use crate::inference::types::{
    InferenceEngineOutput, InferenceError, StopReason, StopReasonView,
};

verus! {

/// Every one of `results` is a success.
pub open spec fn all_succeeded<T>(results: Seq<Result<T, InferenceError>>) -> bool {
    forall|i: int| 0 <= i < results.len() ==> (#[trigger] results[i]) is Ok
}

/// `results[at]` is a failure and every result before it is a success.
pub open spec fn is_first_failure<T>(results: Seq<Result<T, InferenceError>>, at: int) -> bool {
    &&& 0 <= at < results.len()
    &&& results[at] is Err
    &&& forall|i: int| 0 <= i < at ==> (#[trigger] results[i]) is Ok
}

/// The values of results that all succeeded, in their order.
pub open spec fn successes<T>(results: Seq<Result<T, InferenceError>>) -> Seq<T> {
    Seq::new(results.len(), |i: int| results[i]->Ok_0)
}

/// Turns the answers of the backends into the answers of a call that fails
/// as soon as one backend failed.
///
/// The error is that of the first failure in the order of `results`, which
/// is the order of dispatch and not the order of completion.
pub fn collect_outputs(results: Vec<Result<InferenceEngineOutput, InferenceError>>) -> (collected:
    Result<Vec<InferenceEngineOutput>, InferenceError>)
    ensures
        collected is Ok <==> all_succeeded(results@),
        collected matches Ok(outputs) ==> outputs@ == successes(results@),
        forall|at: int|
            is_first_failure(results@, at) ==> collected == Err::<
                Vec<InferenceEngineOutput>,
                InferenceError,
            >(results@[at]->Err_0),
{
    let mut outputs: Vec<InferenceEngineOutput> = Vec::new();
    for result in it: results
        invariant
            it.seq() == results@,
            outputs@.len() == it.index(),
            forall|i: int| 0 <= i < it.index() ==> (#[trigger] results@[i]) == Ok::<InferenceEngineOutput, InferenceError>(outputs@[i]),
    {
        match result {
            Ok(output) => outputs.push(output),
            Err(error) => {
                return Err(error);
            },
        }
    }
    assert(outputs@ =~= successes(results@));
    Ok(outputs)
}

/// The responses of each sub-answer, in the order of the sub-answers.
pub open spec fn responses_of(outputs: Seq<InferenceEngineOutput>) -> Seq<Seq<Seq<char>>> {
    Seq::new(outputs.len(), |g: int| outputs[g].responses.deep_view())
}

/// The stop reasons of each sub-answer, in the order of the sub-answers.
pub open spec fn stop_reasons_of(outputs: Seq<InferenceEngineOutput>) -> Seq<Seq<StopReasonView>> {
    Seq::new(outputs.len(), |g: int| outputs[g].stop_reasons.deep_view())
}

/// Outcome of an operation sent to every backend: success if all succeeded,
/// else the first failure in the order of `results`. Nothing is rolled back
/// on the backends that succeeded.
pub fn join_results(results: Vec<Result<(), InferenceError>>) -> (joined: Result<
    (),
    InferenceError,
>)
    ensures
        joined is Ok <==> all_succeeded(results@),
        forall|at: int|
            is_first_failure(results@, at) ==> joined == Err::<(), InferenceError>(
                results@[at]->Err_0,
            ),
{
    for result in it: results
        invariant
            it.seq() == results@,
            forall|i: int| 0 <= i < it.index() ==> (#[trigger] results@[i]) is Ok,
    {
        match result {
            Ok(()) => {},
            Err(error) => {
                return Err(error);
            },
        }
    }
    Ok(())
}

/// Concatenates the answers of the backends, in the order of `results`, into
/// the answer of a call that fails as soon as one backend failed.
pub fn merge_outputs(results: Vec<Result<InferenceEngineOutput, InferenceError>>) -> (merged:
    Result<InferenceEngineOutput, InferenceError>)
    ensures
        merged is Ok <==> all_succeeded(results@),
        merged matches Ok(output) ==> {
            &&& output.responses.deep_view() == responses_of(successes(results@)).flatten()
            &&& output.stop_reasons.deep_view() == stop_reasons_of(successes(results@)).flatten()
        },
        forall|at: int|
            is_first_failure(results@, at) ==> merged == Err::<
                InferenceEngineOutput,
                InferenceError,
            >(results@[at]->Err_0),
{
    let mut responses: Vec<String> = Vec::new();
    let mut stop_reasons: Vec<StopReason> = Vec::new();
    let ghost outputs = successes(results@);
    for result in it: results
        invariant
            it.seq() == results@,
            outputs == successes(results@),
            forall|i: int| 0 <= i < it.index() ==> (#[trigger] results@[i]) is Ok,
            responses.deep_view() == responses_of(outputs.take(it.index())).flatten(),
            stop_reasons.deep_view() == stop_reasons_of(outputs.take(it.index())).flatten(),
    {
        match result {
            Ok(output) => {
                let ghost done = it.index();
                let ghost texts_before = responses.deep_view();
                let ghost reasons_before = stop_reasons.deep_view();
                let InferenceEngineOutput { responses: mut texts, stop_reasons: mut reasons } =
                    output;
                responses.append(&mut texts);
                stop_reasons.append(&mut reasons);
                proof {
                    assert(outputs[done] == output);
                    assert(responses.deep_view() =~= texts_before + output.responses.deep_view());
                    assert(stop_reasons.deep_view() =~= reasons_before
                        + output.stop_reasons.deep_view());
                    assert(responses_of(outputs.take(done + 1)) =~= responses_of(
                        outputs.take(done),
                    ).push(output.responses.deep_view()));
                    assert(stop_reasons_of(outputs.take(done + 1)) =~= stop_reasons_of(
                        outputs.take(done),
                    ).push(output.stop_reasons.deep_view()));
                    responses_of(outputs.take(done)).lemma_flatten_push(
                        output.responses.deep_view(),
                    );
                    stop_reasons_of(outputs.take(done)).lemma_flatten_push(
                        output.stop_reasons.deep_view(),
                    );
                }
            },
            Err(error) => {
                return Err(error);
            },
        }
    }
    assert(outputs.take(results@.len() as int) =~= outputs);
    Ok(InferenceEngineOutput { responses, stop_reasons })
}

} // verus!
