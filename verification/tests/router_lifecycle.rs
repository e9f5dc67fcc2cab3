use ferrum::inference::batching::{batch_size_of, even_batches, Batch};
use ferrum::inference::lifecycle::{
    checked_tp_size, plan_weight_update_communicator, rank_ranges_fit, tp_size, CommunicatorInit,
};
use ferrum::inference::outcomes::{collect_outputs, join_results, merge_outputs};
use ferrum::inference::routing::engine_index_of;
use ferrum::inference::types::{
    InferenceEngineOutput, InferenceError, NamedWeightUpdateRequest, StopReason,
};

fn output(texts: &[&str]) -> InferenceEngineOutput {
    InferenceEngineOutput {
        responses: texts.iter().map(|t| t.to_string()).collect(),
        stop_reasons: texts.iter().map(|t| StopReason::Other(t.to_string())).collect(),
    }
}

#[test]
fn rank_offsets_are_running_sums() {
    let calls = plan_weight_update_communicator(
        &[2, 4, 1],
        "10.0.0.1".to_string(),
        29500,
        0,
        7,
        "weights".to_string(),
        "nccl".to_string(),
        true,
    );
    let offsets: Vec<usize> = calls.iter().map(|c| c.rank_offset).collect();
    assert_eq!(offsets, vec![0, 2, 6]);
    for call in &calls {
        assert_eq!(call.master_addr, "10.0.0.1");
        assert_eq!(call.master_port, 29500);
        assert_eq!(call.world_size, 7);
        assert_eq!(call.group_name, "weights");
        assert_eq!(call.backend, "nccl");
        assert!(call.override_existing);
    }
}

#[test]
fn rank_offsets_start_at_the_given_offset() {
    let calls = plan_weight_update_communicator(
        &[3, 3],
        "host".to_string(),
        1,
        5,
        11,
        "g".to_string(),
        "gloo".to_string(),
        false,
    );
    assert_eq!(
        calls,
        vec![
            CommunicatorInit {
                master_addr: "host".to_string(),
                master_port: 1,
                rank_offset: 5,
                world_size: 11,
                group_name: "g".to_string(),
                backend: "gloo".to_string(),
                override_existing: false,
            },
            CommunicatorInit {
                master_addr: "host".to_string(),
                master_port: 1,
                rank_offset: 8,
                world_size: 11,
                group_name: "g".to_string(),
                backend: "gloo".to_string(),
                override_existing: false,
            },
        ]
    );
    assert!(plan_weight_update_communicator(
        &[],
        "h".to_string(),
        0,
        0,
        0,
        "g".to_string(),
        "b".to_string(),
        false
    )
    .is_empty());
}

#[test]
fn total_tp_size_is_the_sum() {
    assert_eq!(tp_size(&[2, 4, 1]), 7);
    assert_eq!(tp_size(&[]), 0);
    assert_eq!(checked_tp_size(&[2, 4, 1]), Some(7));
    assert_eq!(checked_tp_size(&[usize::MAX, 1]), None);
    assert_eq!(checked_tp_size(&[usize::MAX - 1, 1]), Some(usize::MAX));
    assert_eq!(checked_tp_size(&[1, usize::MAX, 0]), None);
}

#[test]
fn rank_ranges_that_fit() {
    assert!(rank_ranges_fit(&[2, 4, 1], 0));
    assert!(rank_ranges_fit(&[2, 4, 1], usize::MAX - 7));
    assert!(!rank_ranges_fit(&[2, 4, 1], usize::MAX - 6));
    assert!(!rank_ranges_fit(&[usize::MAX, 1], 0));
}

#[test]
fn broadcast_succeeds_when_every_backend_did() {
    assert_eq!(join_results(vec![Ok(()), Ok(()), Ok(())]), Ok(()));
    assert_eq!(join_results(vec![]), Ok(()));
}

#[test]
fn broadcast_fails_with_the_first_failure_in_backend_order() {
    assert_eq!(
        join_results(vec![
            Ok(()),
            Err(InferenceError::EngineUnavailable),
            Err(InferenceError::Timeout { seconds: 1 }),
        ]),
        Err(InferenceError::EngineUnavailable)
    );
    assert_eq!(
        join_results(vec![Err(InferenceError::InvalidInput("x".to_string())), Ok(())]),
        Err(InferenceError::InvalidInput("x".to_string()))
    );
}

#[test]
fn merged_outputs_are_concatenated_in_order() {
    let merged = merge_outputs(vec![Ok(output(&["a", "b"])), Ok(output(&[])), Ok(output(&["c"]))]);
    assert_eq!(merged, Ok(output(&["a", "b", "c"])));
    assert_eq!(merge_outputs(vec![]), Ok(output(&[])));
    assert_eq!(
        merge_outputs(vec![
            Ok(output(&["a"])),
            Err(InferenceError::CommunicationError("down".to_string())),
            Err(InferenceError::EngineUnavailable),
        ]),
        Err(InferenceError::CommunicationError("down".to_string()))
    );
}

#[test]
fn collected_outputs_keep_their_order() {
    assert_eq!(
        collect_outputs(vec![Ok(output(&["a"])), Ok(output(&["b", "c"]))]),
        Ok(vec![output(&["a"]), output(&["b", "c"])])
    );
    assert_eq!(
        collect_outputs(vec![
            Err(InferenceError::Timeout { seconds: 9 }),
            Ok(output(&["b"])),
        ]),
        Err(InferenceError::Timeout { seconds: 9 })
    );
}

#[test]
fn batch_size_is_the_rounded_up_quotient() {
    assert_eq!(batch_size_of(10, 3), 4);
    assert_eq!(batch_size_of(9, 3), 3);
    assert_eq!(batch_size_of(0, 3), 0);
    assert_eq!(batch_size_of(1, 3), 1);
    assert_eq!(batch_size_of(7, 1), 7);
    assert_eq!(batch_size_of(usize::MAX, 2), usize::MAX / 2 + 1);
    assert_eq!(batch_size_of(usize::MAX, usize::MAX), 1);
}

#[test]
fn even_batches_are_contiguous_slices() {
    assert_eq!(
        even_batches(10, 3),
        vec![
            Batch { engine_index: 0, start: 0, end: 4 },
            Batch { engine_index: 1, start: 4, end: 8 },
            Batch { engine_index: 2, start: 8, end: 10 },
        ]
    );
    assert_eq!(
        even_batches(5, 4),
        vec![
            Batch { engine_index: 0, start: 0, end: 2 },
            Batch { engine_index: 1, start: 2, end: 4 },
            Batch { engine_index: 2, start: 4, end: 5 },
        ]
    );
    assert_eq!(
        even_batches(2, 5),
        vec![
            Batch { engine_index: 0, start: 0, end: 1 },
            Batch { engine_index: 1, start: 1, end: 2 },
        ]
    );
    assert!(even_batches(0, 4).is_empty());
    assert_eq!(
        even_batches(usize::MAX, 2),
        vec![
            Batch { engine_index: 0, start: 0, end: usize::MAX / 2 + 1 },
            Batch { engine_index: 1, start: usize::MAX / 2 + 1, end: usize::MAX },
        ]
    );
}

#[test]
fn even_batches_cover_every_item_once() {
    for engines in 1..8usize {
        for items in 0..40usize {
            let batches = even_batches(items, engines);
            let size = batch_size_of(items, engines);
            let mut next = 0;
            for (k, batch) in batches.iter().enumerate() {
                assert_eq!(batch.engine_index, k);
                assert_eq!(batch.start, next);
                assert!(batch.end > batch.start);
                assert!(batch.end - batch.start <= size);
                next = batch.end;
            }
            assert_eq!(next, items);
            assert!(batches.len() <= engines);
        }
    }
}

#[test]
fn engine_index_is_below_the_number_of_engines() {
    for engines in 1..6usize {
        for id in ["", "a", "traj_001", "ünïcödé"] {
            assert!(engine_index_of(id, engines) < engines);
            assert_eq!(engine_index_of(id, engines), engine_index_of(id, engines));
        }
    }
}

#[test]
fn inference_error_messages() {
    assert_eq!(
        InferenceError::InvalidInput("no prompts".to_string()).message(),
        "Invalid input: no prompts"
    );
    assert_eq!(
        InferenceError::CommunicationError("reset".to_string()).message(),
        "Engine communication error: reset"
    );
    assert_eq!(InferenceError::Timeout { seconds: 30 }.message(), "Timeout after 30s");
    assert_eq!(InferenceError::EngineUnavailable.message(), "Engine not available");
}

#[test]
fn weight_update_request_is_cloned_with_its_extras() {
    let mut extras = std::collections::HashMap::new();
    extras.insert("chunk".to_string(), serde_json::Value::from(3));
    let request = NamedWeightUpdateRequest {
        name: "layer.0.weight".to_string(),
        dtype: "bf16".to_string(),
        shape: vec![4096, 4096],
        extras: Some(extras),
    };
    assert_eq!(request.clone(), request);
}
