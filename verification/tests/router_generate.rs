use ferrum::inference::client::{EngineDispatch, GeneratePlan, InferenceEngineClient, Routing};
use ferrum::inference::types::{
    InferenceEngineInput, InferenceEngineOutput, InferenceError, Message, SamplingParams,
    StopReason,
};
use std::collections::hash_map::DefaultHasher;
use std::collections::HashMap;
use std::hash::{Hash, Hasher};

struct MockEngine {
    name: String,
}

impl MockEngine {
    fn new(name: &str) -> Self {
        MockEngine {
            name: name.to_string(),
        }
    }

    fn generate(&self, input: &InferenceEngineInput) -> Result<InferenceEngineOutput, InferenceError> {
        let num_prompts = if let Some(prompts) = &input.prompts {
            prompts.len()
        } else if let Some(tokens) = &input.prompt_token_ids {
            tokens.len()
        } else {
            return Err(InferenceError::InvalidInput(
                "No input provided".to_string(),
            ));
        };
        let responses: Vec<String> = (0..num_prompts)
            .map(|i| format!("Response from {} for item {}", self.name, i))
            .collect();
        let stop_reasons = (0..num_prompts).map(|_| StopReason::Stop).collect();
        Ok(InferenceEngineOutput {
            responses,
            stop_reasons,
        })
    }
}

fn user(content: &str) -> Vec<Message> {
    vec![Message {
        role: "user".to_string(),
        content: content.to_string(),
    }]
}

fn sampling() -> SamplingParams {
    SamplingParams {
        temperature: Some(0.7f32.to_bits()),
        max_tokens: Some(100),
        top_p: Some(0.9f32.to_bits()),
        top_k: Some(40),
        stop: None,
        extra: None,
    }
}

fn prompts_input(contents: &[&str], ids: Option<&[&str]>) -> InferenceEngineInput {
    InferenceEngineInput {
        prompts: Some(contents.iter().map(|c| user(c)).collect()),
        prompt_token_ids: None,
        sampling_params: Some(sampling()),
        trajectory_ids: ids.map(|ids| ids.iter().map(|id| id.to_string()).collect()),
    }
}

fn tokens_input(tokens: Vec<Vec<i32>>, ids: Option<&[&str]>) -> InferenceEngineInput {
    InferenceEngineInput {
        prompts: None,
        prompt_token_ids: Some(tokens),
        sampling_params: None,
        trajectory_ids: ids.map(|ids| ids.iter().map(|id| id.to_string()).collect()),
    }
}

fn three_engines() -> InferenceEngineClient<MockEngine> {
    InferenceEngineClient::new(vec![
        MockEngine::new("Engine0"),
        MockEngine::new("Engine1"),
        MockEngine::new("Engine2"),
    ])
    .expect("three backends")
}

fn expected_index(id: &str, engines: usize) -> usize {
    let mut hasher = DefaultHasher::new();
    id.hash(&mut hasher);
    (hasher.finish() as usize) % engines
}

fn run(
    client: &InferenceEngineClient<MockEngine>,
    input: &InferenceEngineInput,
) -> Result<InferenceEngineOutput, InferenceError> {
    let GeneratePlan {
        routing,
        dispatches,
        indices_lists,
        input_length,
    } = client.plan_generate(input)?;
    let results: Vec<_> = dispatches
        .iter()
        .map(|dispatch| client.engines()[dispatch.engine_index].generate(&dispatch.input))
        .collect();
    client.finish_generate(routing, indices_lists, input_length, results)
}

/// An engine that answers every item with a text made from the item itself.
fn echo(input: &InferenceEngineInput) -> InferenceEngineOutput {
    let responses: Vec<String> = match (&input.prompts, &input.prompt_token_ids) {
        (Some(prompts), _) => prompts.iter().map(|p| format!("re: {}", p[0].content)).collect(),
        (None, Some(tokens)) => tokens.iter().map(|t| format!("re: {:?}", t)).collect(),
        (None, None) => Vec::new(),
    };
    let stop_reasons = responses.iter().map(|_| StopReason::Length).collect();
    InferenceEngineOutput {
        responses,
        stop_reasons,
    }
}

#[test]
fn test_generate_with_trajectory_routing_three_prompts() {
    let client = three_engines();
    let input = prompts_input(
        &["Prompt 1", "Prompt 2", "Prompt 3"],
        Some(&["traj_001", "traj_002", "traj_003"]),
    );

    let plan = client.plan_trajectory_routing(&input);
    assert!(plan.is_ok(), "Should succeed with valid input");
    let plan = plan.unwrap();
    let results: Vec<_> = plan
        .dispatches
        .iter()
        .map(|dispatch| client.engines()[dispatch.engine_index].generate(&dispatch.input))
        .collect();
    let result = client.finish_generate(
        plan.routing,
        plan.indices_lists,
        plan.input_length,
        results,
    );

    assert!(result.is_ok(), "Should succeed with valid input");
    let output = result.unwrap();
    assert_eq!(output.responses.len(), 3, "Should have 3 responses");
    assert_eq!(output.stop_reasons.len(), 3, "Should have 3 stop reasons");
    assert!(
        output.responses[0].contains("Engine"),
        "First response should be from an engine"
    );
    assert!(
        output.responses[1].contains("Engine"),
        "Second response should be from an engine"
    );
    assert!(
        output.responses[2].contains("Engine"),
        "Third response should be from an engine"
    );
}

#[test]
fn request_with_both_shapes_is_invalid() {
    let client = three_engines();
    let mut input = prompts_input(&["a"], None);
    input.prompt_token_ids = Some(vec![vec![1]]);
    assert_eq!(
        client.plan_generate(&input),
        Err(InferenceError::InvalidInput(
            "Either prompts or prompt_token_ids must be provided, but not both".to_string()
        ))
    );
}

#[test]
fn request_with_neither_shape_is_invalid() {
    let client = three_engines();
    let input = InferenceEngineInput {
        prompts: None,
        prompt_token_ids: None,
        sampling_params: None,
        trajectory_ids: Some(vec![]),
    };
    assert_eq!(
        client.plan_generate(&input),
        Err(InferenceError::InvalidInput(
            "Either prompts or prompt_token_ids must be provided, but not both".to_string()
        ))
    );
}

#[test]
fn request_with_exactly_one_shape_is_planned() {
    let client = three_engines();
    assert!(client.plan_generate(&prompts_input(&["a", "b"], None)).is_ok());
    assert!(client.plan_generate(&tokens_input(vec![vec![1], vec![2]], None)).is_ok());
    assert!(client
        .plan_generate(&tokens_input(vec![vec![1], vec![2]], Some(&["x", "y"])))
        .is_ok());
}

#[test]
fn trajectory_ids_must_match_the_items_in_number() {
    let client = three_engines();
    let input = prompts_input(&["a", "b", "c"], Some(&["x", "y"]));
    assert_eq!(
        client.plan_generate(&input),
        Err(InferenceError::InvalidInput(
            "trajectory_ids length (2) must match input length (3)".to_string()
        ))
    );
    assert_eq!(
        client.validate_trajectory_length(&["x".to_string()], 12),
        Err(InferenceError::InvalidInput(
            "trajectory_ids length (1) must match input length (12)".to_string()
        ))
    );
    assert_eq!(client.validate_trajectory_length(&["x".to_string()], 1), Ok(()));
}

#[test]
fn trajectory_routing_needs_trajectory_ids() {
    let client = three_engines();
    assert_eq!(
        client.plan_trajectory_routing(&prompts_input(&["a"], None)),
        Err(InferenceError::InvalidInput(
            "trajectory_ids required for trajectory routing".to_string()
        ))
    );
    let mut both = prompts_input(&["a"], Some(&["x"]));
    both.prompt_token_ids = Some(vec![vec![1]]);
    assert_eq!(
        client.plan_trajectory_routing(&both),
        Err(InferenceError::InvalidInput(
            "Invalid input state in trajectory routing".to_string()
        ))
    );
}

#[test]
fn classification_of_shapes() {
    let client = three_engines();
    assert_eq!(
        client.validate_and_classify_input(&prompts_input(&["a", "b"], None)),
        Ok((2, true))
    );
    assert_eq!(
        client.validate_and_classify_input(&tokens_input(vec![vec![1], vec![2], vec![3]], None)),
        Ok((3, false))
    );
    let neither = InferenceEngineInput {
        prompts: None,
        prompt_token_ids: None,
        sampling_params: None,
        trajectory_ids: None,
    };
    assert_eq!(
        client.validate_and_classify_input(&neither),
        Err(InferenceError::InvalidInput(
            "Invalid input state in trajectory routing".to_string()
        ))
    );
}

#[test]
fn batched_plan_needs_exactly_one_shape() {
    let client = three_engines();
    let neither = InferenceEngineInput {
        prompts: None,
        prompt_token_ids: None,
        sampling_params: None,
        trajectory_ids: None,
    };
    assert_eq!(
        client.plan_batched(&neither),
        Err(InferenceError::InvalidInput(
            "Invalid input state in generate_batched".to_string()
        ))
    );
}

#[test]
fn even_batching_of_ten_items_over_three_engines() {
    let client = three_engines();
    let contents: Vec<String> = (0..10).map(|i| format!("p{}", i)).collect();
    let refs: Vec<&str> = contents.iter().map(|c| c.as_str()).collect();
    let input = prompts_input(&refs, None);
    let plan = client.plan_generate(&input).expect("a valid request");
    assert_eq!(plan.routing, Routing::EvenBatches);
    assert_eq!(plan.input_length, 10);
    assert_eq!(
        plan.indices_lists,
        vec![vec![0, 1, 2, 3], vec![4, 5, 6, 7], vec![8, 9]]
    );
    let engines: Vec<usize> = plan.dispatches.iter().map(|d| d.engine_index).collect();
    assert_eq!(engines, vec![0, 1, 2]);
    let sizes: usize = plan.indices_lists.iter().map(|l| l.len()).sum();
    assert_eq!(sizes, 10);
    for (dispatch, indices) in plan.dispatches.iter().zip(plan.indices_lists.iter()) {
        let expected: Vec<Vec<Message>> = indices.iter().map(|&i| user(refs[i])).collect();
        assert_eq!(dispatch.input.prompts, Some(expected));
        assert_eq!(dispatch.input.prompt_token_ids, None);
        assert_eq!(dispatch.input.sampling_params, Some(sampling()));
        assert_eq!(dispatch.input.trajectory_ids, None);
    }
}

#[test]
fn even_batching_skips_engines_beyond_the_request() {
    let client = three_engines();
    let plan = client
        .plan_generate(&tokens_input(vec![vec![1, 2], vec![3]], None))
        .expect("a valid request");
    assert_eq!(plan.indices_lists, vec![vec![0], vec![1]]);
    assert_eq!(
        plan.dispatches,
        vec![
            EngineDispatch {
                engine_index: 0,
                input: tokens_input(vec![vec![1, 2]], None),
            },
            EngineDispatch {
                engine_index: 1,
                input: tokens_input(vec![vec![3]], None),
            },
        ]
    );
}

#[test]
fn even_batching_of_an_empty_request_dispatches_nothing() {
    let client = three_engines();
    let input = tokens_input(vec![], None);
    let plan = client.plan_generate(&input).expect("a valid request");
    assert!(plan.dispatches.is_empty());
    assert!(plan.indices_lists.is_empty());
    assert_eq!(
        run(&client, &input),
        Ok(InferenceEngineOutput {
            responses: vec![],
            stop_reasons: vec![],
        })
    );
}

#[test]
fn batched_answers_come_back_in_request_order() {
    let client = three_engines();
    let contents: Vec<String> = (0..7).map(|i| format!("question {}", i)).collect();
    let refs: Vec<&str> = contents.iter().map(|c| c.as_str()).collect();
    let input = prompts_input(&refs, None);
    let plan = client.plan_generate(&input).expect("a valid request");
    let results = plan.dispatches.iter().map(|d| Ok(echo(&d.input))).collect();
    let output = client
        .finish_generate(plan.routing, plan.indices_lists, plan.input_length, results)
        .expect("all backends answered");
    let expected: Vec<String> = contents.iter().map(|c| format!("re: {}", c)).collect();
    assert_eq!(output.responses, expected);
    assert_eq!(output.stop_reasons.len(), 7);
}

#[test]
fn routing_is_sticky_and_follows_the_default_hasher() {
    let client = three_engines();
    for id in ["traj_001", "traj_002", "traj_003", "", "a much longer trajectory identifier"] {
        let first = client.calculate_engine_index(id);
        let second = client.calculate_engine_index(id);
        assert_eq!(first, second);
        assert!(first < 3);
        assert_eq!(first, expected_index(id, 3));
    }
    let single = InferenceEngineClient::new(vec![MockEngine::new("only")]).expect("one backend");
    assert_eq!(single.calculate_engine_index("anything"), 0);
}

#[test]
fn grouping_lists_positions_by_engine_in_ascending_order() {
    let client = three_engines();
    let ids: Vec<String> = (0..20).map(|i| format!("traj_{}", i % 6)).collect();
    let groups = client.group_by_engine(&ids);
    let mut expected: HashMap<usize, Vec<usize>> = HashMap::new();
    for (position, id) in ids.iter().enumerate() {
        expected.entry(expected_index(id, 3)).or_default().push(position);
    }
    assert_eq!(groups, expected);
    assert!(client.group_by_engine(&[]).is_empty());
}

#[test]
fn trajectory_routed_answers_come_back_in_request_order() {
    let client = three_engines();
    let contents: Vec<String> = (0..9).map(|i| format!("turn {}", i)).collect();
    let refs: Vec<&str> = contents.iter().map(|c| c.as_str()).collect();
    let ids: Vec<String> = (0..9).map(|i| format!("session-{}", i % 4)).collect();
    let id_refs: Vec<&str> = ids.iter().map(|c| c.as_str()).collect();
    let input = prompts_input(&refs, Some(&id_refs));
    let plan = client.plan_generate(&input).expect("a valid request");
    assert_eq!(plan.routing, Routing::ByTrajectory);
    for (dispatch, indices) in plan.dispatches.iter().zip(plan.indices_lists.iter()) {
        assert!(!indices.is_empty());
        for &position in indices {
            assert_eq!(expected_index(&ids[position], 3), dispatch.engine_index);
        }
    }
    let results = plan.dispatches.iter().map(|d| Ok(echo(&d.input))).collect();
    let output = client
        .finish_generate(plan.routing, plan.indices_lists, plan.input_length, results)
        .expect("all backends answered");
    let expected: Vec<String> = contents.iter().map(|c| format!("re: {}", c)).collect();
    assert_eq!(output.responses, expected);
    assert_eq!(output.stop_reasons, (0..9).map(|_| StopReason::Length).collect::<Vec<_>>());
}

#[test]
fn reconstruction_does_not_depend_on_the_order_of_the_answers() {
    let client = three_engines();
    let outputs = |order: &[usize]| -> (Vec<InferenceEngineOutput>, Vec<Vec<usize>>) {
        let all = vec![
            (vec![0usize], "r0"),
            (vec![1usize], "r1"),
            (vec![2usize], "r2"),
        ];
        let mut engine_outputs = Vec::new();
        let mut indices_lists = Vec::new();
        for &k in order {
            engine_outputs.push(InferenceEngineOutput {
                responses: vec![all[k].1.to_string()],
                stop_reasons: vec![StopReason::Stop],
            });
            indices_lists.push(all[k].0.clone());
        }
        (engine_outputs, indices_lists)
    };
    let expected = InferenceEngineOutput {
        responses: vec!["r0".to_string(), "r1".to_string(), "r2".to_string()],
        stop_reasons: vec![StopReason::Stop, StopReason::Stop, StopReason::Stop],
    };
    for order in [[0, 1, 2], [2, 1, 0], [1, 2, 0], [1, 0, 2]] {
        let (engine_outputs, indices_lists) = outputs(&order);
        assert!(client.outputs_fit(&engine_outputs, &indices_lists, 3));
        assert_eq!(
            client.reconstruct_output(engine_outputs, indices_lists, 3),
            Ok(expected.clone())
        );
    }
}

#[test]
fn reconstruction_leaves_unnamed_positions_unset() {
    let client = three_engines();
    let engine_outputs = vec![InferenceEngineOutput {
        responses: vec!["b".to_string(), "a".to_string(), "spare".to_string()],
        stop_reasons: vec![StopReason::Error, StopReason::Timeout, StopReason::Stop],
    }];
    let output = client
        .reconstruct_output(engine_outputs, vec![vec![3, 1]], 4)
        .expect("fits");
    assert_eq!(output.responses, vec!["", "a", "", "b"]);
    assert_eq!(
        output.stop_reasons,
        vec![
            StopReason::Other("unset".to_string()),
            StopReason::Timeout,
            StopReason::Other("unset".to_string()),
            StopReason::Error,
        ]
    );
}

#[test]
fn answers_that_do_not_fit_are_told_apart() {
    let client = three_engines();
    let short = vec![InferenceEngineOutput {
        responses: vec!["only one".to_string()],
        stop_reasons: vec![StopReason::Stop],
    }];
    assert!(!client.outputs_fit(&short, &vec![vec![0, 1]], 2));
    assert!(!client.outputs_fit(&short, &vec![vec![5]], 2));
    assert!(client.outputs_fit(&short, &vec![vec![1]], 2));
    assert!(client.outputs_fit(&short, &vec![vec![1], vec![9, 9, 9]], 2));
    let lopsided = vec![InferenceEngineOutput {
        responses: vec!["a".to_string(), "b".to_string()],
        stop_reasons: vec![StopReason::Stop],
    }];
    assert!(!client.outputs_fit(&lopsided, &vec![vec![0, 1]], 2));
}

#[test]
fn sub_request_holds_the_items_at_the_given_positions() {
    let client = three_engines();
    let input = prompts_input(&["zero", "one", "two", "three"], Some(&["a", "b", "c", "d"]));
    let sub = client.build_engine_input(&[3, 0, 3], &input, true).expect("always built");
    assert_eq!(sub, prompts_input(&["three", "zero", "three"], None));
    let tokens = tokens_input(vec![vec![1], vec![2, 2], vec![3, 3, 3]], None);
    let sub = client.build_engine_input(&[2, 1], &tokens, false).expect("always built");
    assert_eq!(sub, tokens_input(vec![vec![3, 3, 3], vec![2, 2]], None));
    let none = client.build_engine_input(&[], &tokens, false).expect("always built");
    assert_eq!(none, tokens_input(vec![], None));
}

#[test]
fn sampling_configuration_with_extras_is_carried_through() {
    let client = three_engines();
    let mut extra = HashMap::new();
    extra.insert("seed".to_string(), serde_json::Value::from(42));
    extra.insert("tag".to_string(), serde_json::Value::from("x"));
    let params = SamplingParams {
        temperature: Some(1.5f32.to_bits()),
        max_tokens: None,
        top_p: None,
        top_k: Some(3),
        stop: Some(vec!["</s>".to_string(), "\n\n".to_string()]),
        extra: Some(extra),
    };
    let mut input = tokens_input(vec![vec![1], vec![2], vec![3], vec![4]], None);
    input.sampling_params = Some(params.clone());
    let plan = client.plan_generate(&input).expect("a valid request");
    assert_eq!(plan.dispatches.len(), 2);
    for dispatch in &plan.dispatches {
        assert_eq!(dispatch.input.sampling_params, Some(params.clone()));
    }
    assert_eq!(
        f32::from_bits(plan.dispatches[0].input.sampling_params.as_ref().unwrap().temperature.unwrap()),
        1.5
    );
}

#[test]
fn failure_of_one_backend_fails_the_whole_call() {
    let client = three_engines();
    let input = prompts_input(&["a", "b", "c"], None);
    let plan = client.plan_generate(&input).expect("a valid request");
    let results = vec![
        Ok(echo(&plan.dispatches[0].input)),
        Err(InferenceError::Timeout { seconds: 30 }),
        Err(InferenceError::EngineUnavailable),
    ];
    assert_eq!(
        client.finish_generate(plan.routing, plan.indices_lists, plan.input_length, results),
        Err(InferenceError::Timeout { seconds: 30 })
    );
    let routed = prompts_input(&["a"], Some(&["t"]));
    let plan = client.plan_generate(&routed).expect("a valid request");
    let results = vec![Err(InferenceError::CommunicationError("reset".to_string()))];
    assert_eq!(
        client.finish_generate(plan.routing, plan.indices_lists, plan.input_length, results),
        Err(InferenceError::CommunicationError("reset".to_string()))
    );
}

#[test]
fn end_to_end_with_mock_engines() {
    let client = three_engines();
    let input = prompts_input(&["a", "b", "c", "d"], None);
    let output = run(&client, &input).expect("all backends answered");
    assert_eq!(
        output.responses,
        vec![
            "Response from Engine0 for item 0",
            "Response from Engine0 for item 1",
            "Response from Engine1 for item 0",
            "Response from Engine1 for item 1",
        ]
    );
}

#[test]
fn answers_are_checked_before_a_call_is_finished() {
    let client = three_engines();
    let short = || -> Vec<Result<InferenceEngineOutput, InferenceError>> {
        vec![Ok(InferenceEngineOutput {
            responses: vec!["only one".to_string()],
            stop_reasons: vec![StopReason::Stop],
        })]
    };
    assert!(!client.results_fit(Routing::ByTrajectory, &vec![vec![0, 1]], 2, &short()));
    assert!(!client.results_fit(Routing::ByTrajectory, &vec![vec![2]], 2, &short()));
    assert!(client.results_fit(Routing::ByTrajectory, &vec![vec![1]], 2, &short()));
    assert!(client.results_fit(Routing::EvenBatches, &vec![vec![0, 1]], 2, &short()));
    let failed = vec![
        Ok(InferenceEngineOutput {
            responses: vec![],
            stop_reasons: vec![],
        }),
        Err(InferenceError::EngineUnavailable),
    ];
    assert!(client.results_fit(Routing::ByTrajectory, &vec![vec![0, 1], vec![7]], 2, &failed));
    assert_eq!(
        client.finish_generate(Routing::ByTrajectory, vec![vec![0, 1], vec![7]], 2, failed),
        Err(InferenceError::EngineUnavailable)
    );
}
