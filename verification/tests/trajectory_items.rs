use ferrum::inference::client::InferenceEngineClient;
use ferrum::inference::trajectory::{TrajectoryData, TrajectoryItem, TrajectoryPlan};
use ferrum::inference::types::{
    InferenceEngineInput, InferenceEngineOutput, InferenceError, Message, SamplingParams,
    StopReason,
};
use std::collections::hash_map::DefaultHasher;
use std::collections::HashMap;
use std::hash::{Hash, Hasher};

fn client(engines: usize) -> InferenceEngineClient<usize> {
    InferenceEngineClient::new((0..engines).collect()).expect("at least one backend")
}

fn expected_index(id: &str, engines: usize) -> usize {
    let mut hasher = DefaultHasher::new();
    id.hash(&mut hasher);
    (hasher.finish() as usize) % engines
}

fn user(content: &str) -> Vec<Message> {
    vec![Message {
        role: "user".to_string(),
        content: content.to_string(),
    }]
}

fn prompt_item(id: &str, index: usize, content: &str) -> TrajectoryItem {
    TrajectoryItem {
        trajectory_id: id.to_string(),
        original_index: index,
        data: TrajectoryData::Prompts(user(content)),
    }
}

fn token_item(id: &str, index: usize, tokens: &[i32]) -> TrajectoryItem {
    TrajectoryItem {
        trajectory_id: id.to_string(),
        original_index: index,
        data: TrajectoryData::Tokens(tokens.to_vec()),
    }
}

fn params() -> SamplingParams {
    SamplingParams {
        temperature: None,
        max_tokens: Some(16),
        top_p: None,
        top_k: None,
        stop: Some(vec!["stop".to_string()]),
        extra: None,
    }
}

fn answer(texts: &[&str]) -> InferenceEngineOutput {
    InferenceEngineOutput {
        responses: texts.iter().map(|t| t.to_string()).collect(),
        stop_reasons: texts.iter().map(|_| StopReason::Stop).collect(),
    }
}

fn invalid(text: &str) -> InferenceError {
    InferenceError::InvalidInput(text.to_string())
}

#[test]
fn items_are_made_from_prompts() {
    let input = InferenceEngineInput {
        prompts: Some(vec![user("a"), user("b")]),
        prompt_token_ids: None,
        sampling_params: None,
        trajectory_ids: Some(vec!["x".to_string(), "y".to_string()]),
    };
    assert_eq!(
        client(2).create_trajectory_items(&input),
        Ok(vec![prompt_item("x", 0, "a"), prompt_item("y", 1, "b")])
    );
}

#[test]
fn items_are_made_from_tokens() {
    let input = InferenceEngineInput {
        prompts: None,
        prompt_token_ids: Some(vec![vec![1, 2], vec![], vec![3]]),
        sampling_params: None,
        trajectory_ids: Some(vec!["x".to_string(), "y".to_string(), "x".to_string()]),
    };
    assert_eq!(
        client(2).create_trajectory_items(&input),
        Ok(vec![
            token_item("x", 0, &[1, 2]),
            token_item("y", 1, &[]),
            token_item("x", 2, &[3]),
        ])
    );
}

#[test]
fn prompts_win_over_tokens_when_both_are_given() {
    let input = InferenceEngineInput {
        prompts: Some(vec![user("a")]),
        prompt_token_ids: Some(vec![vec![1], vec![2]]),
        sampling_params: None,
        trajectory_ids: Some(vec!["x".to_string()]),
    };
    assert_eq!(
        client(2).create_trajectory_items(&input),
        Ok(vec![prompt_item("x", 0, "a")])
    );
}

#[test]
fn items_need_trajectory_ids_and_a_shape_of_matching_length() {
    let router = client(3);
    let mut input = InferenceEngineInput {
        prompts: Some(vec![user("a"), user("b")]),
        prompt_token_ids: None,
        sampling_params: None,
        trajectory_ids: None,
    };
    assert_eq!(
        router.create_trajectory_items(&input),
        Err(invalid("trajectory_ids required"))
    );
    input.trajectory_ids = Some(vec!["x".to_string()]);
    assert_eq!(
        router.create_trajectory_items(&input),
        Err(invalid("prompts length (2) must match trajectory_ids length (1)"))
    );
    input.prompts = None;
    input.prompt_token_ids = Some(vec![]);
    assert_eq!(
        router.create_trajectory_items(&input),
        Err(invalid("tokens length (0) must match trajectory_ids length (1)"))
    );
    input.prompt_token_ids = None;
    assert_eq!(
        router.create_trajectory_items(&input),
        Err(invalid("Either prompts or prompt_token_ids must be provided"))
    );
}

#[test]
fn items_are_grouped_by_engine_in_their_order() {
    let router = client(3);
    let ids = ["a", "b", "c", "a", "d", "b", "e"];
    let items: Vec<TrajectoryItem> = ids
        .iter()
        .enumerate()
        .map(|(i, id)| token_item(id, i, &[i as i32]))
        .collect();
    let mut expected: HashMap<usize, Vec<TrajectoryItem>> = HashMap::new();
    for (i, id) in ids.iter().enumerate() {
        expected
            .entry(expected_index(id, 3))
            .or_default()
            .push(token_item(id, i, &[i as i32]));
    }
    assert_eq!(router.group_trajectories_by_engine(items), expected);
    assert!(router.group_trajectories_by_engine(vec![]).is_empty());
}

#[test]
fn sub_request_from_items() {
    let router = client(2);
    let prompts = vec![prompt_item("x", 4, "late"), prompt_item("y", 0, "early")];
    assert_eq!(
        router.build_engine_input_from_traj_items(&prompts, &Some(params())),
        Ok(InferenceEngineInput {
            prompts: Some(vec![user("late"), user("early")]),
            prompt_token_ids: None,
            sampling_params: Some(params()),
            trajectory_ids: None,
        })
    );
    let tokens = vec![token_item("x", 1, &[7]), token_item("x", 2, &[8, 9])];
    assert_eq!(
        router.build_engine_input_from_traj_items(&tokens, &None),
        Ok(InferenceEngineInput {
            prompts: None,
            prompt_token_ids: Some(vec![vec![7], vec![8, 9]]),
            sampling_params: None,
            trajectory_ids: None,
        })
    );
}

#[test]
fn empty_and_mixed_groups_are_refused() {
    let router = client(2);
    assert_eq!(
        router.build_engine_input_from_traj_items(&[], &None),
        Err(invalid("Empty batch"))
    );
    let mixed = vec![prompt_item("x", 0, "a"), token_item("x", 1, &[1])];
    assert_eq!(
        router.build_engine_input_from_traj_items(&mixed, &None),
        Err(invalid("Mixed prompt and token data in same batch"))
    );
    let mixed = vec![token_item("x", 1, &[1]), token_item("x", 2, &[1]), prompt_item("x", 0, "a")];
    assert_eq!(
        router.build_engine_input_from_traj_items(&mixed, &None),
        Err(invalid("Mixed prompt and token data in same batch"))
    );
}

#[test]
fn groups_are_planned_in_backend_order() {
    let router = client(4);
    let mut groups = HashMap::new();
    groups.insert(3, vec![token_item("c", 2, &[3])]);
    groups.insert(0, vec![token_item("a", 0, &[1]), token_item("a", 1, &[2])]);
    let plan = router
        .plan_trajectory_groups(groups, &Some(params()))
        .expect("both groups can be sent");
    assert_eq!(
        plan,
        TrajectoryPlan {
            engine_indices: vec![0, 3],
            inputs: vec![
                InferenceEngineInput {
                    prompts: None,
                    prompt_token_ids: Some(vec![vec![1], vec![2]]),
                    sampling_params: Some(params()),
                    trajectory_ids: None,
                },
                InferenceEngineInput {
                    prompts: None,
                    prompt_token_ids: Some(vec![vec![3]]),
                    sampling_params: Some(params()),
                    trajectory_ids: None,
                },
            ],
            traj_item_lists: vec![
                vec![token_item("a", 0, &[1]), token_item("a", 1, &[2])],
                vec![token_item("c", 2, &[3])],
            ],
        }
    );
}

#[test]
fn a_group_that_cannot_be_sent_fails_the_plan() {
    let router = client(4);
    let mut groups = HashMap::new();
    groups.insert(1, vec![token_item("a", 0, &[1])]);
    groups.insert(2, vec![]);
    groups.insert(3, vec![token_item("a", 0, &[1]), prompt_item("b", 1, "x")]);
    assert_eq!(
        router.plan_trajectory_groups(groups, &None),
        Err(invalid("Empty batch"))
    );
}

#[test]
fn results_are_joined_with_their_items() {
    let router = client(3);
    let collected = router
        .collect_trajectory_results(
            vec![2, 0],
            vec![vec![token_item("a", 1, &[1])], vec![token_item("b", 0, &[2])]],
            vec![Ok(answer(&["two"])), Ok(answer(&["zero"]))],
        )
        .expect("both backends answered");
    let mut expected = HashMap::new();
    expected.insert(2, (vec![token_item("a", 1, &[1])], answer(&["two"])));
    expected.insert(0, (vec![token_item("b", 0, &[2])], answer(&["zero"])));
    assert_eq!(collected, expected);
}

#[test]
fn first_failed_result_fails_the_collection() {
    let router = client(3);
    assert_eq!(
        router.collect_trajectory_results(
            vec![0, 1, 2],
            vec![vec![], vec![], vec![]],
            vec![
                Ok(answer(&[])),
                Err(InferenceError::EngineUnavailable),
                Err(InferenceError::Timeout { seconds: 2 }),
            ],
        ),
        Err(InferenceError::EngineUnavailable)
    );
    let passed_over = router.collect_trajectory_results(
        vec![0],
        vec![vec![], vec![]],
        vec![Ok(answer(&[])), Err(InferenceError::EngineUnavailable)],
    );
    let mut expected = HashMap::new();
    expected.insert(0, (vec![], answer(&[])));
    assert_eq!(passed_over, Ok(expected));
}

#[test]
fn answers_go_back_to_the_positions_of_their_items() {
    let router = client(3);
    let input = InferenceEngineInput {
        prompts: None,
        prompt_token_ids: Some(vec![vec![0], vec![1], vec![2], vec![3]]),
        sampling_params: None,
        trajectory_ids: None,
    };
    let mut results = HashMap::new();
    results.insert(
        1,
        (
            vec![token_item("a", 3, &[3]), token_item("a", 0, &[0])],
            answer(&["for three", "for zero", "spare"]),
        ),
    );
    results.insert(0, (vec![token_item("b", 2, &[2]), token_item("b", 1, &[1])], answer(&["for two"])));
    let output = router
        .reconstruct_by_original_index(results, &input)
        .expect("the request has items");
    assert_eq!(output.responses, vec!["for zero", "", "for two", "for three"]);
    assert_eq!(
        output.stop_reasons,
        vec![
            StopReason::Stop,
            StopReason::Other("unset".to_string()),
            StopReason::Stop,
            StopReason::Stop,
        ]
    );
}

#[test]
fn reconstruction_needs_a_request_with_items() {
    let router = client(3);
    let input = InferenceEngineInput {
        prompts: None,
        prompt_token_ids: None,
        sampling_params: None,
        trajectory_ids: Some(vec![]),
    };
    assert_eq!(
        router.reconstruct_by_original_index(HashMap::new(), &input),
        Err(invalid("No input data"))
    );
    let mut results = HashMap::new();
    results.insert(0, (vec![token_item("a", 5, &[1])], answer(&["x"])));
    assert_eq!(
        router.reconstruct_by_original_index(results, &input),
        Err(invalid("No input data"))
    );
}

#[test]
fn items_route_end_to_end() {
    let router = client(3);
    let ids: Vec<String> = (0..8).map(|i| format!("t{}", i % 5)).collect();
    let input = InferenceEngineInput {
        prompts: Some((0..8).map(|i| user(&format!("q{}", i))).collect()),
        prompt_token_ids: None,
        sampling_params: Some(params()),
        trajectory_ids: Some(ids),
    };
    let items = router.create_trajectory_items(&input).expect("a valid request");
    let groups = router.group_trajectories_by_engine(items);
    let plan = router
        .plan_trajectory_groups(groups, &input.sampling_params)
        .expect("all groups can be sent");
    let results = plan
        .inputs
        .iter()
        .map(|sub| {
            let texts: Vec<String> = sub
                .prompts
                .as_ref()
                .expect("prompts")
                .iter()
                .map(|p| format!("re: {}", p[0].content))
                .collect();
            Ok(InferenceEngineOutput {
                stop_reasons: texts.iter().map(|_| StopReason::Length).collect(),
                responses: texts,
            })
        })
        .collect();
    let joined = router
        .collect_trajectory_results(plan.engine_indices, plan.traj_item_lists, results)
        .expect("all backends answered");
    let output = router
        .reconstruct_by_original_index(joined, &input)
        .expect("the request has items");
    let expected: Vec<String> = (0..8).map(|i| format!("re: q{}", i)).collect();
    assert_eq!(output.responses, expected);
}
