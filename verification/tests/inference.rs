use model_serving::inference_core::errors::Error;
use model_serving::inference_core::generate::{resolve_eos_tokens, Generation, REPEAT_LAST_N};
use model_serving::inference_core::hf::TempModel;
use model_serving::inference_core::modelpool::{ModelPool, SendBackMessage};
use model_serving::inference_core::weights::{
    unique_names, weight_files, weight_files_from_index, InvalidWeightIndex, WeightIndexError,
};

/// Runs a generation, answering each pass with the next of `samples`.
fn run(prompt: Vec<u32>, eos: Vec<u32>, max: usize, samples: &[u32]) -> (Vec<u32>, usize) {
    let mut g = Generation::new(prompt, eos, max);
    let mut passes = 0;
    let mut next = samples.iter();
    while let Some(_step) = g.next_step() {
        passes += 1;
        match next.next() {
            Some(t) => g.accept(*t),
            None => break,
        }
    }
    (g.tokens().clone(), passes)
}

#[test]
fn first_pass_sees_whole_prompt_then_one_token() {
    let mut g = Generation::new(vec![10, 11, 12], vec![0], 4);
    let s = g.next_step().unwrap();
    assert_eq!(s.start_pos, 0);
    assert_eq!(s.context, vec![10, 11, 12]);
    assert_eq!(s.penalty_window, vec![10, 11, 12]);
    g.accept(13);
    let s = g.next_step().unwrap();
    assert_eq!(s.start_pos, 3);
    assert_eq!(s.context, vec![13]);
    assert_eq!(s.penalty_window, vec![10, 11, 12, 13]);
}

#[test]
fn stops_at_budget() {
    let (tokens, passes) = run(vec![1, 2], vec![0], 3, &[5, 6, 7, 8, 9]);
    assert_eq!(tokens, vec![1, 2, 5, 6, 7]);
    assert_eq!(passes, 3);
}

#[test]
fn stops_after_end_of_sequence_token() {
    let (tokens, passes) = run(vec![1, 2], vec![99, 0], 10, &[5, 0, 7]);
    assert_eq!(tokens, vec![1, 2, 5, 0]);
    assert_eq!(passes, 2);
}

#[test]
fn zero_budget_runs_no_pass() {
    let mut g = Generation::new(vec![1, 2], vec![0], 0);
    assert!(g.is_done());
    assert!(g.next_step().is_none());
    assert_eq!(g.generated(), Vec::<u32>::new());
    assert_eq!(g.tokens(), &vec![1, 2]);
    let _ = &mut g;
}

#[test]
fn empty_prompt_first_pass_is_empty() {
    let g = Generation::new(vec![], vec![0], 2);
    let s = g.next_step().unwrap();
    assert_eq!(s.start_pos, 0);
    assert!(s.context.is_empty());
}

#[test]
fn penalty_window_holds_last_64_tokens() {
    let prompt: Vec<u32> = (0..100).collect();
    let mut g = Generation::new(prompt, vec![], 5);
    let s = g.next_step().unwrap();
    assert_eq!(s.penalty_window.len(), REPEAT_LAST_N);
    assert_eq!(s.penalty_window[0], 36);
    g.accept(7);
    let s = g.next_step().unwrap();
    assert_eq!(s.start_pos, 100);
    assert_eq!(s.context, vec![7]);
    assert_eq!(s.penalty_window.len(), 64);
    assert_eq!(*s.penalty_window.last().unwrap(), 7);
    assert_eq!(g.generated(), vec![7]);
}

#[test]
fn eos_lookups_keep_found_ids_in_order() {
    assert_eq!(resolve_eos_tokens(vec![Some(3), None, Some(1)]), vec![3, 1]);
    assert_eq!(resolve_eos_tokens(vec![None, None]), Vec::<u32>::new());
    assert_eq!(resolve_eos_tokens(vec![]), Vec::<u32>::new());
}

#[test]
fn temp_model_streams_zero_to_nine() {
    assert_eq!(TempModel.stream_tokens(), (0..10).collect::<Vec<u32>>());
}

#[test]
fn unsharded_repository_loads_single_file() {
    assert_eq!(weight_files(None), Ok(vec!["model.safetensors".to_string()]));
}

#[test]
fn index_without_weight_map_is_invalid() {
    assert_eq!(weight_files(Some(None)), Err(InvalidWeightIndex));
}

#[test]
fn sharded_repository_loads_each_file_once() {
    let names = vec![
        "model-00001-of-00002.safetensors".to_string(),
        "model-00002-of-00002.safetensors".to_string(),
        "model-00001-of-00002.safetensors".to_string(),
    ];
    assert_eq!(
        weight_files(Some(Some(names))),
        Ok(vec![
            "model-00001-of-00002.safetensors".to_string(),
            "model-00002-of-00002.safetensors".to_string(),
        ])
    );
    assert_eq!(unique_names(&vec![]), Vec::<String>::new());
}

#[test]
fn jobs_carry_their_budget() {
    let (tx, _rx) = tokio::sync::mpsc::channel(4);
    let m = SendBackMessage::Streaming { prompt: "hi".to_string(), sender: tx };
    assert_eq!(m.max_new_tokens(), 128);
    assert!(m.is_streaming());
    assert_eq!(m.prompt(), "hi");
    let (tx, _rx) = tokio::sync::oneshot::channel();
    let m = SendBackMessage::Blocking { prompt: "yo".to_string(), sender: tx };
    assert_eq!(m.max_new_tokens(), 32);
    assert!(!m.is_streaming());
    assert_eq!(m.prompt(), "yo");
}

#[test]
fn open_pool_queues_jobs() {
    let (tx, rx) = crossbeam_channel::unbounded();
    let pool = ModelPool::new(tx);
    let (reply, _r) = tokio::sync::oneshot::channel();
    let r = pool.infer(SendBackMessage::Blocking { prompt: "tell me a joke".to_string(), sender: reply });
    assert!(r.is_ok());
    let job = rx.try_recv().unwrap();
    assert_eq!(job.prompt(), "tell me a joke");
}

#[test]
fn pool_without_workers_hands_job_back() {
    let (tx, rx) = crossbeam_channel::unbounded();
    drop(rx);
    let pool = ModelPool::new(tx);
    let (reply, _r) = tokio::sync::oneshot::channel();
    let r = pool.infer(SendBackMessage::Blocking { prompt: "p".to_string(), sender: reply });
    match r {
        Err(Error::TaskScheduleError(m)) => assert_eq!(m.prompt(), "p"),
        _ => panic!("expected a scheduling error"),
    }
}

#[test]
fn shut_down_pool_refuses_jobs() {
    let (tx, rx) = crossbeam_channel::unbounded();
    let mut pool = ModelPool::new(tx);
    pool.shutdown();
    assert!(pool.tx.is_none());
    let (reply, _r) = tokio::sync::oneshot::channel();
    let r = pool.infer(SendBackMessage::Blocking { prompt: "p".to_string(), sender: reply });
    assert!(matches!(r, Err(Error::Other { reason: "sender already dropped" })));
    assert!(rx.try_recv().is_err());
}

#[test]
fn no_index_loads_single_file() {
    match weight_files_from_index(None) {
        Ok(files) => assert_eq!(files, vec!["model.safetensors".to_string()]),
        Err(_) => panic!("expected the single weight file"),
    }
}

#[test]
fn index_names_each_shard_once() {
    let index = br#"{"metadata": {"total_size": 10},
        "weight_map": {"a.weight": "model-00001-of-00002.safetensors",
                       "b.weight": "model-00002-of-00002.safetensors",
                       "c.weight": "model-00001-of-00002.safetensors"}}"#;
    match weight_files_from_index(Some(&index[..])) {
        Ok(mut files) => {
            files.sort();
            assert_eq!(
                files,
                vec![
                    "model-00001-of-00002.safetensors".to_string(),
                    "model-00002-of-00002.safetensors".to_string(),
                ]
            );
        }
        Err(_) => panic!("expected the shard files"),
    }
}

#[test]
fn index_that_is_no_json_is_refused() {
    assert!(matches!(weight_files_from_index(Some(&b"not json"[..])), Err(WeightIndexError::NotJson(_))));
}

#[test]
fn index_without_weight_map_object_is_refused() {
    assert!(matches!(
        weight_files_from_index(Some(&br#"{"metadata": {}}"#[..])),
        Err(WeightIndexError::NoWeightMap)
    ));
    assert!(matches!(
        weight_files_from_index(Some(&br#"{"weight_map": ["a"]}"#[..])),
        Err(WeightIndexError::NoWeightMap)
    ));
}

#[test]
fn index_with_a_value_that_is_no_name_is_refused() {
    assert!(matches!(
        weight_files_from_index(Some(&br#"{"weight_map": {"a": "x.safetensors", "b": 3}}"#[..])),
        Err(WeightIndexError::NotAFileName)
    ));
}

#[test]
fn missing_eos_names_change_nothing() {
    assert_eq!(
        resolve_eos_tokens(vec![Some(3), None, Some(1), None]),
        resolve_eos_tokens(vec![Some(3), Some(1)])
    );
}

#[test]
fn index_whose_weight_map_is_no_object_is_refused() {
    assert!(matches!(
        weight_files_from_index(Some(&br#"{"weight_map": "model.safetensors"}"#[..])),
        Err(WeightIndexError::NoWeightMap)
    ));
    assert!(matches!(weight_files_from_index(Some(&b"[1, 2]"[..])), Err(WeightIndexError::NoWeightMap)));
}
