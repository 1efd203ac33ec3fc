use parakeet_eou::android_log::{error, info, log_with_priority};
use parakeet_eou::execution::{ExecutionProvider, GraphOptimizationPolicy, ModelConfig, SessionStep};
use parakeet_eou::files::{check_onnx_files, Backend, EncoderFile, ModelFiles};
use parakeet_eou::optimized::{
    optimized_model_cache_key, optimized_model_cache_paths, sanitize_cache_path_component,
    update_fnv1a, CacheKeyParts, LoadAction, LoadEvent, LoadState,
};

type Config = ModelConfig<String, u8>;

#[test]
fn settings_begin_on_the_processor() {
    let config = Config::new();
    assert_eq!(config.execution_provider, ExecutionProvider::default());
    assert_eq!(config.intra_threads, 4);
    assert_eq!(config.inter_threads, 1);
    assert!(config.configure.is_none());
    assert_eq!(config.configure_label(), "None");
    assert_eq!(
        config.apply_to_session_builder(),
        vec![
            SessionStep::OptimizationLevel(GraphOptimizationPolicy::All),
            SessionStep::IntraThreads(4),
            SessionStep::InterThreads(1),
        ]
    );
}

#[test]
fn every_setting_reaches_the_session() {
    let config = Config::new()
        .with_execution_provider(ExecutionProvider::CoreML)
        .with_intra_threads(2)
        .with_inter_threads(3)
        .with_custom_configure(9)
        .with_coreml_cache_dir(String::from("/coreml"))
        .with_ort_profiling(String::from("/profiles"), String::from("run"))
        .with_ort_optimized_model_cache_dir(String::from("/cache"));
    let steps = config.apply_to_session_builder_for_cached_model();
    assert_eq!(steps.len(), 7);
    assert_eq!(steps[0], SessionStep::OptimizationLevel(GraphOptimizationPolicy::Disable));
    assert_eq!(steps[1], SessionStep::IntraThreads(2));
    assert_eq!(steps[2], SessionStep::InterThreads(3));
    assert_eq!(steps[3], SessionStep::VerboseLogging);
    assert_eq!(steps[4], SessionStep::LogVerbosity(1));
    match steps[5] {
        SessionStep::ExecutionProviders(first, last) => {
            assert_eq!(first.provider, ExecutionProvider::CoreML);
            assert!(!first.error_on_failure && first.uses_model_cache);
            assert_eq!(last.provider, ExecutionProvider::Cpu);
            assert!(last.error_on_failure && !last.uses_model_cache);
        }
        other => panic!("{:?}", other),
    }
    assert_eq!(steps[6], SessionStep::CustomConfigure);
    assert_eq!(config.configure_label(), "<fn>");
    let (dir, file) = config.ort_profile_path("encoder").unwrap();
    assert_eq!(dir, "/profiles");
    assert_eq!(file, "run-encoder.json");
    assert_eq!(config.ort_optimized_model_cache_dir().unwrap(), "/cache");
    assert!(Config::new().ort_profile_path("encoder").is_none());
}

#[test]
fn only_coreml_uses_its_cache_directory() {
    let config = Config::new()
        .with_execution_provider(ExecutionProvider::NNAPI)
        .with_coreml_cache_dir(String::from("/coreml"));
    match config.apply_to_session_builder()[3] {
        SessionStep::ExecutionProviders(first, _) => {
            assert_eq!(first.provider, ExecutionProvider::NNAPI);
            assert!(!first.uses_model_cache);
        }
        other => panic!("{:?}", other),
    }
}

fn hashed(bytes: &[u8]) -> u64 {
    let mut hash = 0xcbf2_9ce4_8422_2325;
    update_fnv1a(&mut hash, bytes);
    hash
}

#[test]
fn hashes_are_the_known_ones() {
    assert_eq!(hashed(b""), 0xcbf2_9ce4_8422_2325);
    assert_eq!(hashed(b"a"), 0xaf63_dc4c_8601_ec8c);
    assert_eq!(hashed(b"foobar"), 0x8594_4171_f739_67e8);
    let mut both = hashed(b"foo");
    update_fnv1a(&mut both, b"bar");
    assert_eq!(both, hashed(b"foobar"));
}

fn parts<'a>() -> CacheKeyParts<'a> {
    CacheKeyParts {
        component: "encoder",
        source_path: "/m/enc.onnx",
        source_len: 42,
        modified_ns: 7,
        execution_provider: ExecutionProvider::Cpu,
        intra_threads: 4,
        inter_threads: 1,
        runtime_info: "ort é",
    }
}

#[test]
fn cache_keys_hash_everything_they_depend_on() {
    let key = optimized_model_cache_key(&parts());
    let text = "sayboard-parakeet-ort-cache-v1encoder/m/enc.onnx427Cpu41ort é";
    assert_eq!(key, format!("{:016x}", hashed(text.as_bytes())));
    let other = CacheKeyParts { intra_threads: 5, ..parts() };
    assert_ne!(optimized_model_cache_key(&other), key);
    let paths = optimized_model_cache_paths(true, Some("enc v1"), &parts()).unwrap();
    assert_eq!(paths.final_name, format!("encoder.enc_v1.{}.optimized.onnx", key));
    assert_eq!(paths.temp_name, format!("encoder.enc_v1.{}.optimized.onnx.tmp", key));
    let unnamed = optimized_model_cache_paths(true, None, &parts()).unwrap();
    assert_eq!(unnamed.final_name, format!("encoder.model.{}.optimized.onnx", key));
    assert!(optimized_model_cache_paths(false, Some("enc"), &parts()).is_none());
}

#[test]
fn file_names_are_made_plain() {
    assert_eq!(sanitize_cache_path_component("a-B_9.x"), "a-B_9.x");
    assert_eq!(sanitize_cache_path_component("a b/ü"), "a_b__");
    assert_eq!(sanitize_cache_path_component("a_b__"), "a_b__");
    assert_eq!(sanitize_cache_path_component(""), "");
}

#[test]
fn a_broken_cached_model_is_replaced() {
    let looked = LoadEvent::Looked { caching: true, cached_exists: true };
    let (state, actions) = LoadState::Start.next(looked);
    assert_eq!(actions, vec![LoadAction::LoadCached]);
    let (state, actions) = state.next(LoadEvent::NotMade);
    assert_eq!(
        actions,
        vec![
            LoadAction::RemoveFinal,
            LoadAction::RemoveTemp,
            LoadAction::LoadSource { caching: true },
        ]
    );
    let (state, actions) = state.next(LoadEvent::Made);
    assert_eq!(actions, vec![LoadAction::LookForTemp]);
    let (state, actions) = state.next(LoadEvent::LookedForTemp { exists: true });
    assert_eq!(actions, vec![LoadAction::RemoveFinal, LoadAction::RenameTempToFinal]);
    assert_eq!(state, LoadState::Loaded);
}

#[test]
fn without_a_cache_only_the_source_is_loaded() {
    let looked = LoadEvent::Looked { caching: false, cached_exists: true };
    let (state, actions) = LoadState::Start.next(looked);
    assert_eq!(actions, vec![LoadAction::LoadSource { caching: false }]);
    assert_eq!(state.next(LoadEvent::Made), (LoadState::Loaded, vec![]));
    assert_eq!(state.next(LoadEvent::NotMade), (LoadState::Failed, vec![]));
}

fn no_files() -> ModelFiles {
    ModelFiles {
        litert_encoder: false,
        litert_encoder_enabled: false,
        litert_decoder: false,
        projected_kv_layered_fixed: false,
        projected_kv_layered: false,
        projected_kv_int8: false,
        fixed_raw_cache_int8: false,
        fixed_raw_cache: false,
        posconst_int8: false,
        conservative_int8: false,
    }
}

#[test]
fn the_best_graph_is_chosen() {
    assert_eq!(no_files().select_backend(), Backend::Onnx(EncoderFile::Plain));
    let all = ModelFiles {
        projected_kv_layered: true,
        projected_kv_int8: true,
        fixed_raw_cache_int8: true,
        fixed_raw_cache: true,
        posconst_int8: true,
        conservative_int8: true,
        ..no_files()
    };
    assert_eq!(all.select_backend(), Backend::Onnx(EncoderFile::ProjectedKvLayered));
    let unmarked = ModelFiles { litert_encoder: true, ..all };
    assert_eq!(unmarked.select_backend(), all.select_backend());
    let marked = ModelFiles { litert_encoder_enabled: true, ..unmarked };
    assert_eq!(marked.select_backend(), Backend::Onnx(EncoderFile::FixedRawCacheInt8));
    let full = ModelFiles { litert_decoder: true, ..marked };
    assert_eq!(full.select_backend(), Backend::FullLiteRt);
    assert_eq!(EncoderFile::FixedRawCacheInt8.file_name(), "encoder.fixed_raw_cache.dynamic_int8.matmul_gemm.onnx");
    assert_eq!(
        check_onnx_files(true, false, "/m").unwrap_err().message(),
        "Missing ONNX files in /m. Expected encoder.onnx and decoder_joint.onnx"
    );
    assert!(check_onnx_files(true, true, "/m").is_ok());
}

#[test]
fn log_records_hold_no_nul() {
    let record = log_with_priority(5, "a\0b\0");
    assert_eq!(record.priority, 5);
    assert_eq!(record.tag, "SayboardParakeetRs");
    assert_eq!(record.text, "a b ");
    assert_eq!(info("x").priority, 4);
    assert_eq!(error("x").priority, 6);
}
