use model_gateway::keyed::{TextMap, TextSet};
use model_gateway::policies::thunder::{BackendState, Program, RouterState, ThunderSubMode};
use model_gateway::policies::thunder_metrics::{
    http_base, is_success, read_capacity, refusal, CacheConfig, GetServerInfoResponse, HttpMetricsClient, ModelConfig,
    ServerInfoReply,
};
use model_gateway::policies::{
    get_healthy_worker_indices, normalize_model_key, StreamingProgressEvent, UsageEvent,
    WorkerHealth, UNKNOWN_MODEL_ID,
};
use model_gateway::program_id::extract;
use model_gateway::text::{at_or_before, contains, starts_with, trim_end_matches};

#[test]
fn test_get_healthy_worker_indices() {
    let mut workers = vec![
        WorkerHealth { is_healthy: true, circuit_breaker_can_execute: true },
        WorkerHealth { is_healthy: true, circuit_breaker_can_execute: true },
        WorkerHealth { is_healthy: true, circuit_breaker_can_execute: true },
    ];

    // All healthy initially
    let indices = get_healthy_worker_indices(&workers);
    assert_eq!(indices, vec![0, 1, 2]);

    // Mark one unhealthy
    workers[1].is_healthy = false;
    let indices = get_healthy_worker_indices(&workers);
    assert_eq!(indices, vec![0, 2]);
}

#[test]
fn open_circuit_breakers_are_left_out() {
    let workers = [
        WorkerHealth { is_healthy: true, circuit_breaker_can_execute: false },
        WorkerHealth { is_healthy: false, circuit_breaker_can_execute: true },
        WorkerHealth { is_healthy: true, circuit_breaker_can_execute: true },
    ];
    assert_eq!(get_healthy_worker_indices(&workers), vec![2]);
    assert_eq!(get_healthy_worker_indices(&[]), Vec::<usize>::new());
}

#[test]
fn usage_event_struct_exists_and_is_constructible() {
    let ev = UsageEvent {
        program_id: Some("p1".to_string()),
        backend_url: "http://w1:8001".to_string(),
        prompt_tokens: 100,
        completion_tokens: 50,
        total_tokens: 150,
        request_text_chars: 400,
        cache_read_input_tokens: None,
        declared_max_tokens: None,
    };
    assert_eq!(ev.total_tokens, 150);
    assert_eq!(ev.program_id.as_deref(), Some("p1"));
}

#[test]
fn progress_event_carries_its_delta() {
    let ev = StreamingProgressEvent { program_id: "p1".to_string(), delta_tokens: 20 };
    assert_eq!(ev.clone().delta_tokens, 20);
    assert_eq!(ev.program_id, "p1");
}

#[test]
fn extract_returns_program_id_hint() {
    assert_eq!(extract(Some("agent-1")), Some("agent-1"));
}

#[test]
fn extract_returns_none_when_hint_is_none() {
    assert_eq!(extract(None), None);
}

#[test]
fn empty_model_ids_share_a_key() {
    assert_eq!(normalize_model_key(""), UNKNOWN_MODEL_ID);
    assert_eq!(normalize_model_key("llama"), "llama");
    assert_eq!(normalize_model_key(normalize_model_key("")), UNKNOWN_MODEL_ID);
    assert!(!UNKNOWN_MODEL_ID.is_empty());
}

#[test]
fn http_base_handles_scheme_variants() {
    assert_eq!(http_base("http://w0:8000"), "http://w0:8000");
    assert_eq!(http_base("https://w0:8000/"), "https://w0:8000");
    assert_eq!(http_base("w0:8000"), "http://w0:8000");
    assert_eq!(http_base("grpc://w0:8000"), "http://w0:8000");
}

#[test]
fn http_base_edge_cases() {
    assert_eq!(http_base("grpc://grpc://w0//"), "http://w0");
    assert_eq!(http_base("http://"), "http:");
    assert_eq!(http_base(""), "http://");
    assert_eq!(http_base("grpc:///"), "http://");
    assert_eq!(http_base("ftp://x/"), "http://ftp://x");
    for url in ["w0:8000", "grpc://w0//", "https://w0/a/", "http://w0"] {
        let base = http_base(url);
        assert_eq!(http_base(&base), base);
        assert!(base.starts_with("http://") || base.starts_with("https://"));
        assert!(!base.ends_with('/'));
    }
}

#[test]
fn server_info_is_asked_under_the_base() {
    let client = HttpMetricsClient::default();
    assert_eq!(
        client.server_info_url("grpc://w0:8000/"),
        "http://w0:8000/get_server_info"
    );
}

fn info(
    block_size: Option<u64>,
    num_gpu_blocks: Option<u64>,
    total_kv_cache_tokens: Option<u64>,
) -> GetServerInfoResponse {
    GetServerInfoResponse {
        cache_config: Some(CacheConfig { block_size, num_gpu_blocks, total_kv_cache_tokens }),
        model_config: Some(ModelConfig { model: Some("mock-model".to_string()) }),
    }
}

#[test]
fn capacity_prefers_the_reported_total() {
    let capacity = read_capacity(info(Some(16), Some(100), Some(9999)));
    assert_eq!(capacity.capacity_tokens, 9999);
    assert_eq!(capacity.model_name.as_deref(), Some("mock-model"));
}

#[test]
fn capacity_is_derived_from_blocks() {
    assert_eq!(read_capacity(info(Some(16), Some(100), None)).capacity_tokens, 1600);
    assert_eq!(read_capacity(info(Some(16), None, None)).capacity_tokens, 0);
    assert_eq!(read_capacity(info(None, Some(100), None)).capacity_tokens, 0);
    assert_eq!(read_capacity(info(Some(u64::MAX), Some(2), None)).capacity_tokens, u64::MAX);
    assert_eq!(read_capacity(info(Some(16), Some(100), Some(0))).capacity_tokens, 0);
}

#[test]
fn missing_configs_yield_zero_and_no_model() {
    let capacity = read_capacity(GetServerInfoResponse { cache_config: None, model_config: None });
    assert_eq!(capacity.capacity_tokens, 0);
    assert_eq!(capacity.model_name, None);
}

#[test]
fn parse_full_cache_config_prefers_total() {
    let info = info(Some(16), Some(100), Some(9999));
    let cc = info.cache_config.expect("cache_config");
    assert_eq!(cc.total_kv_cache_tokens, Some(9999));
    assert_eq!(cc.block_size, Some(16));
    assert_eq!(cc.num_gpu_blocks, Some(100));
    assert_eq!(
        info.model_config.clone().and_then(|m| m.model).as_deref(),
        Some("mock-model")
    );
    let capacity = read_capacity(info);
    assert_eq!(capacity.capacity_tokens, 9999);
    assert_eq!(capacity.model_name.as_deref(), Some("mock-model"));
}

#[test]
fn parse_only_block_and_num_blocks_derives_total() {
    let info = GetServerInfoResponse {
        cache_config: Some(CacheConfig {
            block_size: Some(16),
            num_gpu_blocks: Some(100),
            total_kv_cache_tokens: None,
        }),
        model_config: None,
    };
    let cc = info.cache_config.expect("cache_config");
    assert_eq!(cc.total_kv_cache_tokens, None);
    assert_eq!(cc.block_size.unwrap_or(0) * cc.num_gpu_blocks.unwrap_or(0), 1600);
    let capacity = read_capacity(info);
    assert_eq!(capacity.capacity_tokens, 1600);
    assert_eq!(capacity.model_name, None);
}

#[test]
fn parse_missing_cache_config_yields_zero() {
    let info = GetServerInfoResponse {
        cache_config: None,
        model_config: Some(ModelConfig { model: Some("x".to_string()) }),
    };
    assert!(info.cache_config.is_none());
    let capacity = read_capacity(info);
    assert_eq!(capacity.capacity_tokens, 0);
    assert_eq!(capacity.model_name.as_deref(), Some("x"));
}

#[test]
fn success_is_the_two_hundreds() {
    assert!(is_success(200));
    assert!(is_success(204));
    assert!(is_success(299));
    assert!(!is_success(199));
    assert!(!is_success(300));
    assert!(!is_success(404));
    assert!(!is_success(0));
    assert!(!is_success(u16::MAX));
}

#[test]
fn a_status_that_is_no_success_is_refused() {
    assert!(refusal(200, "200 OK".to_string()).is_none());
    assert!(refusal(299, "299".to_string()).is_none());
    let client = HttpMetricsClient::default();
    for (status, text) in [(404, "404 Not Found"), (199, "199"), (300, "300 Multiple Choices")] {
        let reply = refusal(status, text.to_string()).unwrap();
        assert_eq!(
            client.capacity("http://w0/get_server_info", reply).unwrap_err(),
            format!("status {text} from http://w0/get_server_info")
        );
    }
}

#[test]
fn fetches_fail_with_their_reason() {
    let client = HttpMetricsClient::default();
    let fetch = |reply: ServerInfoReply| client.capacity("http://w0/get_server_info", reply);
    assert_eq!(
        fetch(ServerInfoReply::Unreachable("refused".to_string())).unwrap_err(),
        "connect http://w0/get_server_info: refused"
    );
    assert_eq!(
        fetch(ServerInfoReply::Refused("404 Not Found".to_string())).unwrap_err(),
        "status 404 Not Found from http://w0/get_server_info"
    );
    assert_eq!(
        fetch(ServerInfoReply::Unreadable("eof".to_string())).unwrap_err(),
        "parse http://w0/get_server_info: eof"
    );
    let fetched = fetch(ServerInfoReply::Info(info(Some(2), Some(3), None))).unwrap();
    assert_eq!(fetched.capacity_tokens, 6);
}

fn urls(names: &[&str]) -> Vec<String> {
    names.iter().map(|n| n.to_string()).collect()
}

#[test]
fn selection_takes_the_least_active_backend() {
    let mut state = RouterState::default();
    let all = urls(&["http://b", "http://a", "http://c"]);
    assert_eq!(state.select_least_active(&[]), None);
    // Nothing assigned: the first in the order of text.
    assert_eq!(state.select_least_active(&all).as_deref(), Some("http://a"));
    state.assign("p1", "http://a");
    assert_eq!(state.select_least_active(&all).as_deref(), Some("http://b"));
    state.assign("p2", "http://b");
    state.assign("p3", "http://c");
    state.assign("p4", "http://a");
    assert_eq!(state.select_least_active(&all).as_deref(), Some("http://b"));
    // Neither order nor repetition matters.
    let shuffled = urls(&["http://c", "http://a", "http://b", "http://c"]);
    assert_eq!(state.select_least_active(&shuffled).as_deref(), Some("http://b"));
}

#[test]
fn ties_go_by_the_order_of_text() {
    let state = RouterState::default();
    assert_eq!(
        state.select_least_active(&urls(&["ab", "a", "b"])).as_deref(),
        Some("a")
    );
    assert_eq!(
        state.select_least_active(&urls(&["\u{10000}", "\u{ffff}"])).as_deref(),
        Some("\u{ffff}")
    );
    assert!("\u{ffff}" < "\u{10000}");
}

#[test]
fn assignment_sticks_and_counts_once() {
    let mut state = RouterState::default();
    state.assign("p1", "u1");
    state.assign("p1", "u1");
    let program = state.programs.get("p1").unwrap();
    assert_eq!(program.program_id, "p1");
    assert_eq!(program.backend_url.as_deref(), Some("u1"));
    assert_eq!(program.in_flight, 2);
    assert_eq!(program.step_count, 2);
    assert_eq!(program.total_tokens, 0);
    assert_eq!(state.active_count("u1"), 1);
    assert!(state.backends.get("u1").unwrap().active_programs.contains("p1"));
    // A move to another backend takes the program off the first.
    state.assign("p1", "u2");
    assert_eq!(state.programs.get("p1").unwrap().backend_url.as_deref(), Some("u2"));
    assert_eq!(state.active_count("u1"), 0);
    assert_eq!(state.active_count("u2"), 1);
    assert_eq!(state.active_count("u3"), 0);
}

#[test]
fn a_program_is_active_only_where_it_is_assigned() {
    let mut state = RouterState::default();
    state.assign("p", "http://a");
    state.assign("q", "http://a");
    state.assign("p", "http://b");
    let program = state.programs.get("p").unwrap();
    assert_eq!(program.backend_url.as_deref(), Some("http://b"));
    assert_eq!(program.in_flight, 2);
    assert_eq!(program.step_count, 2);
    assert_eq!(program.total_tokens, 0);
    let left = &state.backends.get("http://a").unwrap().active_programs;
    assert!(!left.contains("p"));
    assert!(left.contains("q"));
    assert_eq!(left.len(), 1);
    let joined = &state.backends.get("http://b").unwrap().active_programs;
    assert!(joined.contains("p"));
    assert_eq!(joined.len(), 1);
    // The other figures of the backend that was left stay.
    let mut backend = BackendState::default();
    backend.capacity_tokens = 77;
    backend.active_program_tokens = 5;
    backend.active_programs.insert("p".to_string());
    state.backends.insert("http://b".to_string(), backend);
    state.assign("p", "http://a");
    let left = state.backends.get("http://b").unwrap();
    assert_eq!(left.active_count(), 0);
    assert_eq!(left.capacity_tokens, 77);
    assert_eq!(left.active_program_tokens, 5);
    assert_eq!(state.active_count("http://a"), 2);
    // A backend that was dropped meanwhile is not brought back by a move.
    state.refresh_backends(&urls(&["http://c"]));
    state.assign("p", "http://c");
    assert!(state.backends.get("http://a").is_none());
    assert_eq!(state.active_count("http://c"), 1);
}

#[test]
fn selection_does_not_count_programs_that_left() {
    let mut state = RouterState::default();
    let all = urls(&["http://a", "http://b"]);
    state.assign("p", "http://a");
    assert_eq!(state.select_least_active(&all).as_deref(), Some("http://b"));
    state.assign("p", "http://b");
    assert_eq!(state.select_least_active(&all).as_deref(), Some("http://a"));
}

#[test]
fn counters_stop_at_the_largest_number() {
    let mut state = RouterState::default();
    let mut program = Program::new("p1".to_string());
    program.in_flight = u32::MAX;
    program.step_count = u32::MAX - 1;
    program.total_tokens = 9;
    state.programs.insert("p1".to_string(), program);
    state.assign("p1", "u1");
    let program = state.programs.get("p1").unwrap();
    assert_eq!(program.in_flight, u32::MAX);
    assert_eq!(program.step_count, u32::MAX);
    assert_eq!(program.total_tokens, 9);
}

#[test]
fn refresh_keeps_known_backends_and_drops_others() {
    let mut state = RouterState::default();
    state.assign("p1", "u1");
    state.assign("p2", "u2");
    let mut backend = BackendState::default();
    backend.capacity_tokens = 77;
    state.backends.insert("u3".to_string(), backend);
    state.refresh_backends(&urls(&["u1", "u3", "u4", "u1"]));
    assert_eq!(state.active_count("u1"), 1);
    assert!(state.backends.get("u2").is_none());
    assert_eq!(state.backends.get("u3").unwrap().capacity_tokens, 77);
    assert_eq!(state.backends.get("u4").unwrap().active_count(), 0);
    assert_eq!(state.backends.get("u4").unwrap().active_program_tokens, 0);
    // Programs are not touched.
    assert_eq!(state.programs.get("p2").unwrap().backend_url.as_deref(), Some("u2"));
    // Again: nothing changes.
    state.refresh_backends(&urls(&["u4", "u3", "u1"]));
    assert_eq!(state.active_count("u1"), 1);
    assert_eq!(state.backends.get("u3").unwrap().capacity_tokens, 77);
    // A backend that was dropped comes back empty.
    state.refresh_backends(&urls(&["u2"]));
    assert_eq!(state.active_count("u2"), 0);
}

#[test]
fn refresh_does_not_change_the_selection() {
    let mut state = RouterState::default();
    state.assign("p1", "u1");
    state.assign("p2", "u3");
    let offered = urls(&["u3", "u2", "u1"]);
    assert_eq!(state.select_least_active(&offered).as_deref(), Some("u2"));
    state.refresh_backends(&offered);
    assert_eq!(state.select_least_active(&offered).as_deref(), Some("u2"));
    let offered = urls(&["u3", "u1"]);
    state.refresh_backends(&offered);
    assert_eq!(state.select_least_active(&offered).as_deref(), Some("u1"));
}

#[test]
fn assignment_leaves_others_alone() {
    let mut state = RouterState::default();
    state.assign("p1", "u1");
    state.assign("p2", "u2");
    let program = state.programs.get("p1").unwrap();
    assert_eq!(program.backend_url.as_deref(), Some("u1"));
    assert_eq!(program.in_flight, 1);
    assert_eq!(state.active_count("u1"), 1);
    // Every active program is known, under its own id.
    for id in ["p1", "p2"] {
        assert_eq!(state.programs.get(id).unwrap().program_id, id);
    }
    assert!(!state.backends.get("u1").unwrap().active_programs.contains("p2"));
}

#[test]
fn snapshots_are_independent_copies() {
    let mut state = RouterState::default();
    state.assign("p1", "u1");
    let copy = state.snapshot();
    state.assign("p1", "u2");
    state.assign("p2", "u1");
    assert_eq!(copy.programs.get("p1").unwrap().backend_url.as_deref(), Some("u1"));
    assert!(copy.programs.get("p2").is_none());
    assert_eq!(copy.active_count("u1"), 1);
    assert!(copy.backends.get("u2").is_none());
    let program: Program = copy.programs.get("p1").unwrap().clone();
    assert_eq!(program.in_flight, 1);
}

#[test]
fn default_sub_mode_is_default() {
    assert_eq!(ThunderSubMode::default(), ThunderSubMode::Default);
    assert_ne!(ThunderSubMode::default(), ThunderSubMode::Tr);
}

#[test]
fn text_maps_hold_one_value_per_key() {
    let mut map: TextMap<BackendState> = TextMap::new();
    assert!(map.get("k").is_none());
    assert!(map.remove("k").is_none());
    let mut value = BackendState::default();
    value.capacity_tokens = 1;
    map.insert("k".to_string(), value);
    let mut value = BackendState::default();
    value.capacity_tokens = 2;
    map.insert("k".to_string(), value);
    assert_eq!(map.get("k").unwrap().capacity_tokens, 2);
    assert_eq!(map.remove("k").unwrap().capacity_tokens, 2);
    assert!(map.get("k").is_none());
}

#[test]
fn snapshots_can_be_walked() {
    let mut state = RouterState::default();
    assert_eq!(state.programs.len(), 0);
    assert!(state.programs.keys().is_empty());
    state.assign("p2", "u1");
    state.assign("p1", "u1");
    state.assign("p2", "u1");
    let copy = state.snapshot();
    assert_eq!(copy.programs.len(), 2);
    let mut ids = copy.programs.keys();
    ids.sort();
    assert_eq!(ids, urls(&["p1", "p2"]));
    assert_eq!(copy.backends.len(), 1);
    assert_eq!(copy.backends.keys(), urls(&["u1"]));
    let mut active = copy.backends.get("u1").unwrap().active_programs.to_vec();
    active.sort();
    assert_eq!(active, urls(&["p1", "p2"]));
    assert!(TextSet::new().to_vec().is_empty());
}

#[test]
fn text_sets_hold_each_text_once() {
    let mut set = TextSet::new();
    assert_eq!(set.len(), 0);
    set.insert("a".to_string());
    set.insert("b".to_string());
    set.insert("a".to_string());
    assert_eq!(set.len(), 2);
    assert!(set.contains("a"));
    assert!(!set.contains("c"));
    assert_eq!(set.clone().len(), 2);
    set.remove("c");
    assert_eq!(set.len(), 2);
    set.remove("a");
    assert!(!set.contains("a"));
    assert!(set.contains("b"));
    assert_eq!(set.len(), 1);
}

#[test]
fn text_operations_agree_with_std() {
    let texts = ["", "/", "a/", "//", "http://x", "é", "éa", "aé", "ab", "b", "abab", "\u{1f600}"];
    for a in texts {
        assert_eq!(trim_end_matches(a, '/'), a.trim_end_matches('/'));
        for b in texts {
            assert_eq!(at_or_before(a, b), a <= b);
            assert_eq!(contains(a, b), a.contains(b));
            assert_eq!(starts_with(a, b), a.starts_with(b));
        }
    }
}
