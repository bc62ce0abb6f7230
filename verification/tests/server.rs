use email_schedule_backend::server::{serve, Request, Response, STATUS_NOT_FOUND, STATUS_OK};
use email_schedule_backend::server_state::ServerState;

#[test]
fn get_is_answered_with_the_greeting() {
    let mut state = ServerState::new();
    let request = Request::Get { user_agent: "curl/8.5.0".to_string() };
    let response = serve(&request, &mut state, 1_234);
    assert_eq!(response, Response { status: 200, body: "Hi world!".to_string() });
    assert_eq!(STATUS_OK, 200);
}

#[test]
fn get_registers_the_user_agent_and_caches_the_greeting() {
    let mut state = ServerState::new();
    let request = Request::Get { user_agent: "curl/8.5.0".to_string() };
    serve(&request, &mut state, 1_234);
    assert_eq!(state.registered(), vec![("curl/8.5.0".to_string(), 1_234)]);
    assert_eq!(state.cached_keys(), vec!["Hello wolrd"]);
    assert_eq!(*state.get_from_cache("Hello wolrd").unwrap(), b"Hello world".to_vec());
    assert!(state.check_state("curl/8.5.0"));
}

#[test]
fn second_get_restamps_the_token() {
    let mut state = ServerState::new();
    let request = Request::Get { user_agent: "agent".to_string() };
    serve(&request, &mut state, 10);
    serve(&request, &mut state, 20);
    assert_eq!(state.registered(), vec![("agent".to_string(), 20)]);
    assert_eq!(state.cached_keys(), vec!["Hello wolrd"]);
}

#[test]
fn other_methods_are_not_found() {
    let mut state = ServerState::new();
    state.add_state("t1", 1);
    let response = serve(&Request::Other, &mut state, 99);
    assert_eq!(response, Response { status: 404, body: "Not Found".to_string() });
    assert_eq!(STATUS_NOT_FOUND, 404);
    assert_eq!(state.registered(), vec![("t1".to_string(), 1)]);
    assert_eq!(state.cached_keys(), Vec::<String>::new());
    assert!(state.is_running());
}

#[test]
fn serving_goes_on_after_the_shutdown_signal() {
    let mut state = ServerState::new();
    state.stop_maintenance();
    let response = serve(&Request::Get { user_agent: "late".to_string() }, &mut state, 5);
    assert_eq!(response.status, 200);
    assert!(!state.is_running());
    assert!(state.check_state("late"));
}
