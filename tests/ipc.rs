use bjobs::client::{ClientError, DaemonClient};
use bjobs::ipc::{
    answer, frame, incoming_from_id, undecodable, on_bind_error, on_incoming, plan_start, reject, startup_poll, BindAction,
    BindError, Incoming, ProbeAction, Request, Response, ServeAction, StartPlan,
};

#[test]
fn hello_round_trip_ids() {
    let mut client = DaemonClient::connect("/tmp/bjobs.sock");
    assert_eq!(client.socket_path, "/tmp/bjobs.sock");
    let req = client.request("hello".to_string()).unwrap();
    assert_eq!(req, Request { id: 1, content: "hello".to_string() });
    let action = on_incoming(Incoming::Parsed(req.clone()));
    assert_eq!(action, ServeAction::Dispatch(req));
    let resp: Response<String> = answer(1, "Hello".to_string());
    assert_eq!(resp, Response { for_id: 1, result: Ok("Hello".to_string()) });
    assert_eq!(client.accept(1, resp), Ok("Hello".to_string()));
}

#[test]
fn ids_grow_by_one() {
    let mut client = DaemonClient::connect("s");
    assert_eq!(client.request(()).unwrap().id, 1);
    assert_eq!(client.request(()).unwrap().id, 2);
    assert_eq!(client.request(()).unwrap().id, 3);
    client.next_id = u64::MAX;
    assert_eq!(client.request(()), Err(ClientError::IdsExhausted));
}

#[test]
fn mismatched_and_remote_errors() {
    let client = DaemonClient::connect("s");
    let resp: Response<u32> = answer(4, 1);
    assert_eq!(client.accept(3, resp), Err(ClientError::WrongResponse { expected: 3, got: 4 }));
    let resp: Response<u32> = reject(3, "bad".to_string());
    assert_eq!(client.accept(3, resp), Err(ClientError::Remote("bad".to_string())));
}

#[test]
fn serve_decisions() {
    assert_eq!(on_incoming::<u8>(Incoming::ReadFailed), ServeAction::Pause { ms: 5000 });
    assert_eq!(on_incoming::<u8>(Incoming::Closed), ServeAction::Close);
    assert_eq!(on_incoming::<u8>(Incoming::Unparsable), ServeAction::Pause { ms: 100 });
    assert_eq!(
        on_incoming::<u8>(Incoming::IdOnly { id: 9, error: "e".to_string() }),
        ServeAction::Reject { for_id: 9, error: "e".to_string() }
    );
}

#[test]
fn frames_end_in_newline() {
    assert_eq!(frame(&b"{\"id\":1}".to_vec()), b"{\"id\":1}\n".to_vec());
    assert_eq!(frame(&vec![]), vec![b'\n']);
}

#[test]
fn stale_socket_is_unlinked_once() {
    assert_eq!(plan_start(false, true, false), StartPlan::RemoveStaleAndStart);
    assert_eq!(on_bind_error(BindError::AddrInUse, 0), BindAction::UnlinkAndRetry);
    assert_eq!(on_bind_error(BindError::AddrInUse, 1), BindAction::Fail);
    assert_eq!(on_bind_error(BindError::Other, 0), BindAction::Fail);
}

#[test]
fn start_plans() {
    assert_eq!(plan_start(true, true, true), StartPlan::AlreadyRunning);
    assert_eq!(plan_start(true, true, false), StartPlan::RefuseRunning);
    assert_eq!(plan_start(false, false, false), StartPlan::Start);
}

#[test]
fn startup_polls_are_bounded() {
    assert_eq!(startup_poll(true, 0), ProbeAction::Probe);
    assert_eq!(startup_poll(false, 0), ProbeAction::Wait);
    assert_eq!(startup_poll(false, 200), ProbeAction::GiveUp);
}

#[test]
fn undecodable_frames_keep_their_id() {
    assert_eq!(
        undecodable::<u8>("{\"id\": 5, \"content\": \"nope\"}", "e".to_string()),
        Incoming::IdOnly { id: 5, error: "e".to_string() }
    );
    assert_eq!(undecodable::<u8>("not json", "e".to_string()), Incoming::Unparsable);
    assert_eq!(undecodable::<u8>("{\"id\": -1}", "e".to_string()), Incoming::Unparsable);
    assert_eq!(undecodable::<u8>("{\"content\": 1}", "e".to_string()), Incoming::Unparsable);
    assert_eq!(
        incoming_from_id::<u8>(Some(3), "x".to_string()),
        Incoming::IdOnly { id: 3, error: "x".to_string() }
    );
    assert_eq!(incoming_from_id::<u8>(None, "x".to_string()), Incoming::Unparsable);
}
