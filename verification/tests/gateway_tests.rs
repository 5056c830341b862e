use quark::gateway::{funccall_target, reply_status, split_path, upsert_op, StoreOp};
use quark::gateway_actor::{GatewayActorInner, GatewayError, TellReq};

#[test]
fn path_segments() {
    assert_eq!(split_path(""), vec![(0, 0)]);
    assert_eq!(split_path("/"), vec![(0, 0), (1, 1)]);
    assert_eq!(split_path("a//b"), vec![(0, 1), (2, 2), (3, 4)]);
    assert_eq!(
        split_path("/funccall/t/ns/f"),
        vec![(0, 0), (1, 9), (10, 11), (12, 14), (15, 16)]
    );
}

#[test]
fn funccall_path_names_its_target() {
    let path = "/funccall/tenant1/ns-é/func/extra";
    let (t, n, f) = funccall_target(path);
    assert_eq!(&path[t.0..t.1], "tenant1");
    assert_eq!(&path[n.0..n.1], "ns-é");
    assert_eq!(&path[f.0..f.1], "func");
}

#[test]
fn upsert_and_status() {
    assert_eq!(upsert_op(true), StoreOp::Update);
    assert_eq!(upsert_op(false), StoreOp::Create);
    assert_eq!(reply_status(true), 200);
    assert_eq!(reply_status(false), 400);
}

#[test]
fn prompt_reply_is_answered_once() {
    let mut actor: GatewayActorInner<&'static str> = GatewayActorInner::New("gw", "chat", 8080);
    assert_eq!(actor.last_req_id, 1);
    let tell = actor.NewPrompt("hello", "first");
    assert_eq!(tell.req_id, 1);
    assert_eq!(tell.actor_id, "gw");
    assert_eq!(tell.func, "chat");
    assert_eq!(tell.data, b"hello".to_vec());
    let second = actor.NewPrompt("again", "second");
    assert_eq!(second.req_id, 2);
    let reply = TellReq { actor_id: "x".to_string(), func: "y".to_string(), req_id: 1, data: "wörld".as_bytes().to_vec() };
    let (tx, resp) = actor.HandleTell(reply.clone()).unwrap();
    assert_eq!(tx, "first");
    assert_eq!(resp.response, "wörld");
    assert_eq!(actor.HandleTell(reply), Err(GatewayError::NotExist(1)));
    assert_eq!(actor.requests.len(), 1);
    assert!(actor.requests.contains_key(&2));
}

#[test]
fn unknown_reply_is_an_error() {
    let mut actor: GatewayActorInner<u32> = GatewayActorInner::New("gw", "chat", 1);
    let reply = TellReq { actor_id: String::new(), func: String::new(), req_id: 42, data: vec![0xff] };
    assert_eq!(actor.HandleTell(reply), Err(GatewayError::NotExist(42)));
    assert_eq!(actor.last_req_id, 1);
}

#[test]
fn request_ids_wrap() {
    let mut actor: GatewayActorInner<u32> = GatewayActorInner::New("gw", "chat", 1);
    actor.last_req_id = u64::MAX;
    let tell = actor.NewPrompt("p", 7);
    assert_eq!(tell.req_id, u64::MAX);
    assert_eq!(actor.last_req_id, 0);
    assert_eq!(actor.NewPrompt("q", 8).req_id, 0);
}
