use webos::dfs::{
    check_status, chunk_len, dfs_port_candidates, is_remote_path, parse_resp, remote_path, resp_bytes, rpc_step,
    DfsResp, RpcAction, RpcEvent, RpcState, DFS_MAGIC,
};
use webos::error::Error;
use webos::gateway::{
    config_response, csv_list, current_session_owner, decode_session_id, empty_to_none,
    encode_session_id, ice_server_urls, parse_port_range, parse_port_range_env, parse_public_ips,
    parse_u16, split_char, trim,
};
use webos::qemu::{classify_qmp_reply, kernel_path_candidates, qmp_command_text, resolve_kernel_path, QemuManager, QmpReply};

const ID: [u8; 16] = [
    0x55, 0x0e, 0x84, 0x00, 0xe2, 0x9b, 0x41, 0xd4, 0xa7, 0x16, 0x44, 0x66, 0x55, 0x44, 0x00, 0x00,
];

#[test]
fn session_id_names_owner_and_uuid() {
    assert_eq!(encode_session_id("machine7", ID), "machine7:550e8400-e29b-41d4-a716-446655440000");
    assert_eq!(encode_session_id("", ID), "local:550e8400-e29b-41d4-a716-446655440000");
}

#[test]
fn session_id_round_trip() {
    let raw = encode_session_id("machine7", ID);
    let (owner, id) = decode_session_id(&raw, "here").unwrap();
    assert_eq!(owner, "machine7");
    assert_eq!(id, ID);
}

#[test]
fn session_id_without_owner_uses_default() {
    let (owner, id) = decode_session_id("550e8400-e29b-41d4-a716-446655440000", "here").unwrap();
    assert_eq!(owner, "here");
    assert_eq!(id, ID);
    assert!(decode_session_id(":550e8400-e29b-41d4-a716-446655440000", "here").is_none());
    assert!(decode_session_id("m:not-a-uuid", "here").is_none());
    let (owner, id) = decode_session_id("m:550e8400e29b41d4a716446655440000", "here").unwrap();
    assert_eq!((owner.as_str(), id), ("m", ID));
}

#[test]
fn trimming_and_splitting() {
    assert_eq!(trim("  a b \t\n"), "a b");
    assert_eq!(trim(" \u{3000} "), "");
    assert_eq!(split_char("a,,b", ','), vec!["a", "", "b"]);
    assert_eq!(split_char("", ','), vec![""]);
    assert_eq!(csv_list(" a , ,b,"), vec!["a", "b"]);
}

#[test]
fn numbers_parse_like_std() {
    assert_eq!(parse_u16("8080"), Some(8080));
    assert_eq!(parse_u16("+7"), Some(7));
    assert_eq!(parse_u16("65535"), Some(65535));
    assert_eq!(parse_u16("65536"), None);
    assert_eq!(parse_u16(""), None);
    assert_eq!(parse_u16("+"), None);
    assert_eq!(parse_u16("-1"), None);
    assert_eq!(parse_u16("1x"), None);
    for s in ["0", "00012", "+65535", "99999", "12 "] {
        assert_eq!(parse_u16(s), s.parse::<u16>().ok());
    }
}

#[test]
fn port_ranges() {
    assert_eq!(parse_port_range("10000-10100"), Some((10000, 10100)));
    assert_eq!(parse_port_range(" 5 - 6 "), Some((5, 6)));
    assert_eq!(parse_port_range("6-5"), None);
    assert_eq!(parse_port_range("0-5"), None);
    assert_eq!(parse_port_range("5"), None);
    assert_eq!(parse_port_range_env(None), None);
    assert_eq!(parse_port_range_env(Some("1-2")), Some((1, 2)));
}

#[test]
fn ice_servers_from_settings() {
    assert_eq!(ice_server_urls(None), vec!["stun:stun.l.google.com:19302"]);
    assert_eq!(ice_server_urls(Some(" , ")), vec!["stun:stun.l.google.com:19302"]);
    assert_eq!(ice_server_urls(Some("stun:a:1, stun:b:2")), vec!["stun:a:1", "stun:b:2"]);
    let cfg = config_response(Some("stun:x:3"));
    assert_eq!(cfg.ice_servers.len(), 1);
    assert_eq!(cfg.ice_servers[0].urls, vec!["stun:x:3"]);
    assert!(cfg.ice_servers[0].username.is_none());
    assert!(parse_public_ips(None).is_empty());
    assert_eq!(parse_public_ips(Some("1.2.3.4, 5.6.7.8")), vec!["1.2.3.4", "5.6.7.8"]);
    assert_eq!(current_session_owner(None), "local");
    assert_eq!(current_session_owner(Some("abc".to_string())), "abc");
    assert_eq!(empty_to_none(String::new()), None);
    assert_eq!(empty_to_none("u".to_string()), Some("u".to_string()));
}

#[test]
fn kernel_image_lookup() {
    let c = kernel_path_candidates();
    assert_eq!(c[0], "target/riscv64gc-unknown-none-elf/release/web-os");
    assert_eq!(resolve_kernel_path(&[false, true]).unwrap(), c[1]);
    assert_eq!(resolve_kernel_path(&[true, true]).unwrap(), c[0]);
    assert_eq!(
        resolve_kernel_path(&[false, false]).unwrap_err(),
        "Kernel not found. Run `cargo build` first."
    );
    assert_eq!(qmp_command_text("stop"), r#"{"execute":"stop"}"#);
    assert_eq!(QemuManager::reset_command(), r#"{"execute":"system_reset"}"#);
    let m = QemuManager::new(vec!["-nographic".to_string()], "k".to_string());
    assert_eq!(m.command_args(), vec!["-nographic", "k"]);
    assert_eq!(m.qmp_path, "/tmp/web-os-qmp.sock");
}

#[test]
fn remote_paths() {
    assert!(is_remote_path(b"/dfs"));
    assert!(is_remote_path(b"/dfs/a"));
    assert!(!is_remote_path(b"/dfsx"));
    assert!(!is_remote_path(b"/df"));
    assert_eq!(remote_path(b"/dfs"), Some(b"/".to_vec()));
    assert_eq!(remote_path(b"/dfs/a/b"), Some(b"/a/b".to_vec()));
    assert_eq!(remote_path(b"/home"), None);
}

#[test]
fn response_header_round_trip() {
    let r = DfsResp { magic: DFS_MAGIC, status: -2, handle: 7, len: 300 };
    let bytes = resp_bytes(&r);
    assert_eq!(bytes.len(), 16);
    assert_eq!(parse_resp(&bytes), Ok(r));
    assert_eq!(check_status(&r), Err(-2));
    assert_eq!(check_status(&DfsResp::ok(1, 2)), Ok(()));
    assert_eq!(parse_resp(&bytes[..15]), Err(Error::InvalidArgument));
    let mut bad = bytes.clone();
    bad[0] ^= 1;
    assert_eq!(parse_resp(&bad), Err(Error::InvalidArgument));
}

#[test]
fn port_candidates_and_chunks() {
    let p = dfs_port_candidates(0);
    assert_eq!(p.len(), 8);
    assert_eq!(p[0], 7000);
    assert_eq!(p[1], 10000);
    assert_eq!(p[7], 28000);
    assert_eq!(dfs_port_candidates(30)[0], 65535);
    assert_eq!(chunk_len(10, 3), 7);
    assert_eq!(chunk_len(3000, 1000), 512);
}

#[test]
fn qmp_events_are_skipped_until_the_reply() {
    assert_eq!(classify_qmp_reply(false, false), QmpReply::Skip);
    assert_eq!(classify_qmp_reply(true, false), QmpReply::Done);
    assert_eq!(classify_qmp_reply(false, true), QmpReply::Failed);
    assert_eq!(classify_qmp_reply(true, true), QmpReply::Failed);
}

#[test]
fn remote_call_drops_the_connection_on_any_failure() {
    // a request in two parts: header, then one payload
    let (s, a) = rpc_step(RpcState::Sending { part: 0 }, 2, RpcEvent::Sent(Ok(())));
    assert_eq!(s, RpcState::Sending { part: 1 });
    assert!(matches!(a, RpcAction::Send { part: 1 }));
    let (s, a) = rpc_step(s, 2, RpcEvent::Sent(Ok(())));
    assert_eq!(s, RpcState::AwaitHeader);
    assert!(matches!(a, RpcAction::Recv { len: 16 }));
    let hdr = resp_bytes(&DfsResp::ok(7, 3));
    let (s, a) = rpc_step(s, 2, RpcEvent::Received(Ok(hdr)));
    assert_eq!(s, RpcState::AwaitData { resp: DfsResp::ok(7, 3) });
    assert!(matches!(a, RpcAction::Recv { len: 3 }));
    let (s, a) = rpc_step(s, 2, RpcEvent::Received(Ok(b"abc".to_vec())));
    assert_eq!(s, RpcState::Over);
    match a {
        RpcAction::Finish { resp, data } => {
            assert_eq!(resp.handle, 7);
            assert_eq!(data, b"abc".to_vec());
        },
        other => panic!("unexpected {:?}", other),
    }
    // a reply without data finishes at once
    let (_, a) = rpc_step(RpcState::AwaitHeader, 1, RpcEvent::Received(Ok(resp_bytes(&DfsResp::ok(1, 0)))));
    assert!(matches!(a, RpcAction::Finish { .. }));
    // failures: sending, receiving, a bad header
    let (s, a) = rpc_step(RpcState::Sending { part: 0 }, 1, RpcEvent::Sent(Err(Error::NotConnected)));
    assert_eq!(s, RpcState::Over);
    assert!(matches!(a, RpcAction::Drop { err: Error::NotConnected }));
    let (_, a) = rpc_step(RpcState::AwaitHeader, 1, RpcEvent::Received(Ok(vec![0u8; 16])));
    assert!(matches!(a, RpcAction::Drop { err: Error::InvalidArgument }));
    // the connection ended before the whole header arrived
    let (_, a) = rpc_step(RpcState::AwaitHeader, 1, RpcEvent::Received(Ok(vec![1u8, 2])));
    assert!(matches!(a, RpcAction::Drop { err: Error::NotConnected }));
    // or before all the data the header announced
    let (s, a) = rpc_step(RpcState::AwaitData { resp: DfsResp::ok(1, 4) }, 1, RpcEvent::Received(Ok(b"ab".to_vec())));
    assert_eq!(s, RpcState::Over);
    assert!(matches!(a, RpcAction::Drop { err: Error::NotConnected }));
    let (_, a) = rpc_step(RpcState::AwaitData { resp: DfsResp::ok(1, 4) }, 1, RpcEvent::Received(Err(Error::Interrupted)));
    assert!(matches!(a, RpcAction::Drop { err: Error::Interrupted }));
}
