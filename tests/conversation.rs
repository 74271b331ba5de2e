use xim_wire::attr::{Attr, AttrType, AttrValue, XimString};
use xim_wire::client::{Action, Client, Phase};
use xim_wire::server::Server;
use xim_wire::format::{read, Endian};
use xim_wire::request::Request;
use xim_wire::transport::{plan_delivery, Delivery};

fn xs(s: &str) -> XimString {
    XimString(s.as_bytes().to_vec())
}

fn encode(r: &Request) -> Vec<u8> {
    let mut out = Vec::new();
    xim_wire::format::write(r, &mut out);
    out
}

fn decode(bytes: &[u8]) -> Request {
    read(bytes).unwrap()
}

/// Feeds the client a server message after a trip through the wire format.
fn feed(c: &mut Client, m: Request) -> Action {
    c.handle(decode(&encode(&m)))
}

fn open_client() -> Client {
    let mut c = Client::new(xs("en_US"));
    c.connect();
    feed(&mut c, Request::ConnectReply { server_major_protocol_version: 1, server_minor_protocol_version: 0 });
    feed(&mut c, Request::OpenReply { input_method_id: 7, im_attrs: vec![], ic_attrs: vec![] });
    feed(&mut c, Request::QueryExtensionReply { input_method_id: 7, supported: vec![] });
    feed(&mut c, Request::EncodingNegotiationReply { input_method_id: 7, category: 0, index: 0 });
    c
}

#[test]
fn client_handshake_sequence() {
    let mut c = Client::new(xs("en_US"));
    assert_eq!(c.phase(), Phase::Init);
    let hello = c.connect();
    assert_eq!(
        hello,
        Request::Connect {
            endian: Endian::native(),
            client_major_protocol_version: 1,
            client_minor_protocol_version: 0,
            client_auth_protocol_names: vec![],
        }
    );
    assert_eq!(c.phase(), Phase::AwaitingConnectReply);
    let a = feed(&mut c, Request::ConnectReply { server_major_protocol_version: 1, server_minor_protocol_version: 0 });
    assert_eq!(a, Action::Send(Request::Open { name: xs("en_US") }));
    assert_eq!(c.phase(), Phase::AwaitingOpenReply);
    let im_attrs = vec![Attr { id: 0, ty: AttrType::Style, name: xs("queryInputStyle") }];
    let ic_attrs = vec![
        Attr { id: 1, ty: AttrType::Long, name: xs("inputStyle") },
        Attr { id: 2, ty: AttrType::Window, name: xs("clientWindow") },
    ];
    let a = feed(
        &mut c,
        Request::OpenReply { input_method_id: 7, im_attrs: im_attrs.clone(), ic_attrs: ic_attrs.clone() },
    );
    assert_eq!(a, Action::Send(Request::QueryExtension { input_method_id: 7, extensions: vec![] }));
    assert_eq!(c.phase(), Phase::AwaitingQueryExtensionReply);
    assert_eq!(c.im_id(), 7);
    assert_eq!(c.im_attrs(), &im_attrs);
    assert_eq!(c.ic_attrs(), &ic_attrs);
    let a = feed(&mut c, Request::QueryExtensionReply { input_method_id: 7, supported: vec![] });
    assert_eq!(
        a,
        Action::Send(Request::EncodingNegotiation {
            input_method_id: 7,
            encodings: vec![xs("COMPOUND_TEXT"), xs("")],
            encoding_infos: vec![],
        })
    );
    assert_eq!(c.phase(), Phase::AwaitingEncodingNegotiationReply);
    let a = feed(&mut c, Request::EncodingNegotiationReply { input_method_id: 7, category: 0, index: 0 });
    assert_eq!(a, Action::Nothing);
    assert_eq!(c.phase(), Phase::Open);
}

#[test]
fn handshake_messages_encode() {
    let mut c = Client::new(xs("en_US"));
    let hello = c.connect();
    assert_eq!(decode(&encode(&hello)), hello);
    let a = feed(&mut c, Request::ConnectReply { server_major_protocol_version: 1, server_minor_protocol_version: 0 });
    if let Action::Send(open) = a {
        assert_eq!(encode(&open).len(), 12);
    } else {
        panic!("expected an open message");
    }
}

#[test]
fn replies_out_of_turn_are_ignored() {
    let mut c = Client::new(xs("en_US"));
    c.connect();
    let a = feed(&mut c, Request::OpenReply { input_method_id: 3, im_attrs: vec![], ic_attrs: vec![] });
    assert_eq!(a, Action::Nothing);
    assert_eq!(c.phase(), Phase::AwaitingConnectReply);
    let a = feed(&mut c, Request::CreateIcReply { input_method_id: 3, input_context_id: 1 });
    assert_eq!(a, Action::Nothing);
}

#[test]
fn error_surfaces_without_closing() {
    let mut c = open_client();
    assert_eq!(c.phase(), Phase::Open);
    let err = Request::Error {
        input_method_id: 7,
        input_context_id: 0,
        flag: 1,
        code: 7,
        error_type: 0,
        detail: xs("bad id"),
    };
    let a = feed(&mut c, err);
    assert_eq!(a, Action::Failed { code: 7, detail: xs("bad id") });
    assert_eq!(c.phase(), Phase::Open);
    let a = feed(&mut c, Request::CreateIcReply { input_method_id: 7, input_context_id: 3 });
    assert_eq!(a, Action::IcCreated { im_id: 7, ic_id: 3 });
}

#[test]
fn disconnect_reply_terminates() {
    let mut c = open_client();
    assert_eq!(feed(&mut c, Request::Disconnect), Action::Nothing);
    assert_eq!(c.phase(), Phase::Open);
    assert_eq!(feed(&mut c, Request::DisconnectReply), Action::Terminated);
    assert_eq!(c.phase(), Phase::Closed);
}

#[test]
fn spillover_above_twenty_bytes() {
    let bytes = vec![1u8; 24];
    assert_eq!(plan_delivery(&bytes), Delivery::Property { length: 24 });
    let r = Request::Open { name: xs("ko_KR.UTF-8.long") };
    let bytes = encode(&r);
    assert_eq!(bytes.len(), 24);
    assert_eq!(plan_delivery(&bytes), Delivery::Property { length: 24 });
}

#[test]
fn inline_up_to_twenty_bytes() {
    let r = Request::Open { name: xs("en_US") };
    let bytes = encode(&r);
    let mut want = bytes.clone();
    want.resize(20, 0);
    assert_eq!(plan_delivery(&bytes), Delivery::Inline(want));
    let full = vec![9u8; 20];
    assert_eq!(plan_delivery(&full), Delivery::Inline(full.clone()));
    assert_eq!(plan_delivery(&[]), Delivery::Inline(vec![0; 20]));
}

fn server() -> Server {
    Server::new(
        vec![Attr { id: 0, ty: AttrType::Style, name: xs("queryInputStyle") }],
        vec![
            Attr { id: 1, ty: AttrType::Long, name: xs("inputStyle") },
            Attr { id: 2, ty: AttrType::Window, name: xs("clientWindow") },
        ],
    )
}

#[test]
fn server_handshake_replies() {
    let mut s = server();
    let hello = Request::Connect {
        endian: Endian::native(),
        client_major_protocol_version: 1,
        client_minor_protocol_version: 0,
        client_auth_protocol_names: vec![],
    };
    assert_eq!(
        s.handle(&hello),
        Some(Request::ConnectReply { server_major_protocol_version: 1, server_minor_protocol_version: 0 })
    );
    let reply = s.handle(&Request::Open { name: xs("en_US") }).unwrap();
    match &reply {
        Request::OpenReply { input_method_id, im_attrs, ic_attrs } => {
            assert_eq!(*input_method_id, 1);
            assert_eq!(im_attrs.len(), 1);
            assert_eq!(ic_attrs.len(), 2);
            assert_eq!(ic_attrs[1].name, xs("clientWindow"));
        }
        other => panic!("unexpected {:?}", other),
    }
    let second = s.handle(&Request::Open { name: xs("ja_JP") }).unwrap();
    assert!(matches!(second, Request::OpenReply { input_method_id: 2, .. }));
    assert_eq!(
        s.handle(&Request::QueryExtension { input_method_id: 1, extensions: vec![] }),
        Some(Request::QueryExtensionReply { input_method_id: 1, supported: vec![] })
    );
    let neg = Request::EncodingNegotiation {
        input_method_id: 1,
        encodings: vec![xs("UTF-8"), xs("COMPOUND_TEXT"), xs("")],
        encoding_infos: vec![],
    };
    assert_eq!(
        s.handle(&neg),
        Some(Request::EncodingNegotiationReply { input_method_id: 1, category: 0, index: 1 })
    );
    let none = Request::EncodingNegotiation {
        input_method_id: 1,
        encodings: vec![xs("UTF-8")],
        encoding_infos: vec![],
    };
    assert_eq!(
        s.handle(&none),
        Some(Request::EncodingNegotiationReply { input_method_id: 1, category: 0, index: -1 })
    );
    assert_eq!(
        s.handle(&Request::SyncIc { input_method_id: 1, input_context_id: 4 }),
        Some(Request::SyncIcReply { input_method_id: 1, input_context_id: 4 })
    );
    assert_eq!(s.handle(&Request::SetIcFocus { input_method_id: 1, input_context_id: 4 }), None);
    assert_eq!(s.handle(&Request::Close { input_method_id: 1 }), Some(Request::CloseReply { input_method_id: 1 }));
    assert_eq!(s.handle(&Request::Disconnect), Some(Request::DisconnectReply));
}

#[test]
fn server_rejects_unknown_version() {
    let mut s = server();
    let hello = Request::Connect {
        endian: Endian::native(),
        client_major_protocol_version: 2,
        client_minor_protocol_version: 0,
        client_auth_protocol_names: vec![],
    };
    match s.handle(&hello) {
        Some(Request::Error { code, detail, .. }) => {
            assert_eq!(code, 13);
            assert_eq!(detail, xs(""));
        }
        other => panic!("unexpected {:?}", other),
    }
}

#[test]
fn client_and_server_complete_the_handshake() {
    let mut s = server();
    let mut c = Client::new(xs("en_US"));
    let mut outgoing = c.connect();
    for _ in 0..4 {
        let reply = s.handle(&decode(&encode(&outgoing))).unwrap();
        match feed(&mut c, reply) {
            Action::Send(next) => outgoing = next,
            Action::Nothing => break,
            other => panic!("unexpected {:?}", other),
        }
    }
    assert_eq!(c.phase(), Phase::Open);
    assert_eq!(c.im_id(), 1);
    assert_eq!(c.ic_attrs().len(), 2);
}

#[test]
fn event_masks_and_forwarded_keys() {
    let mut c = open_client();
    assert_eq!(c.event_masks(), (0, 0));
    let a = feed(
        &mut c,
        Request::SetEventMask {
            input_method_id: 7,
            input_context_id: 3,
            forward_event_mask: 3,
            synchronous_event_mask: 1,
        },
    );
    assert_eq!(a, Action::Nothing);
    assert_eq!(c.event_masks(), (3, 1));
    let key: Vec<u8> = (0u8..32).collect();
    let first = c.forward_key_press(7, 3, key.clone());
    let second = c.forward_key_press(7, 3, key.clone());
    assert!(matches!(first, Request::ForwardEvent { serial_number: 0, .. }));
    assert!(matches!(second, Request::ForwardEvent { serial_number: 1, .. }));
    assert_eq!(decode(&encode(&second)), second);
    let a = feed(&mut c, first);
    assert_eq!(a, Action::KeyEvent { im_id: 7, ic_id: 3, xevent: key });
    assert_eq!(c.phase(), Phase::Open);
}

#[test]
fn input_contexts_get_fresh_ids() {
    let mut s = server();
    let mut c = Client::new(xs("en_US"));
    let mut outgoing = c.connect();
    for _ in 0..4 {
        let reply = s.handle(&decode(&encode(&outgoing))).unwrap();
        if let Action::Send(next) = feed(&mut c, reply) {
            outgoing = next;
        } else {
            break;
        }
    }
    assert_eq!(c.phase(), Phase::Open);
    let style = AttrValue { id: 1, value: XimString(vec![4, 0, 0, 0]) };
    let ask = c.create_ic(vec![style.clone()]);
    assert_eq!(ask, Request::CreateIc { input_method_id: 1, ic_attributes: vec![style.clone()] });
    let first = s.handle(&decode(&encode(&ask))).unwrap();
    assert_eq!(first, Request::CreateIcReply { input_method_id: 1, input_context_id: 1 });
    assert_eq!(feed(&mut c, first), Action::IcCreated { im_id: 1, ic_id: 1 });
    let second = s.handle(&c.create_ic(vec![style])).unwrap();
    assert_eq!(second, Request::CreateIcReply { input_method_id: 1, input_context_id: 2 });
}
