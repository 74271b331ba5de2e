use xim_wire::attr::{Attr, AttrType, AttrValue, CaretStyle, Extension, XimString};
use xim_wire::cursor::{Reader, Writer};
use xim_wire::error::ReadError;
use xim_wire::format::{read, Endian, XimFormat};
use xim_wire::request::Request;

fn encode(r: &Request) -> Vec<u8> {
    let mut out = Vec::new();
    xim_wire::format::write(r, &mut out);
    out
}

fn xs(s: &str) -> XimString {
    XimString(s.as_bytes().to_vec())
}

fn attr(id: u16, ty: AttrType, name: &str) -> Attr {
    Attr { id, ty, name: xs(name) }
}

fn corpus() -> Vec<Request> {
    vec![
        Request::Connect {
            endian: Endian::native(),
            client_major_protocol_version: 1,
            client_minor_protocol_version: 0,
            client_auth_protocol_names: vec![],
        },
        Request::Connect {
            endian: Endian::native(),
            client_major_protocol_version: 1,
            client_minor_protocol_version: 2,
            client_auth_protocol_names: vec![xs("a")],
        },
        Request::Connect {
            endian: Endian::native(),
            client_major_protocol_version: 3,
            client_minor_protocol_version: 4,
            client_auth_protocol_names: vec![xs(""), xs("MIT-MAGIC"), xs("xy")],
        },
        Request::ConnectReply { server_major_protocol_version: 1, server_minor_protocol_version: 0 },
        Request::Open { name: xs("") },
        Request::Open { name: xs("en_US") },
        Request::Open { name: xs("ko_KR.UTF-8") },
        Request::OpenReply { input_method_id: 7, im_attrs: vec![], ic_attrs: vec![] },
        Request::OpenReply {
            input_method_id: 1,
            im_attrs: vec![attr(0, AttrType::Style, "queryInputStyle")],
            ic_attrs: vec![],
        },
        Request::OpenReply {
            input_method_id: 2,
            im_attrs: vec![attr(0, AttrType::Style, "queryInputStyle"), attr(1, AttrType::Byte, "")],
            ic_attrs: vec![
                attr(2, AttrType::Long, "inputStyle"),
                attr(3, AttrType::Window, "clientWindow"),
                attr(4, AttrType::NestedList, "preeditAttributes"),
            ],
        },
        Request::QueryExtension { input_method_id: 7, extensions: vec![] },
        Request::QueryExtension { input_method_id: 7, extensions: vec![xs("XIM_EXT_MOVE")] },
        Request::QueryExtension {
            input_method_id: 9,
            extensions: vec![xs("XIM_EXT_SET_EVENT_MASK"), xs("a"), xs("")],
        },
        Request::QueryExtensionReply { input_method_id: 7, supported: vec![] },
        Request::QueryExtensionReply {
            input_method_id: 7,
            supported: vec![Extension { major_opcode: 128, minor_opcode: 0, name: xs("XIM_EXT_MOVE") }],
        },
        Request::QueryExtensionReply {
            input_method_id: 8,
            supported: vec![
                Extension { major_opcode: 128, minor_opcode: 1, name: xs("") },
                Extension { major_opcode: 129, minor_opcode: 2, name: xs("XIM_EXT_SET_EVENT_MASK") },
            ],
        },
        Request::EncodingNegotiation { input_method_id: 7, encodings: vec![], encoding_infos: vec![] },
        Request::EncodingNegotiation {
            input_method_id: 7,
            encodings: vec![xs("COMPOUND_TEXT"), xs("")],
            encoding_infos: vec![],
        },
        Request::EncodingNegotiation {
            input_method_id: 2,
            encodings: vec![xs("UTF-8")],
            encoding_infos: vec![xs("info"), xs(""), xs("abcde")],
        },
        Request::SetEventMask {
            input_method_id: 7,
            input_context_id: 3,
            forward_event_mask: 3,
            synchronous_event_mask: 0xffff_0001,
        },
        Request::ForwardEvent {
            input_method_id: 7,
            input_context_id: 3,
            flag: 1,
            serial_number: 42,
            xevent: (0u8..32).collect(),
        },
        Request::CreateIc { input_method_id: 7, ic_attributes: vec![] },
        Request::CreateIc {
            input_method_id: 7,
            ic_attributes: vec![
                AttrValue { id: 1, value: XimString(vec![4, 0, 0, 0]) },
                AttrValue { id: 2, value: XimString(vec![1, 2]) },
                AttrValue { id: 3, value: XimString(vec![]) },
            ],
        },
        Request::Disconnect,
        Request::DisconnectReply,
        Request::Close { input_method_id: 7 },
        Request::CloseReply { input_method_id: 7 },
        Request::EncodingNegotiationReply { input_method_id: 7, category: 0, index: -1 },
        Request::CreateIcReply { input_method_id: 7, input_context_id: 3 },
        Request::DestroyIc { input_method_id: 7, input_context_id: 3 },
        Request::DestroyIcReply { input_method_id: 7, input_context_id: 3 },
        Request::SetIcValuesReply { input_method_id: 7, input_context_id: 3 },
        Request::SetIcFocus { input_method_id: 7, input_context_id: 3 },
        Request::UnsetIcFocus { input_method_id: 7, input_context_id: 3 },
        Request::SyncIc { input_method_id: 7, input_context_id: 3 },
        Request::SyncIcReply { input_method_id: 7, input_context_id: 3 },
        Request::Error {
            input_method_id: 7,
            input_context_id: 3,
            flag: 3,
            code: 7,
            error_type: 0,
            detail: xs("bad id"),
        },
        Request::Error { input_method_id: 0, input_context_id: 0, flag: 0, code: 1, error_type: 2, detail: xs("") },
    ]
}

#[test]
fn round_trip_corpus() {
    for r in corpus() {
        let bytes = encode(&r);
        let back: Request = read(&bytes).unwrap();
        assert_eq!(back, r);
        assert_eq!(encode(&back), bytes);
    }
}

#[test]
fn length_field_matches_size() {
    for r in corpus() {
        let bytes = encode(&r);
        assert_eq!(bytes.len() % 4, 0);
        assert_eq!(bytes.len(), r.size());
        let len = u16::from_ne_bytes([bytes[2], bytes[3]]) as usize;
        assert_eq!(len, (bytes.len() - 4) / 4);
    }
}

#[test]
fn padding_is_zero() {
    let r = Request::Open { name: xs("en_US") };
    let bytes = encode(&r);
    assert_eq!(&bytes[10..], &[0, 0]);
    let r = Request::Connect {
        endian: Endian::native(),
        client_major_protocol_version: 1,
        client_minor_protocol_version: 0,
        client_auth_protocol_names: vec![xs("a")],
    };
    let bytes = encode(&r);
    assert_eq!(bytes.len(), 16);
    assert_eq!(&bytes[15..], &[0]);
}

#[test]
fn connect_scenario() {
    if Endian::native() != Endian::Little {
        return;
    }
    let r = Request::Connect {
        endian: Endian::Little,
        client_major_protocol_version: 1,
        client_minor_protocol_version: 0,
        client_auth_protocol_names: vec![],
    };
    let bytes = encode(&r);
    assert_eq!(bytes, vec![0x01, 0x00, 0x02, 0x00, 0x6c, 0x00, 0x01, 0x00, 0x00, 0x00, 0x00, 0x00]);
    let back: Request = read(&bytes).unwrap();
    assert_eq!(back, r);
}

#[test]
fn open_scenario() {
    if Endian::native() != Endian::Little {
        return;
    }
    let r = Request::Open { name: xs("en_US") };
    let bytes = encode(&r);
    let mut want = vec![0x1e, 0x00, 0x02, 0x00, 0x05];
    want.extend_from_slice(b"en_US");
    want.extend_from_slice(&[0, 0]);
    assert_eq!(bytes, want);
    let back: Request = read(&bytes).unwrap();
    assert_eq!(back, r);
}

#[test]
fn foreign_endian_rejected() {
    let foreign = if Endian::native() == Endian::Little { 0x42 } else { 0x6c };
    let bytes = vec![0x01, 0x00, 0x02, 0x00, foreign, 0x00, 0x01, 0x00, 0x00, 0x00, 0x00, 0x00];
    let r: Result<Request, ReadError> = read(&bytes);
    assert!(matches!(r, Err(ReadError::NotNativeEndian)));
}

#[test]
fn unknown_opcode_rejected() {
    let r: Result<Request, ReadError> = read(&[99, 0, 0, 0]);
    match r {
        Err(ReadError::InvalidData(ty, text)) => {
            assert_eq!(ty, "Opcode");
            assert_eq!(text, "(99, 0)");
        }
        other => panic!("unexpected {:?}", other),
    }
}

#[test]
fn truncated_list_is_end_of_stream() {
    // A QueryExtension whose list claims 8 bytes but only 2 follow.
    let mut bytes = vec![40, 0, 2, 0];
    bytes.extend_from_slice(&7u16.to_ne_bytes());
    bytes.extend_from_slice(&8u16.to_ne_bytes());
    bytes.extend_from_slice(&[1, b'a']);
    let r: Result<Request, ReadError> = read(&bytes);
    assert!(matches!(r, Err(ReadError::EndOfStream)));
    // A Connect whose name list claims more than remains.
    let mut bytes = vec![1, 0, 2, 0, if Endian::native() == Endian::Little { 0x6c } else { 0x42 }, 0];
    bytes.extend_from_slice(&1u16.to_ne_bytes());
    bytes.extend_from_slice(&0u16.to_ne_bytes());
    bytes.extend_from_slice(&12u16.to_ne_bytes());
    let r: Result<Request, ReadError> = read(&bytes);
    assert!(matches!(r, Err(ReadError::EndOfStream)));
}

#[test]
fn item_overrunning_list_is_end_of_stream() {
    // The list is 4 bytes long, but its one string claims 5 bytes.
    let mut bytes = vec![40, 0, 2, 0];
    bytes.extend_from_slice(&7u16.to_ne_bytes());
    bytes.extend_from_slice(&4u16.to_ne_bytes());
    bytes.extend_from_slice(&[5, b'a', b'b', b'c', b'd', b'e', 0, 0]);
    let r: Result<Request, ReadError> = read(&bytes);
    assert!(matches!(r, Err(ReadError::EndOfStream)));
}

#[test]
fn short_header_is_end_of_stream() {
    let r: Result<Request, ReadError> = read(&[99, 0, 0]);
    assert!(matches!(r, Err(ReadError::EndOfStream)));
    let r: Result<Request, ReadError> = read(&[]);
    assert!(matches!(r, Err(ReadError::EndOfStream)));
}

#[test]
fn attr_type_codes() {
    let mut w = Writer::new(Vec::new());
    AttrType::NestedList.write(&mut w);
    let bytes = w.into_bytes();
    assert_eq!(bytes, 32767u16.to_ne_bytes().to_vec());
    let t: AttrType = read(&bytes).unwrap();
    assert_eq!(t, AttrType::NestedList);
    let r: Result<AttrType, ReadError> = read(&6u16.to_ne_bytes());
    match r {
        Err(ReadError::InvalidData(ty, text)) => {
            assert_eq!(ty, "AttrType");
            assert_eq!(text, "6");
        }
        other => panic!("unexpected {:?}", other),
    }
}

#[test]
fn caret_style_codes() {
    let t: CaretStyle = read(&2u32.to_ne_bytes()).unwrap();
    assert_eq!(t, CaretStyle::Secondary);
    let r: Result<CaretStyle, ReadError> = read(&300u32.to_ne_bytes());
    match r {
        Err(ReadError::InvalidData(ty, text)) => {
            assert_eq!(ty, "CaretStyle");
            assert_eq!(text, "300");
        }
        other => panic!("unexpected {:?}", other),
    }
}

#[test]
fn attr_round_trip_and_padding() {
    let a = attr(5, AttrType::XPoint, "spotLocation");
    let mut out = Vec::new();
    xim_wire::format::write(&a, &mut out);
    assert_eq!(out.len(), 20);
    assert_eq!(out.len(), a.size());
    assert_eq!(&out[18..], &[0, 0]);
    let back: Attr = read(&out).unwrap();
    assert_eq!(back, a);
}

#[test]
fn reader_primitives() {
    let data = [1u8, 2, 3, 4, 5, 6, 7, 8, 9];
    let mut r = Reader::new(&data);
    assert_eq!(r.u8().unwrap(), 1);
    assert_eq!(r.cursor(), 8);
    r.pad4().unwrap();
    assert_eq!(r.cursor(), 5);
    assert_eq!(r.u32().unwrap(), u32::from_ne_bytes([5, 6, 7, 8]));
    assert_eq!(r.consume(1).unwrap(), &[9]);
    assert!(matches!(r.u8(), Err(ReadError::EndOfStream)));
    assert!(matches!(r.consume(1), Err(ReadError::EndOfStream)));
    let neg = (-2i32).to_ne_bytes();
    let mut r = Reader::new(&neg);
    assert_eq!(r.i32().unwrap(), -2);
    let two = 513u16.to_ne_bytes();
    let mut r = Reader::new(&two);
    assert_eq!(r.u16().unwrap(), 513);
    assert!(matches!(r.eos(), ReadError::EndOfStream));
}

#[test]
fn writer_pads_from_origin() {
    let mut w = Writer::new(vec![9]);
    w.write_u8(1);
    w.write(&[2, 3]);
    w.write_pad4();
    w.write_pad4();
    assert_eq!(w.into_bytes(), vec![9, 1, 2, 3]);
    let mut w = Writer::new(Vec::new());
    w.write_u8(1);
    w.write_pad4();
    assert_eq!(w.into_bytes(), vec![1, 0, 0, 0]);
    assert_eq!(xim_wire::cursor::pad4(5), 3);
    assert_eq!(xim_wire::cursor::pad4(8), 0);
}

#[test]
fn fixed_layouts() {
    let bytes = encode(&Request::Disconnect);
    assert_eq!(bytes, vec![3, 0, 0, 0]);
    let bytes = encode(&Request::CreateIcReply { input_method_id: 7, input_context_id: 3 });
    let mut want = vec![51, 0, 1, 0];
    want.extend_from_slice(&7u16.to_ne_bytes());
    want.extend_from_slice(&3u16.to_ne_bytes());
    assert_eq!(bytes, want);
    let bytes = encode(&Request::Close { input_method_id: 7 });
    let mut want = vec![32, 0, 1, 0];
    want.extend_from_slice(&7u16.to_ne_bytes());
    want.extend_from_slice(&[0, 0]);
    assert_eq!(bytes, want);
}

#[test]
fn error_layout() {
    let r = Request::Error {
        input_method_id: 1,
        input_context_id: 2,
        flag: 3,
        code: 7,
        error_type: 0,
        detail: xs("bad id"),
    };
    let bytes = encode(&r);
    assert_eq!(bytes.len(), 24);
    assert_eq!(&bytes[..2], &[20, 0]);
    assert_eq!(u16::from_ne_bytes([bytes[2], bytes[3]]), 5);
    assert_eq!(u16::from_ne_bytes([bytes[12], bytes[13]]), 6);
    assert_eq!(&bytes[16..22], b"bad id");
    assert_eq!(&bytes[22..], &[0, 0]);
}

#[test]
fn encoding_negotiation_layout() {
    let r = Request::EncodingNegotiation {
        input_method_id: 7,
        encodings: vec![xs("COMPOUND_TEXT"), xs("")],
        encoding_infos: vec![],
    };
    let bytes = encode(&r);
    // header 4, id 2, length 2, "COMPOUND_TEXT" 14, empty 1, pad 1, length 2, unused 2.
    assert_eq!(bytes.len(), 28);
    assert_eq!(u16::from_ne_bytes([bytes[6], bytes[7]]), 15);
    assert_eq!(bytes[8], 13);
    assert_eq!(&bytes[9..22], b"COMPOUND_TEXT");
    assert_eq!(bytes[22], 0);
    assert_eq!(bytes[23], 0);
    assert_eq!(u16::from_ne_bytes([bytes[24], bytes[25]]), 0);
}

#[test]
fn forward_event_layout() {
    let r = Request::ForwardEvent {
        input_method_id: 1,
        input_context_id: 2,
        flag: 0,
        serial_number: 9,
        xevent: vec![0xab; 32],
    };
    let bytes = encode(&r);
    assert_eq!(bytes.len(), 44);
    assert_eq!(&bytes[..2], &[70, 0]);
    assert_eq!(u16::from_ne_bytes([bytes[2], bytes[3]]), 10);
    assert_eq!(u16::from_ne_bytes([bytes[10], bytes[11]]), 9);
    assert_eq!(&bytes[12..], &[0xab; 32][..]);
    // An event cut short fails.
    let r: Result<Request, ReadError> = read(&bytes[..40]);
    assert!(matches!(r, Err(ReadError::EndOfStream)));
}

#[test]
fn set_event_mask_layout() {
    let r = Request::SetEventMask {
        input_method_id: 1,
        input_context_id: 2,
        forward_event_mask: 0x0102_0304,
        synchronous_event_mask: 5,
    };
    let bytes = encode(&r);
    assert_eq!(bytes.len(), 16);
    assert_eq!(&bytes[..2], &[37, 0]);
    assert_eq!(u16::from_ne_bytes([bytes[2], bytes[3]]), 3);
    assert_eq!(u32::from_ne_bytes([bytes[8], bytes[9], bytes[10], bytes[11]]), 0x0102_0304);
    assert_eq!(u32::from_ne_bytes([bytes[12], bytes[13], bytes[14], bytes[15]]), 5);
}

#[test]
fn create_ic_layout() {
    let r = Request::CreateIc {
        input_method_id: 7,
        ic_attributes: vec![AttrValue { id: 1, value: XimString(vec![9, 9]) }],
    };
    let bytes = encode(&r);
    // header 4, id 2, length 2, then id 2, value length 2, value 2, pad 2.
    assert_eq!(bytes.len(), 16);
    assert_eq!(&bytes[..2], &[50, 0]);
    assert_eq!(u16::from_ne_bytes([bytes[6], bytes[7]]), 8);
    assert_eq!(&bytes[12..], &[9, 9, 0, 0]);
}

#[test]
fn nonzero_minor_opcode_rejected() {
    let hello = Request::Connect {
        endian: Endian::native(),
        client_major_protocol_version: 1,
        client_minor_protocol_version: 0,
        client_auth_protocol_names: vec![],
    };
    let mut bytes = encode(&hello);
    bytes[1] = 1;
    let r: Result<Request, ReadError> = read(&bytes);
    match r {
        Err(ReadError::InvalidData(ty, text)) => {
            assert_eq!(ty, "Opcode");
            assert_eq!(text, "(1, 1)");
        }
        other => panic!("unexpected {:?}", other),
    }
    let r: Result<Request, ReadError> = read(&[3, 7, 0, 0]);
    assert!(matches!(r, Err(ReadError::InvalidData("Opcode", _))));
}

#[test]
fn failed_reads_keep_position() {
    let data = [1u8, 2, 3];
    let mut r = Reader::new(&data);
    assert_eq!(r.u8().unwrap(), 1);
    assert!(matches!(r.u32(), Err(ReadError::EndOfStream)));
    assert_eq!(r.cursor(), 2);
    assert!(matches!(r.i32(), Err(ReadError::EndOfStream)));
    assert_eq!(r.cursor(), 2);
    assert!(matches!(r.pad4(), Err(ReadError::EndOfStream)));
    assert_eq!(r.cursor(), 2);
    assert_eq!(r.u16().unwrap(), u16::from_ne_bytes([2, 3]));
    assert!(matches!(r.u16(), Err(ReadError::EndOfStream)));
    assert!(matches!(r.u8(), Err(ReadError::EndOfStream)));
    assert_eq!(r.cursor(), 0);
}
