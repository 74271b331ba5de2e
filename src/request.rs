//! The protocol messages: a four-byte header `major, minor, length` and a body per variant.

use vstd::prelude::*;
use crate::bytes::{pad_len, zeros, u16_wire, u32_wire, lemma_pad_len};
use crate::cursor::{Reader, Writer, pad4, take_u8, take_u16, take_u32, take_bytes, take_pad};
use crate::error::{ReadError, Fault, settles, opcode_text};
use crate::format::{XimFormat, Endian};
use crate::attr::{XimString, Attr, AttrView, Extension, ExtView, AttrValue, AttrValueView};

use crate::list::{
    read_format_items, write_format_items, formats_total, value_item, values_wire, values_len,
    values_view, lemma_values_wire_len, strings_view, attrs_view, exts_view, parse_items,
    parse_list, parse_list_after_gap, parse_string8, string16_item, string8_item, attr_item,
    ext_item, read_string8, read_list_len, read_gap_list_len, read_string16_items,
    read_string8_items, strings16_wire, strings16_len, strings8_wire, strings8_len, attrs_wire,
    attrs_len, exts_wire, exts_len, lemma_pad_shift, strings16_total, strings8_total,
    write_string16_items, write_string8_items, lemma_strings16_wire_len, lemma_attrs_wire_len,
    lemma_exts_wire_len, lemma_strings8_wire_len,
};

verus! {

/// A protocol message.
#[derive(Debug, Clone, PartialEq, Eq)]
pub enum Request {
    Connect {
        endian: Endian,
        client_major_protocol_version: u16,
        client_minor_protocol_version: u16,
        client_auth_protocol_names: Vec<XimString>,
    },
    ConnectReply {
        server_major_protocol_version: u16,
        server_minor_protocol_version: u16,
    },
    Open {
        name: XimString,
    },
    OpenReply {
        input_method_id: u16,
        im_attrs: Vec<Attr>,
        ic_attrs: Vec<Attr>,
    },
    QueryExtension {
        input_method_id: u16,
        extensions: Vec<XimString>,
    },
    QueryExtensionReply {
        input_method_id: u16,
        supported: Vec<Extension>,
    },
    EncodingNegotiation {
        input_method_id: u16,
        encodings: Vec<XimString>,
        encoding_infos: Vec<XimString>,
    },
    CreateIc {
        input_method_id: u16,
        ic_attributes: Vec<AttrValue>,
    },
    SetEventMask {
        input_method_id: u16,
        input_context_id: u16,
        forward_event_mask: u32,
        synchronous_event_mask: u32,
    },
    ForwardEvent {
        input_method_id: u16,
        input_context_id: u16,
        flag: u16,
        serial_number: u16,
        xevent: Vec<u8>,
    },
    Disconnect,
    DisconnectReply,
    Close {
        input_method_id: u16,
    },
    CloseReply {
        input_method_id: u16,
    },
    EncodingNegotiationReply {
        input_method_id: u16,
        category: u16,
        index: i16,
    },
    CreateIcReply {
        input_method_id: u16,
        input_context_id: u16,
    },
    DestroyIc {
        input_method_id: u16,
        input_context_id: u16,
    },
    DestroyIcReply {
        input_method_id: u16,
        input_context_id: u16,
    },
    SetIcValuesReply {
        input_method_id: u16,
        input_context_id: u16,
    },
    SetIcFocus {
        input_method_id: u16,
        input_context_id: u16,
    },
    UnsetIcFocus {
        input_method_id: u16,
        input_context_id: u16,
    },
    SyncIc {
        input_method_id: u16,
        input_context_id: u16,
    },
    SyncIcReply {
        input_method_id: u16,
        input_context_id: u16,
    },
    Error {
        input_method_id: u16,
        input_context_id: u16,
        flag: u16,
        code: u16,
        error_type: u16,
        detail: XimString,
    },
}

/// A protocol message as plain values.
pub enum RequestView {
    Connect { endian: Endian, client_major: u16, client_minor: u16, auth_names: Seq<Seq<u8>> },
    ConnectReply { server_major: u16, server_minor: u16 },
    Open { name: Seq<u8> },
    OpenReply { im_id: u16, im_attrs: Seq<AttrView>, ic_attrs: Seq<AttrView> },
    QueryExtension { im_id: u16, extensions: Seq<Seq<u8>> },
    QueryExtensionReply { im_id: u16, supported: Seq<ExtView> },
    EncodingNegotiation { im_id: u16, encodings: Seq<Seq<u8>>, encoding_infos: Seq<Seq<u8>> },
    CreateIc { im_id: u16, ic_attributes: Seq<AttrValueView> },
    SetEventMask { im_id: u16, ic_id: u16, forward_mask: u32, synchronous_mask: u32 },
    ForwardEvent { im_id: u16, ic_id: u16, flag: u16, serial: u16, event: Seq<u8> },
    /// A message with no body.
    Bare { major: u8 },
    /// A message whose body is an input method id and two pad bytes.
    Im { major: u8, im_id: u16 },
    /// A message whose body is an input method id and an input context id.
    Ic { major: u8, im_id: u16, ic_id: u16 },
    EncodingNegotiationReply { im_id: u16, category: u16, index: i16 },
    Error { im_id: u16, ic_id: u16, flag: u16, code: u16, error_type: u16, detail: Seq<u8> },
}

impl View for Request {
    type V = RequestView;

    open spec fn view(&self) -> RequestView {
        match self {
            Request::Connect {
                endian,
                client_major_protocol_version,
                client_minor_protocol_version,
                client_auth_protocol_names,
            } => RequestView::Connect {
                endian: *endian,
                client_major: *client_major_protocol_version,
                client_minor: *client_minor_protocol_version,
                auth_names: strings_view(client_auth_protocol_names@),
            },
            Request::ConnectReply { server_major_protocol_version, server_minor_protocol_version } =>
                RequestView::ConnectReply {
                server_major: *server_major_protocol_version,
                server_minor: *server_minor_protocol_version,
            },
            Request::Open { name } => RequestView::Open { name: name@ },
            Request::OpenReply { input_method_id, im_attrs, ic_attrs } => RequestView::OpenReply {
                im_id: *input_method_id,
                im_attrs: attrs_view(im_attrs@),
                ic_attrs: attrs_view(ic_attrs@),
            },
            Request::QueryExtension { input_method_id, extensions } => RequestView::QueryExtension {
                im_id: *input_method_id,
                extensions: strings_view(extensions@),
            },
            Request::QueryExtensionReply { input_method_id, supported } =>
                RequestView::QueryExtensionReply {
                im_id: *input_method_id,
                supported: exts_view(supported@),
            },
            Request::EncodingNegotiation { input_method_id, encodings, encoding_infos } =>
                RequestView::EncodingNegotiation {
                im_id: *input_method_id,
                encodings: strings_view(encodings@),
                encoding_infos: strings_view(encoding_infos@),
            },
            Request::SetEventMask {
                input_method_id,
                input_context_id,
                forward_event_mask,
                synchronous_event_mask,
            } => RequestView::SetEventMask {
                im_id: *input_method_id,
                ic_id: *input_context_id,
                forward_mask: *forward_event_mask,
                synchronous_mask: *synchronous_event_mask,
            },
            Request::ForwardEvent { input_method_id, input_context_id, flag, serial_number, xevent } =>
                RequestView::ForwardEvent {
                im_id: *input_method_id,
                ic_id: *input_context_id,
                flag: *flag,
                serial: *serial_number,
                event: xevent@,
            },
            Request::CreateIc { input_method_id, ic_attributes } => RequestView::CreateIc {
                im_id: *input_method_id,
                ic_attributes: values_view(ic_attributes@),
            },
            Request::Disconnect => RequestView::Bare { major: 3 },
            Request::DisconnectReply => RequestView::Bare { major: 4 },
            Request::Close { input_method_id } => RequestView::Im { major: 32, im_id: *input_method_id },
            Request::CloseReply { input_method_id } => RequestView::Im { major: 33, im_id: *input_method_id },
            Request::EncodingNegotiationReply { input_method_id, category, index } =>
                RequestView::EncodingNegotiationReply {
                im_id: *input_method_id,
                category: *category,
                index: *index,
            },
            Request::CreateIcReply { input_method_id, input_context_id } => RequestView::Ic {
                major: 51,
                im_id: *input_method_id,
                ic_id: *input_context_id,
            },
            Request::DestroyIc { input_method_id, input_context_id } => RequestView::Ic {
                major: 52,
                im_id: *input_method_id,
                ic_id: *input_context_id,
            },
            Request::DestroyIcReply { input_method_id, input_context_id } => RequestView::Ic {
                major: 53,
                im_id: *input_method_id,
                ic_id: *input_context_id,
            },
            Request::SetIcValuesReply { input_method_id, input_context_id } => RequestView::Ic {
                major: 55,
                im_id: *input_method_id,
                ic_id: *input_context_id,
            },
            Request::SetIcFocus { input_method_id, input_context_id } => RequestView::Ic {
                major: 58,
                im_id: *input_method_id,
                ic_id: *input_context_id,
            },
            Request::UnsetIcFocus { input_method_id, input_context_id } => RequestView::Ic {
                major: 59,
                im_id: *input_method_id,
                ic_id: *input_context_id,
            },
            Request::SyncIc { input_method_id, input_context_id } => RequestView::Ic {
                major: 60,
                im_id: *input_method_id,
                ic_id: *input_context_id,
            },
            Request::SyncIcReply { input_method_id, input_context_id } => RequestView::Ic {
                major: 61,
                im_id: *input_method_id,
                ic_id: *input_context_id,
            },
            Request::Error { input_method_id, input_context_id, flag, code, error_type, detail } =>
                RequestView::Error {
                im_id: *input_method_id,
                ic_id: *input_context_id,
                flag: *flag,
                code: *code,
                error_type: *error_type,
                detail: detail@,
            },
        }
    }
}

#[verifier::opaque]
pub open spec fn parse_connect(b: Seq<u8>, pos: nat) -> Result<(RequestView, nat), Fault> {
    match Endian::parse(b, pos) {
        Ok((endian, p1)) => match take_u8(b, p1) {
            Ok((_, p2)) => match take_u16(b, p2) {
                Ok((client_major, p3)) => match take_u16(b, p3) {
                    Ok((client_minor, p4)) => match parse_list(string16_item(), b, p4) {
                        Ok((auth_names, p5)) => Ok(
                            (
                                RequestView::Connect { endian, client_major, client_minor, auth_names },
                                p5,
                            ),
                        ),
                        Err(f) => Err(f),
                    },
                    Err(f) => Err(f),
                },
                Err(f) => Err(f),
            },
            Err(f) => Err(f),
        },
        Err(f) => Err(f),
    }
}

#[verifier::opaque]
pub open spec fn parse_connect_reply(b: Seq<u8>, pos: nat) -> Result<(RequestView, nat), Fault> {
    match take_u16(b, pos) {
        Ok((server_major, p1)) => match take_u16(b, p1) {
            Ok((server_minor, p2)) => Ok((RequestView::ConnectReply { server_major, server_minor }, p2)),
            Err(f) => Err(f),
        },
        Err(f) => Err(f),
    }
}

#[verifier::opaque]
pub open spec fn parse_open(b: Seq<u8>, pos: nat) -> Result<(RequestView, nat), Fault> {
    match parse_string8(b, pos) {
        Ok((name, p1)) => match take_pad(b, p1) {
            Ok((_, p2)) => Ok((RequestView::Open { name }, p2)),
            Err(f) => Err(f),
        },
        Err(f) => Err(f),
    }
}

/// The IC attribute list's length prefix counts the two pad bytes that follow it.
#[verifier::opaque]
pub open spec fn parse_ic_attrs(b: Seq<u8>, pos: nat) -> Result<(Seq<AttrView>, nat), Fault> {
    match take_u16(b, pos) {
        Ok((n, p)) => if p + n > b.len() {
            Err(Fault::EndOfStream)
        } else {
            match take_u16(b.take(p + n), p) {
                Ok((_, q)) => match parse_items(attr_item(), b, q, (p + n) as nat) {
                    Ok(items) => Ok((items, (p + n) as nat)),
                    Err(f) => Err(f),
                },
                Err(f) => Err(f),
            }
        },
        Err(f) => Err(f),
    }
}

#[verifier::opaque]
pub open spec fn parse_open_reply(b: Seq<u8>, pos: nat) -> Result<(RequestView, nat), Fault> {
    match take_u16(b, pos) {
        Ok((im_id, p1)) => match parse_list(attr_item(), b, p1) {
            Ok((im_attrs, p2)) => match parse_ic_attrs(b, p2) {
                Ok((ic_attrs, p3)) => Ok((RequestView::OpenReply { im_id, im_attrs, ic_attrs }, p3)),
                Err(f) => Err(f),
            },
            Err(f) => Err(f),
        },
        Err(f) => Err(f),
    }
}

#[verifier::opaque]
pub open spec fn parse_query_extension(b: Seq<u8>, pos: nat) -> Result<(RequestView, nat), Fault> {
    match take_u16(b, pos) {
        Ok((im_id, p1)) => match parse_list(string8_item(), b, p1) {
            Ok((extensions, p2)) => match take_pad(b, p2) {
                Ok((_, p3)) => Ok((RequestView::QueryExtension { im_id, extensions }, p3)),
                Err(f) => Err(f),
            },
            Err(f) => Err(f),
        },
        Err(f) => Err(f),
    }
}

#[verifier::opaque]
pub open spec fn parse_query_extension_reply(b: Seq<u8>, pos: nat) -> Result<(RequestView, nat), Fault> {
    match take_u16(b, pos) {
        Ok((im_id, p1)) => match parse_list(ext_item(), b, p1) {
            Ok((supported, p2)) => Ok((RequestView::QueryExtensionReply { im_id, supported }, p2)),
            Err(f) => Err(f),
        },
        Err(f) => Err(f),
    }
}

#[verifier::opaque]
pub open spec fn parse_encoding_negotiation(b: Seq<u8>, pos: nat) -> Result<(RequestView, nat), Fault> {
    match take_u16(b, pos) {
        Ok((im_id, p1)) => match parse_list(string8_item(), b, p1) {
            Ok((encodings, p2)) => match take_pad(b, p2) {
                Ok((_, p3)) => match parse_list_after_gap(string16_item(), b, p3) {
                    Ok((encoding_infos, p4)) => Ok(
                        (RequestView::EncodingNegotiation { im_id, encodings, encoding_infos }, p4),
                    ),
                    Err(f) => Err(f),
                },
                Err(f) => Err(f),
            },
            Err(f) => Err(f),
        },
        Err(f) => Err(f),
    }
}

#[verifier::opaque]
pub open spec fn parse_create_ic(b: Seq<u8>, pos: nat) -> Result<(RequestView, nat), Fault> {
    match take_u16(b, pos) {
        Ok((im_id, p1)) => match parse_list(value_item(), b, p1) {
            Ok((ic_attributes, p2)) => Ok((RequestView::CreateIc { im_id, ic_attributes }, p2)),
            Err(f) => Err(f),
        },
        Err(f) => Err(f),
    }
}

/// The major opcodes of the messages whose body is an input method id and an input context id.
pub open spec fn is_ic_major(m: u8) -> bool {
    m == 51 || m == 52 || m == 53 || m == 55 || m == 58 || m == 59 || m == 60 || m == 61
}

/// The major opcodes of the messages with a fixed layout but for the error's detail.
pub open spec fn is_fixed_major(m: u8) -> bool {
    m == 3 || m == 4 || m == 32 || m == 33 || m == 39 || m == 20 || m == 37 || m == 70 || is_ic_major(m)
}

/// The byte length of an X event as a forwarded message carries it.
pub const XEVENT_LEN: usize = 32;

/// Event masks: ids, then the forward mask and the synchronous mask.
pub open spec fn parse_set_event_mask(b: Seq<u8>, pos: nat) -> Result<(RequestView, nat), Fault> {
    match take_u16(b, pos) {
        Ok((im_id, p1)) => match take_u16(b, p1) {
            Ok((ic_id, p2)) => match take_u32(b, p2) {
                Ok((forward_mask, p3)) => match take_u32(b, p3) {
                    Ok((synchronous_mask, p4)) => Ok(
                        (RequestView::SetEventMask { im_id, ic_id, forward_mask, synchronous_mask }, p4),
                    ),
                    Err(f) => Err(f),
                },
                Err(f) => Err(f),
            },
            Err(f) => Err(f),
        },
        Err(f) => Err(f),
    }
}

/// A forwarded event: ids, flag, serial number, then the event's bytes.
pub open spec fn parse_forward_event(b: Seq<u8>, pos: nat) -> Result<(RequestView, nat), Fault> {
    match take_u16(b, pos) {
        Ok((im_id, p1)) => match take_u16(b, p1) {
            Ok((ic_id, p2)) => match take_u16(b, p2) {
                Ok((flag, p3)) => match take_u16(b, p3) {
                    Ok((serial, p4)) => match take_bytes(b, p4, XEVENT_LEN as nat) {
                        Ok((event, p5)) => Ok(
                            (RequestView::ForwardEvent { im_id, ic_id, flag, serial, event }, p5),
                        ),
                        Err(f) => Err(f),
                    },
                    Err(f) => Err(f),
                },
                Err(f) => Err(f),
            },
            Err(f) => Err(f),
        },
        Err(f) => Err(f),
    }
}

/// An error: ids, flag and code, the detail's length, the error type, the detail and its padding.
pub open spec fn parse_error(b: Seq<u8>, pos: nat) -> Result<(RequestView, nat), Fault> {
    match take_u16(b, pos) {
        Ok((im_id, p1)) => match take_u16(b, p1) {
            Ok((ic_id, p2)) => match take_u16(b, p2) {
                Ok((flag, p3)) => match take_u16(b, p3) {
                    Ok((code, p4)) => match take_u16(b, p4) {
                        Ok((n, p5)) => match take_u16(b, p5) {
                            Ok((error_type, p6)) => match take_bytes(b, p6, n as nat) {
                                Ok((detail, p7)) => match take_pad(b, p7) {
                                    Ok((_, p8)) => Ok(
                                        (
                                            RequestView::Error { im_id, ic_id, flag, code, error_type, detail },
                                            p8,
                                        ),
                                    ),
                                    Err(f) => Err(f),
                                },
                                Err(f) => Err(f),
                            },
                            Err(f) => Err(f),
                        },
                        Err(f) => Err(f),
                    },
                    Err(f) => Err(f),
                },
                Err(f) => Err(f),
            },
            Err(f) => Err(f),
        },
        Err(f) => Err(f),
    }
}

/// The body of a fixed-layout message with major opcode `major`.
#[verifier::opaque]
pub open spec fn parse_fixed(major: u8, b: Seq<u8>, pos: nat) -> Result<(RequestView, nat), Fault> {
    if major == 3 || major == 4 {
        Ok((RequestView::Bare { major }, pos))
    } else if major == 20 {
        parse_error(b, pos)
    } else if major == 37 {
        parse_set_event_mask(b, pos)
    } else if major == 70 {
        parse_forward_event(b, pos)
    } else if major == 32 || major == 33 {
        match take_u16(b, pos) {
            Ok((im_id, p1)) => match take_u16(b, p1) {
                Ok((_, p2)) => Ok((RequestView::Im { major, im_id }, p2)),
                Err(f) => Err(f),
            },
            Err(f) => Err(f),
        }
    } else if major == 39 {
        match take_u16(b, pos) {
            Ok((im_id, p1)) => match take_u16(b, p1) {
                Ok((category, p2)) => match take_u16(b, p2) {
                    Ok((index, p3)) => match take_u16(b, p3) {
                        Ok((_, p4)) => Ok(
                            (RequestView::EncodingNegotiationReply { im_id, category, index: index as i16 }, p4),
                        ),
                        Err(f) => Err(f),
                    },
                    Err(f) => Err(f),
                },
                Err(f) => Err(f),
            },
            Err(f) => Err(f),
        }
    } else {
        match take_u16(b, pos) {
            Ok((im_id, p1)) => match take_u16(b, p1) {
                Ok((ic_id, p2)) => Ok((RequestView::Ic { major, im_id, ic_id }, p2)),
                Err(f) => Err(f),
            },
            Err(f) => Err(f),
        }
    }
}

/// The major opcodes of the messages that this codec knows; each has minor opcode 0.
pub open spec fn is_known_major(m: u8) -> bool {
    m == 1 || m == 2 || m == 30 || m == 31 || m == 40 || m == 41 || m == 38 || m == 50 || is_fixed_major(
        m,
    )
}

/// The body after a header with opcodes `major, minor`; a pair that names no message fails.
pub open spec fn parse_body(major: u8, minor: u8, b: Seq<u8>, pos: nat) -> Result<(RequestView, nat), Fault> {
    if minor != 0 || !is_known_major(major) {
        Err(Fault::BadOpcode(major, minor))
    } else if major == 1 {
        parse_connect(b, pos)
    } else if major == 2 {
        parse_connect_reply(b, pos)
    } else if major == 30 {
        parse_open(b, pos)
    } else if major == 31 {
        parse_open_reply(b, pos)
    } else if major == 40 {
        parse_query_extension(b, pos)
    } else if major == 41 {
        parse_query_extension_reply(b, pos)
    } else if major == 38 {
        parse_encoding_negotiation(b, pos)
    } else if major == 50 {
        parse_create_ic(b, pos)
    } else if is_fixed_major(major) {
        parse_fixed(major, b, pos)
    } else {
        Err(Fault::BadOpcode(major, minor))
    }
}

/// A whole message: the header, whose length field is not consulted, then the body.
pub open spec fn parse_request(b: Seq<u8>, pos: nat) -> Result<(RequestView, nat), Fault> {
    match take_u8(b, pos) {
        Ok((major, p1)) => match take_u8(b, p1) {
            Ok((minor, p2)) => match take_u16(b, p2) {
                Ok((_, p3)) => parse_body(major, minor, b, p3),
                Err(f) => Err(f),
            },
            Err(f) => Err(f),
        },
        Err(f) => Err(f),
    }
}

/// The major opcode of a message.
pub open spec fn major_of(v: RequestView) -> u8 {
    match v {
        RequestView::Connect { .. } => 1,
        RequestView::ConnectReply { .. } => 2,
        RequestView::Open { .. } => 30,
        RequestView::OpenReply { .. } => 31,
        RequestView::QueryExtension { .. } => 40,
        RequestView::QueryExtensionReply { .. } => 41,
        RequestView::EncodingNegotiation { .. } => 38,
        RequestView::CreateIc { .. } => 50,
        RequestView::SetEventMask { .. } => 37,
        RequestView::ForwardEvent { .. } => 70,
        RequestView::Bare { major } => major,
        RequestView::Im { major, .. } => major,
        RequestView::Ic { major, .. } => major,
        RequestView::EncodingNegotiationReply { .. } => 39,
        RequestView::Error { .. } => 20,
    }
}

/// The byte length of a message body written at a four-aligned position.
pub open spec fn body_len(v: RequestView) -> nat {
    match v {
        RequestView::Connect { auth_names, .. } => 8 + strings16_len(auth_names),
        RequestView::ConnectReply { .. } => 4,
        RequestView::Open { name } => 1 + name.len() + pad_len(1 + name.len()),
        RequestView::OpenReply { im_attrs, ic_attrs, .. } => 8 + attrs_len(im_attrs) + attrs_len(ic_attrs),
        RequestView::QueryExtension { extensions, .. } => 4 + strings8_len(extensions) + pad_len(
            4 + strings8_len(extensions),
        ),
        RequestView::QueryExtensionReply { supported, .. } => 4 + exts_len(supported),
        RequestView::EncodingNegotiation { encodings, encoding_infos, .. } => 4 + strings8_len(encodings)
            + pad_len(4 + strings8_len(encodings)) + 4 + strings16_len(encoding_infos),
        RequestView::CreateIc { ic_attributes, .. } => 4 + values_len(ic_attributes),
        RequestView::SetEventMask { .. } => 12,
        RequestView::ForwardEvent { event, .. } => 8 + event.len(),
        RequestView::Bare { .. } => 0,
        RequestView::Im { .. } => 4,
        RequestView::Ic { .. } => 4,
        RequestView::EncodingNegotiationReply { .. } => 8,
        RequestView::Error { detail, .. } => 12 + detail.len() + pad_len(12 + detail.len()),
    }
}

/// The body of a message whose first body byte lands at buffer position `off`.
pub open spec fn body_wire(v: RequestView, off: nat) -> Seq<u8> {
    match v {
        RequestView::Connect { endian, client_major, client_minor, auth_names } => seq![endian.tag(), 0u8]
            + u16_wire(client_major) + u16_wire(client_minor) + u16_wire(
            strings16_len(auth_names) as u16,
        ) + strings16_wire(auth_names, off + 8),
        RequestView::ConnectReply { server_major, server_minor } => u16_wire(server_major) + u16_wire(
            server_minor,
        ),
        RequestView::Open { name } => seq![name.len() as u8] + name + zeros(pad_len(off + 1 + name.len())),
        RequestView::OpenReply { im_id, im_attrs, ic_attrs } => {
            let im = attrs_wire(im_attrs, off + 4);
            u16_wire(im_id) + u16_wire(attrs_len(im_attrs) as u16) + im + u16_wire(
                (attrs_len(ic_attrs) + 2) as u16,
            ) + zeros(2) + attrs_wire(ic_attrs, off + 8 + im.len())
        },
        RequestView::QueryExtension { im_id, extensions } => u16_wire(im_id) + u16_wire(
            strings8_len(extensions) as u16,
        ) + strings8_wire(extensions) + zeros(pad_len(off + 4 + strings8_len(extensions))),
        RequestView::QueryExtensionReply { im_id, supported } => u16_wire(im_id) + u16_wire(
            exts_len(supported) as u16,
        ) + exts_wire(supported, off + 4),
        RequestView::EncodingNegotiation { im_id, encodings, encoding_infos } => {
            let l1 = strings8_len(encodings);
            let q = off + 4 + l1 + pad_len(off + 4 + l1) + 4;
            u16_wire(im_id) + u16_wire(l1 as u16) + strings8_wire(encodings) + zeros(pad_len(off + 4 + l1))
                + u16_wire(strings16_len(encoding_infos) as u16) + zeros(2) + strings16_wire(encoding_infos, q)
        },
        RequestView::CreateIc { im_id, ic_attributes } => u16_wire(im_id) + u16_wire(
            values_len(ic_attributes) as u16,
        ) + values_wire(ic_attributes, off + 4),
        RequestView::SetEventMask { im_id, ic_id, forward_mask, synchronous_mask } => u16_wire(im_id)
            + u16_wire(ic_id) + u32_wire(forward_mask) + u32_wire(synchronous_mask),
        RequestView::ForwardEvent { im_id, ic_id, flag, serial, event } => u16_wire(im_id) + u16_wire(ic_id)
            + u16_wire(flag) + u16_wire(serial) + event,
        RequestView::Bare { .. } => seq![],
        RequestView::Im { im_id, .. } => u16_wire(im_id) + zeros(2),
        RequestView::Ic { im_id, ic_id, .. } => u16_wire(im_id) + u16_wire(ic_id),
        RequestView::EncodingNegotiationReply { im_id, category, index } => u16_wire(im_id) + u16_wire(
            category,
        ) + u16_wire(index as u16) + zeros(2),
        RequestView::Error { im_id, ic_id, flag, code, error_type, detail } => u16_wire(im_id) + u16_wire(
            ic_id,
        ) + u16_wire(flag) + u16_wire(code) + u16_wire(detail.len() as u16) + u16_wire(error_type) + detail
            + zeros(pad_len(off + 12 + detail.len())),
    }
}

/// The header: both opcodes, then the body length in four-byte units.
pub open spec fn header_wire(v: RequestView) -> Seq<u8> {
    seq![major_of(v), 0u8] + u16_wire((body_len(v) / 4) as u16)
}

/// Whether every length of the message fits the width of its wire prefix,
/// and a message of a shared layout carries one of that layout's opcodes.
pub open spec fn request_fits(v: RequestView) -> bool {
    match v {
        RequestView::Connect { auth_names, .. } => (forall|i: int|
            0 <= i < auth_names.len() ==> #[trigger] auth_names[i].len() <= 0xffff) && strings16_len(
            auth_names,
        ) <= 0xffff,
        RequestView::ConnectReply { .. } => true,
        RequestView::Open { name } => name.len() <= 0xff,
        RequestView::OpenReply { im_attrs, ic_attrs, .. } => (forall|i: int|
            0 <= i < im_attrs.len() ==> Attr::fits(#[trigger] im_attrs[i])) && (forall|i: int|
            0 <= i < ic_attrs.len() ==> Attr::fits(#[trigger] ic_attrs[i])) && attrs_len(im_attrs)
            <= 0xffff && attrs_len(ic_attrs) + 2 <= 0xffff,
        RequestView::QueryExtension { extensions, .. } => (forall|i: int|
            0 <= i < extensions.len() ==> #[trigger] extensions[i].len() <= 0xff) && strings8_len(
            extensions,
        ) <= 0xffff,
        RequestView::QueryExtensionReply { supported, .. } => (forall|i: int|
            0 <= i < supported.len() ==> Extension::fits(#[trigger] supported[i])) && exts_len(supported)
            <= 0xffff,
        RequestView::EncodingNegotiation { encodings, encoding_infos, .. } => (forall|i: int|
            0 <= i < encodings.len() ==> #[trigger] encodings[i].len() <= 0xff) && strings8_len(encodings)
            <= 0xffff && (forall|i: int|
            0 <= i < encoding_infos.len() ==> #[trigger] encoding_infos[i].len() <= 0xffff) && strings16_len(
            encoding_infos,
        ) <= 0xffff,
        RequestView::CreateIc { ic_attributes, .. } => (forall|i: int|
            0 <= i < ic_attributes.len() ==> AttrValue::fits(#[trigger] ic_attributes[i]))
            && values_len(ic_attributes) <= 0xffff,
        RequestView::SetEventMask { .. } => true,
        RequestView::ForwardEvent { event, .. } => event.len() == XEVENT_LEN,
        RequestView::Bare { major } => major == 3 || major == 4,
        RequestView::Im { major, .. } => major == 32 || major == 33,
        RequestView::Ic { major, .. } => is_ic_major(major),
        RequestView::EncodingNegotiationReply { .. } => true,
        RequestView::Error { detail, .. } => detail.len() <= 0xffff,
    }
}

#[verifier::spinoff_prover]
proof fn lemma_body_len_connect(v: RequestView, off: nat)
    requires
        v is Connect,
        off % 4 == 0,
    ensures
        body_wire(v, off).len() == body_len(v),
        body_len(v) % 4 == 0,
{
    lemma_strings16_wire_len(v->Connect_auth_names, off + 8);
}

#[verifier::spinoff_prover]
proof fn lemma_body_len_open(v: RequestView, off: nat)
    requires
        v is Open,
        off % 4 == 0,
    ensures
        body_wire(v, off).len() == body_len(v),
        body_len(v) % 4 == 0,
{
    lemma_pad_shift(off, 1 + v->Open_name.len());
    lemma_pad_len(1 + v->Open_name.len());
}

#[verifier::spinoff_prover]
proof fn lemma_body_len_open_reply(v: RequestView, off: nat)
    requires
        v is OpenReply,
        off % 4 == 0,
    ensures
        body_wire(v, off).len() == body_len(v),
        body_len(v) % 4 == 0,
{
    lemma_attrs_wire_len(v->OpenReply_im_attrs, off + 4);
    lemma_attrs_wire_len(v->OpenReply_ic_attrs, off + 8 + attrs_len(v->OpenReply_im_attrs));
}

#[verifier::spinoff_prover]
proof fn lemma_body_len_query_extension(v: RequestView, off: nat)
    requires
        v is QueryExtension,
        off % 4 == 0,
    ensures
        body_wire(v, off).len() == body_len(v),
        body_len(v) % 4 == 0,
{
    let l = strings8_len(v->QueryExtension_extensions);
    lemma_strings8_wire_len(v->QueryExtension_extensions);
    lemma_pad_shift(off, 4 + l);
    lemma_pad_len(4 + l);
}

#[verifier::spinoff_prover]
proof fn lemma_body_len_error(v: RequestView, off: nat)
    requires
        v is Error,
        off % 4 == 0,
    ensures
        body_wire(v, off).len() == body_len(v),
        body_len(v) % 4 == 0,
{
    lemma_pad_shift(off, 12 + v->Error_detail.len());
    lemma_pad_len(12 + v->Error_detail.len());
}

#[verifier::spinoff_prover]
proof fn lemma_body_len_query_extension_reply(v: RequestView, off: nat)
    requires
        v is QueryExtensionReply,
        off % 4 == 0,
    ensures
        body_wire(v, off).len() == body_len(v),
        body_len(v) % 4 == 0,
{
    lemma_exts_wire_len(v->QueryExtensionReply_supported, off + 4);
}

#[verifier::spinoff_prover]
proof fn lemma_body_len_encoding_negotiation(v: RequestView, off: nat)
    requires
        v is EncodingNegotiation,
        off % 4 == 0,
    ensures
        body_wire(v, off).len() == body_len(v),
        body_len(v) % 4 == 0,
{
    let l1 = strings8_len(v->EncodingNegotiation_encodings);
    lemma_strings8_wire_len(v->EncodingNegotiation_encodings);
    lemma_pad_shift(off, 4 + l1);
    lemma_pad_len(4 + l1);
    lemma_pad_len(off + 4 + l1);
    lemma_strings16_wire_len(v->EncodingNegotiation_encoding_infos, off + 4 + l1 + pad_len(off + 4 + l1) + 4);
}

#[verifier::spinoff_prover]
proof fn lemma_body_len_create_ic(v: RequestView, off: nat)
    requires
        v is CreateIc,
        off % 4 == 0,
    ensures
        body_wire(v, off).len() == body_len(v),
        body_len(v) % 4 == 0,
{
    lemma_values_wire_len(v->CreateIc_ic_attributes, off + 4);
}

/// A body written at a four-aligned position takes `body_len` bytes, a multiple of four.
#[verifier::spinoff_prover]
pub proof fn lemma_body_len(v: RequestView, off: nat)
    requires
        v is ForwardEvent ==> v->ForwardEvent_event.len() == XEVENT_LEN,
        off % 4 == 0,
    ensures
        body_wire(v, off).len() == body_len(v),
        body_len(v) % 4 == 0,
{
    match v {
        RequestView::Connect { .. } => lemma_body_len_connect(v, off),
        RequestView::Open { .. } => lemma_body_len_open(v, off),
        RequestView::OpenReply { .. } => lemma_body_len_open_reply(v, off),
        RequestView::QueryExtension { .. } => lemma_body_len_query_extension(v, off),
        RequestView::Error { .. } => lemma_body_len_error(v, off),
        RequestView::QueryExtensionReply { .. } => lemma_body_len_query_extension_reply(v, off),
        RequestView::EncodingNegotiation { .. } => lemma_body_len_encoding_negotiation(v, off),
        RequestView::CreateIc { .. } => lemma_body_len_create_ic(v, off),
        _ => {},
    }
}

impl Request {
    /// The byte length of the body.
    fn body_size(&self) -> (r: usize)
        requires
            request_fits(self@),
        ensures
            r == body_len(self@),
    {
        match self {
            Request::Connect { client_auth_protocol_names, .. } => 8 + strings16_total(
                client_auth_protocol_names,
            ),
            Request::ConnectReply { .. } => 4,
            Request::Open { name } => {
                let n = 1 + name.0.len();
                n + pad4(n)
            },
            Request::OpenReply { im_attrs, ic_attrs, .. } => 8 + formats_total::<Attr>(im_attrs) + formats_total::<Attr>(
                ic_attrs,
            ),
            Request::QueryExtension { extensions, .. } => {
                let n = 4 + strings8_total(extensions);
                n + pad4(n)
            },
            Request::QueryExtensionReply { supported, .. } => 4 + formats_total::<Extension>(supported),
            Request::EncodingNegotiation { encodings, encoding_infos, .. } => {
                let n = 4 + strings8_total(encodings);
                n + pad4(n) + 4 + strings16_total(encoding_infos)
            },
            Request::CreateIc { ic_attributes, .. } => 4 + formats_total::<AttrValue>(ic_attributes),
            Request::SetEventMask { .. } => 12,
            Request::ForwardEvent { .. } => 40,
            Request::Disconnect | Request::DisconnectReply => 0,
            Request::EncodingNegotiationReply { .. } => 8,
            Request::Error { detail, .. } => {
                let n = 12 + detail.0.len();
                n + pad4(n)
            },
            _ => 4,
        }
    }

    fn write_body(&self, writer: &mut Writer)
        requires
            request_fits(self@),
        ensures
            final(writer).bytes() == old(writer).bytes() + body_wire(self@, old(writer).bytes().len()),
    {
        match self {
            Request::Connect {
                endian,
                client_major_protocol_version,
                client_minor_protocol_version,
                client_auth_protocol_names,
            } => write_connect_body(
                *endian,
                *client_major_protocol_version,
                *client_minor_protocol_version,
                client_auth_protocol_names,
                writer,
            ),
            Request::ConnectReply { server_major_protocol_version, server_minor_protocol_version } => {
                let ghost start = writer.bytes();
                writer.write_u16(*server_major_protocol_version);
                writer.write_u16(*server_minor_protocol_version);
                assert(writer.bytes() =~= start + body_wire(self@, start.len()));
            },
            Request::Open { name } => write_open_body(name, writer),
            Request::OpenReply { input_method_id, im_attrs, ic_attrs } => write_open_reply_body(
                *input_method_id,
                im_attrs,
                ic_attrs,
                writer,
            ),
            Request::QueryExtension { input_method_id, extensions } => write_query_extension_body(
                *input_method_id,
                extensions,
                writer,
            ),
            Request::QueryExtensionReply { input_method_id, supported } => write_query_extension_reply_body(
                *input_method_id,
                supported,
                writer,
            ),
            Request::EncodingNegotiation { input_method_id, encodings, encoding_infos } =>
                write_encoding_negotiation_body(*input_method_id, encodings, encoding_infos, writer),
            Request::CreateIc { input_method_id, ic_attributes } => write_create_ic_body(
                *input_method_id,
                ic_attributes,
                writer,
            ),
            _ => self.write_fixed_body(writer),
        }
    }

    fn write_fixed_body(&self, writer: &mut Writer)
        requires
            request_fits(self@),
            !(self is Connect || self is ConnectReply || self is Open || self is OpenReply
                || self is QueryExtension || self is QueryExtensionReply || self is EncodingNegotiation
                || self is CreateIc),
        ensures
            final(writer).bytes() == old(writer).bytes() + body_wire(self@, old(writer).bytes().len()),
    {
        let ghost start = writer.bytes();
        match self {
            Request::Close { input_method_id } | Request::CloseReply { input_method_id } => {
                writer.write_u16(*input_method_id);
                writer.write_u16(0);
                assert(u16_wire(0) =~= zeros(2));
            },
            Request::EncodingNegotiationReply { input_method_id, category, index } => {
                writer.write_u16(*input_method_id);
                writer.write_u16(*category);
                writer.write_u16(*index as u16);
                writer.write_u16(0);
                assert(u16_wire(0) =~= zeros(2));
            },
            Request::CreateIcReply { input_method_id, input_context_id }
            | Request::DestroyIc { input_method_id, input_context_id }
            | Request::DestroyIcReply { input_method_id, input_context_id }
            | Request::SetIcValuesReply { input_method_id, input_context_id }
            | Request::SetIcFocus { input_method_id, input_context_id }
            | Request::UnsetIcFocus { input_method_id, input_context_id }
            | Request::SyncIc { input_method_id, input_context_id }
            | Request::SyncIcReply { input_method_id, input_context_id } => {
                writer.write_u16(*input_method_id);
                writer.write_u16(*input_context_id);
            },
            Request::SetEventMask {
                input_method_id,
                input_context_id,
                forward_event_mask,
                synchronous_event_mask,
            } => {
                writer.write_u16(*input_method_id);
                writer.write_u16(*input_context_id);
                writer.write_u32(*forward_event_mask);
                writer.write_u32(*synchronous_event_mask);
            },
            Request::ForwardEvent { input_method_id, input_context_id, flag, serial_number, xevent } => {
                writer.write_u16(*input_method_id);
                writer.write_u16(*input_context_id);
                writer.write_u16(*flag);
                writer.write_u16(*serial_number);
                writer.write(xevent.as_slice());
            },
            Request::Error { input_method_id, input_context_id, flag, code, error_type, detail } => {
                write_error_body(*input_method_id, *input_context_id, *flag, *code, *error_type, detail, writer);
            },
            _ => {},
        }
        assert(writer.bytes() =~= start + body_wire(self@, start.len()));
    }

    fn major_opcode(&self) -> (r: u8)
        ensures
            r == major_of(self@),
    {
        match self {
            Request::Connect { .. } => 1,
            Request::ConnectReply { .. } => 2,
            Request::Open { .. } => 30,
            Request::OpenReply { .. } => 31,
            Request::QueryExtension { .. } => 40,
            Request::QueryExtensionReply { .. } => 41,
            Request::EncodingNegotiation { .. } => 38,
            Request::CreateIc { .. } => 50,
            Request::SetEventMask { .. } => 37,
            Request::ForwardEvent { .. } => 70,
            Request::Disconnect => 3,
            Request::DisconnectReply => 4,
            Request::Close { .. } => 32,
            Request::CloseReply { .. } => 33,
            Request::EncodingNegotiationReply { .. } => 39,
            Request::CreateIcReply { .. } => 51,
            Request::DestroyIc { .. } => 52,
            Request::DestroyIcReply { .. } => 53,
            Request::SetIcValuesReply { .. } => 55,
            Request::SetIcFocus { .. } => 58,
            Request::UnsetIcFocus { .. } => 59,
            Request::SyncIc { .. } => 60,
            Request::SyncIcReply { .. } => 61,
            Request::Error { .. } => 20,
        }
    }
}

impl XimFormat for Request {
    open spec fn wire(v: RequestView, off: nat) -> Seq<u8> {
        header_wire(v) + body_wire(v, off + 4)
    }

    open spec fn parse(b: Seq<u8>, pos: nat) -> Result<(RequestView, nat), Fault> {
        parse_request(b, pos)
    }

    open spec fn fits(v: RequestView) -> bool {
        request_fits(v)
    }

    fn read(reader: &mut Reader) -> (r: Result<Self, ReadError>) {
        let major_opcode = reader.u8()?;
        let minor_opcode = reader.u8()?;
        let _length = reader.u16()?;
        if minor_opcode != 0 || !(major_opcode == 1 || major_opcode == 2 || major_opcode == 30
            || major_opcode == 31 || major_opcode == 40 || major_opcode == 41 || major_opcode == 38
            || major_opcode == 50 || is_fixed(major_opcode)) {
            proof {
                reveal_strlit("Opcode");
            }
            Err(reader.invalid_data("Opcode", opcode_text(major_opcode, minor_opcode)))
        } else if major_opcode == 1 {
            read_connect_body(reader)
        } else if major_opcode == 2 {
            read_connect_reply_body(reader)
        } else if major_opcode == 30 {
            read_open_body(reader)
        } else if major_opcode == 31 {
            read_open_reply_body(reader)
        } else if major_opcode == 40 {
            read_query_extension_body(reader)
        } else if major_opcode == 41 {
            read_query_extension_reply_body(reader)
        } else if major_opcode == 38 {
            read_encoding_negotiation_body(reader)
        } else if major_opcode == 50 {
            read_create_ic_body(reader)
        } else {
            read_fixed(major_opcode, reader)
        }
    }

    #[verifier::spinoff_prover]
    #[verifier::rlimit(60)]
    fn write(&self, writer: &mut Writer) {
        let ghost start = writer.bytes();
        let body = self.body_size();
        writer.write_u8(self.major_opcode());
        writer.write_u8(0);
        writer.write_u16((body / 4) as u16);
        assert(writer.bytes() == start + header_wire(self@));
        self.write_body(writer);
        assert(writer.bytes() =~= start + Self::wire(self@, start.len()));
    }

    fn size(&self) -> (r: usize) {
        proof {
            lemma_body_len(self@, 4);
        }
        4 + self.body_size()
    }
}

#[verifier::spinoff_prover]
fn write_connect_body(
    endian: Endian,
    client_major: u16,
    client_minor: u16,
    names: &Vec<XimString>,
    writer: &mut Writer,
)
    requires
        request_fits(
            RequestView::Connect { endian, client_major, client_minor, auth_names: strings_view(names@) },
        ),
    ensures
        final(writer).bytes() == old(writer).bytes() + body_wire(
            RequestView::Connect { endian, client_major, client_minor, auth_names: strings_view(names@) },
            old(writer).bytes().len(),
        ),
{
    let ghost start = writer.bytes();
    writer.write_u8(endian.tag_byte());
    writer.write_u8(0);
    writer.write_u16(client_major);
    writer.write_u16(client_minor);
    writer.write_u16(strings16_total(names) as u16);
    write_string16_items(names, writer);
    assert(writer.bytes() =~= start + body_wire(
        RequestView::Connect { endian, client_major, client_minor, auth_names: strings_view(names@) },
        start.len(),
    ));
}

#[verifier::spinoff_prover]
fn write_open_body(name: &XimString, writer: &mut Writer)
    requires
        request_fits(RequestView::Open { name: name@ }),
    ensures
        final(writer).bytes() == old(writer).bytes() + body_wire(
            RequestView::Open { name: name@ },
            old(writer).bytes().len(),
        ),
{
    let ghost start = writer.bytes();
    writer.write_u8(name.0.len() as u8);
    writer.write(name.0.as_slice());
    writer.write_pad4();
    assert(writer.bytes() =~= start + body_wire(RequestView::Open { name: name@ }, start.len()));
}

#[verifier::rlimit(40)]
#[verifier::spinoff_prover]
fn write_open_reply_body(im_id: u16, im_attrs: &Vec<Attr>, ic_attrs: &Vec<Attr>, writer: &mut Writer)
    requires
        request_fits(
            RequestView::OpenReply {
                im_id,
                im_attrs: attrs_view(im_attrs@),
                ic_attrs: attrs_view(ic_attrs@),
            },
        ),
    ensures
        final(writer).bytes() == old(writer).bytes() + body_wire(
            RequestView::OpenReply {
                im_id,
                im_attrs: attrs_view(im_attrs@),
                ic_attrs: attrs_view(ic_attrs@),
            },
            old(writer).bytes().len(),
        ),
{
    let ghost start = writer.bytes();
    let ghost im = attrs_wire(attrs_view(im_attrs@), start.len() + 4);
    writer.write_u16(im_id);
    writer.write_u16(formats_total::<Attr>(im_attrs) as u16);
    write_format_items::<Attr>(im_attrs, writer);
    assert(writer.bytes() =~= start + u16_wire(im_id) + u16_wire(attrs_len(attrs_view(im_attrs@)) as u16) + im);
    writer.write_u16((formats_total::<Attr>(ic_attrs) + 2) as u16);
    writer.write_u16(0);
    assert(u16_wire(0) =~= zeros(2));
    write_format_items::<Attr>(ic_attrs, writer);
    assert(writer.bytes() =~= start + body_wire(
        RequestView::OpenReply { im_id, im_attrs: attrs_view(im_attrs@), ic_attrs: attrs_view(ic_attrs@) },
        start.len(),
    ));
}

#[verifier::spinoff_prover]
fn write_query_extension_body(im_id: u16, extensions: &Vec<XimString>, writer: &mut Writer)
    requires
        request_fits(RequestView::QueryExtension { im_id, extensions: strings_view(extensions@) }),
    ensures
        final(writer).bytes() == old(writer).bytes() + body_wire(
            RequestView::QueryExtension { im_id, extensions: strings_view(extensions@) },
            old(writer).bytes().len(),
        ),
{
    let ghost start = writer.bytes();
    writer.write_u16(im_id);
    writer.write_u16(strings8_total(extensions) as u16);
    write_string8_items(extensions, writer);
    proof {
        lemma_strings8_wire_len(strings_view(extensions@));
    }
    writer.write_pad4();
    assert(writer.bytes() =~= start + body_wire(
        RequestView::QueryExtension { im_id, extensions: strings_view(extensions@) },
        start.len(),
    ));
}

fn is_fixed(m: u8) -> (r: bool)
    ensures
        r == is_fixed_major(m),
{
    m == 3 || m == 4 || m == 32 || m == 33 || m == 39 || m == 20 || m == 37 || m == 70 || m == 51 || m
        == 52 || m == 53 || m == 55 || m == 58 || m == 59 || m == 60 || m == 61
}

/// Reads the body of a fixed-layout message.
#[verifier::spinoff_prover]
fn read_fixed(major: u8, reader: &mut Reader) -> (r: Result<Request, ReadError>)
    requires
        old(reader).wf(),
        is_fixed_major(major),
    ensures
        final(reader).wf(),
        final(reader).data() == old(reader).data(),
        settles(r, final(reader).pos(), parse_fixed(major, old(reader).data(), old(reader).pos())),
{
    proof {
        reveal(parse_fixed);
    }
    if major == 3 {
        Ok(Request::Disconnect)
    } else if major == 4 {
        Ok(Request::DisconnectReply)
    } else if major == 20 {
        read_error_body(reader)
    } else if major == 37 {
        let input_method_id = reader.u16()?;
        let input_context_id = reader.u16()?;
        let forward_event_mask = reader.u32()?;
        let synchronous_event_mask = reader.u32()?;
        Ok(Request::SetEventMask { input_method_id, input_context_id, forward_event_mask, synchronous_event_mask })
    } else if major == 70 {
        let input_method_id = reader.u16()?;
        let input_context_id = reader.u16()?;
        let flag = reader.u16()?;
        let serial_number = reader.u16()?;
        let bytes = reader.consume(XEVENT_LEN)?;
        let xevent = vstd::slice::slice_to_vec(bytes);
        Ok(Request::ForwardEvent { input_method_id, input_context_id, flag, serial_number, xevent })
    } else if major == 32 || major == 33 {
        let input_method_id = reader.u16()?;
        reader.u16()?;
        if major == 32 {
            Ok(Request::Close { input_method_id })
        } else {
            Ok(Request::CloseReply { input_method_id })
        }
    } else if major == 39 {
        let input_method_id = reader.u16()?;
        let category = reader.u16()?;
        let index = reader.u16()?;
        reader.u16()?;
        Ok(Request::EncodingNegotiationReply { input_method_id, category, index: index as i16 })
    } else {
        let input_method_id = reader.u16()?;
        let input_context_id = reader.u16()?;
        Ok(
            if major == 51 {
                Request::CreateIcReply { input_method_id, input_context_id }
            } else if major == 52 {
                Request::DestroyIc { input_method_id, input_context_id }
            } else if major == 53 {
                Request::DestroyIcReply { input_method_id, input_context_id }
            } else if major == 55 {
                Request::SetIcValuesReply { input_method_id, input_context_id }
            } else if major == 58 {
                Request::SetIcFocus { input_method_id, input_context_id }
            } else if major == 59 {
                Request::UnsetIcFocus { input_method_id, input_context_id }
            } else if major == 60 {
                Request::SyncIc { input_method_id, input_context_id }
            } else {
                Request::SyncIcReply { input_method_id, input_context_id }
            },
        )
    }
}

#[verifier::spinoff_prover]
fn read_error_body(reader: &mut Reader) -> (r: Result<Request, ReadError>)
    requires
        old(reader).wf(),
    ensures
        final(reader).wf(),
        final(reader).data() == old(reader).data(),
        settles(r, final(reader).pos(), parse_error(old(reader).data(), old(reader).pos())),
{
    let input_method_id = reader.u16()?;
    let input_context_id = reader.u16()?;
    let flag = reader.u16()?;
    let code = reader.u16()?;
    let len = reader.u16()?;
    let error_type = reader.u16()?;
    let bytes = reader.consume(len as usize)?;
    reader.pad4()?;
    let detail = XimString(vstd::slice::slice_to_vec(bytes));
    Ok(Request::Error { input_method_id, input_context_id, flag, code, error_type, detail })
}

#[verifier::spinoff_prover]
fn write_error_body(
    im_id: u16,
    ic_id: u16,
    flag: u16,
    code: u16,
    error_type: u16,
    detail: &XimString,
    writer: &mut Writer,
)
    requires
        detail@.len() <= 0xffff,
    ensures
        final(writer).bytes() == old(writer).bytes() + body_wire(
            RequestView::Error { im_id, ic_id, flag, code, error_type, detail: detail@ },
            old(writer).bytes().len(),
        ),
{
    let ghost start = writer.bytes();
    writer.write_u16(im_id);
    writer.write_u16(ic_id);
    writer.write_u16(flag);
    writer.write_u16(code);
    writer.write_u16(detail.0.len() as u16);
    writer.write_u16(error_type);
    writer.write(detail.0.as_slice());
    writer.write_pad4();
    assert(writer.bytes() =~= start + body_wire(
        RequestView::Error { im_id, ic_id, flag, code, error_type, detail: detail@ },
        start.len(),
    ));
}


#[verifier::spinoff_prover]
fn write_query_extension_reply_body(im_id: u16, supported: &Vec<Extension>, writer: &mut Writer)
    requires
        request_fits(RequestView::QueryExtensionReply { im_id, supported: exts_view(supported@) }),
    ensures
        final(writer).bytes() == old(writer).bytes() + body_wire(
            RequestView::QueryExtensionReply { im_id, supported: exts_view(supported@) },
            old(writer).bytes().len(),
        ),
{
    let ghost start = writer.bytes();
    writer.write_u16(im_id);
    writer.write_u16(formats_total::<Extension>(supported) as u16);
    write_format_items::<Extension>(supported, writer);
    assert(writer.bytes() =~= start + body_wire(
        RequestView::QueryExtensionReply { im_id, supported: exts_view(supported@) },
        start.len(),
    ));
}

#[verifier::spinoff_prover]
#[verifier::rlimit(60)]
fn write_encoding_negotiation_body(
    im_id: u16,
    encodings: &Vec<XimString>,
    encoding_infos: &Vec<XimString>,
    writer: &mut Writer,
)
    requires
        request_fits(
            RequestView::EncodingNegotiation {
                im_id,
                encodings: strings_view(encodings@),
                encoding_infos: strings_view(encoding_infos@),
            },
        ),
    ensures
        final(writer).bytes() == old(writer).bytes() + body_wire(
            RequestView::EncodingNegotiation {
                im_id,
                encodings: strings_view(encodings@),
                encoding_infos: strings_view(encoding_infos@),
            },
            old(writer).bytes().len(),
        ),
{
    let ghost start = writer.bytes();
    let ghost l1 = strings8_len(strings_view(encodings@));
    writer.write_u16(im_id);
    writer.write_u16(strings8_total(encodings) as u16);
    write_string8_items(encodings, writer);
    proof {
        lemma_strings8_wire_len(strings_view(encodings@));
    }
    writer.write_pad4();
    let ghost mid = writer.bytes();
    assert(mid.len() == start.len() + 4 + l1 + pad_len(start.len() + 4 + l1));
    writer.write_u16(strings16_total(encoding_infos) as u16);
    writer.write_u16(0);
    assert(u16_wire(0) =~= zeros(2));
    write_string16_items(encoding_infos, writer);
    assert(writer.bytes() =~= start + body_wire(
        RequestView::EncodingNegotiation {
            im_id,
            encodings: strings_view(encodings@),
            encoding_infos: strings_view(encoding_infos@),
        },
        start.len(),
    ));
}

#[verifier::spinoff_prover]
fn read_connect_body(reader: &mut Reader) -> (r: Result<Request, ReadError>)
    requires
        old(reader).wf(),
    ensures
        final(reader).wf(),
        final(reader).data() == old(reader).data(),
        settles(r, final(reader).pos(), parse_connect(old(reader).data(), old(reader).pos())),
{
    proof {
        reveal(parse_connect);
        reveal(parse_list);
    }
    let endian = Endian::read(reader)?;
    reader.u8()?;
    let client_major_protocol_version = reader.u16()?;
    let client_minor_protocol_version = reader.u16()?;
    let end = read_list_len(reader)?;
    let client_auth_protocol_names = read_string16_items(reader, end)?;
    Ok(
        Request::Connect {
            endian,
            client_major_protocol_version,
            client_minor_protocol_version,
            client_auth_protocol_names,
        },
    )
}

#[verifier::spinoff_prover]
fn read_connect_reply_body(reader: &mut Reader) -> (r: Result<Request, ReadError>)
    requires
        old(reader).wf(),
    ensures
        final(reader).wf(),
        final(reader).data() == old(reader).data(),
        settles(r, final(reader).pos(), parse_connect_reply(old(reader).data(), old(reader).pos())),
{
    proof {
        reveal(parse_connect_reply);
    }
    let server_major_protocol_version = reader.u16()?;
    let server_minor_protocol_version = reader.u16()?;
    Ok(Request::ConnectReply { server_major_protocol_version, server_minor_protocol_version })
}

#[verifier::spinoff_prover]
fn read_open_body(reader: &mut Reader) -> (r: Result<Request, ReadError>)
    requires
        old(reader).wf(),
    ensures
        final(reader).wf(),
        final(reader).data() == old(reader).data(),
        settles(r, final(reader).pos(), parse_open(old(reader).data(), old(reader).pos())),
{
    proof {
        reveal(parse_open);
    }
    let name = read_string8(reader)?;
    reader.pad4()?;
    Ok(Request::Open { name })
}

#[verifier::spinoff_prover]
fn read_open_reply_body(reader: &mut Reader) -> (r: Result<Request, ReadError>)
    requires
        old(reader).wf(),
    ensures
        final(reader).wf(),
        final(reader).data() == old(reader).data(),
        settles(r, final(reader).pos(), parse_open_reply(old(reader).data(), old(reader).pos())),
{
    proof {
        reveal(parse_open_reply);
        reveal(parse_list);
        reveal(parse_ic_attrs);
    }
    let input_method_id = reader.u16()?;
    let end = read_list_len(reader)?;
    let im_attrs = read_format_items::<Attr>(reader, end)?;
    let end = read_list_len(reader)?;
    let mut sub = reader.limited(end);
    sub.u16()?;
    let here = sub.offset();
    reader.seek(here);
    let ic_attrs = read_format_items::<Attr>(reader, end)?;
    Ok(Request::OpenReply { input_method_id, im_attrs, ic_attrs })
}

#[verifier::spinoff_prover]
fn read_query_extension_body(reader: &mut Reader) -> (r: Result<Request, ReadError>)
    requires
        old(reader).wf(),
    ensures
        final(reader).wf(),
        final(reader).data() == old(reader).data(),
        settles(r, final(reader).pos(), parse_query_extension(old(reader).data(), old(reader).pos())),
{
    proof {
        reveal(parse_query_extension);
        reveal(parse_list);
    }
    let input_method_id = reader.u16()?;
    let end = read_list_len(reader)?;
    let extensions = read_string8_items(reader, end)?;
    reader.pad4()?;
    Ok(Request::QueryExtension { input_method_id, extensions })
}

#[verifier::spinoff_prover]
fn read_query_extension_reply_body(reader: &mut Reader) -> (r: Result<Request, ReadError>)
    requires
        old(reader).wf(),
    ensures
        final(reader).wf(),
        final(reader).data() == old(reader).data(),
        settles(r, final(reader).pos(), parse_query_extension_reply(old(reader).data(), old(reader).pos())),
{
    proof {
        reveal(parse_query_extension_reply);
        reveal(parse_list);
    }
    let input_method_id = reader.u16()?;
    let end = read_list_len(reader)?;
    let supported = read_format_items::<Extension>(reader, end)?;
    Ok(Request::QueryExtensionReply { input_method_id, supported })
}

#[verifier::spinoff_prover]
fn read_encoding_negotiation_body(reader: &mut Reader) -> (r: Result<Request, ReadError>)
    requires
        old(reader).wf(),
    ensures
        final(reader).wf(),
        final(reader).data() == old(reader).data(),
        settles(r, final(reader).pos(), parse_encoding_negotiation(old(reader).data(), old(reader).pos())),
{
    proof {
        reveal(parse_encoding_negotiation);
        reveal(parse_list);
        reveal(parse_list_after_gap);
    }
    let input_method_id = reader.u16()?;
    let end = read_list_len(reader)?;
    let encodings = read_string8_items(reader, end)?;
    reader.pad4()?;
    let end = read_gap_list_len(reader)?;
    let encoding_infos = read_string16_items(reader, end)?;
    Ok(Request::EncodingNegotiation { input_method_id, encodings, encoding_infos })
}

#[verifier::spinoff_prover]
fn read_create_ic_body(reader: &mut Reader) -> (r: Result<Request, ReadError>)
    requires
        old(reader).wf(),
    ensures
        final(reader).wf(),
        final(reader).data() == old(reader).data(),
        settles(r, final(reader).pos(), parse_create_ic(old(reader).data(), old(reader).pos())),
{
    proof {
        reveal(parse_create_ic);
        reveal(parse_list);
    }
    let input_method_id = reader.u16()?;
    let end = read_list_len(reader)?;
    let ic_attributes = read_format_items::<AttrValue>(reader, end)?;
    Ok(Request::CreateIc { input_method_id, ic_attributes })
}

#[verifier::spinoff_prover]
fn write_create_ic_body(im_id: u16, ic_attributes: &Vec<AttrValue>, writer: &mut Writer)
    requires
        request_fits(RequestView::CreateIc { im_id, ic_attributes: values_view(ic_attributes@) }),
    ensures
        final(writer).bytes() == old(writer).bytes() + body_wire(
            RequestView::CreateIc { im_id, ic_attributes: values_view(ic_attributes@) },
            old(writer).bytes().len(),
        ),
{
    let ghost start = writer.bytes();
    writer.write_u16(im_id);
    writer.write_u16(formats_total::<AttrValue>(ic_attributes) as u16);
    write_format_items::<AttrValue>(ic_attributes, writer);
    assert(writer.bytes() =~= start + body_wire(
        RequestView::CreateIc { im_id, ic_attributes: values_view(ic_attributes@) },
        start.len(),
    ));
}

} // verus!
