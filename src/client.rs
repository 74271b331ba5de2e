//! The client side of a conversation: the handshake from connection to an open input
//! method, as a step from the current state and a decoded message to the next state and
//! what to do. The host sends what it is told to and feeds back the server's messages.

use vstd::prelude::*;
use crate::attr::{XimString, Attr, AttrView, AttrValue};
use crate::format::Endian;
use crate::request::{Request, RequestView};
use crate::list::{attrs_view, values_view};
use vstd::string::StringSliceAdditionalSpecFns;

verus! {

/// Where the client stands in the handshake.
#[derive(Clone, Copy, Debug, PartialEq, Eq, Structural)]
pub enum Phase {
    Init,
    AwaitingConnectReply,
    AwaitingOpenReply,
    AwaitingQueryExtensionReply,
    AwaitingEncodingNegotiationReply,
    Open,
    Closed,
}

/// What the host does after the client has taken in one message.
#[derive(Debug, PartialEq, Eq)]
pub enum Action {
    /// Nothing to send.
    Nothing,
    /// Send this message.
    Send(Request),
    /// An input context was created.
    IcCreated { im_id: u16, ic_id: u16 },
    /// The pending operation failed with this error; the session stays open.
    Failed { code: u16, detail: XimString },
    /// The server sent back a key event: the host handles it as typed input.
    KeyEvent { im_id: u16, ic_id: u16, xevent: Vec<u8> },
    /// The server confirmed the disconnection; the session is over.
    Terminated,
}

/// The phase after taking in `m` at phase `p`: each reply moves the handshake on
/// only in the phase that awaits it; a disconnect reply ends it; anything else,
/// an error included, leaves the phase as it is.
pub open spec fn next_phase(p: Phase, m: RequestView) -> Phase {
    match m {
        RequestView::ConnectReply { .. } => if p == Phase::AwaitingConnectReply {
            Phase::AwaitingOpenReply
        } else {
            p
        },
        RequestView::OpenReply { .. } => if p == Phase::AwaitingOpenReply {
            Phase::AwaitingQueryExtensionReply
        } else {
            p
        },
        RequestView::QueryExtensionReply { .. } => if p == Phase::AwaitingQueryExtensionReply {
            Phase::AwaitingEncodingNegotiationReply
        } else {
            p
        },
        RequestView::EncodingNegotiationReply { .. } => if p == Phase::AwaitingEncodingNegotiationReply {
            Phase::Open
        } else {
            p
        },
        RequestView::Bare { major } => if major == 4 {
            Phase::Closed
        } else {
            p
        },
        _ => p,
    }
}

/// The bytes of `COMPOUND_TEXT`.
pub open spec fn compound_text_name() -> Seq<u8> {
    "COMPOUND_TEXT".spec_bytes()
}

/// The client's handshake state.
pub struct Client {
    phase: Phase,
    im_id: u16,
    locale: XimString,
    im_attrs: Vec<Attr>,
    ic_attrs: Vec<Attr>,
    forward_mask: u32,
    synchronous_mask: u32,
    serial: u16,
}

impl Client {
    /// The events to forward to the server, and those to forward synchronously.
    pub closed spec fn masks_of(&self) -> (u32, u32) {
        (self.forward_mask, self.synchronous_mask)
    }

    /// The serial number of the next forwarded event.
    pub closed spec fn serial_of(&self) -> u16 {
        self.serial
    }

    pub closed spec fn phase_of(&self) -> Phase {
        self.phase
    }

    /// The input method id that the server assigned; meaningful once the open reply came.
    pub closed spec fn im_id_of(&self) -> u16 {
        self.im_id
    }

    pub closed spec fn locale_of(&self) -> Seq<u8> {
        self.locale@
    }

    /// The input method attributes that the server offered.
    pub closed spec fn im_attrs_of(&self) -> Seq<AttrView> {
        attrs_view(self.im_attrs@)
    }

    /// The input context attributes that the server offered.
    pub closed spec fn ic_attrs_of(&self) -> Seq<AttrView> {
        attrs_view(self.ic_attrs@)
    }

    /// A client that will open the input method for `locale`.
    pub fn new(locale: XimString) -> (r: Client)
        ensures
            r.phase_of() == Phase::Init,
            r.locale_of() == locale@,
            r.im_attrs_of().len() == 0,
            r.ic_attrs_of().len() == 0,
            r.masks_of() == (0u32, 0u32),
            r.serial_of() == 0,
    {
        Client {
            phase: Phase::Init,
            im_id: 0,
            locale,
            im_attrs: Vec::new(),
            ic_attrs: Vec::new(),
            forward_mask: 0,
            synchronous_mask: 0,
            serial: 0,
        }
    }

    /// The events to forward, and those to forward synchronously.
    pub fn event_masks(&self) -> (r: (u32, u32))
        ensures
            r == self.masks_of(),
    {
        (self.forward_mask, self.synchronous_mask)
    }

    /// The message that asks the server for an input context with these attribute values,
    /// under the input method that the server assigned.
    pub fn create_ic(&self, ic_attributes: Vec<AttrValue>) -> (r: Request)
        ensures
            r@ == (RequestView::CreateIc {
                im_id: self.im_id_of(),
                ic_attributes: values_view(ic_attributes@),
            }),
    {
        Request::CreateIc { input_method_id: self.im_id, ic_attributes }
    }

    /// Wraps a key event of the host's X connection, its 32 bytes as they came, into a
    /// forwarded event with the next serial number; serial numbers wrap around.
    pub fn forward_key_press(&mut self, im_id: u16, ic_id: u16, xevent: Vec<u8>) -> (r: Request)
        requires
            xevent@.len() == crate::request::XEVENT_LEN,
        ensures
            r@ == (RequestView::ForwardEvent {
                im_id,
                ic_id,
                flag: 0,
                serial: old(self).serial_of(),
                event: xevent@,
            }),
            final(self).serial_of() == (if old(self).serial_of() == u16::MAX {
                0
            } else {
                old(self).serial_of() + 1
            }) as u16,
            final(self).phase_of() == old(self).phase_of(),
            final(self).im_id_of() == old(self).im_id_of(),
            final(self).locale_of() == old(self).locale_of(),
            final(self).masks_of() == old(self).masks_of(),
            final(self).im_attrs_of() == old(self).im_attrs_of(),
            final(self).ic_attrs_of() == old(self).ic_attrs_of(),
    {
        let serial_number = self.serial;
        self.serial = if self.serial == u16::MAX {
            0
        } else {
            self.serial + 1
        };
        Request::ForwardEvent { input_method_id: im_id, input_context_id: ic_id, flag: 0, serial_number, xevent }
    }

    pub fn phase(&self) -> (r: Phase)
        ensures
            r == self.phase_of(),
    {
        self.phase
    }

    pub fn im_id(&self) -> (r: u16)
        ensures
            r == self.im_id_of(),
    {
        self.im_id
    }

    /// The attributes offered for input methods.
    pub fn im_attrs(&self) -> (r: &Vec<Attr>)
        ensures
            attrs_view(r@) == self.im_attrs_of(),
    {
        &self.im_attrs
    }

    /// The attributes offered for input contexts.
    pub fn ic_attrs(&self) -> (r: &Vec<Attr>)
        ensures
            attrs_view(r@) == self.ic_attrs_of(),
    {
        &self.ic_attrs
    }

    /// Starts the handshake: the connect message to send, in the host's byte order,
    /// protocol version 1.0, with no authentication names.
    pub fn connect(&mut self) -> (r: Request)
        ensures
            final(self).phase_of() == Phase::AwaitingConnectReply,
            final(self).locale_of() == old(self).locale_of(),
            final(self).im_id_of() == old(self).im_id_of(),
            final(self).im_attrs_of() == old(self).im_attrs_of(),
            final(self).ic_attrs_of() == old(self).ic_attrs_of(),
            final(self).masks_of() == old(self).masks_of(),
            final(self).serial_of() == old(self).serial_of(),
            r@ == (RequestView::Connect {
                endian: Endian::host(),
                client_major: 1,
                client_minor: 0,
                auth_names: Seq::empty(),
            }),
    {
        self.phase = Phase::AwaitingConnectReply;
        let r = Request::Connect {
            endian: Endian::native(),
            client_major_protocol_version: 1,
            client_minor_protocol_version: 0,
            client_auth_protocol_names: Vec::new(),
        };
        assert(r@->Connect_auth_names =~= Seq::<Seq<u8>>::empty());
        r
    }

    /// Takes in one decoded message from the server and says what to do.
    pub fn handle(&mut self, m: Request) -> (r: Action)
        ensures
            final(self).phase_of() == next_phase(old(self).phase_of(), m@),
            final(self).locale_of() == old(self).locale_of(),
            final(self).serial_of() == old(self).serial_of(),
            final(self).masks_of() == match m@ {
                RequestView::SetEventMask { forward_mask, synchronous_mask, .. } => (
                    forward_mask,
                    synchronous_mask,
                ),
                _ => old(self).masks_of(),
            },
            ({
                let opened = m is OpenReply && old(self).phase_of() == Phase::AwaitingOpenReply;
                &&& final(self).im_id_of() == if opened {
                    m@->OpenReply_im_id
                } else {
                    old(self).im_id_of()
                }
                &&& final(self).im_attrs_of() == if opened {
                    m@->OpenReply_im_attrs
                } else {
                    old(self).im_attrs_of()
                }
                &&& final(self).ic_attrs_of() == if opened {
                    m@->OpenReply_ic_attrs
                } else {
                    old(self).ic_attrs_of()
                }
            }),
            match m@ {
                RequestView::ConnectReply { .. } => if old(self).phase_of()
                    == Phase::AwaitingConnectReply {
                    r is Send && r->Send_0@ == (RequestView::Open { name: old(self).locale_of() })
                } else {
                    r is Nothing
                },
                RequestView::OpenReply { im_id, .. } => if old(self).phase_of()
                    == Phase::AwaitingOpenReply {
                    r is Send && r->Send_0@ == (RequestView::QueryExtension {
                        im_id,
                        extensions: Seq::empty(),
                    })
                } else {
                    r is Nothing
                },
                RequestView::QueryExtensionReply { .. } => if old(self).phase_of()
                    == Phase::AwaitingQueryExtensionReply {
                    r is Send && r->Send_0@ == (RequestView::EncodingNegotiation {
                        im_id: old(self).im_id_of(),
                        encodings: seq![compound_text_name(), Seq::empty()],
                        encoding_infos: Seq::empty(),
                    })
                } else {
                    r is Nothing
                },
                RequestView::Ic { major, im_id, ic_id } => if major == 51 && old(self).phase_of()
                    == Phase::Open {
                    r == (Action::IcCreated { im_id, ic_id })
                } else {
                    r is Nothing
                },
                RequestView::Error { code, detail, .. } => r is Failed && r->Failed_code == code
                    && r->Failed_detail@ == detail,
                RequestView::Bare { major } => if major == 4 {
                    r is Terminated
                } else {
                    r is Nothing
                },
                RequestView::ForwardEvent { im_id, ic_id, event, .. } => r is KeyEvent
                    && r->KeyEvent_im_id == im_id && r->KeyEvent_ic_id == ic_id && r->KeyEvent_xevent@
                    == event,
                _ => r is Nothing,
            },
    {
        match m {
            Request::ConnectReply { .. } => {
                if self.phase == Phase::AwaitingConnectReply {
                    self.phase = Phase::AwaitingOpenReply;
                    Action::Send(Request::Open { name: self.locale.clone_bytes() })
                } else {
                    Action::Nothing
                }
            },
            Request::OpenReply { input_method_id, im_attrs, ic_attrs } => {
                if self.phase == Phase::AwaitingOpenReply {
                    self.phase = Phase::AwaitingQueryExtensionReply;
                    self.im_id = input_method_id;
                    self.im_attrs = im_attrs;
                    self.ic_attrs = ic_attrs;
                    let r = Request::QueryExtension { input_method_id, extensions: Vec::new() };
                    assert(r@->QueryExtension_extensions =~= Seq::<Seq<u8>>::empty());
                    Action::Send(r)
                } else {
                    Action::Nothing
                }
            },
            Request::QueryExtensionReply { .. } => {
                if self.phase == Phase::AwaitingQueryExtensionReply {
                    self.phase = Phase::AwaitingEncodingNegotiationReply;
                    let mut encodings: Vec<XimString> = Vec::new();
                    encodings.push(XimString(vstd::slice::slice_to_vec("COMPOUND_TEXT".as_bytes())));
                    encodings.push(XimString(Vec::new()));
                    let r = Request::EncodingNegotiation {
                        input_method_id: self.im_id,
                        encodings,
                        encoding_infos: Vec::new(),
                    };
                    assert(r@->EncodingNegotiation_encodings =~= seq![compound_text_name(), Seq::empty()]);
                    assert(r@->EncodingNegotiation_encoding_infos =~= Seq::<Seq<u8>>::empty());
                    Action::Send(r)
                } else {
                    Action::Nothing
                }
            },
            Request::EncodingNegotiationReply { .. } => {
                if self.phase == Phase::AwaitingEncodingNegotiationReply {
                    self.phase = Phase::Open;
                }
                Action::Nothing
            },
            Request::CreateIcReply { input_method_id, input_context_id } => {
                if self.phase == Phase::Open {
                    Action::IcCreated { im_id: input_method_id, ic_id: input_context_id }
                } else {
                    Action::Nothing
                }
            },
            Request::Error { code, detail, .. } => Action::Failed { code, detail },
            Request::SetEventMask { forward_event_mask, synchronous_event_mask, .. } => {
                self.forward_mask = forward_event_mask;
                self.synchronous_mask = synchronous_event_mask;
                Action::Nothing
            },
            Request::ForwardEvent { input_method_id, input_context_id, xevent, .. } => Action::KeyEvent {
                im_id: input_method_id,
                ic_id: input_context_id,
                xevent,
            },
            Request::DisconnectReply => {
                self.phase = Phase::Closed;
                Action::Terminated
            },
            _ => Action::Nothing,
        }
    }
}

} // verus!
