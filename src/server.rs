//! The server side of a conversation: one step per decoded client message, from the
//! connection state to the next state and the reply to send.

use vstd::prelude::*;
use crate::attr::{XimString, Attr, AttrView};
use crate::request::{Request, RequestView};
use crate::list::{attrs_view, strings_view};
use crate::client::compound_text_name;
use vstd::string::StringSliceAdditionalSpecFns;

verus! {

/// The protocol version that this server speaks.
pub const PROTOCOL_MAJOR: u16 = 1;

/// Error code for a message that breaks the protocol, such as an unknown version.
pub const BAD_PROTOCOL: u16 = 13;

/// Error code for a resource that could not be allocated.
pub const BAD_ALLOC: u16 = 1;

/// The per-connection state of a server.
pub struct Server {
    next_im_id: u16,
    next_ic_id: u16,
    im_attrs: Vec<Attr>,
    ic_attrs: Vec<Attr>,
}

/// Where `COMPOUND_TEXT` first stands in `encodings` at or after `i`, or `-1`.
pub open spec fn first_compound_text(encodings: Seq<Seq<u8>>, i: int) -> int
    decreases encodings.len() - i,
{
    if i < 0 || i >= encodings.len() {
        -1
    } else if encodings[i] == compound_text_name() {
        i
    } else {
        first_compound_text(encodings, i + 1)
    }
}

/// Where `COMPOUND_TEXT` first stands in `encodings`, or `-1`
/// (also where its position does not fit an `i16`).
pub open spec fn compound_text_index(encodings: Seq<Seq<u8>>) -> i16 {
    let k = first_compound_text(encodings, 0);
    if 0 <= k <= 0x7fff {
        k as i16
    } else {
        -1i16
    }
}

/// An error reply with no valid ids and no detail.
pub open spec fn plain_error(code: u16) -> RequestView {
    RequestView::Error { im_id: 0, ic_id: 0, flag: 0, code, error_type: 0, detail: Seq::empty() }
}

/// The reply that the server owes to `m`, given the ids that the next open and the next
/// input context would get, and the attributes it offers.
pub open spec fn reply_to(
    m: RequestView,
    next_im_id: u16,
    next_ic_id: u16,
    im_attrs: Seq<AttrView>,
    ic_attrs: Seq<AttrView>,
) -> Option<RequestView> {
    match m {
        RequestView::Connect { client_major, .. } => if client_major == PROTOCOL_MAJOR {
            Some(RequestView::ConnectReply { server_major: 1, server_minor: 0 })
        } else {
            Some(plain_error(BAD_PROTOCOL))
        },
        RequestView::Open { .. } => if next_im_id < u16::MAX {
            Some(RequestView::OpenReply { im_id: next_im_id, im_attrs, ic_attrs })
        } else {
            Some(plain_error(BAD_ALLOC))
        },
        RequestView::CreateIc { im_id, .. } => if next_ic_id < u16::MAX {
            Some(RequestView::Ic { major: 51, im_id, ic_id: next_ic_id })
        } else {
            Some(plain_error(BAD_ALLOC))
        },
        RequestView::QueryExtension { im_id, .. } => Some(
            RequestView::QueryExtensionReply { im_id, supported: Seq::empty() },
        ),
        RequestView::EncodingNegotiation { im_id, encodings, .. } => Some(
            RequestView::EncodingNegotiationReply {
                im_id,
                category: 0,
                index: compound_text_index(encodings),
            },
        ),
        RequestView::Im { major, im_id } => if major == 32 {
            Some(RequestView::Im { major: 33, im_id })
        } else {
            None
        },
        RequestView::Ic { major, im_id, ic_id } => if major == 52 || major == 60 {
            Some(RequestView::Ic { major: (major + 1) as u8, im_id, ic_id })
        } else {
            None
        },
        RequestView::Bare { major } => if major == 3 {
            Some(RequestView::Bare { major: 4 })
        } else {
            None
        },
        _ => None,
    }
}

fn copy_attrs(v: &Vec<Attr>) -> (r: Vec<Attr>)
    ensures
        attrs_view(r@) == attrs_view(v@),
{
    let mut out: Vec<Attr> = Vec::new();
    let mut i: usize = 0;
    while i < v.len()
        invariant
            i <= v@.len(),
            attrs_view(out@) == attrs_view(v@).take(i as int),
        decreases v@.len() - i,
    {
        let ghost before = out@;
        let a = Attr { id: v[i].id, ty: v[i].ty, name: v[i].name.clone_bytes() };
        assert(a@ == v@[i as int]@);
        out.push(a);
        assert(attrs_view(out@) =~= attrs_view(before).push(a@));
        assert(attrs_view(v@).take(i + 1) =~= attrs_view(v@).take(i as int).push(v@[i as int]@));
        i = i + 1;
    }
    assert(attrs_view(v@).take(i as int) =~= attrs_view(v@));
    out
}

fn is_compound_text(s: &XimString) -> (r: bool)
    ensures
        r == (s@ == compound_text_name()),
{
    let name = "COMPOUND_TEXT".as_bytes();
    if s.0.len() != name.len() {
        return false;
    }
    let mut i: usize = 0;
    while i < name.len()
        invariant
            s@.len() == name@.len(),
            name@ == compound_text_name(),
            i <= name@.len(),
            forall|j: int| 0 <= j < i ==> s@[j] == name@[j],
        decreases name@.len() - i,
    {
        if s.0[i] != name[i] {
            return false;
        }
        i = i + 1;
    }
    assert(s@ =~= name@);
    true
}

/// Where `COMPOUND_TEXT` first stands among `encodings`, as the negotiation reply's index.
fn find_compound_text(encodings: &Vec<XimString>) -> (r: i16)
    ensures
        r == compound_text_index(strings_view(encodings@)),
{
    let ghost sv = strings_view(encodings@);
    let mut i: usize = 0;
    while i < encodings.len()
        invariant
            i <= encodings@.len(),
            sv == strings_view(encodings@),
            first_compound_text(sv, 0) == first_compound_text(sv, i as int),
        decreases encodings@.len() - i,
    {
        if is_compound_text(&encodings[i]) {
            if i <= 0x7fff {
                return i as i16;
            } else {
                return -1;
            }
        }
        i = i + 1;
    }
    -1
}

impl Server {
    pub closed spec fn next_im_id_of(&self) -> u16 {
        self.next_im_id
    }

    pub closed spec fn next_ic_id_of(&self) -> u16 {
        self.next_ic_id
    }

    pub closed spec fn im_attrs_of(&self) -> Seq<AttrView> {
        attrs_view(self.im_attrs@)
    }

    pub closed spec fn ic_attrs_of(&self) -> Seq<AttrView> {
        attrs_view(self.ic_attrs@)
    }

    /// A server that offers these attributes; the first input method it opens, and the
    /// first input context it creates, get id 1.
    pub fn new(im_attrs: Vec<Attr>, ic_attrs: Vec<Attr>) -> (r: Server)
        ensures
            r.next_im_id_of() == 1,
            r.next_ic_id_of() == 1,
            r.im_attrs_of() == attrs_view(im_attrs@),
            r.ic_attrs_of() == attrs_view(ic_attrs@),
    {
        Server { next_im_id: 1, next_ic_id: 1, im_attrs, ic_attrs }
    }

    /// Takes in one decoded message from a client and gives the reply to send, if any.
    /// Each open gets a fresh input method id, one above the one before, and each
    /// input context a fresh id in the same way.
    #[verifier::spinoff_prover]
    #[verifier::rlimit(60)]
    pub fn handle(&mut self, m: &Request) -> (r: Option<Request>)
        ensures
            match reply_to(
                m@,
                old(self).next_im_id_of(),
                old(self).next_ic_id_of(),
                old(self).im_attrs_of(),
                old(self).ic_attrs_of(),
            ) {
                Some(v) => r is Some && r->Some_0@ == v,
                None => r is None,
            },
            final(self).next_im_id_of() == if m is Open && old(self).next_im_id_of() < u16::MAX {
                (old(self).next_im_id_of() + 1) as u16
            } else {
                old(self).next_im_id_of()
            },
            final(self).next_ic_id_of() == if m is CreateIc && old(self).next_ic_id_of() < u16::MAX {
                (old(self).next_ic_id_of() + 1) as u16
            } else {
                old(self).next_ic_id_of()
            },
            final(self).im_attrs_of() == old(self).im_attrs_of(),
            final(self).ic_attrs_of() == old(self).ic_attrs_of(),
    {
        match m {
            Request::Connect { client_major_protocol_version, .. } => {
                if *client_major_protocol_version == PROTOCOL_MAJOR {
                    Some(
                        Request::ConnectReply {
                            server_major_protocol_version: 1,
                            server_minor_protocol_version: 0,
                        },
                    )
                } else {
                    Some(error_reply(BAD_PROTOCOL))
                }
            },
            Request::Open { .. } => {
                if self.next_im_id < u16::MAX {
                    let im_id = self.next_im_id;
                    self.next_im_id = self.next_im_id + 1;
                    Some(
                        Request::OpenReply {
                            input_method_id: im_id,
                            im_attrs: copy_attrs(&self.im_attrs),
                            ic_attrs: copy_attrs(&self.ic_attrs),
                        },
                    )
                } else {
                    Some(error_reply(BAD_ALLOC))
                }
            },
            Request::CreateIc { input_method_id, .. } => {
                if self.next_ic_id < u16::MAX {
                    let ic_id = self.next_ic_id;
                    self.next_ic_id = self.next_ic_id + 1;
                    Some(Request::CreateIcReply { input_method_id: *input_method_id, input_context_id: ic_id })
                } else {
                    Some(error_reply(BAD_ALLOC))
                }
            },
            Request::QueryExtension { input_method_id, .. } => {
                let r = Request::QueryExtensionReply { input_method_id: *input_method_id, supported: Vec::new() };
                assert(r@->QueryExtensionReply_supported =~= Seq::<crate::attr::ExtView>::empty());
                Some(r)
            },
            Request::EncodingNegotiation { input_method_id, encodings, .. } => Some(
                Request::EncodingNegotiationReply {
                    input_method_id: *input_method_id,
                    category: 0,
                    index: find_compound_text(encodings),
                },
            ),
            Request::Close { input_method_id } => Some(Request::CloseReply { input_method_id: *input_method_id }),
            Request::DestroyIc { input_method_id, input_context_id } => Some(
                Request::DestroyIcReply { input_method_id: *input_method_id, input_context_id: *input_context_id },
            ),
            Request::SyncIc { input_method_id, input_context_id } => Some(
                Request::SyncIcReply { input_method_id: *input_method_id, input_context_id: *input_context_id },
            ),
            Request::Disconnect => Some(Request::DisconnectReply),
            _ => None,
        }
    }
}

fn error_reply(code: u16) -> (r: Request)
    ensures
        r@ == plain_error(code),
{
    let r = Request::Error {
        input_method_id: 0,
        input_context_id: 0,
        flag: 0,
        code,
        error_type: 0,
        detail: XimString(Vec::new()),
    };
    assert(r@->Error_detail =~= Seq::<u8>::empty());
    r
}

} // verus!
