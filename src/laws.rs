//! What holds of the codec as a whole: decoding an encoding gives the message back,
//! the header's length field measures the body, and malformed input fails as documented.

use vstd::prelude::*;
use crate::bytes::{
    pad_len, zeros, u16_wire, u16_value, u32_wire, lemma_u16_round_trip, lemma_u32_round_trip,
    lemma_pad_len,
};
use crate::cursor::{take_u8, take_u16, take_u32};
use crate::error::Fault;
use crate::format::{XimFormat, Endian};
use crate::attr::{
    Attr, AttrView, AttrType, Extension, ExtView, AttrValue, AttrValueView, attr_type_of,
    string16_wire, parse_string16,
};
use crate::request::{
    Request, RequestView, parse_request, parse_ic_attrs, body_len, body_wire, header_wire,
    request_fits, lemma_body_len,
};
use crate::list::{
    value_item, value_at, values_len, lemma_values_wire_len, items_wire, parse_items,
    parse_list, parse_string8, string16_at, string8_at, attr_at, string16_item, string8_item,
    attr_item, strings16_len, strings8_len, attrs_len, lemma_strings16_wire_len,
    lemma_attrs_wire_len, lemma_strings8_wire_len, ext_item, ext_at, exts_len,
    lemma_exts_wire_len, parse_list_after_gap,
};

verus! {

/// `w` stands in `b` from position `pos`.
pub open spec fn holds_at(b: Seq<u8>, pos: nat, w: Seq<u8>) -> bool {
    pos + w.len() <= b.len() && b.subrange(pos as int, (pos + w.len()) as int) == w
}

#[verifier::spinoff_prover]
proof fn lemma_split(b: Seq<u8>, pos: nat, w1: Seq<u8>, w2: Seq<u8>)
    requires
        holds_at(b, pos, w1 + w2),
    ensures
        holds_at(b, pos, w1),
        holds_at(b, pos + w1.len(), w2),
{
    let n = w1.len() + w2.len();
    let big = b.subrange(pos as int, (pos + n) as int);
    assert(big == w1 + w2);
    assert forall|i: int| 0 <= i < w1.len() implies #[trigger] b.subrange(
        pos as int,
        (pos + w1.len()) as int,
    )[i] == w1[i] by {
        assert(big[i] == (w1 + w2)[i]);
    }
    assert(b.subrange(pos as int, (pos + w1.len()) as int) =~= w1);
    assert forall|i: int| 0 <= i < w2.len() implies #[trigger] b.subrange(
        (pos + w1.len()) as int,
        (pos + n) as int,
    )[i] == w2[i] by {
        assert(big[i + w1.len()] == (w1 + w2)[i + w1.len()]);
    }
    assert(b.subrange((pos + w1.len()) as int, (pos + n) as int) =~= w2);
}

#[verifier::spinoff_prover]
proof fn lemma_holds_in_take(b: Seq<u8>, pos: nat, w: Seq<u8>, end: nat)
    requires
        holds_at(b, pos, w),
        pos + w.len() <= end <= b.len(),
    ensures
        holds_at(b.take(end as int), pos, w),
{
    assert(b.take(end as int).subrange(pos as int, (pos + w.len()) as int) =~= b.subrange(pos as int, (pos + w.len()) as int));
}

#[verifier::spinoff_prover]
proof fn lemma_take_u16(b: Seq<u8>, pos: nat, x: u16)
    requires
        holds_at(b, pos, u16_wire(x)),
    ensures
        take_u16(b, pos) == Ok::<(u16, nat), Fault>((x, pos + 2)),
{
    lemma_u16_round_trip(x);
    assert(b[pos as int] == u16_wire(x)[0]);
    assert(b[pos + 1int] == u16_wire(x)[1]);
}

#[verifier::spinoff_prover]
proof fn lemma_take_u32(b: Seq<u8>, pos: nat, x: u32)
    requires
        holds_at(b, pos, u32_wire(x)),
    ensures
        take_u32(b, pos) == Ok::<(u32, nat), Fault>((x, pos + 4)),
{
    lemma_u32_round_trip(x);
    assert(b[pos as int] == u32_wire(x)[0]);
    assert(b[pos + 1int] == u32_wire(x)[1]);
    assert(b[pos + 2int] == u32_wire(x)[2]);
    assert(b[pos + 3int] == u32_wire(x)[3]);
}

proof fn lemma_string16_round_trip(x: Seq<u8>, b: Seq<u8>, pos: nat)
    requires
        x.len() <= 0xffff,
        holds_at(b, pos, string16_wire(x, pos)),
    ensures
        parse_string16(b, pos) == Ok::<(Seq<u8>, nat), Fault>((x, pos + string16_wire(x, pos).len())),
{
    let pad = zeros(pad_len(pos + 2 + x.len()));
    assert(string16_wire(x, pos) == u16_wire(x.len() as u16) + x + pad);
    lemma_split(b, pos, u16_wire(x.len() as u16) + x, pad);
    lemma_split(b, pos, u16_wire(x.len() as u16), x);
    lemma_take_u16(b, pos, x.len() as u16);
}

#[verifier::spinoff_prover]
proof fn lemma_string8_round_trip(x: Seq<u8>, b: Seq<u8>, pos: nat)
    requires
        x.len() <= 0xff,
        holds_at(b, pos, string8_at()(x, pos)),
    ensures
        parse_string8(b, pos) == Ok::<(Seq<u8>, nat), Fault>((x, pos + 1 + x.len())),
{
    lemma_split(b, pos, seq![x.len() as u8], x);
    assert(b[pos as int] == seq![x.len() as u8][0]);
}

#[verifier::spinoff_prover]
proof fn lemma_attr_type_code(t: AttrType)
    ensures
        attr_type_of(t.code()) == Some(t),
{
}

#[verifier::spinoff_prover]
proof fn lemma_attr_round_trip(a: AttrView, b: Seq<u8>, pos: nat)
    requires
        Attr::fits(a),
        holds_at(b, pos, Attr::wire(a, pos)),
    ensures
        Attr::parse(b, pos) == Ok::<(AttrView, nat), Fault>((a, pos + Attr::wire(a, pos).len())),
{
    let w1 = u16_wire(a.id);
    let w2 = u16_wire(a.ty.code());
    let w3 = string16_wire(a.name, pos + 4);
    assert(Attr::wire(a, pos) == w1 + w2 + w3);
    lemma_split(b, pos, w1 + w2, w3);
    lemma_split(b, pos, w1, w2);
    lemma_take_u16(b, pos, a.id);
    lemma_take_u16(b, pos + 2, a.ty.code());
    lemma_attr_type_code(a.ty);
    lemma_string16_round_trip(a.name, b, pos + 4);
}

/// The first item of a list comes first in its encoding.
#[verifier::spinoff_prover]
proof fn lemma_items_wire_cons<V>(w: spec_fn(V, nat) -> Seq<u8>, s: Seq<V>, off: nat)
    requires
        s.len() > 0,
    ensures
        items_wire(w, s, off) == w(s[0], off) + items_wire(w, s.drop_first(), off + w(s[0], off).len()),
    decreases s.len(),
{
    let k = w(s[0], off).len();
    if s.len() == 1 {
        assert(s.drop_last().len() == 0);
        assert(s.drop_first().len() == 0);
        assert(items_wire(w, s.drop_last(), off) == Seq::<u8>::empty());
        assert(items_wire(w, s.drop_first(), off + k) == Seq::<u8>::empty());
        assert(items_wire(w, s, off) =~= w(s[0], off));
    } else {
        lemma_items_wire_cons(w, s.drop_last(), off);
        assert(s.drop_last().drop_first() =~= s.drop_first().drop_last());
        assert(s.drop_last()[0] == s[0]);
        assert(s.drop_first().last() == s.last());
        let p = items_wire(w, s.drop_last(), off);
        let q = items_wire(w, s.drop_first().drop_last(), off + k);
        assert(p == w(s[0], off) + q);
        assert(items_wire(w, s.drop_first(), off + k) == q + w(s.last(), off + k + q.len()));
        assert(items_wire(w, s, off) =~= w(s[0], off) + items_wire(w, s.drop_first(), off + k));
    }
}

/// Reading items back from their encoding gives the items, given that each item reads back.
#[verifier::spinoff_prover]
proof fn lemma_items_round_trip<V>(
    item: spec_fn(Seq<u8>, nat) -> Result<(V, nat), Fault>,
    w: spec_fn(V, nat) -> Seq<u8>,
    ok: spec_fn(V) -> bool,
    s: Seq<V>,
    b: Seq<u8>,
    pos: nat,
    end: nat,
)
    requires
        forall|x: V, bb: Seq<u8>, p: nat|
            ok(x) && #[trigger] holds_at(bb, p, w(x, p)) ==> item(bb, p) == Ok::<(V, nat), Fault>(
                (x, p + w(x, p).len()),
            ) && w(x, p).len() > 0,
        forall|i: int| 0 <= i < s.len() ==> ok(#[trigger] s[i]),
        end <= b.len(),
        holds_at(b, pos, items_wire(w, s, pos)),
        pos + items_wire(w, s, pos).len() == end,
    ensures
        parse_items(item, b, pos, end) == Ok::<Seq<V>, Fault>(s),
    decreases s.len(),
{
    if s.len() == 0 {
        assert(pos == end);
        assert(s =~= Seq::<V>::empty());
    } else {
        lemma_items_wire_cons(w, s, pos);
        let first = w(s[0], pos);
        let rest = items_wire(w, s.drop_first(), pos + first.len());
        lemma_split(b, pos, first, rest);
        lemma_holds_in_take(b, pos, first, end);
        assert(ok(s[0]));
        assert(holds_at(b.take(end as int), pos, w(s[0], pos)));
        assert(item(b.take(end as int), pos) == Ok::<(V, nat), Fault>((s[0], pos + first.len())));
        assert(first.len() > 0);
        assert(pos < end);
        assert(pos + first.len() <= end);
        assert forall|i: int| 0 <= i < s.drop_first().len() implies ok(#[trigger] s.drop_first()[i]) by {
            assert(s.drop_first()[i] == s[i + 1]);
        }
        lemma_items_round_trip(item, w, ok, s.drop_first(), b, pos + first.len(), end);
        assert(seq![s[0]] + s.drop_first() =~= s);
        assert(parse_items(item, b, pos + first.len(), end) == Ok::<Seq<V>, Fault>(s.drop_first()));
    }
}

#[verifier::spinoff_prover]
proof fn lemma_strings16_items(s: Seq<Seq<u8>>, b: Seq<u8>, pos: nat, end: nat)
    requires
        forall|i: int| 0 <= i < s.len() ==> #[trigger] s[i].len() <= 0xffff,
        end <= b.len(),
        holds_at(b, pos, items_wire(string16_at(), s, pos)),
        pos + items_wire(string16_at(), s, pos).len() == end,
    ensures
        parse_items(string16_item(), b, pos, end) == Ok::<Seq<Seq<u8>>, Fault>(s),
{
    let ok = |x: Seq<u8>| x.len() <= 0xffff;
    assert forall|x: Seq<u8>, bb: Seq<u8>, p: nat|
        ok(x) && #[trigger] holds_at(bb, p, string16_at()(x, p)) implies string16_item()(bb, p)
        == Ok::<(Seq<u8>, nat), Fault>((x, p + string16_at()(x, p).len())) && string16_at()(
        x,
        p,
    ).len() > 0 by {
        lemma_string16_round_trip(x, bb, p);
    }
    lemma_items_round_trip(string16_item(), string16_at(), ok, s, b, pos, end);
}

#[verifier::spinoff_prover]
proof fn lemma_strings8_items(s: Seq<Seq<u8>>, b: Seq<u8>, pos: nat, end: nat)
    requires
        forall|i: int| 0 <= i < s.len() ==> #[trigger] s[i].len() <= 0xff,
        end <= b.len(),
        holds_at(b, pos, items_wire(string8_at(), s, pos)),
        pos + items_wire(string8_at(), s, pos).len() == end,
    ensures
        parse_items(string8_item(), b, pos, end) == Ok::<Seq<Seq<u8>>, Fault>(s),
{
    let ok = |x: Seq<u8>| x.len() <= 0xff;
    assert forall|x: Seq<u8>, bb: Seq<u8>, p: nat|
        ok(x) && #[trigger] holds_at(bb, p, string8_at()(x, p)) implies string8_item()(bb, p)
        == Ok::<(Seq<u8>, nat), Fault>((x, p + string8_at()(x, p).len())) && string8_at()(
        x,
        p,
    ).len() > 0 by {
        lemma_string8_round_trip(x, bb, p);
    }
    lemma_items_round_trip(string8_item(), string8_at(), ok, s, b, pos, end);
}

#[verifier::spinoff_prover]
proof fn lemma_attrs_items(s: Seq<AttrView>, b: Seq<u8>, pos: nat, end: nat)
    requires
        forall|i: int| 0 <= i < s.len() ==> Attr::fits(#[trigger] s[i]),
        end <= b.len(),
        holds_at(b, pos, items_wire(attr_at(), s, pos)),
        pos + items_wire(attr_at(), s, pos).len() == end,
    ensures
        parse_items(attr_item(), b, pos, end) == Ok::<Seq<AttrView>, Fault>(s),
{
    let ok = |a: AttrView| Attr::fits(a);
    assert forall|x: AttrView, bb: Seq<u8>, p: nat|
        ok(x) && #[trigger] holds_at(bb, p, attr_at()(x, p)) implies attr_item()(bb, p) == Ok::<
        (AttrView, nat),
        Fault,
    >((x, p + attr_at()(x, p).len())) && attr_at()(x, p).len() > 0 by {
        lemma_attr_round_trip(x, bb, p);
    }
    lemma_items_round_trip(attr_item(), attr_at(), ok, s, b, pos, end);
}

/// Packed `u8`-prefixed strings are the same bytes wherever they stand.
#[verifier::spinoff_prover]
proof fn lemma_strings8_any_offset(s: Seq<Seq<u8>>, off: nat)
    ensures
        items_wire(string8_at(), s, off) == items_wire(string8_at(), s, 0),
    decreases s.len(),
{
    if s.len() > 0 {
        lemma_strings8_any_offset(s.drop_last(), off);
    }
}

#[verifier::spinoff_prover]
proof fn lemma_take_u8(b: Seq<u8>, pos: nat, x: u8)
    requires
        holds_at(b, pos, seq![x]),
    ensures
        take_u8(b, pos) == Ok::<(u8, nat), Fault>((x, pos + 1)),
{
    assert(b[pos as int] == b.subrange(pos as int, pos + 1int)[0]);
}

#[verifier::spinoff_prover]
#[verifier::rlimit(60)]
proof fn lemma_connect_body(v: RequestView, b: Seq<u8>, o: nat)
    requires
        v is Connect,
        v->Connect_endian == Endian::host(),
        request_fits(v),
        o % 4 == 0,
        holds_at(b, o, body_wire(v, o)),
    ensures
        crate::request::parse_connect(b, o) == Ok::<(RequestView, nat), Fault>((v, o + body_wire(v, o).len())),
{
    reveal(crate::request::parse_connect);
    reveal(parse_list);
    let endian = v->Connect_endian;
    let client_major = v->Connect_client_major;
    let client_minor = v->Connect_client_minor;
    let auth_names = v->Connect_auth_names;
    let len = strings16_len(auth_names);
    let items = crate::list::strings16_wire(auth_names, o + 8);
    let w = seq![endian.tag()] + seq![0u8] + u16_wire(client_major) + u16_wire(client_minor) + u16_wire(
        len as u16,
    );
    assert(body_wire(v, o) =~= w + items);
    lemma_split(b, o, w, items);
    lemma_split(b, o, seq![endian.tag()] + seq![0u8] + u16_wire(client_major) + u16_wire(client_minor), u16_wire(len as u16));
    lemma_split(b, o, seq![endian.tag()] + seq![0u8] + u16_wire(client_major), u16_wire(client_minor));
    lemma_split(b, o, seq![endian.tag()] + seq![0u8], u16_wire(client_major));
    lemma_split(b, o, seq![endian.tag()], seq![0u8]);
    lemma_take_u8(b, o, endian.tag());
    lemma_take_u8(b, o + 1, 0u8);
    lemma_take_u16(b, o + 2, client_major);
    lemma_take_u16(b, o + 4, client_minor);
    lemma_take_u16(b, o + 6, len as u16);
    lemma_strings16_wire_len(auth_names, o + 8);
    lemma_strings16_items(auth_names, b, o + 8, o + 8 + len);
}

#[verifier::spinoff_prover]
proof fn lemma_open_body(v: RequestView, b: Seq<u8>, o: nat)
    requires
        v is Open,
        request_fits(v),
        holds_at(b, o, body_wire(v, o)),
    ensures
        crate::request::parse_open(b, o) == Ok::<(RequestView, nat), Fault>((v, o + body_wire(v, o).len())),
{
    reveal(crate::request::parse_open);
    let name = v->Open_name;
    let pad = zeros(pad_len(o + 1 + name.len()));
    assert(body_wire(v, o) == (seq![name.len() as u8] + name) + pad);
    lemma_split(b, o, seq![name.len() as u8] + name, pad);
    lemma_string8_round_trip(name, b, o);
}

/// An attribute list with its `u16` byte-length prefix reads back.
#[verifier::spinoff_prover]
proof fn lemma_attr_list(s: Seq<AttrView>, b: Seq<u8>, p: nat)
    requires
        forall|i: int| 0 <= i < s.len() ==> Attr::fits(#[trigger] s[i]),
        attrs_len(s) <= 0xffff,
        (p + 2) % 4 == 0,
        holds_at(b, p, u16_wire(attrs_len(s) as u16) + crate::list::attrs_wire(s, p + 2)),
    ensures
        parse_list(attr_item(), b, p) == Ok::<(Seq<AttrView>, nat), Fault>((s, p + 2 + attrs_len(s))),
{
    reveal(parse_list);
    let l = attrs_len(s);
    lemma_attrs_wire_len(s, p + 2);
    lemma_split(b, p, u16_wire(l as u16), crate::list::attrs_wire(s, p + 2));
    lemma_take_u16(b, p, l as u16);
    lemma_attrs_items(s, b, p + 2, p + 2 + l);
}

/// The IC attribute list, whose prefix counts the two pad bytes after it, reads back.
#[verifier::spinoff_prover]
proof fn lemma_ic_attr_list(s: Seq<AttrView>, b: Seq<u8>, p: nat)
    requires
        forall|i: int| 0 <= i < s.len() ==> Attr::fits(#[trigger] s[i]),
        attrs_len(s) + 2 <= 0xffff,
        p % 4 == 0,
        holds_at(b, p, u16_wire((attrs_len(s) + 2) as u16) + zeros(2) + crate::list::attrs_wire(s, p + 4)),
    ensures
        parse_ic_attrs(b, p) == Ok::<(Seq<AttrView>, nat), Fault>((s, p + 4 + attrs_len(s))),
{
    reveal(parse_ic_attrs);
    let l = attrs_len(s);
    let end = p + 4 + l;
    lemma_attrs_wire_len(s, p + 4);
    lemma_split(b, p, u16_wire((l + 2) as u16) + zeros(2), crate::list::attrs_wire(s, p + 4));
    lemma_split(b, p, u16_wire((l + 2) as u16), zeros(2));
    lemma_take_u16(b, p, (l + 2) as u16);
    assert(zeros(2) =~= u16_wire(0));
    lemma_holds_in_take(b, p + 2, u16_wire(0), end);
    lemma_take_u16(b.take(end as int), p + 2, 0);
    lemma_attrs_items(s, b, p + 4, end);
    let n = (l + 2) as u16;
    assert(n as nat == l + 2);
    assert(take_u16(b, p) == Ok::<(u16, nat), Fault>((n, p + 2)));
    assert(((p + 2) + n) as nat == end);
    assert(take_u16(b.take(end as int), p + 2) == Ok::<(u16, nat), Fault>((0u16, p + 4)));
    assert(parse_items(attr_item(), b, p + 4, end) == Ok::<Seq<AttrView>, Fault>(s));
}

#[verifier::spinoff_prover]
proof fn lemma_join(b: Seq<u8>, pos: nat, w1: Seq<u8>, w2: Seq<u8>)
    requires
        holds_at(b, pos, w1),
        holds_at(b, pos + w1.len(), w2),
    ensures
        holds_at(b, pos, w1 + w2),
{
    assert forall|i: int| 0 <= i < w1.len() + w2.len() implies #[trigger] b.subrange(
        pos as int,
        (pos + w1.len() + w2.len()) as int,
    )[i] == (w1 + w2)[i] by {
        if i < w1.len() {
            assert(b.subrange(pos as int, (pos + w1.len()) as int)[i] == w1[i]);
        } else {
            assert(b.subrange((pos + w1.len()) as int, (pos + w1.len() + w2.len()) as int)[i - w1.len()]
                == w2[i - w1.len()]);
        }
    }
    assert(b.subrange(pos as int, (pos + w1.len() + w2.len()) as int) =~= w1 + w2);
}

#[verifier::spinoff_prover]
#[verifier::rlimit(100)]
proof fn lemma_open_reply_body(v: RequestView, b: Seq<u8>, o: nat)
    requires
        v is OpenReply,
        request_fits(v),
        o % 4 == 0,
        holds_at(b, o, body_wire(v, o)),
    ensures
        crate::request::parse_open_reply(b, o) == Ok::<(RequestView, nat), Fault>((v, o + body_wire(v, o).len())),
{
    reveal(crate::request::parse_open_reply);
    let im_id = v->OpenReply_im_id;
    let im_attrs = v->OpenReply_im_attrs;
    let ic_attrs = v->OpenReply_ic_attrs;
    let im = crate::list::attrs_wire(im_attrs, o + 4);
    lemma_attrs_wire_len(im_attrs, o + 4);
    let l_im = attrs_len(im_attrs);
    let w1 = u16_wire(im_id);
    let a = u16_wire(l_im as u16);
    let c = u16_wire((attrs_len(ic_attrs) + 2) as u16);
    let z = zeros(2);
    let ic = crate::list::attrs_wire(ic_attrs, o + 8 + im.len());
    assert(body_wire(v, o) == w1 + a + im + c + z + ic);
    lemma_split(b, o, w1 + a + im + c + z, ic);
    lemma_split(b, o, w1 + a + im + c, z);
    lemma_split(b, o, w1 + a + im, c);
    lemma_split(b, o, w1 + a, im);
    lemma_split(b, o, w1, a);
    lemma_join(b, o + 2, a, im);
    lemma_join(b, o + 4 + l_im, c, z);
    lemma_join(b, o + 4 + l_im, c + z, ic);
    lemma_take_u16(b, o, im_id);
    lemma_attr_list(im_attrs, b, o + 2);
    lemma_ic_attr_list(ic_attrs, b, o + 4 + l_im);
    lemma_attrs_wire_len(ic_attrs, o + 8 + l_im);
    assert(body_wire(v, o).len() == 8 + l_im + attrs_len(ic_attrs));
    assert(take_u16(b, o) == Ok::<(u16, nat), Fault>((im_id, o + 2)));
    assert(parse_list(attr_item(), b, o + 2) == Ok::<(Seq<AttrView>, nat), Fault>((im_attrs, o + 4 + l_im)));
    assert(parse_ic_attrs(b, o + 4 + l_im) == Ok::<(Seq<AttrView>, nat), Fault>(
        (ic_attrs, o + 8 + l_im + attrs_len(ic_attrs)),
    ));
}

#[verifier::spinoff_prover]
proof fn lemma_query_extension_body(v: RequestView, b: Seq<u8>, o: nat)
    requires
        v is QueryExtension,
        request_fits(v),
        holds_at(b, o, body_wire(v, o)),
    ensures
        crate::request::parse_query_extension(b, o) == Ok::<(RequestView, nat), Fault>(
            (v, o + body_wire(v, o).len()),
        ),
{
    reveal(crate::request::parse_query_extension);
    reveal(parse_list);
    let im_id = v->QueryExtension_im_id;
    let extensions = v->QueryExtension_extensions;
    let len = strings8_len(extensions);
    let items = crate::list::strings8_wire(extensions);
    let pad = zeros(pad_len(o + 4 + len));
    lemma_strings8_wire_len(extensions);
    lemma_strings8_any_offset(extensions, o + 4);
    assert(body_wire(v, o) =~= u16_wire(im_id) + u16_wire(len as u16) + items + pad);
    lemma_split(b, o, u16_wire(im_id) + u16_wire(len as u16) + items, pad);
    lemma_split(b, o, u16_wire(im_id) + u16_wire(len as u16), items);
    lemma_split(b, o, u16_wire(im_id), u16_wire(len as u16));
    lemma_take_u16(b, o, im_id);
    lemma_take_u16(b, o + 2, len as u16);
    lemma_strings8_items(extensions, b, o + 4, o + 4 + len);
}

#[verifier::spinoff_prover]
proof fn lemma_ext_round_trip(e: ExtView, b: Seq<u8>, pos: nat)
    requires
        Extension::fits(e),
        holds_at(b, pos, Extension::wire(e, pos)),
    ensures
        Extension::parse(b, pos) == Ok::<(ExtView, nat), Fault>((e, pos + Extension::wire(e, pos).len())),
{
    let w3 = string16_wire(e.name, pos + 2);
    assert(Extension::wire(e, pos) =~= seq![e.major] + seq![e.minor] + w3);
    lemma_split(b, pos, seq![e.major] + seq![e.minor], w3);
    lemma_split(b, pos, seq![e.major], seq![e.minor]);
    lemma_take_u8(b, pos, e.major);
    lemma_take_u8(b, pos + 1, e.minor);
    lemma_string16_round_trip(e.name, b, pos + 2);
}

#[verifier::spinoff_prover]
proof fn lemma_value_round_trip(e: AttrValueView, b: Seq<u8>, pos: nat)
    requires
        AttrValue::fits(e),
        holds_at(b, pos, AttrValue::wire(e, pos)),
    ensures
        AttrValue::parse(b, pos) == Ok::<(AttrValueView, nat), Fault>(
            (e, pos + AttrValue::wire(e, pos).len()),
        ),
{
    let w2 = string16_wire(e.value, pos + 2);
    lemma_split(b, pos, u16_wire(e.id), w2);
    lemma_take_u16(b, pos, e.id);
    lemma_string16_round_trip(e.value, b, pos + 2);
}

#[verifier::spinoff_prover]
proof fn lemma_values_items(s: Seq<AttrValueView>, b: Seq<u8>, pos: nat, end: nat)
    requires
        forall|i: int| 0 <= i < s.len() ==> AttrValue::fits(#[trigger] s[i]),
        end <= b.len(),
        holds_at(b, pos, items_wire(value_at(), s, pos)),
        pos + items_wire(value_at(), s, pos).len() == end,
    ensures
        parse_items(value_item(), b, pos, end) == Ok::<Seq<AttrValueView>, Fault>(s),
{
    let ok = |e: AttrValueView| AttrValue::fits(e);
    assert forall|x: AttrValueView, bb: Seq<u8>, p: nat|
        ok(x) && #[trigger] holds_at(bb, p, value_at()(x, p)) implies value_item()(bb, p) == Ok::<
        (AttrValueView, nat),
        Fault,
    >((x, p + value_at()(x, p).len())) && value_at()(x, p).len() > 0 by {
        lemma_value_round_trip(x, bb, p);
    }
    lemma_items_round_trip(value_item(), value_at(), ok, s, b, pos, end);
}

#[verifier::spinoff_prover]
proof fn lemma_create_ic_body(v: RequestView, b: Seq<u8>, o: nat)
    requires
        v is CreateIc,
        request_fits(v),
        o % 4 == 0,
        holds_at(b, o, body_wire(v, o)),
    ensures
        crate::request::parse_create_ic(b, o) == Ok::<(RequestView, nat), Fault>(
            (v, o + body_wire(v, o).len()),
        ),
{
    reveal(crate::request::parse_create_ic);
    reveal(parse_list);
    let im_id = v->CreateIc_im_id;
    let vals = v->CreateIc_ic_attributes;
    let l = values_len(vals);
    let items = crate::list::values_wire(vals, o + 4);
    lemma_values_wire_len(vals, o + 4);
    assert(body_wire(v, o) =~= u16_wire(im_id) + u16_wire(l as u16) + items);
    lemma_split(b, o, u16_wire(im_id) + u16_wire(l as u16), items);
    lemma_u16_pair(b, o, im_id, l as u16);
    lemma_values_items(vals, b, o + 4, o + 4 + l);
}

#[verifier::spinoff_prover]
proof fn lemma_exts_items(s: Seq<ExtView>, b: Seq<u8>, pos: nat, end: nat)
    requires
        forall|i: int| 0 <= i < s.len() ==> Extension::fits(#[trigger] s[i]),
        end <= b.len(),
        holds_at(b, pos, items_wire(ext_at(), s, pos)),
        pos + items_wire(ext_at(), s, pos).len() == end,
    ensures
        parse_items(ext_item(), b, pos, end) == Ok::<Seq<ExtView>, Fault>(s),
{
    let ok = |e: ExtView| Extension::fits(e);
    assert forall|x: ExtView, bb: Seq<u8>, p: nat|
        ok(x) && #[trigger] holds_at(bb, p, ext_at()(x, p)) implies ext_item()(bb, p) == Ok::<
        (ExtView, nat),
        Fault,
    >((x, p + ext_at()(x, p).len())) && ext_at()(x, p).len() > 0 by {
        lemma_ext_round_trip(x, bb, p);
    }
    lemma_items_round_trip(ext_item(), ext_at(), ok, s, b, pos, end);
}

#[verifier::spinoff_prover]
proof fn lemma_query_extension_reply_body(v: RequestView, b: Seq<u8>, o: nat)
    requires
        v is QueryExtensionReply,
        request_fits(v),
        o % 4 == 0,
        holds_at(b, o, body_wire(v, o)),
    ensures
        crate::request::parse_query_extension_reply(b, o) == Ok::<(RequestView, nat), Fault>(
            (v, o + body_wire(v, o).len()),
        ),
{
    reveal(crate::request::parse_query_extension_reply);
    reveal(parse_list);
    let im_id = v->QueryExtensionReply_im_id;
    let sup = v->QueryExtensionReply_supported;
    let l = exts_len(sup);
    let items = crate::list::exts_wire(sup, o + 4);
    lemma_exts_wire_len(sup, o + 4);
    assert(body_wire(v, o) =~= u16_wire(im_id) + u16_wire(l as u16) + items);
    lemma_split(b, o, u16_wire(im_id) + u16_wire(l as u16), items);
    lemma_u16_pair(b, o, im_id, l as u16);
    lemma_exts_items(sup, b, o + 4, o + 4 + l);
}

#[verifier::spinoff_prover]
proof fn lemma_string8_list(s: Seq<Seq<u8>>, b: Seq<u8>, p: nat)
    requires
        forall|i: int| 0 <= i < s.len() ==> #[trigger] s[i].len() <= 0xff,
        strings8_len(s) <= 0xffff,
        holds_at(b, p, u16_wire(strings8_len(s) as u16) + crate::list::strings8_wire(s)),
    ensures
        parse_list(string8_item(), b, p) == Ok::<(Seq<Seq<u8>>, nat), Fault>((s, p + 2 + strings8_len(s))),
{
    reveal(parse_list);
    let l = strings8_len(s);
    lemma_strings8_wire_len(s);
    lemma_strings8_any_offset(s, p + 2);
    lemma_split(b, p, u16_wire(l as u16), crate::list::strings8_wire(s));
    lemma_take_u16(b, p, l as u16);
    lemma_strings8_items(s, b, p + 2, p + 2 + l);
}

#[verifier::spinoff_prover]
proof fn lemma_gap_string16_list(s: Seq<Seq<u8>>, b: Seq<u8>, p: nat)
    requires
        forall|i: int| 0 <= i < s.len() ==> #[trigger] s[i].len() <= 0xffff,
        strings16_len(s) <= 0xffff,
        p % 4 == 0,
        holds_at(b, p, u16_wire(strings16_len(s) as u16) + zeros(2) + crate::list::strings16_wire(s, p + 4)),
    ensures
        parse_list_after_gap(string16_item(), b, p) == Ok::<(Seq<Seq<u8>>, nat), Fault>(
            (s, p + 4 + strings16_len(s)),
        ),
{
    reveal(parse_list_after_gap);
    let l = strings16_len(s);
    lemma_strings16_wire_len(s, p + 4);
    assert(zeros(2) =~= u16_wire(0));
    lemma_split(b, p, u16_wire(l as u16) + zeros(2), crate::list::strings16_wire(s, p + 4));
    lemma_u16_pair(b, p, l as u16, 0);
    lemma_strings16_items(s, b, p + 4, p + 4 + l);
}

#[verifier::spinoff_prover]
#[verifier::rlimit(60)]
proof fn lemma_encoding_negotiation_body(v: RequestView, b: Seq<u8>, o: nat)
    requires
        v is EncodingNegotiation,
        request_fits(v),
        o % 4 == 0,
        holds_at(b, o, body_wire(v, o)),
    ensures
        crate::request::parse_encoding_negotiation(b, o) == Ok::<(RequestView, nat), Fault>(
            (v, o + body_wire(v, o).len()),
        ),
{
    reveal(crate::request::parse_encoding_negotiation);
    let im_id = v->EncodingNegotiation_im_id;
    let encs = v->EncodingNegotiation_encodings;
    let infos = v->EncodingNegotiation_encoding_infos;
    let l1 = strings8_len(encs);
    let l2 = strings16_len(infos);
    let pad = zeros(pad_len(o + 4 + l1));
    let p3 = o + 4 + l1 + pad_len(o + 4 + l1);
    let s8 = crate::list::strings8_wire(encs);
    let s16 = crate::list::strings16_wire(infos, p3 + 4);
    lemma_strings8_wire_len(encs);
    lemma_pad_len(o + 4 + l1);
    let a = u16_wire(im_id);
    let c = u16_wire(l1 as u16);
    let g = u16_wire(l2 as u16);
    let z = zeros(2);
    assert(body_wire(v, o) == a + c + s8 + pad + g + z + s16);
    lemma_split(b, o, a + c + s8 + pad + g + z, s16);
    lemma_split(b, o, a + c + s8 + pad + g, z);
    lemma_split(b, o, a + c + s8 + pad, g);
    lemma_split(b, o, a + c + s8, pad);
    lemma_split(b, o, a + c, s8);
    lemma_split(b, o, a, c);
    lemma_join(b, o + 2, c, s8);
    lemma_join(b, p3, g, z);
    lemma_join(b, p3, g + z, s16);
    lemma_take_u16(b, o, im_id);
    lemma_string8_list(encs, b, o + 2);
    lemma_gap_string16_list(infos, b, p3);
    assert(p3 % 4 == 0);
    lemma_strings16_wire_len(infos, p3 + 4);
    assert(pad.len() == pad_len(o + 4 + l1));
    assert(crate::cursor::take_pad(b, o + 4 + l1) == Ok::<((), nat), Fault>(((), p3)));
    assert(body_wire(v, o).len() == p3 + 4 + l2 - o);
}

#[verifier::spinoff_prover]
proof fn lemma_u16_pair(b: Seq<u8>, o: nat, x: u16, y: u16)
    requires
        holds_at(b, o, u16_wire(x) + u16_wire(y)),
    ensures
        take_u16(b, o) == Ok::<(u16, nat), Fault>((x, o + 2)),
        take_u16(b, o + 2) == Ok::<(u16, nat), Fault>((y, o + 4)),
{
    lemma_split(b, o, u16_wire(x), u16_wire(y));
    lemma_take_u16(b, o, x);
    lemma_take_u16(b, o + 2, y);
}

#[verifier::spinoff_prover]
proof fn lemma_error_body(v: RequestView, b: Seq<u8>, o: nat)
    requires
        v is Error,
        request_fits(v),
        holds_at(b, o, body_wire(v, o)),
    ensures
        crate::request::parse_error(b, o) == Ok::<(RequestView, nat), Fault>((v, o + body_wire(v, o).len())),
{
    let d = v->Error_detail;
    let w1 = u16_wire(v->Error_im_id) + u16_wire(v->Error_ic_id);
    let w2 = u16_wire(v->Error_flag) + u16_wire(v->Error_code);
    let w3 = u16_wire(d.len() as u16) + u16_wire(v->Error_error_type);
    let pad = zeros(pad_len(o + 12 + d.len()));
    assert(body_wire(v, o) =~= w1 + w2 + w3 + d + pad);
    lemma_split(b, o, w1 + w2 + w3 + d, pad);
    lemma_split(b, o, w1 + w2 + w3, d);
    lemma_split(b, o, w1 + w2, w3);
    lemma_split(b, o, w1, w2);
    lemma_u16_pair(b, o, v->Error_im_id, v->Error_ic_id);
    lemma_u16_pair(b, o + 4, v->Error_flag, v->Error_code);
    lemma_u16_pair(b, o + 8, d.len() as u16, v->Error_error_type);
}

#[verifier::spinoff_prover]
proof fn lemma_set_event_mask_body(v: RequestView, b: Seq<u8>, o: nat)
    requires
        v is SetEventMask,
        holds_at(b, o, body_wire(v, o)),
    ensures
        crate::request::parse_set_event_mask(b, o) == Ok::<(RequestView, nat), Fault>(
            (v, o + body_wire(v, o).len()),
        ),
{
    let w1 = u16_wire(v->SetEventMask_im_id) + u16_wire(v->SetEventMask_ic_id);
    let w2 = u32_wire(v->SetEventMask_forward_mask);
    let w3 = u32_wire(v->SetEventMask_synchronous_mask);
    assert(body_wire(v, o) =~= w1 + w2 + w3);
    lemma_split(b, o, w1 + w2, w3);
    lemma_split(b, o, w1, w2);
    lemma_u16_pair(b, o, v->SetEventMask_im_id, v->SetEventMask_ic_id);
    lemma_take_u32(b, o + 4, v->SetEventMask_forward_mask);
    lemma_take_u32(b, o + 8, v->SetEventMask_synchronous_mask);
}

#[verifier::spinoff_prover]
proof fn lemma_forward_event_body(v: RequestView, b: Seq<u8>, o: nat)
    requires
        v is ForwardEvent,
        request_fits(v),
        holds_at(b, o, body_wire(v, o)),
    ensures
        crate::request::parse_forward_event(b, o) == Ok::<(RequestView, nat), Fault>(
            (v, o + body_wire(v, o).len()),
        ),
{
    let event = v->ForwardEvent_event;
    let w1 = u16_wire(v->ForwardEvent_im_id) + u16_wire(v->ForwardEvent_ic_id);
    let w2 = u16_wire(v->ForwardEvent_flag) + u16_wire(v->ForwardEvent_serial);
    assert(body_wire(v, o) =~= w1 + w2 + event);
    lemma_split(b, o, w1 + w2, event);
    lemma_split(b, o, w1, w2);
    lemma_u16_pair(b, o, v->ForwardEvent_im_id, v->ForwardEvent_ic_id);
    lemma_u16_pair(b, o + 4, v->ForwardEvent_flag, v->ForwardEvent_serial);
}

#[verifier::spinoff_prover]
proof fn lemma_fixed_body(v: RequestView, b: Seq<u8>, o: nat)
    requires
        v is Bare || v is Im || v is Ic || v is EncodingNegotiationReply || v is Error || v is SetEventMask
            || v is ForwardEvent,
        request_fits(v),
        holds_at(b, o, body_wire(v, o)),
    ensures
        crate::request::parse_fixed(crate::request::major_of(v), b, o) == Ok::<(RequestView, nat), Fault>(
            (v, o + body_wire(v, o).len()),
        ),
{
    reveal(crate::request::parse_fixed);
    assert(zeros(2) =~= u16_wire(0));
    match v {
        RequestView::Im { im_id, .. } => {
            lemma_u16_pair(b, o, im_id, 0);
        },
        RequestView::Ic { im_id, ic_id, .. } => {
            lemma_u16_pair(b, o, im_id, ic_id);
        },
        RequestView::EncodingNegotiationReply { im_id, category, index } => {
            let w1 = u16_wire(im_id) + u16_wire(category);
            let w2 = u16_wire(index as u16) + u16_wire(0);
            assert(body_wire(v, o) =~= w1 + w2);
            lemma_split(b, o, w1, w2);
            lemma_u16_pair(b, o, im_id, category);
            lemma_u16_pair(b, o + 4, index as u16, 0);
            assert((index as u16) as i16 == index) by (bit_vector);
        },
        RequestView::Error { .. } => {
            lemma_error_body(v, b, o);
        },
        RequestView::SetEventMask { .. } => lemma_set_event_mask_body(v, b, o),
        RequestView::ForwardEvent { .. } => lemma_forward_event_body(v, b, o),
        _ => {},
    }
}

#[verifier::spinoff_prover]
proof fn lemma_body_at(v: RequestView, b: Seq<u8>, o: nat)
    requires
        request_fits(v),
        v is Connect ==> v->Connect_endian == Endian::host(),
        o % 4 == 0,
        holds_at(b, o, body_wire(v, o)),
    ensures
        crate::request::parse_body(crate::request::major_of(v), 0, b, o) == Ok::<(RequestView, nat), Fault>(
            (v, o + body_wire(v, o).len()),
        ),
{
    reveal(crate::request::parse_connect_reply);
    match v {
        RequestView::Connect { .. } => lemma_connect_body(v, b, o),
        RequestView::ConnectReply { server_major, server_minor } => {
            lemma_split(b, o, u16_wire(server_major), u16_wire(server_minor));
            lemma_take_u16(b, o, server_major);
            lemma_take_u16(b, o + 2, server_minor);
        },
        RequestView::Open { .. } => lemma_open_body(v, b, o),
        RequestView::OpenReply { .. } => lemma_open_reply_body(v, b, o),
        RequestView::QueryExtension { .. } => lemma_query_extension_body(v, b, o),
        RequestView::QueryExtensionReply { .. } => lemma_query_extension_reply_body(v, b, o),
        RequestView::EncodingNegotiation { .. } => lemma_encoding_negotiation_body(v, b, o),
        RequestView::CreateIc { .. } => lemma_create_ic_body(v, b, o),
        _ => lemma_fixed_body(v, b, o),
    }
}

#[verifier::spinoff_prover]
proof fn lemma_request_at(v: RequestView, b: Seq<u8>, pos: nat)
    requires
        request_fits(v),
        v is Connect ==> v->Connect_endian == Endian::host(),
        pos % 4 == 0,
        holds_at(b, pos, Request::wire(v, pos)),
    ensures
        parse_request(b, pos) == Ok::<(RequestView, nat), Fault>((v, pos + Request::wire(v, pos).len())),
{
    let major = crate::request::major_of(v);
    let len = (body_len(v) / 4) as u16;
    let h = header_wire(v);
    let body = body_wire(v, pos + 4);
    assert(h =~= seq![major] + seq![0u8] + u16_wire(len));
    lemma_split(b, pos, h, body);
    lemma_split(b, pos, seq![major] + seq![0u8], u16_wire(len));
    lemma_split(b, pos, seq![major], seq![0u8]);
    lemma_take_u8(b, pos, major);
    lemma_take_u8(b, pos + 1, 0u8);
    lemma_take_u16(b, pos + 2, len);
    lemma_body_at(v, b, pos + 4);
}

/// Decoding the encoding of a message gives the message back, consuming exactly its bytes,
/// whatever follows it; a handshake message must carry the host's own byte order.
#[verifier::spinoff_prover]
pub proof fn lemma_round_trip(v: RequestView, rest: Seq<u8>)
    requires
        Request::fits(v),
        v is Connect ==> v->Connect_endian == Endian::host(),
    ensures
        Request::parse(Request::wire(v, 0) + rest, 0) == Ok::<(RequestView, nat), Fault>(
            (v, Request::wire(v, 0).len()),
        ),
{
    let w = Request::wire(v, 0);
    assert((w + rest).subrange(0, w.len() as int) =~= w);
    lemma_request_at(v, w + rest, 0);
}

/// An encoded message is a whole number of four-byte units, and the length field of its
/// header counts the units that follow the header.
#[verifier::spinoff_prover]
pub proof fn lemma_length_field(v: RequestView)
    requires
        Request::fits(v),
    ensures
        Request::wire(v, 0).len() % 4 == 0,
        Request::wire(v, 0).len() >= 4,
        u16_value(Request::wire(v, 0)[2], Request::wire(v, 0)[3]) == (Request::wire(v, 0).len() - 4) / 4,
{
    lemma_body_len(v, 4);
    let n = body_len(v) / 4;
    assert(n <= 0xffff) by {
        match v {
            RequestView::Open { name } => {
                lemma_pad_len(1 + name.len());
            },
            RequestView::QueryExtension { extensions, .. } => {
                lemma_pad_len(4 + strings8_len(extensions));
            },
            RequestView::Error { detail, .. } => {
                lemma_pad_len(12 + detail.len());
            },
            RequestView::EncodingNegotiation { encodings, .. } => {
                lemma_pad_len(4 + strings8_len(encodings));
            },
            _ => {},
        }
    }
    let len = n as u16;
    lemma_u16_round_trip(len);
    let w = Request::wire(v, 0);
    assert(w[2] == u16_wire(len)[0]);
    assert(w[3] == u16_wire(len)[1]);
}

/// A handshake whose byte-order tag is not the host's fails with `NotNativeEndian`.
#[verifier::spinoff_prover]
pub proof fn lemma_foreign_endian(b: Seq<u8>)
    requires
        b.len() >= 5,
        b[0] == 1 && b[1] == 0,
        b[4] != Endian::host().tag(),
    ensures
        Request::parse(b, 0) == Err::<(RequestView, nat), Fault>(Fault::NotNativeEndian),
{
    reveal(crate::request::parse_connect);
}

/// A header whose opcode pair names no message, by its major opcode or by a minor
/// opcode other than 0, fails with that opcode pair.
#[verifier::spinoff_prover]
pub proof fn lemma_unknown_opcode(b: Seq<u8>)
    requires
        b.len() >= 4,
        b[1] != 0 || !crate::request::is_known_major(b[0]),
    ensures
        Request::parse(b, 0) == Err::<(RequestView, nat), Fault>(Fault::BadOpcode(b[0], b[1])),
{
}

/// A list whose length prefix claims more bytes than remain fails with `EndOfStream`.
#[verifier::spinoff_prover]
pub proof fn lemma_list_bound<V>(
    item: spec_fn(Seq<u8>, nat) -> Result<(V, nat), Fault>,
    b: Seq<u8>,
    pos: nat,
)
    requires
        pos + 2 <= b.len(),
        pos + 2 + u16_value(b[pos as int], b[pos + 1int]) > b.len(),
    ensures
        parse_list(item, b, pos) == Err::<(Seq<V>, nat), Fault>(Fault::EndOfStream),
{
    reveal(parse_list);
}

/// A message whose first list claims more bytes than remain fails with `EndOfStream`:
/// the attributes of an open reply, the extensions of a query or its reply, the encodings
/// of a negotiation, the values of a new input context, the names of a handshake.
#[verifier::spinoff_prover]
pub proof fn lemma_truncated_list(b: Seq<u8>)
    requires
        b.len() >= 4 && b[1] == 0,
        (b[0] == 31 || b[0] == 40 || b[0] == 41 || b[0] == 38 || b[0] == 50) && b.len() >= 8 && 8
            + u16_value(b[6], b[7]) > b.len() || b[0] == 1 && b.len() >= 12 && b[4]
            == Endian::host().tag() && 12 + u16_value(b[10], b[11]) > b.len(),
    ensures
        Request::parse(b, 0) == Err::<(RequestView, nat), Fault>(Fault::EndOfStream),
{
    reveal(parse_list);
    reveal(crate::request::parse_connect);
    reveal(crate::request::parse_open_reply);
    reveal(crate::request::parse_query_extension);
    reveal(crate::request::parse_query_extension_reply);
    reveal(crate::request::parse_encoding_negotiation);
    reveal(crate::request::parse_create_ic);
}

/// An open reply whose input method attributes read, but whose input context list claims
/// more bytes than remain, fails with `EndOfStream`.
#[verifier::spinoff_prover]
pub proof fn lemma_truncated_ic_list(b: Seq<u8>, im_attrs: Seq<AttrView>, p: nat)
    requires
        b.len() >= 4 && b[0] == 31 && b[1] == 0,
        parse_list(attr_item(), b, 6) == Ok::<(Seq<AttrView>, nat), Fault>((im_attrs, p)),
        p + 2 <= b.len(),
        p + 2 + u16_value(b[p as int], b[p + 1int]) > b.len(),
    ensures
        Request::parse(b, 0) == Err::<(RequestView, nat), Fault>(Fault::EndOfStream),
{
    reveal(crate::request::parse_open_reply);
    reveal(parse_ic_attrs);
}

} // verus!
