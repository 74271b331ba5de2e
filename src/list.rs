//! Lists on the wire: items read back to back up to a byte length, and written back
//! to back, with their lengths, as the messages use them.

use vstd::prelude::*;
use crate::bytes::{pad_len, lemma_pad_len};
use crate::cursor::{Reader, Writer, take_u8, take_u16, take_bytes};
use crate::error::{ReadError, Fault, settles};
use crate::format::XimFormat;
use crate::attr::{
    XimString, Attr, AttrView, Extension, ExtView, AttrValue, AttrValueView, string16_wire,
    parse_string16, read_string16, write_string16, string16_size,
};

verus! {

pub open spec fn strings_view(v: Seq<XimString>) -> Seq<Seq<u8>> {
    v.map_values(|s: XimString| s@)
}

pub open spec fn attrs_view(v: Seq<Attr>) -> Seq<AttrView> {
    formats_view(v)
}

/// The items of a list body `pos..end`, each read by `item` from where the last one ended;
/// the items are read from `b` cut at `end`, so none may reach past it.
pub open spec fn parse_items<V>(
    item: spec_fn(Seq<u8>, nat) -> Result<(V, nat), Fault>,
    b: Seq<u8>,
    pos: nat,
    end: nat,
) -> Result<Seq<V>, Fault>
    decreases end - pos,
{
    if pos >= end {
        Ok(seq![])
    } else {
        match item(b.take(end as int), pos) {
            Ok((v, p)) => if p <= pos || p > end {
                Err(Fault::EndOfStream)
            } else {
                match parse_items(item, b, p, end) {
                    Ok(rest) => Ok(seq![v] + rest),
                    Err(f) => Err(f),
                }
            },
            Err(f) => Err(f),
        }
    }
}

/// `pre` in front of the items of `rest`, or the fault of `rest`.
pub open spec fn prepend<V>(pre: Seq<V>, rest: Result<Seq<V>, Fault>) -> Result<Seq<V>, Fault> {
    match rest {
        Ok(s) => Ok(pre + s),
        Err(f) => Err(f),
    }
}

/// A list with a `u16` byte-length prefix: its items and the position after its body.
#[verifier::opaque]
pub open spec fn parse_list<V>(
    item: spec_fn(Seq<u8>, nat) -> Result<(V, nat), Fault>,
    b: Seq<u8>,
    pos: nat,
) -> Result<(Seq<V>, nat), Fault> {
    match take_u16(b, pos) {
        Ok((n, p)) => if p + n > b.len() {
            Err(Fault::EndOfStream)
        } else {
            match parse_items(item, b, p, (p + n) as nat) {
                Ok(items) => Ok((items, (p + n) as nat)),
                Err(f) => Err(f),
            }
        },
        Err(f) => Err(f),
    }
}

/// A byte string with a `u8` length prefix and no padding.
pub open spec fn parse_string8(b: Seq<u8>, pos: nat) -> Result<(Seq<u8>, nat), Fault> {
    match take_u8(b, pos) {
        Ok((n, p)) => take_bytes(b, p, n as nat),
        Err(f) => Err(f),
    }
}

pub open spec fn string16_item() -> spec_fn(Seq<u8>, nat) -> Result<(Seq<u8>, nat), Fault> {
    |b: Seq<u8>, p: nat| parse_string16(b, p)
}

pub open spec fn string8_item() -> spec_fn(Seq<u8>, nat) -> Result<(Seq<u8>, nat), Fault> {
    |b: Seq<u8>, p: nat| parse_string8(b, p)
}

pub open spec fn attr_item() -> spec_fn(Seq<u8>, nat) -> Result<(AttrView, nat), Fault> {
    format_item::<Attr>()
}

pub open spec fn ext_item() -> spec_fn(Seq<u8>, nat) -> Result<(ExtView, nat), Fault> {
    format_item::<Extension>()
}

/// A list whose `u16` byte length is followed by two unused bytes, then its body.
#[verifier::opaque]
pub open spec fn parse_list_after_gap<V>(
    item: spec_fn(Seq<u8>, nat) -> Result<(V, nat), Fault>,
    b: Seq<u8>,
    pos: nat,
) -> Result<(Seq<V>, nat), Fault> {
    match take_u16(b, pos) {
        Ok((n, p)) => match take_u16(b, p) {
            Ok((_, q)) => if q + n > b.len() {
                Err(Fault::EndOfStream)
            } else {
                match parse_items(item, b, q, (q + n) as nat) {
                    Ok(items) => Ok((items, (q + n) as nat)),
                    Err(f) => Err(f),
                }
            },
            Err(f) => Err(f),
        },
        Err(f) => Err(f),
    }
}

/// Reads a byte string with a `u8` length prefix.
#[verifier::spinoff_prover]
pub(crate) fn read_string8(reader: &mut Reader) -> (r: Result<XimString, ReadError>)
    requires
        old(reader).wf(),
    ensures
        final(reader).wf(),
        final(reader).data() == old(reader).data(),
        settles(r, final(reader).pos(), parse_string8(old(reader).data(), old(reader).pos())),
{
    let len = reader.u8()?;
    let bytes = reader.consume(len as usize)?;
    Ok(XimString(vstd::slice::slice_to_vec(bytes)))
}

/// Reads the `u16` byte length of a list and checks that its body is there.
#[verifier::spinoff_prover]
pub(crate) fn read_list_len(reader: &mut Reader) -> (r: Result<usize, ReadError>)
    requires
        old(reader).wf(),
    ensures
        final(reader).wf(),
        final(reader).data() == old(reader).data(),
        match take_u16(old(reader).data(), old(reader).pos()) {
            Ok((n, p)) => if p + n > old(reader).data().len() {
                r is Err && r->Err_0 is EndOfStream
            } else {
                r == Ok::<usize, ReadError>((p + n) as usize) && final(reader).pos() == p
            },
            Err(_) => r is Err && r->Err_0 is EndOfStream,
        },
{
    let len = reader.u16()?;
    let rest = reader.cursor();
    if (len as usize) > rest {
        Err(reader.eos())
    } else {
        Ok(reader.offset() + len as usize)
    }
}

/// Reads `u16`-prefixed padded strings up to `end`.
#[verifier::spinoff_prover]
pub(crate) fn read_string16_items(reader: &mut Reader, end: usize) -> (r: Result<Vec<XimString>, ReadError>)
    requires
        old(reader).wf(),
        old(reader).pos() <= end <= old(reader).data().len(),
    ensures
        final(reader).wf(),
        final(reader).data() == old(reader).data(),
        match parse_items(string16_item(), old(reader).data(), old(reader).pos(), end as nat) {
            Ok(items) => r is Ok && strings_view(r->Ok_0@) == items && final(reader).pos() == end,
            Err(f) => r is Err && crate::error::reports(r->Err_0, f),
        },
{
    let ghost b = reader.data();
    let ghost start = reader.pos();
    let mut sub = reader.limited(end);
    let mut out: Vec<XimString> = Vec::new();
    while sub.offset() < end
        invariant
            sub.wf(),
            sub.data() == b.take(end as int),
            start <= sub.pos() <= end,
            end <= b.len(),
            reader.wf(),
            reader.data() == b,
            reader.pos() == start,
            parse_items(string16_item(), b, start, end as nat) == prepend(
                strings_view(out@),
                parse_items(string16_item(), b, sub.pos(), end as nat),
            ),
        decreases end - sub.pos(),
    {
        let ghost here = sub.pos();
        let ghost before = out@;
        let s = match read_string16(&mut sub) {
            Ok(s) => s,
            Err(e) => {
                return Err(e);
            },
        };
        out.push(s);
        proof {
            assert(sub.pos() > here);
            assert(strings_view(out@) =~= strings_view(before).push(s@));
            let rest = parse_items(string16_item(), b, sub.pos(), end as nat);
            match rest {
                Ok(t) => {
                    assert(strings_view(before) + (seq![s@] + t) =~= strings_view(out@) + t);
                },
                Err(_) => {},
            }
        }
    }
    reader.seek(end);
    proof {
        assert(strings_view(out@) + seq![] =~= strings_view(out@));
    }
    Ok(out)
}

/// Reads `u8`-prefixed strings up to `end`.
#[verifier::spinoff_prover]
pub(crate) fn read_string8_items(reader: &mut Reader, end: usize) -> (r: Result<Vec<XimString>, ReadError>)
    requires
        old(reader).wf(),
        old(reader).pos() <= end <= old(reader).data().len(),
    ensures
        final(reader).wf(),
        final(reader).data() == old(reader).data(),
        match parse_items(string8_item(), old(reader).data(), old(reader).pos(), end as nat) {
            Ok(items) => r is Ok && strings_view(r->Ok_0@) == items && final(reader).pos() == end,
            Err(f) => r is Err && crate::error::reports(r->Err_0, f),
        },
{
    let ghost b = reader.data();
    let ghost start = reader.pos();
    let mut sub = reader.limited(end);
    let mut out: Vec<XimString> = Vec::new();
    while sub.offset() < end
        invariant
            sub.wf(),
            sub.data() == b.take(end as int),
            start <= sub.pos() <= end,
            end <= b.len(),
            reader.wf(),
            reader.data() == b,
            reader.pos() == start,
            parse_items(string8_item(), b, start, end as nat) == prepend(
                strings_view(out@),
                parse_items(string8_item(), b, sub.pos(), end as nat),
            ),
        decreases end - sub.pos(),
    {
        let ghost here = sub.pos();
        let ghost before = out@;
        let s = match read_string8(&mut sub) {
            Ok(s) => s,
            Err(e) => {
                return Err(e);
            },
        };
        out.push(s);
        proof {
            assert(sub.pos() > here);
            assert(strings_view(out@) =~= strings_view(before).push(s@));
            let rest = parse_items(string8_item(), b, sub.pos(), end as nat);
            match rest {
                Ok(t) => {
                    assert(strings_view(before) + (seq![s@] + t) =~= strings_view(out@) + t);
                },
                Err(_) => {},
            }
        }
    }
    reader.seek(end);
    proof {
        assert(strings_view(out@) + seq![] =~= strings_view(out@));
    }
    Ok(out)
}

/// Items written one after another, each by `w` at the buffer position where it starts.
pub open spec fn items_wire<V>(w: spec_fn(V, nat) -> Seq<u8>, s: Seq<V>, off: nat) -> Seq<u8>
    decreases s.len(),
{
    if s.len() == 0 {
        seq![]
    } else {
        let p = items_wire(w, s.drop_last(), off);
        p + w(s.last(), off + p.len())
    }
}

pub open spec fn string16_at() -> spec_fn(Seq<u8>, nat) -> Seq<u8> {
    |x: Seq<u8>, o: nat| string16_wire(x, o)
}

pub open spec fn string8_at() -> spec_fn(Seq<u8>, nat) -> Seq<u8> {
    |x: Seq<u8>, o: nat| seq![x.len() as u8] + x
}

pub open spec fn attr_at() -> spec_fn(AttrView, nat) -> Seq<u8> {
    format_at::<Attr>()
}

/// `u16`-prefixed padded strings, each written after those before it; the buffer holds `off` bytes.
pub open spec fn strings16_wire(s: Seq<Seq<u8>>, off: nat) -> Seq<u8> {
    items_wire(string16_at(), s, off)
}

/// The byte length of `u16`-prefixed padded strings at a four-aligned position.
pub open spec fn strings16_len(s: Seq<Seq<u8>>) -> nat
    decreases s.len(),
{
    if s.len() == 0 {
        0
    } else {
        strings16_len(s.drop_last()) + string16_wire(s.last(), 0).len()
    }
}

/// `u8`-prefixed strings packed one after another.
pub open spec fn strings8_wire(s: Seq<Seq<u8>>) -> Seq<u8> {
    items_wire(string8_at(), s, 0)
}

/// The byte length of `u8`-prefixed strings packed one after another.
pub open spec fn strings8_len(s: Seq<Seq<u8>>) -> nat
    decreases s.len(),
{
    if s.len() == 0 {
        0
    } else {
        strings8_len(s.drop_last()) + 1 + s.last().len()
    }
}

/// Attributes, each written after those before it; the buffer holds `off` bytes.
pub open spec fn attrs_wire(s: Seq<AttrView>, off: nat) -> Seq<u8> {
    items_wire(attr_at(), s, off)
}

/// The byte length of these items at a four-aligned position.
pub open spec fn attrs_len(s: Seq<AttrView>) -> nat {
    formats_len::<Attr>(s)
}

/// Padding at a four-aligned position depends only on what follows it.
#[verifier::spinoff_prover]
pub proof fn lemma_pad_shift(off: nat, n: nat)
    requires
        off % 4 == 0,
    ensures
        pad_len(off + n) == pad_len(n),
{
    assert((off + n) % 4 == n % 4) by {
        vstd::arithmetic::div_mod::lemma_add_mod_noop(off as int, n as int, 4);
    }
}

#[verifier::spinoff_prover]
pub(crate) proof fn lemma_strings16_len_mono(s: Seq<Seq<u8>>, i: int)
    requires
        0 <= i <= s.len(),
    ensures
        strings16_len(s.take(i)) <= strings16_len(s),
    decreases s.len() - i,
{
    if i < s.len() {
        lemma_strings16_len_mono(s, i + 1);
        assert(s.take(i + 1).drop_last() =~= s.take(i));
    } else {
        assert(s.take(i) =~= s);
    }
}

#[verifier::spinoff_prover]
pub(crate) proof fn lemma_strings8_len_mono(s: Seq<Seq<u8>>, i: int)
    requires
        0 <= i <= s.len(),
    ensures
        strings8_len(s.take(i)) <= strings8_len(s),
    decreases s.len() - i,
{
    if i < s.len() {
        lemma_strings8_len_mono(s, i + 1);
        assert(s.take(i + 1).drop_last() =~= s.take(i));
    } else {
        assert(s.take(i) =~= s);
    }
}

/// The byte length of `u16`-prefixed padded strings.
pub(crate) fn strings16_total(v: &Vec<XimString>) -> (r: usize)
    requires
        strings16_len(strings_view(v@)) <= 0xffff,
    ensures
        r == strings16_len(strings_view(v@)),
{
    let ghost sv = strings_view(v@);
    let mut total: usize = 0;
    let mut i: usize = 0;
    while i < v.len()
        invariant
            i <= v@.len(),
            sv == strings_view(v@),
            strings16_len(sv) <= 0xffff,
            total == strings16_len(sv.take(i as int)),
        decreases v@.len() - i,
    {
        proof {
            assert(sv.take(i + 1).drop_last() =~= sv.take(i as int));
            lemma_strings16_len_mono(sv, i + 1);
        }
        total = total + string16_size(&v[i]);
        i = i + 1;
    }
    assert(sv.take(i as int) =~= sv);
    total
}

/// The byte length of `u8`-prefixed strings.
pub(crate) fn strings8_total(v: &Vec<XimString>) -> (r: usize)
    requires
        strings8_len(strings_view(v@)) <= 0xffff,
    ensures
        r == strings8_len(strings_view(v@)),
{
    let ghost sv = strings_view(v@);
    let mut total: usize = 0;
    let mut i: usize = 0;
    while i < v.len()
        invariant
            i <= v@.len(),
            sv == strings_view(v@),
            strings8_len(sv) <= 0xffff,
            total == strings8_len(sv.take(i as int)),
        decreases v@.len() - i,
    {
        proof {
            assert(sv.take(i + 1).drop_last() =~= sv.take(i as int));
            lemma_strings8_len_mono(sv, i + 1);
        }
        total = total + 1 + v[i].0.len();
        i = i + 1;
    }
    assert(sv.take(i as int) =~= sv);
    total
}

#[verifier::spinoff_prover]
pub(crate) fn write_string16_items(v: &Vec<XimString>, writer: &mut Writer)
    requires
        forall|i: int| 0 <= i < v@.len() ==> #[trigger] strings_view(v@)[i].len() <= 0xffff,
    ensures
        final(writer).bytes() == old(writer).bytes() + strings16_wire(
            strings_view(v@),
            old(writer).bytes().len(),
        ),
{
    let ghost start = writer.bytes();
    let ghost sv = strings_view(v@);
    let mut i: usize = 0;
    while i < v.len()
        invariant
            i <= v@.len(),
            sv == strings_view(v@),
            forall|k: int| 0 <= k < v@.len() ==> #[trigger] strings_view(v@)[k].len() <= 0xffff,
            writer.bytes() == start + strings16_wire(sv.take(i as int), start.len()),
        decreases v@.len() - i,
    {
        assert(sv.take(i + 1).drop_last() =~= sv.take(i as int));
        assert(strings_view(v@)[i as int] == v@[i as int]@);
        write_string16(&v[i], writer);
        i = i + 1;
    }
    assert(sv.take(i as int) =~= sv);
}

#[verifier::spinoff_prover]
pub(crate) fn write_string8_items(v: &Vec<XimString>, writer: &mut Writer)
    requires
        forall|i: int| 0 <= i < v@.len() ==> #[trigger] strings_view(v@)[i].len() <= 0xff,
    ensures
        final(writer).bytes() == old(writer).bytes() + strings8_wire(strings_view(v@)),
{
    let ghost start = writer.bytes();
    let ghost sv = strings_view(v@);
    let mut i: usize = 0;
    while i < v.len()
        invariant
            i <= v@.len(),
            sv == strings_view(v@),
            forall|k: int| 0 <= k < v@.len() ==> #[trigger] strings_view(v@)[k].len() <= 0xff,
            writer.bytes() == start + strings8_wire(sv.take(i as int)),
        decreases v@.len() - i,
    {
        assert(sv.take(i + 1).drop_last() =~= sv.take(i as int));
        writer.write_u8(v[i].0.len() as u8);
        writer.write(v[i].0.as_slice());
        i = i + 1;
    }
    assert(sv.take(i as int) =~= sv);
}

#[verifier::spinoff_prover]
pub(crate) proof fn lemma_string16_wire_len(x: Seq<u8>, off: nat)
    requires
        off % 4 == 0,
    ensures
        string16_wire(x, off).len() == string16_wire(x, 0).len(),
        string16_wire(x, 0).len() % 4 == 0,
{
    lemma_pad_shift(off, 2 + x.len());
    lemma_pad_len(2 + x.len());
}

#[verifier::spinoff_prover]
pub(crate) proof fn lemma_attr_wire_len(a: AttrView, off: nat)
    requires
        off % 4 == 0,
    ensures
        Attr::wire(a, off).len() == Attr::wire(a, 0).len(),
        Attr::wire(a, 0).len() % 4 == 0,
{
    lemma_pad_shift(off, 6 + a.name.len());
    lemma_pad_len(6 + a.name.len());
}

/// At a four-aligned position the strings take their aligned length, a multiple of four.
#[verifier::spinoff_prover]
pub(crate) proof fn lemma_strings16_wire_len(s: Seq<Seq<u8>>, off: nat)
    requires
        off % 4 == 0,
    ensures
        strings16_wire(s, off).len() == strings16_len(s),
        strings16_len(s) % 4 == 0,
    decreases s.len(),
{
    if s.len() > 0 {
        lemma_strings16_wire_len(s.drop_last(), off);
        let p = strings16_wire(s.drop_last(), off);
        lemma_string16_wire_len(s.last(), off + p.len());
    }
}

/// At a four-aligned position the attributes take their aligned length, a multiple of four.
#[verifier::spinoff_prover]
pub(crate) proof fn lemma_attrs_wire_len(s: Seq<AttrView>, off: nat)
    requires
        off % 4 == 0,
    ensures
        attrs_wire(s, off).len() == attrs_len(s),
        attrs_len(s) % 4 == 0,
    decreases s.len(),
{
    if s.len() > 0 {
        lemma_attrs_wire_len(s.drop_last(), off);
        let p = attrs_wire(s.drop_last(), off);
        lemma_attr_wire_len(s.last(), off + p.len());
    }
}

#[verifier::spinoff_prover]
pub(crate) proof fn lemma_strings8_wire_len(s: Seq<Seq<u8>>)
    ensures
        strings8_wire(s).len() == strings8_len(s),
    decreases s.len(),
{
    if s.len() > 0 {
        lemma_strings8_wire_len(s.drop_last());
    }
}

pub open spec fn ext_at() -> spec_fn(ExtView, nat) -> Seq<u8> {
    format_at::<Extension>()
}

/// Extensions, each written after those before it; the buffer holds `off` bytes.
pub open spec fn exts_wire(s: Seq<ExtView>, off: nat) -> Seq<u8> {
    items_wire(ext_at(), s, off)
}

/// The byte length of these items at a four-aligned position.
pub open spec fn exts_len(s: Seq<ExtView>) -> nat {
    formats_len::<Extension>(s)
}

/// At a four-aligned position the extensions take their aligned length, a multiple of four.
#[verifier::spinoff_prover]
pub(crate) proof fn lemma_exts_wire_len(s: Seq<ExtView>, off: nat)
    requires
        off % 4 == 0,
    ensures
        exts_wire(s, off).len() == exts_len(s),
        exts_len(s) % 4 == 0,
    decreases s.len(),
{
    if s.len() > 0 {
        lemma_exts_wire_len(s.drop_last(), off);
        let p = exts_wire(s.drop_last(), off);
        lemma_ext_wire_len(s.last(), off + p.len());
    }
}

pub open spec fn exts_view(v: Seq<Extension>) -> Seq<ExtView> {
    formats_view(v)
}

#[verifier::spinoff_prover]
pub(crate) proof fn lemma_ext_wire_len(e: ExtView, off: nat)
    requires
        off % 4 == 0,
    ensures
        Extension::wire(e, off).len() == Extension::wire(e, 0).len(),
        Extension::wire(e, 0).len() % 4 == 0,
{
    lemma_pad_shift(off, 4 + e.name.len());
    lemma_pad_len(4 + e.name.len());
}

/// Reads the `u16` byte length of a list and the two unused bytes after it,
/// and checks that the list body is there.
#[verifier::spinoff_prover]
pub(crate) fn read_gap_list_len(reader: &mut Reader) -> (r: Result<usize, ReadError>)
    requires
        old(reader).wf(),
    ensures
        final(reader).wf(),
        final(reader).data() == old(reader).data(),
        match take_u16(old(reader).data(), old(reader).pos()) {
            Ok((n, p)) => match take_u16(old(reader).data(), p) {
                Ok((_, q)) => if q + n > old(reader).data().len() {
                    r is Err && r->Err_0 is EndOfStream
                } else {
                    r == Ok::<usize, ReadError>((q + n) as usize) && final(reader).pos() == q
                },
                Err(_) => r is Err && r->Err_0 is EndOfStream,
            },
            Err(_) => r is Err && r->Err_0 is EndOfStream,
        },
{
    let len = reader.u16()?;
    reader.u16()?;
    let rest = reader.cursor();
    if (len as usize) > rest {
        Err(reader.eos())
    } else {
        Ok(reader.offset() + len as usize)
    }
}

pub open spec fn value_item() -> spec_fn(Seq<u8>, nat) -> Result<(AttrValueView, nat), Fault> {
    format_item::<AttrValue>()
}

pub open spec fn value_at() -> spec_fn(AttrValueView, nat) -> Seq<u8> {
    format_at::<AttrValue>()
}

/// AttrValues, each written after those before it; the buffer holds `off` bytes.
pub open spec fn values_wire(s: Seq<AttrValueView>, off: nat) -> Seq<u8> {
    items_wire(value_at(), s, off)
}

/// The byte length of these items at a four-aligned position.
pub open spec fn values_len(s: Seq<AttrValueView>) -> nat {
    formats_len::<AttrValue>(s)
}

/// At a four-aligned position the attribute values take their aligned length, a multiple of four.
#[verifier::spinoff_prover]
pub(crate) proof fn lemma_values_wire_len(s: Seq<AttrValueView>, off: nat)
    requires
        off % 4 == 0,
    ensures
        values_wire(s, off).len() == values_len(s),
        values_len(s) % 4 == 0,
    decreases s.len(),
{
    if s.len() > 0 {
        lemma_values_wire_len(s.drop_last(), off);
        let p = values_wire(s.drop_last(), off);
        lemma_value_wire_len(s.last(), off + p.len());
    }
}

pub open spec fn values_view(v: Seq<AttrValue>) -> Seq<AttrValueView> {
    formats_view(v)
}

#[verifier::spinoff_prover]
pub(crate) proof fn lemma_value_wire_len(e: AttrValueView, off: nat)
    requires
        off % 4 == 0,
    ensures
        AttrValue::wire(e, off).len() == AttrValue::wire(e, 0).len(),
        AttrValue::wire(e, 0).len() % 4 == 0,
{
    lemma_pad_shift(off, 4 + e.value.len());
    lemma_pad_len(4 + e.value.len());
}

/// Items of a wire type, each read by the type's own parser.
pub open spec fn format_item<T: XimFormat>() -> spec_fn(Seq<u8>, nat) -> Result<(T::V, nat), Fault> {
    |b: Seq<u8>, p: nat| T::parse(b, p)
}

/// Items of a wire type, each written in the type's own form.
pub open spec fn format_at<T: XimFormat>() -> spec_fn(T::V, nat) -> Seq<u8> {
    |x: T::V, o: nat| T::wire(x, o)
}

/// The views of the items.
pub open spec fn formats_view<T: View>(v: Seq<T>) -> Seq<T::V> {
    v.map_values(|x: T| x@)
}

/// The byte length of items of a wire type at a four-aligned position.
pub open spec fn formats_len<T: XimFormat>(s: Seq<T::V>) -> nat
    decreases s.len(),
{
    if s.len() == 0 {
        0
    } else {
        formats_len::<T>(s.drop_last()) + T::wire(s.last(), 0).len()
    }
}

#[verifier::spinoff_prover]
proof fn lemma_formats_len_mono<T: XimFormat>(s: Seq<T::V>, i: int)
    requires
        0 <= i <= s.len(),
    ensures
        formats_len::<T>(s.take(i)) <= formats_len::<T>(s),
    decreases s.len() - i,
{
    if i < s.len() {
        lemma_formats_len_mono::<T>(s, i + 1);
        assert(s.take(i + 1).drop_last() =~= s.take(i));
    } else {
        assert(s.take(i) =~= s);
    }
}

/// Reads items of a wire type up to `end`.
#[verifier::spinoff_prover]
pub(crate) fn read_format_items<T: XimFormat>(reader: &mut Reader, end: usize) -> (r: Result<Vec<T>, ReadError>)
    requires
        old(reader).wf(),
        old(reader).pos() <= end <= old(reader).data().len(),
    ensures
        final(reader).wf(),
        final(reader).data() == old(reader).data(),
        match parse_items(format_item::<T>(), old(reader).data(), old(reader).pos(), end as nat) {
            Ok(items) => r is Ok && formats_view(r->Ok_0@) == items && final(reader).pos() == end,
            Err(f) => r is Err && crate::error::reports(r->Err_0, f),
        },
{
    let ghost b = reader.data();
    let ghost start = reader.pos();
    let mut sub = reader.limited(end);
    let mut out: Vec<T> = Vec::new();
    while sub.offset() < end
        invariant
            sub.wf(),
            sub.data() == b.take(end as int),
            start <= sub.pos() <= end,
            end <= b.len(),
            reader.wf(),
            reader.data() == b,
            reader.pos() == start,
            parse_items(format_item::<T>(), b, start, end as nat) == prepend(
                formats_view(out@),
                parse_items(format_item::<T>(), b, sub.pos(), end as nat),
            ),
        decreases end - sub.pos(),
    {
        let here = sub.offset();
        let ghost before = out@;
        let s = match T::read(&mut sub) {
            Ok(s) => s,
            Err(e) => {
                return Err(e);
            },
        };
        if sub.offset() <= here {
            return Err(sub.eos());
        }
        out.push(s);
        proof {
            assert(formats_view(out@) =~= formats_view(before).push(s@));
            let rest = parse_items(format_item::<T>(), b, sub.pos(), end as nat);
            match rest {
                Ok(t) => {
                    assert(formats_view(before) + (seq![s@] + t) =~= formats_view(out@) + t);
                },
                Err(_) => {},
            }
        }
    }
    reader.seek(end);
    proof {
        assert(formats_view(out@) + seq![] =~= formats_view(out@));
    }
    Ok(out)
}

/// The byte length of items of a wire type.
pub(crate) fn formats_total<T: XimFormat>(v: &Vec<T>) -> (r: usize)
    requires
        formats_len::<T>(formats_view(v@)) <= 0xffff,
        forall|i: int| 0 <= i < v@.len() ==> T::fits(#[trigger] formats_view(v@)[i]),
    ensures
        r == formats_len::<T>(formats_view(v@)),
{
    let ghost sv = formats_view(v@);
    let mut total: usize = 0;
    let mut i: usize = 0;
    while i < v.len()
        invariant
            i <= v@.len(),
            sv == formats_view(v@),
            formats_len::<T>(sv) <= 0xffff,
            forall|k: int| 0 <= k < v@.len() ==> T::fits(#[trigger] formats_view(v@)[k]),
            total == formats_len::<T>(sv.take(i as int)),
        decreases v@.len() - i,
    {
        proof {
            assert(sv.take(i + 1).drop_last() =~= sv.take(i as int));
            assert(sv[i as int] == v@[i as int]@);
            lemma_formats_len_mono::<T>(sv, i + 1);
        }
        total = total + v[i].size();
        i = i + 1;
    }
    assert(sv.take(i as int) =~= sv);
    total
}

/// Writes items of a wire type one after another.
#[verifier::spinoff_prover]
pub(crate) fn write_format_items<T: XimFormat>(v: &Vec<T>, writer: &mut Writer)
    requires
        forall|i: int| 0 <= i < v@.len() ==> T::fits(#[trigger] formats_view(v@)[i]),
    ensures
        final(writer).bytes() == old(writer).bytes() + items_wire(
            format_at::<T>(),
            formats_view(v@),
            old(writer).bytes().len(),
        ),
{
    let ghost start = writer.bytes();
    let ghost sv = formats_view(v@);
    let mut i: usize = 0;
    while i < v.len()
        invariant
            i <= v@.len(),
            sv == formats_view(v@),
            forall|k: int| 0 <= k < v@.len() ==> T::fits(#[trigger] formats_view(v@)[k]),
            writer.bytes() == start + items_wire(format_at::<T>(), sv.take(i as int), start.len()),
        decreases v@.len() - i,
    {
        assert(sv.take(i + 1).drop_last() =~= sv.take(i as int));
        assert(formats_view(v@)[i as int] == v@[i as int]@);
        v[i].write(writer);
        i = i + 1;
    }
    assert(sv.take(i as int) =~= sv);
}

} // verus!
