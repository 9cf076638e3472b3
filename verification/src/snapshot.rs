//! The snapshot builder: merging every exchange's table into one JSON
//! document with a fully specified byte-level rendering.
//!
//! The document shape is fixed:
//! `{"data":[{"name":"<name>","BTC":{"buy":b,"sell":s},"ETH":{...}},...]}`
//! with prices rendered by `render_units`. Because the shape is fixed and
//! the rendering is verified, serialization can only be refused — never
//! emit a corrupt document — and it is refused exactly when a table name
//! would break the JSON string syntax.

use vstd::prelude::*;
use vstd::string::StringSliceAdditionalSpecFns;
use crate::model::{ExchangeQuoteTable, SerializationError};
use crate::price::render_units;

verus! {

/// A byte that may stand unescaped inside a JSON string: printable
/// ASCII, no quote, no backslash.
pub open spec fn json_safe_byte(b: u8) -> bool {
    32 <= b && b <= 126 && b != 34 && b != 92
}

/// A table whose name can be embedded verbatim in the document.
pub open spec fn wf_table(t: ExchangeQuoteTable) -> bool {
    forall|i: int| 0 <= i < t.name@.len() ==> json_safe_byte(#[trigger] t.name@[i])
}

pub open spec fn wf_tables(ts: Seq<ExchangeQuoteTable>) -> bool {
    forall|i: int| 0 <= i < ts.len() ==> wf_table(#[trigger] ts[i])
}

/// One quote object: `{"buy":<b>,"sell":<s>}`.
pub open spec fn render_quote(q: crate::model::Quote) -> Seq<u8> {
    "{\"buy\":".spec_bytes() + render_units(q.buy.units as nat) + ",\"sell\":".spec_bytes()
        + render_units(q.sell.units as nat) + seq![125u8]
}

/// One exchange entry: name first, then the symbols in enumeration order.
pub open spec fn render_table(t: ExchangeQuoteTable) -> Seq<u8> {
    "{\"name\":\"".spec_bytes() + t.name@ + "\",\"BTC\":".spec_bytes() + render_quote(t.btc)
        + ",\"ETH\":".spec_bytes() + render_quote(t.eth) + seq![125u8]
}

/// The comma-separated entries from index `i` on.
pub open spec fn render_tables_from(ts: Seq<ExchangeQuoteTable>, i: int) -> Seq<u8>
    decreases ts.len() - i,
{
    if 0 <= i < ts.len() {
        if i + 1 == ts.len() {
            render_table(ts[i])
        } else {
            render_table(ts[i]) + seq![44u8] + render_tables_from(ts, i + 1)
        }
    } else {
        Seq::empty()
    }
}

/// The whole document.
pub open spec fn render_doc(ts: Seq<ExchangeQuoteTable>) -> Seq<u8> {
    "{\"data\":[".spec_bytes() + render_tables_from(ts, 0) + "]}".spec_bytes()
}

/// A byte string that is the rendering of some well-formed table
/// sequence: what the cache is allowed to hold, and therefore the only
/// thing a reader can ever observe — one complete document from one
/// build, never a mixture.
pub open spec fn valid_snapshot_doc(d: Seq<u8>) -> bool {
    exists|ts: Seq<ExchangeQuoteTable>| wf_tables(ts) && d == #[trigger] render_doc(ts)
}

/// Append a literal's bytes.
pub(crate) fn push_lit(out: &mut Vec<u8>, s: &str)
    ensures
        final(out)@ == old(out)@ + s.spec_bytes(),
{
    let bytes = s.as_bytes();
    let n = bytes.len();
    let mut i: usize = 0;
    while i < n
        invariant
            n == bytes@.len(),
            0 <= i <= n,
            bytes@ == s.spec_bytes(),
            out@ == old(out)@ + bytes@.take(i as int),
        decreases n - i,
    {
        out.push(bytes[i]);
        assert(out@ =~= old(out)@ + bytes@.take(i as int + 1));
        i = i + 1;
    }
    assert(bytes@.take(n as int) =~= bytes@);
}

/// Append a byte vector.
fn push_vec(out: &mut Vec<u8>, v: &Vec<u8>)
    ensures
        final(out)@ == old(out)@ + v@,
{
    let n = v.len();
    let mut i: usize = 0;
    while i < n
        invariant
            n == v@.len(),
            0 <= i <= n,
            out@ == old(out)@ + v@.take(i as int),
        decreases n - i,
    {
        out.push(v[i]);
        assert(out@ =~= old(out)@ + v@.take(i as int + 1));
        i = i + 1;
    }
    assert(v@.take(n as int) =~= v@);
}

fn push_quote(q: crate::model::Quote, out: &mut Vec<u8>)
    ensures
        final(out)@ == old(out)@ + render_quote(q),
{
    push_lit(out, "{\"buy\":");
    crate::price::push_price(q.buy, out);
    push_lit(out, ",\"sell\":");
    crate::price::push_price(q.sell, out);
    out.push(125);
    assert(out@ =~= old(out)@ + render_quote(q));
}

fn push_table(t: &ExchangeQuoteTable, out: &mut Vec<u8>)
    ensures
        final(out)@ == old(out)@ + render_table(*t),
{
    push_lit(out, "{\"name\":\"");
    push_vec(out, &t.name);
    push_lit(out, "\",\"BTC\":");
    push_quote(t.btc, out);
    push_lit(out, ",\"ETH\":");
    push_quote(t.eth, out);
    out.push(125);
    assert(out@ =~= old(out)@ + render_table(*t));
}

fn push_tables_from(ts: &Vec<ExchangeQuoteTable>, i: usize, out: &mut Vec<u8>)
    requires
        i <= ts@.len(),
    ensures
        final(out)@ == old(out)@ + render_tables_from(ts@, i as int),
    decreases ts@.len() - i,
{
    if i < ts.len() {
        push_table(&ts[i], out);
        if i + 1 < ts.len() {
            out.push(44);
            push_tables_from(ts, i + 1, out);
        }
        assert(out@ =~= old(out)@ + render_tables_from(ts@, i as int));
    } else {
        assert(out@ =~= old(out)@ + render_tables_from(ts@, i as int));
    }
}

/// Whether a name can be embedded in the document.
fn name_is_safe(v: &Vec<u8>) -> (b: bool)
    ensures
        b == forall|i: int| 0 <= i < v@.len() ==> json_safe_byte(#[trigger] v@[i]),
{
    let n = v.len();
    let mut i: usize = 0;
    while i < n
        invariant
            n == v@.len(),
            0 <= i <= n,
            forall|j: int| 0 <= j < i ==> json_safe_byte(#[trigger] v@[j]),
        decreases n - i,
    {
        let b = v[i];
        if b < 32 || b > 126 || b == 34 || b == 92 {
            return false;
        }
        i = i + 1;
    }
    true
}

/// Merge the tables, in the order given, into one serialized document.
///
/// Succeeds exactly when every table is well formed; the produced bytes
/// are precisely `render_doc` of the input. A failure is a broken
/// invariant somewhere else — the caller must skip that cycle's publish
/// rather than publish corrupt data.
pub fn build_snapshot(tables: &Vec<ExchangeQuoteTable>) -> (r: Result<Vec<u8>, SerializationError>)
    ensures
        r is Ok <==> wf_tables(tables@),
        r matches Ok(d) ==> d@ == render_doc(tables@) && valid_snapshot_doc(d@),
{
    let n = tables.len();
    let mut i: usize = 0;
    while i < n
        invariant
            n == tables@.len(),
            0 <= i <= n,
            forall|j: int| 0 <= j < i ==> wf_table(#[trigger] tables@[j]),
        decreases n - i,
    {
        if !name_is_safe(&tables[i].name) {
            assert(!wf_table(tables@[i as int]));
            return Err(SerializationError::Defect);
        }
        i = i + 1;
    }
    let mut out: Vec<u8> = Vec::new();
    push_lit(&mut out, "{\"data\":[");
    push_tables_from(tables, 0, &mut out);
    push_lit(&mut out, "]}");
    proof {
        assert(out@ =~= render_doc(tables@));
    }
    Ok(out)
}

} // verus!
