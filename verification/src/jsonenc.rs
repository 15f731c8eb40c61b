//! The canonical JSON encoding of transactions, blocks and the chain
//! document: compact, fields in declaration order, strings escaped as the
//! standard JSON encoder does. The block header preimage of the
//! proof-of-work hash is the same encoding restricted to the header fields.

use vstd::prelude::*;
use vstd::string::*;
use vstd::utf8::encode_utf8;
use crate::decfmt::{dec_bytes, dec_bytes_i64, push_dec_u64, push_dec_i64};
use crate::model::{Transaction, Block, Blockchain, TransactionModel, BlockModel, BlockchainModel,
    tx_views, block_views};

verus! {

/// The UTF-8 bytes of a literal piece of the document.
pub open spec fn lit_bytes(s: Seq<char>) -> Seq<u8> {
    encode_utf8(s)
}

/// The lowercase hex digit byte for a nibble value.
pub open spec fn hex_digit_byte(d: u8) -> u8
    recommends
        d < 16,
{
    if d < 10 {
        (48 + d) as u8
    } else {
        (87 + d) as u8
    }
}

/// How one byte of string content appears on the wire: quote and backslash
/// get a two-byte escape, the named control characters their short escapes,
/// other control bytes a `\u00XX` escape, and everything else passes through.
pub open spec fn esc_byte(b: u8) -> Seq<u8> {
    if b == 34 {
        seq![92u8, 34u8]
    } else if b == 92 {
        seq![92u8, 92u8]
    } else if b == 8 {
        seq![92u8, 98u8]
    } else if b == 9 {
        seq![92u8, 116u8]
    } else if b == 10 {
        seq![92u8, 110u8]
    } else if b == 12 {
        seq![92u8, 102u8]
    } else if b == 13 {
        seq![92u8, 114u8]
    } else if b < 32 {
        seq![92u8, 117u8, 48u8, 48u8, hex_digit_byte(b / 16), hex_digit_byte(b % 16)]
    } else {
        seq![b]
    }
}

/// The escaped form of a whole byte string.
pub open spec fn esc_bytes(s: Seq<u8>) -> Seq<u8>
    decreases s.len(),
{
    if s.len() == 0 {
        Seq::empty()
    } else {
        esc_byte(s[0]) + esc_bytes(s.drop_first())
    }
}

pub proof fn lemma_esc_bytes_push(s: Seq<u8>, b: u8)
    ensures
        esc_bytes(s.push(b)) =~= esc_bytes(s) + esc_byte(b),
    decreases s.len(),
{
    if s.len() == 0 {
        assert(s.push(b).drop_first() =~= Seq::<u8>::empty());
        assert(esc_bytes(Seq::<u8>::empty()) =~= Seq::<u8>::empty());
    } else {
        assert(s.push(b).drop_first() =~= s.drop_first().push(b));
        lemma_esc_bytes_push(s.drop_first(), b);
    }
}

/// Bytes that pass through escaping unchanged: printable, no quote, no
/// backslash.
pub open spec fn plain_bytes(e: Seq<u8>) -> bool {
    forall|j: int| 0 <= j < e.len() ==> 32 <= #[trigger] e[j] && e[j] != 34 && e[j] != 92
}

/// Escaping is the identity on plain bytes.
pub proof fn lemma_esc_bytes_plain(e: Seq<u8>)
    requires
        plain_bytes(e),
    ensures
        esc_bytes(e) == e,
    decreases e.len(),
{
    if e.len() > 0 {
        assert(plain_bytes(e.drop_first())) by {
            assert(forall|j: int|
                0 <= j < e.drop_first().len() ==> e.drop_first()[j] == #[trigger] e[j + 1]);
        }
        lemma_esc_bytes_plain(e.drop_first());
        assert(esc_byte(e[0]) =~= seq![e[0]]);
        assert(esc_bytes(e) =~= e);
    }
}

/// A JSON string token: the escaped UTF-8 bytes between two quotes.
pub open spec fn json_string_enc(chars: Seq<char>) -> Seq<u8> {
    seq![34u8] + esc_bytes(encode_utf8(chars)) + seq![34u8]
}

/// A transaction object.
#[verifier::opaque]
pub open spec fn tx_enc(t: TransactionModel) -> Seq<u8> {
    lit_bytes("{\"from\":"@) + json_string_enc(t.from) + lit_bytes(",\"pub_key\":"@)
        + json_string_enc(t.pub_key) + lit_bytes(",\"to\":"@) + json_string_enc(t.to) + lit_bytes(
        ",\"amount\":"@,
    ) + dec_bytes_i64(t.amount) + lit_bytes(",\"signature\":"@) + json_string_enc(t.signature)
        + lit_bytes("}"@)
}

/// The comma-separated items of a transaction array.
pub open spec fn txs_items(ts: Seq<TransactionModel>) -> Seq<u8>
    decreases ts.len(),
{
    if ts.len() == 0 {
        Seq::empty()
    } else if ts.len() == 1 {
        tx_enc(ts[0])
    } else {
        tx_enc(ts[0]) + seq![44u8] + txs_items(ts.drop_first())
    }
}

pub proof fn lemma_txs_items_push(ts: Seq<TransactionModel>, t: TransactionModel)
    ensures
        ts.len() == 0 ==> txs_items(ts.push(t)) =~= tx_enc(t),
        ts.len() > 0 ==> txs_items(ts.push(t)) =~= txs_items(ts) + seq![44u8] + tx_enc(t),
    decreases ts.len(),
{
    if ts.len() == 0 {
    } else {
        assert(ts.push(t).drop_first() =~= ts.drop_first().push(t));
        lemma_txs_items_push(ts.drop_first(), t);
    }
}

/// A transaction array.
pub open spec fn txs_enc(ts: Seq<TransactionModel>) -> Seq<u8> {
    seq![91u8] + txs_items(ts) + seq![93u8]
}

/// The header preimage of a block: the canonical object holding `index`,
/// `timestamp`, `transactions`, `prev_hash` and `nonce`. Neither `hash` nor
/// `difficulty` is part of it.
#[verifier::opaque]
pub open spec fn preimage_enc(b: BlockModel) -> Seq<u8> {
    lit_bytes("{\"index\":"@) + dec_bytes(b.index as nat) + lit_bytes(",\"timestamp\":"@)
        + dec_bytes(b.timestamp as nat) + lit_bytes(",\"transactions\":"@) + txs_enc(b.transactions)
        + lit_bytes(",\"prev_hash\":"@) + json_string_enc(b.prev_hash) + lit_bytes(",\"nonce\":"@)
        + dec_bytes(b.nonce as nat) + lit_bytes("}"@)
}

/// A whole block object.
#[verifier::opaque]
pub open spec fn block_enc(b: BlockModel) -> Seq<u8> {
    lit_bytes("{\"index\":"@) + dec_bytes(b.index as nat) + lit_bytes(",\"timestamp\":"@)
        + dec_bytes(b.timestamp as nat) + lit_bytes(",\"transactions\":"@) + txs_enc(b.transactions)
        + lit_bytes(",\"prev_hash\":"@) + json_string_enc(b.prev_hash) + lit_bytes(",\"hash\":"@)
        + json_string_enc(b.hash) + lit_bytes(",\"nonce\":"@) + dec_bytes(b.nonce as nat)
        + lit_bytes(",\"difficulty\":"@) + dec_bytes(b.difficulty as nat) + lit_bytes("}"@)
}

/// The comma-separated items of the block array.
pub open spec fn blocks_items(bs: Seq<BlockModel>) -> Seq<u8>
    decreases bs.len(),
{
    if bs.len() == 0 {
        Seq::empty()
    } else if bs.len() == 1 {
        block_enc(bs[0])
    } else {
        block_enc(bs[0]) + seq![44u8] + blocks_items(bs.drop_first())
    }
}

pub proof fn lemma_blocks_items_push(bs: Seq<BlockModel>, b: BlockModel)
    ensures
        bs.len() == 0 ==> blocks_items(bs.push(b)) =~= block_enc(b),
        bs.len() > 0 ==> blocks_items(bs.push(b)) =~= blocks_items(bs) + seq![44u8] + block_enc(b),
    decreases bs.len(),
{
    if bs.len() == 0 {
    } else {
        assert(bs.push(b).drop_first() =~= bs.drop_first().push(b));
        lemma_blocks_items_push(bs.drop_first(), b);
    }
}

/// The persisted chain document.
#[verifier::opaque]
pub open spec fn chain_enc(c: BlockchainModel) -> Seq<u8> {
    lit_bytes("{\"chain\":["@) + blocks_items(c.chain) + lit_bytes("],\"target_block_time\":"@)
        + dec_bytes_i64(c.target_block_time) + lit_bytes("}"@)
}

/// Append the UTF-8 bytes of a literal piece.
pub fn push_lit(out: &mut Vec<u8>, s: &str)
    ensures
        final(out)@ =~= old(out)@ + lit_bytes(s@),
{
    let mut bs = s.as_bytes_vec();
    out.append(&mut bs);
}

/// Append a JSON string token for `s`.
pub fn push_json_string(out: &mut Vec<u8>, s: &str)
    ensures
        final(out)@ =~= old(out)@ + json_string_enc(s@),
{
    out.push(34);
    let bs = s.as_bytes_vec();
    let mut i: usize = 0;
    while i < bs.len()
        invariant
            bs@ == encode_utf8(s@),
            i <= bs@.len(),
            out@ =~= old(out)@ + seq![34u8] + esc_bytes(bs@.subrange(0, i as int)),
        decreases bs@.len() - i,
    {
        let b = bs[i];
        if b == 34 {
            out.push(92);
            out.push(34);
        } else if b == 92 {
            out.push(92);
            out.push(92);
        } else if b == 8 {
            out.push(92);
            out.push(98);
        } else if b == 9 {
            out.push(92);
            out.push(116);
        } else if b == 10 {
            out.push(92);
            out.push(110);
        } else if b == 12 {
            out.push(92);
            out.push(102);
        } else if b == 13 {
            out.push(92);
            out.push(114);
        } else if b < 32 {
            out.push(92);
            out.push(117);
            out.push(48);
            out.push(48);
            let hi = b / 16;
            let lo = b % 16;
            out.push(if hi < 10 { 48 + hi } else { 87 + hi });
            out.push(if lo < 10 { 48 + lo } else { 87 + lo });
        } else {
            out.push(b);
        }
        proof {
            assert(bs@.subrange(0, i + 1).drop_last() =~= bs@.subrange(0, i as int));
            lemma_esc_bytes_push(bs@.subrange(0, i as int), b);
            assert(bs@.subrange(0, i + 1) =~= bs@.subrange(0, i as int).push(b));
        }
        i = i + 1;
        proof {
            assert(out@ =~= old(out)@ + seq![34u8] + esc_bytes(bs@.subrange(0, i as int)));
        }
    }
    out.push(34);
    proof {
        assert(bs@.subrange(0, bs@.len() as int) =~= bs@);
        assert(out@ =~= old(out)@ + json_string_enc(s@));
    }
}

/// Append a transaction object.
pub fn push_json_tx(out: &mut Vec<u8>, t: &Transaction)
    ensures
        final(out)@ =~= old(out)@ + tx_enc(t@),
{
    proof {
        reveal(tx_enc);
    }
    push_lit(out, "{\"from\":");
    push_json_string(out, t.from.as_str());
    push_lit(out, ",\"pub_key\":");
    push_json_string(out, t.pub_key.as_str());
    push_lit(out, ",\"to\":");
    push_json_string(out, t.to.as_str());
    push_lit(out, ",\"amount\":");
    push_dec_i64(out, t.amount);
    push_lit(out, ",\"signature\":");
    push_json_string(out, t.signature.as_str());
    push_lit(out, "}");
}

/// Append a transaction array.
pub fn push_json_txs(out: &mut Vec<u8>, ts: &Vec<Transaction>)
    ensures
        final(out)@ =~= old(out)@ + txs_enc(tx_views(ts@)),
{
    out.push(91);
    let mut i: usize = 0;
    while i < ts.len()
        invariant
            i <= ts@.len(),
            out@ =~= old(out)@ + seq![91u8] + txs_items(tx_views(ts@).subrange(0, i as int)),
        decreases ts@.len() - i,
    {
        if i > 0 {
            out.push(44);
        }
        push_json_tx(out, &ts[i]);
        proof {
            assert(tx_views(ts@).subrange(0, i + 1) =~= tx_views(ts@).subrange(0, i as int).push(
                ts@[i as int]@,
            ));
            lemma_txs_items_push(tx_views(ts@).subrange(0, i as int), ts@[i as int]@);
        }
        i = i + 1;
        proof {
            assert(out@ =~= old(out)@ + seq![91u8] + txs_items(
                tx_views(ts@).subrange(0, i as int),
            ));
        }
    }
    out.push(93);
    proof {
        assert(tx_views(ts@).subrange(0, ts@.len() as int) =~= tx_views(ts@));
        assert(out@ =~= old(out)@ + txs_enc(tx_views(ts@)));
    }
}

/// The header preimage bytes of a block: what the proof-of-work hash is
/// computed over.
pub fn block_preimage(b: &Block) -> (r: Vec<u8>)
    ensures
        r@ =~= preimage_enc(b@),
        r@.len() >= 1,
{
    proof {
        reveal(preimage_enc);
    }
    let mut out: Vec<u8> = Vec::new();
    push_lit(&mut out, "{\"index\":");
    push_dec_u64(&mut out, b.index);
    push_lit(&mut out, ",\"timestamp\":");
    push_dec_u64(&mut out, b.timestamp);
    push_lit(&mut out, ",\"transactions\":");
    push_json_txs(&mut out, &b.transactions);
    push_lit(&mut out, ",\"prev_hash\":");
    push_json_string(&mut out, b.prev_hash.as_str());
    push_lit(&mut out, ",\"nonce\":");
    push_dec_u64(&mut out, b.nonce as u64);
    push_lit(&mut out, "}");
    proof {
        reveal_strlit("{\"index\":");
        assert(lit_bytes("{\"index\":"@).len() >= 1) by {
            assert(("{\"index\":"@).len() == 9);
        }
    }
    out
}

/// Append a whole block object.
#[verifier::rlimit(100)]
pub fn push_json_block(out: &mut Vec<u8>, b: &Block)
    ensures
        final(out)@ =~= old(out)@ + block_enc(b@),
{
    proof {
        reveal(block_enc);
    }
    push_lit(out, "{\"index\":");
    push_dec_u64(out, b.index);
    push_lit(out, ",\"timestamp\":");
    push_dec_u64(out, b.timestamp);
    push_lit(out, ",\"transactions\":");
    push_json_txs(out, &b.transactions);
    push_lit(out, ",\"prev_hash\":");
    push_json_string(out, b.prev_hash.as_str());
    push_lit(out, ",\"hash\":");
    push_json_string(out, b.hash.as_str());
    push_lit(out, ",\"nonce\":");
    push_dec_u64(out, b.nonce as u64);
    push_lit(out, ",\"difficulty\":");
    push_dec_u64(out, b.difficulty as u64);
    push_lit(out, "}");
}

/// A block as a canonical JSON document.
pub fn block_to_json(b: &Block) -> (r: Vec<u8>)
    ensures
        r@ =~= block_enc(b@),
{
    let mut out: Vec<u8> = Vec::new();
    push_json_block(&mut out, b);
    out
}

/// A transaction as a canonical JSON document.
pub fn tx_to_json(t: &Transaction) -> (r: Vec<u8>)
    ensures
        r@ =~= tx_enc(t@),
{
    let mut out: Vec<u8> = Vec::new();
    push_json_tx(&mut out, t);
    out
}

/// A transaction list as a canonical JSON array.
pub fn txs_to_json(ts: &Vec<Transaction>) -> (r: Vec<u8>)
    ensures
        r@ =~= txs_enc(tx_views(ts@)),
{
    let mut out: Vec<u8> = Vec::new();
    push_json_txs(&mut out, ts);
    out
}

/// The whole chain as the canonical persisted document.
pub fn chain_to_json(bc: &Blockchain) -> (r: Vec<u8>)
    ensures
        r@ =~= chain_enc(bc@),
{
    proof {
        reveal(chain_enc);
    }
    let mut out: Vec<u8> = Vec::new();
    push_lit(&mut out, "{\"chain\":[");
    let mut i: usize = 0;
    while i < bc.chain.len()
        invariant
            i <= bc.chain@.len(),
            out@ =~= lit_bytes("{\"chain\":["@) + blocks_items(
                block_views(bc.chain@).subrange(0, i as int),
            ),
        decreases bc.chain@.len() - i,
    {
        if i > 0 {
            out.push(44);
        }
        push_json_block(&mut out, &bc.chain[i]);
        proof {
            assert(block_views(bc.chain@).subrange(0, i + 1) =~= block_views(
                bc.chain@,
            ).subrange(0, i as int).push(bc.chain@[i as int]@));
            lemma_blocks_items_push(
                block_views(bc.chain@).subrange(0, i as int),
                bc.chain@[i as int]@,
            );
        }
        i = i + 1;
        proof {
            assert(out@ =~= lit_bytes("{\"chain\":["@) + blocks_items(
                block_views(bc.chain@).subrange(0, i as int),
            ));
        }
    }
    push_lit(&mut out, "],\"target_block_time\":");
    push_dec_i64(&mut out, bc.target_block_time);
    push_lit(&mut out, "}");
    proof {
        assert(block_views(bc.chain@).subrange(0, bc.chain@.len() as int) =~= block_views(
            bc.chain@,
        ));
        assert(out@ =~= chain_enc(bc@));
    }
    out
}

} // verus!
