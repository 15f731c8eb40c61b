//! The node's command processor: the line-framed request/response protocol
//! that the daemon speaks. The transport reads a command line (and, for
//! the submit commands, one body line) and writes back the single response
//! line built here; everything it answers with is decided in this module.

use vstd::prelude::*;
use vstd::string::*;
use vstd::utf8::encode_utf8;
use crate::chain::{dyn_difficulty, valid_block_ok, validate_verbose_spec};
use crate::config::PeerManager;
use crate::decfmt::{dec_bytes, dec_chars, push_dec_u64, u64_to_dec};
use crate::jsonenc::{lit_bytes, json_string_enc, block_enc, tx_enc, chain_enc, txs_enc,
    push_json_string, push_json_block, chain_to_json, txs_to_json, push_lit};
use crate::jsonparse::{parse_tx_json, parse_block_json};
use crate::mempool::{Mempool, SubmitTxError, submit_ok, chain_tx_count, without_signatures,
    has_signature};
use crate::mining::share_difficulty_spec;
use crate::model::{Transaction, Block, Blockchain, TransactionModel, BlockModel, BlockchainModel};
use crate::stats::{StatsRegistry, wallet_hashrate_spec, fresh_hashrate_sum, clamp_u64, lookup};
use crate::strutil::str_eq;

verus! {

/// The whole state the daemon serves from.
pub struct NodeState {
    pub blockchain: Blockchain,
    pub mempool: Mempool,
    pub stats: StatsRegistry,
    pub peers: PeerManager,
}

/// The position of the first space of a line, or its length.
pub open spec fn first_space(s: Seq<char>) -> int
    decreases s.len(),
{
    if s.len() == 0 {
        0
    } else if s[0] == ' ' {
        0
    } else {
        1 + first_space(s.drop_first())
    }
}

/// The command word of a line: everything before the first space.
pub open spec fn cmd_of(s: Seq<char>) -> Seq<char> {
    s.subrange(0, first_space(s))
}

/// The argument of a line: everything after the first space, if any.
pub open spec fn arg_of(s: Seq<char>) -> Option<Seq<char>> {
    if first_space(s) < s.len() {
        Some(s.subrange(first_space(s) + 1, s.len() as int))
    } else {
        None
    }
}

pub proof fn lemma_first_space_bounds(s: Seq<char>)
    ensures
        0 <= first_space(s) <= s.len(),
        forall|j: int| 0 <= j < first_space(s) ==> s[j] != ' ',
        first_space(s) < s.len() ==> s[first_space(s)] == ' ',
    decreases s.len(),
{
    if s.len() > 0 && s[0] != ' ' {
        lemma_first_space_bounds(s.drop_first());
        assert forall|j: int| 0 <= j < first_space(s) implies s[j] != ' ' by {
            if j > 0 {
                assert(s.drop_first()[j - 1] == s[j]);
            }
        }
    }
}

/// Split a command line into its command word and optional argument.
fn split_command(line: &str) -> (r: (String, Option<String>))
    ensures
        r.0@ == cmd_of(line@),
        match r.1 {
            Some(a) => arg_of(line@) == Some(a@),
            None => arg_of(line@) is None,
        },
{
    proof {
        lemma_first_space_bounds(line@);
    }
    let n = line.unicode_len();
    let mut i: usize = 0;
    while i < n
        invariant
            n == line@.len(),
            i <= n,
            forall|j: int| 0 <= j < i ==> line@[j] != ' ',
        decreases n - i,
    {
        if line.get_char(i) == ' ' {
            proof {
                assert(first_space(line@) == i) by {
                    lemma_first_space_at(line@, i as int);
                }
            }
            let cmd = line.substring_char(0, i).to_owned();
            let arg = line.substring_char(i + 1, n).to_owned();
            return (cmd, Some(arg));
        }
        i = i + 1;
    }
    proof {
        assert(first_space(line@) == line@.len()) by {
            lemma_first_space_at_end(line@);
        }
    }
    (line.substring_char(0, n).to_owned(), None)
}

/// The first space is where the first space stands.
proof fn lemma_first_space_at(s: Seq<char>, i: int)
    requires
        0 <= i < s.len(),
        s[i] == ' ',
        forall|j: int| 0 <= j < i ==> s[j] != ' ',
    ensures
        first_space(s) == i,
    decreases s.len(),
{
    if i > 0 {
        assert(forall|j: int| 0 <= j < s.drop_first().len() ==> s.drop_first()[j] == s[j + 1]);
        lemma_first_space_at(s.drop_first(), i - 1);
    }
}

/// A line without a space has its length as first-space position.
proof fn lemma_first_space_at_end(s: Seq<char>)
    requires
        forall|j: int| 0 <= j < s.len() ==> s[j] != ' ',
    ensures
        first_space(s) == s.len(),
    decreases s.len(),
{
    if s.len() > 0 {
        assert(forall|j: int| 0 <= j < s.drop_first().len() ==> s.drop_first()[j] == s[j + 1]);
        lemma_first_space_at_end(s.drop_first());
    }
}

/// Whether a command expects a follow-up body line.
pub open spec fn needs_body(cmd: Seq<char>) -> bool {
    ||| cmd == "submitblock"@
    ||| cmd == "submittx"@
    ||| cmd == "submitshare"@
    ||| cmd == "updatestats"@
}

/// Whether a command line expects a follow-up line: the submit commands
/// always carry one, and `getblock`/`getwallethashrate` take their
/// argument on the next line when none stands on the command line.
pub open spec fn line_needs_body(line: Seq<char>) -> bool {
    ||| needs_body(cmd_of(line))
    ||| ((cmd_of(line) == "getblock"@ || cmd_of(line) == "getwallethashrate"@) && arg_of(
        line,
    ) is None)
}

/// Whether the transport must read one more line before answering.
pub fn command_needs_body(line: &str) -> (r: bool)
    ensures
        r == line_needs_body(line@),
{
    let (cmd, arg) = split_command(line);
    str_eq(cmd.as_str(), "submitblock") || str_eq(cmd.as_str(), "submittx") || str_eq(
        cmd.as_str(),
        "submitshare",
    ) || str_eq(cmd.as_str(), "updatestats") || ((str_eq(cmd.as_str(), "getblock") || str_eq(
        cmd.as_str(),
        "getwallethashrate",
    )) && arg.is_none())
}

/// The argument a query works on: the command line's own, or the follow-up
/// line decoded as UTF-8 when the command line carries none.
pub open spec fn effective_arg(line: Seq<char>, body: Option<Seq<u8>>) -> Option<Seq<char>> {
    match arg_of(line) {
        Some(a) => Some(a),
        None => match body {
            Some(b) => if vstd::utf8::valid_utf8(b) {
                Some(vstd::utf8::decode_utf8(b))
            } else {
                None
            },
            None => None,
        },
    }
}

/// The greeting the daemon sends on connect.
pub open spec fn greeting_spec(c: BlockchainModel) -> Seq<u8> {
    lit_bytes("owonero-daemon height="@) + dec_bytes(height_of(c) as nat) + seq![10u8]
}

/// The tip index, or zero of an empty chain.
pub open spec fn height_of(c: BlockchainModel) -> int {
    if c.chain.len() == 0 {
        0
    } else {
        c.chain[c.chain.len() - 1].index
    }
}

/// Build the greeting line.
pub fn greeting_line(bc: &Blockchain) -> (r: Vec<u8>)
    ensures
        r@ =~= greeting_spec(bc@),
{
    let mut out: Vec<u8> = Vec::new();
    push_lit(&mut out, "owonero-daemon height=");
    let h: u64 = if bc.chain.len() == 0 {
        0
    } else {
        bc.chain[bc.chain.len() - 1].index
    };
    push_dec_u64(&mut out, h);
    out.push(10);
    out
}

/// The response to `getlatest`.
pub open spec fn getlatest_resp(c: BlockchainModel) -> Seq<u8> {
    if c.chain.len() == 0 {
        lit_bytes("null\n"@)
    } else {
        block_enc(c.chain[c.chain.len() - 1]) + seq![10u8]
    }
}

/// The response to `getblock`.
pub open spec fn getblock_resp(c: BlockchainModel, idx: Option<int>) -> Seq<u8> {
    match idx {
        Some(i) if 0 <= i < c.chain.len() => block_enc(c.chain[i]) + seq![10u8],
        _ => lit_bytes("error: block not found\n"@),
    }
}

/// A JSON array of peer address strings.
pub open spec fn peers_items(ps: Seq<Seq<char>>) -> Seq<u8>
    decreases ps.len(),
{
    if ps.len() == 0 {
        Seq::empty()
    } else if ps.len() == 1 {
        json_string_enc(ps[0])
    } else {
        json_string_enc(ps[0]) + seq![44u8] + peers_items(ps.drop_first())
    }
}

pub open spec fn peers_resp(ps: Seq<Seq<char>>) -> Seq<u8> {
    seq![91u8] + peers_items(ps) + seq![93u8, 10u8]
}

proof fn lemma_peers_items_push(ps: Seq<Seq<char>>, p: Seq<char>)
    ensures
        ps.len() == 0 ==> peers_items(ps.push(p)) =~= json_string_enc(p),
        ps.len() > 0 ==> peers_items(ps.push(p)) =~= peers_items(ps) + seq![44u8]
            + json_string_enc(p),
    decreases ps.len(),
{
    if ps.len() == 0 {
    } else {
        assert(ps.push(p).drop_first() =~= ps.drop_first().push(p));
        lemma_peers_items_push(ps.drop_first(), p);
    }
}

/// The views of the peer list.
pub open spec fn peer_views(ps: Seq<String>) -> Seq<Seq<char>> {
    Seq::new(ps.len(), |i: int| ps[i]@)
}

/// The `getwallethashrate` response document.
pub open spec fn wallet_hashrate_resp(w: Seq<char>, hr: u64, lu: u64) -> Seq<u8> {
    lit_bytes("{\"wallet\":"@) + json_string_enc(w) + lit_bytes(",\"hashrate\":"@) + dec_bytes(
        hr as nat,
    ) + lit_bytes(",\"last_update\":"@) + dec_bytes(lu as nat) + lit_bytes("}\n"@)
}

/// The `getnetworkhashrate` response document.
pub open spec fn network_hashrate_resp(n: u64) -> Seq<u8> {
    lit_bytes("{\"network_hashrate\":"@) + dec_bytes(n as nat) + lit_bytes("}\n"@)
}

/// The command words are pairwise distinct where the dispatcher needs it:
/// `getblock` and `getwallethashrate` are none of the pure-query words.
proof fn lemma_command_words_distinct()
    ensures
        "getblock"@ != "getchain"@,
        "getblock"@ != "getlatest"@,
        "getblock"@ != "getheight"@,
        "getblock"@ != "getmempool"@,
        "getblock"@ != "getpeers"@,
        "getblock"@ != "getnetworkhashrate"@,
        "getwallethashrate"@ != "getchain"@,
        "getwallethashrate"@ != "getlatest"@,
        "getwallethashrate"@ != "getheight"@,
        "getwallethashrate"@ != "getmempool"@,
        "getwallethashrate"@ != "getpeers"@,
        "getwallethashrate"@ != "getnetworkhashrate"@,
        "getblock"@ != "getwallethashrate"@,
        forall|q: Seq<char>|
            is_query_command(q) ==> q != "submittx"@ && q != "submitblock"@ && q
                != "submitshare"@ && q != "updatestats"@,
        "submittx"@ != "submitblock"@ && "submittx"@ != "submitshare"@ && "submittx"@
            != "updatestats"@,
        "submitblock"@ != "submitshare"@ && "submitblock"@ != "updatestats"@,
        "submitshare"@ != "updatestats"@,
{
    reveal_strlit("getchain");
    reveal_strlit("getlatest");
    reveal_strlit("getheight");
    reveal_strlit("getblock");
    reveal_strlit("getmempool");
    reveal_strlit("getpeers");
    reveal_strlit("getwallethashrate");
    reveal_strlit("getnetworkhashrate");
    assert("getblock"@[3] == 'b' && "getchain"@[3] == 'c' && "getpeers"@[3] == 'p');
    assert("getblock"@.len() == 8 && "getchain"@.len() == 8 && "getpeers"@.len() == 8);
    assert("getlatest"@.len() == 9 && "getheight"@.len() == 9 && "getmempool"@.len() == 10);
    assert("getwallethashrate"@.len() == 17 && "getnetworkhashrate"@.len() == 18);
    reveal_strlit("submittx");
    reveal_strlit("submitblock");
    reveal_strlit("submitshare");
    reveal_strlit("updatestats");
    assert("submittx"@[0] == 's' && "submitblock"@[0] == 's' && "submitshare"@[0] == 's');
    assert("updatestats"@[0] == 'u');
    assert("getchain"@[0] == 'g' && "getlatest"@[0] == 'g' && "getheight"@[0] == 'g');
    assert("getmempool"@[0] == 'g' && "getpeers"@[0] == 'g' && "getblock"@[0] == 'g');
    assert("getwallethashrate"@[0] == 'g' && "getnetworkhashrate"@[0] == 'g');
    assert("submitblock"@[6] == 'b' && "submitshare"@[6] == 's');
    assert("submittx"@.len() == 8 && "submitblock"@.len() == 11);
    assert("submitshare"@.len() == 11 && "updatestats"@.len() == 11);
}

/// The response of each read-only query whose answer is a pure function
/// of the state: everything but `getblock` and `getwallethashrate`, whose
/// argument handling is specified on their clauses directly.
pub open spec fn query_resp(
    c: BlockchainModel,
    m: Seq<TransactionModel>,
    st: Seq<crate::stats::StatsEntryModel>,
    ps: Seq<Seq<char>>,
    cmd: Seq<char>,
    now: u64,
) -> Option<Seq<u8>> {
    if cmd == "getchain"@ {
        Some(chain_enc(c) + seq![10u8])
    } else if cmd == "getlatest"@ {
        Some(getlatest_resp(c))
    } else if cmd == "getheight"@ {
        Some(dec_bytes(height_of(c) as nat) + seq![10u8])
    } else if cmd == "getmempool"@ {
        Some(txs_enc(m) + seq![10u8])
    } else if cmd == "getpeers"@ {
        Some(peers_resp(ps))
    } else if cmd == "getnetworkhashrate"@ {
        Some(network_hashrate_resp(clamp_u64(fresh_hashrate_sum(st, now)) as u64))
    } else {
        None
    }
}

/// The wallet whose hashrate a `getwallethashrate` line asks about: its
/// argument, or the empty address when none was given.
pub open spec fn hashrate_query_addr(arg: Option<Seq<char>>) -> Seq<char> {
    match arg {
        Some(a) => a,
        None => Seq::empty(),
    }
}

/// What recording a report does to the registry: the new entry stands,
/// and every other wallet's lookup is untouched.
pub open spec fn stats_updated(
    olds: Seq<crate::stats::StatsEntryModel>,
    news: Seq<crate::stats::StatsEntryModel>,
    w: Seq<char>,
    h: u64,
    t: u64,
) -> bool {
    &&& exists|i: int|
        0 <= i < news.len() && news[i] == (crate::stats::StatsEntryModel {
            wallet: w,
            hashrate: h,
            reported: t,
        })
    &&& forall|w2: Seq<char>| w2 != w ==> #[trigger] lookup(news, w2) == lookup(olds, w2)
}

/// The `submittx` response for a parsed transaction.
#[verifier::opaque]
pub open spec fn submittx_resp(
    chain: Seq<BlockModel>,
    pool: Seq<TransactionModel>,
    t: TransactionModel,
) -> Seq<u8> {
    if !crate::sig::tx_sig_valid(t) {
        lit_bytes("rejected: invalid signature\n"@)
    } else if t.amount <= 0 {
        lit_bytes("rejected: invalid amount\n"@)
    } else if !submit_ok(chain, pool, t) {
        lit_bytes("rejected: insufficient funds\n"@)
    } else {
        lit_bytes("ok\n"@)
    }
}

/// The `submitshare` response for a parsed share: a share counts when its
/// block's digest recomputes and meets the pool's reduced difficulty, two
/// under the network difficulty. It never extends the chain.
pub open spec fn share_resp(c: BlockchainModel, bk: BlockModel) -> Seq<u8> {
    if bk.hash == crate::chain::block_hash_hex(bk) && crate::chain::meets_difficulty(
        bk.hash,
        share_difficulty_spec(dyn_difficulty(c)),
    ) {
        lit_bytes("ok\n"@)
    } else {
        lit_bytes("rejected: invalid share\n"@)
    }
}

/// The `submitblock` response for a parsed candidate block.
#[verifier::opaque]
pub open spec fn submitblock_resp(c: BlockchainModel, b: BlockModel) -> Seq<u8> {
    if c.chain.len() > 0 && b.index <= c.chain[c.chain.len() - 1].index {
        encode_utf8(
            "rejected: block index "@ + dec_chars(b.index as nat)
                + " already exists (current height "@ + dec_chars(
                c.chain[c.chain.len() - 1].index as nat,
            ) + ")"@,
        ) + seq![10u8]
    } else {
        match validate_verbose_spec(c, b, dyn_difficulty(c), false) {
            Some(msg) => encode_utf8("rejected: "@ + msg) + seq![10u8],
            None => lit_bytes("ok\n"@),
        }
    }
}

/// Whether `submitblock` accepts the candidate.
pub open spec fn submitblock_accepts(c: BlockchainModel, b: BlockModel) -> bool {
    &&& (c.chain.len() > 0 ==> b.index > c.chain[c.chain.len() - 1].index)
    &&& valid_block_ok(c, b, dyn_difficulty(c), false)
}

/// What `submittx` does to the pool and answers for a parsed transaction.
#[verifier::opaque]
pub open spec fn submittx_post(
    chain: Seq<BlockModel>,
    oldp: Seq<TransactionModel>,
    newp: Seq<TransactionModel>,
    t: TransactionModel,
    resp: Seq<u8>,
) -> bool {
    &&& resp == submittx_resp(chain, oldp, t)
    &&& (submit_ok(chain, oldp, t) && !has_signature(oldp, t.signature) ==> newp == oldp.push(t))
    &&& (!submit_ok(chain, oldp, t) || has_signature(oldp, t.signature) ==> newp == oldp)
}

/// Admit a `submittx` body into the mempool and build the response line.
fn handle_submittx(blockchain: &Blockchain, mempool: &mut Mempool, body: &Vec<u8>) -> (r: Vec<u8>)
    requires
        chain_tx_count(blockchain@.chain) <= i64::MAX,
        old(mempool)@.len() <= i64::MAX,
    ensures
        (r@ == lit_bytes("rejected: failed to parse transaction\n"@) && final(mempool)@ == old(mempool)@) || (exists|t: TransactionModel|
            tx_enc(t) == body@ && submittx_post(
                blockchain@.chain,
                old(mempool)@,
                final(mempool)@,
                t,
                r@,
            )),
        forall|t: TransactionModel|
            crate::jsonparse::tx_plain(t) && tx_enc(t) == body@ ==> submittx_post(
                blockchain@.chain,
                old(mempool)@,
                final(mempool)@,
                t,
                r@,
            ),
{
    proof {
        reveal(submittx_resp);
        reveal(submittx_post);
    }
    match parse_tx_json(body) {
        Some(tx) => {
            let ghost t = tx@;
            let out = match mempool.submit_tx(blockchain, tx) {
                Ok(()) => line_bytes("ok\n"),
                Err(SubmitTxError::InvalidSignature) => line_bytes(
                    "rejected: invalid signature\n",
                ),
                Err(SubmitTxError::InvalidAmount) => line_bytes("rejected: invalid amount\n"),
                Err(SubmitTxError::InsufficientFunds) => line_bytes(
                    "rejected: insufficient funds\n",
                ),
            };
            proof {
                assert(tx_enc(t) == body@ && submittx_post(
                    blockchain@.chain,
                    old(mempool)@,
                    mempool@,
                    t,
                    out@,
                ));
                assert forall|t2: TransactionModel|
                    crate::jsonparse::tx_plain(t2) && tx_enc(t2) == body@ implies submittx_post(
                    blockchain@.chain,
                    old(mempool)@,
                    mempool@,
                    t2,
                    out@,
                ) by {
                    assert(t == t2);
                }
            }
            out
        },
        None => {
            proof {
                assert forall|t: TransactionModel|
                    !(crate::jsonparse::tx_plain(t) && tx_enc(t) == body@) by {}
            }
            line_bytes("rejected: failed to parse transaction\n")
        },
    }
}

/// What `submitblock` does to the chain and the pool for a parsed block.
#[verifier::opaque]
pub open spec fn submitblock_post(
    oldc: BlockchainModel,
    newc: BlockchainModel,
    oldp: Seq<TransactionModel>,
    newp: Seq<TransactionModel>,
    b: BlockModel,
    resp: Seq<u8>,
    changed: bool,
) -> bool {
    &&& resp == submitblock_resp(oldc, b)
    &&& changed == submitblock_accepts(oldc, b)
    &&& (changed ==> newc.chain == oldc.chain.push(b) && newp == without_signatures(
        oldp,
        b.transactions,
    ))
    &&& (!changed ==> newc == oldc && newp == oldp)
}

/// The `rejected:` line for a candidate whose index does not exceed the
/// tip's.
fn index_exists_line(b_index: u64, last_index: u64) -> (r: Vec<u8>)
    ensures
        r@ == encode_utf8(
            "rejected: block index "@ + dec_chars(b_index as nat)
                + " already exists (current height "@ + dec_chars(last_index as nat) + ")"@,
        ) + seq![10u8],
{
    let mut msg = "rejected: block index ".to_owned();
    msg.append(u64_to_dec(b_index).as_str());
    msg.append(" already exists (current height ");
    msg.append(u64_to_dec(last_index).as_str());
    msg.append(")");
    let mut out = msg.as_bytes_vec();
    out.push(10);
    proof {
        assert(out@ =~= encode_utf8(msg@) + seq![10u8]);
    }
    out
}

/// The `rejected:` line for a validation failure message.
fn rejected_line(err: &String) -> (r: Vec<u8>)
    ensures
        r@ == encode_utf8("rejected: "@ + err@) + seq![10u8],
{
    let mut msg = "rejected: ".to_owned();
    msg.append(err.as_str());
    let mut out = msg.as_bytes_vec();
    out.push(10);
    proof {
        assert(out@ =~= encode_utf8(msg@) + seq![10u8]);
    }
    out
}

/// Validate and append a `submitblock` body, building the response line.
#[verifier::rlimit(100)]
fn handle_submitblock(blockchain: &mut Blockchain, mempool: &mut Mempool, body: &Vec<u8>) -> (r: (
    Vec<u8>,
    bool,
))
    ensures
        !r.1 ==> final(blockchain)@ == old(blockchain)@,
        (r.0@ == lit_bytes("rejected: failed to parse block\n"@) && final(blockchain)@ == old(blockchain)@ && final(mempool)@ == old(mempool)@ && !r.1) || (exists|b: BlockModel|
            block_enc(b) == body@ && submitblock_post(
                old(blockchain)@,
                final(blockchain)@,
                old(mempool)@,
                final(mempool)@,
                b,
                r.0@,
                r.1,
            )),
{
    proof {
        reveal(submitblock_resp);
        reveal(submitblock_post);
    }
    let block = match parse_block_json(body) {
        Some(b) => b,
        None => {
            return (line_bytes("rejected: failed to parse block\n"), false);
        },
    };
    let ghost bm = block@;
    let dyn_diff = blockchain.get_dynamic_difficulty();
    if blockchain.chain.len() > 0 {
        let last_index = blockchain.chain[blockchain.chain.len() - 1].index;
        if block.index <= last_index {
            let out = index_exists_line(block.index, last_index);
            proof {
                assert(block_enc(bm) == body@ && submitblock_post(
                    old(blockchain)@,
                    blockchain@,
                    old(mempool)@,
                    mempool@,
                    bm,
                    out@,
                    false,
                ));
            }
            return (out, false);
        }
    }
    match blockchain.validate_block_verbose(&block, dyn_diff, false) {
        Some(err) => {
            let out = rejected_line(&err);
            proof {
                crate::chain::lemma_validate_verbose_none_iff(
                    blockchain@,
                    bm,
                    dyn_diff as int,
                    false,
                );
            }
            (out, false)
        },
        None => {
            proof {
                crate::chain::lemma_validate_verbose_none_iff(
                    blockchain@,
                    bm,
                    dyn_diff as int,
                    false,
                );
            }
            mempool.remove_included(&block);
            let added = blockchain.add_block(block, dyn_diff);
            proof {
                assert(added);
            }
            (line_bytes("ok\n"), true)
        },
    }
}

/// A fixed response line as bytes.
fn line_bytes(s: &str) -> (r: Vec<u8>)
    ensures
        r@ =~= lit_bytes(s@),
{
    s.as_bytes_vec()
}

impl NodeState {
    /// A fresh node over the given chain.
    pub fn new(blockchain: Blockchain) -> (r: NodeState)
        ensures
            r.blockchain@ == blockchain@,
            r.mempool@ =~= Seq::<TransactionModel>::empty(),
            r.stats.wf(),
            r.stats@ =~= Seq::<crate::stats::StatsEntryModel>::empty(),
            r.peers.peers@.len() == 0,
    {
        NodeState {
            blockchain,
            mempool: Mempool::new(),
            stats: StatsRegistry::new(),
            peers: PeerManager::new(),
        }
    }

    /// Answer `getchain`.
    pub fn handle_getchain(&self) -> (r: Vec<u8>)
        ensures
            r@ == chain_enc(self.blockchain@) + seq![10u8],
    {
        let mut out = chain_to_json(&self.blockchain);
        out.push(10);
        proof {
            assert(out@ =~= chain_enc(self.blockchain@) + seq![10u8]);
        }
        out
    }

    /// Answer `getlatest`.
    pub fn handle_getlatest(&self) -> (r: Vec<u8>)
        ensures
            r@ == getlatest_resp(self.blockchain@),
    {
        if self.blockchain.chain.len() == 0 {
            line_bytes("null\n")
        } else {
            let mut out: Vec<u8> = Vec::new();
            push_json_block(&mut out, &self.blockchain.chain[self.blockchain.chain.len() - 1]);
            out.push(10);
            proof {
                assert(out@ =~= getlatest_resp(self.blockchain@));
            }
            out
        }
    }

    /// Answer `getheight`.
    pub fn handle_getheight(&self) -> (r: Vec<u8>)
        ensures
            r@ == dec_bytes(height_of(self.blockchain@) as nat) + seq![10u8],
    {
        let h: u64 = if self.blockchain.chain.len() == 0 {
            0
        } else {
            self.blockchain.chain[self.blockchain.chain.len() - 1].index
        };
        let mut out: Vec<u8> = Vec::new();
        push_dec_u64(&mut out, h);
        out.push(10);
        proof {
            assert(out@ =~= dec_bytes(height_of(self.blockchain@) as nat) + seq![10u8]);
        }
        out
    }

    /// Answer `getmempool`.
    pub fn handle_getmempool(&self) -> (r: Vec<u8>)
        ensures
            r@ == txs_enc(self.mempool@) + seq![10u8],
    {
        let mut out = txs_to_json(&self.mempool.transactions);
        out.push(10);
        proof {
            assert(out@ =~= txs_enc(self.mempool@) + seq![10u8]);
        }
        out
    }

    /// Answer `getwallethashrate` for the given address.
    pub fn handle_wallet_hashrate(&self, addr: &str, now: u64) -> (r: Vec<u8>)
        requires
            self.stats.wf(),
        ensures
            r@ == wallet_hashrate_resp(
                addr@,
                wallet_hashrate_spec(self.stats@, addr@, now).0,
                wallet_hashrate_spec(self.stats@, addr@, now).1,
            ),
    {
        let (hr, lu) = self.stats.get_wallet_hashrate(addr, now);
        let mut out: Vec<u8> = Vec::new();
        push_lit(&mut out, "{\"wallet\":");
        push_json_string(&mut out, addr);
        push_lit(&mut out, ",\"hashrate\":");
        push_dec_u64(&mut out, hr);
        push_lit(&mut out, ",\"last_update\":");
        push_dec_u64(&mut out, lu);
        push_lit(&mut out, "}\n");
        proof {
            assert(out@ =~= wallet_hashrate_resp(
                addr@,
                wallet_hashrate_spec(self.stats@, addr@, now).0,
                wallet_hashrate_spec(self.stats@, addr@, now).1,
            ));
        }
        out
    }

    /// Answer `getnetworkhashrate`.
    pub fn handle_network_hashrate(&self, now: u64) -> (r: Vec<u8>)
        requires
            self.stats.wf(),
        ensures
            r@ == network_hashrate_resp(clamp_u64(fresh_hashrate_sum(self.stats@, now)) as u64),
    {
        let n = self.stats.network_hashrate(now);
        let mut out: Vec<u8> = Vec::new();
        push_lit(&mut out, "{\"network_hashrate\":");
        push_dec_u64(&mut out, n);
        push_lit(&mut out, "}\n");
        proof {
            assert(out@ =~= network_hashrate_resp(
                clamp_u64(fresh_hashrate_sum(self.stats@, now)) as u64,
            ));
        }
        out
    }

    /// Answer a read-only query command, or nothing when the word is not
    /// one of them.
    #[verifier::rlimit(100)]
    #[verifier::rlimit(100)]
    fn process_query_command(&self, c: &str, arg: Option<String>, now: u64) -> (r: Option<Vec<u8>>)
        requires
            self.stats.wf(),
        ensures
            r is None <==> !is_query_command(c@),
            query_resp(
                self.blockchain@,
                self.mempool@,
                self.stats@,
                peer_views(self.peers.peers@),
                c@,
                now,
            ) is Some ==> r is Some && r->Some_0@ == query_resp(
                self.blockchain@,
                self.mempool@,
                self.stats@,
                peer_views(self.peers.peers@),
                c@,
                now,
            )->Some_0,
            c@ == "getblock"@ ==> r is Some && {
                &&& arg is None ==> r->Some_0@ == lit_bytes("error: block not found\n"@)
                &&& forall|i: u64|
                    arg is Some && dec_bytes(i as nat) == encode_utf8(arg->Some_0@)
                        ==> r->Some_0@ == getblock_resp(self.blockchain@, Some(i as int))
                &&& arg is Some && (forall|i: u64|
                    dec_bytes(i as nat) != encode_utf8(arg->Some_0@)) ==> r->Some_0@ == lit_bytes(
                    "error: block not found\n"@,
                )
            },
            c@ == "getwallethashrate"@ ==> r is Some && r->Some_0@ == wallet_hashrate_resp(
                hashrate_query_addr(
                    match arg {
                        Some(a) => Some(a@),
                        None => None,
                    },
                ),
                wallet_hashrate_spec(
                    self.stats@,
                    hashrate_query_addr(
                        match arg {
                            Some(a) => Some(a@),
                            None => None,
                        },
                    ),
                    now,
                ).0,
                wallet_hashrate_spec(
                    self.stats@,
                    hashrate_query_addr(
                        match arg {
                            Some(a) => Some(a@),
                            None => None,
                        },
                    ),
                    now,
                ).1,
            ),
    {
        proof {
            reveal_strlit("getchain");
            reveal_strlit("getlatest");
            reveal_strlit("getheight");
            reveal_strlit("getblock");
            reveal_strlit("getmempool");
            reveal_strlit("getpeers");
            reveal_strlit("getwallethashrate");
            reveal_strlit("getnetworkhashrate");
            lemma_command_words_distinct();
        }
        let ghost q = query_resp(
            self.blockchain@,
            self.mempool@,
            self.stats@,
            peer_views(self.peers.peers@),
            c@,
            now,
        );
        if str_eq(c, "getchain") {
            let out = self.handle_getchain();
            proof {
                assert(q == Some(chain_enc(self.blockchain@) + seq![10u8]));
            }
            Some(out)
        } else if str_eq(c, "getlatest") {
            let out = self.handle_getlatest();
            proof {
                assert(q == Some(getlatest_resp(self.blockchain@)));
            }
            Some(out)
        } else if str_eq(c, "getheight") {
            let out = self.handle_getheight();
            proof {
                assert(q == Some(dec_bytes(height_of(self.blockchain@) as nat) + seq![10u8]));
            }
            Some(out)
        } else if str_eq(c, "getblock") {
            let out = self.handle_getblock(arg);
            proof {
                assert(q is None);
            }
            Some(out)
        } else if str_eq(c, "getmempool") {
            let out = self.handle_getmempool();
            proof {
                assert(q == Some(txs_enc(self.mempool@) + seq![10u8]));
            }
            Some(out)
        } else if str_eq(c, "getpeers") {
            let out = self.handle_getpeers();
            proof {
                assert(q == Some(peers_resp(peer_views(self.peers.peers@))));
            }
            Some(out)
        } else if str_eq(c, "getwallethashrate") {
            let addr: String = match arg {
                Some(a) => a,
                None => String::new(),
            };
            let out = self.handle_wallet_hashrate(addr.as_str(), now);
            proof {
                assert(q is None);
            }
            Some(out)
        } else if str_eq(c, "getnetworkhashrate") {
            let out = self.handle_network_hashrate(now);
            proof {
                assert(q == Some(
                    network_hashrate_resp(
                        clamp_u64(fresh_hashrate_sum(self.stats@, now)) as u64,
                    ),
                ));
            }
            Some(out)
        } else {
            None
        }
    }

    /// Answer a command that carries a body line.
    #[verifier::rlimit(100)]
    fn process_body_command(&mut self, c: &str, body: Option<&Vec<u8>>) -> (r: (Vec<u8>, bool))
        requires
            needs_body(c@),
            chain_tx_count(old(self).blockchain@.chain) <= i64::MAX,
            old(self).mempool@.len() <= i64::MAX,
            old(self).stats.wf(),
        ensures
            final(self).stats.wf(),
            final(self).peers.peers@ == old(self).peers.peers@,
            !r.1 ==> final(self).blockchain@ == old(self).blockchain@,
            c@ != "submitblock"@ ==> final(self).blockchain@ == old(self).blockchain@ && !r.1,
            c@ != "submitblock"@ && c@ != "submittx"@ ==> final(self).mempool@ == old(self).mempool@,
            c@ != "updatestats"@ ==> final(self).stats@ == old(self).stats@,
            c@ == "submittx"@ && body is Some ==> ((r.0@ == lit_bytes(
                "rejected: failed to parse transaction\n"@,
            ) && final(self).mempool@ == old(self).mempool@) || (exists|t: TransactionModel|
                tx_enc(t) == body->Some_0@ && submittx_post(
                    old(self).blockchain@.chain,
                    old(self).mempool@,
                    final(self).mempool@,
                    t,
                    r.0@,
                ))),
            c@ == "submittx"@ && body is Some ==> (forall|t: TransactionModel|
                crate::jsonparse::tx_plain(t) && tx_enc(t) == body->Some_0@ ==> submittx_post(
                    old(self).blockchain@.chain,
                    old(self).mempool@,
                    final(self).mempool@,
                    t,
                    r.0@,
                )),
            c@ == "submitblock"@ && body is Some ==> ((r.0@ == lit_bytes(
                "rejected: failed to parse block\n"@,
            ) && final(self).blockchain@ == old(self).blockchain@ && final(self).mempool@ == old(self).mempool@
                && !r.1) || (exists|b: BlockModel|
                block_enc(b) == body->Some_0@ && submitblock_post(
                    old(self).blockchain@,
                    final(self).blockchain@,
                    old(self).mempool@,
                    final(self).mempool@,
                    b,
                    r.0@,
                    r.1,
                ))),
            c@ == "submitshare"@ && body is Some ==> ((r.0@ == lit_bytes(
                "rejected: failed to parse share\n"@,
            )) || (exists|w: Seq<char>, nonce: u32, att: u64, bk: BlockModel|
                crate::jsonparse::share_enc(w, nonce, att, bk) == body->Some_0@ && r.0@
                    == share_resp(old(self).blockchain@, bk))),
            c@ == "updatestats"@ && body is Some ==> r.0@ == lit_bytes("ok\n"@) && ((exists|
                w: Seq<char>,
                h: u64,
                t: u64,
            |
                crate::jsonparse::stats_report_enc(w, h, t) == body->Some_0@ && stats_updated(
                    old(self).stats@,
                    final(self).stats@,
                    w,
                    h,
                    t,
                )) || final(self).stats@ == old(self).stats@),
            c@ == "updatestats"@ && body is Some ==> (forall|w: Seq<char>, h: u64, t: u64|
                crate::jsonenc::plain_bytes(encode_utf8(w))
                    && crate::jsonparse::stats_report_enc(w, h, t) == body->Some_0@
                    ==> stats_updated(old(self).stats@, final(self).stats@, w, h, t)),
            body is None ==> r.0@ == lit_bytes("rejected: missing body\n"@) && final(self).blockchain@
                == old(self).blockchain@ && final(self).mempool@ == old(self).mempool@ && final(self).stats@ == old(self).stats@ && !r.1,
    {
        proof {
            lemma_command_words_distinct();
        }
        let b = match body {
            Some(b) => b,
            None => {
                return (line_bytes("rejected: missing body\n"), false);
            },
        };
        if str_eq(c, "submittx") {
            (handle_submittx(&self.blockchain, &mut self.mempool, b), false)
        } else if str_eq(c, "submitblock") {
            let rr = handle_submitblock(&mut self.blockchain, &mut self.mempool, b);
            proof {
                if !(rr.0@ == lit_bytes("rejected: failed to parse block\n"@)
                    && self.blockchain@ == old(self).blockchain@ && self.mempool@ == old(
                    self,
                ).mempool@ && !rr.1) {
                    let bm = choose|bm: BlockModel|
                        block_enc(bm) == b@ && submitblock_post(
                            old(self).blockchain@,
                            self.blockchain@,
                            old(self).mempool@,
                            self.mempool@,
                            bm,
                            rr.0@,
                            rr.1,
                        );
                    assert(block_enc(bm) == body->Some_0@ && submitblock_post(
                        old(self).blockchain@,
                        self.blockchain@,
                        old(self).mempool@,
                        self.mempool@,
                        bm,
                        rr.0@,
                        rr.1,
                    ));
                }
            }
            rr
        } else if str_eq(c, "submitshare") {
            match crate::jsonparse::parse_share(b) {
                Some((w, nonce, att, bk)) => {
                    let sd = crate::mining::share_difficulty(
                        self.blockchain.get_dynamic_difficulty(),
                    );
                    let calc = Blockchain::calculate_hash(&bk);
                    let out = if calc == bk.hash && crate::chain::hash_meets_difficulty(
                        bk.hash.as_str(),
                        sd,
                    ) {
                        line_bytes("ok\n")
                    } else {
                        line_bytes("rejected: invalid share\n")
                    };
                    proof {
                        assert(crate::jsonparse::share_enc(w@, nonce, att, bk@) == b@ && out@
                            == share_resp(old(self).blockchain@, bk@));
                    }
                    (out, false)
                },
                None => (line_bytes("rejected: failed to parse share\n"), false),
            }
        } else {
            match crate::jsonparse::parse_stats_report(b) {
                Some((w, hr, ts)) => {
                    self.stats.update_stats(w.as_str(), hr, ts);
                    proof {
                        assert(crate::jsonparse::stats_report_enc(w@, hr, ts) == b@
                            && stats_updated(old(self).stats@, self.stats@, w@, hr, ts));
                        assert forall|w2: Seq<char>, h2: u64, t2: u64|
                            crate::jsonenc::plain_bytes(encode_utf8(w2))
                                && crate::jsonparse::stats_report_enc(w2, h2, t2)
                                == b@ implies stats_updated(
                            old(self).stats@,
                            self.stats@,
                            w2,
                            h2,
                            t2,
                        ) by {
                            assert(w@ == w2 && hr == h2 && ts == t2);
                        }
                    }
                    (line_bytes("ok\n"), false)
                },
                None => {
                    proof {
                        assert forall|w2: Seq<char>, h2: u64, t2: u64|
                            !(crate::jsonenc::plain_bytes(encode_utf8(w2))
                                && crate::jsonparse::stats_report_enc(w2, h2, t2) == b@) by {}
                    }
                    (line_bytes("ok\n"), false)
                },
            }
        }
    }

    /// Answer one command. `body` is the follow-up line the transport read
    /// for the commands that take one, as bytes; `now` is the current UTC
    /// time in seconds, used by the hashrate commands. Returns the
    /// response line and whether the chain changed, so that the caller can
    /// persist it. An unknown command answers exactly `unknown command\n`
    /// and the connection stays open for the next line.
    #[verifier::rlimit(100)]
    pub fn process_command(&mut self, line: &str, body: Option<&Vec<u8>>, now: u64) -> (r: (
        Vec<u8>,
        bool,
    ))
        requires
            chain_tx_count(old(self).blockchain@.chain) <= i64::MAX,
            old(self).mempool@.len() <= i64::MAX,
            old(self).stats.wf(),
        ensures
            final(self).stats.wf(),
            final(self).peers.peers@ == old(self).peers.peers@,
            !r.1 ==> final(self).blockchain@ == old(self).blockchain@,
            cmd_of(line@) != "submittx"@ && cmd_of(line@) != "submitblock"@ && cmd_of(line@)
                != "updatestats"@ ==> final(self).blockchain@ == old(self).blockchain@ && final(self).mempool@ == old(self).mempool@ && final(self).stats@ == old(self).stats@,
            cmd_of(line@) == "submittx"@ && body is Some ==> ((r.0@ == lit_bytes(
                "rejected: failed to parse transaction\n"@,
            ) && final(self).mempool@ == old(self).mempool@) || (exists|t: TransactionModel|
                tx_enc(t) == body->Some_0@ && submittx_post(
                    old(self).blockchain@.chain,
                    old(self).mempool@,
                    final(self).mempool@,
                    t,
                    r.0@,
                ))),
            cmd_of(line@) == "submittx"@ && body is Some ==> (forall|t: TransactionModel|
                crate::jsonparse::tx_plain(t) && tx_enc(t) == body->Some_0@ ==> submittx_post(
                    old(self).blockchain@.chain,
                    old(self).mempool@,
                    final(self).mempool@,
                    t,
                    r.0@,
                )),
            cmd_of(line@) == "submitblock"@ && body is Some ==> ((r.0@ == lit_bytes(
                "rejected: failed to parse block\n"@,
            ) && final(self).blockchain@ == old(self).blockchain@ && final(self).mempool@ == old(
                self,
            ).mempool@ && !r.1) || (exists|b: BlockModel|
                block_enc(b) == body->Some_0@ && submitblock_post(
                    old(self).blockchain@,
                    final(self).blockchain@,
                    old(self).mempool@,
                    final(self).mempool@,
                    b,
                    r.0@,
                    r.1,
                ))),
            needs_body(cmd_of(line@)) && body is None ==> r.0@ == lit_bytes(
                "rejected: missing body\n"@,
            ) && final(self).blockchain@ == old(self).blockchain@ && final(self).mempool@ == old(
                self,
            ).mempool@ && final(self).stats@ == old(self).stats@ && !r.1,
            !is_known_command(cmd_of(line@)) ==> r.0@ == lit_bytes("unknown command\n"@) && !r.1,
            query_resp(
                old(self).blockchain@,
                old(self).mempool@,
                old(self).stats@,
                peer_views(old(self).peers.peers@),
                cmd_of(line@),
                now,
            ) is Some ==> r.0@ == query_resp(
                old(self).blockchain@,
                old(self).mempool@,
                old(self).stats@,
                peer_views(old(self).peers.peers@),
                cmd_of(line@),
                now,
            )->Some_0,
            cmd_of(line@) == "getblock"@ ==> ({
                let ea = effective_arg(
                    line@,
                    match body {
                        Some(b) => Some(b@),
                        None => None,
                    },
                );
                &&& ea is None ==> r.0@ == lit_bytes("error: block not found\n"@)
                &&& forall|i: u64|
                    ea is Some && dec_bytes(i as nat) == encode_utf8(ea->Some_0) ==> r.0@
                        == getblock_resp(old(self).blockchain@, Some(i as int))
                &&& ea is Some && (forall|i: u64|
                    dec_bytes(i as nat) != encode_utf8(ea->Some_0)) ==> r.0@ == lit_bytes(
                    "error: block not found\n"@,
                )
            }),
            cmd_of(line@) == "getwallethashrate"@ ==> ({
                let addr = hashrate_query_addr(
                    effective_arg(
                        line@,
                        match body {
                            Some(b) => Some(b@),
                            None => None,
                        },
                    ),
                );
                r.0@ == wallet_hashrate_resp(
                    addr,
                    wallet_hashrate_spec(old(self).stats@, addr, now).0,
                    wallet_hashrate_spec(old(self).stats@, addr, now).1,
                )
            }),
            cmd_of(line@) == "submittx"@ ==> final(self).blockchain@ == old(self).blockchain@
                && final(self).stats@ == old(self).stats@ && !r.1,
            cmd_of(line@) == "submitshare"@ ==> final(self).blockchain@ == old(self).blockchain@
                && final(self).mempool@ == old(self).mempool@ && final(self).stats@ == old(
                self,
            ).stats@ && !r.1,
            cmd_of(line@) == "submitshare"@ && body is Some ==> ((r.0@ == lit_bytes(
                "rejected: failed to parse share\n"@,
            )) || (exists|w: Seq<char>, nonce: u32, att: u64, bk: BlockModel|
                crate::jsonparse::share_enc(w, nonce, att, bk) == body->Some_0@ && r.0@
                    == share_resp(old(self).blockchain@, bk))),
            cmd_of(line@) == "updatestats"@ ==> final(self).blockchain@ == old(self).blockchain@
                && final(self).mempool@ == old(self).mempool@ && !r.1,
            cmd_of(line@) == "updatestats"@ && body is Some ==> r.0@ == lit_bytes("ok\n"@) && ((
            exists|w: Seq<char>, h: u64, t: u64|
                crate::jsonparse::stats_report_enc(w, h, t) == body->Some_0@ && stats_updated(
                    old(self).stats@,
                    final(self).stats@,
                    w,
                    h,
                    t,
                )) || final(self).stats@ == old(self).stats@),
            cmd_of(line@) == "updatestats"@ && body is Some ==> (forall|
                w: Seq<char>,
                h: u64,
                t: u64,
            |
                crate::jsonenc::plain_bytes(encode_utf8(w))
                    && crate::jsonparse::stats_report_enc(w, h, t) == body->Some_0@
                    ==> stats_updated(old(self).stats@, final(self).stats@, w, h, t)),
    {
        proof {
            reveal_strlit("getchain");
            reveal_strlit("getlatest");
            reveal_strlit("getheight");
            reveal_strlit("getblock");
            reveal_strlit("getmempool");
            reveal_strlit("getpeers");
            reveal_strlit("submittx");
            reveal_strlit("submitblock");
            reveal_strlit("submitshare");
            reveal_strlit("updatestats");
            reveal_strlit("getwallethashrate");
            reveal_strlit("getnetworkhashrate");
            lemma_command_words_distinct();
        }
        let (cmd, arg) = split_command(line);
        let c = cmd.as_str();
        if str_eq(c, "submittx") || str_eq(c, "submitblock") || str_eq(c, "submitshare") || str_eq(
            c,
            "updatestats",
        ) {
            proof {
                assert(is_query_command(cmd@) ==> cmd@ != "submittx"@ && cmd@ != "submitblock"@
                    && cmd@ != "submitshare"@ && cmd@ != "updatestats"@);
                assert(!is_query_command(cmd@));
            }
            self.process_body_command(c, body)
        } else {
            let eff_arg: Option<String> = match arg {
                Some(a) => Some(a),
                None => match body {
                    Some(b) => crate::jsonparse::string_from_utf8(
                        crate::jsonparse::copy_bytes(b),
                    ),
                    None => None,
                },
            };
            proof {
                let ghost bv = match body {
                    Some(b) => Some(b@),
                    None => None,
                };
                assert(match eff_arg {
                    Some(ref a) => effective_arg(line@, bv) == Some(a@),
                    None => effective_arg(line@, bv) is None,
                });
            }
            match self.process_query_command(c, eff_arg, now) {
                Some(resp) => {
                    proof {
                        assert(self.blockchain@ == old(self).blockchain@ && self.mempool@ == old(
                            self,
                        ).mempool@ && self.stats@ == old(self).stats@ && self.peers.peers@ == old(
                            self,
                        ).peers.peers@);
                        assert(cmd@ == cmd_of(line@));
                    }
                    (resp, false)
                },
                None => (line_bytes("unknown command\n"), false),
            }
        }
    }

    /// Answer `getblock` for the argument on the command line: the block
    /// at the decimal index, or the not-found line when the argument is
    /// missing, malformed, or past the tip. When the argument is the
    /// canonical decimal of an index, the answer is owed.
    pub fn handle_getblock(&self, arg: Option<String>) -> (r: Vec<u8>)
        ensures
            arg is None ==> r@ == lit_bytes("error: block not found\n"@),
            forall|i: u64|
                arg is Some && dec_bytes(i as nat) == encode_utf8(arg->Some_0@) ==> r@
                    == getblock_resp(self.blockchain@, Some(i as int)),
            arg is Some && (forall|i: u64|
                dec_bytes(i as nat) != encode_utf8(arg->Some_0@)) ==> r@ == lit_bytes(
                "error: block not found\n"@,
            ),
    {
        let a = match arg {
            Some(a) => a,
            None => {
                return line_bytes("error: block not found\n");
            },
        };
        let ab = a.as_str().as_bytes_vec();
        proof {
            assert(ab@.skip(0) =~= ab@);
        }
        match crate::jsonparse::parse_u64_at(&ab, 0) {
            Some((i, p)) => {
                if p != ab.len() {
                    proof {
                        assert forall|n: u64| dec_bytes(n as nat) != encode_utf8(a@) by {
                            if dec_bytes(n as nat) == ab@ {
                                assert(p == ab@.len());
                            }
                        }
                    }
                    return line_bytes("error: block not found\n");
                }
                let mut reenc: Vec<u8> = Vec::new();
                push_dec_u64(&mut reenc, i);
                if !crate::jsonparse::bytes_eq(&reenc, &ab) {
                    proof {
                        assert forall|n: u64| dec_bytes(n as nat) != encode_utf8(a@) by {
                            if dec_bytes(n as nat) == ab@ {
                                assert(n == i);
                                assert(reenc@ == ab@);
                            }
                        }
                    }
                    return line_bytes("error: block not found\n");
                }
                proof {
                    assert(dec_bytes(i as nat) == encode_utf8(a@));
                    assert forall|n: u64|
                        dec_bytes(n as nat) == encode_utf8(a@) implies n == i by {
                        assert(dec_bytes(n as nat) == ab@);
                    }
                }
                if i < self.blockchain.chain.len() as u64 {
                    let mut out: Vec<u8> = Vec::new();
                    push_json_block(&mut out, &self.blockchain.chain[i as usize]);
                    out.push(10);
                    proof {
                        assert(out@ == getblock_resp(self.blockchain@, Some(i as int)));
                    }
                    out
                } else {
                    let out = line_bytes("error: block not found\n");
                    proof {
                        assert(out@ == getblock_resp(self.blockchain@, Some(i as int)));
                    }
                    out
                }
            },
            None => {
                proof {
                    assert forall|n: u64| dec_bytes(n as nat) != encode_utf8(a@) by {
                        if dec_bytes(n as nat) == ab@ {
                        }
                    }
                }
                line_bytes("error: block not found\n")
            },
        }
    }

    /// Answer `getpeers`.
    pub fn handle_getpeers(&self) -> (r: Vec<u8>)
        ensures
            r@ == peers_resp(peer_views(self.peers.peers@)),
    {
        let mut out: Vec<u8> = Vec::new();
        out.push(91);
        let mut i: usize = 0;
        while i < self.peers.peers.len()
            invariant
                i <= self.peers.peers@.len(),
                out@ =~= seq![91u8] + peers_items(peer_views(self.peers.peers@).subrange(0, i as int)),
            decreases self.peers.peers@.len() - i,
        {
            if i > 0 {
                out.push(44);
            }
            push_json_string(&mut out, self.peers.peers[i].as_str());
            proof {
                assert(peer_views(self.peers.peers@).subrange(0, i + 1) =~= peer_views(
                    self.peers.peers@,
                ).subrange(0, i as int).push(self.peers.peers@[i as int]@));
                lemma_peers_items_push(
                    peer_views(self.peers.peers@).subrange(0, i as int),
                    self.peers.peers@[i as int]@,
                );
            }
            i = i + 1;
            proof {
                assert(out@ =~= seq![91u8] + peers_items(
                    peer_views(self.peers.peers@).subrange(0, i as int),
                ));
            }
        }
        out.push(93);
        out.push(10);
        proof {
            assert(peer_views(self.peers.peers@).subrange(0, self.peers.peers@.len() as int)
                =~= peer_views(self.peers.peers@));
            assert(out@ =~= peers_resp(peer_views(self.peers.peers@)));
        }
        out
    }
}

/// The read-only query commands.
pub open spec fn is_query_command(cmd: Seq<char>) -> bool {
    ||| cmd == "getchain"@
    ||| cmd == "getlatest"@
    ||| cmd == "getheight"@
    ||| cmd == "getblock"@
    ||| cmd == "getmempool"@
    ||| cmd == "getpeers"@
    ||| cmd == "getwallethashrate"@
    ||| cmd == "getnetworkhashrate"@
}

/// The commands the daemon understands.
pub open spec fn is_known_command(cmd: Seq<char>) -> bool {
    ||| cmd == "getchain"@
    ||| cmd == "getlatest"@
    ||| cmd == "getheight"@
    ||| cmd == "getblock"@
    ||| cmd == "getmempool"@
    ||| cmd == "getpeers"@
    ||| cmd == "submittx"@
    ||| cmd == "submitblock"@
    ||| cmd == "submitshare"@
    ||| cmd == "updatestats"@
    ||| cmd == "getwallethashrate"@
    ||| cmd == "getnetworkhashrate"@
}

} // verus!
