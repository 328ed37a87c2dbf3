use crate::amount::Amount;
use crate::compact::{read_compact_size, spec_read_compact_size};
use crate::cursor::Cursor;
use crate::error::TxError;
use crate::fields::{
    read_amount, read_script, read_txid, read_u32, spec_read_script, spec_read_txid, spec_read_u32,
    spec_read_u64, Txid,
};
use crate::hashing::{hash_raw_transaction, spec_txid_of};
use crate::hexcodec::{hex_decode, hex_text_bytes, is_hex_text};
use vstd::prelude::*;

verus! {

/// Mathematical image of an [`Input`].
#[verifier::ext_equal]
pub ghost struct SpecInput {
    pub txid: Seq<u8>,
    pub output_index: u32,
    pub script_sig: Seq<char>,
    pub sequence: u32,
}

/// Mathematical image of an [`Output`].
#[verifier::ext_equal]
pub ghost struct SpecOutput {
    pub amount: u64,
    pub script_pubkey: Seq<char>,
}

/// Mathematical image of a [`Transaction`].
#[verifier::ext_equal]
pub ghost struct SpecTransaction {
    pub version: u32,
    pub inputs: Seq<SpecInput>,
    pub outputs: Seq<SpecOutput>,
    pub lock_time: u32,
    pub transaction_id: Seq<u8>,
}

/// One transaction input: the identifier of the transaction whose output it
/// spends (in display byte order), that output's index, the unlocking script
/// as lowercase hexadecimal text, and the sequence number. Constructed once
/// per decoded input, immutable thereafter.
#[derive(Clone, Debug, PartialEq, Eq)]
pub struct Input {
    pub txid: Txid,
    pub output_index: u32,
    pub script_sig: String,
    pub sequence: u32,
}

impl View for Input {
    type V = SpecInput;

    open spec fn view(&self) -> SpecInput {
        SpecInput {
            txid: self.txid@,
            output_index: self.output_index,
            script_sig: self.script_sig@,
            sequence: self.sequence,
        }
    }
}

impl Input {
    pub open spec fn wf(self) -> bool {
        self.txid.wf()
    }
}

/// One transaction output: an amount in smallest currency units and the
/// locking script as lowercase hexadecimal text. Immutable after
/// construction.
#[derive(Clone, Debug, PartialEq, Eq)]
pub struct Output {
    pub amount: Amount,
    pub script_pubkey: String,
}

impl View for Output {
    type V = SpecOutput;

    open spec fn view(&self) -> SpecOutput {
        SpecOutput { amount: self.amount.sats, script_pubkey: self.script_pubkey@ }
    }
}

/// A decoded transaction: version, the ordered inputs and outputs, the lock
/// time, and the transaction's canonical identifier. The identifier is a pure
/// function of the exact raw byte sequence the transaction was decoded from;
/// it is computed once, at decode time, never from the structured fields.
#[derive(Clone, Debug, PartialEq, Eq)]
pub struct Transaction {
    pub version: u32,
    pub inputs: Vec<Input>,
    pub outputs: Vec<Output>,
    pub lock_time: u32,
    pub transaction_id: Txid,
}

/// The images of a sequence of inputs.
pub open spec fn inputs_view(v: Seq<Input>) -> Seq<SpecInput> {
    v.map_values(|x: Input| x@)
}

/// The images of a sequence of outputs.
pub open spec fn outputs_view(v: Seq<Output>) -> Seq<SpecOutput> {
    v.map_values(|x: Output| x@)
}

impl View for Transaction {
    type V = SpecTransaction;

    open spec fn view(&self) -> SpecTransaction {
        SpecTransaction {
            version: self.version,
            inputs: inputs_view(self.inputs@),
            outputs: outputs_view(self.outputs@),
            lock_time: self.lock_time,
            transaction_id: self.transaction_id@,
        }
    }
}

impl Transaction {
    pub open spec fn wf(self) -> bool {
        &&& self.transaction_id.wf()
        &&& forall|i: int| 0 <= i < self.inputs@.len() ==> self.inputs@[i].wf()
    }
}

/// What reading one input at `pos` yields: identifier, output index,
/// length-prefixed script, sequence number, in that order.
pub open spec fn spec_read_input(s: Seq<u8>, pos: int) -> Option<(SpecInput, int)> {
    match spec_read_txid(s, pos) {
        Some((txid, p1)) => match spec_read_u32(s, p1) {
            Some((output_index, p2)) => match spec_read_script(s, p2) {
                Some((script_sig, p3)) => match spec_read_u32(s, p3) {
                    Some((sequence, p4)) => Some(
                        (SpecInput { txid, output_index, script_sig, sequence }, p4),
                    ),
                    None => None,
                },
                None => None,
            },
            None => None,
        },
        None => None,
    }
}

/// What reading `n` inputs in order starting at `pos` yields.
pub open spec fn spec_read_inputs(s: Seq<u8>, pos: int, n: nat) -> Option<(Seq<SpecInput>, int)>
    decreases n,
{
    if n == 0 {
        Some((Seq::empty(), pos))
    } else {
        match spec_read_input(s, pos) {
            Some((inp, p)) => match spec_read_inputs(s, p, (n - 1) as nat) {
                Some((rest, q)) => Some((seq![inp] + rest, q)),
                None => None,
            },
            None => None,
        }
    }
}

/// What reading one output at `pos` yields: amount, then length-prefixed
/// script.
pub open spec fn spec_read_output(s: Seq<u8>, pos: int) -> Option<(SpecOutput, int)> {
    match spec_read_u64(s, pos) {
        Some((amount, p1)) => match spec_read_script(s, p1) {
            Some((script_pubkey, p2)) => Some((SpecOutput { amount, script_pubkey }, p2)),
            None => None,
        },
        None => None,
    }
}

/// What reading `n` outputs in order starting at `pos` yields.
pub open spec fn spec_read_outputs(s: Seq<u8>, pos: int, n: nat) -> Option<(Seq<SpecOutput>, int)>
    decreases n,
{
    if n == 0 {
        Some((Seq::empty(), pos))
    } else {
        match spec_read_output(s, pos) {
            Some((out, p)) => match spec_read_outputs(s, p, (n - 1) as nat) {
                Some((rest, q)) => Some((seq![out] + rest, q)),
                None => None,
            },
            None => None,
        }
    }
}

/// The transaction's fixed grammar: version, input count and inputs, output
/// count and outputs, lock time, together with the offset just past the lock
/// time (what decoding consumes). Trailing unread bytes are tolerated by
/// design. `None` exactly when some field cannot be read in full.
pub open spec fn spec_decode_fields(s: Seq<u8>) -> Option<
    (u32, Seq<SpecInput>, Seq<SpecOutput>, u32, int),
> {
    match spec_read_u32(s, 0) {
        Some((version, p0)) => match spec_read_compact_size(s, p0) {
            Some((input_count, p1)) => match spec_read_inputs(s, p1, input_count as nat) {
                Some((inputs, p2)) => match spec_read_compact_size(s, p2) {
                    Some((output_count, p3)) => match spec_read_outputs(
                        s,
                        p3,
                        output_count as nat,
                    ) {
                        Some((outputs, p4)) => match spec_read_u32(s, p4) {
                            Some((lock_time, p5)) => Some(
                                (version, inputs, outputs, lock_time, p5),
                            ),
                            None => None,
                        },
                        None => None,
                    },
                    None => None,
                },
                None => None,
            },
            None => None,
        },
        None => None,
    }
}

/// What decoding the raw byte buffer `s` yields: the structured transaction,
/// with its identifier the double SHA-256 digest of `s` in display byte
/// order; `None` exactly when the buffer is exhausted before a required field
/// could be read.
pub open spec fn spec_decode(s: Seq<u8>) -> Option<SpecTransaction> {
    match spec_decode_fields(s) {
        Some((version, inputs, outputs, lock_time, _consumed)) => Some(
            SpecTransaction {
                version,
                inputs,
                outputs,
                lock_time,
                transaction_id: spec_txid_of(s),
            },
        ),
        None => None,
    }
}

/// Reads one input at the cursor: identifier, output index, unlocking script,
/// sequence number. Fails with `InsufficientData` exactly when some field
/// cannot be read in full.
pub fn read_input(c: &mut Cursor) -> (r: Result<Input, TxError>)
    requires
        old(c).wf(),
    ensures
        final(c).wf(),
        final(c).data() == old(c).data(),
        match spec_read_input(old(c).data(), old(c).pos as int) {
            Some((v, p)) => r matches Ok(inp) && inp@ == v && inp.wf() && final(c).pos == p,
            None => {
                &&& r matches Err(e) && e == TxError::InsufficientData
                &&& old(c).pos <= final(c).pos
            },
        },
{
    let txid = match read_txid(c) {
        Ok(v) => v,
        Err(e) => {
            return Err(e);
        },
    };
    let output_index = match read_u32(c) {
        Ok(v) => v,
        Err(e) => {
            return Err(e);
        },
    };
    let script_sig = match read_script(c) {
        Ok(v) => v,
        Err(e) => {
            return Err(e);
        },
    };
    let sequence = match read_u32(c) {
        Ok(v) => v,
        Err(e) => {
            return Err(e);
        },
    };
    Ok(Input { txid, output_index, script_sig, sequence })
}

/// Reads one output at the cursor: amount, then locking script. Fails with
/// `InsufficientData` exactly when some field cannot be read in full.
pub fn read_output(c: &mut Cursor) -> (r: Result<Output, TxError>)
    requires
        old(c).wf(),
    ensures
        final(c).wf(),
        final(c).data() == old(c).data(),
        match spec_read_output(old(c).data(), old(c).pos as int) {
            Some((v, p)) => r matches Ok(out) && out@ == v && final(c).pos == p,
            None => {
                &&& r matches Err(e) && e == TxError::InsufficientData
                &&& old(c).pos <= final(c).pos
            },
        },
{
    let amount = match read_amount(c) {
        Ok(v) => v,
        Err(e) => {
            return Err(e);
        },
    };
    let script_pubkey = match read_script(c) {
        Ok(v) => v,
        Err(e) => {
            return Err(e);
        },
    };
    Ok(Output { amount, script_pubkey })
}

/// Decodes a raw serialized transaction in a single deterministic pass:
/// version, inputs, outputs, lock time; the identifier is the double SHA-256
/// digest of the entire raw buffer exactly as given, in display byte order.
/// Trailing unread bytes are tolerated by design.
///
/// The result is a pure function of the byte buffer ([`spec_decode`]): no
/// state is shared or mutated, so decoding the same buffer again yields a
/// structurally equal transaction. On the first unsatisfiable read the whole
/// decode fails with `InsufficientData`; no partial transaction is returned.
pub fn decode_transaction(bytes: &Vec<u8>) -> (r: Result<Transaction, TxError>)
    ensures
        match spec_decode(bytes@) {
            Some(t) => r matches Ok(tx) && tx@ == t && tx.wf(),
            None => r matches Err(e) && e == TxError::InsufficientData,
        },
{
    let ghost s = bytes@;
    let mut c = Cursor::new(bytes);
    let version = match read_u32(&mut c) {
        Ok(v) => v,
        Err(e) => {
            return Err(e);
        },
    };
    let input_count = match read_compact_size(&mut c) {
        Ok(v) => v,
        Err(e) => {
            return Err(e);
        },
    };
    let ghost p1 = c.pos as int;
    let mut inputs: Vec<Input> = Vec::new();
    let mut i: u64 = 0;
    while i < input_count
        invariant
            c.wf(),
            c.data() == s,
            s == bytes@,
            i <= input_count,
            inputs@.len() == i,
            forall|j: int| 0 <= j < inputs@.len() ==> inputs@[j].wf(),
            spec_read_u32(s, 0) == Some((version, 4int)),
            spec_read_compact_size(s, 4) == Some((input_count, p1)),
            match spec_read_inputs(s, c.pos as int, (input_count - i) as nat) {
                Some((rest, q)) => spec_read_inputs(s, p1, input_count as nat) == Some(
                    (inputs_view(inputs@) + rest, q),
                ),
                None => spec_read_inputs(s, p1, input_count as nat) is None,
            },
        decreases input_count - i,
    {
        let ghost pos0 = c.pos as int;
        let ghost acc0 = inputs_view(inputs@);
        let inp = match read_input(&mut c) {
            Ok(v) => v,
            Err(e) => {
                proof {
                    assert(spec_read_inputs(s, pos0, (input_count - i) as nat) is None);
                    assert(spec_decode(s) is None);
                }
                return Err(e);
            },
        };
        proof {
            let (si, p) = spec_read_input(s, pos0).unwrap();
            match spec_read_inputs(s, p, (input_count - i - 1) as nat) {
                Some((rest, q)) => {
                    assert(spec_read_inputs(s, pos0, (input_count - i) as nat) == Some(
                        (seq![si] + rest, q),
                    ));
                    assert(inputs_view(inputs@ + seq![inp]) =~= acc0 + seq![si]);
                    assert(acc0 + (seq![si] + rest) =~= (acc0 + seq![si]) + rest);
                },
                None => {
                    assert(spec_read_inputs(s, pos0, (input_count - i) as nat) is None);
                },
            }
        }
        inputs.push(inp);
        i = i + 1;
    }
    proof {
        assert(spec_read_inputs(s, c.pos as int, 0) == Some(
            (Seq::<SpecInput>::empty(), c.pos as int),
        ));
        assert(inputs_view(inputs@) + Seq::<SpecInput>::empty() =~= inputs_view(inputs@));
    }
    let ghost p2 = c.pos as int;
    let output_count = match read_compact_size(&mut c) {
        Ok(v) => v,
        Err(e) => {
            return Err(e);
        },
    };
    let ghost p3 = c.pos as int;
    let mut outputs: Vec<Output> = Vec::new();
    let mut k: u64 = 0;
    while k < output_count
        invariant
            c.wf(),
            c.data() == s,
            s == bytes@,
            k <= output_count,
            outputs@.len() == k,
            inputs@.len() == input_count,
            forall|j: int| 0 <= j < inputs@.len() ==> inputs@[j].wf(),
            spec_read_u32(s, 0) == Some((version, 4int)),
            spec_read_compact_size(s, 4) == Some((input_count, p1)),
            spec_read_inputs(s, p1, input_count as nat) == Some((inputs_view(inputs@), p2)),
            spec_read_compact_size(s, p2) == Some((output_count, p3)),
            match spec_read_outputs(s, c.pos as int, (output_count - k) as nat) {
                Some((rest, q)) => spec_read_outputs(s, p3, output_count as nat) == Some(
                    (outputs_view(outputs@) + rest, q),
                ),
                None => spec_read_outputs(s, p3, output_count as nat) is None,
            },
        decreases output_count - k,
    {
        let ghost pos0 = c.pos as int;
        let ghost acc0 = outputs_view(outputs@);
        let out = match read_output(&mut c) {
            Ok(v) => v,
            Err(e) => {
                proof {
                    assert(spec_read_outputs(s, pos0, (output_count - k) as nat) is None);
                    assert(spec_decode(s) is None);
                }
                return Err(e);
            },
        };
        proof {
            let (so, p) = spec_read_output(s, pos0).unwrap();
            match spec_read_outputs(s, p, (output_count - k - 1) as nat) {
                Some((rest, q)) => {
                    assert(spec_read_outputs(s, pos0, (output_count - k) as nat) == Some(
                        (seq![so] + rest, q),
                    ));
                    assert(outputs_view(outputs@ + seq![out]) =~= acc0 + seq![so]);
                    assert(acc0 + (seq![so] + rest) =~= (acc0 + seq![so]) + rest);
                },
                None => {
                    assert(spec_read_outputs(s, pos0, (output_count - k) as nat) is None);
                },
            }
        }
        outputs.push(out);
        k = k + 1;
    }
    proof {
        assert(spec_read_outputs(s, c.pos as int, 0) == Some(
            (Seq::<SpecOutput>::empty(), c.pos as int),
        ));
        assert(outputs_view(outputs@) + Seq::<SpecOutput>::empty() =~= outputs_view(outputs@));
    }
    let lock_time = match read_u32(&mut c) {
        Ok(v) => v,
        Err(e) => {
            return Err(e);
        },
    };
    let transaction_id = hash_raw_transaction(bytes);
    let tx = Transaction { version, inputs, outputs, lock_time, transaction_id };
    proof {
        assert(spec_decode(s) == Some(tx@));
    }
    Ok(tx)
}

/// Decodes a transaction from hexadecimal text (case-insensitive). Fails with
/// `MalformedInput` exactly when the text is not well-formed hexadecimal, and
/// with `InsufficientData` exactly when the bytes it denotes are exhausted
/// before a required field could be read.
pub fn decode_transaction_hex(text: &Vec<u8>) -> (r: Result<Transaction, TxError>)
    ensures
        if is_hex_text(text@) {
            match spec_decode(hex_text_bytes(text@)) {
                Some(t) => r matches Ok(tx) && tx@ == t && tx.wf(),
                None => r matches Err(e) && e == TxError::InsufficientData,
            }
        } else {
            r matches Err(e) && e == TxError::MalformedInput
        },
{
    let bytes = match hex_decode(text) {
        Ok(v) => v,
        Err(e) => {
            return Err(e);
        },
    };
    decode_transaction(&bytes)
}

/// A successful input read ends past where it began.
proof fn lemma_input_advances(s: Seq<u8>, pos: int)
    ensures
        spec_read_input(s, pos) matches Some((v, p)) ==> p > pos,
{
    match spec_read_txid(s, pos) {
        Some((_txid, p1)) => match spec_read_u32(s, p1) {
            Some((_oi, p2)) => {
                crate::fields::lemma_script_advances(s, p2);
            },
            None => {},
        },
        None => {},
    }
}

/// A successful read of a run of inputs never ends before it began.
proof fn lemma_inputs_advance(s: Seq<u8>, pos: int, n: nat)
    ensures
        spec_read_inputs(s, pos, n) matches Some((v, q)) ==> q >= pos,
    decreases n,
{
    if n > 0 {
        lemma_input_advances(s, pos);
        match spec_read_input(s, pos) {
            Some((_inp, p)) => {
                lemma_inputs_advance(s, p, (n - 1) as nat);
            },
            None => {},
        }
    }
}

/// A successful output read ends past where it began.
proof fn lemma_output_advances(s: Seq<u8>, pos: int)
    ensures
        spec_read_output(s, pos) matches Some((v, p)) ==> p > pos,
{
    match spec_read_u64(s, pos) {
        Some((_amount, p1)) => {
            crate::fields::lemma_script_advances(s, p1);
        },
        None => {},
    }
}

/// A successful read of a run of outputs never ends before it began.
proof fn lemma_outputs_advance(s: Seq<u8>, pos: int, n: nat)
    ensures
        spec_read_outputs(s, pos, n) matches Some((v, q)) ==> q >= pos,
    decreases n,
{
    if n > 0 {
        lemma_output_advances(s, pos);
        match spec_read_output(s, pos) {
            Some((_out, p)) => {
                lemma_outputs_advance(s, p, (n - 1) as nat);
            },
            None => {},
        }
    }
}

/// Cutting a buffer to its first `m` bytes never changes what an input read
/// within the cut yields; a read that needed bytes at or past the cut fails
/// on the cut buffer.
proof fn lemma_input_prefix(s: Seq<u8>, m: int, pos: int)
    requires
        0 <= pos,
        0 <= m <= s.len(),
    ensures
        match spec_read_input(s, pos) {
            Some((v, p)) => if p <= m {
                spec_read_input(s.take(m), pos) == Some((v, p))
            } else {
                spec_read_input(s.take(m), pos) is None
            },
            None => spec_read_input(s.take(m), pos) is None,
        },
{
    crate::fields::lemma_txid_prefix(s, m, pos);
    match spec_read_txid(s, pos) {
        Some((_txid, p1)) => {
            crate::fields::lemma_u32_prefix(s, m, p1);
            match spec_read_u32(s, p1) {
                Some((_oi, p2)) => {
                    crate::fields::lemma_script_prefix(s, m, p2);
                    crate::fields::lemma_script_advances(s, p2);
                    match spec_read_script(s, p2) {
                        Some((_ss, p3)) => {
                            crate::fields::lemma_u32_prefix(s, m, p3);
                        },
                        None => {},
                    }
                },
                None => {},
            }
        },
        None => {},
    }
}

/// The same cut stability for a run of inputs starting inside the cut.
proof fn lemma_inputs_prefix(s: Seq<u8>, m: int, pos: int, n: nat)
    requires
        0 <= pos <= m <= s.len(),
    ensures
        match spec_read_inputs(s, pos, n) {
            Some((v, q)) => if q <= m {
                spec_read_inputs(s.take(m), pos, n) == Some((v, q))
            } else {
                spec_read_inputs(s.take(m), pos, n) is None
            },
            None => spec_read_inputs(s.take(m), pos, n) is None,
        },
    decreases n,
{
    if n > 0 {
        lemma_input_prefix(s, m, pos);
        match spec_read_input(s, pos) {
            Some((inp, p)) => {
                lemma_inputs_advance(s, p, (n - 1) as nat);
                if p <= m {
                    lemma_inputs_prefix(s, m, p, (n - 1) as nat);
                }
            },
            None => {},
        }
    }
}

/// The same cut stability for one output.
proof fn lemma_output_prefix(s: Seq<u8>, m: int, pos: int)
    requires
        0 <= pos,
        0 <= m <= s.len(),
    ensures
        match spec_read_output(s, pos) {
            Some((v, p)) => if p <= m {
                spec_read_output(s.take(m), pos) == Some((v, p))
            } else {
                spec_read_output(s.take(m), pos) is None
            },
            None => spec_read_output(s.take(m), pos) is None,
        },
{
    crate::fields::lemma_u64_prefix(s, m, pos);
    match spec_read_u64(s, pos) {
        Some((_amount, p1)) => {
            crate::fields::lemma_script_prefix(s, m, p1);
        },
        None => {},
    }
}

/// The same cut stability for a run of outputs starting inside the cut.
proof fn lemma_outputs_prefix(s: Seq<u8>, m: int, pos: int, n: nat)
    requires
        0 <= pos <= m <= s.len(),
    ensures
        match spec_read_outputs(s, pos, n) {
            Some((v, q)) => if q <= m {
                spec_read_outputs(s.take(m), pos, n) == Some((v, q))
            } else {
                spec_read_outputs(s.take(m), pos, n) is None
            },
            None => spec_read_outputs(s.take(m), pos, n) is None,
        },
    decreases n,
{
    if n > 0 {
        lemma_output_prefix(s, m, pos);
        match spec_read_output(s, pos) {
            Some((out, p)) => {
                lemma_outputs_advance(s, p, (n - 1) as nat);
                if p <= m {
                    lemma_outputs_prefix(s, m, p, (n - 1) as nat);
                }
            },
            None => {},
        }
    }
}

/// Law: decoding a truncated buffer always fails. If decoding `s` succeeds
/// after consuming some count of bytes, then a buffer cut anywhere short of
/// that count decodes to nothing — and [`decode_transaction`] on such a cut
/// therefore returns `InsufficientData`, by its contract.
pub proof fn lemma_truncated_buffer_fails(s: Seq<u8>, m: int)
    requires
        0 <= m <= s.len(),
        spec_decode_fields(s) is Some,
        m < spec_decode_fields(s).unwrap().4,
    ensures
        spec_decode(s.take(m)) is None,
{
    crate::fields::lemma_u32_prefix(s, m, 0);
    match spec_read_u32(s, 0) {
        Some((_version, p0)) => {
            if p0 <= m {
                crate::compact::lemma_compact_size_prefix(s, m, p0);
                match spec_read_compact_size(s, p0) {
                    Some((input_count, p1)) => {
                        if p1 <= m {
                            lemma_inputs_prefix(s, m, p1, input_count as nat);
                            match spec_read_inputs(s, p1, input_count as nat) {
                                Some((_inputs, p2)) => {
                                    if p2 <= m {
                                        crate::compact::lemma_compact_size_prefix(s, m, p2);
                                        match spec_read_compact_size(s, p2) {
                                            Some((output_count, p3)) => {
                                                if p3 <= m {
                                                    lemma_outputs_prefix(
                                                        s,
                                                        m,
                                                        p3,
                                                        output_count as nat,
                                                    );
                                                    match spec_read_outputs(
                                                        s,
                                                        p3,
                                                        output_count as nat,
                                                    ) {
                                                        Some((_outputs, p4)) => {
                                                            if p4 <= m {
                                                                crate::fields::lemma_u32_prefix(
                                                                    s,
                                                                    m,
                                                                    p4,
                                                                );
                                                            }
                                                        },
                                                        None => {},
                                                    }
                                                }
                                            },
                                            None => {},
                                        }
                                    }
                                },
                                None => {},
                            }
                        }
                    },
                    None => {},
                }
            }
        },
        None => {},
    }
}

/// Law: decoding is a pure function of the byte buffer alone. Two decodes of
/// equal buffers yield equal structured transactions, identifiers included;
/// [`decode_transaction`] returns exactly this value.
pub proof fn lemma_decode_deterministic(s1: Seq<u8>, s2: Seq<u8>)
    requires
        s1 == s2,
    ensures
        spec_decode(s1) == spec_decode(s2),
{
}

} // verus!
