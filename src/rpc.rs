//! What the JSON-RPC methods compute: the head height, and the blobs of
//! decided blocks.
use vstd::prelude::*;

use crate::blob::{Blob, BLOB_SIZE};
use crate::keys::{Signature, VerificationKey};
use crate::transaction::{tx_bytes, Transaction};
use crate::crypto::keccak256_of;
use crate::block::{block_blobs, Block};
use crate::block_codec::{block_model, parse_block};
use crate::height::Height;
use crate::store::{height_key, Store};
use crate::table::TableKey;

verus! {

/// Error code of every JSON-RPC error this node returns.
pub const INTERNAL_ERROR_CODE: i32 = -32603;

/// Why a blob could not be served.
#[derive(Debug, PartialEq, Eq, Structural)]
pub enum RpcError {
    /// No block is decided at that height.
    BlockNotFound,
    /// The stored bytes of the block do not decode.
    UndecodableBlock,
    /// The block has fewer blobs than the index asks for.
    BlobIndexOutOfBounds,
}

impl RpcError {
    pub fn code(&self) -> (r: i32)
        ensures
            r == INTERNAL_ERROR_CODE,
    {
        INTERNAL_ERROR_CODE
    }

    /// The message of the error.
    pub fn message(&self) -> (r: String)
        ensures
            r@ == (match *self {
                RpcError::BlockNotFound => "Couldn't find block"@,
                RpcError::UndecodableBlock => "Couldn't decode block"@,
                RpcError::BlobIndexOutOfBounds => "Blob index out of bounds"@,
            }),
    {
        match self {
            RpcError::BlockNotFound => String::from_str("Couldn't find block"),
            RpcError::UndecodableBlock => String::from_str("Couldn't decode block"),
            RpcError::BlobIndexOutOfBounds => String::from_str("Blob index out of bounds"),
        }
    }
}

/// The highest decided height, zero when nothing is decided.
pub fn block_number(store: &Store) -> (r: u64)
    requires
        store.wf(),
    ensures
        store.decided_values().dom() == Set::<TableKey>::empty() ==> r == 0,
        store.decided_values().dom() != Set::<TableKey>::empty() ==> (exists|k: TableKey|
            #[trigger] store.decided_values().contains_key(k) && k.height == r)
            && forall|k: TableKey| #[trigger] store.decided_values().contains_key(k) ==> k.height <= r,
{
    match store.max_decided_value_height() {
        Some(h) => h.0,
        None => 0,
    }
}

/// The blob at `blob_index` in the block decided at `block_height`.
pub fn get_blob(store: &Store, block_height: u64, blob_index: usize) -> (r: Result<Blob, RpcError>)
    requires
        store.wf(),
    ensures
        !store.decided_block_data().contains_key(height_key(block_height)) <==> r == Err::<Blob, RpcError>(RpcError::BlockNotFound),
        store.decided_block_data().contains_key(height_key(block_height)) ==> {
            let bytes = store.decided_block_data()[height_key(block_height)]@;
            match parse_block(bytes) {
                None => r == Err::<Blob, RpcError>(RpcError::UndecodableBlock),
                Some(m) => exists|b: Block| {
                    &&& block_model(b) == m
                    &&& if blob_index < block_blobs(b.transactions@).len() {
                        r matches Ok(blob) && blob@ == block_blobs(b.transactions@)[blob_index as int]
                    } else {
                        r == Err::<Blob, RpcError>(RpcError::BlobIndexOutOfBounds)
                    }
                },
            }
        },
{
    let bytes = match store.get_decided_block(Height(block_height)) {
        None => return Err(RpcError::BlockNotFound),
        Some(b) => b,
    };
    let block = match Block::from_bytes(bytes.as_slice()) {
        None => return Err(RpcError::UndecodableBlock),
        Some(b) => b,
    };
    let mut blobs = block.blobs();
    proof {
        assert(blobs@.map_values(|b: Blob| b@).len() == blobs@.len());
    }
    if blob_index >= blobs.len() {
        return Err(RpcError::BlobIndexOutOfBounds);
    }
    let blob = blobs.swap_remove(blob_index);
    proof {
        assert(blobs@.map_values(|b: Blob| b@).len() == blobs@.len());
    }
    Ok(blob)
}

/// The value of a hexadecimal digit, in either case.
pub open spec fn hex_val(c: u8) -> Option<u8> {
    if 48 <= c <= 57 {
        Some((c - 48) as u8)
    } else if 97 <= c <= 102 {
        Some((c - 87) as u8)
    } else if 65 <= c <= 70 {
        Some((c - 55) as u8)
    } else {
        None
    }
}

/// The bytes that a hexadecimal string stands for: two digits per byte, high
/// digit first; `None` for an odd length or a character that is no digit.
pub open spec fn hex_decoded(s: Seq<u8>) -> Option<Seq<u8>>
    decreases s.len(),
{
    if s.len() == 0 {
        Some(Seq::empty())
    } else if s.len() == 1 {
        None
    } else {
        match (hex_val(s[0]), hex_val(s[1]), hex_decoded(s.skip(2))) {
            (Some(h), Some(l), Some(rest)) => Some(seq![(h * 16 + l) as u8] + rest),
            _ => None,
        }
    }
}

/// Relies on hex::decode: for an even number of hexadecimal digits of either
/// case, the bytes they stand for, two digits each, high digit first; an error
/// otherwise.
#[verifier::external_body]
fn hex_decode(s: &[u8]) -> (r: Option<Vec<u8>>)
    ensures
        match hex_decoded(s@) {
            None => r is None,
            Some(b) => r matches Some(v) && v@ == b,
        },
{
    hex::decode(s).ok()
}

/// Why the fields of a submitted transaction were refused.
#[derive(Debug, PartialEq, Eq, Structural)]
pub enum WireError {
    /// The signature is not hexadecimal.
    InvalidSignatureHex,
    /// The signature is not 64 bytes long; the length is given.
    InvalidSignatureLength(usize),
    /// There are not four blobs; the count is given.
    BlobCount(usize),
    /// The blob at this index is not hexadecimal.
    InvalidBlobHex(usize),
    /// The blob at this index is not `BLOB_SIZE` bytes long.
    InvalidBlobLength(usize),
}

/// The first problem among the blobs from index `i` on.
pub open spec fn blob_error_from(data: Seq<Seq<u8>>, i: int) -> Option<WireError>
    decreases data.len() - i,
{
    if i < 0 || i >= data.len() {
        None
    } else {
        match hex_decoded(data[i]) {
            None => Some(WireError::InvalidBlobHex(i as usize)),
            Some(b) => if b.len() != BLOB_SIZE {
                Some(WireError::InvalidBlobLength(i as usize))
            } else {
                blob_error_from(data, i + 1)
            },
        }
    }
}

/// The first problem with the fields of a submitted transaction, checked in
/// order: signature, number of blobs, then each blob.
pub open spec fn wire_error(signature_hex: Seq<u8>, data_hex: Seq<Seq<u8>>) -> Option<WireError> {
    match hex_decoded(signature_hex) {
        None => Some(WireError::InvalidSignatureHex),
        Some(sig) => if sig.len() != 64 {
            Some(WireError::InvalidSignatureLength(sig.len() as usize))
        } else if data_hex.len() != 4 {
            Some(WireError::BlobCount(data_hex.len() as usize))
        } else {
            blob_error_from(data_hex, 0)
        },
    }
}

/// A transaction as submitted over JSON-RPC.
#[derive(Debug)]
pub struct RpcTransaction {
    pub from: VerificationKey,
    pub to: VerificationKey,
    pub signature: Signature,
    pub value: u64,
    pub nonce: u64,
    pub gas_price: u64,
    pub data: [Blob; 4],
}

impl RpcTransaction {
    /// Reads the fields of a submitted transaction: the signature and the four
    /// blobs in hexadecimal, every blob `BLOB_SIZE` bytes long.
    pub fn from_hex(
        from: [u8; 32],
        to: [u8; 32],
        signature_hex: &[u8],
        value: u64,
        nonce: u64,
        gas_price: u64,
        data_hex: &Vec<Vec<u8>>,
    ) -> (r: Result<RpcTransaction, WireError>)
        ensures
            r is Err <==> wire_error(signature_hex@, data_hex@.map_values(|h: Vec<u8>| h@)) is Some,
            r matches Err(e) ==> wire_error(signature_hex@, data_hex@.map_values(|h: Vec<u8>| h@)) == Some(e),
            r matches Ok(t) ==> {
                &&& t.from.0 == from
                &&& t.to.0 == to
                &&& hex_decoded(signature_hex@) == Some(t.signature.0@)
                &&& t.value == value
                &&& t.nonce == nonce
                &&& t.gas_price == gas_price
                &&& forall|i: int| 0 <= i < 4 ==> hex_decoded(#[trigger] data_hex@[i]@) == Some(t.data[i]@)
            },
    {
        let ghost hexes = data_hex@.map_values(|h: Vec<u8>| h@);
        let sig = match hex_decode(signature_hex) {
            None => return Err(WireError::InvalidSignatureHex),
            Some(s) => s,
        };
        if sig.len() != 64 {
            return Err(WireError::InvalidSignatureLength(sig.len()));
        }
        if data_hex.len() != 4 {
            return Err(WireError::BlobCount(data_hex.len()));
        }
        let mut signature = [0u8; 64];
        let mut k: usize = 0;
        while k < 64
            invariant
                sig@.len() == 64,
                k <= 64,
                forall|j: int| 0 <= j < k ==> signature@[j] == sig@[j],
            decreases 64 - k,
        {
            signature[k] = sig[k];
            k = k + 1;
        }
        assert(signature@ =~= sig@);
        let mut blobs: Vec<Blob> = Vec::new();
        let mut i: usize = 0;
        assert(wire_error(signature_hex@, hexes) == blob_error_from(hexes, 0));
        while i < 4
            invariant
                wire_error(signature_hex@, hexes) == blob_error_from(hexes, 0),
                hex_decoded(signature_hex@) == Some(signature@),
                data_hex@.len() == 4,
                hexes == data_hex@.map_values(|h: Vec<u8>| h@),
                i <= 4,
                blobs@.len() == i,
                blob_error_from(hexes, 0) == blob_error_from(hexes, i as int),
                forall|j: int| 0 <= j < i ==> hex_decoded(#[trigger] data_hex@[j]@) == Some(blobs@[j]@),
            decreases 4 - i,
        {
            assert(hexes[i as int] == data_hex@[i as int]@);
            let bytes = match hex_decode(data_hex[i].as_slice()) {
                None => return Err(WireError::InvalidBlobHex(i)),
                Some(b) => b,
            };
            if bytes.len() != BLOB_SIZE {
                return Err(WireError::InvalidBlobLength(i));
            }
            blobs.push(Blob::new(bytes));
            i = i + 1;
        }
        assert(blob_error_from(hexes, 4) is None);
        let b3 = blobs.pop().unwrap();
        let b2 = blobs.pop().unwrap();
        let b1 = blobs.pop().unwrap();
        let b0 = blobs.pop().unwrap();
        Ok(RpcTransaction {
            from: VerificationKey(from),
            to: VerificationKey(to),
            signature: Signature(signature),
            value,
            nonce,
            gas_price,
            data: [b0, b1, b2, b3],
        })
    }

    /// The transaction that this submission describes, with its hash computed.
    pub fn into_transaction(self) -> (r: Transaction)
        ensures
            r.from == self.from,
            r.to == self.to,
            r.signature == self.signature,
            r.value == self.value,
            r.data == self.data,
            r.nonce == self.nonce,
            r.gas_price == self.gas_price,
            r.hash@ == keccak256_of(tx_bytes(r)),
    {
        Transaction::new(self.from, self.to, self.signature, self.value, self.data, self.nonce, self.gas_price)
    }

    /// The submission form of a transaction.
    pub fn from_transaction(tx: &Transaction) -> (r: RpcTransaction)
        ensures
            r.from == tx.from,
            r.to == tx.to,
            r.signature == tx.signature,
            r.value == tx.value,
            r.nonce == tx.nonce,
            r.gas_price == tx.gas_price,
            forall|i: int| 0 <= i < 4 ==> (#[trigger] r.data[i])@ == tx.data[i]@,
    {
        RpcTransaction {
            from: tx.from,
            to: tx.to,
            signature: tx.signature,
            value: tx.value,
            nonce: tx.nonce,
            gas_price: tx.gas_price,
            data: [
                tx.data[0].duplicate(),
                tx.data[1].duplicate(),
                tx.data[2].duplicate(),
                tx.data[3].duplicate(),
            ],
        }
    }
}

} // verus!
