//! Per-block metadata: transaction count, size and weight.
use crate::block::HeaderEntry;
use vstd::prelude::*;

verus! {

#[verifier::external_type_specification]
#[verifier::external_body]
pub struct ExJsonValue(serde_json::Value);

#[verifier::external_type_specification]
#[verifier::external_body]
pub struct ExBlock(bitcoin::Block);

/// Transaction count, serialized size and weight of a block.
#[derive(Clone, Copy, Debug)]
pub struct BlockMeta {
    pub tx_count: u32,
    pub size: u32,
    pub weight: u32,
}

/// A header entry together with the metadata of its block.
pub struct BlockHeaderMeta {
    pub header_entry: HeaderEntry,
    pub meta: BlockMeta,
}

/// The fields that a `getblock` reply must carry.
#[derive(Clone, Copy, PartialEq, Eq, Debug)]
pub enum MetaField {
    NTx,
    Size,
    Weight,
}

/// Why a `getblock` reply could not be read.
#[derive(Clone, Copy, PartialEq, Eq, Debug)]
pub enum MetaError {
    /// The field is absent.
    Missing(MetaField),
    /// The field is present but is not a number.
    NotANumber(MetaField),
    /// The field is a number with a fractional part, or out of the 64-bit range.
    NotAnInteger(MetaField),
}

/// What one member of a JSON object holds, as far as metadata reads it.
#[derive(Clone, Copy, PartialEq, Eq, Debug)]
pub enum JsonField {
    Missing,
    NotANumber,
    Unsigned(u64),
    Negative,
    Fractional,
}

/// A number of the reply as a 32-bit count: saturating above, negative
/// values read as zero.
pub open spec fn count_of(f: JsonField) -> u32 {
    match f {
        JsonField::Unsigned(n) => if n > u32::MAX as u64 {
            u32::MAX
        } else {
            n as u32
        },
        _ => 0,
    }
}

pub open spec fn field_result(f: JsonField, which: MetaField) -> Result<u32, MetaError> {
    match f {
        JsonField::Missing => Err(MetaError::Missing(which)),
        JsonField::NotANumber => Err(MetaError::NotANumber(which)),
        JsonField::Fractional => Err(MetaError::NotAnInteger(which)),
        _ => Ok(count_of(f)),
    }
}

/// The metadata read from three fields; the first failing field decides the error.
pub open spec fn meta_from_fields_spec(
    tx_count: JsonField,
    size: JsonField,
    weight: JsonField,
) -> Result<BlockMeta, MetaError> {
    match field_result(tx_count, MetaField::NTx) {
        Err(e) => Err(e),
        Ok(t) => match field_result(size, MetaField::Size) {
            Err(e) => Err(e),
            Ok(s) => match field_result(weight, MetaField::Weight) {
                Err(e) => Err(e),
                Ok(w) => Ok(BlockMeta { tx_count: t, size: s, weight: w }),
            },
        },
    }
}

fn read_count(f: JsonField, which: MetaField) -> (r: Result<u32, MetaError>)
    ensures
        r == field_result(f, which),
{
    match f {
        JsonField::Missing => Err(MetaError::Missing(which)),
        JsonField::NotANumber => Err(MetaError::NotANumber(which)),
        JsonField::Fractional => Err(MetaError::NotAnInteger(which)),
        JsonField::Negative => Ok(0),
        JsonField::Unsigned(n) => if n > u32::MAX as u64 {
            Ok(u32::MAX)
        } else {
            Ok(n as u32)
        },
    }
}

impl BlockMeta {
    /// Builds the metadata from the three classified fields of a reply.
    pub fn from_fields(tx_count: JsonField, size: JsonField, weight: JsonField) -> (r: Result<
        BlockMeta,
        MetaError,
    >)
        ensures
            r == meta_from_fields_spec(tx_count, size, weight),
    {
        let t = match read_count(tx_count, MetaField::NTx) {
            Ok(v) => v,
            Err(e) => return Err(e),
        };
        let s = match read_count(size, MetaField::Size) {
            Ok(v) => v,
            Err(e) => return Err(e),
        };
        let w = match read_count(weight, MetaField::Weight) {
            Ok(v) => v,
            Err(e) => return Err(e),
        };
        Ok(BlockMeta { tx_count: t, size: s, weight: w })
    }

    /// Reads `nTx`, `size` and `weight` from a verbose `getblock` reply.
    /// Counts are whole numbers: a number with a fractional part is refused
    /// rather than truncated, since the library computes on integers only.
    pub fn parse_getblock(val: serde_json::Value) -> (r: Result<BlockMeta, MetaError>)
        ensures
            r == meta_from_fields_spec(
                json_field(val, "nTx"@),
                json_field(val, "size"@),
                json_field(val, "weight"@),
            ),
    {
        let a = field_of(&val, "nTx");
        let b = field_of(&val, "size");
        let c = field_of(&val, "weight");
        BlockMeta::from_fields(a, b, c)
    }
}

/// The member of a JSON object under a key, as `serde_json::Value::get` finds it.
pub uninterp spec fn json_member(v: serde_json::Value, key: Seq<char>) -> Option<serde_json::Value>;

/// Whether a JSON value is a number, as `serde_json::Value::is_number` says.
pub uninterp spec fn json_is_number_of(v: serde_json::Value) -> bool;

/// A JSON value as `serde_json::Value::as_u64` reads it.
pub uninterp spec fn json_u64_of(v: serde_json::Value) -> Option<u64>;

/// A JSON value as `serde_json::Value::as_i64` reads it.
pub uninterp spec fn json_i64_of(v: serde_json::Value) -> Option<i64>;

/// What the member `key` of a JSON object holds.
pub open spec fn json_field(val: serde_json::Value, key: Seq<char>) -> JsonField {
    match json_member(val, key) {
        None => JsonField::Missing,
        Some(v) => if !json_is_number_of(v) {
            JsonField::NotANumber
        } else {
            match json_u64_of(v) {
                Some(n) => JsonField::Unsigned(n),
                None => match json_i64_of(v) {
                    Some(_) => JsonField::Negative,
                    None => JsonField::Fractional,
                },
            }
        },
    }
}

/// Classifies the member `key` of a JSON object.
pub fn field_of(val: &serde_json::Value, key: &str) -> (r: JsonField)
    ensures
        r == json_field(*val, key@),
{
    match json_get(val, key) {
        None => JsonField::Missing,
        Some(v) => {
            if !json_is_number(v) {
                JsonField::NotANumber
            } else {
                match json_as_u64(v) {
                    Some(n) => JsonField::Unsigned(n),
                    None => match json_as_i64(v) {
                        Some(_) => JsonField::Negative,
                        None => JsonField::Fractional,
                    },
                }
            }
        },
    }
}

/// Relies on `serde_json::Value::get`: the member of an object under `key`.
#[verifier::external_body]
fn json_get<'a>(val: &'a serde_json::Value, key: &str) -> (r: Option<&'a serde_json::Value>)
    ensures
        match r {
            None => json_member(*val, key@) is None,
            Some(x) => json_member(*val, key@) == Some(*x),
        },
{
    val.get(key)
}

/// Relies on `serde_json::Value::is_number`.
#[verifier::external_body]
fn json_is_number(v: &serde_json::Value) -> (r: bool)
    ensures
        r == json_is_number_of(*v),
{
    v.is_number()
}

/// Relies on `serde_json::Value::as_u64`: the value when it is a
/// non-negative integer that fits in 64 bits.
#[verifier::external_body]
fn json_as_u64(v: &serde_json::Value) -> (r: Option<u64>)
    ensures
        r == json_u64_of(*v),
{
    v.as_u64()
}

/// Relies on `serde_json::Value::as_i64`: the value when it is an integer
/// that fits in a signed 64-bit word.
#[verifier::external_body]
fn json_as_i64(v: &serde_json::Value) -> (r: Option<i64>)
    ensures
        r == json_i64_of(*v),
{
    v.as_i64()
}

/// Sum of the transaction weights, each taken as a 32-bit word.
pub open spec fn weight_sum(ws: Seq<u64>) -> int
    decreases ws.len(),
{
    if ws.len() == 0 {
        0
    } else {
        weight_sum(ws.drop_last()) + (ws.last() as u32) as int
    }
}

/// Count, total weight and size, each as a 32-bit word.
pub open spec fn meta_of(ws: Seq<u64>, size: usize) -> BlockMeta {
    BlockMeta { tx_count: ws.len() as u32, size: size as u32, weight: weight_sum(ws) as u32 }
}

proof fn lemma_weight_sum_monotone(ws: Seq<u64>, i: int)
    requires
        0 <= i <= ws.len(),
    ensures
        weight_sum(ws.subrange(0, i)) <= weight_sum(ws),
    decreases ws.len() - i,
{
    if i < ws.len() {
        lemma_weight_sum_monotone(ws, i + 1);
        assert(ws.subrange(0, i + 1).drop_last() =~= ws.subrange(0, i));
    } else {
        assert(ws.subrange(0, i) =~= ws);
    }
}

/// Weights of a block's transactions, in order, as `get_weight` gives them.
pub uninterp spec fn weights_of(b: bitcoin::Block) -> Seq<u64>;

/// Length of a block's consensus encoding.
pub uninterp spec fn size_of(b: bitcoin::Block) -> usize;

/// Relies on `bitcoin::Transaction::get_weight`, for each transaction of the
/// block in order.
#[verifier::external_body]
fn tx_weights(block: &bitcoin::Block) -> (r: Vec<u64>)
    ensures
        r@ == weights_of(*block),
{
    block.txdata.iter().map(|tx| tx.get_weight()).collect()
}

/// Relies on `bitcoin::consensus::encode::serialize`: the length of the
/// block's encoding.
#[verifier::external_body]
fn serialized_size(block: &bitcoin::Block) -> (r: usize)
    ensures
        r == size_of(*block),
{
    bitcoin::consensus::encode::serialize(block).len()
}

/// The total weight, or `None` when it does not fit in 32 bits.
fn weight_total(ws: &Vec<u64>) -> (r: Option<u32>)
    ensures
        r is None <==> weight_sum(ws@) > u32::MAX,
        r matches Some(t) ==> t == weight_sum(ws@),
{
    let mut total: u64 = 0;
    let mut i: usize = 0;
    while i < ws.len()
        invariant
            i <= ws@.len(),
            total == weight_sum(ws@.subrange(0, i as int)),
            total <= u32::MAX,
        decreases ws@.len() - i,
    {
        assert(ws@.subrange(0, i + 1).drop_last() =~= ws@.subrange(0, i as int));
        total = total + ws[i] as u32 as u64;
        if total > u32::MAX as u64 {
            proof {
                lemma_weight_sum_monotone(ws@, i + 1);
            }
            return None;
        }
        i = i + 1;
    }
    assert(ws@.subrange(0, i as int) =~= ws@);
    Some(total as u32)
}

impl BlockMeta {
    /// Metadata from the weights of a block's transactions and its size.
    pub fn from_parts(tx_weights: &Vec<u64>, size: usize) -> (r: BlockMeta)
        requires
            weight_sum(tx_weights@) <= u32::MAX,
        ensures
            r == meta_of(tx_weights@, size),
    {
        let weight = match weight_total(tx_weights) {
            Some(t) => t,
            None => 0,
        };
        BlockMeta { tx_count: tx_weights.len() as u32, size: size as u32, weight }
    }

    /// Metadata of a parsed block; `None` when the weights overflow 32 bits.
    pub fn from_block(block: &bitcoin::Block) -> (r: Option<BlockMeta>)
        ensures
            r is None <==> weight_sum(weights_of(*block)) > u32::MAX,
            r matches Some(m) ==> m == meta_of(weights_of(*block), size_of(*block)),
    {
        let ws = tx_weights(block);
        let size = serialized_size(block);
        match weight_total(&ws) {
            None => None,
            Some(weight) => Some(BlockMeta { tx_count: ws.len() as u32, size: size as u32, weight }),
        }
    }
}

} // verus!
