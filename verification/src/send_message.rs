//! Arguments of the messages that the relay sends through a bridge: the
//! payload of remark calls, the dispatch weight and the room left for the
//! arguments of a call.

use vstd::prelude::*;

use crate::metrics::decimal;
use crate::race::Weight;

verus! {

/// Either an explicit value, or the maximal one that is allowed.
#[derive(Debug, Clone, Copy, PartialEq, Eq)]
pub enum ExplicitOrMaximal<V> {
    /// User has explicitly specified argument value.
    Explicit(V),
    /// Maximal allowed value for this argument.
    Maximal,
}

/// The bytes of an ASCII text.
pub open spec fn ascii_bytes(text: Seq<char>) -> Seq<u8> {
    text.map_values(|c: char| c as u8)
}

/// `Unix time: ` and the decimal digits of the time, in seconds.
pub open spec fn unix_time_text(unix_time_secs: u64) -> Seq<char> {
    seq!['U', 'n', 'i', 'x', ' ', 't', 'i', 'm', 'e', ':', ' '] + decimal(unix_time_secs as nat)
}

/// `len` zero bytes.
pub open spec fn zero_bytes(len: nat) -> Seq<u8> {
    Seq::new(len, |_i: int| 0u8)
}

/// Appends the decimal digits of `n` to `out`.
fn push_decimal(n: u64, out: &mut Vec<u8>)
    ensures
        final(out)@ == old(out)@ + ascii_bytes(decimal(n as nat)),
    decreases n,
{
    let digit: u8 = (n % 10) as u8;
    if n >= 10 {
        push_decimal(n / 10, out);
    }
    let byte: u8 = 48 + digit;
    out.push(byte);
    proof {
        let d = decimal(n as nat);
        if n >= 10 {
            assert(d == decimal((n / 10) as nat).push((48 + n % 10) as char));
            assert(ascii_bytes(d) =~= ascii_bytes(decimal((n / 10) as nat)).push(byte));
        } else {
            assert(ascii_bytes(d) =~= seq![byte]);
        }
        assert(final(out)@ =~= old(out)@ + ascii_bytes(d));
    }
}

/// `len` zero bytes.
fn zeros(len: usize) -> (r: Vec<u8>)
    ensures
        r@ == zero_bytes(len as nat),
{
    let mut r: Vec<u8> = Vec::new();
    let mut i: usize = 0;
    while i < len
        invariant
            i <= len,
            r@ == zero_bytes(i as nat),
        decreases len - i,
    {
        r.push(0);
        i = i + 1;
        assert(r@ =~= zero_bytes(i as nat));
    }
    r
}

/// Payload of a remark call: as many zero bytes as given, the maximal allowed
/// number of them, or, where no size is given, the text `Unix time: ` followed
/// by the current time (`unix_time_secs`, in seconds since the epoch).
pub fn remark_payload(
    remark_size: Option<ExplicitOrMaximal<usize>>,
    maximal_allowed_size: u32,
    unix_time_secs: u64,
) -> (r: Vec<u8>)
    ensures
        r@ == match remark_size {
            Some(ExplicitOrMaximal::Explicit(size)) => zero_bytes(size as nat),
            Some(ExplicitOrMaximal::Maximal) => zero_bytes(maximal_allowed_size as nat),
            None => ascii_bytes(unix_time_text(unix_time_secs)),
        },
{
    match remark_size {
        Some(ExplicitOrMaximal::Explicit(size)) => zeros(size),
        Some(ExplicitOrMaximal::Maximal) => zeros(maximal_allowed_size as usize),
        None => {
            let mut out: Vec<u8> = Vec::new();
            out.push(85);
            out.push(110);
            out.push(105);
            out.push(120);
            out.push(32);
            out.push(116);
            out.push(105);
            out.push(109);
            out.push(101);
            out.push(58);
            out.push(32);
            let ghost prefix = out@;
            push_decimal(unix_time_secs, &mut out);
            proof {
                let head = seq!['U', 'n', 'i', 'x', ' ', 't', 'i', 'm', 'e', ':', ' '];
                assert(ascii_bytes(head) =~= prefix);
                assert(ascii_bytes(unix_time_text(unix_time_secs)) =~= ascii_bytes(head) + ascii_bytes(
                    decimal(unix_time_secs as nat),
                ));
            }
            out
        },
    }
}

/// The dispatch weight of a message: the one that the user has specified, or
/// else the one that the call weighs before dispatch; `Maximal` stands for
/// `maximal_allowed_weight`.
pub fn prepare_call_dispatch_weight(
    user_specified_dispatch_weight: Option<ExplicitOrMaximal<Weight>>,
    weight_from_pre_dispatch_call: ExplicitOrMaximal<Weight>,
    maximal_allowed_weight: Weight,
) -> (r: Weight)
    ensures
        r == match (match user_specified_dispatch_weight {
            Some(weight) => weight,
            None => weight_from_pre_dispatch_call,
        }) {
            ExplicitOrMaximal::Explicit(weight) => weight,
            ExplicitOrMaximal::Maximal => maximal_allowed_weight,
        },
{
    let weight = match user_specified_dispatch_weight {
        Some(weight) => weight,
        None => weight_from_pre_dispatch_call,
    };
    match weight {
        ExplicitOrMaximal::Explicit(weight) => weight,
        ExplicitOrMaximal::Maximal => maximal_allowed_weight,
    }
}

/// Bytes of a source chain transaction that are not the message call: both the
/// signed extensions and the other arguments are assumed to fit 1KB.
pub const SERVICE_TX_BYTES_ON_SOURCE_CHAIN: u32 = 1024;

/// Bytes in the encoding of a call that are used to encode everything except
/// its arguments.
pub const CALL_SERVICE_BYTES: u32 = 6;

/// Room for the arguments of a message call: the call must fit both the source
/// chain transaction (less `SERVICE_TX_BYTES_ON_SOURCE_CHAIN`) and the maximal
/// incoming message size of the target chain, and `CALL_SERVICE_BYTES` of it
/// are not arguments.
pub open spec fn maximal_message_arguments_size(maximal_source_extrinsic_size: u32, maximal_call_size: u32) -> int {
    let at_source = maximal_source_extrinsic_size - SERVICE_TX_BYTES_ON_SOURCE_CHAIN;
    let call = if maximal_call_size > at_source {
        at_source
    } else {
        maximal_call_size as int
    };
    call - CALL_SERVICE_BYTES
}

/// Computes the room for the arguments of a message call, given the maximal
/// size of a source chain transaction and the maximal size of an incoming
/// message call at the target chain (`maximal_call_size`, that the target
/// chain's runtime derives from its maximal transaction size).
pub fn compute_maximal_message_arguments_size(maximal_source_extrinsic_size: u32, maximal_call_size: u32) -> (r: u32)
    requires
        maximal_source_extrinsic_size >= SERVICE_TX_BYTES_ON_SOURCE_CHAIN + CALL_SERVICE_BYTES,
        maximal_call_size >= CALL_SERVICE_BYTES,
    ensures
        r == maximal_message_arguments_size(maximal_source_extrinsic_size, maximal_call_size),
        r + CALL_SERVICE_BYTES <= maximal_call_size,
        r + CALL_SERVICE_BYTES + SERVICE_TX_BYTES_ON_SOURCE_CHAIN <= maximal_source_extrinsic_size,
{
    let maximal_source_extrinsic_size = maximal_source_extrinsic_size - SERVICE_TX_BYTES_ON_SOURCE_CHAIN;
    let maximal_call_size = if maximal_call_size > maximal_source_extrinsic_size {
        maximal_source_extrinsic_size
    } else {
        maximal_call_size
    };
    maximal_call_size - CALL_SERVICE_BYTES
}

} // verus!
