//! Fixed-width name codec.
//!
//! A display name travels to the remote program in a fixed 32-byte slot:
//! the name's raw bytes left-packed, right-padded with ASCII space. Decoding
//! trims the trailing spaces back off. Names longer than the slot are
//! rejected outright; no partial write happens.

use vstd::prelude::*;
use vstd::string::{StrSliceExecFns, StringSliceAdditionalSpecFns};

use crate::types::{SdkError, SdkResult};

verus! {

/// Width in bytes of the name slot in the remote program's account layout.
pub const MAX_NAME_LENGTH: usize = 32;

/// Byte the remote layout pads names with: ASCII space.
pub const NAME_PADDING: u8 = 0x20;

/// Name given to a user's first sub-account when none is chosen.
pub const DEFAULT_USER_NAME: &'static str = "Main Account";

/// Name given to a market when none is chosen.
pub const DEFAULT_MARKET_NAME: &'static str = "Default Market Name";

/// `count` padding bytes.
pub open spec fn spec_padding(count: nat) -> Seq<u8> {
    Seq::new(count, |i: int| 0x20u8)
}

/// The 32-byte wire form of `name`: its bytes, right-padded with spaces.
pub open spec fn spec_encode_name(name: Seq<u8>) -> Seq<u8>
    recommends
        name.len() <= 32,
{
    name + spec_padding((32 - name.len()) as nat)
}

/// The display form of a stored 32-byte name: trailing spaces trimmed.
pub open spec fn spec_trim_name(stored: Seq<u8>) -> Seq<u8>
    decreases stored.len(),
{
    if stored.len() == 0 {
        stored
    } else if stored.last() == 0x20u8 {
        spec_trim_name(stored.drop_last())
    } else {
        stored
    }
}

/// Encodes `name` into the fixed 32-byte slot the remote program expects:
/// the name's bytes left-packed, space-padded on the right. A name longer
/// than the slot is rejected with `NameTooLong`.
pub fn encode_name(name: &str) -> (r: SdkResult<Vec<u8>>)
    ensures
        name.spec_bytes().len() <= 32 ==> (match r {
            Ok(encoded) => encoded@ == spec_encode_name(name.spec_bytes()) && encoded@.len() == 32,
            Err(_) => false,
        }),
        name.spec_bytes().len() > 32 ==> r == Err::<Vec<u8>, SdkError>(SdkError::NameTooLong),
{
    let mut buffer = name.as_bytes_vec();
    if buffer.len() > MAX_NAME_LENGTH {
        return Err(SdkError::NameTooLong);
    }
    while buffer.len() < MAX_NAME_LENGTH
        invariant
            name.spec_bytes().len() <= buffer@.len() <= 32,
            buffer@.subrange(0, name.spec_bytes().len() as int) == name.spec_bytes(),
            forall|j: int| name.spec_bytes().len() <= j < buffer@.len() ==> buffer@[j] == 0x20u8,
        decreases 32 - buffer@.len(),
    {
        buffer.push(NAME_PADDING);
        proof {
            assert(buffer@.subrange(0, name.spec_bytes().len() as int) =~= name.spec_bytes());
        }
    }
    proof {
        assert(buffer@ =~= spec_encode_name(name.spec_bytes()));
    }
    Ok(buffer)
}

/// Decodes a stored name by trimming its trailing padding spaces.
pub fn decode_name(stored: &Vec<u8>) -> (r: Vec<u8>)
    ensures
        r@ == spec_trim_name(stored@),
{
    let mut end = stored.len();
    proof {
        assert(stored@.take(stored@.len() as int) =~= stored@);
    }
    while end > 0 && stored[end - 1] == NAME_PADDING
        invariant
            end <= stored@.len(),
            spec_trim_name(stored@) == spec_trim_name(stored@.take(end as int)),
        decreases end,
    {
        proof {
            assert(stored@.take(end as int).drop_last() =~= stored@.take(end - 1));
        }
        end -= 1;
    }
    let mut r: Vec<u8> = Vec::new();
    let mut i: usize = 0;
    while i < end
        invariant
            i <= end <= stored@.len(),
            r@ == stored@.take(end as int).take(i as int),
        decreases end - i,
    {
        r.push(stored[i]);
        proof {
            assert(r@ =~= stored@.take(end as int).take(i + 1));
        }
        i += 1;
    }
    proof {
        assert(stored@.take(end as int).take(end as int) =~= stored@.take(end as int));
        if end > 0 {
            assert(stored@.take(end as int).last() != 0x20u8);
        }
    }
    r
}

/// Padding on the right of a name trims away entirely: trimming is blind to
/// how many spaces the slot added.
proof fn lemma_trim_padded(name: Seq<u8>, count: nat)
    ensures
        spec_trim_name(name + spec_padding(count)) == spec_trim_name(name),
    decreases count,
{
    if count == 0 {
        assert(name + spec_padding(0) =~= name);
    } else {
        assert((name + spec_padding(count)).drop_last() =~= name + spec_padding((count - 1) as nat));
        lemma_trim_padded(name, (count - 1) as nat);
    }
}

/// Round trip: encoding a name of at most 32 bytes into the wire slot and
/// trimming the stored slot reproduces the name exactly, provided the name
/// does not itself end in a padding space (a trailing space is
/// indistinguishable from padding on the wire).
pub proof fn lemma_name_round_trip(name: Seq<u8>)
    requires
        name.len() <= 32,
        name.len() > 0 ==> name.last() != 0x20u8,
    ensures
        spec_trim_name(spec_encode_name(name)) == name,
{
    lemma_trim_padded(name, (32 - name.len()) as nat);
}

} // verus!
