//! Forward error correction: Reed-Solomon erasure coding over GF(2^8).
//!
//! The shards are handed over as data shards followed by parity buffers of
//! the same length; encoding fills the parity buffers.

use reed_solomon_erasure::galois_8::ReedSolomon;
use vstd::prelude::*;
use vstd::string::StringExecFns;

use crate::error::FiudpError;

verus! {

/// Largest number of shards (data and parity) of a code over GF(2^8).
pub const GF8_MAX_SHARDS: usize = 256;

/// Lets the error of `reed-solomon-erasure` travel through the wrappers below.
#[verifier::external_type_specification]
#[verifier::external_body]
pub struct ExReedSolomonError(reed_solomon_erasure::Error);

/// The shards after `ReedSolomon::encode` of a code with `data_shards` data
/// shards and `parity_shards` parity shards ran on `shards`.
pub uninterp spec fn reed_solomon_encoded(
    data_shards: nat,
    parity_shards: nat,
    shards: Seq<Seq<u8>>,
) -> Seq<Seq<u8>>;

/// Whether `ReedSolomon::new(data_shards, parity_shards)` builds a code.
pub open spec fn reed_solomon_code_exists(data_shards: nat, parity_shards: nat) -> bool {
    0 < data_shards && 0 < parity_shards && data_shards + parity_shards <= GF8_MAX_SHARDS
}

/// Whether the shards have the shape that encoding requires: one per data and
/// parity shard, all of the same non-zero length.
pub open spec fn shards_well_shaped(data_shards: nat, parity_shards: nat, shards: Seq<Seq<u8>>) -> bool {
    &&& shards.len() == data_shards + parity_shards
    &&& shards.len() > 0
    &&& shards[0].len() > 0
    &&& forall|i: int| 0 <= i < shards.len() ==> #[trigger] shards[i].len() == shards[0].len()
}

/// The `Display` text of the error that `ReedSolomon::new` returns for
/// counts that admit no code: `TooFewDataShards`, `TooFewParityShards` or
/// `TooManyShards`, checked in that order.
pub open spec fn reed_solomon_setup_error(data_shards: nat, parity_shards: nat) -> Seq<char> {
    if data_shards == 0 {
        "The number of provided data shards is smaller than the one in codec"@
    } else if parity_shards == 0 {
        "The number of provided parity shards is smaller than the one in codec"@
    } else {
        "The number of provided shards is greater than the one in codec"@
    }
}

/// The `Display` text of the error that `ReedSolomon::encode` returns for
/// shards of the wrong shape: `TooFewShards` or `TooManyShards` for the
/// wrong number, then `EmptyShard` for an empty first shard, then
/// `IncorrectShardSize`.
pub open spec fn reed_solomon_encode_error(
    data_shards: nat,
    parity_shards: nat,
    shards: Seq<Seq<u8>>,
) -> Seq<char> {
    if shards.len() < data_shards + parity_shards {
        "The number of provided shards is smaller than the one in codec"@
    } else if shards.len() > data_shards + parity_shards {
        "The number of provided shards is greater than the one in codec"@
    } else if shards[0].len() == 0 {
        "The first shard provided is of zero length"@
    } else {
        "At least one of the provided shards is not of the correct size"@
    }
}

/// Where encoding stopped, with the `Display` text of the crate's error.
enum FecFailure {
    /// `ReedSolomon::new` refused the shard counts.
    Setup(String),
    /// `ReedSolomon::encode` refused the shards.
    Encode(String),
}

/// Builds the code with `ReedSolomon::new(data_shards, parity_shards)` and runs
/// its `encode` on `shards`; an error is returned as its `Display` text.
///
/// Trusted, from the crate's source: `new` fails exactly when
/// [`reed_solomon_code_exists`] does not hold, with the error whose text is
/// [`reed_solomon_setup_error`]; `encode` then fails exactly when the shards
/// are not [`shards_well_shaped`], with the error whose text is
/// [`reed_solomon_encode_error`]; in both cases before writing anything. On
/// success the data shards are untouched, the parity shards are overwritten,
/// and the shards are [`reed_solomon_encoded`] of the arguments. No shard
/// changes length.
#[verifier::external_body]
fn reed_solomon_encode(
    data_shards: usize,
    parity_shards: usize,
    shards: &mut Vec<Vec<u8>>,
) -> (r: Result<(), FecFailure>)
    requires
        data_shards + parity_shards <= usize::MAX,
    ensures
        final(shards)@.len() == old(shards)@.len(),
        forall|i: int|
            0 <= i < old(shards)@.len() ==> #[trigger] final(shards)@[i]@.len()
                == old(shards)@[i]@.len(),
        r matches Err(FecFailure::Setup(_)) <==> !reed_solomon_code_exists(
            data_shards as nat,
            parity_shards as nat,
        ),
        r is Ok <==> reed_solomon_code_exists(data_shards as nat, parity_shards as nat)
            && shards_well_shaped(data_shards as nat, parity_shards as nat, old(shards).deep_view()),
        r matches Err(FecFailure::Setup(text)) ==> text@ == reed_solomon_setup_error(
            data_shards as nat,
            parity_shards as nat,
        ),
        r matches Err(FecFailure::Encode(text)) ==> text@ == reed_solomon_encode_error(
            data_shards as nat,
            parity_shards as nat,
            old(shards).deep_view(),
        ),
        r is Ok ==> final(shards).deep_view() == reed_solomon_encoded(
            data_shards as nat,
            parity_shards as nat,
            old(shards).deep_view(),
        ),
        r is Ok ==> final(shards).deep_view().take(data_shards as int) == old(
            shards,
        ).deep_view().take(data_shards as int),
        r is Err ==> final(shards).deep_view() == old(shards).deep_view(),
{
    let code = ReedSolomon::new(data_shards, parity_shards).map_err(
        |e| FecFailure::Setup(format!("{e}")),
    )?;
    code.encode(shards).map_err(|e| FecFailure::Encode(format!("{e}")))
}

/// The `Fec` message of a refused encoding: the step that failed, then
/// the text of the crate's error.
pub open spec fn reed_solomon_failure_message(
    data_shards: nat,
    parity_shards: nat,
    shards: Seq<Seq<u8>>,
) -> Seq<char> {
    if reed_solomon_code_exists(data_shards, parity_shards) {
        "failed to generate parity shards: "@ + reed_solomon_encode_error(
            data_shards,
            parity_shards,
            shards,
        )
    } else {
        "failed to initialize Reed-Solomon encoder: "@ + reed_solomon_setup_error(
            data_shards,
            parity_shards,
        )
    }
}

/// Erasure coding of the shards of one frame.
///
/// `encoded` gives the shards after a successful encoding; `accepts` gives
/// the inputs on which encoding succeeds.
pub trait FecEngine {
    /// The shards after encoding `shards` with the given counts.
    spec fn encoded(&self, data_shards: nat, parity_shards: nat, shards: Seq<Seq<u8>>) -> Seq<Seq<u8>>;

    /// Whether encoding succeeds on these counts and shards.
    spec fn accepts(&self, data_shards: nat, parity_shards: nat, shards: Seq<Seq<u8>>) -> bool;

    /// Holds when encoding these counts and shards can fail with `err`.
    spec fn rejects(
        &self,
        data_shards: nat,
        parity_shards: nat,
        shards: Seq<Seq<u8>>,
        err: FiudpError,
    ) -> bool;

    /// Fill the parity shards from the data shards.
    ///
    /// `shards` holds `data_shards` data shards followed by `parity_shards`
    /// parity buffers. No shard changes length, and a successful encoding
    /// leaves the data shards as they were (the code is systematic).
    fn encode(
        &self,
        data_shards: usize,
        parity_shards: usize,
        shards: &mut Vec<Vec<u8>>,
    ) -> (r: Result<(), FiudpError>)
        requires
            data_shards + parity_shards <= usize::MAX,
        ensures
            final(shards)@.len() == old(shards)@.len(),
            forall|i: int|
                0 <= i < old(shards)@.len() ==> #[trigger] final(shards)@[i]@.len()
                    == old(shards)@[i]@.len(),
            self.accepts(data_shards as nat, parity_shards as nat, old(shards).deep_view())
                ==> r is Ok,
            r is Ok ==> final(shards).deep_view() == self.encoded(
                data_shards as nat,
                parity_shards as nat,
                old(shards).deep_view(),
            ),
            r is Ok ==> final(shards).deep_view().take(data_shards as int) == old(
                shards,
            ).deep_view().take(data_shards as int),
            r matches Err(e) ==> self.rejects(
                data_shards as nat,
                parity_shards as nat,
                old(shards).deep_view(),
                e,
            ),
    ;
}

/// Reed-Solomon erasure coding over GF(2^8), built afresh for each frame.
pub struct ReedSolomonEngine;

impl FecEngine for ReedSolomonEngine {
    open spec fn encoded(&self, data_shards: nat, parity_shards: nat, shards: Seq<Seq<u8>>) -> Seq<Seq<u8>> {
        reed_solomon_encoded(data_shards, parity_shards, shards)
    }

    open spec fn accepts(&self, data_shards: nat, parity_shards: nat, shards: Seq<Seq<u8>>) -> bool {
        reed_solomon_code_exists(data_shards, parity_shards)
            && shards_well_shaped(data_shards, parity_shards, shards)
    }

    /// The coder fails only where it does not accept, with the `Fec`
    /// message [`reed_solomon_failure_message`].
    open spec fn rejects(
        &self,
        data_shards: nat,
        parity_shards: nat,
        shards: Seq<Seq<u8>>,
        err: FiudpError,
    ) -> bool {
        &&& !self.accepts(data_shards, parity_shards, shards)
        &&& err matches FiudpError::Fec(msg) && msg@ == reed_solomon_failure_message(
            data_shards,
            parity_shards,
            shards,
        )
    }

    fn encode(
        &self,
        data_shards: usize,
        parity_shards: usize,
        shards: &mut Vec<Vec<u8>>,
    ) -> (r: Result<(), FiudpError>)
        ensures
            r is Ok <==> self.accepts(data_shards as nat, parity_shards as nat, old(shards).deep_view()),
            r is Err ==> (r matches Err(FiudpError::Fec(msg)) && msg@ == reed_solomon_failure_message(
                data_shards as nat,
                parity_shards as nat,
                old(shards).deep_view(),
            )),
            r is Err ==> final(shards).deep_view() == old(shards).deep_view(),
    {
        match reed_solomon_encode(data_shards, parity_shards, shards) {
            Ok(()) => Ok(()),
            Err(FecFailure::Setup(text)) => {
                let msg = String::from_str("failed to initialize Reed-Solomon encoder: ");
                Err(FiudpError::Fec(msg.concat(text.as_str())))
            },
            Err(FecFailure::Encode(text)) => {
                let msg = String::from_str("failed to generate parity shards: ");
                Err(FiudpError::Fec(msg.concat(text.as_str())))
            },
        }
    }
}

/// Reed-Solomon encoding succeeds exactly when `ReedSolomon::new` builds a
/// code, that is at least one data and one parity shard and at most 256
/// shards in all, whatever the parity count is relative to the data count,
/// and the shards are one per data and parity shard, all of the same
/// non-zero length.
pub proof fn law_reed_solomon_accepts(data_shards: nat, parity_shards: nat, shards: Seq<Seq<u8>>)
    ensures
        ReedSolomonEngine.accepts(data_shards, parity_shards, shards) <==> {
            &&& 0 < data_shards
            &&& 0 < parity_shards
            &&& data_shards + parity_shards <= 256
            &&& shards.len() == data_shards + parity_shards
            &&& shards[0].len() > 0
            &&& forall|i: int| 0 <= i < shards.len() ==> #[trigger] shards[i].len() == shards[0].len()
        },
{
}

} // verus!
