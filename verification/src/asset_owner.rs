//! The asset owner: building the authoritative allowed-keys update it
//! periodically pushes to every deaddrop. The surrounding process owns the
//! connections and the beacon source.

use vstd::prelude::*;

use crate::crypto::{ring_bytes, rsa_priv_wf, rsa_pub_of, PrivateKey, PublicKey, RingPublicKey};
use crate::drand::Beacon;
use crate::protocol::{Signed, UpdateAllowedKeys};
use crate::ModeOfOperation;

verus! {

/// What an asset owner is configured with.
pub struct Config {
    pub mode: ModeOfOperation,
    pub private_key: PrivateKey,
    pub allowed_sender_keys: Vec<RingPublicKey>,
    pub allowed_receiver_keys: Vec<PublicKey>,
}

/// Builds the signed allowed-keys update for one tick: the authorized
/// sender ring and receiver keys, anchored to the given beacon, under the
/// asset owner's signature. A well-formed key always succeeds, and the
/// update verifies under the owner's public key.
pub fn create_update_message(
    private_key: &PrivateKey,
    allowed_sender_keys: Vec<RingPublicKey>,
    allowed_receiver_keys: Vec<PublicKey>,
    beacon: Beacon,
) -> (r: Option<Signed<UpdateAllowedKeys>>)
    ensures
        rsa_priv_wf(private_key@) ==> r is Some,
        r matches Some(env) ==> ({
            &&& env@.content.allowed_sender_keys == ring_bytes(allowed_sender_keys@)
            &&& env@.content.allowed_receiver_keys == allowed_receiver_keys@.map_values(
                |k: PublicKey| k@,
            )
            &&& env@.content.beacon == beacon@
        }),
        r matches Some(env) ==> (rsa_priv_wf(private_key@) ==> env.verify_spec()
            && env.verify_with_spec(rsa_pub_of(private_key@))),
{
    Signed::<UpdateAllowedKeys>::sign(
        private_key,
        UpdateAllowedKeys { allowed_sender_keys, allowed_receiver_keys, beacon },
    )
}

} // verus!
