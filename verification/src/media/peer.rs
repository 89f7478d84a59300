//! What a client build says about its media peer.
use vstd::prelude::*;

verus! {

/// Whether a build contains a peer that works: only macOS has a native audio
/// backend, so other builds must not advertise what their factory refuses.
pub fn native_peer_available(native_media: bool, macos: bool) -> (available: bool)
    ensures
        available == (native_media && macos),
{
    native_media && macos
}

/// The capabilities that a client build advertises.
pub fn advertised_capabilities(peer_available: bool, capability: &str) -> (capabilities: Vec<
    String,
>)
    ensures
        crate::json::texts(capabilities@) == (if peer_available {
            seq![capability@]
        } else {
            Seq::empty()
        }),
{
    let mut capabilities: Vec<String> = Vec::new();
    if peer_available {
        capabilities.push(capability.to_owned());
        assert(crate::json::texts(capabilities@) =~= seq![capability@]);
    } else {
        assert(crate::json::texts(capabilities@) =~= Seq::empty());
    }
    capabilities
}

} // verus!
