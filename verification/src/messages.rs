//! The framed notices and errors that reach the user.

use vstd::prelude::*;

verus! {

/// A key in a format that is no longer accepted.
pub const OUTDATED_LICENSE_KEY_ERROR: &'static str =
    "┌────────────────────────────────────────────────────────┐
│ The Symbolica license key format is outdated.          │
│ Renew your key at https://symbolica.io/license/        │
└────────────────────────────────────────────────────────┘";

/// A second restricted thread of the same user.
pub const RESTRICTED_THREAD_WARNING: &'static str =
    "┌──────────────────────────────────────────────────────────────────────────────────────────────────┐
│ Cannot start another restricted Symbolica thread while this user's thread allowance is in use.   │
└──────────────────────────────────────────────────────────────────────────────────────────────────┘";

/// The license server's name has no address.
pub const RESOLVE_ERROR: &'static str = "
┌───────────────────────────────────────────────────────────┐
│ Could not resolve the IP of the Symbolica license server. │
│                                                           │
│ Please check your DNS configuration.                      │
└───────────────────────────────────────────────────────────┘";

/// The license server does not accept the connection.
pub const CONNECTION_ERROR: &'static str = "
┌────────────────────────────────────────────────┐
│ Could not connect to Symbolica license server. │
│                                                │
│ Some networks block traffic to uncommon ports. │
│ Consider switching networks or using a VPN.    │
└────────────────────────────────────────────────┘";

/// The exchange with the license server broke off or was not understood.
pub const NETWORK_ERROR: &'static str = "
┌───────────────────────────────────────────────────┐
│ Connection to Symbolica license server timed out. │
│                                                   │
│ Please check your network configuration.          │
└───────────────────────────────────────────────────┘";

/// No key was set.
pub const MISSING_LICENSE_ERROR: &'static str = "
┌───────────────────────────────┐
│ Symbolica license key missing │
└───────────────────────────────┘";

/// The license server did not accept the key.
pub const ACTIVATION_ERROR: &'static str = "┌──────────────────────────────────────────┐
│ Could not activate the Symbolica license │
└──────────────────────────────────────────┘";

} // verus!
