//! Policy enumerations and their integer codes in the native layout.
//!
//! Every policy is encoded as a positive 32-bit integer; `0` is reserved for
//! "not specified" and is never the code of a variant.

use vstd::prelude::*;
use libc::c_int;

verus! {

/// The code that stands for an unspecified policy in every mirror.
pub const UNSPECIFIED: c_int = 0;

/// How to negotiate candidates when the remote peer is not BUNDLE-aware.
#[derive(Clone, Copy, Debug, PartialEq, Eq, Structural)]
pub enum BundelPolicy {
    /// One transport for each type of content: audio, video and data.
    Balanced,
    /// One transport per media track and a separate one for data channels.
    MaxCompat,
    /// A single transport that carries all of the connection's data.
    MaxBundle,
}

/// Which ICE candidates are considered.
#[derive(Clone, Copy, Debug, PartialEq, Eq, Structural)]
pub enum IceTransportPolicy {
    /// No candidates are considered.
    NoCandidates,
    /// Only candidates whose addresses are relayed.
    Relay,
    /// Only candidates with public addresses.
    Public,
    /// All candidates.
    All,
}

/// How RTCP candidates are gathered.
#[derive(Clone, Copy, Debug, PartialEq, Eq, Structural)]
pub enum RtcpMuxPolicy {
    /// Gather both RTP and RTCP candidates.
    Negotiate,
    /// Gather RTP candidates only and multiplex RTCP on top of them.
    Require,
}

impl BundelPolicy {
    /// The integer code of this policy.
    pub open spec fn spec_code(self) -> c_int {
        match self {
            BundelPolicy::Balanced => 1,
            BundelPolicy::MaxCompat => 2,
            BundelPolicy::MaxBundle => 3,
        }
    }

    /// The policy with the given code, if there is one.
    pub open spec fn spec_from_code(code: c_int) -> Option<BundelPolicy> {
        if code == 1 {
            Some(BundelPolicy::Balanced)
        } else if code == 2 {
            Some(BundelPolicy::MaxCompat)
        } else if code == 3 {
            Some(BundelPolicy::MaxBundle)
        } else {
            None
        }
    }

    /// The code of an optional policy: `0` when it is absent.
    pub open spec fn spec_encode(policy: Option<BundelPolicy>) -> c_int {
        match policy {
            Some(p) => p.spec_code(),
            None => UNSPECIFIED,
        }
    }

    /// The integer code of this policy: positive, never 0.
    pub fn code(self) -> (code: c_int)
        ensures
            code == self.spec_code(),
            1 <= code <= 3,
    {
        match self {
            BundelPolicy::Balanced => 1,
            BundelPolicy::MaxCompat => 2,
            BundelPolicy::MaxBundle => 3,
        }
    }

    /// The policy with the given code, if there is one.
    pub fn from_code(code: c_int) -> (policy: Option<BundelPolicy>)
        ensures
            policy == Self::spec_from_code(code),
            policy is Some <==> 1 <= code <= 3,
    {
        if code == 1 {
            Some(BundelPolicy::Balanced)
        } else if code == 2 {
            Some(BundelPolicy::MaxCompat)
        } else if code == 3 {
            Some(BundelPolicy::MaxBundle)
        } else {
            None
        }
    }

    /// The optional policy that `code` stands for: an absent one for 0, and
    /// `None` for a code that stands for nothing.
    pub fn decode(code: c_int) -> (policy: Option<Option<BundelPolicy>>)
        ensures
            policy is Some <==> 0 <= code <= 3,
            policy is Some ==> Self::spec_encode(policy.unwrap()) == code,
    {
        if code == UNSPECIFIED {
            Some(None)
        } else {
            match Self::from_code(code) {
                Some(p) => Some(Some(p)),
                None => None,
            }
        }
    }

    /// The code of an optional policy: 0 exactly when it is absent.
    pub fn encode(policy: Option<BundelPolicy>) -> (code: c_int)
        ensures
            code == Self::spec_encode(policy),
            code == UNSPECIFIED <==> policy is None,
    {
        match policy {
            Some(p) => p.code(),
            None => UNSPECIFIED,
        }
    }

    /// Decoding the code of a policy gives the policy back; the code of an
    /// absent policy decodes to no policy.
    pub proof fn lemma_round_trip(policy: Option<BundelPolicy>)
        ensures
            Self::spec_from_code(Self::spec_encode(policy)) == policy,
    {
    }
}

impl IceTransportPolicy {
    /// The integer code of this policy.
    pub open spec fn spec_code(self) -> c_int {
        match self {
            IceTransportPolicy::NoCandidates => 1,
            IceTransportPolicy::Relay => 2,
            IceTransportPolicy::Public => 3,
            IceTransportPolicy::All => 4,
        }
    }

    /// The policy with the given code, if there is one.
    pub open spec fn spec_from_code(code: c_int) -> Option<IceTransportPolicy> {
        if code == 1 {
            Some(IceTransportPolicy::NoCandidates)
        } else if code == 2 {
            Some(IceTransportPolicy::Relay)
        } else if code == 3 {
            Some(IceTransportPolicy::Public)
        } else if code == 4 {
            Some(IceTransportPolicy::All)
        } else {
            None
        }
    }

    /// The code of an optional policy: `0` when it is absent.
    pub open spec fn spec_encode(policy: Option<IceTransportPolicy>) -> c_int {
        match policy {
            Some(p) => p.spec_code(),
            None => UNSPECIFIED,
        }
    }

    /// The integer code of this policy: positive, never 0.
    pub fn code(self) -> (code: c_int)
        ensures
            code == self.spec_code(),
            1 <= code <= 4,
    {
        match self {
            IceTransportPolicy::NoCandidates => 1,
            IceTransportPolicy::Relay => 2,
            IceTransportPolicy::Public => 3,
            IceTransportPolicy::All => 4,
        }
    }

    /// The policy with the given code, if there is one.
    pub fn from_code(code: c_int) -> (policy: Option<IceTransportPolicy>)
        ensures
            policy == Self::spec_from_code(code),
            policy is Some <==> 1 <= code <= 4,
    {
        if code == 1 {
            Some(IceTransportPolicy::NoCandidates)
        } else if code == 2 {
            Some(IceTransportPolicy::Relay)
        } else if code == 3 {
            Some(IceTransportPolicy::Public)
        } else if code == 4 {
            Some(IceTransportPolicy::All)
        } else {
            None
        }
    }

    /// The optional policy that `code` stands for: an absent one for 0, and
    /// `None` for a code that stands for nothing.
    pub fn decode(code: c_int) -> (policy: Option<Option<IceTransportPolicy>>)
        ensures
            policy is Some <==> 0 <= code <= 4,
            policy is Some ==> Self::spec_encode(policy.unwrap()) == code,
    {
        if code == UNSPECIFIED {
            Some(None)
        } else {
            match Self::from_code(code) {
                Some(p) => Some(Some(p)),
                None => None,
            }
        }
    }

    /// The code of an optional policy: 0 exactly when it is absent.
    pub fn encode(policy: Option<IceTransportPolicy>) -> (code: c_int)
        ensures
            code == Self::spec_encode(policy),
            code == UNSPECIFIED <==> policy is None,
    {
        match policy {
            Some(p) => p.code(),
            None => UNSPECIFIED,
        }
    }

    /// Decoding the code of a policy gives the policy back; the code of an
    /// absent policy decodes to no policy.
    pub proof fn lemma_round_trip(policy: Option<IceTransportPolicy>)
        ensures
            Self::spec_from_code(Self::spec_encode(policy)) == policy,
    {
    }
}

impl RtcpMuxPolicy {
    /// The integer code of this policy.
    pub open spec fn spec_code(self) -> c_int {
        match self {
            RtcpMuxPolicy::Negotiate => 1,
            RtcpMuxPolicy::Require => 2,
        }
    }

    /// The policy with the given code, if there is one.
    pub open spec fn spec_from_code(code: c_int) -> Option<RtcpMuxPolicy> {
        if code == 1 {
            Some(RtcpMuxPolicy::Negotiate)
        } else if code == 2 {
            Some(RtcpMuxPolicy::Require)
        } else {
            None
        }
    }

    /// The code of an optional policy: `0` when it is absent.
    pub open spec fn spec_encode(policy: Option<RtcpMuxPolicy>) -> c_int {
        match policy {
            Some(p) => p.spec_code(),
            None => UNSPECIFIED,
        }
    }

    /// The integer code of this policy: positive, never 0.
    pub fn code(self) -> (code: c_int)
        ensures
            code == self.spec_code(),
            1 <= code <= 2,
    {
        match self {
            RtcpMuxPolicy::Negotiate => 1,
            RtcpMuxPolicy::Require => 2,
        }
    }

    /// The policy with the given code, if there is one.
    pub fn from_code(code: c_int) -> (policy: Option<RtcpMuxPolicy>)
        ensures
            policy == Self::spec_from_code(code),
            policy is Some <==> 1 <= code <= 2,
    {
        if code == 1 {
            Some(RtcpMuxPolicy::Negotiate)
        } else if code == 2 {
            Some(RtcpMuxPolicy::Require)
        } else {
            None
        }
    }

    /// The optional policy that `code` stands for: an absent one for 0, and
    /// `None` for a code that stands for nothing.
    pub fn decode(code: c_int) -> (policy: Option<Option<RtcpMuxPolicy>>)
        ensures
            policy is Some <==> 0 <= code <= 2,
            policy is Some ==> Self::spec_encode(policy.unwrap()) == code,
    {
        if code == UNSPECIFIED {
            Some(None)
        } else {
            match Self::from_code(code) {
                Some(p) => Some(Some(p)),
                None => None,
            }
        }
    }

    /// The code of an optional policy: 0 exactly when it is absent.
    pub fn encode(policy: Option<RtcpMuxPolicy>) -> (code: c_int)
        ensures
            code == Self::spec_encode(policy),
            code == UNSPECIFIED <==> policy is None,
    {
        match policy {
            Some(p) => p.code(),
            None => UNSPECIFIED,
        }
    }

    /// Decoding the code of a policy gives the policy back; the code of an
    /// absent policy decodes to no policy.
    pub proof fn lemma_round_trip(policy: Option<RtcpMuxPolicy>)
        ensures
            Self::spec_from_code(Self::spec_encode(policy)) == policy,
    {
    }
}

} // verus!
