//! The transport protocol of a knock.

use vstd::prelude::*;
use vstd::std_specs::convert::FromSpecImpl;
use crate::text::same_text;

verus! {

/// The transport protocol on which a port is knocked.
#[derive(Clone, Copy, Debug, PartialEq, Eq, Structural)]
pub enum Proto {
    TCP,
    UDP,
}

/// The protocol that a keyword names: `udp` names UDP, and every other text,
/// `tcp` among them, names TCP.
pub open spec fn proto_of(keyword: Seq<char>) -> Proto {
    if keyword == "udp"@ {
        Proto::UDP
    } else {
        Proto::TCP
    }
}

impl<'a> From<&'a str> for Proto {
    fn from(value: &'a str) -> (proto: Proto) {
        if same_text(value, "udp") {
            Proto::UDP
        } else {
            Proto::TCP
        }
    }
}

impl<'a> FromSpecImpl<&'a str> for Proto {
    open spec fn obeys_from_spec() -> bool {
        true
    }

    open spec fn from_spec(value: &'a str) -> Proto {
        proto_of(value@)
    }
}

impl Proto {
    /// The keyword that names this protocol.
    pub open spec fn keyword_spec(self) -> Seq<char> {
        match self {
            Proto::TCP => "tcp"@,
            Proto::UDP => "udp"@,
        }
    }

    /// The keyword that names this protocol: `tcp` or `udp`.
    pub fn keyword(&self) -> (word: &'static str)
        ensures
            word@ == self.keyword_spec(),
    {
        match self {
            Proto::TCP => "tcp",
            Proto::UDP => "udp",
        }
    }
}

} // verus!
