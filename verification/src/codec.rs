use vstd::prelude::*;

verus! {

use vstd::string::StringExecFns;
use crate::health::HealthStatus;
use crate::protocol::{Protocol, ProtocolView};
use crate::runtime::{Runtime, RuntimeView, RuntimeTag, runtime_tag};
use crate::strutil::{str_eq, str_starts_with, str_suffix};

// The store persists the enum-like columns (protocol, runtime, health)
// as text. Simple variants are stored as their bare tag; variants that
// carry fields are stored as the tag, a colon, and one field. Decoding
// restores the other fields as absent: the virtual-machine details and
// the serverless region are deliberately not persisted, an accepted
// lossy round trip, stated exactly by the lemmas below.

/// The stored text of a health status.
pub open spec fn spec_encode_health(h: HealthStatus) -> Seq<char> {
    match h {
        HealthStatus::Healthy => "Healthy"@,
        HealthStatus::Unhealthy => "Unhealthy"@,
        HealthStatus::Unknown => "Unknown"@,
    }
}

/// The health status a stored text denotes; anything unrecognised is
/// `Unknown`.
pub open spec fn spec_decode_health(s: Seq<char>) -> HealthStatus {
    if s == "Healthy"@ {
        HealthStatus::Healthy
    } else if s == "Unhealthy"@ {
        HealthStatus::Unhealthy
    } else {
        HealthStatus::Unknown
    }
}

/// Renders a health status for storage.
pub fn encode_health(h: &HealthStatus) -> (r: String)
    ensures
        r@ == spec_encode_health(*h),
{
    let lit: &str = match h {
        HealthStatus::Healthy => "Healthy",
        HealthStatus::Unhealthy => "Unhealthy",
        HealthStatus::Unknown => "Unknown",
    };
    String::from_str(lit)
}

/// Reads a stored health status back.
pub fn decode_health(s: &str) -> (r: HealthStatus)
    ensures
        r == spec_decode_health(s@),
{
    if str_eq(s, "Healthy") {
        HealthStatus::Healthy
    } else if str_eq(s, "Unhealthy") {
        HealthStatus::Unhealthy
    } else {
        HealthStatus::Unknown
    }
}

/// Health statuses round-trip exactly through storage.
pub proof fn lemma_health_round_trip(h: HealthStatus)
    ensures
        spec_decode_health(spec_encode_health(h)) == h,
{
    reveal_strlit("Healthy");
    reveal_strlit("Unhealthy");
    reveal_strlit("Unknown");
    assert("Unhealthy"@ != "Healthy"@) by {
        assert("Unhealthy"@.len() != "Healthy"@.len());
    }
    assert("Unknown"@ != "Healthy"@) by {
        assert("Unknown"@[0] != "Healthy"@[0]);
    }
    assert("Unknown"@ != "Unhealthy"@) by {
        assert("Unknown"@.len() != "Unhealthy"@.len());
    }
}

/// The stored text of a protocol.
pub open spec fn spec_encode_protocol(p: ProtocolView) -> Seq<char> {
    match p {
        ProtocolView::Http => "Http"@,
        ProtocolView::Https => "Https"@,
        ProtocolView::Tcp => "Tcp"@,
        ProtocolView::Grpc => "Grpc"@,
        ProtocolView::Udp => "Udp"@,
        ProtocolView::Custom(s) => "Custom:"@ + s,
    }
}

/// The protocol a stored text denotes; an unrecognised text is kept
/// whole as a custom protocol.
pub open spec fn spec_decode_protocol(s: Seq<char>) -> ProtocolView {
    if s == "Http"@ {
        ProtocolView::Http
    } else if s == "Https"@ {
        ProtocolView::Https
    } else if s == "Tcp"@ {
        ProtocolView::Tcp
    } else if s == "Grpc"@ {
        ProtocolView::Grpc
    } else if s == "Udp"@ {
        ProtocolView::Udp
    } else if "Custom:"@.len() <= s.len() && s.take("Custom:"@.len() as int) == "Custom:"@ {
        ProtocolView::Custom(s.skip("Custom:"@.len() as int))
    } else {
        ProtocolView::Custom(s)
    }
}

/// Renders a protocol for storage.
pub fn encode_protocol(p: &Protocol) -> (r: String)
    ensures
        r@ == spec_encode_protocol(p@),
{
    match p {
        Protocol::Http => String::from_str("Http"),
        Protocol::Https => String::from_str("Https"),
        Protocol::Tcp => String::from_str("Tcp"),
        Protocol::Grpc => String::from_str("Grpc"),
        Protocol::Udp => String::from_str("Udp"),
        Protocol::Custom(s) => {
            let mut r = String::from_str("Custom:");
            r.append(s.as_str());
            r
        },
    }
}

/// Reads a stored protocol back.
pub fn decode_protocol(s: &str) -> (r: Protocol)
    ensures
        r@ == spec_decode_protocol(s@),
{
    if str_eq(s, "Http") {
        Protocol::Http
    } else if str_eq(s, "Https") {
        Protocol::Https
    } else if str_eq(s, "Tcp") {
        Protocol::Tcp
    } else if str_eq(s, "Grpc") {
        Protocol::Grpc
    } else if str_eq(s, "Udp") {
        Protocol::Udp
    } else if str_starts_with(s, "Custom:") {
        proof {
            reveal_strlit("Custom:");
        }
        let rest = str_suffix(s, 7);
        proof {
            assert(rest@ == s@.skip("Custom:"@.len() as int));
        }
        Protocol::Custom(String::from_str(rest))
    } else {
        Protocol::Custom(String::from_str(s))
    }
}

/// Protocols round-trip exactly through storage, custom names
/// included.
pub proof fn lemma_protocol_round_trip(p: ProtocolView)
    ensures
        spec_decode_protocol(spec_encode_protocol(p)) == p,
{
    reveal_strlit("Http");
    reveal_strlit("Https");
    reveal_strlit("Tcp");
    reveal_strlit("Grpc");
    reveal_strlit("Udp");
    reveal_strlit("Custom:");
    assert("Http"@.len() == 4);
    assert("Https"@.len() == 5);
    assert("Tcp"@.len() == 3);
    assert("Grpc"@.len() == 4);
    assert("Udp"@.len() == 3);
    assert("Custom:"@.len() == 7);
    assert("Http"@[0] == 'H' && "Grpc"@[0] == 'G');
    assert("Tcp"@[0] == 'T' && "Udp"@[0] == 'U');
    match p {
        ProtocolView::Custom(s) => {
            let e = "Custom:"@ + s;
            assert(e.len() >= 7);
            assert(e[0] == 'C');
            assert(e != "Http"@);
            assert(e != "Https"@);
            assert(e != "Tcp"@);
            assert(e != "Grpc"@);
            assert(e != "Udp"@);
            assert(e.take(7) =~= "Custom:"@);
            assert(e.skip(7) =~= s);
        },
        _ => {
            assert(spec_encode_protocol(p).len() < 7);
        },
    }
}

/// The stored text of a runtime: the tag, with the container id or the
/// serverless function name behind a colon. Virtual-machine details
/// and the serverless region are not stored.
pub open spec fn spec_encode_runtime(r: RuntimeView) -> Seq<char> {
    match r {
        RuntimeView::Vm { .. } => "Vm"@,
        RuntimeView::Container { container_id } => "Container:"@ + container_id,
        RuntimeView::Serverless { function_name, .. } => "Serverless:"@ + function_name,
        RuntimeView::Custom(s) => "Custom:"@ + s,
    }
}

/// The runtime a stored text denotes; dropped fields come back absent
/// or empty, and an unrecognised text is kept whole as a custom
/// runtime.
pub open spec fn spec_decode_runtime(s: Seq<char>) -> RuntimeView {
    if s == "Vm"@ {
        RuntimeView::Vm { provider: None, id: None }
    } else if "Container:"@.len() <= s.len() && s.take("Container:"@.len() as int)
        == "Container:"@ {
        RuntimeView::Container { container_id: s.skip("Container:"@.len() as int) }
    } else if "Serverless:"@.len() <= s.len() && s.take("Serverless:"@.len() as int)
        == "Serverless:"@ {
        RuntimeView::Serverless { function_name: s.skip("Serverless:"@.len() as int), region: None }
    } else if "Custom:"@.len() <= s.len() && s.take("Custom:"@.len() as int) == "Custom:"@ {
        RuntimeView::Custom(s.skip("Custom:"@.len() as int))
    } else {
        RuntimeView::Custom(s)
    }
}

/// Renders a runtime for storage.
pub fn encode_runtime(r: &Runtime) -> (res: String)
    ensures
        res@ == spec_encode_runtime(r@),
{
    match r {
        Runtime::Vm { .. } => String::from_str("Vm"),
        Runtime::Container { container_id } => {
            let mut res = String::from_str("Container:");
            res.append(container_id.as_str());
            res
        },
        Runtime::Serverless { function_name, .. } => {
            let mut res = String::from_str("Serverless:");
            res.append(function_name.as_str());
            res
        },
        Runtime::Custom(s) => {
            let mut res = String::from_str("Custom:");
            res.append(s.as_str());
            res
        },
    }
}

/// Reads a stored runtime back.
pub fn decode_runtime(s: &str) -> (r: Runtime)
    ensures
        r@ == spec_decode_runtime(s@),
{
    if str_eq(s, "Vm") {
        Runtime::Vm { provider: None, id: None }
    } else if str_starts_with(s, "Container:") {
        proof {
            reveal_strlit("Container:");
        }
        let rest = str_suffix(s, 10);
        Runtime::Container { container_id: String::from_str(rest) }
    } else if str_starts_with(s, "Serverless:") {
        proof {
            reveal_strlit("Serverless:");
        }
        let rest = str_suffix(s, 11);
        Runtime::Serverless { function_name: String::from_str(rest), region: None }
    } else if str_starts_with(s, "Custom:") {
        proof {
            reveal_strlit("Custom:");
        }
        let rest = str_suffix(s, 7);
        Runtime::Custom(String::from_str(rest))
    } else {
        Runtime::Custom(String::from_str(s))
    }
}

/// What the runtime codec keeps: the variant tag always; the container
/// id, the serverless function name, and a custom name exactly; the
/// virtual-machine fields and the serverless region come back absent.
pub proof fn lemma_runtime_round_trip(r: RuntimeView)
    ensures
        runtime_tag(spec_decode_runtime(spec_encode_runtime(r))) == runtime_tag(r),
        spec_decode_runtime(spec_encode_runtime(r)) == (match r {
            RuntimeView::Vm { .. } => RuntimeView::Vm { provider: None, id: None },
            RuntimeView::Container { container_id } => RuntimeView::Container { container_id },
            RuntimeView::Serverless { function_name, .. } => RuntimeView::Serverless {
                function_name,
                region: None,
            },
            RuntimeView::Custom(s) => RuntimeView::Custom(s),
        }),
{
    reveal_strlit("Vm");
    reveal_strlit("Container:");
    reveal_strlit("Serverless:");
    reveal_strlit("Custom:");
    assert("Vm"@.len() == 2);
    assert("Container:"@.len() == 10);
    assert("Serverless:"@.len() == 11);
    assert("Custom:"@.len() == 7);
    assert("Vm"@[0] == 'V');
    assert("Container:"@[0] == 'C' && "Container:"@[1] == 'o');
    assert("Serverless:"@[0] == 'S');
    assert("Custom:"@[0] == 'C' && "Custom:"@[1] == 'u');
    match r {
        RuntimeView::Vm { .. } => {
            assert(spec_encode_runtime(r).len() == 2);
        },
        RuntimeView::Container { container_id } => {
            let e = "Container:"@ + container_id;
            assert(e.len() >= 10);
            assert(e != "Vm"@) by {
                assert(e[0] == 'C');
            }
            assert(e.take(10) =~= "Container:"@);
            assert(e.skip(10) =~= container_id);
        },
        RuntimeView::Serverless { function_name, .. } => {
            let e = "Serverless:"@ + function_name;
            assert(e.len() >= 11);
            assert(e != "Vm"@) by {
                assert(e[0] == 'S');
            }
            assert(e.take(11) =~= "Serverless:"@);
            assert(e.skip(11) =~= function_name);
            if "Container:"@.len() <= e.len() && e.take("Container:"@.len() as int)
                == "Container:"@ {
                assert(e.take(10)[0] == 'S');
                assert(false);
            }
        },
        RuntimeView::Custom(s) => {
            let e = "Custom:"@ + s;
            assert(e.len() >= 7);
            assert(e != "Vm"@) by {
                assert(e[0] == 'C');
            }
            assert(e.take(7) =~= "Custom:"@);
            assert(e.skip(7) =~= s);
            if "Container:"@.len() <= e.len() && e.take("Container:"@.len() as int)
                == "Container:"@ {
                assert(e.take(10)[1] == 'u');
                assert(false);
            }
            if "Serverless:"@.len() <= e.len() && e.take("Serverless:"@.len() as int)
                == "Serverless:"@ {
                assert(e.take(11)[0] == 'C');
                assert(false);
            }
        },
    }
}

} // verus!
