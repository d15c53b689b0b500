use vstd::prelude::*;

verus! {

use vstd::string::StringExecFns;

/// Application protocol an instance speaks; `Custom` carries an
/// open-ended name.
#[derive(Debug)]
pub enum Protocol {
    Http,
    Https,
    Tcp,
    Grpc,
    Udp,
    Custom(String),
}

/// Mathematical image of a [`Protocol`].
pub enum ProtocolView {
    Http,
    Https,
    Tcp,
    Grpc,
    Udp,
    Custom(Seq<char>),
}

impl View for Protocol {
    type V = ProtocolView;

    open spec fn view(&self) -> ProtocolView {
        match self {
            Protocol::Http => ProtocolView::Http,
            Protocol::Https => ProtocolView::Https,
            Protocol::Tcp => ProtocolView::Tcp,
            Protocol::Grpc => ProtocolView::Grpc,
            Protocol::Udp => ProtocolView::Udp,
            Protocol::Custom(s) => ProtocolView::Custom(s@),
        }
    }
}

impl Clone for Protocol {
    fn clone(&self) -> (r: Self)
        ensures
            r@ == self@,
    {
        match self {
            Protocol::Http => Protocol::Http,
            Protocol::Https => Protocol::Https,
            Protocol::Tcp => Protocol::Tcp,
            Protocol::Grpc => Protocol::Grpc,
            Protocol::Udp => Protocol::Udp,
            Protocol::Custom(s) => Protocol::Custom(s.clone()),
        }
    }
}

} // verus!
