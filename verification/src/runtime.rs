use vstd::prelude::*;

verus! {

use vstd::string::StringExecFns;

/// Where an instance runs. A tagged union, not a flat enum: each kind
/// carries its own details.
#[derive(Debug)]
pub enum Runtime {
    Vm { provider: Option<String>, id: Option<String> },
    Container { container_id: String },
    Serverless { function_name: String, region: Option<String> },
    Custom(String),
}

/// Mathematical image of a [`Runtime`].
pub enum RuntimeView {
    Vm { provider: Option<Seq<char>>, id: Option<Seq<char>> },
    Container { container_id: Seq<char> },
    Serverless { function_name: Seq<char>, region: Option<Seq<char>> },
    Custom(Seq<char>),
}

/// The view of an optional string.
pub open spec fn opt_str_view(o: &Option<String>) -> Option<Seq<char>> {
    match o {
        Some(s) => Some(s@),
        None => None,
    }
}

impl View for Runtime {
    type V = RuntimeView;

    open spec fn view(&self) -> RuntimeView {
        match self {
            Runtime::Vm { provider, id } => RuntimeView::Vm {
                provider: opt_str_view(provider),
                id: opt_str_view(id),
            },
            Runtime::Container { container_id } => RuntimeView::Container {
                container_id: container_id@,
            },
            Runtime::Serverless { function_name, region } => RuntimeView::Serverless {
                function_name: function_name@,
                region: opt_str_view(region),
            },
            Runtime::Custom(s) => RuntimeView::Custom(s@),
        }
    }
}

/// Copies an optional string.
pub fn clone_opt_string(o: &Option<String>) -> (r: Option<String>)
    ensures
        opt_str_view(&r) == opt_str_view(o),
{
    match o {
        Some(s) => Some(s.clone()),
        None => None,
    }
}

impl Clone for Runtime {
    fn clone(&self) -> (r: Self)
        ensures
            r@ == self@,
    {
        match self {
            Runtime::Vm { provider, id } => Runtime::Vm {
                provider: clone_opt_string(provider),
                id: clone_opt_string(id),
            },
            Runtime::Container { container_id } => Runtime::Container {
                container_id: container_id.clone(),
            },
            Runtime::Serverless { function_name, region } => Runtime::Serverless {
                function_name: function_name.clone(),
                region: clone_opt_string(region),
            },
            Runtime::Custom(s) => Runtime::Custom(s.clone()),
        }
    }
}

/// The variant tag of a runtime, used to state which codecs keep what.
pub enum RuntimeTag {
    Vm,
    Container,
    Serverless,
    Custom,
}

/// The tag of a runtime view.
pub open spec fn runtime_tag(r: RuntimeView) -> RuntimeTag {
    match r {
        RuntimeView::Vm { .. } => RuntimeTag::Vm,
        RuntimeView::Container { .. } => RuntimeTag::Container,
        RuntimeView::Serverless { .. } => RuntimeTag::Serverless,
        RuntimeView::Custom(_) => RuntimeTag::Custom,
    }
}

} // verus!
