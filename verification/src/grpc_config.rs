//! Client configurations for the services the pipeline talks to.
//!
//! Each service has a configuration struct carrying that service's address;
//! all of them convert into the one generic form the connection layer
//! consumes. The host program fills these from its environment.

use vstd::prelude::*;

verus! {

/// The generic form every service-specific client configuration converts
/// into: just the address to dial.
pub struct GenericGrpcClientConfig {
    pub address: String,
}

/// Marker for the service-specific client configurations.
pub trait GrpcClientConfig {

}

/// Where to reach the pipeline-ingress service.
pub struct PipelineIngressClientConfig {
    pub pipeline_ingress_client_address: String,
}

/// Where to reach the plugin-bootstrap service.
pub struct PluginBootstrapClientConfig {
    pub plugin_bootstrap_client_address: String,
}

/// Where to reach the plugin-registry service (the discovery dependency of
/// the dispatch loop).
pub struct PluginRegistryClientConfig {
    pub plugin_registry_client_address: String,
}

impl From<PipelineIngressClientConfig> for GenericGrpcClientConfig {
    fn from(val: PipelineIngressClientConfig) -> (r: GenericGrpcClientConfig) {
        GenericGrpcClientConfig { address: val.pipeline_ingress_client_address }
    }
}

impl vstd::std_specs::convert::FromSpecImpl<PipelineIngressClientConfig>
    for GenericGrpcClientConfig {
    open spec fn obeys_from_spec() -> bool {
        true
    }

    open spec fn from_spec(v: PipelineIngressClientConfig) -> GenericGrpcClientConfig {
        GenericGrpcClientConfig { address: v.pipeline_ingress_client_address }
    }
}

impl From<PluginBootstrapClientConfig> for GenericGrpcClientConfig {
    fn from(val: PluginBootstrapClientConfig) -> (r: GenericGrpcClientConfig) {
        GenericGrpcClientConfig { address: val.plugin_bootstrap_client_address }
    }
}

impl vstd::std_specs::convert::FromSpecImpl<PluginBootstrapClientConfig>
    for GenericGrpcClientConfig {
    open spec fn obeys_from_spec() -> bool {
        true
    }

    open spec fn from_spec(v: PluginBootstrapClientConfig) -> GenericGrpcClientConfig {
        GenericGrpcClientConfig { address: v.plugin_bootstrap_client_address }
    }
}

impl From<PluginRegistryClientConfig> for GenericGrpcClientConfig {
    fn from(val: PluginRegistryClientConfig) -> (r: GenericGrpcClientConfig) {
        GenericGrpcClientConfig { address: val.plugin_registry_client_address }
    }
}

impl vstd::std_specs::convert::FromSpecImpl<PluginRegistryClientConfig>
    for GenericGrpcClientConfig {
    open spec fn obeys_from_spec() -> bool {
        true
    }

    open spec fn from_spec(v: PluginRegistryClientConfig) -> GenericGrpcClientConfig {
        GenericGrpcClientConfig { address: v.plugin_registry_client_address }
    }
}

impl GrpcClientConfig for PipelineIngressClientConfig {

}

impl GrpcClientConfig for PluginBootstrapClientConfig {

}

impl GrpcClientConfig for PluginRegistryClientConfig {

}

} // verus!
