use grapl_core::GenericGrpcClientConfig;
use grapl_core::JobPlanError;
use grapl_core::JobPlanOutcome;
use grapl_core::PipelineIngressClientConfig;
use grapl_core::PluginBootstrapClientConfig;
use grapl_core::PluginRegistryClientConfig;
use grapl_core::StatusKind;
use grapl_core::UidAllocatorServiceError;
use grapl_core::effective_allocation_count;
use grapl_core::nomad_base_path;
use grapl_core::plugin_upstream_address;
use grapl_core::plugin_upstream_env_var;
use grapl_core::status_for_error;

#[test]
fn client_configs_convert_to_the_generic_form() {
    let config = PipelineIngressClientConfig {
        pipeline_ingress_client_address: String::from("http://ingress:1000"),
    };
    let generic: GenericGrpcClientConfig = config.into();
    assert_eq!(generic.address, "http://ingress:1000");

    let config = PluginBootstrapClientConfig {
        plugin_bootstrap_client_address: String::from("http://bootstrap:1001"),
    };
    let generic: GenericGrpcClientConfig = config.into();
    assert_eq!(generic.address, "http://bootstrap:1001");

    let config = PluginRegistryClientConfig {
        plugin_registry_client_address: String::from("http://registry:1002"),
    };
    let generic: GenericGrpcClientConfig = config.into();
    assert_eq!(generic.address, "http://registry:1002");
}

#[test]
fn zero_count_lets_the_server_decide() {
    assert_eq!(effective_allocation_count(0), 1000);
    assert_eq!(effective_allocation_count(1), 1);
    assert_eq!(effective_allocation_count(250), 250);
}

#[test]
fn allocator_errors_map_to_statuses() {
    let status = status_for_error(UidAllocatorServiceError::Database(String::from(
        "connection reset",
    )));
    assert!(matches!(status.kind, StatusKind::Internal));
    assert_eq!(status.message, "Internal database error: connection reset");

    let status = status_for_error(UidAllocatorServiceError::UnknownTenant(0));
    assert!(matches!(status.kind, StatusKind::NotFound));
    assert_eq!(status.message, "Unknown Tenant: 00000000-0000-0000-0000-000000000000");
}

#[test]
fn plan_with_failed_allocations_is_refused() {
    let plan = JobPlanOutcome { failed_allocations: vec![] };
    assert!(plan.ensure_allocation().is_ok());

    let plan = JobPlanOutcome {
        failed_allocations: vec![
            (String::from("web"), String::from("memory exhausted")),
            (String::from("worker"), String::from("no eligible nodes")),
        ],
    };
    match plan.ensure_allocation() {
        Err(JobPlanError::AllocationFail(metrics)) => {
            assert_eq!(metrics, vec!["memory exhausted", "no eligible nodes"]);
        },
        _ => panic!("a plan with failed allocations must be refused"),
    }
}

#[test]
fn scheduler_and_plugin_addresses() {
    assert_eq!(nomad_base_path("10.0.0.1:4646"), "http://10.0.0.1:4646/v1");
    assert_eq!(
        plugin_upstream_env_var(1),
        "NOMAD_UPSTREAM_ADDR_plugin-00000000-0000-0000-0000-000000000001"
    );
    assert_eq!(plugin_upstream_address("10.0.0.2:8000"), "http://10.0.0.2:8000");
}
