use apicentric::route_registry::RouteRegistry;
use apicentric::router::RequestRouter;

#[test]
fn test_route_registration() {
    let mut router = RequestRouter::new();

    router.register_service_routes("user-service", "/api/v1/users");
    router.register_service_routes("order-service", "/api/v1/orders");

    assert_eq!(router.routes_count(), 2);
    assert!(router.has_service_routes("user-service"));
    assert!(router.has_service_routes("order-service"));
    assert!(!router.has_service_routes("nonexistent-service"));
}

#[test]
fn test_request_routing() {
    let mut router = RequestRouter::new();

    router.register_service_routes("user-service", "/api/v1/users");
    router.register_service_routes("order-service", "/api/v1/orders");

    assert_eq!(
        router.route_request("/api/v1/users"),
        Some("user-service".to_string())
    );
    assert_eq!(
        router.route_request("/api/v1/orders"),
        Some("order-service".to_string())
    );

    assert_eq!(
        router.route_request("/api/v1/users/123"),
        Some("user-service".to_string())
    );
    assert_eq!(
        router.route_request("/api/v1/orders/456/items"),
        Some("order-service".to_string())
    );

    assert_eq!(router.route_request("/api/v2/products"), None);
    assert_eq!(router.route_request("/health"), None);
}

#[test]
fn test_longest_path_matching() {
    let mut router = RequestRouter::new();

    router.register_service_routes("api-service", "/api");
    router.register_service_routes("user-service", "/api/users");
    router.register_service_routes("admin-service", "/api/users/admin");

    assert_eq!(
        router.route_request("/api/users/admin/settings"),
        Some("admin-service".to_string())
    );
    assert_eq!(
        router.route_request("/api/users/123"),
        Some("user-service".to_string())
    );
    assert_eq!(
        router.route_request("/api/health"),
        Some("api-service".to_string())
    );
}

#[test]
fn test_path_normalization() {
    let router = RequestRouter::new();

    assert_eq!(router.normalize_path("/api/v1"), "/api/v1");
    assert_eq!(router.normalize_path("api/v1"), "/api/v1");
    assert_eq!(router.normalize_path("/api/v1/"), "/api/v1");
    assert_eq!(router.normalize_path("api/v1/"), "/api/v1");
    assert_eq!(router.normalize_path("/"), "/");
    assert_eq!(router.normalize_path(""), "/");
}

#[test]
fn test_relative_path_extraction() {
    let router = RequestRouter::new();

    assert_eq!(
        router.extract_relative_path("/api/v1/users/123", "/api/v1/users"),
        "/123"
    );
    assert_eq!(
        router.extract_relative_path("/api/v1/users", "/api/v1/users"),
        "/"
    );
    assert_eq!(
        router.extract_relative_path("/api/v1/users/123/orders", "/api/v1/users"),
        "/123/orders"
    );

    assert_eq!(
        router.extract_relative_path("/different/path", "/api/v1/users"),
        "/different/path"
    );
}

#[test]
fn test_service_route_unregistration() {
    let mut router = RequestRouter::new();

    router.register_service_routes("user-service", "/api/v1/users");
    router.register_service_routes("user-service", "/api/v2/users");
    router.register_service_routes("order-service", "/api/v1/orders");

    assert_eq!(router.routes_count(), 3);

    router.unregister_service_routes("user-service");

    assert_eq!(router.routes_count(), 1);
    assert!(!router.has_service_routes("user-service"));
    assert!(router.has_service_routes("order-service"));
}

#[test]
fn test_clear_all_routes() {
    let mut router = RequestRouter::new();

    router.register_service_routes("service1", "/api/v1");
    router.register_service_routes("service2", "/api/v2");

    assert_eq!(router.routes_count(), 2);

    router.clear_all_routes();

    assert_eq!(router.routes_count(), 0);
    assert!(!router.has_service_routes("service1"));
    assert!(!router.has_service_routes("service2"));
}

#[test]
fn test_get_service_routes() {
    let mut router = RequestRouter::new();

    router.register_service_routes("user-service", "/api/v1/users");
    router.register_service_routes("user-service", "/api/v2/users");
    router.register_service_routes("order-service", "/api/v1/orders");

    let user_routes = router.get_service_routes("user-service");
    assert_eq!(user_routes.len(), 2);
    assert!(user_routes.contains(&"/api/v1/users".to_string()));
    assert!(user_routes.contains(&"/api/v2/users".to_string()));

    let order_routes = router.get_service_routes("order-service");
    assert_eq!(order_routes.len(), 1);
    assert!(order_routes.contains(&"/api/v1/orders".to_string()));
}

#[test]
fn test_routing_stats() {
    let mut router = RequestRouter::new();

    router.register_service_routes("user-service", "/api/v1/users");
    router.register_service_routes("user-service", "/api/v2/users");
    router.register_service_routes("order-service", "/api/v1/orders");

    let stats = router.get_routing_stats();

    assert_eq!(stats.total_routes, 3);
    assert_eq!(stats.services_count, 2);
    assert_eq!(stats.service_route_counts.get("user-service"), Some(&2));
    assert_eq!(stats.service_route_counts.get("order-service"), Some(&1));
}

#[test]
fn register_and_clear_routes() {
    let mut registry = RequestRouter::new();
    registry.register_service("svc", "/api");
    assert_eq!(RouteRegistry::routes_count(&registry), 1);
    registry.clear_all();
    assert_eq!(RouteRegistry::routes_count(&registry), 0);
}

#[test]
fn reregistering_a_base_path_moves_it_to_the_new_service() {
    let mut router = RequestRouter::new();
    router.register_service_routes("old", "/api/");
    router.register_service_routes("new", "api");
    assert_eq!(router.routes_count(), 1);
    assert_eq!(router.route_request("/api/x"), Some("new".to_string()));
    assert!(!router.has_service_routes("old"));
}

#[test]
fn relative_path_of_joined_path_is_the_suffix() {
    let router = RequestRouter::new();
    assert_eq!(router.extract_relative_path("/api/v1/x/y", "api/v1/"), "/x/y");
    assert_eq!(router.extract_relative_path("/api/v1x", "/api/v1"), "/x");
}

#[test]
fn unregistered_service_receives_no_requests() {
    let mut router = RequestRouter::new();
    router.register_service_routes("a", "/a");
    router.register_service_routes("b", "/a/b");
    router.unregister_service_routes("b");
    assert_eq!(router.route_request("/a/b/c"), Some("a".to_string()));
    router.unregister_service_routes("a");
    assert_eq!(router.route_request("/a/b/c"), None);
}

#[test]
fn routing_stats_on_empty_router() {
    let router = RequestRouter::new();
    let stats = router.get_routing_stats();
    assert_eq!(stats.total_routes, 0);
    assert_eq!(stats.services_count, 0);
    assert!(stats.service_route_counts.is_empty());
}
