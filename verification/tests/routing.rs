//! Router decisions, stickiness, and the plugin chain model.

use pgdog::errors::Error;
use pgdog::plugin::{drop_invalid, Plugin};
use pgdog::router::{Route, RouteRole, Router};
use pgdog::table::Table;

fn write_route(shard: usize) -> Route {
    Route {
        shard: Some(shard),
        role: RouteRole::Write,
    }
}

fn read_route(shard: usize) -> Route {
    Route {
        shard: Some(shard),
        role: RouteRole::Read,
    }
}

fn sql(text: &str) -> Option<String> {
    Some(text.to_string())
}

#[test]
fn fresh_router_is_undecided() {
    let router = Router::new();
    assert!(router.route().is_unknown());
    assert_eq!(router.route().shard(), None);
}

#[test]
fn first_decided_answer_wins() {
    let mut router = Router::new();
    let answers = vec![Route::unknown(), read_route(1), write_route(2)];
    let route = router
        .query(&sql("SELECT * FROM t"), &answers)
        .unwrap();
    assert_eq!(route, read_route(1));
    assert_eq!(router.route(), read_route(1));
}

#[test]
fn sticky_route_survives_fragments_without_signal() {
    // A Parse decided {shard: 1, read}; the following Describe and Bind
    // fragments carry no routing signal, yet the route stays.
    let mut router = Router::new();
    router
        .query(&sql("SELECT * FROM t"), &vec![read_route(1)])
        .unwrap();
    for _ in 0..2 {
        let route = router
            .query(&sql("fragment"), &vec![Route::unknown(), Route::unknown()])
            .unwrap();
        assert_eq!(route, read_route(1));
    }
    assert_eq!(router.route(), read_route(1));
}

#[test]
fn all_unknown_on_a_fresh_router_stays_unknown() {
    let mut router = Router::new();
    let route = router
        .query(&sql("SELECT 1"), &vec![Route::unknown()])
        .unwrap();
    assert!(route.is_unknown());
}

#[test]
fn missing_statement_is_refused() {
    let mut router = Router::new();
    let err = router.query(&None, &vec![read_route(0)]).unwrap_err();
    assert_eq!(err, Error::NoQueryInBuffer);
    // The route did not move.
    assert!(router.route().is_unknown());
}

#[test]
fn a_route_without_a_shard_is_not_adopted() {
    let mut router = Router::new();
    let undecided = Route {
        shard: None,
        role: RouteRole::Write,
    };
    let route = router.query(&sql("SELECT 1"), &vec![undecided]).unwrap();
    assert!(route.is_unknown());
}

#[test]
fn consider_adopts_only_decided_answers() {
    let mut router = Router::new();
    assert!(!router.consider(&Route::unknown()));
    assert!(router.route().is_unknown());
    assert!(router.consider(&write_route(3)));
    assert_eq!(router.route(), write_route(3));
    assert!(!router.consider(&Route::unknown()));
    assert_eq!(router.route(), write_route(3));
}

#[test]
fn route_accessors() {
    let r = write_route(0);
    assert!(!r.read());
    assert_eq!(r.shard(), Some(0));
    assert!(read_route(2).read());
    assert!(Route::unknown().is_unknown());
}

#[test]
fn invalid_plugins_are_dropped_in_order() {
    let chain = vec![
        Plugin::load("alpha", true, false),
        Plugin::load("broken", false, true),
        Plugin::load("beta", true, true),
    ];
    let kept = drop_invalid(chain);
    assert_eq!(kept.len(), 2);
    assert_eq!(kept[0].name().as_str(), "alpha");
    assert_eq!(kept[1].name().as_str(), "beta");
    assert!(kept.iter().all(|p| p.valid()));
}

#[test]
fn plugin_init_runs_only_when_resolved() {
    let with_init = Plugin::load("alpha", true, true);
    let without_init = Plugin::load("beta", true, false);
    assert!(with_init.init());
    assert!(!without_init.init());
    assert!(with_init.valid());
}

#[test]
fn table_prefers_the_alias() {
    let t = Table::from_range_var(
        "orders".to_string(),
        Some("o".to_string()),
        "public".to_string(),
    );
    assert_eq!(t.name, "o");
    assert_eq!(t.schema, Some("public".to_string()));
}

#[test]
fn table_without_alias_or_schema() {
    let t = Table::from_range_var("orders".to_string(), None, String::new());
    assert_eq!(t.name, "orders");
    assert_eq!(t.schema, None);
}
