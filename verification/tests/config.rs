use blockchain::config::{Config, PackageLimits, Tracing, TracingTarget};
use blockchain::error::ValidateConfigError;

fn tracing(client: &str, node: &str) -> Tracing {
    Tracing::new(
        TracingTarget::new(client.to_owned(), "client.log".to_owned()),
        TracingTarget::new(node.to_owned(), "node.log".to_owned()),
    )
}

fn nodes(texts: &[&str]) -> Vec<String> {
    texts.iter().map(|t| (*t).to_owned()).collect()
}

#[test]
fn a_configuration_that_is_in_order() {
    let config = Config::new(
        nodes(&["127.0.0.1:8000", "127.0.0.1:8001"]),
        PackageLimits::new(1_000_000, 5),
        tracing("info", "debug"),
        None,
    )
    .unwrap();
    assert_eq!(config.nodes(), &nodes(&["127.0.0.1:8000", "127.0.0.1:8001"]));
    assert!(config.has_node("127.0.0.1:8001"));
    assert!(!config.has_node("127.0.0.1:8002"));
    assert_eq!(config.package_limits().max_size(), 1_000_000);
    assert_eq!(config.package_limits().receive_timeout_secs(), 5);
    assert_eq!(config.tracing().client().level(), "info");
    assert_eq!(config.tracing().client().path(), "client.log");
    assert_eq!(config.tracing().node().level(), "debug");
    assert_eq!(config.tracing().node().path(), "node.log");
    assert_eq!(config.validate(), Ok(()));
}

#[test]
fn a_node_leaves_itself_out() {
    let config = Config::new(
        nodes(&["a:1", "b:2", "a:1", "c:3", "b:2"]),
        PackageLimits::new(10, 1),
        tracing("info", "info"),
        Some("b:2"),
    )
    .unwrap();
    assert_eq!(config.nodes(), &nodes(&["a:1", "c:3"]));
    assert!(!config.has_node("b:2"));

    // A node that is its only peer has none.
    assert_eq!(
        Config::new(nodes(&["a:1", "a:1"]), PackageLimits::new(10, 1), tracing("info", "info"), Some("a:1"))
            .err(),
        Some(ValidateConfigError::NoNodes)
    );
    assert!(Config::new(nodes(&["a:1"]), PackageLimits::new(10, 1), tracing("info", "info"), Some("b:2"))
        .is_ok());
}

#[test]
fn what_is_refused_and_in_which_order() {
    let too_big = isize::MAX as usize + 1;
    assert_eq!(
        Config::new(Vec::new(), PackageLimits::new(too_big, 1), tracing("x", "y"), None).err(),
        Some(ValidateConfigError::NoNodes)
    );
    assert_eq!(
        Config::new(nodes(&["a:1"]), PackageLimits::new(too_big, 1), tracing("x", "y"), None).err(),
        Some(ValidateConfigError::InvalidPackageMaxSizeLimit)
    );
    assert_eq!(
        Config::new(nodes(&["a:1"]), PackageLimits::new(usize::MAX, 1), tracing("info", "info"), None)
            .err(),
        Some(ValidateConfigError::InvalidPackageMaxSizeLimit)
    );
    assert!(Config::new(
        nodes(&["a:1"]),
        PackageLimits::new(isize::MAX as usize, 1),
        tracing("info", "info"),
        None
    )
    .is_ok());
    assert_eq!(
        Config::new(nodes(&["a:1"]), PackageLimits::new(1, 1), tracing("x", "info"), None).err(),
        Some(ValidateConfigError::InvalidTracingLevel)
    );
    assert_eq!(
        Config::new(nodes(&["a:1"]), PackageLimits::new(1, 1), tracing("info", "y"), None).err(),
        Some(ValidateConfigError::InvalidTracingLevel)
    );
}

#[test]
fn the_parts_validate_alone() {
    assert_eq!(PackageLimits::new(0, 0).validate(), Ok(()));
    assert_eq!(
        PackageLimits::new(usize::MAX, 0).validate(),
        Err(ValidateConfigError::InvalidPackageMaxSizeLimit)
    );
    for level in ["error", "warn", "info", "debug", "trace", "INFO", "Debug", "1", "5"] {
        assert_eq!(TracingTarget::new(level.to_owned(), String::new()).validate(), Ok(()));
    }
    for level in ["", "0", "6", "verbose", "info ", "off"] {
        assert_eq!(
            TracingTarget::new(level.to_owned(), String::new()).validate(),
            Err(ValidateConfigError::InvalidTracingLevel)
        );
    }
    assert_eq!(tracing("info", "debug").validate(), Ok(()));
    assert_eq!(tracing("info", "nothing").validate(), Err(ValidateConfigError::InvalidTracingLevel));
    assert_eq!(tracing("nothing", "info").validate(), Err(ValidateConfigError::InvalidTracingLevel));
}
