use reqwest::Client;
use tokio_tungstenite::Connector;
use vertx_http_gateway_connector::{
    ConnectorError, ConnectorOptions, ConnectorOptionsBuilder, VertxHttpGatewayConnector,
};

fn builder() -> ConnectorOptionsBuilder {
    VertxHttpGatewayConnector::builder(
        9090,
        "test-service".to_string(),
        12345,
        "/register".to_string(),
    )
    .expect("Failed to build reqwest client")
}

fn options() -> ConnectorOptions {
    ConnectorOptions {
        register_host: "localhost".to_string(),
        register_port: 9090,
        service_host: None,
        service_name: "test-service".to_string(),
        service_port: 12345,
        register_path: "/register".to_string(),
        instance: None,
    }
}

#[test]
fn defaults_hold() {
    let connector = builder().build();
    assert_eq!(connector.instance(), 2);
    assert_eq!(connector.service_host(), "localhost");
    assert_eq!(connector.service_port(), 12345);
    assert!(!connector.service_ssl());
    assert!(connector.register_tls_connector().is_none());
    assert_eq!(connector.register_address(), "localhost:9090");
    assert_eq!(
        connector.registration_url(),
        "ws://localhost:9090/register?serviceName=test-service&servicePort=12345"
    );
}

#[test]
fn settings_are_taken() {
    let connector = builder()
        .with_register_host("gateway".to_string())
        .with_service_host("other".to_string())
        .with_service_host("service".to_string())
        .with_service_ssl(true)
        .with_instance(7)
        .with_proxy_client(Client::new())
        .build();
    assert_eq!(connector.instance(), 7);
    assert_eq!(connector.service_host(), "service");
    assert!(connector.service_ssl());
    assert_eq!(connector.register_address(), "gateway:9090");
    assert_eq!(
        connector.registration_url(),
        "ws://gateway:9090/register?serviceName=test-service&servicePort=12345"
    );
}

#[test]
fn tls_changes_the_scheme() {
    let connector = builder().with_register_tls_connector(Connector::Plain).build();
    assert!(matches!(connector.register_tls_connector(), Some(Connector::Plain)));
    assert_eq!(
        connector.registration_url(),
        "wss://localhost:9090/register?serviceName=test-service&servicePort=12345"
    );
}

#[test]
fn options_make_a_connector() {
    let connector = VertxHttpGatewayConnector::new(options()).expect("no client");
    assert_eq!(connector.instance(), 2);
    assert_eq!(connector.service_host(), "localhost");
    assert!(!connector.service_ssl());
    assert_eq!(connector.registration_url(), builder().build().registration_url());

    let told = ConnectorOptions {
        register_host: "gateway".to_string(),
        service_host: Some("service".to_string()),
        instance: Some(0),
        ..options()
    };
    let connector = VertxHttpGatewayConnector::from_client(told, Ok(Client::new())).unwrap();
    assert_eq!(connector.instance(), 0);
    assert_eq!(connector.service_host(), "service");
    assert_eq!(connector.register_address(), "gateway:9090");
}

#[test]
fn there_is_no_connector_without_client() {
    let failed = || Client::builder().user_agent("\n").build();
    assert!(failed().is_err());
    let result = VertxHttpGatewayConnector::from_client(options(), failed());
    assert!(matches!(result, Err(ConnectorError::Client(_))));
    let result =
        ConnectorOptionsBuilder::from_client(1, "s".to_string(), 2, "/".to_string(), failed());
    assert!(matches!(result, Err(ConnectorError::Client(_))));
    let result = ConnectorOptionsBuilder::new(1, "s".to_string(), 2, "/".to_string());
    assert!(result.is_ok());
}

#[test]
fn connections_have_ids() {
    let connector = builder().build();
    assert_eq!(
        connector.connection_url("id-1"),
        "ws://localhost:9090/register?serviceName=test-service&servicePort=12345&instance=id-1"
    );
    assert_ne!(connector.connection_url("a"), connector.connection_url("b"));

    let url = connector.new_connection_url();
    let prefix = connector.connection_url("");
    assert!(url.starts_with(&prefix));
    let id: Vec<char> = url[prefix.len()..].chars().collect();
    assert_eq!(id.len(), 36);
    for (i, c) in id.iter().enumerate() {
        match i {
            8 | 13 | 18 | 23 => assert_eq!(*c, '-'),
            14 => assert_eq!(*c, '4'),
            19 => assert!("89ab".contains(*c)),
            _ => assert!("0123456789abcdef".contains(*c)),
        }
    }
    assert_ne!(url, connector.new_connection_url());
}
