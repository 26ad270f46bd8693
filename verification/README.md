# vertx_http_gateway_connector

Connects a service to a Vert.x HTTP gateway. The connector opens websocket
connections to the gateway and registers the service there. It takes requests
from the gateway, sends them to the service and relays the answers.

```rust
use vertx_http_gateway_connector::{ConnectorOptions, VertxHttpGatewayConnector};

let connector = VertxHttpGatewayConnector::new(ConnectorOptions {
    register_host: "localhost".to_string(),
    register_port: 9090,
    service_host: None,
    service_name: "test-service".to_string(),
    service_port: 12345,
    register_path: "/register".to_string(),
    instance: None,
})?;
```

`VertxHttpGatewayConnector::builder` offers the same with more settings: TLS on
either side, and an HTTP client of one's own.

## Layout

- `src/` is the library. It holds every decision of the connector: settings and
  addresses, the chunk format, the heads of requests and answers, what each
  message of the gateway asks for, what the gateway is told of an answer, and
  when connections are opened again. All of it is verified with Verus.
  `src/external.rs` lists what is believed of other crates.
- `app/` runs a connector: it opens sockets, waits, and does what the library
  says. `start` keeps the connections of a connector open.
- `tests/` holds the tests of the library.

The library never panics on what the gateway or the service sends: it returns an
error and says in its contract when.
