//! The settings of a connector, and the addresses that follow from them.

use crate::external::is_random_uuid;
use crate::external::{build_client, random_uuid};
use crate::text::decimal;
use crate::text::decimal_text;
use crate::text::{law_decimal, law_decimal_tells_apart, value_of};
use reqwest::Client;
use tokio_tungstenite::Connector;
use vstd::prelude::*;
use vstd::string::StringExecFns;

verus! {

/// How many connections a connector holds if nothing else is said.
pub const DEFAULT_INSTANCE: u8 = 2;

/// Why there is no connector.
#[derive(Debug)]
pub enum ConnectorError {
    /// There is no HTTP client.
    Client(reqwest::Error),
}

/// The settings of a connector that registers without TLS.
pub struct ConnectorOptions {
    /// The host of the gateway.
    pub register_host: String,
    /// The port of the gateway at which connectors register.
    pub register_port: u16,
    /// The host of the service, this machine if none is given.
    pub service_host: Option<String>,
    /// The name under which the service is registered.
    pub service_name: String,
    /// The port of the service.
    pub service_port: u16,
    /// The path at the gateway at which connectors register.
    pub register_path: String,
    /// The number of connections, two if none is given.
    pub instance: Option<u8>,
}

/// Collects the settings of a connector.
pub struct ConnectorOptionsBuilder {
    register_host: String,
    register_port: u16,
    register_tls_connector: Option<Connector>,
    service_host: String,
    service_name: String,
    service_port: u16,
    service_ssl: bool,
    register_path: String,
    instance: u8,
    proxy_client: Client,
}

/// A connector between a gateway and a service.
pub struct VertxHttpGatewayConnector {
    register_host: String,
    register_port: u16,
    register_path: String,
    register_ssl: bool,
    register_tls_connector: Option<Connector>,
    service_name: String,
    service_host: String,
    service_port: u16,
    instance: u8,
    proxy_client: Client,
    service_ssl: bool,
}

/// The settings of a connector.
#[verifier::ext_equal]
pub struct Settings {
    pub register_host: Seq<char>,
    pub register_port: u16,
    pub register_tls_connector: Option<Connector>,
    pub service_host: Seq<char>,
    pub service_name: Seq<char>,
    pub service_port: u16,
    pub service_ssl: bool,
    pub register_path: Seq<char>,
    pub instance: u8,
    pub proxy_client: Client,
}

/// The settings that hold if only these are given: gateway and service on this
/// machine, two connections, and no TLS.
pub open spec fn default_settings(
    register_port: u16,
    service_name: Seq<char>,
    service_port: u16,
    register_path: Seq<char>,
    proxy_client: Client,
) -> Settings {
    Settings {
        register_host: "localhost"@,
        register_port,
        register_tls_connector: None,
        service_host: "localhost"@,
        service_name,
        service_port,
        service_ssl: false,
        register_path,
        instance: DEFAULT_INSTANCE,
        proxy_client,
    }
}

/// The settings that some options stand for.
pub open spec fn settings_of(options: ConnectorOptions, proxy_client: Client) -> Settings {
    Settings {
        register_host: options.register_host@,
        service_host: match options.service_host {
            Some(host) => host@,
            None => "localhost"@,
        },
        instance: match options.instance {
            Some(instance) => instance,
            None => DEFAULT_INSTANCE,
        },
        ..default_settings(
            options.register_port,
            options.service_name@,
            options.service_port,
            options.register_path@,
            proxy_client,
        )
    }
}

impl View for ConnectorOptionsBuilder {
    type V = Settings;

    closed spec fn view(&self) -> Settings {
        Settings {
            register_host: self.register_host@,
            register_port: self.register_port,
            register_tls_connector: self.register_tls_connector,
            service_host: self.service_host@,
            service_name: self.service_name@,
            service_port: self.service_port,
            service_ssl: self.service_ssl,
            register_path: self.register_path@,
            instance: self.instance,
            proxy_client: self.proxy_client,
        }
    }
}

impl View for VertxHttpGatewayConnector {
    type V = Settings;

    closed spec fn view(&self) -> Settings {
        Settings {
            register_host: self.register_host@,
            register_port: self.register_port,
            register_tls_connector: self.register_tls_connector,
            service_host: self.service_host@,
            service_name: self.service_name@,
            service_port: self.service_port,
            service_ssl: self.service_ssl,
            register_path: self.register_path@,
            instance: self.instance,
            proxy_client: self.proxy_client,
        }
    }
}

impl ConnectorOptionsBuilder {
    /// Starts from the default settings with a default HTTP client. Whether
    /// there is such a client is up to the machine.
    pub fn new(
        register_port: u16,
        service_name: String,
        service_port: u16,
        register_path: String,
    ) -> (builder: Result<ConnectorOptionsBuilder, ConnectorError>)
        ensures
            builder is Ok ==> builder->Ok_0@ == default_settings(
                register_port,
                service_name@,
                service_port,
                register_path@,
                builder->Ok_0@.proxy_client,
            ),
    {
        ConnectorOptionsBuilder::from_client(
            register_port,
            service_name,
            service_port,
            register_path,
            build_client(),
        )
    }

    /// Starts from the default settings with the given HTTP client, if there
    /// is one.
    pub fn from_client(
        register_port: u16,
        service_name: String,
        service_port: u16,
        register_path: String,
        client: Result<Client, reqwest::Error>,
    ) -> (builder: Result<ConnectorOptionsBuilder, ConnectorError>)
        ensures
            match client {
                Ok(proxy_client) => builder is Ok && builder->Ok_0@ == default_settings(
                    register_port,
                    service_name@,
                    service_port,
                    register_path@,
                    proxy_client,
                ),
                Err(error) => builder == Err::<ConnectorOptionsBuilder, _>(
                    ConnectorError::Client(error),
                ),
            },
    {
        match client {
            Ok(proxy_client) => Ok(
                ConnectorOptionsBuilder {
                    register_host: "localhost".to_string(),
                    register_port,
                    register_tls_connector: None,
                    service_host: "localhost".to_string(),
                    service_name,
                    service_port,
                    service_ssl: false,
                    register_path,
                    instance: DEFAULT_INSTANCE,
                    proxy_client,
                },
            ),
            Err(error) => Err(ConnectorError::Client(error)),
        }
    }

    /// Sets the host of the gateway.
    pub fn with_register_host(self, register_host: String) -> (builder: ConnectorOptionsBuilder)
        ensures
            builder@ == (Settings { register_host: register_host@, ..self@ }),
    {
        ConnectorOptionsBuilder { register_host, ..self }
    }

    /// Sets the host of the service.
    pub fn with_service_host(self, service_host: String) -> (builder: ConnectorOptionsBuilder)
        ensures
            builder@ == (Settings { service_host: service_host@, ..self@ }),
    {
        ConnectorOptionsBuilder { service_host, ..self }
    }

    /// Sets whether the service is reached over TLS.
    pub fn with_service_ssl(self, service_ssl: bool) -> (builder: ConnectorOptionsBuilder)
        ensures
            builder@ == (Settings { service_ssl, ..self@ }),
    {
        ConnectorOptionsBuilder { service_ssl, ..self }
    }

    /// Sets the number of connections.
    pub fn with_instance(self, instance: u8) -> (builder: ConnectorOptionsBuilder)
        ensures
            builder@ == (Settings { instance, ..self@ }),
    {
        ConnectorOptionsBuilder { instance, ..self }
    }

    /// Registers over TLS, in the given way.
    pub fn with_register_tls_connector(self, register_tls_connector: Connector) -> (builder:
        ConnectorOptionsBuilder)
        ensures
            builder@ == (Settings {
                register_tls_connector: Some(register_tls_connector),
                ..self@
            }),
    {
        ConnectorOptionsBuilder {
            register_tls_connector: Some(register_tls_connector),
            ..self
        }
    }

    /// Sets the HTTP client by which the service is reached.
    pub fn with_proxy_client(self, proxy_client: Client) -> (builder: ConnectorOptionsBuilder)
        ensures
            builder@ == (Settings { proxy_client, ..self@ }),
    {
        ConnectorOptionsBuilder { proxy_client, ..self }
    }

    /// Makes a connector with the collected settings.
    pub fn build(self) -> (connector: VertxHttpGatewayConnector)
        ensures
            connector@ == self@,
    {
        VertxHttpGatewayConnector {
            register_host: self.register_host,
            register_port: self.register_port,
            register_path: self.register_path,
            register_ssl: self.register_tls_connector.is_some(),
            register_tls_connector: self.register_tls_connector,
            service_host: self.service_host,
            service_port: self.service_port,
            service_name: self.service_name,
            service_ssl: self.service_ssl,
            instance: self.instance,
            proxy_client: self.proxy_client,
        }
    }
}

/// The address at which connectors register.
pub open spec fn authority(settings: Settings) -> Seq<char> {
    settings.register_host + seq![':'] + decimal(settings.register_port as nat)
}

/// The URL at which a connector registers.
pub open spec fn registration_url(settings: Settings) -> Seq<char> {
    let scheme = if settings.register_tls_connector is Some {
        "wss://"@
    } else {
        "ws://"@
    };
    scheme + authority(settings) + settings.register_path + "?serviceName="@
        + settings.service_name + "&servicePort="@ + decimal(settings.service_port as nat)
}

/// The URL at which one connection of a connector registers.
pub open spec fn connection_url(settings: Settings, id: Seq<char>) -> Seq<char> {
    registration_url(settings) + "&instance="@ + id
}

impl VertxHttpGatewayConnector {
    #[verifier::type_invariant]
    spec fn wf(self) -> bool {
        self.register_ssl == (self.register_tls_connector is Some)
    }

    /// Starts to collect the settings of a connector.
    pub fn builder(
        register_port: u16,
        service_name: String,
        service_port: u16,
        register_path: String,
    ) -> (builder: Result<ConnectorOptionsBuilder, ConnectorError>)
        ensures
            builder is Ok ==> builder->Ok_0@ == default_settings(
                register_port,
                service_name@,
                service_port,
                register_path@,
                builder->Ok_0@.proxy_client,
            ),
    {
        ConnectorOptionsBuilder::new(register_port, service_name, service_port, register_path)
    }

    /// Makes a connector with a default HTTP client. Whether there is such a
    /// client is up to the machine.
    pub fn new(options: ConnectorOptions) -> (connector: Result<
        VertxHttpGatewayConnector,
        ConnectorError,
    >)
        ensures
            connector is Ok ==> connector->Ok_0@ == settings_of(
                options,
                connector->Ok_0@.proxy_client,
            ),
    {
        VertxHttpGatewayConnector::from_client(options, build_client())
    }

    /// Makes a connector with the given HTTP client, if there is one.
    pub fn from_client(
        options: ConnectorOptions,
        client: Result<Client, reqwest::Error>,
    ) -> (connector: Result<VertxHttpGatewayConnector, ConnectorError>)
        ensures
            match client {
                Ok(proxy_client) => connector is Ok && connector->Ok_0@ == settings_of(
                    options,
                    proxy_client,
                ),
                Err(error) => connector == Err::<VertxHttpGatewayConnector, _>(
                    ConnectorError::Client(error),
                ),
            },
    {
        let started = ConnectorOptionsBuilder::from_client(
            options.register_port,
            options.service_name,
            options.service_port,
            options.register_path,
            client,
        );
        let mut builder = match started {
            Ok(builder) => builder.with_register_host(options.register_host),
            Err(error) => {
                return Err(error);
            },
        };
        if let Some(service_host) = options.service_host {
            builder = builder.with_service_host(service_host);
        }
        if let Some(instance) = options.instance {
            builder = builder.with_instance(instance);
        }
        Ok(builder.build())
    }

    /// The number of connections.
    pub fn instance(&self) -> (instance: u8)
        ensures
            instance == self@.instance,
    {
        self.instance
    }

    /// The host of the service.
    pub fn service_host(&self) -> (host: &String)
        ensures
            host@ == self@.service_host,
    {
        &self.service_host
    }

    /// The port of the service.
    pub fn service_port(&self) -> (port: u16)
        ensures
            port == self@.service_port,
    {
        self.service_port
    }

    /// Whether the service is reached over TLS.
    pub fn service_ssl(&self) -> (ssl: bool)
        ensures
            ssl == self@.service_ssl,
    {
        self.service_ssl
    }

    /// The HTTP client by which the service is reached.
    pub fn proxy_client(&self) -> (client: &Client)
        ensures
            *client == self@.proxy_client,
    {
        &self.proxy_client
    }

    /// How to register over TLS, if at all.
    pub fn register_tls_connector(&self) -> (connector: &Option<Connector>)
        ensures
            *connector == self@.register_tls_connector,
    {
        &self.register_tls_connector
    }

    /// The address at which connectors register.
    pub fn register_address(&self) -> (address: String)
        ensures
            address@ == authority(self@),
    {
        let mut address = self.register_host.clone();
        address.push(':');
        address.append(decimal_text(self.register_port).as_str());
        assert(address@ =~= authority(self@));
        address
    }

    /// The URL at which this connector registers.
    pub fn registration_url(&self) -> (url: String)
        ensures
            url@ == registration_url(self@),
    {
        proof {
            use_type_invariant(self);
        }
        let mut url = if self.register_ssl {
            "wss://".to_string()
        } else {
            "ws://".to_string()
        };
        url.append(self.register_address().as_str());
        url.append(self.register_path.as_str());
        url.append("?serviceName=");
        url.append(self.service_name.as_str());
        url.append("&servicePort=");
        url.append(decimal_text(self.service_port).as_str());
        assert(url@ =~= registration_url(self@));
        url
    }

    /// The URL at which the connection with the given id registers.
    pub fn connection_url(&self, id: &str) -> (url: String)
        ensures
            url@ == connection_url(self@, id@),
    {
        let mut url = self.registration_url();
        url.append("&instance=");
        url.append(id);
        url
    }

    /// The URL at which a new connection registers, with an id of its own.
    pub fn new_connection_url(&self) -> (url: String)
        ensures
            exists|id: Seq<char>| #[trigger]
                is_random_uuid(id) && url@ == connection_url(self@, id),
    {
        let id = random_uuid();
        let url = self.connection_url(id.as_str());
        assert(is_random_uuid(id@));
        url
    }
}

/// Options say what a builder says when it is told the same.
pub proof fn law_options_agree_with_builder(options: ConnectorOptions, proxy_client: Client)
    ensures
        ({
            let started = Settings {
                register_host: options.register_host@,
                ..default_settings(
                    options.register_port,
                    options.service_name@,
                    options.service_port,
                    options.register_path@,
                    proxy_client,
                )
            };
            let hosted = match options.service_host {
                Some(host) => Settings { service_host: host@, ..started },
                None => started,
            };
            let counted = match options.instance {
                Some(instance) => Settings { instance, ..hosted },
                None => hosted,
            };
            settings_of(options, proxy_client) == counted
        }),
{
}

/// The gateway can tell connections apart: different ids give different URLs.
pub proof fn law_connections_are_told_apart(settings: Settings, a: Seq<char>, b: Seq<char>)
    requires
        connection_url(settings, a) == connection_url(settings, b),
    ensures
        a == b,
{
    let prefix = registration_url(settings) + "&instance="@;
    assert(a =~= connection_url(settings, a).skip(prefix.len() as int));
    assert(b =~= connection_url(settings, b).skip(prefix.len() as int));
}

/// A connector registers over TLS exactly if it was told how to.
pub proof fn law_tls_if_told_how(settings: Settings)
    ensures
        settings.register_tls_connector is Some <==> "wss://"@ == registration_url(settings).take(
            6,
        ),
        settings.register_tls_connector is None <==> "ws://"@ == registration_url(settings).take(5),
{
    reveal_strlit("wss://");
    reveal_strlit("ws://");
    reveal_strlit("?serviceName=");
    reveal_strlit("&servicePort=");
    let url = registration_url(settings);
    if settings.register_tls_connector is Some {
        assert(url.take(6) =~= "wss://"@);
        assert(url[2] == 's' && "ws://"@[2] == ':');
        assert(url.take(5)[2] != "ws://"@[2]);
    } else {
        assert(url.take(5) =~= "ws://"@);
        assert(url[2] == ':' && "wss://"@[2] == 's');
        assert(url.take(6)[2] != "wss://"@[2]);
    }
}

/// The registration URL holds, from the front: a scheme that tells whether TLS
/// is used, the host and the port of the gateway, the path of registration, and
/// the name and the port of the service.
pub proof fn law_parts_of_registration_url(settings: Settings)
    ensures
        registration_url(settings) == (if settings.register_tls_connector is Some {
            seq!['w', 's', 's', ':', '/', '/']
        } else {
            seq!['w', 's', ':', '/', '/']
        }) + settings.register_host + seq![':'] + decimal(settings.register_port as nat)
            + settings.register_path + "?serviceName="@ + settings.service_name + "&servicePort="@
            + decimal(settings.service_port as nat),
        value_of(decimal(settings.register_port as nat)) == settings.register_port,
        value_of(decimal(settings.service_port as nat)) == settings.service_port,
{
    reveal_strlit("wss://");
    reveal_strlit("ws://");
    law_decimal(settings.register_port as nat);
    law_decimal(settings.service_port as nat);
    assert("wss://"@ =~= seq!['w', 's', 's', ':', '/', '/']);
    assert("ws://"@ =~= seq!['w', 's', ':', '/', '/']);
    assert(registration_url(settings) =~= (if settings.register_tls_connector is Some {
        seq!['w', 's', 's', ':', '/', '/']
    } else {
        seq!['w', 's', ':', '/', '/']
    }) + settings.register_host + seq![':'] + decimal(settings.register_port as nat)
        + settings.register_path + "?serviceName="@ + settings.service_name + "&servicePort="@
        + decimal(settings.service_port as nat));
}

proof fn lemma_cancel(front: Seq<char>, a: Seq<char>, b: Seq<char>, back: Seq<char>)
    requires
        front + a + back == front + b + back,
    ensures
        a == b,
{
    let n = front.len() as int;
    assert((front + a + back).len() == front.len() + a.len() + back.len());
    assert((front + b + back).len() == front.len() + b.len() + back.len());
    assert(a.len() == b.len());
    assert(a =~= (front + a + back).subrange(n, n + a.len()));
    assert(b =~= (front + b + back).subrange(n, n + b.len()));
}

spec fn url_of(
    scheme: Seq<char>,
    host: Seq<char>,
    port: Seq<char>,
    path: Seq<char>,
    name: Seq<char>,
    service_port: Seq<char>,
) -> Seq<char> {
    scheme + host + seq![':'] + port + path + "?serviceName="@ + name + "&servicePort="@
        + service_port
}

proof fn lemma_host_is_told(
    scheme: Seq<char>,
    a: Seq<char>,
    b: Seq<char>,
    port: Seq<char>,
    path: Seq<char>,
    name: Seq<char>,
    service_port: Seq<char>,
)
    requires
        url_of(scheme, a, port, path, name, service_port) == url_of(scheme, b, port, path, name, service_port),
    ensures
        a == b,
{
    let front = scheme;
    let back = seq![':'] + port + path + "?serviceName="@ + name + "&servicePort="@ + service_port;
    assert(url_of(scheme, a, port, path, name, service_port) =~= front + a + back);
    assert(url_of(scheme, b, port, path, name, service_port) =~= front + b + back);
    lemma_cancel(front, a, b, back);
}

proof fn lemma_port_is_told(
    scheme: Seq<char>,
    host: Seq<char>,
    a: Seq<char>,
    b: Seq<char>,
    path: Seq<char>,
    name: Seq<char>,
    service_port: Seq<char>,
)
    requires
        url_of(scheme, host, a, path, name, service_port) == url_of(scheme, host, b, path, name, service_port),
    ensures
        a == b,
{
    let front = scheme + host + seq![':'];
    let back = path + "?serviceName="@ + name + "&servicePort="@ + service_port;
    assert(url_of(scheme, host, a, path, name, service_port) =~= front + a + back);
    assert(url_of(scheme, host, b, path, name, service_port) =~= front + b + back);
    lemma_cancel(front, a, b, back);
}

proof fn lemma_path_is_told(
    scheme: Seq<char>,
    host: Seq<char>,
    port: Seq<char>,
    a: Seq<char>,
    b: Seq<char>,
    name: Seq<char>,
    service_port: Seq<char>,
)
    requires
        url_of(scheme, host, port, a, name, service_port) == url_of(scheme, host, port, b, name, service_port),
    ensures
        a == b,
{
    let front = scheme + host + seq![':'] + port;
    let back = "?serviceName="@ + name + "&servicePort="@ + service_port;
    assert(url_of(scheme, host, port, a, name, service_port) =~= front + a + back);
    assert(url_of(scheme, host, port, b, name, service_port) =~= front + b + back);
    lemma_cancel(front, a, b, back);
}

proof fn lemma_name_is_told(
    scheme: Seq<char>,
    host: Seq<char>,
    port: Seq<char>,
    path: Seq<char>,
    a: Seq<char>,
    b: Seq<char>,
    service_port: Seq<char>,
)
    requires
        url_of(scheme, host, port, path, a, service_port) == url_of(scheme, host, port, path, b, service_port),
    ensures
        a == b,
{
    let front = scheme + host + seq![':'] + port + path + "?serviceName="@;
    let back = "&servicePort="@ + service_port;
    assert(url_of(scheme, host, port, path, a, service_port) =~= front + a + back);
    assert(url_of(scheme, host, port, path, b, service_port) =~= front + b + back);
    lemma_cancel(front, a, b, back);
}

proof fn lemma_service_port_is_told(
    scheme: Seq<char>,
    host: Seq<char>,
    port: Seq<char>,
    path: Seq<char>,
    name: Seq<char>,
    a: Seq<char>,
    b: Seq<char>,
)
    requires
        url_of(scheme, host, port, path, name, a) == url_of(scheme, host, port, path, name, b),
    ensures
        a == b,
{
    let front = scheme + host + seq![':'] + port + path + "?serviceName="@ + name + "&servicePort="@;
    let back = Seq::<char>::empty();
    assert(url_of(scheme, host, port, path, name, a) =~= front + a + back);
    assert(url_of(scheme, host, port, path, name, b) =~= front + b + back);
    lemma_cancel(front, a, b, back);
}

/// The registration URL tells settings apart: two that differ in one of the
/// host of the gateway, its port, the path, the name of the service and its
/// port, and in nothing else that is told, have different URLs.
pub proof fn law_registration_urls_differ(a: Settings, b: Settings)
    requires
        a.register_tls_connector is Some <==> b.register_tls_connector is Some,
        registration_url(a) == registration_url(b),
    ensures
        a.register_port == b.register_port && a.register_path == b.register_path && a.service_name
            == b.service_name && a.service_port == b.service_port ==> a.register_host
            == b.register_host,
        a.register_host == b.register_host && a.register_path == b.register_path && a.service_name
            == b.service_name && a.service_port == b.service_port ==> a.register_port
            == b.register_port,
        a.register_host == b.register_host && a.register_port == b.register_port && a.service_name
            == b.service_name && a.service_port == b.service_port ==> a.register_path
            == b.register_path,
        a.register_host == b.register_host && a.register_port == b.register_port && a.register_path
            == b.register_path && a.service_port == b.service_port ==> a.service_name
            == b.service_name,
        a.register_host == b.register_host && a.register_port == b.register_port && a.register_path
            == b.register_path && a.service_name == b.service_name ==> a.service_port
            == b.service_port,
{
    let scheme = if a.register_tls_connector is Some {
        seq!['w', 's', 's', ':', '/', '/']
    } else {
        seq!['w', 's', ':', '/', '/']
    };
    let (pa, pb) = (decimal(a.register_port as nat), decimal(b.register_port as nat));
    let (sa, sb) = (decimal(a.service_port as nat), decimal(b.service_port as nat));
    let (na, nb) = (a.service_name, b.service_name);
    let (ha, hb) = (a.register_host, b.register_host);
    let (ra, rb) = (a.register_path, b.register_path);
    assert(url_of(scheme, ha, pa, ra, na, sa) == url_of(scheme, hb, pb, rb, nb, sb)) by {
        law_parts_of_registration_url(a);
        law_parts_of_registration_url(b);
    }
    if pa == pb && ra == rb && na == nb && sa == sb {
        lemma_host_is_told(scheme, ha, hb, pa, ra, na, sa);
    }
    if ha == hb && ra == rb && na == nb && sa == sb {
        lemma_port_is_told(scheme, ha, pa, pb, ra, na, sa);
        law_decimal_tells_apart(a.register_port as nat, b.register_port as nat);
    }
    if ha == hb && pa == pb && na == nb && sa == sb {
        lemma_path_is_told(scheme, ha, pa, ra, rb, na, sa);
    }
    if ha == hb && pa == pb && ra == rb && sa == sb {
        lemma_name_is_told(scheme, ha, pa, ra, na, nb, sa);
    }
    if ha == hb && pa == pb && ra == rb && na == nb {
        lemma_service_port_is_told(scheme, ha, pa, ra, na, sa, sb);
        law_decimal_tells_apart(a.service_port as nat, b.service_port as nat);
    }
}

/// A connection registers at the registration URL, with its id at the end.
pub proof fn law_connection_adds_its_id(settings: Settings, id: Seq<char>)
    ensures
        ({
            let url = connection_url(settings, id);
            let n = registration_url(settings).len() as int;
            &&& url.take(n) == registration_url(settings)
            &&& url.subrange(n, n + 10) == seq!['&', 'i', 'n', 's', 't', 'a', 'n', 'c', 'e', '=']
            &&& url.skip(n + 10) == id
        }),
{
    reveal_strlit("&instance=");
    let url = connection_url(settings, id);
    let n = registration_url(settings).len() as int;
    assert(url.take(n) =~= registration_url(settings));
    assert(url.subrange(n, n + 10) =~= seq!['&', 'i', 'n', 's', 't', 'a', 'n', 'c', 'e', '=']);
    assert(url.skip(n + 10) =~= id);
}

/// A connector registers at the host and the port of the gateway that it was
/// told: the address is the host, a colon, and digits that stand for the port.
pub proof fn law_address_of_gateway(settings: Settings)
    ensures
        ({
            let address = authority(settings);
            let n = settings.register_host.len() as int;
            &&& address.take(n) == settings.register_host
            &&& address[n] == ':'
            &&& address.skip(n + 1) == decimal(settings.register_port as nat)
            &&& value_of(address.skip(n + 1)) == settings.register_port
        }),
{
    let address = authority(settings);
    let n = settings.register_host.len() as int;
    law_decimal(settings.register_port as nat);
    assert(address.take(n) =~= settings.register_host);
    assert(address.skip(n + 1) =~= decimal(settings.register_port as nat));
}

/// What is told to a builder at first is kept, and the rest is as documented:
/// gateway and service on this machine, two connections, no TLS.
pub proof fn law_defaults(
    register_port: u16,
    service_name: Seq<char>,
    service_port: u16,
    register_path: Seq<char>,
    proxy_client: Client,
)
    ensures
        ({
            let settings = default_settings(
                register_port,
                service_name,
                service_port,
                register_path,
                proxy_client,
            );
            &&& settings.register_port == register_port
            &&& settings.service_name == service_name
            &&& settings.service_port == service_port
            &&& settings.register_path == register_path
            &&& settings.proxy_client == proxy_client
            &&& settings.register_host == seq!['l', 'o', 'c', 'a', 'l', 'h', 'o', 's', 't']
            &&& settings.service_host == seq!['l', 'o', 'c', 'a', 'l', 'h', 'o', 's', 't']
            &&& settings.register_tls_connector is None
            &&& !settings.service_ssl
            &&& settings.instance == 2
        }),
{
    reveal_strlit("localhost");
    assert("localhost"@ =~= seq!['l', 'o', 'c', 'a', 'l', 'h', 'o', 's', 't']);
}

/// What options tell is kept, and what they leave out is as documented.
pub proof fn law_options_are_kept(options: ConnectorOptions, proxy_client: Client)
    ensures
        ({
            let settings = settings_of(options, proxy_client);
            &&& settings.register_host == options.register_host@
            &&& settings.register_port == options.register_port
            &&& settings.service_name == options.service_name@
            &&& settings.service_port == options.service_port
            &&& settings.register_path == options.register_path@
            &&& settings.proxy_client == proxy_client
            &&& settings.register_tls_connector is None
            &&& !settings.service_ssl
            &&& options.service_host matches Some(host) ==> settings.service_host == host@
            &&& options.service_host is None ==> settings.service_host == seq![
                'l',
                'o',
                'c',
                'a',
                'l',
                'h',
                'o',
                's',
                't',
            ]
            &&& options.instance matches Some(instance) ==> settings.instance == instance
            &&& options.instance is None ==> settings.instance == 2
        }),
{
    reveal_strlit("localhost");
    assert("localhost"@ =~= seq!['l', 'o', 'c', 'a', 'l', 'h', 'o', 's', 't']);
}

} // verus!
