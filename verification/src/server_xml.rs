//! The in-memory model of Tomcat's `server.xml`: the element tree this
//! tool generates for a project's base directory, with the two ports
//! and the contexts filled in. The unverified shell serializes it.

use vstd::prelude::*;

verus! {

/// A `Context` element: one deployed application.
#[derive(Debug)]
pub struct Context {
    pub path: String,
    pub doc_base: String,
    pub reloadable: bool,
}

impl Default for Context {
    /// An empty, reloadable context.
    fn default() -> (r: Self)
        ensures
            r.path@ == Seq::<char>::empty(),
            r.doc_base@ == Seq::<char>::empty(),
            r.reloadable == true,
    {
        Context { path: String::new(), doc_base: String::new(), reloadable: true }
    }
}

impl Context {
    /// A reloadable context serving `doc` under `path`.
    pub fn new(path: &str, doc: &str) -> (r: Self)
        ensures
            r.path@ == path@,
            r.doc_base@ == doc@,
            r.reloadable == true,
    {
        Context { path: String::from_str(path), doc_base: String::from_str(doc), reloadable: true }
    }
}

/// The access-log `Valve` element.
#[derive(Debug)]
pub struct Value {
    pub class_path: String,
    pub directory: String,
    pub prefix: String,
    pub suffix: String,
    pub pattern: String,
}

impl Default for Value {
    /// The stock access-log valve.
    fn default() -> (r: Self)
        ensures
            r.class_path@ == "org.apache.catalina.valves.AccessLogValve"@,
            r.directory@ == "logs"@,
            r.prefix@ == "localhost_access_log"@,
            r.suffix@ == ".txt"@,
            r.pattern@ == "%h %l %u %t \"%r\" %s %b"@,
    {
        Value {
            class_path: String::from_str("org.apache.catalina.valves.AccessLogValve"),
            directory: String::from_str("logs"),
            prefix: String::from_str("localhost_access_log"),
            suffix: String::from_str(".txt"),
            pattern: String::from_str("%h %l %u %t \"%r\" %s %b"),
        }
    }
}

/// The `Host` element: the local host with its deployed contexts.
#[derive(Debug)]
pub struct Host {
    pub name: String,
    pub app_base: String,
    pub unpack_wars: bool,
    pub auto_deploy: bool,
    pub value: Value,
    pub contexts: Vec<Context>,
}

impl Default for Host {
    /// The stock local host with no contexts yet.
    fn default() -> (r: Self)
        ensures
            r.name@ == "localhost"@,
            r.app_base@ == "webapps"@,
            r.unpack_wars == true,
            r.auto_deploy == true,
            r.contexts@ == Seq::<Context>::empty(),
    {
        Host {
            name: String::from_str("localhost"),
            app_base: String::from_str("webapps"),
            unpack_wars: true,
            auto_deploy: true,
            value: Value::default(),
            contexts: Vec::new(),
        }
    }
}

/// The nested user-database `Realm` element.
#[derive(Debug)]
pub struct SubRealm {
    pub class_name: String,
    pub resource_name: String,
}

/// The lock-out `Realm` element wrapping the user-database realm.
#[derive(Debug)]
pub struct Realm {
    pub class_name: String,
    pub realm: SubRealm,
}

impl Default for Realm {
    /// The stock lock-out realm over the user database.
    fn default() -> (r: Self)
        ensures
            r.class_name@ == "org.apache.catalina.realm.LockOutRealm"@,
            r.realm.class_name@ == "org.apache.catalina.realm.UserDatabaseRealm"@,
            r.realm.resource_name@ == "UserDatabase"@,
    {
        Realm {
            class_name: String::from_str("org.apache.catalina.realm.LockOutRealm"),
            realm: SubRealm {
                class_name: String::from_str("org.apache.catalina.realm.UserDatabaseRealm"),
                resource_name: String::from_str("UserDatabase"),
            },
        }
    }
}

/// The `Engine` element: realm and host.
#[derive(Debug)]
pub struct Engine {
    pub name: String,
    pub default_host: String,
    pub realm: Realm,
    pub host: Host,
}

impl Default for Engine {
    /// The stock Catalina engine.
    fn default() -> (r: Self)
        ensures
            r.name@ == "Catalina"@,
            r.default_host@ == "localhost"@,
            r.host.contexts@ == Seq::<Context>::empty(),
    {
        Engine {
            name: String::from_str("Catalina"),
            default_host: String::from_str("localhost"),
            realm: Realm::default(),
            host: Host::default(),
        }
    }
}

/// The HTTP `Connector` element.
#[derive(Debug)]
pub struct Connector {
    pub port: i32,
    pub protocol: String,
    pub connection_timeout: i32,
    pub redirect_port: i32,
}

impl Default for Connector {
    /// The stock HTTP connector on port 8080.
    fn default() -> (r: Self)
        ensures
            r.port == 8080,
            r.protocol@ == "HTTP/1.1"@,
            r.connection_timeout == 20000,
            r.redirect_port == 8433,
    {
        Connector {
            port: 8080,
            protocol: String::from_str("HTTP/1.1"),
            connection_timeout: 20000,
            redirect_port: 8433,
        }
    }
}

/// The `Service` element: connector and engine.
#[derive(Debug)]
pub struct Service {
    pub name: String,
    pub connector: Connector,
    pub engine: Engine,
}

impl Default for Service {
    /// The stock Catalina service.
    fn default() -> (r: Self)
        ensures
            r.name@ == "Catalina"@,
            r.connector.port == 8080,
            r.connector.protocol@ == "HTTP/1.1"@,
            r.engine.host.contexts@ == Seq::<Context>::empty(),
    {
        Service {
            name: String::from_str("Catalina"),
            connector: Connector::default(),
            engine: Engine::default(),
        }
    }
}

/// A global naming `Resource` element.
#[derive(Debug)]
pub struct Resource {
    pub name: String,
    pub auth: String,
    pub classify: String,
    pub description: String,
    pub factory: String,
    pub pathname: String,
}

impl Default for Resource {
    /// The stock user-database resource.
    fn default() -> (r: Self)
        ensures
            r.name@ == "UserDatabase"@,
            r.auth@ == "Container"@,
            r.classify@ == "org.apache.catalina.UserDatabase"@,
            r.description@ == "User database that can be updated and saved"@,
            r.factory@ == "org.apache.catalina.users.MemoryUserDatabaseFactory"@,
            r.pathname@ == "conf/tomcat-users.xml"@,
    {
        Resource {
            name: String::from_str("UserDatabase"),
            auth: String::from_str("Container"),
            classify: String::from_str("org.apache.catalina.UserDatabase"),
            description: String::from_str("User database that can be updated and saved"),
            factory: String::from_str("org.apache.catalina.users.MemoryUserDatabaseFactory"),
            pathname: String::from_str("conf/tomcat-users.xml"),
        }
    }
}

/// The `GlobalNamingResources` element.
#[derive(Debug)]
pub struct GlobalNamingResources {
    pub resources: Vec<Resource>,
}

impl Default for GlobalNamingResources {
    /// The stock naming resources: only the user database.
    fn default() -> (r: Self)
        ensures
            r.resources@.len() == 1,
            r.resources@[0].name@ == "UserDatabase"@,
    {
        let mut resources: Vec<Resource> = Vec::new();
        resources.push(Resource::default());
        GlobalNamingResources { resources }
    }
}

/// A lifecycle `Listener` element.
#[derive(Debug)]
pub struct Listener {
    pub class_name: String,
}

impl Listener {
    /// A listener of the given class.
    pub fn new(cn: &str) -> (r: Self)
        ensures
            r.class_name@ == cn@,
    {
        Listener { class_name: String::from_str(cn) }
    }
}

/// The APR lifecycle `Listener` element with its SSL engine switch.
#[derive(Debug)]
pub struct AprLifecycleListener {
    pub class_name: String,
    pub ssl_engine: String,
}

impl Default for AprLifecycleListener {
    /// The stock APR listener with the SSL engine on.
    fn default() -> (r: Self)
        ensures
            r.class_name@ == "org.apache.catalina.core.AprLifecycleListener"@,
            r.ssl_engine@ == "on"@,
    {
        AprLifecycleListener {
            class_name: String::from_str("org.apache.catalina.core.AprLifecycleListener"),
            ssl_engine: String::from_str("on"),
        }
    }
}

/// The listener classes a Tomcat 7 server declares.
pub open spec fn tomcat7_listeners() -> Seq<Seq<char>> {
    seq![
        "org.apache.catalina.startup.VersionLoggerListener"@,
        "org.apache.catalina.core.JasperListener"@,
        "org.apache.catalina.core.JreMemoryLeakPreventionListener"@,
        "org.apache.catalina.mbeans.GlobalResourcesLifecycleListener"@,
        "org.apache.catalina.core.ThreadLocalLeakPreventionListener"@,
    ]
}

/// The listener classes a Tomcat 8 (or later) server declares: as for
/// Tomcat 7 but without the Jasper listener.
pub open spec fn tomcat8_listeners() -> Seq<Seq<char>> {
    seq![
        "org.apache.catalina.startup.VersionLoggerListener"@,
        "org.apache.catalina.core.JreMemoryLeakPreventionListener"@,
        "org.apache.catalina.mbeans.GlobalResourcesLifecycleListener"@,
        "org.apache.catalina.core.ThreadLocalLeakPreventionListener"@,
    ]
}

/// The listener class names of a listener list.
pub open spec fn listener_names(ls: Seq<Listener>) -> Seq<Seq<char>> {
    ls.map_values(|l: Listener| l.class_name@)
}

/// The root `Server` element.
#[derive(Debug)]
pub struct Server {
    pub port: i32,
    pub shutdown: String,
    pub listener: AprLifecycleListener,
    pub listeners: Vec<Listener>,
    pub resource: GlobalNamingResources,
    pub service: Service,
}

/// The stock fields every new server shares.
pub open spec fn stock_server(s: Server) -> bool {
    &&& s.port == 8005
    &&& s.shutdown@ == "SHUTDOWN"@
    &&& s.service.connector.port == 8080
    &&& s.service.connector.protocol@ == "HTTP/1.1"@
    &&& s.service.engine.host.contexts@ == Seq::<Context>::empty()
}

impl Server {
    /// A stock Tomcat 7 server.
    pub fn new_tomcat7() -> (r: Self)
        ensures
            stock_server(r),
            listener_names(r.listeners@) == tomcat7_listeners(),
    {
        let mut listeners: Vec<Listener> = Vec::new();
        listeners.push(Listener::new("org.apache.catalina.startup.VersionLoggerListener"));
        listeners.push(Listener::new("org.apache.catalina.core.JasperListener"));
        listeners.push(Listener::new("org.apache.catalina.core.JreMemoryLeakPreventionListener"));
        listeners.push(
            Listener::new("org.apache.catalina.mbeans.GlobalResourcesLifecycleListener"),
        );
        listeners.push(
            Listener::new("org.apache.catalina.core.ThreadLocalLeakPreventionListener"),
        );
        let r = Self {
            port: 8005,
            shutdown: String::from_str("SHUTDOWN"),
            resource: GlobalNamingResources::default(),
            service: Service::default(),
            listener: AprLifecycleListener::default(),
            listeners,
        };
        proof {
            assert(listener_names(r.listeners@) =~= tomcat7_listeners());
        }
        r
    }

    /// A stock Tomcat 8 (or later) server.
    pub fn new_tomcat8() -> (r: Self)
        ensures
            stock_server(r),
            listener_names(r.listeners@) == tomcat8_listeners(),
    {
        let mut listeners: Vec<Listener> = Vec::new();
        listeners.push(Listener::new("org.apache.catalina.startup.VersionLoggerListener"));
        listeners.push(Listener::new("org.apache.catalina.core.JreMemoryLeakPreventionListener"));
        listeners.push(
            Listener::new("org.apache.catalina.mbeans.GlobalResourcesLifecycleListener"),
        );
        listeners.push(
            Listener::new("org.apache.catalina.core.ThreadLocalLeakPreventionListener"),
        );
        let r = Self {
            port: 8005,
            shutdown: String::from_str("SHUTDOWN"),
            resource: GlobalNamingResources::default(),
            service: Service::default(),
            listener: AprLifecycleListener::default(),
            listeners,
        };
        proof {
            assert(listener_names(r.listeners@) =~= tomcat8_listeners());
        }
        r
    }
}

/// The whole document to be written as `server.xml`.
pub struct ServerXml {
    pub server: Server,
}

impl ServerXml {
    /// A stock Tomcat 7 document.
    pub fn new_tomcat7() -> (r: Self)
        ensures
            stock_server(r.server),
            listener_names(r.server.listeners@) == tomcat7_listeners(),
    {
        ServerXml { server: Server::new_tomcat7() }
    }

    /// A stock Tomcat 8 (or later) document.
    pub fn new_tomcat8() -> (r: Self)
        ensures
            stock_server(r.server),
            listener_names(r.server.listeners@) == tomcat8_listeners(),
    {
        ServerXml { server: Server::new_tomcat8() }
    }

    /// Sets the shutdown port of the server.
    pub fn server_port(&mut self, port: i32)
        ensures
            final (self).server == (Server { port, ..old(self).server }),
    {
        self.server.port = port;
    }

    /// Sets the HTTP connector's port; everything else of the document
    /// is unchanged.
    pub fn http_port(&mut self, port: i32)
        ensures
            final (self).server == (Server {
                service: Service {
                    connector: Connector { port, ..old(self).server.service.connector },
                    ..old(self).server.service
                },
                ..old(self).server
            }),
    {
        self.server.service.connector.port = port;
    }

    /// Adds a reloadable context serving `doc` under `path`; everything
    /// else of the document is unchanged.
    pub fn add_context(&mut self, path: &str, doc: &str)
        ensures
            ({
                let pre = old(self).server.service.engine.host.contexts@;
                let post = final (self).server.service.engine.host.contexts@;
                &&& post.len() == pre.len() + 1
                &&& post.last().path@ == path@
                &&& post.last().doc_base@ == doc@
                &&& post.last().reloadable == true
                &&& forall|i: int| 0 <= i < pre.len() ==> post[i] == pre[i]
            }),
            final (self).server.port == old(self).server.port,
            final (self).server.shutdown == old(self).server.shutdown,
            final (self).server.listener == old(self).server.listener,
            final (self).server.listeners == old(self).server.listeners,
            final (self).server.resource == old(self).server.resource,
            final (self).server.service.name == old(self).server.service.name,
            final (self).server.service.connector == old(self).server.service.connector,
            final (self).server.service.engine.name == old(self).server.service.engine.name,
            final (self).server.service.engine.default_host == old(
                self,
            ).server.service.engine.default_host,
            final (self).server.service.engine.realm == old(self).server.service.engine.realm,
            final (self).server.service.engine.host.name == old(
                self,
            ).server.service.engine.host.name,
            final (self).server.service.engine.host.app_base == old(
                self,
            ).server.service.engine.host.app_base,
            final (self).server.service.engine.host.unpack_wars == old(
                self,
            ).server.service.engine.host.unpack_wars,
            final (self).server.service.engine.host.auto_deploy == old(
                self,
            ).server.service.engine.host.auto_deploy,
            final (self).server.service.engine.host.value == old(
                self,
            ).server.service.engine.host.value,
    {
        self.server.service.engine.host.contexts.push(Context::new(path, doc));
    }
}

} // verus!
