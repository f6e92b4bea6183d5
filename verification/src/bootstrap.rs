use vstd::prelude::*;
use vstd::string::*;

verus! {

/// A configuration value together with where it came from.
#[derive(Debug)]
pub enum Setting<T> {
    /// Nothing was given and nothing is assumed.
    Unset,
    /// The value is the built-in default.
    Default(T),
    /// The caller gave the value.
    Explicit(T),
}

/// Where the server listens.
#[derive(Debug)]
pub struct ListenAddress {
    pub host: String,
    pub port: u16,
}

/// What a `ListenAddress` holds.
pub ghost struct ListenAddressView {
    pub host: Seq<char>,
    pub port: u16,
}

impl View for ListenAddress {
    type V = ListenAddressView;

    open spec fn view(&self) -> ListenAddressView {
        ListenAddressView { host: self.host@, port: self.port }
    }
}

/// The two ways to listen.
#[derive(Clone, Copy, Debug, PartialEq, Eq, Structural)]
pub enum Scheme {
    Tls,
    Plaintext,
}

/// What the server is started with. It is made once from the startup arguments.
#[derive(Debug)]
pub struct ServerConfig {
    pub listen: Setting<ListenAddress>,
    pub certificate: Setting<String>,
    pub key: Setting<String>,
    pub work_dir: Option<String>,
    /// Whether TLS is wanted; an unset flag means that it is.
    pub tls: Setting<bool>,
}

/// The first thing to do at startup.
#[derive(Debug)]
pub enum Startup {
    /// Listen without TLS.
    Plaintext { address: ListenAddress },
    /// Load the identity from these files, then listen with TLS and without
    /// asking clients for a certificate. A path that was not configured is `None`.
    Tls { address: ListenAddress, certificate: Option<String>, key: Option<String> },
}

/// What to do when TLS could not be set up.
#[derive(Debug)]
pub enum Recovery {
    /// Give up: the caller asked for TLS.
    Abort,
    /// Listen without TLS instead.
    Plaintext { address: ListenAddress },
}

/// The port that a scheme listens on where no address was given.
pub open spec fn default_port(scheme: Scheme) -> u16 {
    match scheme {
        Scheme::Tls => 443,
        Scheme::Plaintext => 80,
    }
}

/// The host that the server listens on where no address was given.
pub open spec fn default_host() -> Seq<char> {
    "127.0.0.1"@
}

/// Whether TLS is switched on: it is unless the flag says otherwise.
pub open spec fn tls_enabled(tls: Setting<bool>) -> bool {
    match tls {
        Setting::Unset => true,
        Setting::Default(on) => on,
        Setting::Explicit(on) => on,
    }
}

/// Whether the caller asked for TLS: by the flag, or by naming a certificate or a key.
pub open spec fn tls_explicit(config: ServerConfig) -> bool {
    config.tls == Setting::Explicit(true) || config.certificate is Explicit || config.key
        is Explicit
}

/// Whether startup tries TLS at all: the flag does not forbid it, and the
/// caller asked for it or a certificate or key path is at hand.
pub open spec fn tls_requested(config: ServerConfig) -> bool {
    tls_enabled(config.tls) && (tls_explicit(config) || !(config.certificate is Unset)
        || !(config.key is Unset))
}

/// The address to listen on with `scheme`: the one the caller gave, or else
/// the default host, or the host of the default address, with the port that
/// belongs to the scheme.
pub open spec fn listen_address(listen: Setting<ListenAddress>, scheme: Scheme) -> ListenAddressView {
    match listen {
        Setting::Explicit(address) => address@,
        Setting::Default(address) => ListenAddressView {
            host: address.host@,
            port: default_port(scheme),
        },
        Setting::Unset => ListenAddressView { host: default_host(), port: default_port(scheme) },
    }
}

/// The path that a setting holds, if any.
pub open spec fn path_view(path: Setting<String>) -> Option<Seq<char>> {
    match path {
        Setting::Unset => None,
        Setting::Default(p) => Some(p@),
        Setting::Explicit(p) => Some(p@),
    }
}

/// The view of an optional path.
pub open spec fn optional_view(path: Option<String>) -> Option<Seq<char>> {
    match path {
        None => None,
        Some(p) => Some(p@),
    }
}

/// How a start of the server ends.
#[derive(Clone, Copy, Debug, PartialEq, Eq, Structural)]
pub enum Outcome {
    ServingTls,
    ServingPlaintext,
    Aborted,
}

/// How startup ends for `config` where setting up TLS, if it is tried,
/// succeeds or fails as `tls_works` says.
pub open spec fn outcome(config: ServerConfig, tls_works: bool) -> Outcome {
    if !tls_requested(config) {
        Outcome::ServingPlaintext
    } else if tls_works {
        Outcome::ServingTls
    } else if tls_explicit(config) {
        Outcome::Aborted
    } else {
        Outcome::ServingPlaintext
    }
}

impl ServerConfig {
    /// Whether TLS is switched on.
    pub fn tls_enabled(&self) -> (r: bool)
        ensures
            r == tls_enabled(self.tls),
    {
        match &self.tls {
            Setting::Unset => true,
            Setting::Default(on) => *on,
            Setting::Explicit(on) => *on,
        }
    }

    /// Whether the caller asked for TLS.
    pub fn tls_explicit(&self) -> (r: bool)
        ensures
            r == tls_explicit(*self),
    {
        let by_flag = match &self.tls {
            Setting::Explicit(on) => *on,
            _ => false,
        };
        let by_certificate = match &self.certificate {
            Setting::Explicit(_) => true,
            _ => false,
        };
        let by_key = match &self.key {
            Setting::Explicit(_) => true,
            _ => false,
        };
        by_flag || by_certificate || by_key
    }

    /// Whether startup tries TLS at all.
    pub fn tls_requested(&self) -> (r: bool)
        ensures
            r == tls_requested(*self),
    {
        let certificate_unset = match &self.certificate {
            Setting::Unset => true,
            _ => false,
        };
        let key_unset = match &self.key {
            Setting::Unset => true,
            _ => false,
        };
        self.tls_enabled() && (self.tls_explicit() || !certificate_unset || !key_unset)
    }

    /// The address to listen on with `scheme`.
    pub fn address(&self, scheme: Scheme) -> (r: ListenAddress)
        ensures
            r@ == listen_address(self.listen, scheme),
    {
        let port: u16 = match scheme {
            Scheme::Tls => 443,
            Scheme::Plaintext => 80,
        };
        match &self.listen {
            Setting::Explicit(address) => ListenAddress {
                host: address.host.as_str().to_owned(),
                port: address.port,
            },
            Setting::Default(address) => ListenAddress {
                host: address.host.as_str().to_owned(),
                port,
            },
            Setting::Unset => ListenAddress { host: "127.0.0.1".to_owned(), port },
        }
    }

    /// The first thing to do at startup: listen without TLS where TLS is
    /// not requested, otherwise load the identity and listen with TLS.
    pub fn first_step(&self) -> (r: Startup)
        ensures
            !tls_requested(*self) ==> r is Plaintext && r->Plaintext_address@ == listen_address(
                self.listen,
                Scheme::Plaintext,
            ),
            tls_requested(*self) ==> r is Tls && r->Tls_address@ == listen_address(
                self.listen,
                Scheme::Tls,
            ) && optional_view(r->Tls_certificate) == path_view(self.certificate) && optional_view(
                r->Tls_key,
            ) == path_view(self.key),
    {
        if self.tls_requested() {
            Startup::Tls {
                address: self.address(Scheme::Tls),
                certificate: copy_path(&self.certificate),
                key: copy_path(&self.key),
            }
        } else {
            Startup::Plaintext { address: self.address(Scheme::Plaintext) }
        }
    }

    /// What to do when loading the identity or setting up the TLS listener
    /// has failed: give up where the caller asked for TLS, otherwise listen
    /// without TLS on the configured address.
    pub fn after_tls_failure(&self) -> (r: Recovery)
        ensures
            tls_explicit(*self) ==> r is Abort,
            !tls_explicit(*self) ==> r is Plaintext && r->Plaintext_address@ == listen_address(
                self.listen,
                Scheme::Plaintext,
            ),
    {
        if self.tls_explicit() {
            Recovery::Abort
        } else {
            Recovery::Plaintext { address: self.address(Scheme::Plaintext) }
        }
    }
}

/// How a start of the server ends, given whether setting up TLS works.
pub fn startup_outcome(config: &ServerConfig, tls_works: bool) -> (r: Outcome)
    ensures
        r == outcome(*config, tls_works),
{
    match config.first_step() {
        Startup::Plaintext { .. } => Outcome::ServingPlaintext,
        Startup::Tls { .. } => {
            if tls_works {
                Outcome::ServingTls
            } else {
                match config.after_tls_failure() {
                    Recovery::Abort => Outcome::Aborted,
                    Recovery::Plaintext { .. } => Outcome::ServingPlaintext,
                }
            }
        },
    }
}

fn copy_path(path: &Setting<String>) -> (r: Option<String>)
    ensures
        optional_view(r) == path_view(*path),
{
    match path {
        Setting::Unset => None,
        Setting::Default(p) => Some(p.as_str().to_owned()),
        Setting::Explicit(p) => Some(p.as_str().to_owned()),
    }
}

/// A server that was not asked for TLS always comes up: where TLS cannot be
/// set up, whether or not any certificate file exists, it serves plaintext.
pub proof fn lemma_fallback_without_explicit_tls(config: ServerConfig, tls_works: bool)
    requires
        !tls_explicit(config),
    ensures
        outcome(config, tls_works) != Outcome::Aborted,
        !tls_works ==> outcome(config, tls_works) == Outcome::ServingPlaintext,
{
}

/// With neither a certificate nor a key path, and TLS not asked for, the
/// server listens in plaintext at once and never looks for a file.
pub proof fn lemma_plaintext_without_credentials(config: ServerConfig)
    requires
        config.certificate is Unset,
        config.key is Unset,
        !tls_explicit(config),
    ensures
        !tls_requested(config),
        forall|tls_works: bool| outcome(config, tls_works) == Outcome::ServingPlaintext,
{
}

/// A failure of TLS is fatal exactly where the caller asked for TLS.
pub proof fn lemma_abort_only_when_explicit(config: ServerConfig, tls_works: bool)
    ensures
        outcome(config, tls_works) == Outcome::Aborted <==> tls_requested(config) && !tls_works
            && tls_explicit(config),
{
}

} // verus!
