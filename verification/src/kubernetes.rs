//! Endpoint discovery through Kubernetes.
//!
//! Pods declare their interest in being proxied with the label [`FORMAT_VERSION_LABEL`] set to
//! [`FORMAT_VERSION`], and the services to proxy in the annotation [`SERVICES_ANNOTATION`]: a
//! comma-separated list of `<external-port>:<external-protocol>:<backend-port>:<backend-protocol>`.
//! [`KubernetesDiscoveryRuntime`] turns the pod events of a watch into [`EndpointEvent`]s.

use crate::backend::endpoint::{EndpointEvent, EndpointEventView};
use crate::net::{IpAddress, SocketAddress};
use crate::text::{same_text, split, split_on, strings_view, surround};
use vstd::prelude::*;
use vstd::string::*;

pub mod laws;

verus! {

/// The label pods should use to declare their interest in being proxied, and the format version
/// of their `state-proxy.io` annotations.
pub const FORMAT_VERSION_LABEL: &'static str = "state-proxy.io/use";

/// The current annotation format version.
pub const FORMAT_VERSION: &'static str = "v0";

/// The annotation used to define which services should be proxied for this pod.
pub const SERVICES_ANNOTATION: &'static str = "state-proxy.io/services";

// ---------------------------------------------------------------------------------------------
// Cluster configuration
// ---------------------------------------------------------------------------------------------

/// Kubernetes configuration.
#[derive(Debug, PartialEq, Eq)]
pub enum KubernetesConfig {
    /// Use kubeconfig with the given context, or `default`.
    KubeConfig { context: Option<String> },
    /// Connect to a kubernetes cluster at the given URL.
    Explicit { url: String },
}

/// An error in the connection parameters of a cluster.
#[derive(Debug, PartialEq, Eq)]
pub enum KubernetesConfigError {
    /// The cluster URL is not a URI.
    InvalidUrl { url: String },
    /// The cluster URL has no scheme: the client would panic on it.
    MissingScheme { url: String },
}

impl KubernetesConfigError {
    /// The text of this error.
    pub open spec fn message_text(&self) -> Seq<char> {
        match self {
            KubernetesConfigError::InvalidUrl { url } => "invalid Kubernetes cluster URL: "@ + url@,
            KubernetesConfigError::MissingScheme { .. } => "Kubernetes cluster URL must have a scheme component"@,
        }
    }

    /// The text of this error, as the program reports it.
    pub fn message(&self) -> (r: String)
        ensures
            r@ == self.message_text(),
    {
        match self {
            KubernetesConfigError::InvalidUrl { url } => {
                proof {
                    reveal_strlit("");
                }
                surround("invalid Kubernetes cluster URL: ", url.as_str(), "")
            },
            KubernetesConfigError::MissingScheme { .. } => {
                String::from_str("Kubernetes cluster URL must have a scheme component")
            },
        }
    }
}

/// What `http::Uri` makes of a text: `None` where `<http::Uri as FromStr>::from_str` refuses it,
/// else whether the URI has a scheme and the text that `Display` writes for it.
pub uninterp spec fn uri_reading(text: Seq<char>) -> Option<(bool, Seq<char>)>;

/// Read `text` as a URI with the `http` crate.
///
/// Trusted: calls `<http::Uri as FromStr>::from_str`, then `Uri::scheme` and `Uri`'s
/// `Display`; the contract claims only that the outcome is a function of the text, named
/// `uri_reading`. Which texts are URIs, and how they are written back, is not restated.
#[verifier::external_body]
fn read_uri(text: &str) -> (r: Option<(bool, String)>)
    ensures
        match r {
            Some((has_scheme, shown)) => uri_reading(text@) == Some((has_scheme, shown@)),
            None => uri_reading(text@) is None,
        },
{
    match text.parse::<http::Uri>() {
        Ok(uri) => Some((uri.scheme().is_some(), uri.to_string())),
        Err(_) => None,
    }
}

/// The cluster URL to connect to, given the text `url` and what reading it as a URI gave:
/// refused if it is not a URI or has no scheme, else the URI as written back.
pub fn cluster_url_from_reading(url: &str, reading: Option<(bool, String)>) -> (r: Result<String, KubernetesConfigError>)
    ensures
        match reading {
            None => r matches Err(KubernetesConfigError::InvalidUrl { url: u }) && u@ == url@,
            Some((has_scheme, shown)) => if has_scheme {
                r matches Ok(u) && u@ == shown@
            } else {
                r matches Err(KubernetesConfigError::MissingScheme { url: u }) && u@ == url@
            },
        },
{
    match reading {
        None => Err(KubernetesConfigError::InvalidUrl { url: String::from_str(url) }),
        Some((has_scheme, shown)) => if has_scheme {
            Ok(shown)
        } else {
            Err(KubernetesConfigError::MissingScheme { url: String::from_str(url) })
        },
    }
}

/// The cluster URL of an explicit configuration: the URL must be a URI with a scheme, since the
/// client would otherwise panic instead of erroring out.
pub fn explicit_cluster_url(url: &str) -> (r: Result<String, KubernetesConfigError>)
    ensures
        match uri_reading(url@) {
            None => r matches Err(KubernetesConfigError::InvalidUrl { url: u }) && u@ == url@,
            Some((has_scheme, shown)) => if has_scheme {
                r matches Ok(u) && u@ == shown
            } else {
                r matches Err(KubernetesConfigError::MissingScheme { url: u }) && u@ == url@
            },
        },
{
    let reading = read_uri(url);
    cluster_url_from_reading(url, reading)
}

/// The name of the discovery task for `namespace` of the cluster at `cluster_url`.
pub open spec fn discovery_name(cluster_url: Seq<char>, namespace: Seq<char>) -> Seq<char> {
    "kubernetes@"@ + cluster_url + "/"@ + namespace
}

/// An endpoint discovery task for one namespace of a Kubernetes cluster.
pub struct KubernetesEndpointDiscovery {
    name: String,
    cluster_url: String,
    namespace: String,
}

/// The view of a [`KubernetesEndpointDiscovery`]: its name, cluster URL and namespace.
pub struct KubernetesEndpointDiscoveryView {
    pub name: Seq<char>,
    pub cluster_url: Seq<char>,
    pub namespace: Seq<char>,
}

impl View for KubernetesEndpointDiscovery {
    type V = KubernetesEndpointDiscoveryView;

    closed spec fn view(&self) -> KubernetesEndpointDiscoveryView {
        KubernetesEndpointDiscoveryView { name: self.name@, cluster_url: self.cluster_url@, namespace: self.namespace@ }
    }
}

impl KubernetesEndpointDiscovery {
    /// Discovery of the pods of `namespace`, or of `default`, in the cluster at `cluster_url`. Its
    /// name is `kubernetes@<cluster_url>/<namespace>`.
    pub fn new(cluster_url: String, namespace: Option<String>) -> (r: Self)
        ensures
            r@.cluster_url == cluster_url@,
            r@.namespace == match namespace {
                Some(n) => n@,
                None => "default"@,
            },
            r@.name == discovery_name(cluster_url@, r@.namespace),
    {
        let namespace = match namespace {
            Some(n) => n,
            None => String::from_str("default"),
        };
        let mut name = String::from_str("kubernetes@");
        name.append(cluster_url.as_str());
        name.append("/");
        name.append(namespace.as_str());
        KubernetesEndpointDiscovery { name, cluster_url, namespace }
    }

    /// The name of this discovery task.
    pub fn name(&self) -> (r: &String)
        ensures
            r@ == self@.name,
    {
        &self.name
    }

    /// The URL of the cluster.
    pub fn cluster_url(&self) -> (r: &String)
        ensures
            r@ == self@.cluster_url,
    {
        &self.cluster_url
    }

    /// The namespace whose pods are watched.
    pub fn namespace(&self) -> (r: &String)
        ensures
            r@ == self@.namespace,
    {
        &self.namespace
    }
}

// ---------------------------------------------------------------------------------------------
// Port numbers
// ---------------------------------------------------------------------------------------------

/// `c` is an ASCII decimal digit.
pub open spec fn is_decimal_digit(c: char) -> bool {
    '0' <= c <= '9'
}

/// The value of the decimal digits `digits`.
pub open spec fn decimal_value(digits: Seq<char>) -> nat
    decreases digits.len(),
{
    if digits.len() == 0 {
        0
    } else {
        decimal_value(digits.drop_last()) * 10 + (digits.last() as nat - '0' as nat) as nat
    }
}

/// `text` without its leading `+`, if it has one.
pub open spec fn unsigned_digits(text: Seq<char>) -> Seq<char> {
    if text.len() > 0 && text[0] == '+' {
        text.drop_first()
    } else {
        text
    }
}

/// Every character of `s` is a decimal digit.
pub open spec fn all_decimal_digits(s: Seq<char>) -> bool {
    forall|i: int| 0 <= i < s.len() ==> is_decimal_digit(#[trigger] s[i])
}

/// The port number that `text` denotes, as `<u16 as FromStr>::from_str` reads it: an optional
/// `+`, then at least one decimal digit and nothing else, of value at most 65535.
pub open spec fn port_of_text(text: Seq<char>) -> Option<u16> {
    let digits = unsigned_digits(text);
    if digits.len() > 0 && all_decimal_digits(digits) && decimal_value(digits) <= 65535 {
        Some(decimal_value(digits) as u16)
    } else {
        None
    }
}

/// The error of [`parse_port`].
#[derive(Debug, PartialEq, Eq)]
pub enum PortError {
    /// The text is not a port number.
    NotAPortNumber { text: String },
}

/// The text of a refused port number.
pub open spec fn not_a_port_text(text: Seq<char>) -> Seq<char> {
    "'"@ + text + "' is not a port number"@
}

impl PortError {
    /// The text of this error.
    pub open spec fn message_text(&self) -> Seq<char> {
        match self {
            PortError::NotAPortNumber { text } => not_a_port_text(text@),
        }
    }

    /// The text of this error, as the program reports it.
    pub fn message(&self) -> (r: String)
        ensures
            r@ == self.message_text(),
    {
        match self {
            PortError::NotAPortNumber { text } => surround("'", text.as_str(), "' is not a port number"),
        }
    }
}

/// Read a port number.
pub fn parse_port(port: &str) -> (r: Result<u16, PortError>)
    ensures
        match r {
            Ok(n) => port_of_text(port@) == Some(n),
            Err(PortError::NotAPortNumber { text }) => port_of_text(port@) is None && text@ == port@,
        },
{
    let n = port.unicode_len();
    let ghost text = port@;
    let mut i: usize = 0;
    if n > 0 && port.get_char(0) == '+' {
        i = 1;
    }
    let first = i;
    let ghost digits = unsigned_digits(text);
    proof {
        assert(digits =~= text.subrange(first as int, n as int));
    }
    let mut value: u32 = 0;
    let mut all_digits = true;
    while i < n
        invariant
            n == text.len(),
            text == port@,
            first <= i <= n,
            first <= 1,
            digits == text.subrange(first as int, n as int),
            all_digits <==> forall|k: int| first <= k < i ==> is_decimal_digit(#[trigger] text[k]),
            all_digits ==> value as nat == if decimal_value(text.subrange(first as int, i as int)) <= 65536 {
                decimal_value(text.subrange(first as int, i as int))
            } else {
                65536
            },
        decreases n - i,
    {
        let c = port.get_char(i);
        if '0' <= c && c <= '9' {
            if all_digits {
                let d = (c as u32) - ('0' as u32);
                let next = value * 10 + d;
                value = if next > 65536 { 65536 } else { next };
                proof {
                    let prefix = text.subrange(first as int, i + 1);
                    assert(prefix.drop_last() =~= text.subrange(first as int, i as int));
                    assert(prefix.last() == c);
                }
            }
        } else {
            all_digits = false;
        }
        i += 1;
    }
    proof {
        assert(text.subrange(first as int, i as int) == digits);
        if all_digits {
            assert forall|k: int| 0 <= k < digits.len() implies is_decimal_digit(#[trigger] digits[k]) by {
                assert(digits[k] == text[k + first]);
            }
        } else {
            let k = choose|k: int| first <= k < n && !is_decimal_digit(#[trigger] text[k]);
            assert(digits[k - first] == text[k]);
        }
    }
    if all_digits && i > first && value <= 65535 {
        proof {
            assert(decimal_value(digits) == value);
            assert(digits.len() > 0);
            assert(port_of_text(text) == Some(decimal_value(digits) as u16));
        }
        Ok(value as u16)
    } else {
        proof {
            if all_digits && i > first {
                assert(decimal_value(digits) > 65535);
                assert(port_of_text(text) is None);
            } else if all_digits {
                assert(digits.len() == 0);
                assert(port_of_text(text) is None);
            } else {
                assert(!all_decimal_digits(digits));
                assert(port_of_text(text) is None);
            }
        }
        Err(PortError::NotAPortNumber { text: String::from_str(port) })
    }
}

/// The decimal digits of `n`, without leading zeros.
pub open spec fn decimal_digits(n: nat) -> Seq<char>
    decreases n,
{
    if n < 10 {
        seq![(n + '0' as nat) as char]
    } else {
        decimal_digits(n / 10).push(((n % 10) + '0' as nat) as char)
    }
}

pub(crate) proof fn lemma_decimal_digits(n: nat)
    ensures
        decimal_digits(n).len() > 0,
        all_decimal_digits(decimal_digits(n)),
        decimal_value(decimal_digits(n)) == n,
    decreases n,
{
    if n >= 10 {
        lemma_decimal_digits(n / 10);
        let d = decimal_digits(n);
        assert(d.drop_last() =~= decimal_digits(n / 10));
        let c = ((n % 10) + '0' as nat) as char;
        assert(c as nat == (n % 10) + 48);
        assert(d.last() == c);
        assert(decimal_value(d.drop_last()) == n / 10);
        assert(decimal_value(d) == decimal_value(d.drop_last()) * 10 + (c as nat - '0' as nat) as nat);
        assert(n == (n / 10) * 10 + n % 10) by (nonlinear_arith);
    } else {
        let d = decimal_digits(n);
        assert(d.drop_last() =~= Seq::<char>::empty());
        let c = (n + '0' as nat) as char;
        assert(c as nat == n + 48);
        assert(d.last() == c);
        assert(decimal_value(d.drop_last()) == 0);
        assert(decimal_value(d) == decimal_value(d.drop_last()) * 10 + (c as nat - '0' as nat) as nat);
    }
}

/// Every port number reads back from its decimal digits.
pub proof fn law_port_number_round_trip(port: u16)
    ensures
        port_of_text(decimal_digits(port as nat)) == Some(port),
{
    lemma_decimal_digits(port as nat);
}


// ---------------------------------------------------------------------------------------------
// Pods, as the watch reports them
// ---------------------------------------------------------------------------------------------

/// A pod's IP address as reported: an address, or a text that is not one.
#[derive(Debug, PartialEq, Eq)]
pub enum PodIp {
    Address(IpAddress),
    Unparsable(String),
}

/// The view of a [`PodIp`].
pub enum PodIpView {
    Address(IpAddress),
    Unparsable(Seq<char>),
}

impl View for PodIp {
    type V = PodIpView;

    open spec fn view(&self) -> PodIpView {
        match self {
            PodIp::Address(a) => PodIpView::Address(*a),
            PodIp::Unparsable(t) => PodIpView::Unparsable(t@),
        }
    }
}

/// The part of a pod's status that discovery reads.
#[derive(Debug, PartialEq, Eq)]
pub struct PodStatusInfo {
    pub pod_ip: Option<PodIp>,
    pub phase: Option<String>,
}

/// The view of a [`PodStatusInfo`].
pub struct PodStatusView {
    pub pod_ip: Option<PodIpView>,
    pub phase: Option<Seq<char>>,
}

impl View for PodStatusInfo {
    type V = PodStatusView;

    open spec fn view(&self) -> PodStatusView {
        PodStatusView {
            pod_ip: match &self.pod_ip {
                Some(ip) => Some(ip@),
                None => None,
            },
            phase: match &self.phase {
                Some(p) => Some(p@),
                None => None,
            },
        }
    }
}

/// The part of a pod that discovery reads: its uid, its name, its annotations (key and value, in
/// the order of the keys) and its status.
#[derive(Debug, PartialEq, Eq)]
pub struct PodInfo {
    pub uid: Option<String>,
    pub name: Option<String>,
    pub annotations: Option<Vec<(String, String)>>,
    pub status: Option<PodStatusInfo>,
}

/// The view of a [`PodInfo`].
pub struct PodInfoView {
    pub uid: Option<Seq<char>>,
    pub name: Option<Seq<char>>,
    pub annotations: Option<Seq<(Seq<char>, Seq<char>)>>,
    pub status: Option<PodStatusView>,
}

/// The views of annotations.
pub open spec fn annotations_view(annotations: Seq<(String, String)>) -> Seq<(Seq<char>, Seq<char>)> {
    annotations.map_values(|a: (String, String)| (a.0@, a.1@))
}

impl View for PodInfo {
    type V = PodInfoView;

    open spec fn view(&self) -> PodInfoView {
        PodInfoView {
            uid: match &self.uid {
                Some(u) => Some(u@),
                None => None,
            },
            name: match &self.name {
                Some(n) => Some(n@),
                None => None,
            },
            annotations: match &self.annotations {
                Some(a) => Some(annotations_view(a@)),
                None => None,
            },
            status: match &self.status {
                Some(st) => Some(st@),
                None => None,
            },
        }
    }
}

/// A pod event of a watch.
#[derive(Debug, PartialEq, Eq)]
pub enum PodEvent {
    /// A pod was added or changed.
    Applied(PodInfo),
    /// A pod was deleted.
    Deleted(PodInfo),
    /// The watch restarted: these are all the pods there are.
    Restarted(Vec<PodInfo>),
}

/// The views of pods.
pub open spec fn pods_view(pods: Seq<PodInfo>) -> Seq<PodInfoView> {
    pods.map_values(|p: PodInfo| p@)
}

/// The view of a [`PodEvent`].
pub enum PodEventView {
    Applied(PodInfoView),
    Deleted(PodInfoView),
    Restarted(Seq<PodInfoView>),
}

impl View for PodEvent {
    type V = PodEventView;

    open spec fn view(&self) -> PodEventView {
        match self {
            PodEvent::Applied(p) => PodEventView::Applied(p@),
            PodEvent::Deleted(p) => PodEventView::Deleted(p@),
            PodEvent::Restarted(ps) => PodEventView::Restarted(pods_view(ps@)),
        }
    }
}

/// An event of a pod watch that lists the pods again after each restart, one by one.
#[derive(Debug, PartialEq, Eq)]
pub enum WatchEvent {
    /// A pod was added or changed.
    Apply(PodInfo),
    /// A pod was deleted.
    Delete(PodInfo),
    /// The watch restarted; the pods there are follow.
    Init,
    /// One of the pods there are after a restart.
    InitApply(PodInfo),
    /// All the pods there are after a restart were listed.
    InitDone,
}

/// Collects the pods listed after a restart of a watch into one [`PodEvent::Restarted`].
pub struct RestartBuffer {
    pods: Option<Vec<PodInfo>>,
}

impl RestartBuffer {
    /// The pods collected since the last restart began, if one is under way.
    pub closed spec fn spec_pods(&self) -> Option<Seq<PodInfoView>> {
        match &self.pods {
            Some(p) => Some(pods_view(p@)),
            None => None,
        }
    }

    /// No restart under way.
    pub fn new() -> (r: Self)
        ensures
            r.spec_pods() is None,
    {
        RestartBuffer { pods: None }
    }

    /// Take a watch event: a change or a deletion passes through; the pods listed after a restart
    /// are collected until the listing is done, and then handed on together.
    pub fn accept(&mut self, event: WatchEvent) -> (r: Option<PodEvent>)
        ensures
            match event {
                WatchEvent::Apply(p) => r == Some(PodEvent::Applied(p)) && final(self).spec_pods() == old(self).spec_pods(),
                WatchEvent::Delete(p) => r == Some(PodEvent::Deleted(p)) && final(self).spec_pods() == old(self).spec_pods(),
                WatchEvent::Init => r is None && final(self).spec_pods() == Some(Seq::<PodInfoView>::empty()),
                WatchEvent::InitApply(p) => r is None && final(self).spec_pods() == Some(
                    match old(self).spec_pods() {
                        Some(ps) => ps,
                        None => Seq::<PodInfoView>::empty(),
                    }.push(p@),
                ),
                WatchEvent::InitDone => final(self).spec_pods() is None && (r matches Some(PodEvent::Restarted(ps))
                    && pods_view(ps@) == match old(self).spec_pods() {
                    Some(ps) => ps,
                    None => Seq::<PodInfoView>::empty(),
                }),
            },
    {
        match event {
            WatchEvent::Apply(p) => Some(PodEvent::Applied(p)),
            WatchEvent::Delete(p) => Some(PodEvent::Deleted(p)),
            WatchEvent::Init => {
                self.pods = Some(Vec::new());
                proof {
                    assert(pods_view(Seq::<PodInfo>::empty()) =~= Seq::<PodInfoView>::empty());
                }
                None
            },
            WatchEvent::InitApply(p) => {
                let mut pods = match self.pods.take() {
                    Some(pods) => pods,
                    None => Vec::new(),
                };
                let ghost before = pods@;
                proof {
                    assert(pods_view(Seq::<PodInfo>::empty()) =~= Seq::<PodInfoView>::empty());
                }
                let ghost pv = p@;
                pods.push(p);
                proof {
                    assert(pods_view(pods@) =~= pods_view(before).push(pv));
                }
                self.pods = Some(pods);
                None
            },
            WatchEvent::InitDone => {
                let pods = match self.pods.take() {
                    Some(pods) => pods,
                    None => Vec::new(),
                };
                proof {
                    assert(pods_view(Seq::<PodInfo>::empty()) =~= Seq::<PodInfoView>::empty());
                }
                Some(PodEvent::Restarted(pods))
            },
        }
    }
}

// ---------------------------------------------------------------------------------------------
// Errors
// ---------------------------------------------------------------------------------------------

/// Why a service string was refused.
#[derive(Debug, PartialEq, Eq)]
pub enum ServiceStringError {
    /// The string has fewer than four `:`-separated parts.
    MissingParts,
    /// A port part is not a port number.
    NotAPortNumber { text: String },
}

/// The view of a [`ServiceStringError`].
pub enum ServiceStringErrorView {
    MissingParts,
    NotAPortNumber { text: Seq<char> },
}

impl View for ServiceStringError {
    type V = ServiceStringErrorView;

    open spec fn view(&self) -> ServiceStringErrorView {
        match self {
            ServiceStringError::MissingParts => ServiceStringErrorView::MissingParts,
            ServiceStringError::NotAPortNumber { text } => ServiceStringErrorView::NotAPortNumber { text: text@ },
        }
    }
}

impl ServiceStringError {
    /// The text of this error.
    pub open spec fn message_text(&self) -> Seq<char> {
        match self {
            ServiceStringError::MissingParts => "invalid service string"@,
            ServiceStringError::NotAPortNumber { text } => not_a_port_text(text@),
        }
    }

    /// The text of this error, as the program reports it.
    pub fn message(&self) -> (r: String)
        ensures
            r@ == self.message_text(),
    {
        match self {
            ServiceStringError::MissingParts => String::from_str("invalid service string"),
            ServiceStringError::NotAPortNumber { text } => surround("'", text.as_str(), "' is not a port number"),
        }
    }
}

/// An error while turning pod events into endpoint events.
#[derive(Debug, PartialEq, Eq)]
pub enum DiscoveryError {
    /// The pod's address is not an IP address.
    InvalidPodAddress { address: String, pod_name: String, uid: String },
    /// One of the pod's service strings is refused.
    InvalidServiceString { service_string: String, pod_name: String, uid: String, error: ServiceStringError },
}

/// The view of a [`DiscoveryError`].
pub enum DiscoveryErrorView {
    InvalidPodAddress { address: Seq<char>, pod_name: Seq<char>, uid: Seq<char> },
    InvalidServiceString {
        service_string: Seq<char>,
        pod_name: Seq<char>,
        uid: Seq<char>,
        error: ServiceStringErrorView,
    },
}

impl View for DiscoveryError {
    type V = DiscoveryErrorView;

    open spec fn view(&self) -> DiscoveryErrorView {
        match self {
            DiscoveryError::InvalidPodAddress { address, pod_name, uid } => DiscoveryErrorView::InvalidPodAddress {
                address: address@,
                pod_name: pod_name@,
                uid: uid@,
            },
            DiscoveryError::InvalidServiceString { service_string, pod_name, uid, error } => DiscoveryErrorView::InvalidServiceString {
                service_string: service_string@,
                pod_name: pod_name@,
                uid: uid@,
                error: error@,
            },
        }
    }
}

impl DiscoveryError {
    /// The text of this error.
    pub open spec fn message_text(&self) -> Seq<char> {
        match self {
            DiscoveryError::InvalidPodAddress { address, pod_name, uid } => "while parsing the address "@ + address@
                + " of pod "@ + pod_name@ + " ("@ + uid@ + ")"@,
            DiscoveryError::InvalidServiceString { service_string, pod_name, uid, error } =>
                "while handling service string '"@ + service_string@ + "' for pod "@ + pod_name@ + " ("@ + uid@
                + "): "@ + error.message_text(),
        }
    }

    /// The text of this error, as the program reports it.
    pub fn message(&self) -> (r: String)
        ensures
            r@ == self.message_text(),
    {
        match self {
            DiscoveryError::InvalidPodAddress { address, pod_name, uid } => {
                let mut r = surround("while parsing the address ", address.as_str(), " of pod ");
                r.append(pod_name.as_str());
                r.append(surround(" (", uid.as_str(), ")").as_str());
                r
            },
            DiscoveryError::InvalidServiceString { service_string, pod_name, uid, error } => {
                let mut r = surround("while handling service string '", service_string.as_str(), "' for pod ");
                r.append(pod_name.as_str());
                r.append(surround(" (", uid.as_str(), "): ").as_str());
                r.append(error.message().as_str());
                r
            },
        }
    }
}

/// The views of endpoint events.
pub open spec fn endpoint_events_view(events: Seq<EndpointEvent>) -> Seq<EndpointEventView> {
    events.map_values(|e: EndpointEvent| e@)
}

// ---------------------------------------------------------------------------------------------
// Service strings
// ---------------------------------------------------------------------------------------------

/// The event that the service string `service_string` of the pod `uid` at `address` asks for, or
/// why it is refused. The format is
/// `<external-port>:<external-protocol>:<backend-port>:<backend-protocol>`; anything after a
/// fourth `:` is ignored. The endpoint starts unavailable.
pub open spec fn service_event(service_string: Seq<char>, uid: Seq<char>, address: IpAddress) -> Result<EndpointEventView, ServiceStringErrorView> {
    let parts = split_on(service_string, ':');
    if parts.len() < 4 {
        Err(ServiceStringErrorView::MissingParts)
    } else {
        match port_of_text(parts[0]) {
            None => Err(ServiceStringErrorView::NotAPortNumber { text: parts[0] }),
            Some(external_port) => match port_of_text(parts[2]) {
                None => Err(ServiceStringErrorView::NotAPortNumber { text: parts[2] }),
                Some(backend_port) => Ok(EndpointEventView::Add {
                    uid,
                    is_available: false,
                    external_port,
                    external_protocol: parts[1],
                    backend_address: SocketAddress { ip: address, port: backend_port },
                    backend_protocol: parts[3],
                }),
            },
        }
    }
}

/// Read one service string of the pod `uid` at `address`.
pub fn service_from_string(service_string: &str, uid: String, address: IpAddress) -> (r: Result<EndpointEvent, ServiceStringError>)
    ensures
        match r {
            Ok(e) => service_event(service_string@, uid@, address) == Ok::<EndpointEventView, ServiceStringErrorView>(e@),
            Err(e) => service_event(service_string@, uid@, address) == Err::<EndpointEventView, ServiceStringErrorView>(e@),
        },
{
    let parts = split(service_string, ':');
    proof {
        assert(strings_view(parts@).len() == parts@.len());
    }
    if parts.len() < 4 {
        return Err(ServiceStringError::MissingParts);
    }
    proof {
        assert(strings_view(parts@)[0] == parts@[0]@);
        assert(strings_view(parts@)[1] == parts@[1]@);
        assert(strings_view(parts@)[2] == parts@[2]@);
        assert(strings_view(parts@)[3] == parts@[3]@);
    }
    let external_port = match parse_port(parts[0].as_str()) {
        Ok(p) => p,
        Err(_) => return Err(ServiceStringError::NotAPortNumber { text: parts[0].clone() }),
    };
    let backend_port = match parse_port(parts[2].as_str()) {
        Ok(p) => p,
        Err(_) => return Err(ServiceStringError::NotAPortNumber { text: parts[2].clone() }),
    };
    Ok(EndpointEvent::add(
        uid,
        false,
        external_port,
        parts[1].clone(),
        SocketAddress::new(address, backend_port),
        parts[3].clone(),
    ))
}


/// The value of the first annotation named `key`.
pub open spec fn annotation_value(annotations: Seq<(Seq<char>, Seq<char>)>, key: Seq<char>) -> Option<Seq<char>>
    decreases annotations.len(),
{
    if annotations.len() == 0 {
        None
    } else if annotations[0].0 == key {
        Some(annotations[0].1)
    } else {
        annotation_value(annotations.drop_first(), key)
    }
}

/// Find the value of the first annotation named `key`.
fn find_annotation<'a>(annotations: &'a Vec<(String, String)>, key: &str) -> (r: Option<&'a String>)
    ensures
        match r {
            Some(v) => annotation_value(annotations_view(annotations@), key@) == Some(v@),
            None => annotation_value(annotations_view(annotations@), key@) is None,
        },
{
    let ghost all = annotations_view(annotations@);
    let mut i: usize = 0;
    proof {
        assert(all.subrange(0, all.len() as int) =~= all);
    }
    while i < annotations.len()
        invariant
            i <= annotations@.len(),
            all == annotations_view(annotations@),
            annotation_value(all, key@) == annotation_value(all.subrange(i as int, all.len() as int), key@),
        decreases annotations@.len() - i,
    {
        let ghost rest = all.subrange(i as int, all.len() as int);
        proof {
            assert(rest[0] == all[i as int]);
            assert(rest.drop_first() =~= all.subrange(i + 1, all.len() as int));
        }
        if same_text(annotations[i].0.as_str(), key) {
            return Some(&annotations[i].1);
        }
        i += 1;
    }
    proof {
        assert(all.subrange(i as int, all.len() as int) =~= Seq::<(Seq<char>, Seq<char>)>::empty());
    }
    None
}

/// The events that the service strings `service_strings` of the pod `uid` named `pod_name` at
/// `address` ask for, in order, up to the first refused one, and the error for that one.
pub open spec fn services_events(
    service_strings: Seq<Seq<char>>,
    uid: Seq<char>,
    pod_name: Seq<char>,
    address: IpAddress,
) -> (Seq<EndpointEventView>, Option<DiscoveryErrorView>)
    decreases service_strings.len(),
{
    if service_strings.len() == 0 {
        (seq![], None)
    } else {
        let (events, error) = services_events(service_strings.drop_last(), uid, pod_name, address);
        if error is Some {
            (events, error)
        } else {
            match service_event(service_strings.last(), uid, address) {
                Ok(e) => (events.push(e), None),
                Err(x) => (events, Some(DiscoveryErrorView::InvalidServiceString {
                    service_string: service_strings.last(),
                    pod_name,
                    uid,
                    error: x,
                })),
            }
        }
    }
}

/// Once a service string is refused, the later ones are not read.
proof fn lemma_services_events_stop(
    service_strings: Seq<Seq<char>>,
    k: int,
    uid: Seq<char>,
    pod_name: Seq<char>,
    address: IpAddress,
)
    requires
        0 <= k <= service_strings.len(),
        services_events(service_strings.take(k), uid, pod_name, address).1 is Some,
    ensures
        services_events(service_strings, uid, pod_name, address) == services_events(service_strings.take(k), uid, pod_name, address),
    decreases service_strings.len() - k,
{
    if k < service_strings.len() {
        assert(service_strings.take(k + 1).drop_last() =~= service_strings.take(k));
        lemma_services_events_stop(service_strings, k + 1, uid, pod_name, address);
    } else {
        assert(service_strings.take(k) =~= service_strings);
    }
}

/// The events that a new pod's annotations ask for: one per entry of the comma-separated
/// services annotation, if there is one.
pub open spec fn discovered_services(
    annotations: Seq<(Seq<char>, Seq<char>)>,
    uid: Seq<char>,
    pod_name: Seq<char>,
    address: IpAddress,
) -> (Seq<EndpointEventView>, Option<DiscoveryErrorView>) {
    match annotation_value(annotations, SERVICES_ANNOTATION@) {
        None => (seq![], None),
        Some(services) => services_events(split_on(services, ','), uid, pod_name, address),
    }
}

/// Append to `events` the events that a new pod's annotations ask for.
fn discover_services(
    annotations: &Vec<(String, String)>,
    uid: &String,
    pod_name: &String,
    address: IpAddress,
    events: &mut Vec<EndpointEvent>,
) -> (r: Result<(), DiscoveryError>)
    ensures
        endpoint_events_view(final(events)@) == endpoint_events_view(old(events)@) + discovered_services(
            annotations_view(annotations@),
            uid@,
            pod_name@,
            address,
        ).0,
        match r {
            Ok(()) => discovered_services(annotations_view(annotations@), uid@, pod_name@, address).1 is None,
            Err(e) => discovered_services(annotations_view(annotations@), uid@, pod_name@, address).1 == Some(e@),
        },
{
    let ghost start = endpoint_events_view(events@);
    match find_annotation(annotations, SERVICES_ANNOTATION) {
        None => {
            proof {
                assert(endpoint_events_view(events@) =~= start + Seq::<EndpointEventView>::empty());
            }
            Ok(())
        },
        Some(services) => {
            let strings = split(services.as_str(), ',');
            let ghost all = strings_view(strings@);
            let mut i: usize = 0;
            proof {
                assert(all.take(0) =~= Seq::<Seq<char>>::empty());
                assert(endpoint_events_view(events@) =~= start + Seq::<EndpointEventView>::empty());
            }
            while i < strings.len()
                invariant
                    i <= strings@.len(),
                    all == strings_view(strings@),
                    all == split_on(services@, ','),
                    annotation_value(annotations_view(annotations@), SERVICES_ANNOTATION@) == Some(services@),
                    start == endpoint_events_view(old(events)@),
                    services_events(all.take(i as int), uid@, pod_name@, address).1 is None,
                    endpoint_events_view(events@) == start + services_events(all.take(i as int), uid@, pod_name@, address).0,
                decreases strings@.len() - i,
            {
                proof {
                    assert(all.take(i + 1).drop_last() =~= all.take(i as int));
                    assert(all.take(i + 1).last() == strings@[i as int]@);
                }
                let ghost before = events@;
                match service_from_string(strings[i].as_str(), uid.clone(), address) {
                    Ok(e) => {
                        events.push(e);
                        proof {
                            assert(endpoint_events_view(events@) =~= endpoint_events_view(before).push(e@));
                        }
                    },
                    Err(x) => {
                        proof {
                            assert(services_events(all.take(i + 1), uid@, pod_name@, address).0 == services_events(all.take(i as int), uid@, pod_name@, address).0);
                            lemma_services_events_stop(all, i + 1, uid@, pod_name@, address);
                        }
                        let err = DiscoveryError::InvalidServiceString {
                            service_string: strings[i].clone(),
                            pod_name: pod_name.clone(),
                            uid: uid.clone(),
                            error: x,
                        };
                        proof {
                            assert(services_events(all.take(i + 1), uid@, pod_name@, address).1 == Some(err@));
                            assert(services_events(all, uid@, pod_name@, address).1 == Some(err@));
                            assert(discovered_services(annotations_view(annotations@), uid@, pod_name@, address) == services_events(all, uid@, pod_name@, address));
                            assert(endpoint_events_view(events@) == start + services_events(all, uid@, pod_name@, address).0);
                        }
                        return Err(err);
                    },
                }
                i += 1;
            }
            proof {
                assert(all.take(i as int) =~= all);
            }
            Ok(())
        },
    }
}


// ---------------------------------------------------------------------------------------------
// The discovery runtime: from pod events to endpoint events
// ---------------------------------------------------------------------------------------------

/// The position of `uid` among `known`, or -1.
pub open spec fn uid_index(known: Seq<Seq<char>>, uid: Seq<char>) -> int {
    if exists|j: int| 0 <= j < known.len() && known[j] == uid {
        choose|j: int| 0 <= j < known.len() && known[j] == uid
    } else {
        -1
    }
}

/// `known` without `uid`.
pub open spec fn forget_uid(known: Seq<Seq<char>>, uid: Seq<char>) -> Seq<Seq<char>> {
    let k = uid_index(known, uid);
    if k < 0 {
        known
    } else {
        known.remove(k)
    }
}

/// `known` with `uid`, added at the end if it was not there.
pub open spec fn remember_uid(known: Seq<Seq<char>>, uid: Seq<char>) -> Seq<Seq<char>> {
    if known.contains(uid) {
        known
    } else {
        known.push(uid)
    }
}

/// No uid occurs twice.
pub open spec fn uids_distinct(known: Seq<Seq<char>>) -> bool {
    forall|i: int, j: int| #![trigger known[i], known[j]] 0 <= i < j < known.len() ==> known[i] != known[j]
}

/// The known pods, the events sent and the error, if any, after some pod events.
pub struct PodOutcome {
    pub known: Seq<Seq<char>>,
    pub events: Seq<EndpointEventView>,
    pub error: Option<DiscoveryErrorView>,
}

/// What the phase of a pod asks for, after `events`: `Running` resumes it, `Succeeded` deletes
/// and forgets it, `Pending` asks for nothing, and any other phase (`Failed`, `Unknown`, or one
/// not known) suspends it.
pub open spec fn after_phase(known: Seq<Seq<char>>, events: Seq<EndpointEventView>, uid: Seq<char>, phase: Seq<char>) -> PodOutcome {
    if phase == "Running"@ {
        PodOutcome { known, events: events.push(EndpointEventView::Resume { uid }), error: None }
    } else if phase == "Succeeded"@ {
        PodOutcome { known: forget_uid(known, uid), events: events.push(EndpointEventView::Delete { uid }), error: None }
    } else if phase == "Pending"@ {
        PodOutcome { known, events, error: None }
    } else {
        PodOutcome { known, events: events.push(EndpointEventView::Suspend { uid }), error: None }
    }
}

/// What an added or changed pod asks for. A pod without a status, uid, name, annotations, IP or
/// phase is ignored. A pod seen for the first time is remembered and its services added first.
pub open spec fn after_apply_pod(known: Seq<Seq<char>>, pod: PodInfoView) -> PodOutcome {
    let nothing = PodOutcome { known, events: seq![], error: None };
    match pod.status {
        None => nothing,
        Some(status) => {
            if pod.uid is Some && pod.name is Some && pod.annotations is Some && status.pod_ip is Some
                && status.phase is Some {
                let uid = pod.uid->0;
                let name = pod.name->0;
                let phase = status.phase->0;
                match status.pod_ip->0 {
                    PodIpView::Unparsable(address) => PodOutcome {
                        known,
                        events: seq![],
                        error: Some(DiscoveryErrorView::InvalidPodAddress { address, pod_name: name, uid }),
                    },
                    PodIpView::Address(address) => {
                        if known.contains(uid) {
                            after_phase(known, seq![], uid, phase)
                        } else {
                            let (events, error) = discovered_services(pod.annotations->0, uid, name, address);
                            if error is Some {
                                PodOutcome { known: known.push(uid), events, error }
                            } else {
                                after_phase(known.push(uid), events, uid, phase)
                            }
                        }
                    },
                }
            } else {
                nothing
            }
        },
    }
}

/// The state of a restart after some of its pods: the known pods, the uids seen in the restart,
/// the events sent and the error, if any.
pub struct RestartProgress {
    pub known: Seq<Seq<char>>,
    pub current: Seq<Seq<char>>,
    pub events: Seq<EndpointEventView>,
    pub error: Option<DiscoveryErrorView>,
}

/// Apply the pods of a restart in order, stopping at the first error.
pub open spec fn after_restart_pods(known: Seq<Seq<char>>, pods: Seq<PodInfoView>) -> RestartProgress
    decreases pods.len(),
{
    if pods.len() == 0 {
        RestartProgress { known, current: seq![], events: seq![], error: None }
    } else {
        let r = after_restart_pods(known, pods.drop_last());
        if r.error is Some {
            r
        } else {
            let pod = pods.last();
            match pod.uid {
                None => r,
                Some(uid) => {
                    let o = after_apply_pod(r.known, pod);
                    RestartProgress {
                        known: o.known,
                        current: remember_uid(r.current, uid),
                        events: r.events + o.events,
                        error: o.error,
                    }
                },
            }
        }
    }
}

/// A `Delete` event for every uid of `old` that is not in `current`, in the order of `old`.
pub open spec fn deletions(old: Seq<Seq<char>>, current: Seq<Seq<char>>) -> Seq<EndpointEventView>
    decreases old.len(),
{
    if old.len() == 0 {
        seq![]
    } else {
        let d = deletions(old.drop_last(), current);
        if current.contains(old.last()) {
            d
        } else {
            d.push(EndpointEventView::Delete { uid: old.last() })
        }
    }
}

/// What a pod event does to the known pods, and the endpoint events it sends. Only a pod that
/// was announced, and is still known, is deleted: the deletion of any other pod sends nothing.
pub open spec fn after_pod_event(known: Seq<Seq<char>>, event: PodEventView) -> PodOutcome {
    match event {
        PodEventView::Applied(pod) => if pod.uid is Some {
            after_apply_pod(known, pod)
        } else {
            PodOutcome { known, events: seq![], error: None }
        },
        PodEventView::Deleted(pod) => match pod.uid {
            Some(uid) => if known.contains(uid) {
                PodOutcome { known: forget_uid(known, uid), events: seq![EndpointEventView::Delete { uid }], error: None }
            } else {
                PodOutcome { known, events: seq![], error: None }
            },
            None => PodOutcome { known, events: seq![], error: None },
        },
        PodEventView::Restarted(pods) => {
            let r = after_restart_pods(known, pods);
            if r.error is Some {
                PodOutcome { known: r.known, events: r.events, error: r.error }
            } else {
                PodOutcome { known: r.current, events: r.events + deletions(r.known, r.current), error: None }
            }
        },
    }
}

/// Once a pod of a restart is refused, the later pods are not read.
proof fn lemma_restart_stops(known: Seq<Seq<char>>, pods: Seq<PodInfoView>, k: int)
    requires
        0 <= k <= pods.len(),
        after_restart_pods(known, pods.take(k)).error is Some,
    ensures
        after_restart_pods(known, pods) == after_restart_pods(known, pods.take(k)),
    decreases pods.len() - k,
{
    if k < pods.len() {
        assert(pods.take(k + 1).drop_last() =~= pods.take(k));
        lemma_restart_stops(known, pods, k + 1);
    } else {
        assert(pods.take(k) =~= pods);
    }
}

/// The view of a [`KubernetesDiscoveryRuntime`].
pub struct DiscoveryRuntimeView {
    pub name: Seq<char>,
    pub known: Seq<Seq<char>>,
}

/// Turns the pod events of a watch into endpoint events, remembering the pods it has seen.
pub struct KubernetesDiscoveryRuntime {
    name: String,
    known_pod_uids: Vec<String>,
}

impl View for KubernetesDiscoveryRuntime {
    type V = DiscoveryRuntimeView;

    closed spec fn view(&self) -> DiscoveryRuntimeView {
        DiscoveryRuntimeView { name: self.name@, known: strings_view(self.known_pod_uids@) }
    }
}

/// Where `known[k]` is `uid` and uids are distinct, `uid` is at `k`.
pub(crate) proof fn lemma_uid_index_found(known: Seq<Seq<char>>, uid: Seq<char>, k: int)
    requires
        uids_distinct(known),
        0 <= k < known.len(),
        known[k] == uid,
    ensures
        uid_index(known, uid) == k,
{
    let j = uid_index(known, uid);
    assert(0 <= j < known.len() && known[j] == uid);
    if j < k {
        assert(known[j] != known[k]);
    } else if k < j {
        assert(known[k] != known[j]);
    }
}

/// Find `uid` among `known`.
fn find_uid(known: &Vec<String>, uid: &String) -> (r: Option<usize>)
    requires
        uids_distinct(strings_view(known@)),
    ensures
        match r {
            Some(k) => k < known@.len() && uid_index(strings_view(known@), uid@) == k,
            None => uid_index(strings_view(known@), uid@) == -1 && !strings_view(known@).contains(uid@),
        },
{
    let ghost view = strings_view(known@);
    let mut k: usize = 0;
    while k < known.len()
        invariant
            k <= known@.len(),
            view == strings_view(known@),
            uids_distinct(view),
            forall|m: int| 0 <= m < k ==> (#[trigger] view[m]) != uid@,
        decreases known@.len() - k,
    {
        if known[k] == *uid {
            proof {
                assert(view[k as int] == uid@);
                lemma_uid_index_found(view, uid@, k as int);
            }
            return Some(k);
        }
        assert(view[k as int] != uid@);
        k += 1;
    }
    proof {
        assert(!exists|j: int| 0 <= j < view.len() && (#[trigger] view[j]) == uid@);
    }
    None
}

/// Remove `uid` from `known`.
fn forget(known: &mut Vec<String>, uid: &String)
    requires
        uids_distinct(strings_view(old(known)@)),
    ensures
        strings_view(final(known)@) == forget_uid(strings_view(old(known)@), uid@),
        uids_distinct(strings_view(final(known)@)),
{
    let ghost before = strings_view(known@);
    match find_uid(known, uid) {
        Some(k) => {
            known.remove(k);
            proof {
                assert(strings_view(known@) =~= before.remove(k as int));
                before.remove_ensures(k as int);
                let after = strings_view(known@);
                assert forall|a: int, b: int| #![trigger after[a], after[b]] 0 <= a < b < after.len() implies after[a] != after[b] by {
                    let a2 = if a < k { a } else { a + 1 };
                    let b2 = if b < k { b } else { b + 1 };
                    assert(after[a] == before[a2] && after[b] == before[b2]);
                }
            }
        },
        None => {},
    }
}

/// Add `uid` to `known` if it is not there; return whether it was not.
fn remember(known: &mut Vec<String>, uid: &String) -> (is_new: bool)
    requires
        uids_distinct(strings_view(old(known)@)),
    ensures
        is_new == !strings_view(old(known)@).contains(uid@),
        strings_view(final(known)@) == remember_uid(strings_view(old(known)@), uid@),
        uids_distinct(strings_view(final(known)@)),
{
    let ghost before = strings_view(known@);
    match find_uid(known, uid) {
        Some(k) => {
            proof {
                assert(before[k as int] == uid@);
            }
            false
        },
        None => {
            known.push(uid.clone());
            proof {
                let after = strings_view(known@);
                assert(after =~= before.push(uid@));
                assert forall|a: int, b: int| #![trigger after[a], after[b]] 0 <= a < b < after.len() implies after[a] != after[b] by {
                    if b == before.len() {
                        assert(after[a] == before[a]);
                    }
                }
            }
            true
        },
    }
}

impl KubernetesDiscoveryRuntime {
    /// The runtime's invariant: no pod is known twice.
    pub open spec fn wf(&self) -> bool {
        uids_distinct(self@.known)
    }

    /// A runtime for the discovery task `name` that knows no pod yet.
    pub fn new(name: String) -> (r: Self)
        ensures
            r.wf(),
            r@.name == name@,
            r@.known == Seq::<Seq<char>>::empty(),
    {
        let r = KubernetesDiscoveryRuntime { name, known_pod_uids: Vec::new() };
        proof {
            assert(r@.known =~= Seq::<Seq<char>>::empty());
        }
        r
    }

    /// The name of the discovery task.
    pub fn name(&self) -> (r: &String)
        ensures
            r@ == self@.name,
    {
        &self.name
    }

    /// The uids of the pods that this runtime knows, in the order it learnt them.
    pub fn known_pod_uids(&self) -> (r: &Vec<String>)
        ensures
            strings_view(r@) == self@.known,
    {
        &self.known_pod_uids
    }

    /// Append to `events` what the phase of the pod `uid` asks for.
    fn apply_phase(&mut self, uid: String, phase: &String, events: &mut Vec<EndpointEvent>)
        requires
            old(self).wf(),
        ensures
            final(self).wf(),
            final(self)@.name == old(self)@.name,
            ({
                let o = after_phase(old(self)@.known, endpoint_events_view(old(events)@), uid@, phase@);
                &&& final(self)@.known == o.known
                &&& endpoint_events_view(final(events)@) == o.events
            }),
    {
        let ghost before = endpoint_events_view(events@);
        let ghost uidv = uid@;
        if same_text(phase.as_str(), "Running") {
            events.push(EndpointEvent::resume(uid));
            proof {
                assert(endpoint_events_view(events@) =~= before.push(EndpointEventView::Resume { uid: uidv }));
            }
        } else if same_text(phase.as_str(), "Succeeded") {
            forget(&mut self.known_pod_uids, &uid);
            events.push(EndpointEvent::delete(uid));
            proof {
                assert(endpoint_events_view(events@) =~= before.push(EndpointEventView::Delete { uid: uidv }));
            }
        } else if same_text(phase.as_str(), "Pending") {
        } else {
            events.push(EndpointEvent::suspend(uid));
            proof {
                assert(endpoint_events_view(events@) =~= before.push(EndpointEventView::Suspend { uid: uidv }));
            }
        }
    }

    /// Append to `events` what an added or changed pod asks for.
    fn apply_pod(&mut self, pod: PodInfo, events: &mut Vec<EndpointEvent>) -> (r: Result<(), DiscoveryError>)
        requires
            old(self).wf(),
        ensures
            final(self).wf(),
            final(self)@.name == old(self)@.name,
            ({
                let o = after_apply_pod(old(self)@.known, pod@);
                &&& final(self)@.known == o.known
                &&& endpoint_events_view(final(events)@) == endpoint_events_view(old(events)@) + o.events
                &&& match r {
                    Ok(()) => o.error is None,
                    Err(e) => o.error == Some(e@),
                }
            }),
    {
        let ghost podv = pod@;
        let ghost before = endpoint_events_view(events@);
        let PodInfo { uid, name, annotations, status } = pod;
        let status = match status {
            Some(st) => st,
            None => {
                proof {
                    assert(endpoint_events_view(events@) =~= before + Seq::<EndpointEventView>::empty());
                }
                return Ok(());
            },
        };
        let PodStatusInfo { pod_ip, phase } = status;
        match (uid, name, annotations, pod_ip, phase) {
            (Some(uid), Some(name), Some(annotations), Some(pod_ip), Some(phase)) => {
                let address = match pod_ip {
                    PodIp::Unparsable(text) => {
                        proof {
                            assert(endpoint_events_view(events@) =~= before + Seq::<EndpointEventView>::empty());
                        }
                        return Err(DiscoveryError::InvalidPodAddress { address: text, pod_name: name, uid });
                    },
                    PodIp::Address(a) => a,
                };
                let is_new = remember(&mut self.known_pod_uids, &uid);
                if is_new {
                    let found = discover_services(&annotations, &uid, &name, address, events);
                    match found {
                        Err(e) => return Err(e),
                        Ok(()) => {},
                    }
                } else {
                    proof {
                        assert(endpoint_events_view(events@) =~= before + Seq::<EndpointEventView>::empty());
                    }
                }
                let ghost middle = endpoint_events_view(events@);
                let ghost known_middle = self@.known;
                self.apply_phase(uid, &phase, events);
                proof {
                    let o = after_phase(known_middle, middle.subrange(before.len() as int, middle.len() as int), uid@, phase@);
                    assert(middle.subrange(before.len() as int, middle.len() as int) + Seq::<EndpointEventView>::empty() =~= middle.subrange(before.len() as int, middle.len() as int));
                    assert(before + middle.subrange(before.len() as int, middle.len() as int) =~= middle);
                    assert(endpoint_events_view(events@) =~= before + o.events);
                }
                Ok(())
            },
            _ => {
                proof {
                    assert(endpoint_events_view(events@) =~= before + Seq::<EndpointEventView>::empty());
                }
                Ok(())
            },
        }
    }

    /// Apply a restart of the watch: apply every pod in order, then delete the pods that were
    /// known before and are not among them.
    fn restart(&mut self, pods: Vec<PodInfo>) -> (r: (Vec<EndpointEvent>, Result<(), DiscoveryError>))
        requires
            old(self).wf(),
        ensures
            final(self).wf(),
            final(self)@.name == old(self)@.name,
            ({
                let o = after_pod_event(old(self)@.known, PodEventView::Restarted(pods_view(pods@)));
                &&& final(self)@.known == o.known
                &&& endpoint_events_view(r.0@) == o.events
                &&& match r.1 {
                    Ok(()) => o.error is None,
                    Err(e) => o.error == Some(e@),
                }
            }),
    {
        let mut events: Vec<EndpointEvent> = Vec::new();
        proof {
            assert(endpoint_events_view(events@) =~= Seq::<EndpointEventView>::empty());
        }
        let ghost known0 = self@.known;
        let ghost podsv = pods_view(pods@);
        let ghost pods_exec = pods@;
        let mut current: Vec<String> = Vec::new();
        proof {
            assert(podsv.take(0) =~= Seq::<PodInfoView>::empty());
            assert(strings_view(current@) =~= Seq::<Seq<char>>::empty());
        }
        for pod in it: pods.into_iter()
            invariant
                it.seq() == pods_exec,
                podsv == pods_view(pods_exec),
                self.wf(),
                self@.name == old(self)@.name,
                known0 == old(self)@.known,
                uids_distinct(strings_view(current@)),
                ({
                    let r = after_restart_pods(known0, podsv.take(it.index() as int));
                    &&& r.error is None
                    &&& self@.known == r.known
                    &&& strings_view(current@) == r.current
                    &&& endpoint_events_view(events@) == r.events
                }),
        {
            let ghost i = it.index() as int;
            proof {
                assert(podsv.take(i + 1).drop_last() =~= podsv.take(i));
                assert(podsv.take(i + 1).last() == pod@);
            }
            let ghost podv = pod@;
            let ghost prev = after_restart_pods(known0, podsv.take(i));
            match &pod.uid {
                Some(uid) => {
                    remember(&mut current, uid);
                    let ghost before = endpoint_events_view(events@);
                    let r = self.apply_pod(pod, &mut events);
                    match r {
                        Err(e) => {
                            proof {
                                let o = after_apply_pod(prev.known, podv);
                                assert(podv.uid is Some);
                                let next = after_restart_pods(known0, podsv.take(i + 1));
                                assert(next.error == o.error);
                                assert(next.known == o.known);
                                assert(next.events == prev.events + o.events);
                                lemma_restart_stops(known0, podsv, i + 1);
                                let whole = after_restart_pods(known0, podsv);
                                assert(before == prev.events);
                                assert(whole.error == Some(e@));
                                assert(self@.known == whole.known);
                                assert(endpoint_events_view(events@) == whole.events);
                                assert(after_pod_event(known0, PodEventView::Restarted(podsv)).known == whole.known);
                                assert(after_pod_event(known0, PodEventView::Restarted(podsv)).events == whole.events);
                                assert(after_pod_event(known0, PodEventView::Restarted(podsv)).error == Some(e@));
                            }
                            return (events, Err(e));
                        },
                        Ok(()) => {},
                    }
                },
                None => {},
            }
        }
        proof {
            assert(podsv.take(podsv.len() as int) =~= podsv);
        }
        let ghost r = after_restart_pods(known0, podsv);
        let mut old_known: Vec<String> = Vec::new();
        std::mem::swap(&mut old_known, &mut self.known_pod_uids);
        self.known_pod_uids = current;
        let ghost old_view = strings_view(old_known@);
        let ghost events_before = endpoint_events_view(events@);
        proof {
            assert(old_view.take(0) =~= Seq::<Seq<char>>::empty());
            assert(events_before + deletions(old_view.take(0), r.current) =~= events_before);
        }
        let mut k: usize = 0;
        while k < old_known.len()
            invariant
                k <= old_known@.len(),
                old_view == strings_view(old_known@),
                self.wf(),
                self@.known == r.current,
                endpoint_events_view(events@) == events_before + deletions(old_view.take(k as int), r.current),
            decreases old_known@.len() - k,
        {
            proof {
                assert(old_view.take(k + 1).drop_last() =~= old_view.take(k as int));
                assert(old_view.take(k + 1).last() == old_known@[k as int]@);
            }
            let found = find_uid(&self.known_pod_uids, &old_known[k]);
            if found.is_none() {
                let ghost before = endpoint_events_view(events@);
                events.push(EndpointEvent::delete(old_known[k].clone()));
                proof {
                    assert(endpoint_events_view(events@) =~= before.push(EndpointEventView::Delete { uid: old_known@[k as int]@ }));
                }
            } else {
                proof {
                    let m = found.unwrap() as int;
                    assert(strings_view(self.known_pod_uids@)[m] == old_known@[k as int]@);
                }
            }
            k += 1;
        }
        proof {
            assert(old_view.take(k as int) =~= old_view);
        }
        (events, Ok(()))
    }

    /// Turn a pod event into the endpoint events it asks for, in the order they must be sent.
    /// Where a pod is refused, the events before it are returned with the error, and the pods
    /// after it are not read.
    pub fn handle_pod_event(&mut self, event: PodEvent) -> (r: (Vec<EndpointEvent>, Result<(), DiscoveryError>))
        requires
            old(self).wf(),
        ensures
            final(self).wf(),
            final(self)@.name == old(self)@.name,
            ({
                let o = after_pod_event(old(self)@.known, event@);
                &&& final(self)@.known == o.known
                &&& endpoint_events_view(r.0@) == o.events
                &&& match r.1 {
                    Ok(()) => o.error is None,
                    Err(e) => o.error == Some(e@),
                }
            }),
    {
        let mut events: Vec<EndpointEvent> = Vec::new();
        proof {
            assert(endpoint_events_view(events@) =~= Seq::<EndpointEventView>::empty());
        }
        match event {
            PodEvent::Applied(pod) => {
                if pod.uid.is_some() {
                    let r = self.apply_pod(pod, &mut events);
                    proof {
                        assert(Seq::<EndpointEventView>::empty() + after_apply_pod(old(self)@.known, pod@).events
                            =~= after_apply_pod(old(self)@.known, pod@).events);
                    }
                    (events, r)
                } else {
                    (events, Ok(()))
                }
            },
            PodEvent::Deleted(pod) => {
                match pod.uid {
                    Some(uid) => {
                        if find_uid(&self.known_pod_uids, &uid).is_some() {
                            proof {
                                let k = uid_index(self@.known, uid@);
                                assert(self@.known[k] == uid@);
                            }
                            forget(&mut self.known_pod_uids, &uid);
                            let ghost uidv = uid@;
                            events.push(EndpointEvent::delete(uid));
                            proof {
                                assert(endpoint_events_view(events@) =~= seq![EndpointEventView::Delete { uid: uidv }]);
                            }
                        }
                        (events, Ok(()))
                    },
                    None => (events, Ok(())),
                }
            },
            PodEvent::Restarted(pods) => self.restart(pods),
        }
    }
}

} // verus!
