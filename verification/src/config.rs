//! The configuration of a node or client: the peers, the limits on
//! packages, and where the log goes.
use vstd::prelude::*;
use vstd::string::*;
use crate::error::ValidateConfigError;
use crate::text::same_text;

verus! {

/// Whether a text names a log level, as `tracing` reads one.
pub uninterp spec fn is_tracing_level(text: Seq<char>) -> bool;

/// `str::parse` for `tracing::Level`: whether the text names a log level.
#[verifier::external_body]
pub(crate) fn parses_as_level(text: &str) -> (out: bool)
    ensures
        out == is_tracing_level(text@),
{
    text.parse::<tracing::Level>().is_ok()
}

/// The limits on a package.
#[derive(Debug)]
pub struct PackageLimits {
    max_size: usize,
    receive_timeout_secs: u64,
}

/// Where a log goes, and from which level on.
#[derive(Debug)]
pub struct TracingTarget {
    level: String,
    path: String,
}

/// The logs of the client and of the node.
#[derive(Debug)]
pub struct Tracing {
    client: TracingTarget,
    node: TracingTarget,
}

/// The configuration. `nodes` holds the peers' endpoints as texts, none
/// twice.
#[derive(Debug)]
pub struct Config {
    nodes: Vec<String>,
    package_limits: PackageLimits,
    tracing: Tracing,
}

/// What a log target is, as plain values.
pub struct TracingTargetView {
    pub level: Seq<char>,
    pub path: Seq<char>,
}

/// What a configuration is, as plain values.
pub struct ConfigView {
    pub nodes: Seq<Seq<char>>,
    pub max_size: usize,
    pub receive_timeout_secs: u64,
    pub client: TracingTargetView,
    pub node: TracingTargetView,
}

impl View for TracingTarget {
    type V = TracingTargetView;

    closed spec fn view(&self) -> TracingTargetView {
        TracingTargetView { level: self.level@, path: self.path@ }
    }
}

impl View for Tracing {
    type V = (TracingTargetView, TracingTargetView);

    closed spec fn view(&self) -> (TracingTargetView, TracingTargetView) {
        (self.client@, self.node@)
    }
}

impl View for PackageLimits {
    type V = (usize, u64);

    closed spec fn view(&self) -> (usize, u64) {
        (self.max_size, self.receive_timeout_secs)
    }
}

impl View for Config {
    type V = ConfigView;

    closed spec fn view(&self) -> ConfigView {
        ConfigView {
            nodes: Seq::new(self.nodes@.len(), |i: int| self.nodes@[i]@),
            max_size: self.package_limits.max_size,
            receive_timeout_secs: self.package_limits.receive_timeout_secs,
            client: self.tracing.client@,
            node: self.tracing.node@,
        }
    }
}

/// The texts of a sequence of strings.
pub open spec fn texts_of(strings: Seq<String>) -> Seq<Seq<char>> {
    Seq::new(strings.len(), |i: int| strings[i]@)
}

/// The nodes without `excluded` and without repetitions: each node that is
/// left stands where it first occurs.
pub open spec fn peers_of(nodes: Seq<Seq<char>>, excluded: Option<Seq<char>>) -> Seq<Seq<char>>
    decreases nodes.len(),
{
    if nodes.len() == 0 {
        Seq::empty()
    } else {
        let before = peers_of(nodes.drop_last(), excluded);
        if excluded == Some(nodes.last()) || before.contains(nodes.last()) {
            before
        } else {
            before.push(nodes.last())
        }
    }
}

/// A log target must name a level.
pub open spec fn tracing_target_check(target: TracingTargetView) -> Result<
    (),
    ValidateConfigError,
> {
    if is_tracing_level(target.level) {
        Ok(())
    } else {
        Err(ValidateConfigError::InvalidTracingLevel)
    }
}

/// The largest package must fit in a signed machine word.
pub open spec fn package_limits_check(max_size: usize) -> Result<(), ValidateConfigError> {
    if max_size > isize::MAX {
        Err(ValidateConfigError::InvalidPackageMaxSizeLimit)
    } else {
        Ok(())
    }
}

/// What is asked of a configuration, in this order: a peer, the limits, the
/// client's log, the node's log.
pub open spec fn config_check(config: ConfigView) -> Result<(), ValidateConfigError> {
    if config.nodes.len() == 0 {
        Err(ValidateConfigError::NoNodes)
    } else if package_limits_check(config.max_size) is Err {
        package_limits_check(config.max_size)
    } else if tracing_target_check(config.client) is Err {
        tracing_target_check(config.client)
    } else {
        tracing_target_check(config.node)
    }
}

impl PackageLimits {
    pub fn new(max_size: usize, receive_timeout_secs: u64) -> (out: Self)
        ensures
            out@ == (max_size, receive_timeout_secs),
    {
        PackageLimits { max_size, receive_timeout_secs }
    }

    /// The largest number of bytes in a package.
    pub fn max_size(&self) -> (out: usize)
        ensures
            out == self@.0,
    {
        self.max_size
    }

    /// The seconds after which waiting for a package ends.
    pub fn receive_timeout_secs(&self) -> (out: u64)
        ensures
            out == self@.1,
    {
        self.receive_timeout_secs
    }

    /// The largest package fits in a signed machine word.
    pub fn validate(&self) -> (out: Result<(), ValidateConfigError>)
        ensures
            out == package_limits_check(self@.0),
    {
        if self.max_size > isize::MAX as usize {
            return Err(ValidateConfigError::InvalidPackageMaxSizeLimit);
        }
        Ok(())
    }
}

impl TracingTarget {
    pub fn new(level: String, path: String) -> (out: Self)
        ensures
            out@ == (TracingTargetView { level: level@, path: path@ }),
    {
        TracingTarget { level, path }
    }

    /// The level from which on the log is written.
    pub fn level(&self) -> (out: &str)
        ensures
            out@ == self@.level,
    {
        self.level.as_str()
    }

    /// The file to which the log is written.
    pub fn path(&self) -> (out: &str)
        ensures
            out@ == self@.path,
    {
        self.path.as_str()
    }

    /// The level names a log level.
    pub fn validate(&self) -> (out: Result<(), ValidateConfigError>)
        ensures
            out == tracing_target_check(self@),
    {
        if !parses_as_level(self.level.as_str()) {
            return Err(ValidateConfigError::InvalidTracingLevel);
        }
        Ok(())
    }
}

impl Tracing {
    pub fn new(client: TracingTarget, node: TracingTarget) -> (out: Self)
        ensures
            out@ == (client@, node@),
    {
        Tracing { client, node }
    }

    /// The log of the client.
    pub fn client(&self) -> (out: &TracingTarget)
        ensures
            out@ == self@.0,
    {
        &self.client
    }

    /// The log of the node.
    pub fn node(&self) -> (out: &TracingTarget)
        ensures
            out@ == self@.1,
    {
        &self.node
    }

    /// Both logs name a level; the client's is looked at first.
    pub fn validate(&self) -> (out: Result<(), ValidateConfigError>)
        ensures
            out == if tracing_target_check(self@.0) is Err {
                tracing_target_check(self@.0)
            } else {
                tracing_target_check(self@.1)
            },
    {
        if let Err(e) = self.client.validate() {
            return Err(e);
        }
        self.node.validate()
    }
}

impl Config {
    /// No node occurs twice.
    pub open spec fn wf(&self) -> bool {
        self@.nodes.no_duplicates()
    }

    /// The configuration with the given parts, as it is loaded: `nodes`
    /// without repetitions and without `exclude_node`, by which a node
    /// leaves itself out of its peers. It is validated after that.
    pub fn new(
        nodes: Vec<String>,
        package_limits: PackageLimits,
        tracing: Tracing,
        exclude_node: Option<&str>,
    ) -> (out: Result<Self, ValidateConfigError>)
        ensures
            ({
                let loaded = ConfigView {
                    nodes: peers_of(
                        texts_of(nodes@),
                        match exclude_node {
                            Some(node) => Some(node@),
                            None => None,
                        },
                    ),
                    max_size: package_limits@.0,
                    receive_timeout_secs: package_limits@.1,
                    client: tracing@.0,
                    node: tracing@.1,
                };
                match config_check(loaded) {
                    Ok(()) => out matches Ok(config) && config@ == loaded && config.wf(),
                    Err(e) => out matches Err(x) && x == e,
                }
            }),
    {
        let ghost excluded = match exclude_node {
            Some(node) => Some(node@),
            None => None,
        };
        let ghost given = texts_of(nodes@);
        let mut peers: Vec<String> = Vec::new();
        let mut i: usize = 0;
        while i < nodes.len()
            invariant
                i <= nodes@.len(),
                given == texts_of(nodes@),
                excluded == match exclude_node {
                    Some(node) => Some(node@),
                    None => None,
                },
                texts_of(peers@) == peers_of(given.take(i as int), excluded),
                texts_of(peers@).no_duplicates(),
            decreases nodes@.len() - i,
        {
            let node = &nodes[i];
            let ghost before = texts_of(peers@);
            proof {
                let next = given.take(i + 1);
                assert(next.drop_last() =~= given.take(i as int));
                assert(next.last() == node@);
            }
            let left_out = match exclude_node {
                Some(excluded_node) => same_text(node.as_str(), excluded_node),
                None => false,
            };
            if !left_out && !contains_text(&peers, node.as_str()) {
                peers.push(node.clone());
                assert(texts_of(peers@) =~= before.push(node@));
            }
            i += 1;
        }
        assert(given.take(i as int) =~= given);
        let config = Config { nodes: peers, package_limits, tracing };
        assert(config@.nodes =~= texts_of(peers@));
        match config.validate() {
            Ok(()) => Ok(config),
            Err(e) => Err(e),
        }
    }

    /// The peers.
    pub fn nodes(&self) -> (out: &Vec<String>)
        ensures
            texts_of(out@) == self@.nodes,
    {
        assert(texts_of(self.nodes@) =~= self@.nodes);
        &self.nodes
    }

    /// Whether `node` is a peer.
    pub fn has_node(&self, node: &str) -> (out: bool)
        ensures
            out == self@.nodes.contains(node@),
    {
        assert(texts_of(self.nodes@) =~= self@.nodes);
        contains_text(&self.nodes, node)
    }

    /// The limits on packages.
    pub fn package_limits(&self) -> (out: &PackageLimits)
        ensures
            out@ == (self@.max_size, self@.receive_timeout_secs),
    {
        &self.package_limits
    }

    /// Where the logs go.
    pub fn tracing(&self) -> (out: &Tracing)
        ensures
            out@ == (self@.client, self@.node),
    {
        &self.tracing
    }

    /// There is a peer, the limits are in range, and the logs name levels.
    pub fn validate(&self) -> (out: Result<(), ValidateConfigError>)
        ensures
            out == config_check(self@),
    {
        if self.nodes.len() == 0 {
            return Err(ValidateConfigError::NoNodes);
        }
        if let Err(e) = self.package_limits.validate() {
            return Err(e);
        }
        self.tracing.validate()
    }
}

/// Whether one of `texts` is `wanted`.
pub fn contains_text(texts: &Vec<String>, wanted: &str) -> (out: bool)
    ensures
        out == texts_of(texts@).contains(wanted@),
{
    let mut i: usize = 0;
    while i < texts.len()
        invariant
            i <= texts@.len(),
            forall|k: int| 0 <= k < i ==> texts@[k]@ != wanted@,
        decreases texts@.len() - i,
    {
        if same_text(texts[i].as_str(), wanted) {
            assert(texts_of(texts@)[i as int] == wanted@);
            return true;
        }
        i += 1;
    }
    assert forall|k: int| 0 <= k < texts_of(texts@).len() implies texts_of(texts@)[k]
        != wanted@ by {
        assert(texts_of(texts@)[k] == texts@[k]@);
    }
    false
}

} // verus!
