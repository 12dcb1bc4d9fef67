//! The configuration of a benchmark server.

use vstd::prelude::*;
use crate::benchmark::BenchmarkProtocol;
use crate::clock::ClockConfig;
use crate::dom::owd_estimator::OwdEstimatorConfig;
use crate::storage;
use crate::util::{FlexibleQuorum, NodeId};

verus! {

/// The OWD estimator configuration of a benchmark server.
pub type BenchmarkOwdConfig = OwdEstimatorConfig;

/// The cluster that a benchmark server belongs to.
#[derive(Clone, Debug)]
pub struct ClusterConfig {
    /// The nodes of the cluster.
    pub nodes: Vec<NodeId>,
    /// The network addresses of the nodes.
    pub node_addrs: Vec<String>,
    /// The node that becomes the first leader.
    pub initial_leader: NodeId,
    /// The quorum sizes, where they are not majorities.
    pub initial_flexible_quorum: Option<FlexibleQuorum>,
}

/// The settings of one benchmark server.
#[derive(Clone, Debug)]
pub struct LocalConfig {
    /// Where the server runs.
    pub location: Option<String>,
    /// The protocol under test.
    pub protocol: BenchmarkProtocol,
    /// The server's node id.
    pub server_id: NodeId,
    /// The address the server listens on.
    pub listen_address: String,
    /// The port the server listens on.
    pub listen_port: u16,
    /// The number of clients that connect.
    pub num_clients: usize,
    /// Where the server writes its output.
    pub output_filepath: String,
    /// The OWD estimator configuration.
    pub owd_config: BenchmarkOwdConfig,
    /// The simulated clock's configuration.
    pub clock: ClockConfig,
}

/// The full configuration of a benchmark server.
#[derive(Clone, Debug)]
pub struct OmniPaxosKVConfig {
    /// The server's own settings.
    pub local: LocalConfig,
    /// The cluster's settings.
    pub cluster: ClusterConfig,
}

/// Whether the path is absolute, as `std::path::Path::is_absolute` decides
/// on the platform that the library is built for.
pub uninterp spec fn spec_path_is_absolute(path: Seq<char>) -> bool;

/// The path `dir` joined with `file`, as `std::path::Path::join` followed by
/// `to_string_lossy` gives it on the platform that the library is built for.
pub uninterp spec fn spec_path_join(dir: Seq<char>, file: Seq<char>) -> Seq<char>;

/// Whether the path is absolute.
///
/// Calls `std::path::Path::is_absolute`, whose answer depends on the path
/// and the platform alone; it is named `spec_path_is_absolute`.
#[verifier::external_body]
fn path_is_absolute(path: &str) -> (r: bool)
    ensures
        r == spec_path_is_absolute(path@),
{
    std::path::Path::new(path).is_absolute()
}

/// `dir` joined with `file`.
///
/// Calls `std::path::Path::join` and converts the result with
/// `to_string_lossy`; it depends on the paths and the platform alone and is
/// named `spec_path_join`.
#[verifier::external_body]
fn path_join(dir: &str, file: &str) -> (r: String)
    ensures
        r@ == spec_path_join(dir@, file@),
{
    std::path::Path::new(dir).join(file).to_string_lossy().into_owned()
}

/// The parent directory of the path, or none where the path has no parent,
/// as `std::path::Path::parent` followed by `to_string_lossy` gives it on the
/// platform that the library is built for.
pub uninterp spec fn spec_path_parent(path: Seq<char>) -> Option<Seq<char>>;

/// The parent directory of the path, if it has one.
///
/// Calls `std::path::Path::parent` and converts the result with
/// `to_string_lossy`; it depends on the path and the platform alone and is
/// named `spec_path_parent`.
#[verifier::external_body]
fn path_parent(path: &str) -> (r: Option<String>)
    ensures
        r is Some == spec_path_parent(path@) is Some,
        r matches Some(d) ==> d@ == spec_path_parent(path@)->0,
{
    match std::path::Path::new(path).parent() {
        Some(d) => Some(d.to_string_lossy().into_owned()),
        None => None,
    }
}

/// The directory of a configuration file: its parent, or the current
/// directory where it has none.
pub open spec fn config_dir_of(config_file: Seq<char>) -> Seq<char> {
    match spec_path_parent(config_file) {
        Some(d) => d,
        None => "."@,
    }
}

/// The directory of the configuration file `config_file`: its parent, or
/// `.` where it has none.
pub fn config_dir(config_file: &str) -> (r: String)
    ensures
        r@ == config_dir_of(config_file@),
{
    match path_parent(config_file) {
        Some(d) => d,
        None => ".".to_owned(),
    }
}

/// The output path `filepath` of a configuration read from `config_file`:
/// as given where it is absolute, otherwise joined onto the directory of the
/// configuration file.
pub fn resolve_output_path_for_file(config_file: &str, filepath: &str) -> (r: String)
    ensures
        spec_path_is_absolute(filepath@) ==> r@ == filepath@,
        !spec_path_is_absolute(filepath@) ==> r@ == spec_path_join(config_dir_of(config_file@), filepath@),
{
    let dir = config_dir(config_file);
    OmniPaxosKVConfig::resolve_output_path(dir.as_str(), filepath)
}

/// What a benchmark server hands the replicated log it runs: the cluster
/// (as configuration 1), the server's id, its leader priority, its delay
/// estimator and whether the fast path is on.
pub struct ReplicaSettings {
    /// The cluster of the replicated log.
    pub cluster_config: storage::ClusterConfig,
    /// The server's node id.
    pub pid: NodeId,
    /// 1 for the initial leader, 0 for every other server.
    pub leader_priority: u32,
    /// The OWD estimator configuration.
    pub owd_config: OwdEstimatorConfig,
    /// Whether the protocol takes the fast path.
    pub enable_fast_path: bool,
}

impl OmniPaxosKVConfig {
    /// The settings of the replicated log that this configuration describes.
    pub fn into_replica_settings(self) -> (r: ReplicaSettings)
        ensures
            r.cluster_config.configuration_id == 1,
            r.cluster_config.nodes@ == self.cluster.nodes@,
            r.cluster_config.flexible_quorum == self.cluster.initial_flexible_quorum,
            r.pid == self.local.server_id,
            r.leader_priority == (if self.local.server_id == self.cluster.initial_leader { 1u32 } else { 0u32 }),
            r.owd_config == self.local.owd_config,
            r.enable_fast_path == (self.local.protocol == BenchmarkProtocol::CaOp),
    {
        let leader_priority: u32 = if self.local.server_id == self.cluster.initial_leader {
            1
        } else {
            0
        };
        let enable_fast_path = self.local.protocol.enable_fast_path();
        ReplicaSettings {
            cluster_config: storage::ClusterConfig {
                configuration_id: 1,
                nodes: self.cluster.nodes,
                flexible_quorum: self.cluster.initial_flexible_quorum,
            },
            pid: self.local.server_id,
            leader_priority,
            owd_config: self.local.owd_config,
            enable_fast_path,
        }
    }

    /// Whether this server is the one that takes leadership at startup.
    pub fn is_initial_leader(&self) -> (r: bool)
        ensures
            r == (self.cluster.initial_leader == self.local.server_id),
    {
        self.cluster.initial_leader == self.local.server_id
    }
}

/// The file name of the path without its extension, or none where the path
/// has no file name, as `std::path::Path::file_stem` followed by
/// `to_string_lossy` gives it on the platform that the library is built for.
pub uninterp spec fn spec_path_file_stem(path: Seq<char>) -> Option<Seq<char>>;

/// The path with its file name replaced by `name`, as
/// `std::path::Path::with_file_name` followed by `to_string_lossy` gives it
/// on the platform that the library is built for.
pub uninterp spec fn spec_path_with_file_name(path: Seq<char>, name: Seq<char>) -> Seq<char>;

/// The file stem of the path, if it has a file name.
///
/// Calls `std::path::Path::file_stem` and converts the result with
/// `to_string_lossy`; it depends on the path and the platform alone and is
/// named `spec_path_file_stem`.
#[verifier::external_body]
fn path_file_stem(path: &str) -> (r: Option<String>)
    ensures
        r is Some == spec_path_file_stem(path@) is Some,
        r matches Some(stem) ==> stem@ == spec_path_file_stem(path@)->0,
{
    match std::path::Path::new(path).file_stem() {
        Some(stem) => Some(stem.to_string_lossy().into_owned()),
        None => None,
    }
}

/// The path with its file name replaced by `name`.
///
/// Calls `std::path::Path::with_file_name` and converts the result with
/// `to_string_lossy`; it depends on the paths and the platform alone and is
/// named `spec_path_with_file_name`.
#[verifier::external_body]
fn path_with_file_name(path: &str, name: &str) -> (r: String)
    ensures
        r@ == spec_path_with_file_name(path@, name@),
{
    std::path::Path::new(path).with_file_name(name).to_string_lossy().into_owned()
}

/// The path of the one-way-delay CSV of a server whose output goes to
/// `output_filepath`: that path with its file name replaced by
/// `<stem>-owd.csv`, or `None` where the output path has no file name.
pub fn dom_owd_csv_path(output_filepath: &str) -> (r: Option<String>)
    ensures
        r is None <==> spec_path_file_stem(output_filepath@) is None,
        r matches Some(csv) ==> csv@ == spec_path_with_file_name(
            output_filepath@,
            spec_path_file_stem(output_filepath@)->0 + "-owd.csv"@,
        ),
{
    match path_file_stem(output_filepath) {
        Some(stem) => {
            let name = stem.concat("-owd.csv");
            Some(path_with_file_name(output_filepath, name.as_str()))
        },
        None => None,
    }
}

/// The nodes of `nodes`, in order, other than `node`.
pub open spec fn peers_of(nodes: Seq<NodeId>, node: NodeId) -> Seq<NodeId> {
    nodes.filter(other_than(node))
}

/// The test of being a node other than `node`.
pub open spec fn other_than(node: NodeId) -> spec_fn(NodeId) -> bool {
    |id: NodeId| id != node
}

impl OmniPaxosKVConfig {
    /// The nodes of the cluster, in order, other than `node`.
    pub fn get_peers(&self, node: NodeId) -> (r: Vec<NodeId>)
        ensures
            r@ == peers_of(self.cluster.nodes@, node),
    {
        let nodes = &self.cluster.nodes;
        let ghost pred = other_than(node);
        let mut out: Vec<NodeId> = Vec::new();
        let mut i: usize = 0;
        while i < nodes.len()
            invariant
                i <= nodes@.len(),
                pred == other_than(node),
                out@ == nodes@.take(i as int).filter(pred),
            decreases nodes@.len() - i,
        {
            proof {
                reveal_with_fuel(Seq::<_>::filter, 1);
                assert(nodes@.take(i + 1).drop_last() =~= nodes@.take(i as int));
            }
            let id = nodes[i];
            if id != node {
                out.push(id);
            }
            i = i + 1;
        }
        proof {
            assert(nodes@.take(nodes@.len() as int) =~= nodes@);
        }
        out
    }

    /// The output path as given where it is absolute, otherwise joined onto
    /// the directory of the configuration file.
    pub fn resolve_output_path(config_dir: &str, filepath: &str) -> (r: String)
        ensures
            spec_path_is_absolute(filepath@) ==> r@ == filepath@,
            !spec_path_is_absolute(filepath@) ==> r@ == spec_path_join(config_dir@, filepath@),
    {
        if path_is_absolute(filepath) {
            return filepath.to_owned();
        }
        path_join(config_dir, filepath)
    }
}

} // verus!
