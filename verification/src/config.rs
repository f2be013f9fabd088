//! The server's configuration: validated paths, limits and names.

use vstd::prelude::*;
use vstd::string::*;

verus! {

broadcast use vstd::string::group_string_axioms;

/// A configured path that does not name what it should.
#[derive(Copy, Clone, Debug, PartialEq, Eq, Structural)]
pub struct PathError;

/// What was found on disk under a configured path.
#[derive(Clone, Debug)]
pub struct PathProbe {
    /// Whether the path names a regular file.
    pub is_file: bool,
    /// Whether the path names a directory.
    pub is_dir: bool,
    /// The canonical form of the path, where it has one that is text.
    pub canonical: Option<String>,
}

/// The canonical path that a probe stands for when a directory, or else a
/// file, is asked for: the canonical form where the path names the asked
/// kind and has such a form, an error otherwise.
pub open spec fn checked_path(probe: PathProbe, is_directory: bool) -> Result<Seq<char>, PathError> {
    if (probe.is_file && !is_directory) || (probe.is_dir && is_directory) {
        match probe.canonical {
            Some(path) => Ok(path@),
            None => Err(PathError),
        }
    } else {
        Err(PathError)
    }
}

/// The result of a check as a value.
pub open spec fn checked_view(r: Result<String, PathError>) -> Result<Seq<char>, PathError> {
    match r {
        Ok(path) => Ok(path@),
        Err(e) => Err(e),
    }
}

/// Checks that a probed path names a file or, with `is_directory`, a
/// directory, and gives its canonical form.
pub fn check_path(probe: &PathProbe, is_directory: bool) -> (r: Result<String, PathError>)
    ensures
        checked_view(r) == checked_path(*probe, is_directory),
{
    if (probe.is_file && !is_directory) || (probe.is_dir && is_directory) {
        match &probe.canonical {
            Some(path) => Ok(path.clone()),
            None => Err(PathError),
        }
    } else {
        Err(PathError)
    }
}

/// Checks that a probed path names a file.
pub fn check_file_path(probe: &PathProbe) -> (r: Result<String, PathError>)
    ensures
        checked_view(r) == checked_path(*probe, false),
{
    check_path(probe, false)
}

/// Checks that a probed path names a directory.
pub fn check_directory_path(probe: &PathProbe) -> (r: Result<String, PathError>)
    ensures
        checked_view(r) == checked_path(*probe, true),
{
    check_path(probe, true)
}

/// What was found on disk under each configured path.
#[derive(Clone, Debug)]
pub struct ConfigProbes {
    pub public_root: PathProbe,
    pub partials: PathProbe,
    pub data: PathProbe,
    pub errdocs: PathProbe,
    pub tls_client_ca_certificate_pem: PathProbe,
    pub tls_server_certificate_pem: PathProbe,
    pub tls_server_private_key_pem: PathProbe,
}

/// The validated, immutable configuration of a server.
#[derive(Clone, Debug)]
pub struct Config {
    public_root_path: String,
    partials_path: String,
    data_path: String,
    errdocs_path: String,
    max_request_header_size: usize,
    tls_listen_bind: String,
    tls_client_ca_certificate_pem_filename: String,
    tls_server_certificate_pem_filename: String,
    tls_server_private_key_pem_filename: String,
    default_hostname: String,
}

/// The mathematical value of a `Config`.
pub ghost struct ConfigView {
    pub public_root_path: Seq<char>,
    pub partials_path: Seq<char>,
    pub data_path: Seq<char>,
    pub errdocs_path: Seq<char>,
    pub max_request_header_size: usize,
    pub tls_listen_bind: Seq<char>,
    pub tls_client_ca_certificate_pem_filename: Seq<char>,
    pub tls_server_certificate_pem_filename: Seq<char>,
    pub tls_server_private_key_pem_filename: Seq<char>,
    pub default_hostname: Seq<char>,
}

impl View for Config {
    type V = ConfigView;

    closed spec fn view(&self) -> ConfigView {
        ConfigView {
            public_root_path: self.public_root_path@,
            partials_path: self.partials_path@,
            data_path: self.data_path@,
            errdocs_path: self.errdocs_path@,
            max_request_header_size: self.max_request_header_size,
            tls_listen_bind: self.tls_listen_bind@,
            tls_client_ca_certificate_pem_filename: self.tls_client_ca_certificate_pem_filename@,
            tls_server_certificate_pem_filename: self.tls_server_certificate_pem_filename@,
            tls_server_private_key_pem_filename: self.tls_server_private_key_pem_filename@,
            default_hostname: self.default_hostname@,
        }
    }
}

/// Whether every configured path names what it should: the four roots
/// directories, the three TLS files regular files, each with a canonical
/// form.
pub open spec fn probes_valid(probes: ConfigProbes) -> bool {
    &&& checked_path(probes.public_root, true) is Ok
    &&& checked_path(probes.partials, true) is Ok
    &&& checked_path(probes.data, true) is Ok
    &&& checked_path(probes.errdocs, true) is Ok
    &&& checked_path(probes.tls_client_ca_certificate_pem, false) is Ok
    &&& checked_path(probes.tls_server_certificate_pem, false) is Ok
    &&& checked_path(probes.tls_server_private_key_pem, false) is Ok
}

impl Config {
    /// Builds the configuration from what was found on disk. It exists
    /// exactly when every path names what it should, and then holds the
    /// canonical form of each.
    pub fn new(
        probes: &ConfigProbes,
        max_request_header_size: usize,
        tls_listen_bind: &str,
        default_hostname: &str,
    ) -> (r: Result<Config, PathError>)
        ensures
            r is Ok <==> probes_valid(*probes),
            r matches Ok(config) ==> config@ == (ConfigView {
                public_root_path: checked_path(probes.public_root, true)->Ok_0,
                partials_path: checked_path(probes.partials, true)->Ok_0,
                data_path: checked_path(probes.data, true)->Ok_0,
                errdocs_path: checked_path(probes.errdocs, true)->Ok_0,
                max_request_header_size,
                tls_listen_bind: tls_listen_bind@,
                tls_client_ca_certificate_pem_filename: checked_path(
                    probes.tls_client_ca_certificate_pem,
                    false,
                )->Ok_0,
                tls_server_certificate_pem_filename: checked_path(
                    probes.tls_server_certificate_pem,
                    false,
                )->Ok_0,
                tls_server_private_key_pem_filename: checked_path(
                    probes.tls_server_private_key_pem,
                    false,
                )->Ok_0,
                default_hostname: default_hostname@,
            }),
    {
        let public_root_path = match check_directory_path(&probes.public_root) {
            Ok(p) => p,
            Err(e) => {
                return Err(e);
            },
        };
        let partials_path = match check_directory_path(&probes.partials) {
            Ok(p) => p,
            Err(e) => {
                return Err(e);
            },
        };
        let data_path = match check_directory_path(&probes.data) {
            Ok(p) => p,
            Err(e) => {
                return Err(e);
            },
        };
        let errdocs_path = match check_directory_path(&probes.errdocs) {
            Ok(p) => p,
            Err(e) => {
                return Err(e);
            },
        };
        let ca = match check_file_path(&probes.tls_client_ca_certificate_pem) {
            Ok(p) => p,
            Err(e) => {
                return Err(e);
            },
        };
        let cert = match check_file_path(&probes.tls_server_certificate_pem) {
            Ok(p) => p,
            Err(e) => {
                return Err(e);
            },
        };
        let key = match check_file_path(&probes.tls_server_private_key_pem) {
            Ok(p) => p,
            Err(e) => {
                return Err(e);
            },
        };
        Ok(
            Config {
                public_root_path,
                partials_path,
                data_path,
                errdocs_path,
                max_request_header_size,
                tls_listen_bind: tls_listen_bind.to_owned(),
                tls_client_ca_certificate_pem_filename: ca,
                tls_server_certificate_pem_filename: cert,
                tls_server_private_key_pem_filename: key,
                default_hostname: default_hostname.to_owned(),
            },
        )
    }

    pub fn public_root_path(&self) -> (r: &str)
        ensures
            r@ == self@.public_root_path,
    {
        self.public_root_path.as_str()
    }

    pub fn partials_path(&self) -> (r: &str)
        ensures
            r@ == self@.partials_path,
    {
        self.partials_path.as_str()
    }

    pub fn data_path(&self) -> (r: &str)
        ensures
            r@ == self@.data_path,
    {
        self.data_path.as_str()
    }

    pub fn errdocs_path(&self) -> (r: &str)
        ensures
            r@ == self@.errdocs_path,
    {
        self.errdocs_path.as_str()
    }

    pub fn max_request_header_size(&self) -> (r: usize)
        ensures
            r == self@.max_request_header_size,
    {
        self.max_request_header_size
    }

    pub fn tls_listen_bind(&self) -> (r: &str)
        ensures
            r@ == self@.tls_listen_bind,
    {
        self.tls_listen_bind.as_str()
    }

    pub fn tls_client_ca_certificate_pem_filename(&self) -> (r: &str)
        ensures
            r@ == self@.tls_client_ca_certificate_pem_filename,
    {
        self.tls_client_ca_certificate_pem_filename.as_str()
    }

    pub fn tls_server_certificate_pem_filename(&self) -> (r: &str)
        ensures
            r@ == self@.tls_server_certificate_pem_filename,
    {
        self.tls_server_certificate_pem_filename.as_str()
    }

    pub fn tls_server_private_key_pem_filename(&self) -> (r: &str)
        ensures
            r@ == self@.tls_server_private_key_pem_filename,
    {
        self.tls_server_private_key_pem_filename.as_str()
    }

    pub fn default_hostname(&self) -> (r: &str)
        ensures
            r@ == self@.default_hostname,
    {
        self.default_hostname.as_str()
    }
}

} // verus!
