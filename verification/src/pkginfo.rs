//! The package's identity and the places where it keeps its files.

use vstd::prelude::*;
use vstd::string::StringExecFns;
use crate::text::{chars_of, string_from};

verus! {

/// `PathBuf::push` on Unix: an absolute `part` replaces `base`; otherwise `part` is
/// appended, after a `/` unless `base` is empty or already ends in one.
pub open spec fn join_path(base: Seq<char>, part: Seq<char>) -> Seq<char> {
    if part.len() > 0 && part[0] == '/' {
        part
    } else if base.len() > 0 && base.last() != '/' {
        base + "/"@ + part
    } else {
        base + part
    }
}

/// Joins `part` to the path `base` as `Path::join` does on Unix.
pub fn join(base: &str, part: &str) -> (r: String)
    ensures
        r@ == join_path(base@, part@),
{
    let pc = chars_of(part);
    if pc.len() > 0 && pc[0] == '/' {
        return string_from(part);
    }
    let bc = chars_of(base);
    let mut r = string_from(base);
    if bc.len() > 0 && bc[bc.len() - 1] != '/' {
        r.append("/");
    }
    r.append(part);
    r
}

/// The package's name, version and authors, and the directories it uses.
pub struct PkgInfo {
    name: &'static str,
    version: &'static str,
    authors: &'static str,
    config_path: String,
    cache_path: String,
    tmp_path: String,
    manifest_dir: Option<String>,
}

impl PkgInfo {
    pub closed spec fn name_spec(&self) -> Seq<char> {
        self.name@
    }

    /// The directory under which the package keeps its configuration: the source tree's
    /// `config` directory when the package runs from its source tree, else the user's
    /// configuration directory joined with the package name.
    pub closed spec fn configdir_spec(&self) -> Seq<char> {
        match &self.manifest_dir {
            Some(d) => join_path(d@, "config"@),
            None => join_path(self.config_path@, self.name@),
        }
    }

    pub closed spec fn cachedir_spec(&self) -> Seq<char> {
        join_path(self.cache_path@, self.name@)
    }

    pub closed spec fn tmp_spec(&self) -> Seq<char> {
        self.tmp_path@
    }

    /// The package information, given the user's configuration, cache and temporary
    /// directories, and the source tree's directory when the package runs from it.
    pub fn new(
        name: &'static str,
        version: &'static str,
        authors: &'static str,
        config_path: String,
        cache_path: String,
        tmp_path: String,
        manifest_dir: Option<String>,
    ) -> (r: Self)
        ensures
            r.name_spec() == name@,
            r.configdir_spec() == match manifest_dir {
                Some(d) => join_path(d@, "config"@),
                None => join_path(config_path@, name@),
            },
            r.cachedir_spec() == join_path(cache_path@, name@),
            r.tmp_spec() == tmp_path@,
            r.get_version_spec() == version@,
            r.get_authors_spec() == authors@,
    {
        PkgInfo { name, version, authors, config_path, cache_path, tmp_path, manifest_dir }
    }

    pub closed spec fn get_version_spec(&self) -> Seq<char> {
        self.version@
    }

    pub closed spec fn get_authors_spec(&self) -> Seq<char> {
        self.authors@
    }

    /// The package name.
    pub fn get_name(&self) -> (r: &'static str)
        ensures
            r@ == self.name_spec(),
    {
        self.name
    }

    /// The package version.
    pub fn get_version(&self) -> (r: &'static str)
        ensures
            r@ == self.get_version_spec(),
    {
        self.version
    }

    /// The package authors.
    pub fn get_authors(&self) -> (r: &'static str)
        ensures
            r@ == self.get_authors_spec(),
    {
        self.authors
    }

    /// The configuration directory (see [`PkgInfo::configdir_spec`]).
    pub fn get_app_configdir(&self) -> (r: String)
        ensures
            r@ == self.configdir_spec(),
    {
        match &self.manifest_dir {
            Some(d) => join(d.as_str(), "config"),
            None => join(self.config_path.as_str(), self.name),
        }
    }

    /// The cache directory: the user's cache directory joined with the package name.
    pub fn get_app_cachedir(&self) -> (r: String)
        ensures
            r@ == self.cachedir_spec(),
    {
        join(self.cache_path.as_str(), self.name)
    }

    /// The controller socket: `<tmp>/<name>/mihomo.sock`.
    pub fn get_mihomo_socket(&self) -> (r: String)
        ensures
            r@ == join_path(join_path(self.tmp_spec(), self.name_spec()), "mihomo.sock"@),
    {
        let dir = join(self.tmp_path.as_str(), self.name);
        join(dir.as_str(), "mihomo.sock")
    }

    /// The Mihomo configuration file: `config.yaml` in the configuration directory.
    pub fn get_mihomo_config(&self) -> (r: String)
        ensures
            r@ == join_path(self.configdir_spec(), "config.yaml"@),
    {
        let dir = self.get_app_configdir();
        join(dir.as_str(), "config.yaml")
    }

    /// Akasha's settings file: `akasha.toml` in the configuration directory.
    pub fn get_akasha_config(&self) -> (r: String)
        ensures
            r@ == join_path(self.configdir_spec(), "akasha.toml"@),
    {
        let dir = self.get_app_configdir();
        join(dir.as_str(), "akasha.toml")
    }
}

} // verus!
