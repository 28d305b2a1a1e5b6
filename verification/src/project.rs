//! The immutable project record: application identity, dependency sources,
//! runtime selection and entry configuration, resolved once at startup and
//! passed by reference to every component; and the workspace paths derived
//! from it.

use vstd::prelude::*;

use crate::strutil::replace_str;
use crate::strutil::spec_contains_str;
use crate::strutil::spec_replace;
use crate::strutil::str_contains;

verus! {

/// Two path segments joined by a single separator.
pub open spec fn spec_join(a: Seq<char>, b: Seq<char>) -> Seq<char> {
    a + "/"@ + b
}

/// Join two path segments.
pub fn join_path(a: &str, b: &str) -> (r: String)
    ensures
        r@ == spec_join(a@, b@),
{
    let mut r = a.to_owned();
    r.append("/");
    r.append(b);
    r
}

/// The application's identity and dependency sources.
pub struct PyaketApplication {
    /// The name of the application.
    pub name: String,
    /// The author or vendor of the application.
    pub author: String,
    /// The version of the application.
    pub version: String,
    /// A short description.
    pub about: String,
    /// Wheel file patterns to install at startup, separated by `:`.
    pub wheels: String,
    /// Package specifiers to install at startup, separated by `:`.
    pub pypi: String,
    /// The text of a requirements file to install at startup.
    pub reqtxt: String,
    /// Reprovision on every launch, bypassing the fingerprint check.
    pub rolling: bool,
    /// Hold the terminal open after errors.
    pub keep_open: bool,
}

impl PyaketApplication {
    /// The workspace root identifier: the author, or the application name
    /// when no author is set, so that giving an author stays optional.
    pub open spec fn spec_vendor(&self) -> Seq<char> {
        if self.author@.len() == 0 {
            self.name@
        } else {
            self.author@
        }
    }

    /// The workspace root identifier, either author or name.
    pub fn vendor(&self) -> (r: String)
        ensures
            r@ == self.spec_vendor(),
    {
        if self.author.as_str().is_empty() {
            self.name.clone()
        } else {
            self.author.clone()
        }
    }
}

/// Where shared and versioned data live inside the workspace.
pub struct PyaketDirectories {
    /// Subdirectory of the workspace for shared data.
    pub common: String,
    /// Subdirectory of the shared data for versions to coexist.
    pub versions: String,
}

/// The managed interpreter selection.
pub struct PyaketPython {
    /// The interpreter version to provision at startup.
    pub version: String,
}

/// The optional accelerated-compute backend.
pub struct PyaketTorch {
    /// The backend version to install, or empty for none.
    pub version: String,
    /// The backend variant to install, such as a plain processor build.
    pub backend: String,
}

/// The entry-point configuration; at most one field is meant to be set,
/// and dispatch resolves the precedence once.
pub struct PyaketEntry {
    /// A module to run inside the environment.
    pub module: String,
    /// A bundled script to run.
    pub script: String,
    /// A line of code to run.
    pub code: String,
    /// A full command line, bypassing the environment wrapper.
    pub command: String,
}

/// The flat runtime record the launcher works from: the configuration above,
/// the resolved workspace root, and the packaging identity.
pub struct Project {
    /// The workspace root directory, resolved before the launcher starts.
    pub workspace_root: String,
    /// The name of the application.
    pub app_name: String,
    /// The author or vendor of the application.
    pub app_author: String,
    /// The version of the application.
    pub app_version: String,
    /// Subdirectory of the shared data for versions to coexist.
    pub versions_dir: String,
    /// Wheel file patterns to install at startup, separated by `:`.
    pub wheels: String,
    /// Package specifiers to install at startup, separated by `:`.
    pub pypi: String,
    /// The text of a requirements file to install at startup.
    pub reqtxt: String,
    /// The interpreter version to provision at startup.
    pub python_version: String,
    /// The version of the delegated package manager to provision.
    pub uv_version: String,
    /// The accelerated-backend version to install, or empty for none.
    pub torch_version: String,
    /// The accelerated-backend variant to install.
    pub torch_backend: String,
    /// A module to run inside the environment.
    pub entry_module: String,
    /// A bundled script to run.
    pub entry_script: String,
    /// A line of code to run.
    pub entry_code: String,
    /// A full command line, bypassing the environment wrapper.
    pub entry_command: String,
    /// The identifier unique to this packaged binary.
    pub uuid: String,
    /// The platform target triple of the build.
    pub triple: String,
    /// Subdirectory of the workspace for shared data.
    pub common_dir: String,
    /// Reprovision on every launch, bypassing the fingerprint check.
    pub rolling: bool,
    /// Hold the terminal open after errors.
    pub keep_open: bool,
}

impl Project {
    /// Assemble the runtime record from the grouped configuration, the
    /// resolved workspace root and the packaging identity.
    pub fn from_parts(
        workspace_root: String,
        app: PyaketApplication,
        dirs: PyaketDirectories,
        python: PyaketPython,
        torch: PyaketTorch,
        entry: PyaketEntry,
        uv_version: String,
        uuid: String,
        triple: String,
    ) -> (r: Project)
        ensures
            r.workspace_root == workspace_root,
            r.app_name == app.name,
            r.app_author == app.author,
            r.app_version == app.version,
            r.versions_dir == dirs.versions,
            r.common_dir == dirs.common,
            r.wheels == app.wheels,
            r.pypi == app.pypi,
            r.reqtxt == app.reqtxt,
            r.python_version == python.version,
            r.torch_version == torch.version,
            r.torch_backend == torch.backend,
            r.entry_module == entry.module,
            r.entry_script == entry.script,
            r.entry_code == entry.code,
            r.entry_command == entry.command,
            r.uuid == uuid,
            r.triple == triple,
            r.rolling == app.rolling,
            r.keep_open == app.keep_open,
            r.uv_version == uv_version,
    {
        Project {
            workspace_root,
            app_name: app.name,
            app_author: app.author,
            app_version: app.version,
            versions_dir: dirs.versions,
            wheels: app.wheels,
            pypi: app.pypi,
            reqtxt: app.reqtxt,
            python_version: python.version,
            uv_version,
            torch_version: torch.version,
            torch_backend: torch.backend,
            entry_module: entry.module,
            entry_script: entry.script,
            entry_code: entry.code,
            entry_command: entry.command,
            uuid,
            triple,
            common_dir: dirs.common,
            rolling: app.rolling,
            keep_open: app.keep_open,
        }
    }

    /// The directory for shared unpacked assets.
    pub open spec fn spec_workspace_common(&self) -> Seq<char> {
        spec_join(self.workspace_root@, self.common_dir@)
    }

    /// A common directory under the workspace root for shared data.
    pub fn workspace_common(&self) -> (r: String)
        ensures
            r@ == self.spec_workspace_common(),
    {
        join_path(self.workspace_root.as_str(), self.common_dir.as_str())
    }

    /// Where package-manager distributions are unpacked.
    pub open spec fn spec_astral_dir(&self) -> Seq<char> {
        spec_join(self.spec_workspace_common(), "Astral"@)
    }

    /// The directory for package-manager distributions.
    pub fn astral_dir(&self) -> (r: String)
        ensures
            r@ == self.spec_astral_dir(),
    {
        join_path(self.workspace_common().as_str(), "Astral")
    }

    /// The package manager's download cache directory.
    pub open spec fn spec_uv_cache_dir(&self) -> Seq<char> {
        spec_join(self.spec_workspace_common(), "Cache"@)
    }

    /// The package cache directory handed to the package manager.
    pub fn uv_cache_dir(&self) -> (r: String)
        ensures
            r@ == self.spec_uv_cache_dir(),
    {
        join_path(self.workspace_common().as_str(), "Cache")
    }

    /// Where managed interpreter distributions are installed.
    pub open spec fn spec_python_install_dir(&self) -> Seq<char> {
        spec_join(self.spec_workspace_common(), "Python"@)
    }

    /// The managed-interpreter install directory.
    pub fn python_install_dir(&self) -> (r: String)
        ensures
            r@ == self.spec_python_install_dir(),
    {
        join_path(self.workspace_common().as_str(), "Python")
    }

    /// The versioned installation directory for this application version.
    pub open spec fn spec_installation_dir(&self) -> Seq<char> {
        spec_join(spec_join(self.spec_workspace_common(), self.versions_dir@), self.app_version@)
    }

    /// Where this version's environment is installed: one directory per
    /// version, never shared across versions.
    pub fn installation_dir(&self) -> (r: String)
        ensures
            r@ == self.spec_installation_dir(),
    {
        let versions = join_path(self.workspace_common().as_str(), self.versions_dir.as_str());
        join_path(versions.as_str(), self.app_version.as_str())
    }

    /// The fingerprint file inside the installation directory. Its content
    /// equals the running binary's identifier exactly when the last
    /// provisioning attempt for this directory completed successfully.
    pub open spec fn spec_uuid_tracker_file(&self) -> Seq<char> {
        spec_join(self.spec_installation_dir(), self.app_name@ + ".uuid"@)
    }

    /// The file that tracks which packaged binary last provisioned this
    /// installation directory.
    pub fn uuid_tracker_file(&self) -> (r: String)
        ensures
            r@ == self.spec_uuid_tracker_file(),
    {
        let mut file = self.app_name.clone();
        file.append(".uuid");
        join_path(self.installation_dir().as_str(), file.as_str())
    }

    /// The archive stem of the package-manager distribution for this build's
    /// target triple; a historical toolchain name is folded into its current
    /// equivalent.
    pub open spec fn spec_uv_archive_stem(&self) -> Seq<char> {
        "uv-"@ + spec_replace(self.triple@, "windows-gnu"@, "windows-msvc"@)
    }

    /// The distribution archive filename without extensions.
    pub fn uv_archive_stem(&self) -> (r: String)
        ensures
            r@ == self.spec_uv_archive_stem(),
    {
        proof {
            reveal_strlit("windows-gnu");
        }
        let fixed = replace_str(self.triple.as_str(), "windows-gnu", "windows-msvc");
        let mut r = "uv-".to_owned();
        r.append(fixed.as_str());
        r
    }

    /// The full distribution archive filename: zip on windows targets,
    /// gzip-tar elsewhere.
    pub open spec fn spec_uv_archive_name(&self) -> Seq<char> {
        self.spec_uv_archive_stem() + "."@ + (if spec_contains_str(self.triple@, "windows"@) {
            "zip"@
        } else {
            "tar.gz"@
        })
    }

    /// The download filename of the package-manager distribution.
    pub fn uv_archive_name(&self) -> (r: String)
        ensures
            r@ == self.spec_uv_archive_name(),
    {
        let mut r = self.uv_archive_stem();
        r.append(".");
        if str_contains(self.triple.as_str(), "windows") {
            r.append("zip");
        } else {
            r.append("tar.gz");
        }
        r
    }

    /// The release URL the distribution is fetched from when neither the
    /// bundle nor the cache holds it.
    pub open spec fn spec_uv_download_url(&self) -> Seq<char> {
        "https://github.com/astral-sh/uv/releases/download/"@ + self.uv_version@ + "/"@
            + self.spec_uv_archive_name()
    }

    /// The download URL of the package-manager distribution.
    pub fn uv_download_url(&self) -> (r: String)
        ensures
            r@ == self.spec_uv_download_url(),
    {
        let mut r = "https://github.com/astral-sh/uv/releases/download/".to_owned();
        r.append(self.uv_version.as_str());
        r.append("/");
        r.append(self.uv_archive_name().as_str());
        r
    }

    /// Where the distribution is unpacked, one directory per its version.
    pub open spec fn spec_uv_unpack_dir(&self) -> Seq<char> {
        spec_join(self.spec_astral_dir(), self.uv_version@)
    }

    /// The directory the package-manager distribution is unpacked into.
    pub fn uv_unpack_dir(&self) -> (r: String)
        ensures
            r@ == self.spec_uv_unpack_dir(),
    {
        join_path(self.astral_dir().as_str(), self.uv_version.as_str())
    }

    /// Where the downloaded distribution archive is cached.
    pub open spec fn spec_uv_download_file(&self) -> Seq<char> {
        spec_join(self.spec_uv_unpack_dir(), self.spec_uv_archive_name())
    }

    /// The cache file the downloaded distribution archive lands in.
    pub fn uv_download_file(&self) -> (r: String)
        ensures
            r@ == self.spec_uv_download_file(),
    {
        join_path(self.uv_unpack_dir().as_str(), self.uv_archive_name().as_str())
    }
}

} // verus!
