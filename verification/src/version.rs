//! What a build says of itself.

use vstd::prelude::*;
use vstd::string::{StrSliceExecFns, StringExecFns};

verus! {

/// How many characters of the commit hash the short version shows.
pub const GIT_COMMIT_SHORT_LEN: usize = 8;

/// The facts of a build: the version of the package, whether it is a
/// development build, and what it was built from, when, for which target,
/// with which compiler and with which features.
#[derive(Debug)]
pub struct Version {
    pkg_version: String,
    version_suffix: String,
    git_commit_hash: String,
    build_timestamp: String,
    cargo_target_triple: String,
    rustc_version: String,
    cargo_features: String,
}

impl Version {
    /// The commit hash is long enough to be cut to its short form.
    #[verifier::type_invariant]
    pub closed spec fn inv(&self) -> bool {
        self.git_commit_hash@.len() >= GIT_COMMIT_SHORT_LEN
    }

    pub closed spec fn pkg_version(&self) -> Seq<char> {
        self.pkg_version@
    }

    pub closed spec fn version_suffix(&self) -> Seq<char> {
        self.version_suffix@
    }

    pub closed spec fn git_commit_hash(&self) -> Seq<char> {
        self.git_commit_hash@
    }

    pub closed spec fn build_timestamp(&self) -> Seq<char> {
        self.build_timestamp@
    }

    pub closed spec fn cargo_target_triple(&self) -> Seq<char> {
        self.cargo_target_triple@
    }

    pub closed spec fn rustc_version(&self) -> Seq<char> {
        self.rustc_version@
    }

    pub closed spec fn cargo_features(&self) -> Seq<char> {
        self.cargo_features@
    }

    /// The short version: the letter `v`, the version of the package with
    /// its suffix, and in brackets the first characters of the commit hash.
    pub open spec fn short_text(&self) -> Seq<char> {
        "v"@ + self.pkg_version() + self.version_suffix() + " ("@ + self.git_commit_hash().take(
            GIT_COMMIT_SHORT_LEN as int,
        ) + ")"@
    }

    /// The long version: one line for each fact, each under its label.
    pub open spec fn long_text(&self) -> Seq<char> {
        "Version:     "@ + self.pkg_version() + self.version_suffix() + "\n"@ + "Commit:      "@
            + self.git_commit_hash() + "\n"@ + "Built:       "@ + self.build_timestamp() + "\n"@
            + "Target:      "@ + self.cargo_target_triple() + "\n"@ + "Rustc:       "@
            + self.rustc_version() + "\n"@ + "Features:    "@ + self.cargo_features()
    }

    /// The facts of a build, or `None` where the commit hash has fewer
    /// characters than its short form takes.
    pub fn new(
        pkg_version: &str,
        version_suffix: &str,
        git_commit_hash: &str,
        build_timestamp: &str,
        cargo_target_triple: &str,
        rustc_version: &str,
        cargo_features: &str,
    ) -> (r: Option<Self>)
        ensures
            r is Some <==> git_commit_hash@.len() >= GIT_COMMIT_SHORT_LEN,
            r matches Some(version) ==> {
                &&& version.pkg_version() == pkg_version@
                &&& version.version_suffix() == version_suffix@
                &&& version.git_commit_hash() == git_commit_hash@
                &&& version.build_timestamp() == build_timestamp@
                &&& version.cargo_target_triple() == cargo_target_triple@
                &&& version.rustc_version() == rustc_version@
                &&& version.cargo_features() == cargo_features@
            },
    {
        if git_commit_hash.unicode_len() < GIT_COMMIT_SHORT_LEN {
            return None;
        }
        Some(
            Version {
                pkg_version: String::from_str(pkg_version),
                version_suffix: String::from_str(version_suffix),
                git_commit_hash: String::from_str(git_commit_hash),
                build_timestamp: String::from_str(build_timestamp),
                cargo_target_triple: String::from_str(cargo_target_triple),
                rustc_version: String::from_str(rustc_version),
                cargo_features: String::from_str(cargo_features),
            },
        )
    }

    /// The short version information.
    #[must_use]
    pub fn short_version(&self) -> (r: String)
        ensures
            r@ == self.short_text(),
    {
        proof {
            use_type_invariant(self);
        }
        let mut text = String::from_str("v");
        text.append(self.pkg_version.as_str());
        text.append(self.version_suffix.as_str());
        text.append(" (");
        text.append(self.git_commit_hash.as_str().substring_char(0, GIT_COMMIT_SHORT_LEN));
        text.append(")");
        text
    }

    /// The long version information.
    #[must_use]
    pub fn long_version(&self) -> (r: String)
        ensures
            r@ == self.long_text(),
    {
        let mut text = String::from_str("Version:     ");
        text.append(self.pkg_version.as_str());
        text.append(self.version_suffix.as_str());
        text.append("\n");
        text.append("Commit:      ");
        text.append(self.git_commit_hash.as_str());
        text.append("\n");
        text.append("Built:       ");
        text.append(self.build_timestamp.as_str());
        text.append("\n");
        text.append("Target:      ");
        text.append(self.cargo_target_triple.as_str());
        text.append("\n");
        text.append("Rustc:       ");
        text.append(self.rustc_version.as_str());
        text.append("\n");
        text.append("Features:    ");
        text.append(self.cargo_features.as_str());
        text
    }
}

} // verus!
