//! Resolution of the image reference: a three-tier override-fallback-default
//! rule, applied to the repository and the version, then combined with the
//! fixed image name.

use vstd::prelude::*;
use vstd::string::StringExecFns;

use crate::strutil::opt_view;

verus! {

/// The first value set among an override, a fallback and a default.
pub open spec fn spec_first_set(
    primary: Option<Seq<char>>,
    secondary: Option<Seq<char>>,
    default: Seq<char>,
) -> Seq<char> {
    match primary {
        Some(p) => p,
        None => match secondary {
            Some(s) => s,
            None => default,
        },
    }
}

/// Picks the first value set among an override, a fallback and a default.
/// Every configurable setting goes through this one resolver.
pub fn first_set(primary: Option<&str>, secondary: Option<&str>, default: &str) -> (r: String)
    ensures
        r@ == spec_first_set(opt_view(primary), opt_view(secondary), default@),
{
    match primary {
        Some(p) => p.to_owned(),
        None => match secondary {
            Some(s) => s.to_owned(),
            None => default.to_owned(),
        },
    }
}

/// The image repository used when the environment names none.
pub open spec fn spec_default_repo() -> Seq<char> {
    "registry.scontain.com/sconectl"@
}

/// The resolved repository.
pub open spec fn spec_repo(repo_env: Option<Seq<char>>) -> Seq<char> {
    spec_first_set(repo_env, None, spec_default_repo())
}

/// The resolved version: the dedicated override wins over the generic one,
/// and the latest tag is the default.
pub open spec fn spec_version(
    sconectl_version_env: Option<Seq<char>>,
    version_env: Option<Seq<char>>,
) -> Seq<char> {
    spec_first_set(sconectl_version_env, version_env, "latest"@)
}

/// The full image reference: repository, fixed image name, version tag.
pub open spec fn spec_image(
    repo_env: Option<Seq<char>>,
    sconectl_version_env: Option<Seq<char>>,
    version_env: Option<Seq<char>>,
) -> Seq<char> {
    spec_repo(repo_env) + "/sconecli:"@ + spec_version(sconectl_version_env, version_env)
}

/// Resolves the repository and the image reference from the three
/// environment overrides.
pub fn resolve_image(
    repo_env: Option<&str>,
    sconectl_version_env: Option<&str>,
    version_env: Option<&str>,
) -> (r: (String, String))
    ensures
        r.0@ == spec_repo(opt_view(repo_env)),
        r.1@ == spec_image(
            opt_view(repo_env),
            opt_view(sconectl_version_env),
            opt_view(version_env),
        ),
{
    let repo = first_set(repo_env, None, "registry.scontain.com/sconectl");
    let version = first_set(sconectl_version_env, version_env, "latest");
    let mut image = repo.clone();
    image.append("/sconecli:");
    image.append(version.as_str());
    proof {
        assert(image@ =~= spec_image(
            opt_view(repo_env),
            opt_view(sconectl_version_env),
            opt_view(version_env),
        ));
    }
    (repo, image)
}

} // verus!
