//! Kubeconfig resolution: an explicit override wins; otherwise the default
//! file under the home directory is probed; a mount is produced only for a
//! file that exists.

use vstd::prelude::*;
use vstd::string::StringExecFns;

use crate::LauncherError;
use crate::strutil::mount_frag;
use crate::strutil::spec_mount_frag;

verus! {

/// The in-container path of the kubeconfig mount.
pub open spec fn spec_kube_target() -> Seq<char> {
    "/home/nonroot/.kube/config"@
}

/// The path probed when the override is absent: the default kubeconfig
/// under the home directory.
pub open spec fn spec_default_kube_path(home: Seq<char>) -> Seq<char> {
    home + "/.kube/config"@
}

/// Which file the launcher considers: the override when set; otherwise the
/// default location, which needs the home variable — a host without one is
/// not correctly provisioned.
pub fn kube_candidate(kube_env: Option<&str>, home: Option<&str>) -> (r: Result<
    String,
    LauncherError,
>)
    ensures
        kube_env matches Some(p) ==> (r matches Ok(c) && c@ == p@),
        home matches Some(h) ==> (kube_env is None ==> (r matches Ok(c) && c@
            == spec_default_kube_path(h@))),
        r is Err <==> kube_env is None && home is None,
        r is Err ==> r == Err::<String, LauncherError>(LauncherError::MissingHome),
{
    match kube_env {
        Some(p) => Ok(p.to_owned()),
        None => match home {
            Some(h) => {
                let mut c = h.to_owned();
                c.append("/.kube/config");
                Ok(c)
            },
            None => Err(LauncherError::MissingHome),
        },
    }
}

/// The kubeconfig mount directive for a candidate file: present exactly
/// when the file exists, binding it to the fixed in-container path.
pub fn get_kube_config_volume(path: &str, exists: bool) -> (r: Option<String>)
    ensures
        exists ==> (r matches Some(m) && m@ == spec_mount_frag(path@, spec_kube_target())),
        !exists ==> r is None,
{
    if exists {
        Some(mount_frag(path, "/home/nonroot/.kube/config"))
    } else {
        None
    }
}

} // verus!
