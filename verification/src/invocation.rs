//! Assembly of the single container-run command line.
//!
//! The command is an ordered list of fragments — engine endpoint flags, the
//! CAS mount, the kubeconfig mount, environment exports, the standard
//! host-state mounts, the working-directory binding, the image reference,
//! then the quoted pass-through tokens — serialized once, joined by single
//! spaces. The order carries no meaning for the tool but is fixed, so runs
//! are reproducible.

use vstd::prelude::*;
use vstd::string::StringExecFns;

use crate::endpoint::EndpointClass;
use crate::endpoint::HostEndpoint;
use crate::endpoint::spec_default_socket;
use crate::endpoint::spec_export_value;
use crate::strutil::export_frag;
use crate::strutil::mount_frag;
use crate::strutil::quote;
use crate::strutil::quoted;
use crate::strutil::spec_export_frag;
use crate::strutil::spec_mount_frag;

verus! {

/// The flags a classified endpoint contributes to the command: the export
/// of the engine variable where one is exported, and the socket bind-mount
/// where the engine is local.
pub open spec fn spec_endpoint_flags(e: EndpointClass) -> Seq<char> {
    match spec_export_value(e) {
        None => spec_mount_frag(spec_default_socket(), spec_default_socket()),
        Some(v) => {
            let export = spec_export_frag("DOCKER_HOST"@, v);
            match e {
                EndpointClass::UnixSocket(p) => export + " "@ + spec_mount_frag(p, p),
                EndpointClass::Unrecognized(_) => export + " "@ + spec_mount_frag(
                    spec_default_socket(),
                    spec_default_socket(),
                ),
                _ => export,
            }
        },
    }
}

/// Builds the endpoint flags for a resolved endpoint.
pub fn endpoint_flags(e: &HostEndpoint) -> (r: String)
    ensures
        r@ == spec_endpoint_flags(e@),
{
    match e {
        HostEndpoint::Default => mount_frag("/var/run/docker.sock", "/var/run/docker.sock"),
        HostEndpoint::UnixSocket(p) => {
            let mut full = "unix://".to_owned();
            full.append(p.as_str());
            let mut r = export_frag("DOCKER_HOST", full.as_str());
            r.append(" ");
            r.append(mount_frag(p.as_str(), p.as_str()).as_str());
            proof {
                assert(r@ =~= spec_endpoint_flags(e@));
            }
            r
        },
        HostEndpoint::TcpEndpoint(a) => export_frag("DOCKER_HOST", a.as_str()),
        HostEndpoint::RawAddress(raw) => {
            let mut full = "tcp://".to_owned();
            full.append(raw.as_str());
            let r = export_frag("DOCKER_HOST", full.as_str());
            proof {
                assert(r@ =~= spec_endpoint_flags(e@));
            }
            r
        },
        HostEndpoint::Unrecognized(_) => {
            let mut r = export_frag("DOCKER_HOST", "/var/run/docker.sock");
            r.append(" ");
            r.append(mount_frag("/var/run/docker.sock", "/var/run/docker.sock").as_str());
            proof {
                assert(r@ =~= spec_endpoint_flags(e@));
            }
            r
        },
    }
}

/// The views of a fragment vector.
pub open spec fn views_of(frags: Seq<String>) -> Seq<Seq<char>> {
    frags.map_values(|f: String| f@)
}

/// The quoted views of the pass-through tokens.
pub open spec fn quoted_views(toks: Seq<String>) -> Seq<Seq<char>> {
    toks.map_values(|t: String| quoted(t@))
}

/// Fragments joined by single spaces.
pub open spec fn spec_join(frags: Seq<Seq<char>>) -> Seq<char>
    decreases frags.len(),
{
    if frags.len() == 0 {
        Seq::empty()
    } else if frags.len() == 1 {
        frags[0]
    } else {
        spec_join(frags.drop_last()) + " "@ + frags.last()
    }
}

/// Serializes a fragment vector into one command line.
fn join_fragments(frags: &Vec<String>) -> (s: String)
    ensures
        s@ == spec_join(views_of(frags@)),
{
    let ghost vs = views_of(frags@);
    let mut s = String::new();
    let mut i: usize = 0;
    while i < frags.len()
        invariant
            i <= frags@.len(),
            vs == views_of(frags@),
            vs.len() == frags@.len(),
            s@ == spec_join(vs.take(i as int)),
        decreases frags@.len() - i,
    {
        if i > 0 {
            s.append(" ");
        }
        s.append(frags[i].as_str());
        i = i + 1;
        proof {
            assert(vs[i - 1] == frags@[i - 1]@);
            if i == 1 {
                assert(s@ =~= spec_join(vs.take(1)));
            } else {
                assert(vs.take(i as int).drop_last() =~= vs.take(i as int - 1));
                assert(vs.take(i as int).last() == vs[i as int - 1]);
                assert(s@ =~= spec_join(vs.take(i as int)));
            }
        }
    }
    proof {
        assert(vs.take(frags@.len() as int) =~= vs);
    }
    s
}

/// The fully assembled invocation: built once, immutable once constructed,
/// serialized at the last step.
pub struct Invocation {
    /// Endpoint flags from the host probe.
    pub endpoint_flags: String,
    /// The CAS-config mount directive.
    pub cas_mount: String,
    /// The kubeconfig mount directive, present only for an existing file.
    pub kube_mount: Option<String>,
    /// The value exported as the in-container CAS-config setting: the
    /// resolved directory, or empty when unset.
    pub cas_dir: String,
    /// The resolved repository, exported for the tool.
    pub repo: String,
    /// The image reference to run.
    pub image: String,
    /// The pass-through tokens, forwarded in their original order.
    pub pass_through: Vec<String>,
}

impl Invocation {
    /// The fragments ahead of the optional kubeconfig mount.
    pub open spec fn spec_prefix(&self) -> Seq<Seq<char>> {
        seq![
            "docker run"@,
            "--platform linux/amd64"@,
            "-e SCONE_PRODUCTION=0"@,
            "-e SCONE_NO_TIME_THREAD=1"@,
            "--entrypoint=\"\""@,
            "--rm"@,
            self.endpoint_flags@,
            self.cas_mount@,
        ]
    }

    /// The fragments between the kubeconfig mount and the pass-through
    /// tail.
    pub open spec fn spec_mid(&self) -> Seq<Seq<char>> {
        seq![
            spec_export_frag("SCONECTL_CAS_CONFIG"@, self.cas_dir@),
            spec_export_frag("SCONECTL_PWD"@, "$PWD"@),
            spec_export_frag("SCONECTL_HOME"@, "$HOME"@),
            spec_export_frag("SCONECTL_REPO"@, self.repo@),
            spec_mount_frag("$HOME/.docker"@, "/home/nonroot/.docker"@),
            spec_mount_frag("$HOME/.scone"@, "/home/nonroot/.scone"@),
            spec_mount_frag("$PWD"@, "/wd"@),
            "-w \"/wd\""@,
            "--user $(id -u):$(id -g)"@,
            "--group-add $(getent group docker | cut -d: -f3)"@,
            self.image@,
        ]
    }

    /// The kubeconfig fragment, empty when no file exists.
    pub open spec fn spec_kube(&self) -> Seq<Seq<char>> {
        match self.kube_mount {
            None => Seq::<Seq<char>>::empty(),
            Some(m) => seq![m@],
        }
    }

    /// All fragments, in their fixed documented order.
    pub open spec fn spec_fragments(&self) -> Seq<Seq<char>> {
        self.spec_prefix() + self.spec_kube() + self.spec_mid() + quoted_views(
            self.pass_through@,
        )
    }

    /// The command line: the fragments joined by single spaces.
    pub open spec fn spec_command(&self) -> Seq<char> {
        spec_join(self.spec_fragments())
    }

    /// Serializes the invocation into the one command line the shell runs.
    pub fn to_command(&self) -> (s: String)
        ensures
            s@ == self.spec_command(),
    {
        let mut frags: Vec<String> = Vec::new();
        frags.push("docker run".to_owned());
        frags.push("--platform linux/amd64".to_owned());
        frags.push("-e SCONE_PRODUCTION=0".to_owned());
        frags.push("-e SCONE_NO_TIME_THREAD=1".to_owned());
        frags.push("--entrypoint=\"\"".to_owned());
        frags.push("--rm".to_owned());
        frags.push(self.endpoint_flags.clone());
        frags.push(self.cas_mount.clone());
        match &self.kube_mount {
            Some(m) => frags.push(m.clone()),
            None => {},
        }
        frags.push(export_frag("SCONECTL_CAS_CONFIG", self.cas_dir.as_str()));
        frags.push(export_frag("SCONECTL_PWD", "$PWD"));
        frags.push(export_frag("SCONECTL_HOME", "$HOME"));
        frags.push(export_frag("SCONECTL_REPO", self.repo.as_str()));
        frags.push(mount_frag("$HOME/.docker", "/home/nonroot/.docker"));
        frags.push(mount_frag("$HOME/.scone", "/home/nonroot/.scone"));
        frags.push(mount_frag("$PWD", "/wd"));
        frags.push("-w \"/wd\"".to_owned());
        frags.push("--user $(id -u):$(id -g)".to_owned());
        frags.push("--group-add $(getent group docker | cut -d: -f3)".to_owned());
        frags.push(self.image.clone());
        let ghost head_views = views_of(frags@);
        proof {
            assert(head_views =~= self.spec_prefix() + self.spec_kube() + self.spec_mid());
        }
        let mut j: usize = 0;
        while j < self.pass_through.len()
            invariant
                j <= self.pass_through@.len(),
                head_views == self.spec_prefix() + self.spec_kube() + self.spec_mid(),
                frags@.len() == head_views.len() + j,
                views_of(frags@) == head_views + quoted_views(
                    self.pass_through@.subrange(0, j as int),
                ),
            decreases self.pass_through@.len() - j,
        {
            let q = quote(self.pass_through[j].as_str());
            let ghost pre = frags@;
            frags.push(q);
            j = j + 1;
            proof {
                let sub = self.pass_through@.subrange(0, j as int);
                let h = head_views.len() as int;
                assert forall|k: int| 0 <= k < frags@.len() implies #[trigger] views_of(
                    frags@,
                )[k] == (head_views + quoted_views(sub))[k] by {
                    if k < pre.len() {
                        assert(frags@[k] == pre[k]);
                        assert(views_of(pre)[k] == (head_views + quoted_views(
                            self.pass_through@.subrange(0, j - 1),
                        ))[k]);
                        if k >= h {
                            assert(self.pass_through@.subrange(0, j - 1)[k - h]
                                == self.pass_through@[k - h]);
                            assert(sub[k - h] == self.pass_through@[k - h]);
                        }
                    } else {
                        assert(frags@[k] == q);
                        assert(sub[k - h] == self.pass_through@[j - 1]);
                    }
                }
                assert(views_of(frags@) =~= head_views + quoted_views(sub));
            }
        }
        proof {
            assert(self.pass_through@.subrange(0, self.pass_through@.len() as int)
                =~= self.pass_through@);
            assert(views_of(frags@) =~= self.spec_fragments());
        }
        join_fragments(&frags)
    }
}

} // verus!
