//! Builder for the `docker run` command line and the host name that
//! containers use to reach the server.

use vstd::prelude::*;

use crate::shared::cmdline::{
    opt_arg, opt_value, push_lit, push_opt, push_repeated, push_switch, repeated_arg, switch_arg,
};
use crate::text::{
    chars_of, decimal, opt_view, owned, push_all, push_decimal, push_string, string_of,
    strings_view, str_eq, trim, trim_str,
};

verus! {

/// Accumulates the options of a `docker run` invocation.
#[derive(Debug, Clone)]
pub struct DockerRunBuilder {
    image: Option<String>,
    command: Option<Vec<String>>,
    remove_container: bool,
    interactive: bool,
    attach_streams: Vec<String>,
    user: Option<String>,
    workdir: Option<String>,
    volumes: Vec<(String, String, Option<String>)>,
    env_vars: Vec<(String, String)>,
}

/// A bind mount: host path, container path and mount options.
pub type VolumeSpec = (Seq<char>, Seq<char>, Option<Seq<char>>);

/// The options of a `docker run` invocation, as mathematical values.
pub struct DockerRunSpec {
    pub image: Option<Seq<char>>,
    pub command: Option<Seq<Seq<char>>>,
    pub remove_container: bool,
    pub interactive: bool,
    pub attach_streams: Seq<Seq<char>>,
    pub user: Option<Seq<char>>,
    pub workdir: Option<Seq<char>>,
    pub volumes: Seq<VolumeSpec>,
    pub env_vars: Seq<(Seq<char>, Seq<char>)>,
}

/// The mathematical values of the bind mounts.
pub open spec fn volumes_view(v: Seq<(String, String, Option<String>)>) -> Seq<VolumeSpec> {
    Seq::new(v.len(), |i: int| (v[i].0@, v[i].1@, opt_view(v[i].2)))
}

/// The mathematical values of the environment variables.
pub open spec fn env_view(v: Seq<(String, String)>) -> Seq<(Seq<char>, Seq<char>)> {
    Seq::new(v.len(), |i: int| (v[i].0@, v[i].1@))
}

impl View for DockerRunBuilder {
    type V = DockerRunSpec;

    closed spec fn view(&self) -> DockerRunSpec {
        DockerRunSpec {
            image: opt_view(self.image),
            command: match self.command {
                Some(c) => Some(strings_view(c@)),
                None => None,
            },
            remove_container: self.remove_container,
            interactive: self.interactive,
            attach_streams: strings_view(self.attach_streams@),
            user: opt_view(self.user),
            workdir: opt_view(self.workdir),
            volumes: volumes_view(self.volumes@),
            env_vars: env_view(self.env_vars@),
        }
    }
}

/// `host:container`, followed by `:options` when options are given.
pub open spec fn volume_arg(v: VolumeSpec) -> Seq<char> {
    match v.2 {
        Some(o) => v.0 + seq![':'] + v.1 + seq![':'] + o,
        None => v.0 + seq![':'] + v.1,
    }
}

/// `-v spec` for every bind mount, in order.
pub open spec fn volume_args(vs: Seq<VolumeSpec>) -> Seq<Seq<char>>
    decreases vs.len(),
{
    if vs.len() == 0 {
        Seq::empty()
    } else {
        volume_args(vs.drop_last()) + seq!["-v"@, volume_arg(vs.last())]
    }
}

/// `-e key=value` for every variable, in order.
pub open spec fn env_args(es: Seq<(Seq<char>, Seq<char>)>) -> Seq<Seq<char>>
    decreases es.len(),
{
    if es.len() == 0 {
        Seq::empty()
    } else {
        env_args(es.drop_last()) + seq!["-e"@, es.last().0 + seq!['='] + es.last().1]
    }
}

/// The full `docker run` command line for the options `b`.
pub open spec fn docker_args(b: DockerRunSpec) -> Seq<Seq<char>> {
    seq!["docker"@, "run"@] + switch_arg("-i"@, b.interactive) + switch_arg(
        "--rm"@,
        b.remove_container,
    ) + repeated_arg("-a"@, b.attach_streams) + opt_arg("-u"@, b.user) + opt_arg(
        "--workdir"@,
        b.workdir,
    ) + volume_args(b.volumes) + env_args(b.env_vars) + opt_value(b.image) + match b.command {
        Some(c) => c,
        None => Seq::empty(),
    }
}

/// A builder for the image only.
pub open spec fn image_spec(image: Seq<char>) -> DockerRunSpec {
    DockerRunSpec {
        image: Some(image),
        command: None,
        remove_container: false,
        interactive: false,
        attach_streams: Seq::empty(),
        user: None,
        workdir: None,
        volumes: Seq::empty(),
        env_vars: Seq::empty(),
    }
}

fn push_volumes(args: &mut Vec<String>, vols: Vec<(String, String, Option<String>)>)
    ensures
        strings_view(final(args)@) == strings_view(old(args)@) + volume_args(volumes_view(vols@)),
{
    let ghost start = strings_view(args@);
    let ghost all = volumes_view(vols@);
    let mut i: usize = 0;
    assert(all.take(0) =~= Seq::<VolumeSpec>::empty());
    assert(start + volume_args(Seq::<VolumeSpec>::empty()) =~= start);
    while i < vols.len()
        invariant
            i <= vols@.len(),
            all == volumes_view(vols@),
            strings_view(args@) == start + volume_args(all.take(i as int)),
        decreases vols@.len() - i,
    {
        let (host, container, opts) = &vols[i];
        let mut spec: Vec<char> = chars_of(host.as_str());
        spec.push(':');
        push_all(&mut spec, &chars_of(container.as_str()));
        match opts {
            Some(o) => {
                spec.push(':');
                push_all(&mut spec, &chars_of(o.as_str()));
            },
            None => {},
        }
        assert(spec@ =~= volume_arg(all[i as int]));
        push_lit(args, "-v");
        push_string(args, string_of(&spec));
        assert(all.take(i + 1).drop_last() =~= all.take(i as int));
        assert(strings_view(args@) =~= start + volume_args(all.take(i + 1)));
        i = i + 1;
    }
    assert(all.take(vols@.len() as int) =~= all);
}

fn push_env(args: &mut Vec<String>, vars: Vec<(String, String)>)
    ensures
        strings_view(final(args)@) == strings_view(old(args)@) + env_args(env_view(vars@)),
{
    let ghost start = strings_view(args@);
    let ghost all = env_view(vars@);
    let mut i: usize = 0;
    assert(all.take(0) =~= Seq::<(Seq<char>, Seq<char>)>::empty());
    assert(start + env_args(Seq::<(Seq<char>, Seq<char>)>::empty()) =~= start);
    while i < vars.len()
        invariant
            i <= vars@.len(),
            all == env_view(vars@),
            strings_view(args@) == start + env_args(all.take(i as int)),
        decreases vars@.len() - i,
    {
        let (key, value) = &vars[i];
        let mut kv: Vec<char> = chars_of(key.as_str());
        kv.push('=');
        push_all(&mut kv, &chars_of(value.as_str()));
        assert(kv@ =~= all[i as int].0 + seq!['='] + all[i as int].1);
        assert(all.take(i + 1).last() == all[i as int]);
        push_lit(args, "-e");
        push_string(args, string_of(&kv));
        assert(all.take(i + 1).drop_last() =~= all.take(i as int));
        assert(strings_view(args@) =~= start + env_args(all.take(i + 1)));
        i = i + 1;
    }
    assert(all.take(vars@.len() as int) =~= all);
}

impl DockerRunBuilder {
    /// A builder that runs `image`.
    pub fn new(image: &str) -> (r: Self)
        ensures
            r@ == image_spec(image@),
    {
        let r = DockerRunBuilder {
            image: Some(owned(image)),
            command: None,
            remove_container: false,
            interactive: false,
            attach_streams: Vec::new(),
            user: None,
            workdir: None,
            volumes: Vec::new(),
            env_vars: Vec::new(),
        };
        assert(strings_view(r.attach_streams@) =~= Seq::<Seq<char>>::empty());
        assert(volumes_view(r.volumes@) =~= Seq::<VolumeSpec>::empty());
        assert(env_view(r.env_vars@) =~= Seq::<(Seq<char>, Seq<char>)>::empty());
        r
    }

    /// Removes the container when it exits.
    pub fn remove_container(self, enabled: bool) -> (r: Self)
        ensures
            r@ == (DockerRunSpec { remove_container: enabled, ..self@ }),
    {
        let mut s = self;
        s.remove_container = enabled;
        s
    }

    /// Keeps standard input open.
    pub fn interactive(self, enabled: bool) -> (r: Self)
        ensures
            r@ == (DockerRunSpec { interactive: enabled, ..self@ }),
    {
        let mut s = self;
        s.interactive = enabled;
        s
    }

    /// Attaches a standard stream.
    pub fn attach(self, stream: &str) -> (r: Self)
        ensures
            r@ == (DockerRunSpec { attach_streams: self@.attach_streams.push(stream@), ..self@ }),
    {
        let mut s = self;
        push_string(&mut s.attach_streams, owned(stream));
        s
    }

    /// Runs as `user`.
    pub fn user(self, user: &str) -> (r: Self)
        ensures
            r@ == (DockerRunSpec { user: Some(user@), ..self@ }),
    {
        let mut s = self;
        s.user = Some(owned(user));
        s
    }

    /// Sets the working directory inside the container.
    pub fn workdir(self, dir: &str) -> (r: Self)
        ensures
            r@ == (DockerRunSpec { workdir: Some(dir@), ..self@ }),
    {
        let mut s = self;
        s.workdir = Some(owned(dir));
        s
    }

    /// Mounts `host` at `container` with optional mount options.
    pub fn volume(self, host: &str, container: &str, options: Option<String>) -> (r: Self)
        ensures
            r@ == (DockerRunSpec {
                volumes: self@.volumes.push((host@, container@, opt_view(options))),
                ..self@
            }),
    {
        let mut s = self;
        s.volumes.push((owned(host), owned(container), options));
        assert(volumes_view(s.volumes@) =~= volumes_view(self.volumes@).push(
            (host@, container@, opt_view(options)),
        ));
        s
    }

    /// Sets an environment variable.
    pub fn env(self, key: &str, value: &str) -> (r: Self)
        ensures
            r@ == (DockerRunSpec { env_vars: self@.env_vars.push((key@, value@)), ..self@ }),
    {
        let mut s = self;
        s.env_vars.push((owned(key), owned(value)));
        assert(env_view(s.env_vars@) =~= env_view(self.env_vars@).push((key@, value@)));
        s
    }

    /// Sets the command run in the container, replacing any earlier one.
    pub fn command(self, command: Vec<String>) -> (r: Self)
        ensures
            r@ == (DockerRunSpec { command: Some(strings_view(command@)), ..self@ }),
    {
        let mut s = self;
        s.command = Some(command);
        s
    }

    /// The command line, program name first.
    pub fn build(self) -> (args: Vec<String>)
        ensures
            strings_view(args@) == docker_args(self@),
    {
        let ghost b = self@;
        let mut args: Vec<String> = Vec::new();
        push_lit(&mut args, "docker");
        push_lit(&mut args, "run");
        assert(strings_view(args@) =~= seq!["docker"@, "run"@]);
        push_switch(&mut args, "-i", self.interactive);
        push_switch(&mut args, "--rm", self.remove_container);
        push_repeated(&mut args, "-a", self.attach_streams);
        push_opt(&mut args, "-u", self.user);
        push_opt(&mut args, "--workdir", self.workdir);
        push_volumes(&mut args, self.volumes);
        push_env(&mut args, self.env_vars);
        crate::shared::cmdline::push_value(&mut args, self.image);
        match self.command {
            Some(c) => {
                let ghost before = strings_view(args@);
                crate::text::extend_strings(&mut args, c);
            },
            None => {
                assert(strings_view(args@) =~= strings_view(args@) + Seq::<Seq<char>>::empty());
            },
        }
        args
    }
}

/// The URL of the MCP endpoint of the server on `port`, as seen from a
/// container that reaches the host under the name `host`.
pub open spec fn mcp_url(host: Seq<char>, port: nat) -> Seq<char> {
    "http://"@ + host + seq![':'] + decimal(port) + "/mcp"@
}

/// The MCP URL that containers use to talk to the server on `port`;
/// `docker_host` is the host name chosen by `default_docker_host`.
pub fn ensure_default_mcp_url(docker_host: &str, port: u16) -> (url: String)
    ensures
        url@ == mcp_url(docker_host@, port as nat),
{
    let mut v: Vec<char> = chars_of("http://");
    push_all(&mut v, &chars_of(docker_host));
    v.push(':');
    push_decimal(&mut v, port as u64);
    push_all(&mut v, &chars_of("/mcp"));
    string_of(&v)
}

/// The host name containers use to reach the server: OrbStack's
/// `host.orb.internal` when the active Docker context (as printed by
/// `docker context show`, checked on macOS only) is `orbstack`, Docker's
/// `host.docker.internal` otherwise.
pub open spec fn docker_host_for(context: Option<Seq<char>>) -> Seq<char> {
    match context {
        Some(c) => if trim(c) == "orbstack"@ {
            "host.orb.internal"@
        } else {
            "host.docker.internal"@
        },
        None => "host.docker.internal"@,
    }
}

/// Chooses the host name from the output of `docker context show`, when
/// that command was run and succeeded.
pub fn default_docker_host(context_output: Option<&str>) -> (host: String)
    ensures
        host@ == docker_host_for(
            match context_output {
                Some(c) => Some(c@),
                None => None,
            },
        ),
{
    match context_output {
        Some(c) => {
            let t = trim_str(c);
            if str_eq(t.as_str(), "orbstack") {
                owned("host.orb.internal")
            } else {
                owned("host.docker.internal")
            }
        },
        None => owned("host.docker.internal"),
    }
}

} // verus!
