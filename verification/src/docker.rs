//! Docker buildx integration: the commands that register remote buildkitd instances as
//! builders, and the sockets through which the builders reach them.

use vstd::prelude::*;
use vstd::utf8;

use crate::encoding;
use crate::path;
use crate::path::FsPath;
use crate::text;

verus! {

/// A command line to be run.
#[derive(Debug, PartialEq, Eq)]
pub struct DockerCommand {
    pub program: String,
    pub args: Vec<String>,
}

/// How the run of a command ended.
#[derive(Debug, PartialEq, Eq)]
pub enum ProcessOutcome {
    /// The program could not be started; the text says why.
    NotStarted(String),
    /// The program ran, and reported success or failure.
    Exited { success: bool },
}

/// Why a builder could not be set up.
#[derive(Debug, PartialEq, Eq)]
pub enum DockerError {
    /// Docker could not be started; the text says why.
    NotInstalled(String),
    /// Docker ran, and refused the command.
    CommandFailed,
}

/// The architecture that a platform names: what follows its last `/`.
pub open spec fn arch_of(platform: Seq<char>) -> Seq<char> {
    text::after_last(platform, '/')
}

/// The name of the socket file for an architecture.
pub open spec fn socket_name(arch: Seq<char>) -> Seq<char> {
    "orbit-"@ + arch + ".sock"@
}

/// The socket for `platform` under the directory `dir`.
pub open spec fn socket_path(dir: Seq<u8>, platform: Seq<char>) -> Seq<u8> {
    path::path_join(dir, utf8::encode_utf8(socket_name(arch_of(platform))))
}

/// The arguments that make docker create a builder, or append to one.
pub open spec fn create_args(
    builder: Seq<char>,
    socket: Seq<u8>,
    platform: Seq<char>,
    append: bool,
) -> Seq<Seq<char>> {
    let args = seq![
        "buildx"@,
        "create"@,
        "--name"@,
        builder,
        "--driver"@,
        "remote"@,
        "unix://"@ + encoding::shown(socket),
        "--platform"@,
        platform,
    ];
    if append {
        args.push("--append"@)
    } else {
        args
    }
}

/// Whether the outcome of an inspection shows that the builder exists.
pub open spec fn shows_builder(inspect: ProcessOutcome) -> bool {
    inspect matches ProcessOutcome::Exited { success } && success
}

impl DockerCommand {
    /// Whether this command runs docker with the arguments `args`.
    pub open spec fn runs_docker(&self, args: Seq<Seq<char>>) -> bool {
        self.program@ == "docker"@ && text::texts(self.args@) == args
    }

    /// The arguments of this command.
    pub fn get_args(&self) -> (args: &Vec<String>)
        ensures
            args == self.args,
    {
        &self.args
    }
}

impl DockerError {
    /// The message that describes this error.
    pub fn to_string(&self) -> (message: String)
        ensures
            message@ == match self {
                DockerError::NotInstalled(reason) =>
                    "failed to run docker buildx create — is docker installed? "@ + reason@,
                DockerError::CommandFailed => "docker buildx create failed"@,
            },
    {
        match self {
            DockerError::NotInstalled(reason) =>
                "failed to run docker buildx create — is docker installed? ".to_owned().concat(
                reason.as_str(),
            ),
            DockerError::CommandFailed => "docker buildx create failed".to_owned(),
        }
    }
}

/// A `docker buildx` command with two more arguments.
fn buildx_command(verb: &str, builder_name: &str) -> (cmd: DockerCommand)
    ensures
        cmd.runs_docker(seq!["buildx"@, verb@, builder_name@]),
{
    let cmd = DockerCommand {
        program: "docker".to_owned(),
        args: vec!["buildx".to_owned(), verb.to_owned(), builder_name.to_owned()],
    };
    assert(text::texts(cmd.args@) =~= seq!["buildx"@, verb@, builder_name@]);
    cmd
}

/// The command that creates the builder `builder_name` for a platform, or, with `append`, adds
/// the platform to it. The builder reaches buildkitd through the socket at `socket_path`.
pub fn buildx_create_command(
    builder_name: &str,
    socket_path: &FsPath,
    platform: &str,
    append: bool,
) -> (cmd: DockerCommand)
    ensures
        cmd.runs_docker(create_args(builder_name@, socket_path@, platform@, append)),
{
    let socket_url: String = "unix://".to_owned().concat(socket_path.display().as_str());
    let mut args: Vec<String> = vec![
        "buildx".to_owned(),
        "create".to_owned(),
        "--name".to_owned(),
        builder_name.to_owned(),
        "--driver".to_owned(),
        "remote".to_owned(),
        socket_url,
        "--platform".to_owned(),
        platform.to_owned(),
    ];
    if append {
        args.push("--append".to_owned());
    }
    let cmd = DockerCommand { program: "docker".to_owned(), args };
    assert(text::texts(cmd.args@) =~= create_args(builder_name@, socket_path@, platform@, append));
    cmd
}

/// The command that inspects a builder. It succeeds if the builder exists.
pub fn buildx_inspect_command(builder_name: &str) -> (cmd: DockerCommand)
    ensures
        cmd.runs_docker(seq!["buildx"@, "inspect"@, builder_name@]),
{
    buildx_command("inspect", builder_name)
}

/// The command that removes a builder.
pub fn buildx_remove_command(builder_name: &str) -> (cmd: DockerCommand)
    ensures
        cmd.runs_docker(seq!["buildx"@, "rm"@, builder_name@]),
{
    buildx_command("rm", builder_name)
}

/// The command that selects a builder.
pub fn buildx_use_command(builder_name: &str) -> (cmd: DockerCommand)
    ensures
        cmd.runs_docker(seq!["buildx"@, "use"@, builder_name@]),
{
    buildx_command("use", builder_name)
}

/// Whether the outcome of [`buildx_inspect_command`] shows that the builder exists. Where
/// docker could not be started there is no builder.
pub fn buildx_builder_exists(inspect: &ProcessOutcome) -> (exists: bool)
    ensures
        exists == shows_builder(*inspect),
{
    match inspect {
        ProcessOutcome::Exited { success } => *success,
        ProcessOutcome::NotStarted(_) => false,
    }
}

/// The command that makes sure that a builder exists with an endpoint for a platform, given
/// the outcome of [`buildx_inspect_command`]: it creates a builder that does not exist, and
/// appends to one that does.
pub fn buildx_ensure_builder(
    builder_name: &str,
    socket_path: &FsPath,
    platform: &str,
    inspect: &ProcessOutcome,
) -> (cmd: DockerCommand)
    ensures
        cmd.runs_docker(
            create_args(builder_name@, socket_path@, platform@, shows_builder(*inspect)),
        ),
{
    let exists: bool = buildx_builder_exists(inspect);
    buildx_create_command(builder_name, socket_path, platform, exists)
}

/// What the outcome of the command from [`buildx_ensure_builder`] means for the builder.
pub fn buildx_ensure_result(create: ProcessOutcome) -> (res: Result<(), DockerError>)
    ensures
        match create {
            ProcessOutcome::NotStarted(reason) => res == Err::<(), DockerError>(
                DockerError::NotInstalled(reason),
            ),
            ProcessOutcome::Exited { success: true } => res == Ok::<(), DockerError>(()),
            ProcessOutcome::Exited { success: false } => res == Err::<(), DockerError>(
                DockerError::CommandFailed,
            ),
        },
{
    match create {
        ProcessOutcome::NotStarted(reason) => Err(DockerError::NotInstalled(reason)),
        ProcessOutcome::Exited { success } => {
            if success {
                Ok(())
            } else {
                Err(DockerError::CommandFailed)
            }
        },
    }
}

/// The architecture that a platform names: `linux/arm64` names `arm64`.
pub fn platform_to_arch<'a>(platform: &'a str) -> (arch: &'a str)
    requires
        platform@.contains('/'),
    ensures
        arch@ == arch_of(platform@),
{
    text::after_last_of(platform, '/')
}

/// The socket for a platform: that of `linux/arm64` under `/tmp` is `/tmp/orbit-arm64.sock`.
pub fn socket_path_for_platform(socket_dir: &FsPath, platform: &str) -> (path: FsPath)
    requires
        platform@.contains('/'),
    ensures
        path@ == socket_path(socket_dir@, platform@),
{
    let name: String = "orbit-".to_owned().concat(platform_to_arch(platform)).concat(".sock");
    socket_dir.join(name.as_str())
}

/// The first byte of a socket's name is not a separator.
proof fn lemma_socket_name_is_relative(arch: Seq<char>)
    ensures
        utf8::encode_utf8(socket_name(arch)).len() > 0,
        utf8::encode_utf8(socket_name(arch))[0] != path::SEPARATOR,
{
    let name = socket_name(arch);
    reveal_strlit("orbit-");
    assert(name[0] == 'o');
    assert(utf8::encode_utf8(name) == utf8::encode_scalar('o' as u32) + utf8::encode_utf8(
        name.drop_first(),
    ));
    assert(utf8::encode_scalar('o' as u32) =~= seq![111u8]) by {
        assert(0x6fu32 & 0x7f == 0x6f) by (bit_vector);
    }
}

/// Two platforms share a socket in a directory exactly if they name the same architecture.
pub proof fn sockets_tell_architectures_apart(dir: Seq<u8>, p: Seq<char>, q: Seq<char>)
    ensures
        socket_path(dir, p) == socket_path(dir, q) <==> arch_of(p) == arch_of(q),
{
    let np = socket_name(arch_of(p));
    let nq = socket_name(arch_of(q));
    if socket_path(dir, p) == socket_path(dir, q) {
        lemma_socket_name_is_relative(arch_of(p));
        lemma_socket_name_is_relative(arch_of(q));
        let ep = utf8::encode_utf8(np);
        let eq = utf8::encode_utf8(nq);
        let base = if dir.len() == 0 || dir.last() == path::SEPARATOR {
            dir
        } else {
            dir.push(path::SEPARATOR)
        };
        assert(base + ep == base + eq);
        assert((base + ep).skip(base.len() as int) =~= ep);
        assert((base + eq).skip(base.len() as int) =~= eq);
        utf8::encode_utf8_decode_utf8(np);
        utf8::encode_utf8_decode_utf8(nq);
        assert(np == nq);
        let a = "orbit-"@.len() as int;
        let z = ".sock"@.len() as int;
        assert(np.subrange(a, np.len() - z) =~= arch_of(p));
        assert(nq.subrange(a, nq.len() - z) =~= arch_of(q));
    }
}

/// The socket of a platform lies in the directory, under a name made of `orbit-`, the architecture
/// that stands behind the last `/` of the platform, and `.sock`.
pub proof fn sockets_are_named_after_architectures(
    dir: Seq<u8>,
    system: Seq<char>,
    arch: Seq<char>,
)
    requires
        !arch.contains('/'),
    ensures
        arch_of(system.push('/') + arch) == arch,
        socket_path(dir, system.push('/') + arch) == (if dir.len() == 0 || dir.last() == 47 {
            dir
        } else {
            dir.push(47)
        }) + utf8::encode_utf8("orbit-"@ + arch + ".sock"@),
{
    text::after_last_of_opened(system.push('/'), arch, '/');
    lemma_socket_name_is_relative(arch);
}

/// A builder is created under its name, with the remote driver, for one platform, at the address
/// of the socket; `--append` is added at the end exactly where the builder is to be kept.
pub proof fn builders_are_created_for_one_socket_and_platform(
    builder: Seq<char>,
    socket: Seq<u8>,
    platform: Seq<char>,
    append: bool,
)
    ensures
        ({
            let args = create_args(builder, socket, platform, append);
            &&& args.len() == if append {
                10nat
            } else {
                9nat
            }
            &&& args[0] == "buildx"@ && args[1] == "create"@
            &&& args[2] == "--name"@ && args[3] == builder
            &&& args[4] == "--driver"@ && args[5] == "remote"@
            &&& args[6] == "unix://"@ + encoding::shown(socket)
            &&& args[7] == "--platform"@ && args[8] == platform
            &&& append ==> args[9] == "--append"@
        }),
{
}

/// A builder exists exactly if its inspection ran and succeeded.
pub proof fn only_success_shows_a_builder(inspect: ProcessOutcome)
    ensures
        shows_builder(inspect) <==> inspect == (ProcessOutcome::Exited { success: true }),
{
}

} // verus!
