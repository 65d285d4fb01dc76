use vstd::prelude::*;
use vstd::string::StringExecFns;

verus! {

/// One step of provisioning a Windows machine.
#[derive(Clone, Copy, Debug, PartialEq, Eq, Structural)]
pub enum SetupStep {
    /// Install the Chocolatey package manager.
    InstallChocolatey,
    /// Install LLVM and OpenCV through Chocolatey.
    InstallEquipments,
    /// Point the OpenCV environment variables at the installed library.
    SetOpencvDirs,
    /// Put OpenCV's binaries on the machine's path.
    AddOpencvBin,
    /// Write the server program into the WSL home directory.
    WriteServerCode,
}

/// Where a batch of shell commands runs.
#[derive(Clone, Copy, Debug, PartialEq, Eq, Structural)]
pub enum Target {
    Wsl,
    Windows,
}

/// A batch of shell commands to run in one session, one after the other,
/// each only if the one before succeeded.
pub struct ShellJob {
    pub target: Target,
    pub commands: Vec<&'static str>,
    pub password: String,
}

/// The texts of a list of commands.
pub open spec fn command_texts(commands: Seq<&'static str>) -> Seq<Seq<char>> {
    Seq::new(commands.len(), |i: int| commands[i]@)
}

/// The commands joined into one line, `separator` between each two.
pub open spec fn joined(texts: Seq<Seq<char>>, separator: Seq<char>) -> Seq<char>
    decreases texts.len(),
{
    if texts.len() == 0 {
        Seq::empty()
    } else if texts.len() == 1 {
        texts[0]
    } else {
        joined(texts.drop_last(), separator) + separator + texts.last()
    }
}

/// The commands that install what a WSL machine needs to show graphics.
pub open spec fn wsl_package_commands() -> Seq<Seq<char>> {
    seq![
        "cd /"@,
        "sudo apt install -y build-essential cmake pkg-config libudev-dev libssl-dev libx11-dev libxi-dev libgl1-mesa-dev libglu1-mesa-dev mesa-common-dev libxrandr-dev libxxf86vm-dev libasound2-dev vulkan-tools mesa-vulkan-drivers"@,
        "echo 'export WGPU_BACKEND=vulkan' >> ~/.bashrc"@,
        "source ~/.bashrc"@,
    ]
}

impl ShellJob {
    /// The job's commands as one line, joined by ` && `.
    pub fn combined(&self) -> (line: String)
        ensures
            line@ == joined(command_texts(self.commands@), " && "@),
    {
        let ghost texts = command_texts(self.commands@);
        let mut line = String::new();
        let mut at: usize = 0;
        while at < self.commands.len()
            invariant
                at <= self.commands@.len(),
                texts == command_texts(self.commands@),
                line@ == joined(texts.take(at as int), " && "@),
            decreases self.commands@.len() - at,
        {
            proof {
                assert(texts.take(at + 1).drop_last() =~= texts.take(at as int));
                assert(texts.take(at + 1).last() == self.commands@[at as int]@);
            }
            if at > 0 {
                line.append(" && ");
            } else {
                assert(line@ + self.commands@[0]@ =~= self.commands@[0]@);
            }
            line.append(self.commands[at]);
            at = at + 1;
        }
        assert(texts.take(at as int) =~= texts);
        line
    }
}

/// The job that installs the graphics packages in WSL, with the password
/// to use if `sudo` asks for one.
pub fn wgpu_setup_main(password: &str) -> (job: ShellJob)
    ensures
        job.target == Target::Wsl,
        job.password@ == password@,
        command_texts(job.commands@) == wsl_package_commands(),
{
    let mut commands: Vec<&'static str> = Vec::new();
    commands.push("cd /");
    commands.push(
        "sudo apt install -y build-essential cmake pkg-config libudev-dev libssl-dev libx11-dev libxi-dev libgl1-mesa-dev libglu1-mesa-dev mesa-common-dev libxrandr-dev libxxf86vm-dev libasound2-dev vulkan-tools mesa-vulkan-drivers",
    );
    commands.push("echo 'export WGPU_BACKEND=vulkan' >> ~/.bashrc");
    commands.push("source ~/.bashrc");
    assert(command_texts(commands@) =~= wsl_package_commands());
    ShellJob { target: Target::Wsl, commands, password: password.to_owned() }
}

/// Setting up everything takes no step.
pub fn setup_all() -> (plan: Vec<SetupStep>)
    ensures
        plan@ == Seq::<SetupStep>::empty(),
{
    Vec::new()
}

/// Setting up the server takes one step: writing its code.
pub fn setup_server() -> (plan: Vec<SetupStep>)
    ensures
        plan@ == seq![SetupStep::WriteServerCode],
{
    let mut plan: Vec<SetupStep> = Vec::new();
    plan.push(SetupStep::WriteServerCode);
    assert(plan@ =~= seq![SetupStep::WriteServerCode]);
    plan
}

/// Setting up OpenCV takes four steps, in this order: the package manager,
/// the packages, the environment variables, the path.
pub fn setup_opencv() -> (plan: Vec<SetupStep>)
    ensures
        plan@ == seq![
            SetupStep::InstallChocolatey,
            SetupStep::InstallEquipments,
            SetupStep::SetOpencvDirs,
            SetupStep::AddOpencvBin,
        ],
{
    let mut plan: Vec<SetupStep> = Vec::new();
    plan.push(SetupStep::InstallChocolatey);
    plan.push(SetupStep::InstallEquipments);
    plan.push(SetupStep::SetOpencvDirs);
    plan.push(SetupStep::AddOpencvBin);
    assert(plan@ =~= seq![
        SetupStep::InstallChocolatey,
        SetupStep::InstallEquipments,
        SetupStep::SetOpencvDirs,
        SetupStep::AddOpencvBin,
    ]);
    plan
}

/// Setting up the WSL packages is the job of `wgpu_setup_main`.
pub fn setup_pkgs(password: &str) -> (job: ShellJob)
    ensures
        job.target == Target::Wsl,
        job.password@ == password@,
        command_texts(job.commands@) == wsl_package_commands(),
{
    wgpu_setup_main(password)
}

/// The step to take after `done` steps of a plan, the last of which ended
/// as `last_ok` says: the next one in order, unless a step failed or none
/// is left.
pub fn next_step(plan: &Vec<SetupStep>, done: usize, last_ok: bool) -> (step: Option<SetupStep>)
    ensures
        step == (if last_ok && done < plan@.len() {
            Some(plan@[done as int])
        } else {
            None
        }),
{
    if last_ok && done < plan.len() {
        Some(plan[done])
    } else {
        None
    }
}

/// The line that runs `command` in a PowerShell with raised privileges and
/// waits for it.
pub fn elevated(command: &str) -> (line: String)
    ensures
        line@
            == "Start-Process powershell -Verb RunAs -ArgumentList \"-NoProfile -ExecutionPolicy Bypass -Command "@
            + command@ + "\" -Wait"@,
{
    let mut line = String::new();
    line.append(
        "Start-Process powershell -Verb RunAs -ArgumentList \"-NoProfile -ExecutionPolicy Bypass -Command ",
    );
    line.append(command);
    line.append("\" -Wait");
    assert(line@
        =~= "Start-Process powershell -Verb RunAs -ArgumentList \"-NoProfile -ExecutionPolicy Bypass -Command "@
        + command@ + "\" -Wait"@);
    line
}

/// The line that runs `combined` from the home directory of `username`.
pub fn in_home(username: &str, combined: &str) -> (line: String)
    ensures
        line@ == "cd /home/"@ + username@ + " && "@ + combined@,
{
    let mut line = String::new();
    line.append("cd /home/");
    line.append(username);
    line.append(" && ");
    line.append(combined);
    assert(line@ =~= "cd /home/"@ + username@ + " && "@ + combined@);
    line
}

/// The line that runs `command` under `sudo` without asking for a password.
pub fn sudo_without_password(command: &str) -> (line: String)
    ensures
        line@ == "sudo -n bash -c \""@ + command@ + "\""@,
{
    let mut line = String::new();
    line.append("sudo -n bash -c \"");
    line.append(command);
    line.append("\"");
    assert(line@ =~= "sudo -n bash -c \""@ + command@ + "\""@);
    line
}

/// The line that runs `command` under `sudo` and feeds it `password`.
pub fn sudo_with_password(password: &str, command: &str) -> (line: String)
    ensures
        line@ == " echo "@ + password@ + " | sudo -S bash -c \""@ + command@ + "\""@,
{
    let mut line = String::new();
    line.append(" echo ");
    line.append(password);
    line.append(" | sudo -S bash -c \"");
    line.append(command);
    line.append("\"");
    assert(line@ =~= " echo "@ + password@ + " | sudo -S bash -c \""@ + command@ + "\""@);
    line
}

/// The WSL distribution to try after `tried` of them, the last of which
/// ended as `succeeded` says: the next of `Ubuntu`, `Ubuntu-22.04` and
/// `Ubuntu-24.04`, unless one succeeded or none is left.
pub fn next_distro(tried: usize, succeeded: bool) -> (distro: Option<&'static str>)
    ensures
        (succeeded || tried >= 3) <==> distro is None,
        !succeeded && tried == 0 ==> distro is Some && distro->Some_0@ == "Ubuntu"@,
        !succeeded && tried == 1 ==> distro is Some && distro->Some_0@ == "Ubuntu-22.04"@,
        !succeeded && tried == 2 ==> distro is Some && distro->Some_0@ == "Ubuntu-24.04"@,
{
    if succeeded {
        None
    } else if tried == 0 {
        Some("Ubuntu")
    } else if tried == 1 {
        Some("Ubuntu-22.04")
    } else if tried == 2 {
        Some("Ubuntu-24.04")
    } else {
        None
    }
}

/// The line that writes `content` into the server program's main file in
/// the home directory of `username`.
pub fn write_server_command(username: &str, content: &str) -> (line: String)
    ensures
        line@ == "cd /home/"@ + username@ + "/glvvv/src && echo '"@ + content@ + "' > main.rs"@,
{
    let mut line = String::new();
    line.append("cd /home/");
    line.append(username);
    line.append("/glvvv/src && echo '");
    line.append(content);
    line.append("' > main.rs");
    assert(line@ =~= "cd /home/"@ + username@ + "/glvvv/src && echo '"@ + content@
        + "' > main.rs"@);
    line
}

/// The line that asks, from the home directory of `username`, whether a
/// Rust compiler is installed.
pub fn rust_check_command(username: &str) -> (line: String)
    ensures
        line@ == "cd /home/"@ + username@ + " && which rustc"@,
{
    let mut line = String::new();
    line.append("cd /home/");
    line.append(username);
    line.append(" && which rustc");
    assert(line@ =~= "cd /home/"@ + username@ + " && which rustc"@);
    line
}

/// The line that installs Rust from the home directory of `username`.
pub fn rust_install_command(username: &str) -> (line: String)
    ensures
        line@ == "cd /home/"@ + username@
            + " && echo 1 | curl --proto '=https' --tlsv1.2 -sSf https://sh.rustup.rs | sh"@,
{
    let mut line = String::new();
    line.append("cd /home/");
    line.append(username);
    line.append(" && echo 1 | curl --proto '=https' --tlsv1.2 -sSf https://sh.rustup.rs | sh");
    assert(line@ =~= "cd /home/"@ + username@
        + " && echo 1 | curl --proto '=https' --tlsv1.2 -sSf https://sh.rustup.rs | sh"@);
    line
}

/// The longest output, in bytes, that is decoded for a report.
pub const DECODE_LIMIT: usize = 0x1000_0000;

/// The text that the bytes of a command's output stand for when they are
/// read as EUC-KR, the way the `encoding_rs` crate decodes them: a byte
/// order mark at the start selects UTF-8 or UTF-16 instead and is left
/// out, and every malformed sequence becomes U+FFFD.
pub uninterp spec fn euc_kr_text(bytes: Seq<u8>) -> Seq<char>;

/// Calls `encoding_rs::Encoding::decode` on `EUC_KR` and hands out the
/// decoded text.
///
/// Trusted: the text is `euc_kr_text` of the bytes. The call is left to
/// inputs short enough for the size of its buffer to be computed.
#[verifier::external_body]
fn decode_euc_kr(bytes: &[u8]) -> (text: String)
    requires
        bytes@.len() <= DECODE_LIMIT,
    ensures
        text@ == euc_kr_text(bytes@),
{
    let (text, _, _) = encoding_rs::EUC_KR.decode(bytes);
    text.into_owned()
}

/// Decodes the output of a command. Output longer than `DECODE_LIMIT` is
/// not decoded.
pub fn decode_output(bytes: &[u8]) -> (text: Option<String>)
    ensures
        bytes@.len() > DECODE_LIMIT <==> text is None,
        text is Some ==> text->Some_0@ == euc_kr_text(bytes@),
{
    if bytes.len() > DECODE_LIMIT {
        None
    } else {
        Some(decode_euc_kr(bytes))
    }
}

/// The text of the report on a command line that ran on `target`.
pub open spec fn report_text(
    target: Target,
    line: Seq<char>,
    succeeded: bool,
    output: Seq<char>,
) -> Seq<char> {
    if succeeded {
        "Command '"@ + line + "':\n"@ + output
    } else if target == Target::Wsl {
        "Error in command '"@ + line + "':\n비밀번호가 올바른지 확인하세요: "@ + output + "."@
    } else {
        "Error in command '"@ + line + "':\n"@ + output
    }
}

/// Writes the report on a command line that ran on `target`: the line,
/// then its decoded output; after a failure in WSL, with the advice to
/// check the password.
pub fn report(target: Target, line: &str, succeeded: bool, output: &str) -> (text: String)
    ensures
        text@ == report_text(target, line@, succeeded, output@),
{
    let mut text = String::new();
    if succeeded {
        text.append("Command '");
        text.append(line);
        text.append("':\n");
        text.append(output);
        assert(text@ =~= report_text(target, line@, succeeded, output@));
    } else {
        text.append("Error in command '");
        text.append(line);
        match target {
            Target::Wsl => {
                text.append("':\n비밀번호가 올바른지 확인하세요: ");
                text.append(output);
                text.append(".");
            },
            Target::Windows => {
                text.append("':\n");
                text.append(output);
            },
        }
        assert(text@ =~= report_text(target, line@, succeeded, output@));
    }
    text
}

} // verus!
