//! Release packaging: the commands that build, bundle and sign the
//! installers of each platform, the names of the artifacts, and the checks
//! on tools, command results, versions and checksums. The caller runs the
//! commands and touches the file system.

use vstd::prelude::*;
use vstd::string::*;
use sha2::Digest;
use crate::text::{signed_decimal, i64_to_decimal, trim, trim_text, occurs_in, contains_text, push_char};
use crate::types::opt_view;

verus! {

/// Why packaging failed.
#[derive(Debug, Clone, PartialEq, Eq)]
pub enum PackagingError {
    CommandError(String),
    Other(String),
    MissingCommand(String),
}

pub enum PackagingErrorView {
    CommandError(Seq<char>),
    Other(Seq<char>),
    MissingCommand(Seq<char>),
}

impl View for PackagingError {
    type V = PackagingErrorView;

    open spec fn view(&self) -> PackagingErrorView {
        match self {
            PackagingError::CommandError(m) => PackagingErrorView::CommandError(m@),
            PackagingError::Other(m) => PackagingErrorView::Other(m@),
            PackagingError::MissingCommand(m) => PackagingErrorView::MissingCommand(m@),
        }
    }
}

/// The text of a packaging error, as its `Display` shows it.
pub open spec fn packaging_error_text(e: PackagingErrorView) -> Seq<char> {
    match e {
        PackagingErrorView::CommandError(m) => "Command Error: "@ + m,
        PackagingErrorView::Other(m) => "Other Error: "@ + m,
        PackagingErrorView::MissingCommand(m) => "Missing Command: "@ + m,
    }
}

impl PackagingError {
    /// The text of the error, as its `Display` shows it.
    pub fn message(&self) -> (r: String)
        ensures
            r@ == packaging_error_text(self@),
    {
        let (mut head, m) = match self {
            PackagingError::CommandError(m) => (String::from_str("Command Error: "), m),
            PackagingError::Other(m) => (String::from_str("Other Error: "), m),
            PackagingError::MissingCommand(m) => (String::from_str("Missing Command: "), m),
        };
        head.append(m.as_str());
        head
    }
}

/// The view of a result without a value.
pub open spec fn outcome_view(r: Result<(), PackagingError>) -> Result<(), PackagingErrorView> {
    match r {
        Ok(()) => Ok(()),
        Err(e) => Err(e@),
    }
}

fn same_text(a: &str, b: &str) -> (r: bool)
    ensures
        r == (a@ == b@),
{
    let x = String::from_str(a);
    let y = String::from_str(b);
    x.eq(&y)
}

/// How a missing tool is named in the error, with a hint on installing it.
pub open spec fn tool_hint(tool: Seq<char>) -> Seq<char> {
    if tool == "cargo-deb"@ {
        "cargo-deb (install with `cargo install cargo-deb`)"@
    } else if tool == "cargo-bundle"@ {
        "cargo-bundle (install with `cargo install cargo-bundle`)"@
    } else if tool == "cargo-bundle-licenses"@ {
        "cargo-bundle-licenses (install with `cargo install cargo-bundle-licenses`)"@
    } else if tool == "makensis"@ {
        "makensis (install NSIS)"@
    } else if tool == "dpkg-sig"@ {
        "dpkg-sig (install via your package manager)"@
    } else if tool == "signtool"@ {
        "signtool (part of the Windows SDK)"@
    } else if tool == "codesign"@ || tool == "xcrun"@ || tool == "hdiutil"@ {
        "Xcode command line tools (install Xcode CLI tools)"@
    } else {
        tool
    }
}

fn tool_hint_text(tool: &str) -> (r: String)
    ensures
        r@ == tool_hint(tool@),
{
    if same_text(tool, "cargo-deb") {
        String::from_str("cargo-deb (install with `cargo install cargo-deb`)")
    } else if same_text(tool, "cargo-bundle") {
        String::from_str("cargo-bundle (install with `cargo install cargo-bundle`)")
    } else if same_text(tool, "cargo-bundle-licenses") {
        String::from_str(
            "cargo-bundle-licenses (install with `cargo install cargo-bundle-licenses`)",
        )
    } else if same_text(tool, "makensis") {
        String::from_str("makensis (install NSIS)")
    } else if same_text(tool, "dpkg-sig") {
        String::from_str("dpkg-sig (install via your package manager)")
    } else if same_text(tool, "signtool") {
        String::from_str("signtool (part of the Windows SDK)")
    } else if same_text(tool, "codesign") || same_text(tool, "xcrun") || same_text(
        tool,
        "hdiutil",
    ) {
        String::from_str("Xcode command line tools (install Xcode CLI tools)")
    } else {
        String::from_str(tool)
    }
}

/// Succeeds when the tool is available; otherwise fails naming the tool
/// with a hint on how to install it.
pub fn ensure_tool(tool: &str, available: bool) -> (r: Result<(), PackagingError>)
    ensures
        available ==> r is Ok,
        !available ==> r is Err && r->Err_0@ == PackagingErrorView::MissingCommand(tool_hint(tool@)),
{
    if available {
        Ok(())
    } else {
        Err(PackagingError::MissingCommand(tool_hint_text(tool)))
    }
}

/// A command to run: the program and its arguments.
#[derive(Debug, Clone, PartialEq, Eq)]
pub struct CommandSpec {
    pub program: String,
    pub args: Vec<String>,
}

pub struct CommandView {
    pub program: Seq<char>,
    pub args: Seq<Seq<char>>,
}

/// The views of a list of strings.
pub open spec fn strs_view(v: Seq<String>) -> Seq<Seq<char>> {
    v.map_values(|s: String| s@)
}

impl View for CommandSpec {
    type V = CommandView;

    open spec fn view(&self) -> CommandView {
        CommandView { program: self.program@, args: strs_view(self.args@) }
    }
}

/// The views of a list of commands.
pub open spec fn commands_view(v: Seq<CommandSpec>) -> Seq<CommandView> {
    v.map_values(|c: CommandSpec| c@)
}

fn push_str(v: &mut Vec<String>, s: &str)
    ensures
        strs_view(final(v)@) == strs_view(old(v)@).push(s@),
{
    v.push(String::from_str(s));
    assert(strs_view(v@) =~= strs_view(old(v)@).push(s@));
}

fn push_command(v: &mut Vec<CommandSpec>, c: CommandSpec)
    ensures
        commands_view(final(v)@) == commands_view(old(v)@).push(c@),
{
    let ghost x = c@;
    v.push(c);
    assert(commands_view(v@) =~= commands_view(old(v)@).push(x));
}

fn new_command(program: &str) -> (r: CommandSpec)
    ensures
        r@.program == program@,
        r@.args.len() == 0,
{
    let r = CommandSpec { program: String::from_str(program), args: Vec::new() };
    assert(r@.args =~= Seq::<Seq<char>>::empty());
    r
}

/// `cargo bundle-licenses --format json --output licenses.json`.
pub open spec fn licenses_command() -> CommandView {
    CommandView {
        program: "cargo"@,
        args: seq!["bundle-licenses"@, "--format"@, "json"@, "--output"@, "licenses.json"@],
    }
}

/// `cargo build --release`.
pub open spec fn release_command() -> CommandView {
    CommandView { program: "cargo"@, args: seq!["build"@, "--release"@] }
}

/// The command that gathers the licenses of the dependencies into
/// `licenses.json`.
pub fn bundle_licenses() -> (r: CommandSpec)
    ensures
        r@ == licenses_command(),
{
    let mut c = new_command("cargo");
    push_str(&mut c.args, "bundle-licenses");
    push_str(&mut c.args, "--format");
    push_str(&mut c.args, "json");
    push_str(&mut c.args, "--output");
    push_str(&mut c.args, "licenses.json");
    assert(c@.args =~= licenses_command().args);
    c
}

/// The command that builds the release binary.
pub fn build_release() -> (r: CommandSpec)
    ensures
        r@ == release_command(),
{
    let mut c = new_command("cargo");
    push_str(&mut c.args, "build");
    push_str(&mut c.args, "--release");
    assert(c@.args =~= release_command().args);
    c
}

/// The tools that must be available before a command runs: for a `cargo`
/// subcommand that a plugin provides (`deb`, `bundle`, `bundle-licenses`)
/// the plugin, then the program itself.
pub open spec fn required_tools_of(c: CommandView) -> Seq<Seq<char>> {
    let plugin: Seq<Seq<char>> = if c.program == "cargo"@ && c.args.len() > 0 {
        if c.args[0] == "deb"@ {
            seq!["cargo-deb"@]
        } else if c.args[0] == "bundle"@ {
            seq!["cargo-bundle"@]
        } else if c.args[0] == "bundle-licenses"@ {
            seq!["cargo-bundle-licenses"@]
        } else {
            Seq::empty()
        }
    } else {
        Seq::empty()
    };
    plugin.push(c.program)
}

/// The tools to check, in order, before running the command.
pub fn required_tools(c: &CommandSpec) -> (r: Vec<String>)
    ensures
        strs_view(r@) == required_tools_of(c@),
{
    let mut r: Vec<String> = Vec::new();
    if same_text(c.program.as_str(), "cargo") && c.args.len() > 0 {
        let first = c.args[0].as_str();
        assert(first@ == c@.args[0]);
        if same_text(first, "deb") {
            push_str(&mut r, "cargo-deb");
        } else if same_text(first, "bundle") {
            push_str(&mut r, "cargo-bundle");
        } else if same_text(first, "bundle-licenses") {
            push_str(&mut r, "cargo-bundle-licenses");
        }
    }
    let ghost before = strs_view(r@);
    push_str(&mut r, c.program.as_str());
    proof {
        if c@.program == "cargo"@ && c@.args.len() > 0 && (c@.args[0] == "deb"@ || c@.args[0]
            == "bundle"@ || c@.args[0] == "bundle-licenses"@) {
            assert(before.len() == 1);
        } else {
            assert(before =~= Seq::<Seq<char>>::empty());
        }
        assert(strs_view(r@) =~= required_tools_of(c@));
    }
    r
}

/// How an exit code is named in an error: the number, or `signal` where the
/// process was ended by a signal.
pub open spec fn exit_text(code: Option<i32>) -> Seq<char> {
    match code {
        Some(c) => signed_decimal(c as int),
        None => "signal"@,
    }
}

/// What a finished command comes to: success on exit code zero; otherwise
/// an error naming the program and the code, with the trimmed error output
/// where there is any.
pub open spec fn command_result(program: Seq<char>, code: Option<i32>, stderr: Seq<char>) -> Result<
    (),
    PackagingErrorView,
> {
    if code == Some(0i32) {
        Ok(())
    } else {
        let t = trim(stderr);
        Err(
            PackagingErrorView::CommandError(
                program + " exited with code "@ + exit_text(code) + if t.len() == 0 {
                    Seq::empty()
                } else {
                    ": "@ + t
                },
            ),
        )
    }
}

/// Judges a finished command by its exit code and error output.
pub fn command_outcome(program: &str, code: Option<i32>, stderr: &str) -> (r: Result<(), PackagingError>)
    ensures
        outcome_view(r) == command_result(program@, code, stderr@),
{
    if code == Some(0i32) {
        return Ok(());
    }
    let mut m = String::from_str(program);
    m.append(" exited with code ");
    match code {
        Some(c) => {
            let d = i64_to_decimal(c as i64);
            m.append(d.as_str());
        },
        None => {
            m.append("signal");
        },
    }
    let t = trim_text(stderr);
    let ghost before = m@;
    assert(before =~= program@ + " exited with code "@ + exit_text(code));
    if t.unicode_len() > 0 {
        m.append(": ");
        m.append(t.as_str());
        assert(m@ =~= before + (": "@ + t@));
    } else {
        assert(m@ =~= before + Seq::<char>::empty());
    }
    Err(PackagingError::CommandError(m))
}

/// The error for a command that could not be started.
pub fn spawn_failure(program: &str, detail: &str) -> (r: PackagingError)
    ensures
        r@ == PackagingErrorView::CommandError("Failed to execute "@ + program@ + ": "@ + detail@),
{
    let mut m = String::from_str("Failed to execute ");
    m.append(program);
    m.append(": ");
    m.append(detail);
    PackagingError::CommandError(m)
}


/// Views of a slice of texts.
pub open spec fn texts_view(v: Seq<&str>) -> Seq<Seq<char>> {
    v.map_values(|s: &str| s@)
}

fn command_of(program: &str, args: &[&str]) -> (c: CommandSpec)
    ensures
        c@.program == program@,
        c@.args == texts_view(args@),
{
    let mut c = new_command(program);
    let mut i: usize = 0;
    while i < args.len()
        invariant
            i <= args@.len(),
            c@.program == program@,
            c@.args == texts_view(args@).take(i as int),
        decreases args.len() - i,
    {
        push_str(&mut c.args, args[i]);
        assert(c@.args =~= texts_view(args@).take(i + 1));
        i = i + 1;
    }
    assert(texts_view(args@).take(i as int) =~= texts_view(args@));
    c
}

/// A command as a view.
pub open spec fn cv(program: Seq<char>, args: Seq<Seq<char>>) -> CommandView {
    CommandView { program, args }
}

/// Where the macOS app bundle is built.
pub open spec fn mac_app_path() -> Seq<char> {
    "target/release/bundle/osx/GooglePicz.app"@
}

/// Where the macOS disk image is built.
pub open spec fn mac_dmg_path() -> Seq<char> {
    "target/release/GooglePicz.dmg"@
}

/// The commands that build the macOS disk image: bundle the app, sign and
/// verify it when a signing identity is given, build the image, sign and
/// verify the image too, and notarize and staple it when Apple credentials
/// (an Apple ID and a password) are given.
pub open spec fn macos_plan(identity: Seq<char>, notarize: Option<(Seq<char>, Seq<char>)>) -> Seq<
    CommandView,
> {
    let app = mac_app_path();
    let dmg = mac_dmg_path();
    let signed = identity.len() > 0;
    seq![cv("cargo"@, seq!["bundle"@, "--release"@])] + (if signed {
        seq![
            cv("codesign"@, seq!["--deep"@, "--force"@, "-s"@, identity, app]),
            cv("codesign"@, seq!["--verify"@, "--deep"@, "--strict"@, app]),
        ]
    } else {
        Seq::empty()
    }) + seq![
        cv(
            "hdiutil"@,
            seq![
                "create"@,
                "-volname"@,
                "GooglePicz"@,
                "-srcfolder"@,
                app,
                "-ov"@,
                "-format"@,
                "UDZO"@,
                dmg,
            ],
        ),
    ] + (if signed {
        seq![
            cv("codesign"@, seq!["--force"@, "-s"@, identity, dmg]),
            cv("codesign"@, seq!["--verify"@, dmg]),
        ]
    } else {
        Seq::empty()
    }) + match notarize {
        Some((id, pw)) => seq![
            cv(
                "xcrun"@,
                seq![
                    "notarytool"@,
                    "submit"@,
                    dmg,
                    "--apple-id"@,
                    id,
                    "--password"@,
                    pw,
                    "--wait"@,
                ],
            ),
            cv("xcrun"@, seq!["stapler"@, "staple"@, dmg]),
            cv("xcrun"@, seq!["stapler"@, "validate"@, dmg]),
        ],
        None => Seq::empty(),
    }
}

/// The commands that build the macOS disk image (see `macos_plan`).
pub fn macos_installer_commands(identity: &str, notarize: &Option<(String, String)>) -> (r: Vec<
    CommandSpec,
>)
    ensures
        commands_view(r@) == macos_plan(
            identity@,
            match notarize {
                Some(p) => Some((p.0@, p.1@)),
                None => None,
            },
        ),
{
    let app = "target/release/bundle/osx/GooglePicz.app";
    let dmg = "target/release/GooglePicz.dmg";
    proof {
        reveal_strlit("target/release/bundle/osx/GooglePicz.app");
        reveal_strlit("target/release/GooglePicz.dmg");
        assert(app@ == mac_app_path());
        assert(dmg@ == mac_dmg_path());
    }
    let mut r: Vec<CommandSpec> = Vec::new();
    let c = command_of("cargo", &["bundle", "--release"]);
    assert(c@.args =~= seq!["bundle"@, "--release"@]);
    push_command(&mut r, c);
    let ghost p0 = commands_view(r@);
    assert(p0 =~= seq![cv("cargo"@, seq!["bundle"@, "--release"@])]);
    let signed = identity.unicode_len() > 0;
    if signed {
        let c = command_of("codesign", &["--deep", "--force", "-s", identity, app]);
        assert(c@.args =~= seq!["--deep"@, "--force"@, "-s"@, identity@, app@]);
        push_command(&mut r, c);
        let c = command_of("codesign", &["--verify", "--deep", "--strict", app]);
        assert(c@.args =~= seq!["--verify"@, "--deep"@, "--strict"@, app@]);
        push_command(&mut r, c);
    }
    let ghost p1 = commands_view(r@);
    assert(p1 =~= p0 + (if signed {
        seq![
            cv("codesign"@, seq!["--deep"@, "--force"@, "-s"@, identity@, app@]),
            cv("codesign"@, seq!["--verify"@, "--deep"@, "--strict"@, app@]),
        ]
    } else {
        Seq::empty()
    }));
    let c = command_of(
        "hdiutil",
        &["create", "-volname", "GooglePicz", "-srcfolder", app, "-ov", "-format", "UDZO", dmg],
    );
    assert(c@.args =~= seq![
        "create"@,
        "-volname"@,
        "GooglePicz"@,
        "-srcfolder"@,
        app@,
        "-ov"@,
        "-format"@,
        "UDZO"@,
        dmg@,
    ]);
    push_command(&mut r, c);
    let ghost p2 = commands_view(r@);
    if signed {
        let c = command_of("codesign", &["--force", "-s", identity, dmg]);
        assert(c@.args =~= seq!["--force"@, "-s"@, identity@, dmg@]);
        push_command(&mut r, c);
        let c = command_of("codesign", &["--verify", dmg]);
        assert(c@.args =~= seq!["--verify"@, dmg@]);
        push_command(&mut r, c);
    }
    let ghost p3 = commands_view(r@);
    assert(p3 =~= p2 + (if signed {
        seq![
            cv("codesign"@, seq!["--force"@, "-s"@, identity@, dmg@]),
            cv("codesign"@, seq!["--verify"@, dmg@]),
        ]
    } else {
        Seq::empty()
    }));
    match notarize {
        Some((id, pw)) => {
            let c = command_of(
                "xcrun",
                &[
                    "notarytool",
                    "submit",
                    dmg,
                    "--apple-id",
                    id.as_str(),
                    "--password",
                    pw.as_str(),
                    "--wait",
                ],
            );
            assert(c@.args =~= seq![
                "notarytool"@,
                "submit"@,
                dmg@,
                "--apple-id"@,
                id@,
                "--password"@,
                pw@,
                "--wait"@,
            ]);
            push_command(&mut r, c);
            let c = command_of("xcrun", &["stapler", "staple", dmg]);
            assert(c@.args =~= seq!["stapler"@, "staple"@, dmg@]);
            push_command(&mut r, c);
            let c = command_of("xcrun", &["stapler", "validate", dmg]);
            assert(c@.args =~= seq!["stapler"@, "validate"@, dmg@]);
            push_command(&mut r, c);
            assert(commands_view(r@) =~= p3 + seq![
                cv(
                    "xcrun"@,
                    seq![
                        "notarytool"@,
                        "submit"@,
                        dmg@,
                        "--apple-id"@,
                        id@,
                        "--password"@,
                        pw@,
                        "--wait"@,
                    ],
                ),
                cv("xcrun"@, seq!["stapler"@, "staple"@, dmg@]),
                cv("xcrun"@, seq!["stapler"@, "validate"@, dmg@]),
            ]);
        },
        None => {
            assert(commands_view(r@) =~= p3 + Seq::<CommandView>::empty());
        },
    }
    r
}

/// The fields of `s` between dots (`split('.')`): one more than the dots.
pub open spec fn split_dots(s: Seq<char>) -> Seq<Seq<char>>
    decreases s.len(),
{
    if s.len() == 0 {
        seq![Seq::empty()]
    } else {
        let prev = split_dots(s.drop_last());
        if s.last() == '.' {
            prev.push(Seq::empty())
        } else {
            prev.update(prev.len() - 1, prev.last().push(s.last()))
        }
    }
}

proof fn lemma_split_dots_len(s: Seq<char>)
    ensures
        split_dots(s).len() >= 1,
    decreases s.len(),
{
    if s.len() > 0 {
        lemma_split_dots_len(s.drop_last());
    }
}

/// The `i`-th dot-separated field of a version, or `0` where there are
/// fewer fields.
pub open spec fn version_part(version: Seq<char>, i: int) -> Seq<char> {
    if i < split_dots(version).len() {
        split_dots(version)[i]
    } else {
        "0"@
    }
}

/// The major, minor and patch parts of a version (`0` for a missing part).
pub fn version_parts(version: &str) -> (r: (String, String, String))
    ensures
        r.0@ == version_part(version@, 0),
        r.1@ == version_part(version@, 1),
        r.2@ == version_part(version@, 2),
{
    let n = version.unicode_len();
    let mut done: Vec<String> = Vec::new();
    let mut current = String::new();
    let mut i: usize = 0;
    proof {
        assert(version@.take(0) =~= Seq::<char>::empty());
        assert(strs_view(done@).push(current@) =~= split_dots(version@.take(0)));
    }
    while i < n
        invariant
            i <= n,
            n == version@.len(),
            strs_view(done@).push(current@) == split_dots(version@.take(i as int)),
        decreases n - i,
    {
        let c = version.get_char(i);
        proof {
            assert(version@.take(i + 1).drop_last() =~= version@.take(i as int));
            lemma_split_dots_len(version@.take(i as int));
        }
        if c == '.' {
            let ghost d0 = strs_view(done@);
            let finished = current;
            done.push(finished);
            current = String::new();
            proof {
                assert(strs_view(done@) =~= d0.push(finished@));
                assert(strs_view(done@).push(current@) =~= split_dots(version@.take(i + 1)));
            }
        } else {
            push_char(&mut current, c);
            proof {
                assert(strs_view(done@).push(current@) =~= split_dots(version@.take(i + 1)));
            }
        }
        i = i + 1;
    }
    proof {
        assert(version@.take(n as int) =~= version@);
    }
    let ghost d0 = strs_view(done@);
    let last = current;
    done.push(last);
    proof {
        assert(strs_view(done@) =~= d0.push(last@));
    }
    let major = if done.len() > 0 { done[0].clone() } else { String::from_str("0") };
    let minor = if done.len() > 1 { done[1].clone() } else { String::from_str("0") };
    let patch = if done.len() > 2 { done[2].clone() } else { String::from_str("0") };
    proof {
        lemma_split_dots_len(version@);
    }
    (major, minor, patch)
}

/// Where the Windows release binary is built.
pub open spec fn win_release_exe() -> Seq<char> {
    "target\\release\\googlepicz.exe"@
}

/// Where the Windows installer of a version is written.
pub open spec fn setup_path(version: Seq<char>) -> Seq<char> {
    "target/windows/GooglePicz-"@ + version + "-Setup.exe"@
}

/// Signing and verifying one Windows binary.
pub open spec fn sign_steps(cert: Seq<char>, password: Seq<char>, target: Seq<char>) -> Seq<
    CommandView,
> {
    seq![
        cv(
            "signtool"@,
            seq![
                "sign"@,
                "/f"@,
                cert,
                "/p"@,
                password,
                "/fd"@,
                "sha256"@,
                "/tr"@,
                "http://timestamp.digicert.com"@,
                "/td"@,
                "sha256"@,
                target,
            ],
        ),
        cv("signtool"@, seq!["verify"@, "/pa"@, target]),
    ]
}

/// The commands that build the Windows installer: the NSIS script with the
/// version's major, minor and patch parts, then, when a certificate path
/// (with its password) is given and is not empty, signing and verifying the
/// release binary and the installer.
pub open spec fn windows_plan(version: Seq<char>, signing: Option<(Seq<char>, Seq<char>)>) -> Seq<
    CommandView,
> {
    seq![
        cv(
            "makensis"@,
            seq![
                "/DAPP_VERSION_MAJOR="@ + version_part(version, 0),
                "/DAPP_VERSION_MINOR="@ + version_part(version, 1),
                "/DAPP_VERSION_PATCH="@ + version_part(version, 2),
                "packaging/installer.nsi"@,
            ],
        ),
    ] + match signing {
        Some((cert, pw)) => if cert.len() > 0 {
            sign_steps(cert, pw, win_release_exe()) + sign_steps(cert, pw, setup_path(version))
        } else {
            Seq::empty()
        },
        None => Seq::empty(),
    }
}

fn concat(a: &str, b: &str) -> (r: String)
    ensures
        r@ == a@ + b@,
{
    let mut s = String::from_str(a);
    s.append(b);
    s
}

fn push_sign_steps(r: &mut Vec<CommandSpec>, cert: &str, password: &str, target: &str)
    ensures
        commands_view(final(r)@) == commands_view(old(r)@) + sign_steps(cert@, password@, target@),
{
    let c = command_of(
        "signtool",
        &[
            "sign",
            "/f",
            cert,
            "/p",
            password,
            "/fd",
            "sha256",
            "/tr",
            "http://timestamp.digicert.com",
            "/td",
            "sha256",
            target,
        ],
    );
    assert(c@.args =~= seq![
        "sign"@,
        "/f"@,
        cert@,
        "/p"@,
        password@,
        "/fd"@,
        "sha256"@,
        "/tr"@,
        "http://timestamp.digicert.com"@,
        "/td"@,
        "sha256"@,
        target@,
    ]);
    push_command(r, c);
    let c = command_of("signtool", &["verify", "/pa", target]);
    assert(c@.args =~= seq!["verify"@, "/pa"@, target@]);
    push_command(r, c);
    assert(commands_view(r@) =~= commands_view(old(r)@) + sign_steps(cert@, password@, target@));
}

/// The commands that build the Windows installer (see `windows_plan`).
pub fn windows_installer_commands(version: &str, signing: &Option<(String, String)>) -> (r: Vec<
    CommandSpec,
>)
    ensures
        commands_view(r@) == windows_plan(
            version@,
            match signing {
                Some(p) => Some((p.0@, p.1@)),
                None => None,
            },
        ),
{
    let (major, minor, patch) = version_parts(version);
    let a1 = concat("/DAPP_VERSION_MAJOR=", major.as_str());
    let a2 = concat("/DAPP_VERSION_MINOR=", minor.as_str());
    let a3 = concat("/DAPP_VERSION_PATCH=", patch.as_str());
    let mut r: Vec<CommandSpec> = Vec::new();
    let c = command_of(
        "makensis",
        &[a1.as_str(), a2.as_str(), a3.as_str(), "packaging/installer.nsi"],
    );
    assert(c@.args =~= seq![a1@, a2@, a3@, "packaging/installer.nsi"@]);
    push_command(&mut r, c);
    let ghost p0 = commands_view(r@);
    let release_exe = "target\\release\\googlepicz.exe";
    proof {
        reveal_strlit("target\\release\\googlepicz.exe");
        assert(release_exe@ == win_release_exe());
    }
    match signing {
        Some((cert, pw)) => {
            if cert.unicode_len() > 0 {
                let exe = concat("target/windows/GooglePicz-", version);
                let exe = concat(exe.as_str(), "-Setup.exe");
                push_sign_steps(&mut r, cert.as_str(), pw.as_str(), release_exe);
                push_sign_steps(&mut r, cert.as_str(), pw.as_str(), exe.as_str());
                assert(commands_view(r@) =~= p0 + (sign_steps(cert@, pw@, win_release_exe())
                    + sign_steps(cert@, pw@, setup_path(version@))));
            } else {
                assert(commands_view(r@) =~= p0 + Seq::<CommandView>::empty());
            }
        },
        None => {
            assert(commands_view(r@) =~= p0 + Seq::<CommandView>::empty());
        },
    }
    r
}

/// The command that builds the Debian package with the version.
pub open spec fn deb_build_command(version: Seq<char>) -> CommandView {
    cv("cargo"@, seq!["deb"@, "--deb-version"@, version])
}

/// The command that builds the Debian package (see `deb_build_command`).
pub fn linux_package_command(version: &str) -> (r: CommandSpec)
    ensures
        r@ == deb_build_command(version@),
{
    let c = command_of("cargo", &["deb", "--deb-version", version]);
    assert(c@.args =~= seq!["deb"@, "--deb-version"@, version@]);
    c
}

/// Signing and verifying a Debian package when a key is given and is not
/// empty.
pub open spec fn deb_sign_plan(key_id: Seq<char>, deb: Seq<char>) -> Seq<CommandView> {
    if key_id.len() > 0 {
        seq![
            cv("dpkg-sig"@, seq!["--sign"@, "builder"@, "-k"@, key_id, deb]),
            cv("dpkg-sig"@, seq!["--verify"@, deb]),
        ]
    } else {
        Seq::empty()
    }
}

/// The commands that sign a Debian package (see `deb_sign_plan`).
pub fn linux_sign_commands(key_id: &str, deb: &str) -> (r: Vec<CommandSpec>)
    ensures
        commands_view(r@) == deb_sign_plan(key_id@, deb@),
{
    let mut r: Vec<CommandSpec> = Vec::new();
    if key_id.unicode_len() > 0 {
        let c = command_of("dpkg-sig", &["--sign", "builder", "-k", key_id, deb]);
        assert(c@.args =~= seq!["--sign"@, "builder"@, "-k"@, key_id@, deb@]);
        push_command(&mut r, c);
        let c = command_of("dpkg-sig", &["--verify", deb]);
        assert(c@.args =~= seq!["--verify"@, deb@]);
        push_command(&mut r, c);
    }
    assert(commands_view(r@) =~= deb_sign_plan(key_id@, deb@));
    r
}

/// Whether a file name has the extension `deb` (`Path::extension`): it
/// ends in `.deb` after at least one other character.
pub open spec fn is_deb_name(name: Seq<char>) -> bool {
    name.len() > 4 && name.subrange(name.len() - 4, name.len() as int) == ".deb"@
}

/// The position of the first file name with the extension `deb`, if any.
pub fn find_deb(names: &Vec<String>) -> (r: Option<usize>)
    ensures
        match r {
            Some(i) => i < names@.len() && is_deb_name(names@[i as int]@) && forall|k: int|
                0 <= k < i ==> !is_deb_name(#[trigger] names@[k]@),
            None => forall|k: int| 0 <= k < names@.len() ==> !is_deb_name(#[trigger] names@[k]@),
        },
{
    let mut i: usize = 0;
    while i < names.len()
        invariant
            i <= names@.len(),
            forall|k: int| 0 <= k < i ==> !is_deb_name(#[trigger] names@[k]@),
        decreases names.len() - i,
    {
        let name = names[i].as_str();
        let n = name.unicode_len();
        if n > 4 {
            let mut same = true;
            let mut j: usize = 0;
            proof {
                reveal_strlit(".deb");
            }
            while j < 4
                invariant
                    n == name@.len(),
                    n > 4,
                    j <= 4,
                    same == (forall|q: int| 0 <= q < j ==> name@[n - 4 + q] == ".deb"@[q]),
                decreases 4 - j,
            {
                let want = if j == 0 {
                    '.'
                } else if j == 1 {
                    'd'
                } else if j == 2 {
                    'e'
                } else {
                    'b'
                };
                proof {
                    reveal_strlit(".deb");
                }
                assert(want == ".deb"@[j as int]);
                if name.get_char(n - 4 + j) != want {
                    same = false;
                }
                j = j + 1;
            }
            proof {
                reveal_strlit(".deb");
                let t = name@.subrange(n - 4, n as int);
                if same {
                    assert(t =~= ".deb"@);
                } else if t == ".deb"@ {
                    assert forall|q: int| 0 <= q < 4 implies name@[n - 4 + q] == ".deb"@[q] by {
                        assert(t[q] == name@[n - 4 + q]);
                    }
                }
            }
            if same {
                return Some(i);
            }
        }
        i = i + 1;
    }
    None
}

/// The name the Debian package of a version is given.
pub open spec fn deb_package_name(version: Seq<char>) -> Seq<char> {
    "GooglePicz-"@ + version + ".deb"@
}

/// The macOS disk image of a version, as it is renamed after signing.
pub open spec fn versioned_dmg_path(version: Seq<char>) -> Seq<char> {
    "target/release/GooglePicz-"@ + version + ".dmg"@
}

/// The name the Debian package of a version is given.
pub fn deb_file_name(version: &str) -> (r: String)
    ensures
        r@ == deb_package_name(version@),
{
    let s = concat("GooglePicz-", version);
    concat(s.as_str(), ".deb")
}

/// Where the macOS disk image of a version is moved after signing.
pub fn dmg_file_path(version: &str) -> (r: String)
    ensures
        r@ == versioned_dmg_path(version@),
{
    let s = concat("target/release/GooglePicz-", version);
    concat(s.as_str(), ".dmg")
}

/// Where the Windows installer of a version is written.
pub fn setup_file_path(version: &str) -> (r: String)
    ensures
        r@ == setup_path(version@),
{
    let s = concat("target/windows/GooglePicz-", version);
    concat(s.as_str(), "-Setup.exe")
}

/// The operating system packages are built for.
#[derive(Debug, Clone, Copy, PartialEq, Eq, Structural)]
pub enum TargetOs {
    Linux,
    Macos,
    Windows,
    Other,
}

/// The platform identifier used in artifact names.
pub open spec fn platform_text(os: TargetOs) -> Seq<char> {
    match os {
        TargetOs::Linux => "linux"@,
        TargetOs::Macos => "macos"@,
        TargetOs::Windows => "windows"@,
        TargetOs::Other => "unknown"@,
    }
}

/// The platform identifier used in artifact names.
pub fn platform_name(os: TargetOs) -> (r: &'static str)
    ensures
        r@ == platform_text(os),
{
    match os {
        TargetOs::Linux => "linux",
        TargetOs::Macos => "macos",
        TargetOs::Windows => "windows",
        TargetOs::Other => "unknown",
    }
}

/// The file extension of the package: on Linux the chosen package format
/// (`deb` where none is chosen), `dmg` on macOS, `exe` on Windows, none
/// elsewhere.
pub open spec fn extension_text(os: TargetOs, linux_format: Option<Seq<char>>) -> Seq<char> {
    match os {
        TargetOs::Linux => match linux_format {
            Some(f) => f,
            None => "deb"@,
        },
        TargetOs::Macos => "dmg"@,
        TargetOs::Windows => "exe"@,
        TargetOs::Other => Seq::empty(),
    }
}

/// The file extension of the package (see `extension_text`).
pub fn package_extension(os: TargetOs, linux_format: &Option<String>) -> (r: String)
    ensures
        r@ == extension_text(
            os,
            match linux_format {
                Some(f) => Some(f@),
                None => None,
            },
        ),
{
    match os {
        TargetOs::Linux => match linux_format {
            Some(f) => f.clone(),
            None => String::from_str("deb"),
        },
        TargetOs::Macos => String::from_str("dmg"),
        TargetOs::Windows => String::from_str("exe"),
        TargetOs::Other => {
            let e = String::new();
            assert(e@ =~= Seq::<char>::empty());
            e
        },
    }
}

/// A path with a component appended (`Path::join` with `/`): an absolute
/// component replaces the path; otherwise a separator is put between them
/// unless the path is empty or already ends in one.
pub open spec fn join_path(base: Seq<char>, part: Seq<char>) -> Seq<char> {
    if part.len() > 0 && part[0] == '/' {
        part
    } else if base.len() == 0 {
        part
    } else if base.last() == '/' {
        base + part
    } else {
        base + "/"@ + part
    }
}

/// A path with a component appended (see `join_path`).
pub fn join(base: &str, part: &str) -> (r: String)
    ensures
        r@ == join_path(base@, part@),
{
    let bn = base.unicode_len();
    let pn = part.unicode_len();
    if pn > 0 && part.get_char(0) == '/' {
        String::from_str(part)
    } else if bn == 0 {
        String::from_str(part)
    } else if base.get_char(bn - 1) == '/' {
        concat(base, part)
    } else {
        let s = concat(base, "/");
        concat(s.as_str(), part)
    }
}

/// The file name of the final installer artifact.
pub open spec fn artifact_name(version: Seq<char>, os: TargetOs, linux_format: Option<Seq<char>>) -> Seq<
    char,
> {
    "GooglePicz-"@ + version + "-"@ + platform_text(os) + "."@ + extension_text(os, linux_format)
}

/// The full path of the final installer artifact: `target` under the
/// project root, then the artifact's file name.
pub fn artifact_path(root: &str, version: &str, os: TargetOs, linux_format: &Option<String>) -> (r:
    String)
    ensures
        r@ == join_path(
            join_path(root@, "target"@),
            artifact_name(
                version@,
                os,
                match linux_format {
                    Some(f) => Some(f@),
                    None => None,
                },
            ),
        ),
{
    let ext = package_extension(os, linux_format);
    let name = concat("GooglePicz-", version);
    let name = concat(name.as_str(), "-");
    let name = concat(name.as_str(), platform_name(os));
    let name = concat(name.as_str(), ".");
    let name = concat(name.as_str(), ext.as_str());
    let dir = join(root, "target");
    proof {
        reveal_strlit("GooglePicz-");
        reveal_strlit("target");
        reveal_strlit("-");
        reveal_strlit(".");
    }
    join(dir.as_str(), name.as_str())
}

/// How `Debug` shows a path (quoted, with special characters escaped).
pub uninterp spec fn path_debug(path: Seq<char>) -> Seq<char>;

/// Shows a path the way its `Debug` does (`format!("{:?}", Path::new(p))`).
/// Claims only that the result is the named text.
#[verifier::external_body]
fn debug_path(path: &str) -> (r: String)
    ensures
        r@ == path_debug(path@),
{
    format!("{:?}", std::path::Path::new(path))
}

/// Succeeds when the artifact is present; otherwise names the missing
/// path.
pub fn verify_artifact_names(path: &str, present: bool) -> (r: Result<(), PackagingError>)
    ensures
        present ==> r is Ok,
        !present ==> r is Err && r->Err_0@ == PackagingErrorView::Other(
            "Missing artifact: "@ + path_debug(path@),
        ),
{
    if present {
        Ok(())
    } else {
        let d = debug_path(path);
        Err(PackagingError::Other(concat("Missing artifact: ", d.as_str())))
    }
}

/// Where the installer of the platform is expected after it was built, if
/// the platform has one.
pub open spec fn expected_installer_path(os: TargetOs, root: Seq<char>, version: Seq<char>) -> Option<
    Seq<char>,
> {
    match os {
        TargetOs::Macos => Some(join_path(root, versioned_dmg_path(version))),
        TargetOs::Windows => Some(join_path(root, setup_path(version))),
        TargetOs::Linux => Some(join_path(root, deb_package_name(version))),
        TargetOs::Other => None,
    }
}

/// Where the installer of the platform is expected after it was built (see
/// `expected_installer_path`).
pub fn expected_installer(os: TargetOs, root: &str, version: &str) -> (r: Option<String>)
    ensures
        match r {
            Some(p) => expected_installer_path(os, root@, version@) == Some(p@),
            None => expected_installer_path(os, root@, version@) is None,
        },
{
    match os {
        TargetOs::Macos => {
            let f = dmg_file_path(version);
            Some(join(root, f.as_str()))
        },
        TargetOs::Windows => {
            let f = setup_file_path(version);
            Some(join(root, f.as_str()))
        },
        TargetOs::Linux => {
            let f = deb_file_name(version);
            Some(join(root, f.as_str()))
        },
        TargetOs::Other => None,
    }
}

/// The spec view of an optional package format.
pub open spec fn format_view(linux_format: Option<String>) -> Option<Seq<char>> {
    match linux_format {
        Some(f) => Some(f@),
        None => None,
    }
}

/// Where the built installer is published, if the platform has one: from
/// the installer's own path to the artifact path under `target`.
pub fn artifact_copy(os: TargetOs, root: &str, version: &str, linux_format: &Option<String>) -> (r:
    Option<(String, String)>)
    ensures
        match r {
            Some((from, to)) => {
                &&& expected_installer_path(os, root@, version@) == Some(from@)
                &&& to@ == join_path(
                    join_path(root@, "target"@),
                    artifact_name(version@, os, format_view(*linux_format)),
                )
            },
            None => expected_installer_path(os, root@, version@) is None,
        },
{
    match expected_installer(os, root, version) {
        Some(from) => {
            let to = artifact_path(root, version, os, linux_format);
            Some((from, to))
        },
        None => None,
    }
}

/// Succeeds when the installer is present or commands are only simulated;
/// otherwise names the missing installer.
pub fn installer_check(path: &str, present: bool, simulated: bool) -> (r: Result<(), PackagingError>)
    ensures
        (present || simulated) ==> r is Ok,
        !(present || simulated) ==> r is Err && r->Err_0@ == PackagingErrorView::Other(
            "Expected installer "@ + path_debug(path@) + " not found"@,
        ),
{
    if present || simulated {
        Ok(())
    } else {
        let d = debug_path(path);
        let m = concat("Expected installer ", d.as_str());
        Err(PackagingError::Other(concat(m.as_str(), " not found")))
    }
}

/// The SHA-256 digest of `data`.
pub uninterp spec fn sha256_digest(data: Seq<u8>) -> Seq<u8>;

/// Computes the SHA-256 digest of `data` (`Sha256::digest`). Claims: the
/// result is the named digest, and it has 32 bytes (the output size of
/// SHA-256).
#[verifier::external_body]
fn sha256(data: &[u8]) -> (r: Vec<u8>)
    ensures
        r@ == sha256_digest(data@),
        r@.len() == 32,
{
    sha2::Sha256::digest(data).to_vec()
}

/// The lowercase hexadecimal digit of `d`.
pub open spec fn hex_digit(d: int) -> char {
    if d < 10 {
        (d + 48) as char
    } else {
        (d + 87) as char
    }
}

/// Bytes in lowercase hexadecimal, two digits each.
pub open spec fn hex_text(b: Seq<u8>) -> Seq<char>
    decreases b.len(),
{
    if b.len() == 0 {
        Seq::empty()
    } else {
        hex_text(b.drop_last()).push(hex_digit((b.last() / 16) as int)).push(hex_digit((b.last() % 16) as int))
    }
}

fn hex_digit_char(d: u8) -> (c: char)
    requires
        d < 16,
    ensures
        c == hex_digit(d as int),
{
    if d < 10 {
        (d + 48) as char
    } else {
        (d + 87) as char
    }
}

/// Bytes in lowercase hexadecimal (see `hex_text`).
pub fn hex_encode(bytes: &[u8]) -> (r: String)
    ensures
        r@ == hex_text(bytes@),
{
    let mut s = String::new();
    let mut i: usize = 0;
    proof {
        assert(bytes@.take(0) =~= Seq::<u8>::empty());
    }
    while i < bytes.len()
        invariant
            i <= bytes@.len(),
            s@ == hex_text(bytes@.take(i as int)),
        decreases bytes.len() - i,
    {
        let b = bytes[i];
        proof {
            assert(bytes@.take(i + 1).drop_last() =~= bytes@.take(i as int));
        }
        push_char(&mut s, hex_digit_char(b / 16));
        push_char(&mut s, hex_digit_char(b % 16));
        i = i + 1;
    }
    proof {
        assert(bytes@.take(i as int) =~= bytes@);
    }
    s
}

/// The checksum line of a file: its SHA-256 digest in hexadecimal, two
/// spaces, and its name.
pub open spec fn checksum_line_text(data: Seq<u8>, name: Seq<char>) -> Seq<char> {
    hex_text(sha256_digest(data)) + "  "@ + name
}

/// The checksum line of a file (see `checksum_line_text`).
pub fn checksum_line(data: &[u8], name: &str) -> (r: String)
    ensures
        r@ == checksum_line_text(data@, name@),
{
    let digest = sha256(data);
    let h = hex_encode(digest.as_slice());
    let h = concat(h.as_str(), "  ");
    concat(h.as_str(), name)
}

/// Lines joined with line feeds (`join("\n")`).
pub open spec fn join_lines(lines: Seq<Seq<char>>) -> Seq<char>
    decreases lines.len(),
{
    if lines.len() == 0 {
        Seq::empty()
    } else if lines.len() == 1 {
        lines[0]
    } else {
        join_lines(lines.drop_last()) + "\n"@ + lines.last()
    }
}

/// The text of the checksums file: the lines joined with line feeds, and a
/// final line feed.
pub fn checksums_text(lines: &Vec<String>) -> (r: String)
    ensures
        r@ == join_lines(strs_view(lines@)) + "\n"@,
{
    let mut s = String::new();
    let mut i: usize = 0;
    proof {
        assert(strs_view(lines@).take(0) =~= Seq::<Seq<char>>::empty());
    }
    while i < lines.len()
        invariant
            i <= lines@.len(),
            s@ == join_lines(strs_view(lines@).take(i as int)),
        decreases lines.len() - i,
    {
        let ghost before = s@;
        if i > 0 {
            s.append("\n");
        }
        s.append(lines[i].as_str());
        proof {
            let t = strs_view(lines@).take(i + 1);
            assert(t.drop_last() =~= strs_view(lines@).take(i as int));
            if i == 0 {
                assert(before =~= Seq::<char>::empty());
                assert(s@ =~= t[0]);
            }
        }
        i = i + 1;
    }
    proof {
        assert(strs_view(lines@).take(i as int) =~= strs_view(lines@));
    }
    s.append("\n");
    s
}

/// What `toml::from_str::<toml::Value>` followed by `get(table)`,
/// `get(sub)`, `get(key)` and `as_str()` gives for a text: the string found
/// there (none where a step finds nothing or the value is not a string), or
/// the text of the parse error.
pub uninterp spec fn toml_string_at(
    text: Seq<char>,
    table: Seq<char>,
    sub: Seq<char>,
    key: Seq<char>,
) -> Result<Option<Seq<char>>, Seq<char>>;

/// Reads the string at `table.sub.key` of a TOML document. Claims only that
/// the result is the named one.
#[verifier::external_body]
fn toml_lookup(text: &str, table: &str, sub: &str, key: &str) -> (r: Result<Option<String>, String>)
    ensures
        match r {
            Ok(v) => toml_string_at(text@, table@, sub@, key@) is Ok && toml_string_at(
                text@,
                table@,
                sub@,
                key@,
            )->Ok_0 == opt_view(v),
            Err(m) => toml_string_at(text@, table@, sub@, key@) is Err && toml_string_at(
                text@,
                table@,
                sub@,
                key@,
            )->Err_0 == m@,
        },
{
    match toml::from_str::<toml::Value>(text) {
        Ok(v) => Ok(v.get(table).and_then(|t| t.get(sub)).and_then(|p| p.get(key)).and_then(|x| x.as_str()).map(|x| x.to_string())),
        Err(e) => Err(e.to_string()),
    }
}

/// The workspace version that a looked-up manifest gives: the version, or
/// an error for an unparsable manifest or a missing version.
pub open spec fn version_outcome(found: Result<Option<Seq<char>>, Seq<char>>) -> Result<
    Seq<char>,
    PackagingErrorView,
> {
    match found {
        Err(m) => Err(PackagingErrorView::Other("Failed to parse Cargo.toml: "@ + m)),
        Ok(None) => Err(PackagingErrorView::Other("workspace.package.version not found"@)),
        Ok(Some(v)) => Ok(v),
    }
}

/// The view of a result with a string or a packaging error.
pub open spec fn text_result_view(r: Result<String, PackagingError>) -> Result<Seq<char>, PackagingErrorView> {
    match r {
        Ok(v) => Ok(v@),
        Err(e) => Err(e@),
    }
}

/// The view of a lookup result.
pub open spec fn found_view(r: Result<Option<String>, String>) -> Result<Option<Seq<char>>, Seq<char>> {
    match r {
        Ok(v) => Ok(opt_view(v)),
        Err(m) => Err(m@),
    }
}

/// Turns the looked-up `workspace.package.version` of a manifest into the
/// version or the error (see `version_outcome`).
pub fn version_from_lookup(found: Result<Option<String>, String>) -> (r: Result<String, PackagingError>)
    ensures
        text_result_view(r) == version_outcome(found_view(found)),
{
    match found {
        Err(m) => Err(PackagingError::Other(concat("Failed to parse Cargo.toml: ", m.as_str()))),
        Ok(None) => Err(PackagingError::Other(String::from_str("workspace.package.version not found"))),
        Ok(Some(v)) => Ok(v),
    }
}

/// The version in `workspace.package.version` of the workspace manifest's
/// text.
pub fn workspace_version(cargo_toml: &str) -> (r: Result<String, PackagingError>)
    ensures
        text_result_view(r) == version_outcome(
            toml_string_at(cargo_toml@, "workspace"@, "package"@, "version"@),
        ),
{
    let found = toml_lookup(cargo_toml, "workspace", "package", "version");
    version_from_lookup(found)
}

/// The error for a manifest that could not be read.
pub fn manifest_read_failure(detail: &str) -> (r: PackagingError)
    ensures
        r@ == PackagingErrorView::Other("Failed to read Cargo.toml: "@ + detail@),
{
    PackagingError::Other(concat("Failed to read Cargo.toml: ", detail))
}

/// What `serde_json::from_slice::<serde_json::Value>` followed by
/// `get("packages")` and `as_array()` gives for some bytes: for each
/// package, its `name` where that is a string; none where there is no such
/// array; or the text of the parse error.
pub uninterp spec fn json_package_names(bytes: Seq<u8>) -> Result<Option<Seq<Option<Seq<char>>>>, Seq<char>>;

/// The views of a list of optional strings.
pub open spec fn opt_strs_view(v: Seq<Option<String>>) -> Seq<Option<Seq<char>>> {
    v.map_values(|o: Option<String>| opt_view(o))
}

/// Reads the package names of `cargo metadata` output. Claims only that the
/// result is the named one.
#[verifier::external_body]
fn metadata_package_names(bytes: &[u8]) -> (r: Result<Option<Vec<Option<String>>>, String>)
    ensures
        match r {
            Ok(Some(v)) => json_package_names(bytes@) == Ok::<
                Option<Seq<Option<Seq<char>>>>,
                Seq<char>,
            >(Some(opt_strs_view(v@))),
            Ok(None) => json_package_names(bytes@) == Ok::<
                Option<Seq<Option<Seq<char>>>>,
                Seq<char>,
            >(None),
            Err(m) => json_package_names(bytes@) == Err::<
                Option<Seq<Option<Seq<char>>>>,
                Seq<char>,
            >(m@),
        },
{
    match serde_json::from_slice::<serde_json::Value>(bytes) {
        Ok(v) => Ok(v.get("packages").and_then(|p| p.as_array()).map(|a| a.iter().map(|p| p.get("name").and_then(|n| n.as_str()).map(|n| n.to_string())).collect())),
        Err(e) => Err(e.to_string()),
    }
}

/// Whether a package of the given name is listed.
pub open spec fn package_listed(names: Seq<Option<Seq<char>>>, expected: Seq<char>) -> bool {
    exists|i: int| 0 <= i < names.len() && names[i] == Some(expected)
}

/// What the package names of `cargo metadata` say about the expected
/// package: found, or an error for unparsable output, a missing package
/// list, or a missing package.
pub open spec fn package_outcome(
    expected: Seq<char>,
    parsed: Result<Option<Seq<Option<Seq<char>>>>, Seq<char>>,
) -> Result<(), PackagingErrorView> {
    match parsed {
        Err(m) => Err(PackagingErrorView::Other("Failed to parse cargo metadata: "@ + m)),
        Ok(None) => Err(PackagingErrorView::Other("No packages field in metadata"@)),
        Ok(Some(names)) => if package_listed(names, expected) {
            Ok(())
        } else {
            Err(PackagingErrorView::Other("Package '"@ + expected + "' not found"@))
        },
    }
}

/// The view of parsed package names.
pub open spec fn names_view(p: Result<Option<Vec<Option<String>>>, String>) -> Result<
    Option<Seq<Option<Seq<char>>>>,
    Seq<char>,
> {
    match p {
        Ok(Some(v)) => Ok(Some(opt_strs_view(v@))),
        Ok(None) => Ok(None),
        Err(m) => Err(m@),
    }
}

/// Checks parsed package names for the expected package (see
/// `package_outcome`).
pub fn package_check(expected: &str, parsed: Result<Option<Vec<Option<String>>>, String>) -> (r:
    Result<(), PackagingError>)
    ensures
        outcome_view(r) == package_outcome(expected@, names_view(parsed)),
{
    match parsed {
        Err(m) => Err(PackagingError::Other(concat("Failed to parse cargo metadata: ", m.as_str()))),
        Ok(None) => Err(PackagingError::Other(String::from_str("No packages field in metadata"))),
        Ok(Some(names)) => {
            let ghost nv = opt_strs_view(names@);
            let want = String::from_str(expected);
            let mut i: usize = 0;
            while i < names.len()
                invariant
                    i <= names@.len(),
                    nv == opt_strs_view(names@),
                    want@ == expected@,
                    names_view(parsed) == Ok::<Option<Seq<Option<Seq<char>>>>, Seq<char>>(Some(nv)),
                    forall|k: int| 0 <= k < i ==> nv[k] != Some(expected@),
                decreases names.len() - i,
            {
                match &names[i] {
                    Some(n) => {
                        if n.eq(&want) {
                            assert(nv[i as int] == Some(expected@));
                            return Ok(());
                        }
                    },
                    None => {},
                }
                i = i + 1;
            }
            let m = concat("Package '", expected);
            Err(PackagingError::Other(concat(m.as_str(), "' not found")))
        },
    }
}

/// Checks that `cargo metadata` output lists the expected package.
pub fn verify_metadata_package_name(expected: &str, metadata: &[u8]) -> (r: Result<(), PackagingError>)
    ensures
        outcome_view(r) == package_outcome(expected@, json_package_names(metadata@)),
{
    let parsed = metadata_package_names(metadata);
    package_check(expected, parsed)
}

/// The first of the candidate directories (each with the text of its
/// `Cargo.toml` where that could be read) whose manifest declares a
/// workspace, if any.
pub open spec fn first_workspace(candidates: Seq<(Seq<char>, Option<Seq<char>>)>) -> Option<Seq<char>>
    decreases candidates.len(),
{
    if candidates.len() == 0 {
        None
    } else {
        match candidates[0].1 {
            Some(text) => if occurs_in(text, "[workspace]"@) {
                Some(candidates[0].0)
            } else {
                first_workspace(candidates.drop_first())
            },
            None => first_workspace(candidates.drop_first()),
        }
    }
}

/// The views of candidate directories.
pub open spec fn candidates_view(v: Seq<(String, Option<String>)>) -> Seq<(Seq<char>, Option<Seq<char>>)> {
    v.map_values(|c: (String, Option<String>)| (c.0@, opt_view(c.1)))
}

/// The project root: the nearest of the candidate directories (from the
/// current one upwards) whose manifest declares a workspace, else the
/// current directory.
pub fn project_root(candidates: &Vec<(String, Option<String>)>, current: &str) -> (r: String)
    ensures
        r@ == match first_workspace(candidates_view(candidates@)) {
            Some(d) => d,
            None => current@,
        },
{
    let ghost cv0 = candidates_view(candidates@);
    let mut i: usize = 0;
    assert(cv0.skip(0) =~= cv0);
    while i < candidates.len()
        invariant
            i <= candidates@.len(),
            cv0 == candidates_view(candidates@),
            first_workspace(cv0) == first_workspace(cv0.skip(i as int)),
        decreases candidates.len() - i,
    {
        proof {
            assert(cv0.skip(i as int).drop_first() =~= cv0.skip(i + 1));
            assert(cv0.skip(i as int)[0] == cv0[i as int]);
        }
        match &candidates[i].1 {
            Some(text) => {
                if contains_text(text.as_str(), "[workspace]") {
                    return candidates[i].0.clone();
                }
            },
            None => {},
        }
        i = i + 1;
    }
    String::from_str(current)
}

/// The tools that building the installer of a platform needs, before any
/// signing: the commands' programs and the cargo plugins they use.
pub open spec fn installer_tools_of(os: TargetOs) -> Seq<Seq<char>> {
    match os {
        TargetOs::Linux => seq!["cargo-deb"@, "cargo"@],
        TargetOs::Macos => seq!["cargo-bundle"@, "cargo"@, "hdiutil"@],
        TargetOs::Windows => seq!["makensis"@],
        TargetOs::Other => Seq::empty(),
    }
}

/// The tools that building the installer of a platform needs (see
/// `installer_tools_of`).
pub fn installer_tools(os: TargetOs) -> (r: Vec<String>)
    ensures
        strs_view(r@) == installer_tools_of(os),
{
    let mut r: Vec<String> = Vec::new();
    match os {
        TargetOs::Linux => {
            push_str(&mut r, "cargo-deb");
            push_str(&mut r, "cargo");
        },
        TargetOs::Macos => {
            push_str(&mut r, "cargo-bundle");
            push_str(&mut r, "cargo");
            push_str(&mut r, "hdiutil");
        },
        TargetOs::Windows => {
            push_str(&mut r, "makensis");
        },
        TargetOs::Other => {},
    }
    assert(strs_view(r@) =~= installer_tools_of(os));
    r
}

/// The first tool that is not available, if any.
pub open spec fn first_missing(tools: Seq<Seq<char>>, available: Seq<bool>) -> Option<Seq<char>>
    decreases tools.len(),
{
    if tools.len() == 0 || available.len() == 0 {
        None
    } else if !available[0] {
        Some(tools[0])
    } else {
        first_missing(tools.drop_first(), available.drop_first())
    }
}

/// Checks that the tools an installer needs are available (`available`
/// says, for each tool, whether it was found). With simulated commands
/// nothing is checked; otherwise the first missing tool is reported with
/// its installation hint.
pub fn verify_installer_tools(simulated: bool, tools: &Vec<String>, available: &Vec<bool>) -> (r:
    Result<(), PackagingError>)
    requires
        tools@.len() == available@.len(),
    ensures
        simulated ==> r is Ok,
        !simulated ==> match first_missing(strs_view(tools@), available@) {
            None => r is Ok,
            Some(t) => r is Err && r->Err_0@ == PackagingErrorView::MissingCommand(tool_hint(t)),
        },
{
    if simulated {
        return Ok(());
    }
    let ghost tv = strs_view(tools@);
    let mut i: usize = 0;
    assert(tv.skip(0) =~= tv);
    assert(available@.skip(0) =~= available@);
    while i < tools.len()
        invariant
            !simulated,
            i <= tools@.len(),
            tools@.len() == available@.len(),
            tv == strs_view(tools@),
            first_missing(tv, available@) == first_missing(tv.skip(i as int), available@.skip(i as int)),
        decreases tools.len() - i,
    {
        proof {
            assert(tv.skip(i as int).drop_first() =~= tv.skip(i + 1));
            assert(available@.skip(i as int).drop_first() =~= available@.skip(i + 1));
            assert(tv.skip(i as int)[0] == tools@[i as int]@);
        }
        if !available[i] {
            return ensure_tool(tools[i].as_str(), false);
        }
        i = i + 1;
    }
    Ok(())
}

} // verus!
