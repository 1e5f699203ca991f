//! Properties of the packaging names and texts.

use vstd::prelude::*;
use crate::text::occurs_in;
use crate::packaging::{
    TargetOs, artifact_name, hex_text, checksum_line_text, sha256_digest, command_result,
    windows_plan, win_release_exe, setup_path,
};

verus! {

/// The name of every installer artifact carries the version it was built
/// from.
pub proof fn law_artifact_name_has_version(version: Seq<char>, os: TargetOs, linux_format: Option<Seq<char>>)
    ensures
        occurs_in(artifact_name(version, os, linux_format), version),
{
    reveal_strlit("GooglePicz-");
    let name = artifact_name(version, os, linux_format);
    let k = "GooglePicz-"@.len() as int;
    assert(name.subrange(k, k + version.len()) =~= version);
}

/// Hexadecimal text has two digits per byte.
pub proof fn law_hex_length(bytes: Seq<u8>)
    ensures
        hex_text(bytes).len() == 2 * bytes.len(),
    decreases bytes.len(),
{
    if bytes.len() > 0 {
        law_hex_length(bytes.drop_last());
    }
}

/// A checksum line is the digest's hexadecimal text, two spaces and the
/// file name, so it ends with the file name.
pub proof fn law_checksum_line_ends_with_name(data: Seq<u8>, name: Seq<char>)
    ensures
        ({
            let line = checksum_line_text(data, name);
            let h = (2 * sha256_digest(data).len()) as int;
            &&& line.len() == h + 2 + name.len()
            &&& line.subrange(h + 2, line.len() as int) == name
        }),
{
    law_hex_length(sha256_digest(data));
    reveal_strlit("  ");
    let line = checksum_line_text(data, name);
    let h = (2 * sha256_digest(data).len()) as int;
    assert(line.subrange(h + 2, line.len() as int) =~= name);
}

/// A command succeeds exactly when it exits with code zero.
pub proof fn law_command_succeeds_iff_exit_zero(program: Seq<char>, code: Option<i32>, stderr: Seq<char>)
    ensures
        command_result(program, code, stderr) is Ok <==> code == Some(0i32),
{
}

/// With a certificate and its password, the Windows plan signs both the
/// release binary and the installer, and every `signtool sign` command in
/// it passes the certificate right after `/f` and the password right after
/// `/p`.
pub proof fn law_windows_signing_arguments(version: Seq<char>, cert: Seq<char>, password: Seq<char>)
    requires
        cert.len() > 0,
    ensures
        forall|k: int|
            0 <= k < windows_plan(version, Some((cert, password))).len() && (#[trigger] windows_plan(
                version,
                Some((cert, password)),
            )[k]).program == "signtool"@ && windows_plan(version, Some((cert, password)))[k].args.len()
                > 0 && windows_plan(version, Some((cert, password)))[k].args[0] == "sign"@ ==> {
                let a = windows_plan(version, Some((cert, password)))[k].args;
                &&& a.len() >= 5
                &&& a[1] == "/f"@
                &&& a[2] == cert
                &&& a[3] == "/p"@
                &&& a[4] == password
            },
        exists|k: int|
            0 <= k < windows_plan(version, Some((cert, password))).len() && (#[trigger] windows_plan(
                version,
                Some((cert, password)),
            )[k]).program == "signtool"@ && windows_plan(version, Some((cert, password)))[k].args[0]
                == "sign"@ && windows_plan(version, Some((cert, password)))[k].args.last()
                == win_release_exe(),
        exists|k: int|
            0 <= k < windows_plan(version, Some((cert, password))).len() && (#[trigger] windows_plan(
                version,
                Some((cert, password)),
            )[k]).program == "signtool"@ && windows_plan(version, Some((cert, password)))[k].args[0]
                == "sign"@ && windows_plan(version, Some((cert, password)))[k].args.last()
                == setup_path(version),
{
    let p = windows_plan(version, Some((cert, password)));
    reveal_strlit("signtool");
    reveal_strlit("makensis");
    reveal_strlit("sign");
    reveal_strlit("verify");
    assert(p.len() == 5);
    assert(p[1].args.last() == win_release_exe());
    assert(p[3].args.last() == setup_path(version));
    assert("sign"@[0] != "verify"@[0]);
    assert("signtool"@[0] != "makensis"@[0]);
}

} // verus!
