//! How a finished PowerShell call is read.
//!
//! Starting PowerShell and collecting its output is done by the caller.

use vstd::prelude::*;
use vstd::string::StrSliceExecFns;
use vstd::string::StringExecFns;
use crate::device_spoof::{spec_trim, trim};

verus! {

/// What a PowerShell call yields: its output when it succeeded, and also when
/// it failed but still printed something (some cmdlets print their data and
/// a warning); else the error text, with the trimmed error output if any.
pub open spec fn spec_powershell_result(success: bool, stdout: Seq<char>, stderr: Seq<char>) -> Result<Seq<char>, Seq<char>> {
    if success || spec_trim(stdout).len() > 0 {
        Ok(stdout)
    } else if spec_trim(stderr).len() > 0 {
        Err("PowerShell 执行失败："@ + spec_trim(stderr))
    } else {
        Err("PowerShell 执行失败（无输出）"@)
    }
}

/// Reads a finished PowerShell call from its exit status and its output.
pub fn powershell_result(success: bool, stdout: String, stderr: &str) -> (r: Result<String, String>)
    ensures
        match r {
            Ok(o) => spec_powershell_result(success, stdout@, stderr@) == Ok::<Seq<char>, Seq<char>>(o@),
            Err(e) => spec_powershell_result(success, stdout@, stderr@) == Err::<Seq<char>, Seq<char>>(e@),
        },
{
    if success || trim(stdout.as_str()).unicode_len() > 0 {
        return Ok(stdout);
    }
    let e = trim(stderr);
    if e.unicode_len() > 0 {
        let mut m = String::from_str("PowerShell 执行失败：");
        m.append(e);
        return Err(m);
    }
    Err(String::from_str("PowerShell 执行失败（无输出）"))
}

} // verus!
