//! Silencing the "please check the camera state" prompt at its source.
//!
//! The prompt is raised only by the camera exception callback of
//! `PcControlCenter.Services.UI.MainView.Instances.SynergyUIService`
//! (`ICameraCooperationWrapperUI.ExceptionCallback(CameraExceptionId, string)`)
//! when it receives `kLOCAL_CAMERA_DISABLED` (3). The patch puts
//! `if (exception_id == 3) return;` in front of that method's body, so only
//! this false alarm is dropped and every other camera message stays.
//!
//! Backing up, reading and writing the file are done by the caller.

use vstd::prelude::*;
use vstd::string::StringSliceAdditionalSpecFns;
use crate::dotnet::{inject_guard_return, inject_reads_ok, spec_inject, InjectError, InjectOutcome};
use crate::dotnet::pe::PeImage;

verus! {

/// The patched assembly.
pub const TARGET_DLL: &'static str = "PcControlCenter.dll";
/// Simple name of the type that holds the callback.
pub const TYPE_NAME: &'static str = "SynergyUIService";
/// Name suffix of the callback (an explicit interface implementation, so its
/// metadata name carries the interface's full name in front).
pub const METHOD_SUFFIX: &'static str = "ExceptionCallback";
/// The argument compared: arg0 is `this`, arg1 the exception id.
pub const ARG_INDEX: u8 = 1;
/// `CameraExceptionId.kLOCAL_CAMERA_DISABLED`.
pub const KLOCAL_CAMERA_DISABLED: i32 = 3;
/// Name of the section that receives the guarded body (at most 8 bytes).
pub const SECTION_NAME: &'static str = ".mipatch";

/// Every read of the injection into `pe` is in bounds.
pub open spec fn patch_reads_ok(pe: PeImage) -> bool {
    inject_reads_ok(
        pe,
        TYPE_NAME.spec_bytes(),
        METHOD_SUFFIX.spec_bytes(),
        ARG_INDEX,
        KLOCAL_CAMERA_DISABLED,
        SECTION_NAME.spec_bytes(),
    )
}

/// Guards the camera exception callback of the assembly held in `pe`: it
/// returns at once for `kLOCAL_CAMERA_DISABLED`. An assembly whose callback
/// already starts with the guard is left as it is.
pub fn apply(pe: &mut PeImage) -> (res: Result<InjectOutcome, InjectError>)
    requires
        patch_reads_ok(*old(pe)),
    ensures
        ({
            let (r, d) = spec_inject(
                *old(pe),
                TYPE_NAME.spec_bytes(),
                METHOD_SUFFIX.spec_bytes(),
                ARG_INDEX,
                KLOCAL_CAMERA_DISABLED,
                SECTION_NAME.spec_bytes(),
            );
            res == r && final(pe).data@ == d
        }),
{
    inject_guard_return(pe, TYPE_NAME, METHOD_SUFFIX, ARG_INDEX, KLOCAL_CAMERA_DISABLED, SECTION_NAME)
}

} // verus!
