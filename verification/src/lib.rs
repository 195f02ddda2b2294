//! Lets a running executable find out which APEX module it was launched from.
//!
//! An APEX module is mounted in a directory of its own and declares its name
//! and version in a manifest. [`apexinfo`] resolves the path of an executable
//! to the name and version of the module it lies in; [`mount`] knows the
//! layout of the mounted modules, [`manifest`] the manifest, and [`varint`]
//! the integers in it.
//!
//! The functions of this file put the resolution behind four operations with
//! numeric status codes and with handles that may be absent, for callers that
//! hold a module's identity as a pointer. An absent handle or slot is `None`.
//! A handle is a box: it has one owner, who gives it back to
//! [`AApexInfo_destroy`].

pub mod apexinfo;
pub mod manifest;
pub mod mount;
pub mod varint;

use crate::apexinfo::created;
use crate::apexinfo::creates;
use crate::apexinfo::lemma_success_is_confirmed;
use crate::apexinfo::AApexInfo;
use crate::apexinfo::AApexInfoError;
use crate::apexinfo::ApexInfoView;
use crate::apexinfo::ErrorView;
use crate::manifest::parse_manifest_spec;
use crate::mount::is_manifest_of;
use crate::mount::module_name;
use vstd::prelude::*;

verus! {

/// A module was resolved and its handle handed out.
pub const AAPEXINFO_OK: i32 = 0;

/// There was no slot to put a handle in.
pub const AAPEXINFO_NULL: i32 = 1;

/// The executable does not lie in a module.
pub const AAPEXINFO_NO_APEX: i32 = 2;

/// The path of the executable could not be had.
pub const AAPEXINFO_ERROR_GET_EXECUTABLE_PATH: i32 = 3;

/// The module's manifest does not confirm the module.
pub const AAPEXINFO_INVALID_APEX: i32 = 4;

/// The status code that stands for a failure.
pub open spec fn error_code(e: ErrorView) -> i32 {
    match e {
        ErrorView::PathNotFromApex(_) => AAPEXINFO_NO_APEX,
        ErrorView::ExePathUnavailable(_) => AAPEXINFO_ERROR_GET_EXECUTABLE_PATH,
        ErrorView::InvalidApex(_) => AAPEXINFO_INVALID_APEX,
    }
}

/// The status code that stands for the result of a resolution.
pub open spec fn status_code(outcome: Result<ApexInfoView, ErrorView>) -> i32 {
    match outcome {
        Ok(_) => AAPEXINFO_OK,
        Err(e) => error_code(e),
    }
}

/// What a handle refers to, if it is present.
pub open spec fn handle_view(handle: Option<Box<AApexInfo>>) -> Option<ApexInfoView> {
    match handle {
        Some(info) => Some(info@),
        None => None,
    }
}

/// What a borrowed handle refers to, if it is present.
pub open spec fn borrowed_view(handle: Option<&AApexInfo>) -> Option<ApexInfoView> {
    match handle {
        Some(info) => Some(info@),
        None => None,
    }
}

/// What [`AApexInfo_getName`] hands out for a handle that refers to `info`:
/// the name and a zero byte after it, or nothing for an absent handle.
pub open spec fn name_of_handle(info: Option<ApexInfoView>) -> Option<Seq<u8>> {
    match info {
        Some(info) => Some(info.name.push(0u8)),
        None => None,
    }
}

/// What [`AApexInfo_getVersion`] hands out for a handle that refers to
/// `info`: the version, or -1 for an absent handle.
pub open spec fn version_of_handle(info: Option<ApexInfoView>) -> i64 {
    match info {
        Some(info) => info.version,
        None => -1i64,
    }
}

/// The status is [`AAPEXINFO_OK`] for a resolved module and for nothing else,
/// and no failure of a resolution is reported as [`AAPEXINFO_NULL`].
pub proof fn lemma_status_tells_success(outcome: Result<ApexInfoView, ErrorView>)
    ensures
        status_code(outcome) == AAPEXINFO_OK <==> outcome is Ok,
        status_code(outcome) != AAPEXINFO_NULL,
        AAPEXINFO_OK <= status_code(outcome) <= AAPEXINFO_INVALID_APEX,
{
}

/// Maps a failed resolution to its status code.
pub fn as_error_code(err: &AApexInfoError) -> (code: i32)
    ensures
        code == error_code(err@),
{
    match err {
        AApexInfoError::PathNotFromApex(_) => AAPEXINFO_NO_APEX,
        AApexInfoError::ExePathUnavailable(_) => AAPEXINFO_ERROR_GET_EXECUTABLE_PATH,
        AApexInfoError::InvalidApex(_) => AAPEXINFO_INVALID_APEX,
    }
}

/// Resolves the module of the running executable and puts a new handle to it
/// in `out`.
///
/// Without a slot nothing is resolved: neither `exe_path` nor `read_file` is
/// called, and the status is [`AAPEXINFO_NULL`]. With a slot, the module is
/// resolved as [`AApexInfo::create`] says. On success the slot holds the new
/// handle, in place of what it held before, and the status is
/// [`AAPEXINFO_OK`]; on failure the slot is left as it was and the status says
/// which failure it was.
#[allow(non_snake_case)]
pub fn AApexInfo_create<P, R>(
    out: Option<&mut Option<Box<AApexInfo>>>,
    exe_path: P,
    read_file: R,
) -> (code: i32) where
    P: FnOnce() -> Result<Vec<u8>, String>,
    R: FnOnce(&[u8]) -> Result<Vec<u8>, String>,

    requires
        out is Some ==> exe_path.requires(()),
        out is Some ==> forall|path: Vec<u8>, manifest: &[u8]|
            exe_path.ensures((), Ok(path)) && is_manifest_of(manifest@, path@)
                ==> read_file.requires((manifest,)),
    ensures
        match out {
            None => code == AAPEXINFO_NULL,
            Some(slot) => exists|outcome: Result<ApexInfoView, ErrorView>|
                {
                    &&& #[trigger] creates(exe_path, read_file, outcome)
                    &&& code == status_code(outcome)
                    &&& match outcome {
                        Ok(info) => handle_view(*final(slot)) == Some(info),
                        Err(_) => *final(slot) == *slot,
                    }
                },
        },
{
    match out {
        None => AAPEXINFO_NULL,
        Some(slot) => {
            match AApexInfo::create(exe_path, read_file) {
                Ok(info) => {
                    let ghost outcome = Ok::<ApexInfoView, ErrorView>(info@);
                    *slot = Some(Box::new(info));
                    assert(creates(exe_path, read_file, outcome));
                    AAPEXINFO_OK
                },
                Err(err) => {
                    let ghost outcome = Err::<ApexInfoView, ErrorView>(err@);
                    assert(creates(exe_path, read_file, outcome));
                    as_error_code(&err)
                },
            }
        },
    }
}

/// Takes a handle back and releases what it refers to. An absent handle is
/// accepted and nothing is done for it. The handle is given up by the call, so
/// it can be neither used nor released again.
#[allow(non_snake_case)]
pub fn AApexInfo_destroy(info: Option<Box<AApexInfo>>) {
}

/// The name of the module that the handle refers to, followed by one zero
/// byte, borrowed from the handle. Nothing for an absent handle.
#[allow(non_snake_case)]
pub fn AApexInfo_getName(info: Option<&AApexInfo>) -> (name: Option<&[u8]>)
    ensures
        name_of_handle(borrowed_view(info)) == match name {
            Some(bytes) => Some(bytes@),
            None => None,
        },
{
    match info {
        None => None,
        Some(info) => Some(info.name_with_nul()),
    }
}

/// The version of the module that the handle refers to; -1 for an absent
/// handle.
#[allow(non_snake_case)]
pub fn AApexInfo_getVersion(info: Option<&AApexInfo>) -> (version: i64)
    ensures
        version == version_of_handle(borrowed_view(info)),
{
    match info {
        None => -1,
        Some(info) => info.version(),
    }
}

/// What the accessors hand out for a handle is what its resolution found: the
/// name that the executable's path gave and the manifest declared, with a
/// zero byte after it and none inside, and the version that the manifest
/// declared.
pub proof fn lemma_handle_keeps_resolved_identity(
    exe: Result<Seq<u8>, Seq<char>>,
    file: Result<Seq<u8>, Seq<char>>,
    info: ApexInfoView,
)
    requires
        created(exe, file) == Ok::<ApexInfoView, ErrorView>(info),
    ensures
        exe is Ok && file is Ok,
        module_name(exe->Ok_0) is Some && parse_manifest_spec(file->Ok_0) is Ok,
        name_of_handle(Some(info)) == Some(module_name(exe->Ok_0)->0.push(0u8)),
        name_of_handle(Some(info)) == Some(parse_manifest_spec(file->Ok_0)->Ok_0.name.push(0u8)),
        !parse_manifest_spec(file->Ok_0)->Ok_0.name.contains(0u8),
        version_of_handle(Some(info)) == parse_manifest_spec(file->Ok_0)->Ok_0.version,
{
    lemma_success_is_confirmed(exe, file, info);
}

} // verus!
