//! The identity of the module that an executable was launched from.
//!
//! Resolution starts from the path of the executable. The path names a module
//! if it lies below the mount root; the module's manifest then has to be read,
//! has to be well formed, and has to declare the name that the path gave.
//! Only then does an [`AApexInfo`] exist.
//!
//! Nothing here touches the file system. The path of the executable and the
//! content of the manifest come from the caller, as values or as functions
//! that are called when, and only when, their answer is needed.

use crate::manifest::encode_manifest;
use crate::manifest::lemma_manifest_round_trip;
use crate::manifest::lemma_parsed_name_is_text;
use crate::manifest::parse_manifest;
use crate::manifest::parse_manifest_spec;
use crate::manifest::ManifestError;
use crate::manifest::ManifestView;
use crate::mount::is_manifest_of;
use crate::mount::lemma_module_name_inside_module_dir;
use crate::mount::lemma_module_name_shape;
use crate::mount::manifest_file_name;
use crate::mount::manifest_path_of;
use crate::mount::module_dir;
use crate::mount::module_name;
use crate::mount::module_name_of;
use crate::mount::mount_root;
use crate::mount::SEPARATOR;
use vstd::prelude::*;
use vstd::slice::slice_subrange;
use vstd::slice::slice_to_vec;

verus! {

/// The name and version of an active module, confirmed by its manifest.
#[derive(Debug)]
pub struct AApexInfo {
    /// The name, followed by one zero byte.
    name: Vec<u8>,
    version: i64,
}

/// The name and version of a module, as a mathematical value.
pub struct ApexInfoView {
    /// The name, without a terminator.
    pub name: Seq<u8>,
    /// The version that the manifest declared.
    pub version: i64,
}

/// Why a module's manifest does not confirm the module.
#[derive(Debug, PartialEq, Eq)]
pub enum InvalidApexReason {
    /// The manifest could not be read; the cause is the reader's.
    ManifestUnreadable(String),
    /// The manifest was read and is not well formed.
    ManifestMalformed(ManifestError),
    /// The manifest declares another name than the path gave.
    NameMismatch {
        /// The name that the path gave.
        expected: Vec<u8>,
        /// The name that the manifest declares.
        declared: Vec<u8>,
    },
}

/// Why no module could be resolved.
#[derive(Debug, PartialEq, Eq)]
pub enum AApexInfoError {
    /// The executable's path, carried here, names no module.
    PathNotFromApex(Vec<u8>),
    /// The path of the executable could not be had; the cause is the
    /// provider's.
    ExePathUnavailable(String),
    /// The path names a module whose manifest does not confirm it.
    InvalidApex(InvalidApexReason),
}

/// An [`InvalidApexReason`] as a mathematical value.
pub enum ReasonView {
    /// The manifest could not be read, for the cause given.
    ManifestUnreadable(Seq<char>),
    /// The manifest was read and is not well formed.
    ManifestMalformed(ManifestError),
    /// The manifest declares another name than the path gave.
    NameMismatch { expected: Seq<u8>, declared: Seq<u8> },
}

/// An [`AApexInfoError`] as a mathematical value.
pub enum ErrorView {
    /// The path, carried here, names no module.
    PathNotFromApex(Seq<u8>),
    /// The path of the executable could not be had, for the cause given.
    ExePathUnavailable(Seq<char>),
    /// The path names a module whose manifest does not confirm it.
    InvalidApex(ReasonView),
}

impl View for InvalidApexReason {
    type V = ReasonView;

    open spec fn view(&self) -> ReasonView {
        match self {
            InvalidApexReason::ManifestUnreadable(cause) => ReasonView::ManifestUnreadable(cause@),
            InvalidApexReason::ManifestMalformed(e) => ReasonView::ManifestMalformed(*e),
            InvalidApexReason::NameMismatch { expected, declared } => ReasonView::NameMismatch {
                expected: expected@,
                declared: declared@,
            },
        }
    }
}

impl View for AApexInfoError {
    type V = ErrorView;

    open spec fn view(&self) -> ErrorView {
        match self {
            AApexInfoError::PathNotFromApex(path) => ErrorView::PathNotFromApex(path@),
            AApexInfoError::ExePathUnavailable(cause) => ErrorView::ExePathUnavailable(cause@),
            AApexInfoError::InvalidApex(reason) => ErrorView::InvalidApex(reason@),
        }
    }
}

impl View for AApexInfo {
    type V = ApexInfoView;

    closed spec fn view(&self) -> ApexInfoView {
        ApexInfoView { name: self.name@.drop_last(), version: self.version }
    }
}

/// What a provider or a reader answered, as a mathematical value.
pub open spec fn answer_view(answer: Result<Vec<u8>, String>) -> Result<Seq<u8>, Seq<char>> {
    match answer {
        Ok(bytes) => Ok(bytes@),
        Err(cause) => Err(cause@),
    }
}

/// The result of a resolution, as a mathematical value.
pub open spec fn outcome_view(outcome: Result<AApexInfo, AApexInfoError>) -> Result<
    ApexInfoView,
    ErrorView,
> {
    match outcome {
        Ok(info) => Ok(info@),
        Err(e) => Err(e@),
    }
}

/// What the manifest says of the module that the path named `name`, where
/// `file` is what reading the manifest gave.
pub open spec fn confirmed(name: Seq<u8>, file: Result<Seq<u8>, Seq<char>>) -> Result<
    ApexInfoView,
    ErrorView,
> {
    match file {
        Err(cause) => Err(ErrorView::InvalidApex(ReasonView::ManifestUnreadable(cause))),
        Ok(bytes) => match parse_manifest_spec(bytes) {
            Err(e) => Err(ErrorView::InvalidApex(ReasonView::ManifestMalformed(e))),
            Ok(manifest) => if manifest.name == name {
                Ok(ApexInfoView { name: manifest.name, version: manifest.version })
            } else {
                Err(
                    ErrorView::InvalidApex(
                        ReasonView::NameMismatch { expected: name, declared: manifest.name },
                    ),
                )
            },
        },
    }
}

/// The module that the executable at `path` was launched from, where `file`
/// is what reading that module's manifest gave. `file` counts only where the
/// path names a module.
pub open spec fn resolved(path: Seq<u8>, file: Result<Seq<u8>, Seq<char>>) -> Result<
    ApexInfoView,
    ErrorView,
> {
    match module_name(path) {
        None => Err(ErrorView::PathNotFromApex(path)),
        Some(name) => confirmed(name, file),
    }
}

/// The module that the running executable was launched from, where `exe` is
/// what asking for the executable's path gave and `file` what reading the
/// manifest gave. `file` counts only where `exe` is a path that names a
/// module.
pub open spec fn created(
    exe: Result<Seq<u8>, Seq<char>>,
    file: Result<Seq<u8>, Seq<char>>,
) -> Result<ApexInfoView, ErrorView> {
    match exe {
        Err(cause) => Err(ErrorView::ExePathUnavailable(cause)),
        Ok(path) => resolved(path, file),
    }
}

/// `outcome` is a possible result of resolving `path` with `read_file` as the
/// reader of files. Where `path` names no module, nothing is read. Where it
/// names one, `read_file` answered to the path of that module's manifest, and
/// `outcome` is what [`resolved`] makes of the answer.
pub open spec fn resolves<R: FnOnce(&[u8]) -> Result<Vec<u8>, String>>(
    path: Seq<u8>,
    read_file: R,
    outcome: Result<ApexInfoView, ErrorView>,
) -> bool {
    if module_name(path) is None {
        outcome == Err::<ApexInfoView, ErrorView>(ErrorView::PathNotFromApex(path))
    } else {
        exists|manifest: &[u8], file: Result<Vec<u8>, String>|
            is_manifest_of(manifest@, path) && #[trigger] read_file.ensures((manifest,), file)
                && outcome == resolved(path, answer_view(file))
    }
}

/// `outcome` is a possible result of a resolution with `exe_path` as the
/// provider of the executable's path and `read_file` as the reader of files.
/// Either `exe_path` failed, nothing was read, and `outcome` carries the
/// cause; or it gave a path, and `outcome` is a possible result of resolving
/// that path.
pub open spec fn creates<
    P: FnOnce() -> Result<Vec<u8>, String>,
    R: FnOnce(&[u8]) -> Result<Vec<u8>, String>,
>(exe_path: P, read_file: R, outcome: Result<ApexInfoView, ErrorView>) -> bool {
    ||| exists|cause: String| #[trigger]
        exe_path.ensures((), Err(cause)) && outcome == Err::<ApexInfoView, ErrorView>(
            ErrorView::ExePathUnavailable(cause@),
        )
    ||| exists|path: Vec<u8>| #[trigger]
        exe_path.ensures((), Ok(path)) && resolves(path@, read_file, outcome)
}

impl AApexInfo {
    #[verifier::type_invariant]
    spec fn is_terminated_module_name(&self) -> bool {
        &&& self.name@.len() > 1
        &&& self.name@.last() == 0u8
        &&& !self.name@.drop_last().contains(0u8)
        &&& !self.name@.drop_last().contains(SEPARATOR)
    }

    /// Confirms by its manifest the module that a path named `name`.
    fn confirm(name: Vec<u8>, file: Result<Vec<u8>, String>) -> (r: Result<
        AApexInfo,
        AApexInfoError,
    >)
        requires
            name@.len() > 0,
            !name@.contains(SEPARATOR),
        ensures
            outcome_view(r) == confirmed(name@, answer_view(file)),
    {
        let bytes = match file {
            Err(cause) => {
                return Err(
                    AApexInfoError::InvalidApex(InvalidApexReason::ManifestUnreadable(cause)),
                );
            },
            Ok(bytes) => bytes,
        };
        let manifest = match parse_manifest(bytes.as_slice()) {
            Err(e) => {
                return Err(AApexInfoError::InvalidApex(InvalidApexReason::ManifestMalformed(e)));
            },
            Ok(manifest) => manifest,
        };
        proof {
            lemma_parsed_name_is_text(bytes@);
        }
        if !same_bytes(manifest.name.as_slice(), name.as_slice()) {
            return Err(
                AApexInfoError::InvalidApex(
                    InvalidApexReason::NameMismatch { expected: name, declared: manifest.name },
                ),
            );
        }
        let mut buffer = manifest.name;
        buffer.push(0);
        assert(buffer@.drop_last() =~= name@);
        Ok(AApexInfo { name: buffer, version: manifest.version })
    }

    /// Resolves the module that the executable at `exe_path` was launched
    /// from, where the manifest has been read already.
    ///
    /// `file` is what reading the manifest of the module that `exe_path` names
    /// gave: its bytes, or the cause of the failure. It is not looked at if
    /// `exe_path` names no module. The module is resolved if the bytes are a
    /// manifest that declares the name that `exe_path` gave; its version is
    /// the declared one.
    pub fn resolve_with(exe_path: &[u8], file: Result<Vec<u8>, String>) -> (r: Result<
        AApexInfo,
        AApexInfoError,
    >)
        ensures
            outcome_view(r) == resolved(exe_path@, answer_view(file)),
    {
        proof {
            lemma_module_name_shape(exe_path@);
        }
        match module_name_of(exe_path) {
            None => Err(AApexInfoError::PathNotFromApex(slice_to_vec(exe_path))),
            Some(name) => AApexInfo::confirm(name, file),
        }
    }

    /// Resolves the module that the executable at `exe_path` was launched
    /// from.
    ///
    /// `read_file` is called once, with the path of the module's manifest, if
    /// `exe_path` names a module, and not at all if it does not. Whatever it
    /// answers is judged as [`AApexInfo::resolve_with`] says.
    pub fn resolve<R>(exe_path: &[u8], read_file: R) -> (r: Result<AApexInfo, AApexInfoError>)
        where R: FnOnce(&[u8]) -> Result<Vec<u8>, String>
        requires
            forall|manifest: &[u8]|
                is_manifest_of(manifest@, exe_path@) ==> read_file.requires((manifest,)),
        ensures
            resolves(exe_path@, read_file, outcome_view(r)),
    {
        proof {
            lemma_module_name_shape(exe_path@);
        }
        match module_name_of(exe_path) {
            None => Err(AApexInfoError::PathNotFromApex(slice_to_vec(exe_path))),
            Some(name) => {
                let location = manifest_path_of(name.as_slice());
                let manifest = location.as_slice();
                let file = read_file(manifest);
                assert(is_manifest_of(manifest@, exe_path@) && read_file.ensures(
                    (manifest,),
                    file,
                ));
                AApexInfo::confirm(name, file)
            },
        }
    }

    /// Resolves the module that the running executable was launched from.
    ///
    /// `exe_path` is called once, for the path of the running executable. If
    /// it fails, `read_file` is not called; else the path is resolved as
    /// [`AApexInfo::resolve`] says.
    pub fn create<P, R>(exe_path: P, read_file: R) -> (r: Result<AApexInfo, AApexInfoError>)
        where P: FnOnce() -> Result<Vec<u8>, String>, R: FnOnce(&[u8]) -> Result<Vec<u8>, String>
        requires
            exe_path.requires(()),
            forall|path: Vec<u8>, manifest: &[u8]|
                exe_path.ensures((), Ok(path)) && is_manifest_of(manifest@, path@)
                    ==> read_file.requires((manifest,)),
        ensures
            creates(exe_path, read_file, outcome_view(r)),
    {
        match exe_path() {
            Err(cause) => {
                assert(exe_path.ensures((), Err(cause)));
                Err(AApexInfoError::ExePathUnavailable(cause))
            },
            Ok(path) => {
                assert(exe_path.ensures((), Ok(path)));
                AApexInfo::resolve(path.as_slice(), read_file)
            },
        }
    }

    /// The module's name and, after it, one zero byte. The name itself holds
    /// no zero byte.
    pub fn name_with_nul(&self) -> (r: &[u8])
        ensures
            r@ == self@.name.push(0u8),
            !self@.name.contains(0u8),
    {
        proof {
            use_type_invariant(self);
            assert(self.name@ =~= self.name@.drop_last().push(0u8));
        }
        self.name.as_slice()
    }

    /// The module's name: not empty, and without a separator.
    pub fn name(&self) -> (r: &[u8])
        ensures
            r@ == self@.name,
            r@.len() > 0,
            !r@.contains(SEPARATOR),
    {
        proof {
            use_type_invariant(self);
            assert(self.name@.drop_last() =~= self.name@.subrange(0, self.name@.len() - 1));
        }
        slice_subrange(self.name.as_slice(), 0, self.name.len() - 1)
    }

    /// The module's version.
    pub fn version(&self) -> (r: i64)
        ensures
            r == self@.version,
    {
        self.version
    }
}

/// Tells whether two byte strings are equal.
fn same_bytes(a: &[u8], b: &[u8]) -> (r: bool)
    ensures
        r == (a@ == b@),
{
    if a.len() != b.len() {
        return false;
    }
    let mut i: usize = 0;
    while i < a.len()
        invariant
            i <= a.len() == b.len(),
            forall|j: int| 0 <= j < i ==> a[j] == b[j],
        decreases a.len() - i,
    {
        if a[i] != b[i] {
            return false;
        }
        i = i + 1;
    }
    assert(a@ =~= b@);
    true
}

/// A path that does not start with the mount root is reported as not from a
/// module, whatever a reader would answer. More exactly, a path is reported so
/// if and only if it names no module.
pub proof fn lemma_path_outside_mount_root(path: Seq<u8>, file: Result<Seq<u8>, Seq<char>>)
    ensures
        !mount_root().is_prefix_of(path) ==> resolved(path, file) == Err::<ApexInfoView, ErrorView>(
            ErrorView::PathNotFromApex(path),
        ),
        module_name(path) is None <==> resolved(path, file) == Err::<ApexInfoView, ErrorView>(
            ErrorView::PathNotFromApex(path),
        ),
{
    if !mount_root().is_prefix_of(path) {
        lemma_module_name_shape(path);
    }
}

/// An executable anywhere inside the directory of the module `name`, whose
/// manifest declares `name` and `version`, resolves to `name` and `version`,
/// and the manifest that counts is the one in that directory.
pub proof fn lemma_module_with_its_manifest_resolves(
    name: Seq<u8>,
    rest: Seq<u8>,
    bytes: Seq<u8>,
    version: i64,
)
    requires
        name.len() > 0,
        !name.contains(SEPARATOR),
        parse_manifest_spec(bytes) == Ok::<ManifestView, ManifestError>(
            ManifestView { name, version },
        ),
    ensures
        resolved(module_dir(name) + rest, Ok(bytes)) == Ok::<ApexInfoView, ErrorView>(
            ApexInfoView { name, version },
        ),
        is_manifest_of(module_dir(name) + manifest_file_name(), module_dir(name) + rest),
{
    lemma_module_name_inside_module_dir(name, rest);
}

/// Every name that is not empty and holds neither a separator nor a zero byte
/// can be resolved with every version: an executable inside the module's
/// directory resolves to them if the manifest is made of the two fields that
/// declare them.
pub proof fn lemma_declared_module_resolves(name: Seq<u8>, rest: Seq<u8>, version: i64)
    requires
        0 < name.len() <= u64::MAX,
        !name.contains(SEPARATOR),
        !name.contains(0u8),
    ensures
        resolved(module_dir(name) + rest, Ok(encode_manifest(ManifestView { name, version })))
            == Ok::<ApexInfoView, ErrorView>(ApexInfoView { name, version }),
{
    lemma_manifest_round_trip(ManifestView { name, version });
    lemma_module_with_its_manifest_resolves(
        name,
        rest,
        encode_manifest(ManifestView { name, version }),
        version,
    );
}

/// Below the mount root, a manifest that declares another name than the path
/// gave makes the module invalid.
pub proof fn lemma_other_name_is_invalid(path: Seq<u8>, bytes: Seq<u8>)
    requires
        module_name(path) is Some,
        parse_manifest_spec(bytes) matches Ok(manifest) && Some(manifest.name) != module_name(path),
    ensures
        resolved(path, Ok(bytes)) == Err::<ApexInfoView, ErrorView>(
            ErrorView::InvalidApex(
                ReasonView::NameMismatch {
                    expected: module_name(path)->0,
                    declared: parse_manifest_spec(bytes)->Ok_0.name,
                },
            ),
        ),
{
}

/// Below the mount root, a manifest that cannot be read or is not well formed
/// makes the module invalid, and the reason tells the two apart.
pub proof fn lemma_unusable_manifest_is_invalid(path: Seq<u8>, file: Result<Seq<u8>, Seq<char>>)
    requires
        module_name(path) is Some,
    ensures
        file matches Err(cause) ==> resolved(path, file) == Err::<ApexInfoView, ErrorView>(
            ErrorView::InvalidApex(ReasonView::ManifestUnreadable(cause)),
        ),
        file matches Ok(bytes) ==> (parse_manifest_spec(bytes) matches Err(e) ==> resolved(
            path,
            file,
        ) == Err::<ApexInfoView, ErrorView>(
            ErrorView::InvalidApex(ReasonView::ManifestMalformed(e)),
        )),
{
}

/// Where the path of the executable cannot be had, the failure carries the
/// cause, whatever a reader would answer.
pub proof fn lemma_failed_provider(cause: Seq<char>, file: Result<Seq<u8>, Seq<char>>)
    ensures
        created(Err(cause), file) == Err::<ApexInfoView, ErrorView>(
            ErrorView::ExePathUnavailable(cause),
        ),
{
}

/// A provider that can only fail decides the outcome alone: the outcome
/// carries one of its causes, and nothing is asked of the reader, not even
/// that it can be called.
pub proof fn lemma_failed_provider_reads_nothing<
    P: FnOnce() -> Result<Vec<u8>, String>,
    R: FnOnce(&[u8]) -> Result<Vec<u8>, String>,
>(exe_path: P, read_file: R, outcome: Result<ApexInfoView, ErrorView>)
    requires
        creates(exe_path, read_file, outcome),
        forall|path: Vec<u8>| !exe_path.ensures((), Ok(path)),
    ensures
        exists|cause: String| #[trigger]
            exe_path.ensures((), Err(cause)) && outcome == Err::<ApexInfoView, ErrorView>(
                ErrorView::ExePathUnavailable(cause@),
            ),
{
}

/// Every possible result of a resolution is what [`created`] makes of an
/// answer of the provider and, where a manifest had to be read, of an answer
/// of the reader.
pub proof fn lemma_creates_as_created<
    P: FnOnce() -> Result<Vec<u8>, String>,
    R: FnOnce(&[u8]) -> Result<Vec<u8>, String>,
>(exe_path: P, read_file: R, outcome: Result<ApexInfoView, ErrorView>)
    requires
        creates(exe_path, read_file, outcome),
    ensures
        exists|exe: Result<Vec<u8>, String>, file: Result<Vec<u8>, String>|
            exe_path.ensures((), exe) && outcome == #[trigger] created(
                answer_view(exe),
                answer_view(file),
            ),
{
    let nothing: Result<Vec<u8>, String> = arbitrary();
    if exists|cause: String| #[trigger]
        exe_path.ensures((), Err(cause)) && outcome == Err::<ApexInfoView, ErrorView>(
            ErrorView::ExePathUnavailable(cause@),
        ) {
        let cause = choose|cause: String| #[trigger]
            exe_path.ensures((), Err(cause)) && outcome == Err::<ApexInfoView, ErrorView>(
                ErrorView::ExePathUnavailable(cause@),
            );
        let exe: Result<Vec<u8>, String> = Err(cause);
        assert(outcome == created(answer_view(exe), answer_view(nothing)));
    } else {
        let path = choose|path: Vec<u8>| #[trigger]
            exe_path.ensures((), Ok(path)) && resolves(path@, read_file, outcome);
        let exe: Result<Vec<u8>, String> = Ok(path);
        if module_name(path@) is None {
            assert(outcome == created(answer_view(exe), answer_view(nothing)));
        } else {
            let (manifest, file) = choose|manifest: &[u8], file: Result<Vec<u8>, String>|
                is_manifest_of(manifest@, path@) && #[trigger] read_file.ensures((manifest,), file)
                    && outcome == resolved(path@, answer_view(file));
            assert(outcome == created(answer_view(exe), answer_view(file)));
        }
    }
}

/// A module is resolved only from a path that names it and a manifest that
/// declares its name and version: there is no success without both.
pub proof fn lemma_success_is_confirmed(
    exe: Result<Seq<u8>, Seq<char>>,
    file: Result<Seq<u8>, Seq<char>>,
    info: ApexInfoView,
)
    requires
        created(exe, file) == Ok::<ApexInfoView, ErrorView>(info),
    ensures
        exe matches Ok(path) && module_name(path) == Some(info.name),
        file matches Ok(bytes) && parse_manifest_spec(bytes) == Ok::<ManifestView, ManifestError>(
            ManifestView { name: info.name, version: info.version },
        ),
        info.name.len() > 0,
        !info.name.contains(SEPARATOR),
        !info.name.contains(0u8),
{
    let path = exe->Ok_0;
    lemma_module_name_shape(path);
    lemma_parsed_name_is_text(file->Ok_0);
}

} // verus!
