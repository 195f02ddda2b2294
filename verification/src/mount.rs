//! Where modules are mounted, and how a path names the module it lies in.
//!
//! Every active module is mounted in a directory of its own directly below
//! the mount root, and its manifest is a file directly inside that directory.
//! Paths are byte strings and are compared byte by byte: nothing here looks at
//! the file system, and no segment is given a meaning of its own.

use vstd::prelude::*;
use vstd::slice::slice_subrange;
use vstd::slice::slice_to_vec;

verus! {

/// The byte that separates the segments of a path: `/`.
pub const SEPARATOR: u8 = 0x2f;

/// The directory below which modules are mounted: `/apex`.
pub const MOUNT_ROOT: [u8; 5] = [0x2f, 0x61, 0x70, 0x65, 0x78];

/// The name of the manifest inside a module's directory: `apex_manifest.pb`.
pub const MANIFEST_FILE_NAME: [u8; 16] = [
    0x61, 0x70, 0x65, 0x78, 0x5f, 0x6d, 0x61, 0x6e,
    0x69, 0x66, 0x65, 0x73, 0x74, 0x2e, 0x70, 0x62,
];

/// The mount root as a sequence of bytes.
pub open spec fn mount_root() -> Seq<u8> {
    MOUNT_ROOT@
}

/// The name of the manifest file as a sequence of bytes.
pub open spec fn manifest_file_name() -> Seq<u8> {
    MANIFEST_FILE_NAME@
}

/// The bytes of `s` before its first separator, all of `s` if it has none.
pub open spec fn leading_segment(s: Seq<u8>) -> Seq<u8>
    decreases s.len(),
{
    if s.len() == 0 || s[0] == SEPARATOR {
        Seq::empty()
    } else {
        seq![s[0]] + leading_segment(s.drop_first())
    }
}

/// The path starts with the mount root and a separator.
pub open spec fn below_mount_root(path: Seq<u8>) -> bool {
    (mount_root() + seq![SEPARATOR]).is_prefix_of(path)
}

/// The name of the module that `path` lies in: the segment that follows the
/// mount root. `None` if the path is not below the mount root or that segment
/// is empty.
pub open spec fn module_name(path: Seq<u8>) -> Option<Seq<u8>> {
    let name = leading_segment(path.skip(mount_root().len() as int + 1));
    if below_mount_root(path) && name.len() > 0 {
        Some(name)
    } else {
        None
    }
}

/// The directory in which the module `name` is mounted, with the separator
/// that ends it.
pub open spec fn module_dir(name: Seq<u8>) -> Seq<u8> {
    mount_root() + seq![SEPARATOR] + name + seq![SEPARATOR]
}

/// The path of the manifest of the module `name`.
pub open spec fn manifest_path(name: Seq<u8>) -> Seq<u8> {
    module_dir(name) + manifest_file_name()
}

/// `manifest` is the path of the manifest of the module that `path` lies in.
pub open spec fn is_manifest_of(manifest: Seq<u8>, path: Seq<u8>) -> bool {
    &&& module_name(path) matches Some(name)
    &&& manifest == manifest_path(name)
}

/// A stretch without a separator that ends at a separator or at the end of
/// `s` is the leading segment of `s`.
pub proof fn lemma_leading_segment_is(s: Seq<u8>, n: int)
    requires
        0 <= n <= s.len(),
        forall|i: int| 0 <= i < n ==> s[i] != SEPARATOR,
        n == s.len() || s[n] == SEPARATOR,
    ensures
        leading_segment(s) == s.subrange(0, n),
    decreases n,
{
    if n == 0 {
        assert(s.subrange(0, 0) =~= Seq::<u8>::empty());
    } else {
        let t = s.drop_first();
        assert forall|i: int| 0 <= i < n - 1 implies t[i] != SEPARATOR by {
            assert(t[i] == s[i + 1]);
        }
        lemma_leading_segment_is(t, n - 1);
        assert(s.subrange(0, n) =~= seq![s[0]] + t.subrange(0, n - 1));
    }
}

/// The leading segment is a prefix of the sequence, holds no separator, and
/// ends at a separator or at the end.
pub proof fn lemma_leading_segment_shape(s: Seq<u8>)
    ensures
        leading_segment(s).len() <= s.len(),
        leading_segment(s) == s.subrange(0, leading_segment(s).len() as int),
        !leading_segment(s).contains(SEPARATOR),
        leading_segment(s).len() == s.len() || s[leading_segment(s).len() as int] == SEPARATOR,
    decreases s.len(),
{
    if s.len() == 0 || s[0] == SEPARATOR {
        assert(s.subrange(0, 0) =~= Seq::<u8>::empty());
    } else {
        let t = s.drop_first();
        lemma_leading_segment_shape(t);
        let n = leading_segment(t).len() as int;
        assert(s.subrange(0, n + 1) =~= seq![s[0]] + t.subrange(0, n));
        assert(n < t.len() ==> t[n] == s[n + 1]);
        assert forall|i: int| 0 <= i < n + 1 implies leading_segment(s)[i] != SEPARATOR by {
            if i > 0 {
                assert(leading_segment(t).contains(leading_segment(t)[i - 1]));
            }
        }
    }
}

/// The name of a module is not empty and holds no separator, and the path is
/// the module's directory, with or without the separator that ends it, or
/// lies inside that directory.
pub proof fn lemma_module_name_shape(path: Seq<u8>)
    ensures
        module_name(path) matches Some(name) ==> {
            &&& name.len() > 0
            &&& !name.contains(SEPARATOR)
            &&& path == mount_root() + seq![SEPARATOR] + name || module_dir(name).is_prefix_of(
                path,
            )
        },
        module_name(path) is Some ==> mount_root().is_prefix_of(path),
{
    if let Some(name) = module_name(path) {
        let start = mount_root().len() as int + 1;
        let tail = path.skip(start);
        lemma_leading_segment_shape(tail);
        assert(path.subrange(0, start) == mount_root() + seq![SEPARATOR]);
        assert(path.subrange(0, start + name.len()) =~= mount_root() + seq![SEPARATOR] + name);
        assert(path.subrange(0, mount_root().len() as int) =~= mount_root());
        if name.len() < tail.len() {
            assert(tail[name.len() as int] == path[start + name.len()]);
            assert(path.subrange(0, start + name.len() + 1) =~= module_dir(name));
        } else {
            assert(path =~= path.subrange(0, start + name.len()));
        }
    }
}

/// Every path inside the directory of a module names that module, if the
/// module's name is not empty and holds no separator.
pub proof fn lemma_module_name_inside_module_dir(name: Seq<u8>, rest: Seq<u8>)
    requires
        name.len() > 0,
        !name.contains(SEPARATOR),
    ensures
        module_name(module_dir(name) + rest) == Some(name),
{
    let path = module_dir(name) + rest;
    let start = mount_root().len() as int + 1;
    let tail = path.skip(start);
    assert(path.subrange(0, start) =~= mount_root() + seq![SEPARATOR]);
    assert forall|i: int| 0 <= i < name.len() implies tail[i] != SEPARATOR by {
        assert(tail[i] == name[i]);
    }
    assert(tail[name.len() as int] == SEPARATOR);
    lemma_leading_segment_is(tail, name.len() as int);
    assert(tail.subrange(0, name.len() as int) =~= name);
}

/// A sequence agrees with each of its prefixes at every index of the prefix.
proof fn lemma_prefix_agrees(prefix: Seq<u8>, s: Seq<u8>, i: int)
    requires
        0 <= i < prefix.len(),
    ensures
        prefix.is_prefix_of(s) ==> s[i] == prefix[i],
{
    if prefix.is_prefix_of(s) {
        assert(s.subrange(0, prefix.len() as int)[i] == prefix[i]);
    }
}

/// Tells whether `path` starts with the mount root and a separator.
pub fn is_below_mount_root(path: &[u8]) -> (r: bool)
    ensures
        r == below_mount_root(path@),
{
    let root_len: usize = MOUNT_ROOT.len();
    if path.len() <= root_len {
        return false;
    }
    let mut i: usize = 0;
    while i < root_len
        invariant
            i <= root_len == MOUNT_ROOT@.len() < path.len(),
            forall|j: int| 0 <= j < i ==> path[j] == MOUNT_ROOT[j],
        decreases root_len - i,
    {
        if path[i] != MOUNT_ROOT[i] {
            proof {
                lemma_prefix_agrees(mount_root() + seq![SEPARATOR], path@, i as int);
            }
            return false;
        }
        i = i + 1;
    }
    if path[root_len] != SEPARATOR {
        proof {
            lemma_prefix_agrees(mount_root() + seq![SEPARATOR], path@, root_len as int);
        }
        return false;
    }
    assert(path@.subrange(0, root_len + 1) =~= mount_root() + seq![SEPARATOR]);
    true
}

/// Extracts the name of the module that `path` lies in.
///
/// The name is the segment right after the mount root. A path outside the
/// mount root, the mount root itself, and a path whose segment after the mount
/// root is empty name no module.
pub fn module_name_of(path: &[u8]) -> (r: Option<Vec<u8>>)
    ensures
        match r {
            Some(name) => module_name(path@) == Some(name@),
            None => module_name(path@) is None,
        },
{
    if !is_below_mount_root(path) {
        return None;
    }
    let start: usize = MOUNT_ROOT.len() + 1;
    let mut end: usize = start;
    while end < path.len() && path[end] != SEPARATOR
        invariant
            start <= end <= path.len(),
            forall|i: int| start <= i < end ==> path[i] != SEPARATOR,
        decreases path.len() - end,
    {
        end = end + 1;
    }
    proof {
        let tail = path@.skip(start as int);
        lemma_leading_segment_is(tail, end - start);
        assert(tail.subrange(0, end - start) =~= path@.subrange(start as int, end as int));
    }
    if end == start {
        None
    } else {
        Some(slice_to_vec(slice_subrange(path, start, end)))
    }
}

/// Builds the path of the manifest of the module `name`.
pub fn manifest_path_of(name: &[u8]) -> (r: Vec<u8>)
    ensures
        r@ == manifest_path(name@),
{
    let mut out: Vec<u8> = Vec::new();
    out.extend_from_slice(MOUNT_ROOT.as_slice());
    out.push(SEPARATOR);
    out.extend_from_slice(name);
    out.push(SEPARATOR);
    out.extend_from_slice(MANIFEST_FILE_NAME.as_slice());
    assert(out@ =~= manifest_path(name@));
    out
}

} // verus!
