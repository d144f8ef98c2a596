use vstd::prelude::*;

use crate::attr::FileType;
use crate::error::FsError;
use crate::tree::str_eq;

verus! {

/// Directory of the encrypted attribute records, one file per inode.
pub const INODES_DIR: &'static str = "inodes";
/// Directory of the content artifacts, one per inode.
pub const CONTENTS_DIR: &'static str = "contents";
/// Directory of the key material.
pub const SECURITY_DIR: &'static str = "security";
/// The master key, encrypted under the key derived from the passphrase.
pub const KEY_ENC_FILENAME: &'static str = "key.enc";
/// The salt of the key derivation, in clear.
pub const KEY_SALT_FILENAME: &'static str = "key.salt";
/// Per-directory listing index.
pub const LS_DIR: &'static str = "ls";
/// Per-directory lookup index.
pub const HASH_DIR: &'static str = "hash";
/// On-disk name of the `.` entry.
pub const SELF_ENTRY: &'static str = "$.";
/// On-disk name of the `..` entry.
pub const PARENT_ENTRY: &'static str = "$..";

/// The character of a decimal digit.
pub open spec fn decimal_digit(d: nat) -> char {
    if d == 0 { '0' }
    else if d == 1 { '1' }
    else if d == 2 { '2' }
    else if d == 3 { '3' }
    else if d == 4 { '4' }
    else if d == 5 { '5' }
    else if d == 6 { '6' }
    else if d == 7 { '7' }
    else if d == 8 { '8' }
    else { '9' }
}

/// The decimal digits of `n`, without leading zeros.
pub open spec fn decimal_of(n: nat) -> Seq<char>
    decreases n,
{
    if n < 10 {
        seq![decimal_digit(n)]
    } else {
        decimal_of(n / 10) + seq![decimal_digit(n % 10)]
    }
}

/// The character of a lower-case hex digit.
pub open spec fn hex_digit(d: nat) -> char {
    if d < 10 { decimal_digit(d) }
    else if d == 10 { 'a' }
    else if d == 11 { 'b' }
    else if d == 12 { 'c' }
    else if d == 13 { 'd' }
    else if d == 14 { 'e' }
    else { 'f' }
}

/// Two lower-case hex digits for each byte, high half first.
pub open spec fn hex_of(bytes: Seq<u8>) -> Seq<char>
    decreases bytes.len(),
{
    if bytes.len() == 0 {
        Seq::empty()
    } else {
        hex_of(bytes.drop_last()) + seq![
            hex_digit(bytes.last() as nat / 16),
            hex_digit(bytes.last() as nat % 16),
        ]
    }
}

proof fn lemma_hex_of_index(b: Seq<u8>)
    ensures
        hex_of(b).len() == 2 * b.len(),
        forall|i: int|
            0 <= i < b.len() ==> hex_of(b)[2 * i] == hex_digit(#[trigger] b[i] as nat / 16)
                && hex_of(b)[2 * i + 1] == hex_digit(b[i] as nat % 16),
    decreases b.len(),
{
    if b.len() > 0 {
        let p = b.drop_last();
        lemma_hex_of_index(p);
        assert forall|i: int| 0 <= i < b.len() implies hex_of(b)[2 * i] == hex_digit(
            #[trigger] b[i] as nat / 16,
        ) && hex_of(b)[2 * i + 1] == hex_digit(b[i] as nat % 16) by {
            if i < p.len() {
                assert(b[i] == p[i]);
            }
        }
    }
}

proof fn lemma_hex_digit_injective(x: nat, y: nat)
    requires
        x < 16,
        y < 16,
        hex_digit(x) == hex_digit(y),
    ensures
        x == y,
{
}

/// Distinct byte strings have distinct hex forms.
proof fn lemma_hex_of_injective(a: Seq<u8>, b: Seq<u8>)
    requires
        hex_of(a) == hex_of(b),
    ensures
        a == b,
{
    lemma_hex_of_index(a);
    lemma_hex_of_index(b);
    assert forall|i: int| 0 <= i < a.len() implies a[i] == b[i] by {
        assert(hex_of(a)[2 * i] == hex_of(b)[2 * i]);
        assert(hex_of(a)[2 * i + 1] == hex_of(b)[2 * i + 1]);
        lemma_hex_digit_injective(a[i] as nat / 16, b[i] as nat / 16);
        lemma_hex_digit_injective(a[i] as nat % 16, b[i] as nat % 16);
        let x = a[i];
        let y = b[i];
        assert(x == y) by (nonlinear_arith)
            requires
                x as nat / 16 == y as nat / 16,
                x as nat % 16 == y as nat % 16,
        {
        }
    }
    assert(a =~= b);
}

/// Names whose keyed hashes differ have different lookup entries in a
/// directory, so a lookup by name reaches only the entry written for that
/// name.
pub proof fn lemma_hash_paths_distinct(parent: u64, d1: Seq<u8>, d2: Seq<u8>)
    requires
        d1 != d2,
    ensures
        spec_hash_artifact_path(parent, d1) != spec_hash_artifact_path(parent, d2),
{
    let prefix = join(spec_contents_path(parent), HASH_DIR@) + seq!['/'];
    let path_a = spec_hash_artifact_path(parent, d1);
    let path_b = spec_hash_artifact_path(parent, d2);
    assert(path_a == prefix + hex_of(d1));
    assert(path_b == prefix + hex_of(d2));
    if path_a == path_b {
        assert(hex_of(d1) =~= path_a.subrange(prefix.len() as int, path_a.len() as int));
        assert(hex_of(d2) =~= path_b.subrange(prefix.len() as int, path_b.len() as int));
        lemma_hex_of_injective(d1, d2);
    }
}

/// Relies on `u64::to_string` (std's `Display` for integers): the decimal
/// digits, no sign, no leading zeros.
#[verifier::external_body]
fn decimal(n: u64) -> (r: String)
    ensures
        r@ == decimal_of(n as nat),
{
    n.to_string()
}

/// Relies on `hex::encode`: two lower-case hex digits per byte, high half
/// first.
#[verifier::external_body]
fn hex_encode(bytes: &[u8]) -> (r: String)
    ensures
        r@ == hex_of(bytes@),
{
    hex::encode(bytes)
}

/// `a/b`.
pub open spec fn join(a: Seq<char>, b: Seq<char>) -> Seq<char> {
    a + seq!['/'] + b
}

fn join_str(a: String, b: &str) -> (r: String)
    ensures
        r@ == join(a@, b@),
{
    proof {
        reveal_strlit("/");
    }
    a.concat("/").concat(b)
}

/// `inodes/<ino>`: the attribute record of `ino`.
pub open spec fn spec_inode_path(ino: u64) -> Seq<char> {
    join(INODES_DIR@, decimal_of(ino as nat))
}

/// `contents/<ino>`: the content artifact of `ino`.
pub open spec fn spec_contents_path(ino: u64) -> Seq<char> {
    join(CONTENTS_DIR@, decimal_of(ino as nat))
}

/// `contents/<parent>/ls/<disk_name>`: the listing entry of a name.
pub open spec fn spec_ls_artifact_path(parent: u64, disk_name: Seq<char>) -> Seq<char> {
    join(join(spec_contents_path(parent), LS_DIR@), disk_name)
}

/// `contents/<parent>/hash/<hex>`: the lookup entry of a name whose keyed
/// hash is `digest`.
pub open spec fn spec_hash_artifact_path(parent: u64, digest: Seq<u8>) -> Seq<char> {
    join(join(spec_contents_path(parent), HASH_DIR@), hex_of(digest))
}

/// The path, relative to the data directory, of the record of `ino`.
pub fn inode_path(ino: u64) -> (r: String)
    ensures
        r@ == spec_inode_path(ino),
{
    join_str(String::from_str(INODES_DIR), decimal(ino).as_str())
}

/// The path, relative to the data directory, of the content of `ino`.
pub fn contents_path(ino: u64) -> (r: String)
    ensures
        r@ == spec_contents_path(ino),
{
    join_str(String::from_str(CONTENTS_DIR), decimal(ino).as_str())
}

/// The listing index directory of directory `ino`.
pub fn ls_dir_path(ino: u64) -> (r: String)
    ensures
        r@ == join(spec_contents_path(ino), LS_DIR@),
{
    join_str(contents_path(ino), LS_DIR)
}

/// The lookup index directory of directory `ino`.
pub fn hash_dir_path(ino: u64) -> (r: String)
    ensures
        r@ == join(spec_contents_path(ino), HASH_DIR@),
{
    join_str(contents_path(ino), HASH_DIR)
}

/// The listing entry of the on-disk name `disk_name` in `parent`.
pub fn ls_artifact_path(parent: u64, disk_name: &str) -> (r: String)
    ensures
        r@ == spec_ls_artifact_path(parent, disk_name@),
{
    join_str(ls_dir_path(parent), disk_name)
}

/// The hex form of a keyed name hash: the file name of its lookup entry.
pub fn hash_artifact_name(digest: &[u8]) -> (r: String)
    ensures
        r@ == hex_of(digest@),
{
    hex_encode(digest)
}

/// The lookup entry, in `parent`, of the name whose keyed hash is `digest`.
pub fn hash_artifact_path(parent: u64, digest: &[u8]) -> (r: String)
    ensures
        r@ == spec_hash_artifact_path(parent, digest@),
{
    let name = hash_artifact_name(digest);
    join_str(hash_dir_path(parent), name.as_str())
}

/// `security/key.enc`.
pub fn key_enc_path() -> (r: String)
    ensures
        r@ == join(SECURITY_DIR@, KEY_ENC_FILENAME@),
{
    join_str(String::from_str(SECURITY_DIR), KEY_ENC_FILENAME)
}

/// `security/key.salt`.
pub fn key_salt_path() -> (r: String)
    ensures
        r@ == join(SECURITY_DIR@, KEY_SALT_FILENAME@),
{
    join_str(String::from_str(SECURITY_DIR), KEY_SALT_FILENAME)
}

/// The name callers see for a synthetic on-disk name: `.` for `$.`, `..`
/// for `$..`; `None` for a name that must be decrypted.
pub fn synthetic_logical_name(disk_name: &str) -> (r: Option<&'static str>)
    ensures
        disk_name@ == SELF_ENTRY@ ==> r is Some && r->0@ == seq!['.'],
        disk_name@ == PARENT_ENTRY@ ==> r is Some && r->0@ == seq!['.', '.'],
        disk_name@ != SELF_ENTRY@ && disk_name@ != PARENT_ENTRY@ ==> r is None,
{
    proof {
        reveal_strlit(".");
        reveal_strlit("..");
        reveal_strlit("$.");
        reveal_strlit("$..");
        assert(SELF_ENTRY@ == "$."@);
        assert(PARENT_ENTRY@ == "$.."@);
        assert(SELF_ENTRY@.len() != PARENT_ENTRY@.len());
    }
    if str_eq(disk_name, SELF_ENTRY) {
        Some(".")
    } else if str_eq(disk_name, PARENT_ENTRY) {
        Some("..")
    } else {
        None
    }
}

/// The listing entry of a directory entry: file name, and the encrypted
/// `(ino, kind)` it holds.
#[derive(Clone, Debug, PartialEq, Eq)]
pub struct LsArtifact {
    pub name: String,
    pub ino: u64,
    pub kind: FileType,
}

/// The lookup entry of a directory entry: file name, and the encrypted
/// `(ino, kind, encrypted name)` it holds. The encrypted name is the file
/// name of the paired listing entry.
#[derive(Clone, Debug, PartialEq, Eq)]
pub struct HashArtifact {
    pub name: String,
    pub ino: u64,
    pub kind: FileType,
    pub encrypted_name: String,
}

/// The two artifacts that stand for one directory entry.
#[derive(Clone, Debug, PartialEq, Eq)]
pub struct DirEntryArtifacts {
    pub ls: LsArtifact,
    pub hash: HashArtifact,
}

/// The lookup entry names an existing listing entry and agrees with it on
/// inode and kind.
pub open spec fn coherent(a: DirEntryArtifacts) -> bool {
    &&& a.hash.encrypted_name@ == a.ls.name@
    &&& a.hash.ino == a.ls.ino
    &&& a.hash.kind == a.ls.kind
}

/// The artifacts of an entry for inode `ino` of kind `kind`, whose name is
/// stored on disk as `disk_name` and hashes to `digest`.
pub fn entry_artifacts(ino: u64, kind: FileType, disk_name: &str, digest: &[u8]) -> (r: DirEntryArtifacts)
    ensures
        r.ls.name@ == disk_name@,
        r.ls.ino == ino,
        r.ls.kind == kind,
        r.hash.name@ == hex_of(digest@),
        coherent(r),
{
    let ls = LsArtifact { name: String::from_str(disk_name), ino, kind };
    let hash = HashArtifact {
        name: hash_artifact_name(digest),
        ino,
        kind,
        encrypted_name: String::from_str(disk_name),
    };
    DirEntryArtifacts { ls, hash }
}

/// The names a data directory holds when its structure is complete.
pub open spec fn is_layout_dir(name: Seq<char>) -> bool {
    name == INODES_DIR@ || name == CONTENTS_DIR@ || name == SECURITY_DIR@
}

/// The outcome of the check of a data directory that exists as a
/// directory (`is_dir`), holds the entries `entries`, and whose two key
/// files exist as files or not.
pub open spec fn spec_check_structure(
    is_dir: bool,
    entries: Seq<Seq<char>>,
    ignore_empty: bool,
    key_enc_is_file: bool,
    key_salt_is_file: bool,
) -> Result<(), FsError> {
    if !is_dir {
        Err(FsError::InvalidDataDirStructure)
    } else if entries.len() == 0 && ignore_empty {
        Ok(())
    } else if entries.len() == 3 && entries.contains(INODES_DIR@) && entries.contains(
        CONTENTS_DIR@,
    ) && entries.contains(SECURITY_DIR@) && key_enc_is_file && key_salt_is_file {
        Ok(())
    } else {
        Err(FsError::InvalidDataDirStructure)
    }
}

/// Whether `entries` holds `name`.
fn contains_name(entries: &Vec<String>, name: &str) -> (r: bool)
    ensures
        r == entries@.map_values(|s: String| s@).contains(name@),
{
    let ghost names = entries@.map_values(|s: String| s@);
    let mut i: usize = 0;
    while i < entries.len()
        invariant
            names == entries@.map_values(|s: String| s@),
            i <= entries@.len(),
            forall|k: int| 0 <= k < i ==> names[k] != name@,
        decreases entries@.len() - i,
    {
        if str_eq(entries[i].as_str(), name) {
            assert(names[i as int] == name@);
            return true;
        }
        i = i + 1;
    }
    false
}

/// Checks the structure of a data directory: it must hold exactly the
/// attribute, content and security directories and both key files; an
/// empty one passes when `ignore_empty` is set.
pub fn check_structure(
    is_dir: bool,
    entries: &Vec<String>,
    ignore_empty: bool,
    key_enc_is_file: bool,
    key_salt_is_file: bool,
) -> (r: Result<(), FsError>)
    ensures
        r == spec_check_structure(
            is_dir,
            entries@.map_values(|s: String| s@),
            ignore_empty,
            key_enc_is_file,
            key_salt_is_file,
        ),
{
    if !is_dir {
        return Err(FsError::InvalidDataDirStructure);
    }
    if entries.len() == 0 && ignore_empty {
        return Ok(());
    }
    if entries.len() == 3 && contains_name(entries, INODES_DIR) && contains_name(
        entries,
        CONTENTS_DIR,
    ) && contains_name(entries, SECURITY_DIR) && key_enc_is_file && key_salt_is_file {
        Ok(())
    } else {
        Err(FsError::InvalidDataDirStructure)
    }
}

} // verus!
