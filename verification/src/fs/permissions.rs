//! POSIX-style permission checking for filesystem operations.
use vstd::prelude::*;
use vstd::string::*;
use crate::text::push_char;
use super::{Stat, InodeType, FsError, FsResult};

verus! {

/// Access modes for permission checks
#[derive(Debug, Clone, Copy, PartialEq, Eq, Structural)]
pub enum AccessMode {
    /// Check for read permission
    Read,
    /// Check for write permission
    Write,
    /// Check for execute permission
    Execute,
    /// Check if file exists (no permission check)
    Exists,
}

/// Owner can read
pub const S_IRUSR: u16 = 0o400;
/// Owner can write
pub const S_IWUSR: u16 = 0o200;
/// Owner can execute
pub const S_IXUSR: u16 = 0o100;
/// Group can read
pub const S_IRGRP: u16 = 0o040;
/// Group can write
pub const S_IWGRP: u16 = 0o020;
/// Group can execute
pub const S_IXGRP: u16 = 0o010;
/// Others can read
pub const S_IROTH: u16 = 0o004;
/// Others can write
pub const S_IWOTH: u16 = 0o002;
/// Others can execute
pub const S_IXOTH: u16 = 0o001;
/// Setuid bit
pub const S_ISUID: u16 = 0o4000;
/// Setgid bit
pub const S_ISGID: u16 = 0o2000;
/// Sticky bit
pub const S_ISVTX: u16 = 0o1000;
/// All owner permissions
pub const S_IRWXU: u16 = 0o700;
/// All group permissions
pub const S_IRWXG: u16 = 0o070;
/// All other permissions
pub const S_IRWXO: u16 = 0o007;

/// Credentials of the thread on whose behalf an access is checked.
#[derive(Debug, Clone)]
pub struct Credentials {
    /// Effective user ID
    pub uid: u32,
    /// Effective group ID
    pub gid: u32,
    /// Supplementary groups
    pub groups: Vec<u32>,
    /// Holds the capability to bypass discretionary access control
    pub has_dac_override: bool,
    /// Holds the capability to change file ownership
    pub has_chown: bool,
}

impl Credentials {
    /// The credentials of kernel context: root with every capability.
    pub fn kernel() -> (c: Credentials)
        ensures
            c.uid == 0,
            c.gid == 0,
            c.groups@.len() == 0,
            c.has_dac_override,
            c.has_chown,
    {
        Credentials { uid: 0, gid: 0, groups: Vec::new(), has_dac_override: true, has_chown: true }
    }
}

/// The permission bit that `mode` asks for in the class (owner, group, other) that applies.
pub open spec fn required_bit(stat: Stat, mode: AccessMode, uid: u32, gid: u32, groups: Seq<u32>) -> u16 {
    let class = if uid == stat.uid {
        0int
    } else if gid == stat.gid || groups.contains(stat.gid) {
        1int
    } else {
        2int
    };
    match mode {
        AccessMode::Read => if class == 0 { S_IRUSR } else if class == 1 { S_IRGRP } else { S_IROTH },
        AccessMode::Write => if class == 0 { S_IWUSR } else if class == 1 { S_IWGRP } else { S_IWOTH },
        _ => if class == 0 { S_IXUSR } else if class == 1 { S_IXGRP } else { S_IXOTH },
    }
}

/// Whether the credentials may access the file in the given mode.
pub open spec fn access_allowed(stat: Stat, mode: AccessMode, creds_uid: u32, creds_gid: u32, groups: Seq<u32>, dac_override: bool) -> bool {
    if mode == AccessMode::Exists {
        true
    } else if creds_uid == 0 && dac_override && mode != AccessMode::Execute {
        true
    } else if creds_uid == 0 && dac_override && (stat.permissions & (S_IXUSR | S_IXGRP | S_IXOTH) != 0
        || stat.inode_type == InodeType::Directory) {
        true
    } else {
        stat.permissions & required_bit(stat, mode, creds_uid, creds_gid, groups) != 0
    }
}

/// Root with the DAC override may read and write any file, whatever its permission
/// bits, owner and group; it may execute exactly what has some execute bit set, and
/// search any directory. Existence is never refused.
pub proof fn law_access_root(stat: Stat, gid: u32, groups: Seq<u32>)
    ensures
        access_allowed(stat, AccessMode::Read, 0, gid, groups, true),
        access_allowed(stat, AccessMode::Write, 0, gid, groups, true),
        access_allowed(stat, AccessMode::Exists, 0, gid, groups, true),
        access_allowed(stat, AccessMode::Execute, 0, gid, groups, true) <==> (stat.permissions & 0o111u16 != 0
            || stat.inode_type == InodeType::Directory),
{
    let p = stat.permissions;
    lemma_exec_bits();
    assert((p & 0o100u16 != 0 || p & 0o010u16 != 0 || p & 0o001u16 != 0) ==> (p & 0o111u16) != 0);
}

/// The three execute bits together are 0o111, and a mode has one of them exactly
/// when it meets 0o111.
proof fn lemma_exec_bits()
    by (bit_vector)
    ensures
        0o100u16 | 0o010u16 | 0o001u16 == 0o111u16,
        forall|p: u16| (p & 0o100u16 != 0 || p & 0o010u16 != 0 || p & 0o001u16 != 0) ==> #[trigger] (p & 0o111u16) != 0,
{
}

/// Without the root override, access is decided by one class of bits: the owner's
/// (`rwx` at 0o700) when the user owns the file, else the group's (0o070) when the
/// user is in the file's group, else the others' (0o007); existence is never refused.
pub proof fn law_access_classes(stat: Stat, uid: u32, gid: u32, groups: Seq<u32>, dac_override: bool)
    requires
        !(uid == 0 && dac_override),
    ensures
        access_allowed(stat, AccessMode::Exists, uid, gid, groups, dac_override),
        uid == stat.uid ==> {
            &&& access_allowed(stat, AccessMode::Read, uid, gid, groups, dac_override) == (stat.permissions & 0o400u16 != 0)
            &&& access_allowed(stat, AccessMode::Write, uid, gid, groups, dac_override) == (stat.permissions & 0o200u16 != 0)
            &&& access_allowed(stat, AccessMode::Execute, uid, gid, groups, dac_override) == (stat.permissions & 0o100u16 != 0)
        },
        uid != stat.uid && (gid == stat.gid || groups.contains(stat.gid)) ==> {
            &&& access_allowed(stat, AccessMode::Read, uid, gid, groups, dac_override) == (stat.permissions & 0o040u16 != 0)
            &&& access_allowed(stat, AccessMode::Write, uid, gid, groups, dac_override) == (stat.permissions & 0o020u16 != 0)
            &&& access_allowed(stat, AccessMode::Execute, uid, gid, groups, dac_override) == (stat.permissions & 0o010u16 != 0)
        },
        uid != stat.uid && !(gid == stat.gid || groups.contains(stat.gid)) ==> {
            &&& access_allowed(stat, AccessMode::Read, uid, gid, groups, dac_override) == (stat.permissions & 0o004u16 != 0)
            &&& access_allowed(stat, AccessMode::Write, uid, gid, groups, dac_override) == (stat.permissions & 0o002u16 != 0)
            &&& access_allowed(stat, AccessMode::Execute, uid, gid, groups, dac_override) == (stat.permissions & 0o001u16 != 0)
        },
{
}

fn contains_u32(v: &Vec<u32>, x: u32) -> (b: bool)
    ensures
        b == v@.contains(x),
{
    let mut i: usize = 0;
    while i < v.len()
        invariant
            i <= v.len(),
            forall|j: int| 0 <= j < i ==> v@[j] != x,
        decreases v.len() - i,
    {
        if v[i] == x {
            return true;
        }
        i = i + 1;
    }
    false
}

/// Check if the given credentials have the specified access to a file.
///
/// Returns Ok(()) if access is allowed, Err(FsError::PermissionDenied) otherwise.
pub fn check_access(stat: &Stat, mode: AccessMode, creds: &Credentials) -> (r: FsResult<()>)
    ensures
        r is Ok <==> access_allowed(*stat, mode, creds.uid, creds.gid, creds.groups@, creds.has_dac_override),
        r is Err ==> r == Err::<(), FsError>(FsError::PermissionDenied),
{
    let uid = creds.uid;
    let gid = creds.gid;
    if mode == AccessMode::Exists {
        return Ok(());
    }
    if uid == 0 && creds.has_dac_override {
        if mode == AccessMode::Execute {
            if stat.permissions & (S_IXUSR | S_IXGRP | S_IXOTH) != 0 {
                return Ok(());
            }
            if stat.inode_type == InodeType::Directory {
                return Ok(());
            }
        } else {
            return Ok(());
        }
    }
    let (read_bit, write_bit, exec_bit) = if uid == stat.uid {
        (S_IRUSR, S_IWUSR, S_IXUSR)
    } else if gid == stat.gid || contains_u32(&creds.groups, stat.gid) {
        (S_IRGRP, S_IWGRP, S_IXGRP)
    } else {
        (S_IROTH, S_IWOTH, S_IXOTH)
    };
    let required = match mode {
        AccessMode::Read => read_bit,
        AccessMode::Write => write_bit,
        AccessMode::Execute => exec_bit,
        AccessMode::Exists => {
            return Ok(());
        },
    };
    if stat.permissions & required != 0 {
        Ok(())
    } else {
        Err(FsError::PermissionDenied)
    }
}

/// Check read access
pub fn check_read(stat: &Stat, creds: &Credentials) -> (r: FsResult<()>)
    ensures
        r is Ok <==> access_allowed(*stat, AccessMode::Read, creds.uid, creds.gid, creds.groups@, creds.has_dac_override),
        r is Err ==> r == Err::<(), FsError>(FsError::PermissionDenied),
{
    check_access(stat, AccessMode::Read, creds)
}

/// Check write access
pub fn check_write(stat: &Stat, creds: &Credentials) -> (r: FsResult<()>)
    ensures
        r is Ok <==> access_allowed(*stat, AccessMode::Write, creds.uid, creds.gid, creds.groups@, creds.has_dac_override),
        r is Err ==> r == Err::<(), FsError>(FsError::PermissionDenied),
{
    check_access(stat, AccessMode::Write, creds)
}

/// Check execute access
pub fn check_execute(stat: &Stat, creds: &Credentials) -> (r: FsResult<()>)
    ensures
        r is Ok <==> access_allowed(*stat, AccessMode::Execute, creds.uid, creds.gid, creds.groups@, creds.has_dac_override),
        r is Err ==> r == Err::<(), FsError>(FsError::PermissionDenied),
{
    check_access(stat, AccessMode::Execute, creds)
}

/// The character shown for one permission position.
pub open spec fn perm_char(mode: u16, bit: u16, c: char) -> char {
    if mode & bit != 0 { c } else { '-' }
}

/// The character shown for an execute position combined with a special bit.
pub open spec fn exec_char(mode: u16, exec_bit: u16, special: u16, set_exec: char, set_noexec: char) -> char {
    if mode & exec_bit != 0 {
        if mode & special != 0 { set_exec } else { 'x' }
    } else {
        if mode & special != 0 { set_noexec } else { '-' }
    }
}

/// `ls`-style rendering of the permission bits, e.g. `rwxr-xr-x`.
pub open spec fn format_permissions_spec(mode: u16) -> Seq<char> {
    seq![
        perm_char(mode, S_IRUSR, 'r'),
        perm_char(mode, S_IWUSR, 'w'),
        exec_char(mode, S_IXUSR, S_ISUID, 's', 'S'),
        perm_char(mode, S_IRGRP, 'r'),
        perm_char(mode, S_IWGRP, 'w'),
        exec_char(mode, S_IXGRP, S_ISGID, 's', 'S'),
        perm_char(mode, S_IROTH, 'r'),
        perm_char(mode, S_IWOTH, 'w'),
        exec_char(mode, S_IXOTH, S_ISVTX, 't', 'T'),
    ]
}

fn perm_c(mode: u16, bit: u16, c: char) -> (r: char)
    ensures
        r == perm_char(mode, bit, c),
{
    if mode & bit != 0 { c } else { '-' }
}

fn exec_c(mode: u16, exec_bit: u16, special: u16, set_exec: char, set_noexec: char) -> (r: char)
    ensures
        r == exec_char(mode, exec_bit, special, set_exec, set_noexec),
{
    if mode & exec_bit != 0 {
        if mode & special != 0 { set_exec } else { 'x' }
    } else {
        if mode & special != 0 { set_noexec } else { '-' }
    }
}

/// Format permissions as a string (e.g., "rwxr-xr-x")
pub fn format_permissions(mode: u16) -> (s: String)
    ensures
        s@ == format_permissions_spec(mode),
{
    let mut s = String::new();
    push_char(&mut s, perm_c(mode, S_IRUSR, 'r'));
    push_char(&mut s, perm_c(mode, S_IWUSR, 'w'));
    push_char(&mut s, exec_c(mode, S_IXUSR, S_ISUID, 's', 'S'));
    push_char(&mut s, perm_c(mode, S_IRGRP, 'r'));
    push_char(&mut s, perm_c(mode, S_IWGRP, 'w'));
    push_char(&mut s, exec_c(mode, S_IXGRP, S_ISGID, 's', 'S'));
    push_char(&mut s, perm_c(mode, S_IROTH, 'r'));
    push_char(&mut s, perm_c(mode, S_IWOTH, 'w'));
    push_char(&mut s, exec_c(mode, S_IXOTH, S_ISVTX, 't', 'T'));
    assert(s@ =~= format_permissions_spec(mode));
    s
}

pub open spec fn is_octal_digit(c: char) -> bool {
    '0' <= c && c <= '7'
}

/// Value of a string of octal digits.
pub open spec fn octal_value(s: Seq<char>) -> nat
    decreases s.len(),
{
    if s.len() == 0 {
        0
    } else {
        octal_value(s.drop_last()) * 8 + ((s.last() as nat) - ('0' as nat)) as nat
    }
}

/// The digits of a mode string: everything after an optional leading `+`.
pub open spec fn mode_digits(s: Seq<char>) -> Seq<char> {
    if s.len() > 0 && s[0] == '+' { s.subrange(1, s.len() as int) } else { s }
}

/// The mode that a numeric octal string denotes, if it is a valid `u16`.
pub open spec fn parse_mode_spec(s: Seq<char>) -> Option<u16> {
    let d = mode_digits(s);
    if d.len() > 0 && (forall|i: int| 0 <= i < d.len() ==> is_octal_digit(d[i])) && octal_value(d) <= 0xffff {
        Some(octal_value(d) as u16)
    } else {
        None
    }
}

/// The `ls` string shows the nine permission bits in order, owner to others and
/// read, write, execute within each: a position shows a letter exactly when its bit
/// is set (read positions `r`, write positions `w`); the execute positions also show
/// set-user-id, set-group-id and sticky (`s`/`S`, `s`/`S`, `t`/`T`), lower case when
/// the execute bit is set too.
pub proof fn law_format_shows_bits(m: u16)
    ensures
        format_permissions_spec(m).len() == 9,
        (format_permissions_spec(m)[0] == 'r') == (m & 0o400u16 != 0) && (format_permissions_spec(m)[0] == 'r' || format_permissions_spec(m)[0] == '-'),
        (format_permissions_spec(m)[1] == 'w') == (m & 0o200u16 != 0) && (format_permissions_spec(m)[1] == 'w' || format_permissions_spec(m)[1] == '-'),
        (format_permissions_spec(m)[3] == 'r') == (m & 0o040u16 != 0) && (format_permissions_spec(m)[3] == 'r' || format_permissions_spec(m)[3] == '-'),
        (format_permissions_spec(m)[4] == 'w') == (m & 0o020u16 != 0) && (format_permissions_spec(m)[4] == 'w' || format_permissions_spec(m)[4] == '-'),
        (format_permissions_spec(m)[6] == 'r') == (m & 0o004u16 != 0) && (format_permissions_spec(m)[6] == 'r' || format_permissions_spec(m)[6] == '-'),
        (format_permissions_spec(m)[7] == 'w') == (m & 0o002u16 != 0) && (format_permissions_spec(m)[7] == 'w' || format_permissions_spec(m)[7] == '-'),
        (format_permissions_spec(m)[2] == 'x' || format_permissions_spec(m)[2] == 's') == (m & 0o100u16 != 0),
        (format_permissions_spec(m)[2] == 's' || format_permissions_spec(m)[2] == 'S') == (m & 0o4000u16 != 0),
        (format_permissions_spec(m)[5] == 'x' || format_permissions_spec(m)[5] == 's') == (m & 0o010u16 != 0),
        (format_permissions_spec(m)[5] == 's' || format_permissions_spec(m)[5] == 'S') == (m & 0o2000u16 != 0),
        (format_permissions_spec(m)[8] == 'x' || format_permissions_spec(m)[8] == 't') == (m & 0o001u16 != 0),
        (format_permissions_spec(m)[8] == 't' || format_permissions_spec(m)[8] == 'T') == (m & 0o1000u16 != 0),
        format_permissions_spec(m)[2] == '-' <==> m & 0o100u16 == 0 && m & 0o4000u16 == 0,
        format_permissions_spec(m)[5] == '-' <==> m & 0o010u16 == 0 && m & 0o2000u16 == 0,
        format_permissions_spec(m)[8] == '-' <==> m & 0o001u16 == 0 && m & 0o1000u16 == 0,
{
}

/// Mode strings are read in base 8, digit by digit: a single octal digit is its
/// value, one more digit multiplies by eight and adds it (while the value fits in 16
/// bits), and a string with a character other than an octal digit (after an
/// optional `+`) is refused.
pub proof fn law_parse_mode_octal(s: Seq<char>, c: char)
    ensures
        is_octal_digit(c) ==> parse_mode_spec(seq![c]) == Some(((c as u32) - ('0' as u32)) as u16),
        is_octal_digit(c) && parse_mode_spec(s) is Some && parse_mode_spec(s)->0 * 8 + ((c as u32) - ('0' as u32)) <= 0xffff
            ==> parse_mode_spec(s.push(c)) == Some((parse_mode_spec(s)->0 * 8 + ((c as u32) - ('0' as u32))) as u16),
        !is_octal_digit(c) && c != '+' ==> parse_mode_spec(s.push(c)) is None,
        parse_mode_spec(Seq::<char>::empty()) is None,
{
    let e = Seq::<char>::empty();
    assert(seq![c].drop_last() =~= e);
    if is_octal_digit(c) {
        assert(mode_digits(seq![c]) == seq![c]);
        assert(octal_value(seq![c]) == octal_value(e) * 8 + ((c as nat) - ('0' as nat)));
    }
    let t = s.push(c);
    let d = mode_digits(s);
    if s.len() > 0 {
        if s[0] == '+' {
            assert(mode_digits(t) =~= d.push(c));
        } else {
            assert(mode_digits(t) =~= t);
        }
        assert(mode_digits(t) =~= d.push(c));
        assert(mode_digits(t).drop_last() =~= d);
        if is_octal_digit(c) && parse_mode_spec(s) is Some {
            assert forall|i: int| 0 <= i < mode_digits(t).len() implies is_octal_digit(mode_digits(t)[i]) by {
                if i < d.len() {
                    assert(mode_digits(t)[i] == d[i]);
                }
            }
        }
        if !is_octal_digit(c) && c != '+' {
            assert(mode_digits(t)[mode_digits(t).len() - 1] == c);
        }
    } else {
        assert(t =~= seq![c]);
        if !is_octal_digit(c) && c != '+' {
            assert(mode_digits(t) == t);
            assert(t[0] == c);
        }
    }
}

proof fn lemma_octal_monotone(s: Seq<char>, k: int)
    requires
        0 <= k <= s.len(),
        forall|i: int| 0 <= i < s.len() ==> is_octal_digit(s[i]),
    ensures
        octal_value(s.subrange(0, k)) <= octal_value(s),
    decreases s.len() - k,
{
    if k < s.len() {
        lemma_octal_monotone(s, k + 1);
        assert(s.subrange(0, k + 1).drop_last() =~= s.subrange(0, k));
    } else {
        assert(s.subrange(0, k) =~= s);
    }
}

/// Parse a numeric mode string (e.g., "755") to permissions
pub fn parse_mode(s: &str) -> (r: Option<u16>)
    ensures
        r == parse_mode_spec(s@),
{
    let n = s.unicode_len();
    let mut start: usize = 0;
    if n > 0 && s.get_char(0) == '+' {
        start = 1;
    }
    let ghost d = mode_digits(s@);
    assert(d =~= s@.subrange(start as int, n as int));
    if start == n {
        return None;
    }
    let mut value: u32 = 0;
    let mut i: usize = start;
    while i < n
        invariant
            start <= i <= n,
            n == s@.len(),
            d == s@.subrange(start as int, n as int),
            d == mode_digits(s@),
            forall|j: int| 0 <= j < i - start ==> is_octal_digit(d[j]),
            value == octal_value(d.subrange(0, i - start)),
            value <= 0xffff,
        decreases n - i,
    {
        let c = s.get_char(i);
        assert(d[i - start] == c);
        if !('0' <= c && c <= '7') {
            assert(!is_octal_digit(d[i - start]));
            return None;
        }
        let digit = (c as u32) - ('0' as u32);
        assert(d.subrange(0, i + 1 - start).drop_last() =~= d.subrange(0, i - start));
        assert(octal_value(d.subrange(0, i + 1 - start)) == octal_value(d.subrange(0, i - start)) * 8 + digit);
        if value > 0x1fff || value * 8 + digit > 0xffff {
            proof {
                assert(octal_value(d.subrange(0, i + 1 - start)) > 0xffff);
                assert forall|j: int| 0 <= j < i + 1 - start implies is_octal_digit(d[j]) by {}
                if forall|j: int| 0 <= j < d.len() ==> is_octal_digit(d[j]) {
                    lemma_octal_monotone(d, i + 1 - start);
                }
            }
            return None;
        }
        value = value * 8 + digit;
        i = i + 1;
    }
    assert(d.subrange(0, n - start) =~= d);
    Some(value as u16)
}

/// Apply umask to a mode
pub fn apply_umask(mode: u16, umask: u16) -> (r: u16)
    ensures
        r == mode & !umask,
{
    mode & !umask
}

/// The umask applied to newly created files and directories.
pub const DEFAULT_UMASK: u16 = 0o022;

/// Get default file permissions (with umask)
pub fn default_file_mode() -> (r: u16)
    ensures
        r == 0o644,
{
    let r = apply_umask(0o666, DEFAULT_UMASK);
    assert(0o666u16 & !0o022u16 == 0o644u16) by (bit_vector);
    r
}

/// Get default directory permissions (with umask)
pub fn default_dir_mode() -> (r: u16)
    ensures
        r == 0o755,
{
    let r = apply_umask(0o777, DEFAULT_UMASK);
    assert(0o777u16 & !0o022u16 == 0o755u16) by (bit_vector);
    r
}

/// Check if the caller can change ownership: root, or holding the chown capability;
/// kernel context (`None`) always can.
pub fn can_chown(creds: Option<&Credentials>) -> (b: bool)
    ensures
        b == match creds {
            Some(c) => c.uid == 0 || c.has_chown,
            None => true,
        },
{
    match creds {
        Some(c) => c.uid == 0 || c.has_chown,
        None => true,
    }
}

/// Check if the caller can change mode: the owner or root; kernel context (`None`) always can.
pub fn can_chmod(stat: &Stat, creds: Option<&Credentials>) -> (b: bool)
    ensures
        b == match creds {
            Some(c) => c.uid == 0 || c.uid == stat.uid,
            None => true,
        },
{
    match creds {
        Some(c) => c.uid == 0 || c.uid == stat.uid,
        None => true,
    }
}

} // verus!
