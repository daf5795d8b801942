//! The mount primitive: a composable flag set and the validation that
//! turns the arguments of a mount or unmount into NUL-terminated byte
//! strings ready for the kernel.

use crate::error::{Error, ErrorView};
use vstd::prelude::*;
use vstd::utf8::encode_utf8;

verus! {

/// `MS_RDONLY`: mount read-only.
pub const MS_RDONLY: u64 = 0x01;

/// `MS_NOSUID`: ignore set-user-id and set-group-id bits.
pub const MS_NOSUID: u64 = 0x02;

/// `MS_NODEV`: disallow access to device special files.
pub const MS_NODEV: u64 = 0x04;

/// `MS_NOEXEC`: disallow program execution.
pub const MS_NOEXEC: u64 = 0x08;

/// `MS_SYNCHRONOUS`: writes are synced at once.
pub const MS_SYNCHRONOUS: u64 = 0x10;

/// `MS_REMOUNT`: alter the flags of a mounted filesystem.
pub const MS_REMOUNT: u64 = 0x20;

/// `MS_MANDLOCK`: allow mandatory locks.
pub const MS_MANDLOCK: u64 = 0x40;

/// `MS_DIRSYNC`: directory modifications are synchronous.
pub const MS_DIRSYNC: u64 = 0x80;

/// `MS_NOATIME`: do not update access times.
pub const MS_NOATIME: u64 = 0x0400;

/// `MS_NODIRATIME`: do not update directory access times.
pub const MS_NODIRATIME: u64 = 0x0800;

/// `MS_MOVE`: relocate an existing mount.
pub const MS_MOVE: u64 = 0x2000;

/// `MS_RELATIME`: update access times relative to modification.
pub const MS_RELATIME: u64 = 0x20_0000;

/// Every bit that has a name above.
pub const MS_ALL: u64 = 0x20_2CFF;

/// `MNT_DETACH`: lazy unmount, which succeeds on a busy target.
pub const MNT_DETACH: i32 = 0x2;

/// Reads `libc::MS_RDONLY`. The contract claims the value that libc gives
/// the constant on Linux, `0x01`.
#[verifier::external_body]
fn libc_ms_rdonly() -> (bits: u64)
    ensures
        bits == MS_RDONLY,
{
    libc::MS_RDONLY as u64
}

/// Reads `libc::MS_NOSUID`. The contract claims the value that libc gives
/// the constant on Linux, `0x02`.
#[verifier::external_body]
fn libc_ms_nosuid() -> (bits: u64)
    ensures
        bits == MS_NOSUID,
{
    libc::MS_NOSUID as u64
}

/// Reads `libc::MS_NODEV`. The contract claims the value that libc gives
/// the constant on Linux, `0x04`.
#[verifier::external_body]
fn libc_ms_nodev() -> (bits: u64)
    ensures
        bits == MS_NODEV,
{
    libc::MS_NODEV as u64
}

/// Reads `libc::MS_NOEXEC`. The contract claims the value that libc gives
/// the constant on Linux, `0x08`.
#[verifier::external_body]
fn libc_ms_noexec() -> (bits: u64)
    ensures
        bits == MS_NOEXEC,
{
    libc::MS_NOEXEC as u64
}

/// Reads `libc::MS_SYNCHRONOUS`. The contract claims the value that libc gives
/// the constant on Linux, `0x10`.
#[verifier::external_body]
fn libc_ms_synchronous() -> (bits: u64)
    ensures
        bits == MS_SYNCHRONOUS,
{
    libc::MS_SYNCHRONOUS as u64
}

/// Reads `libc::MS_REMOUNT`. The contract claims the value that libc gives
/// the constant on Linux, `0x20`.
#[verifier::external_body]
fn libc_ms_remount() -> (bits: u64)
    ensures
        bits == MS_REMOUNT,
{
    libc::MS_REMOUNT as u64
}

/// Reads `libc::MS_MANDLOCK`. The contract claims the value that libc gives
/// the constant on Linux, `0x40`.
#[verifier::external_body]
fn libc_ms_mandlock() -> (bits: u64)
    ensures
        bits == MS_MANDLOCK,
{
    libc::MS_MANDLOCK as u64
}

/// Reads `libc::MS_DIRSYNC`. The contract claims the value that libc gives
/// the constant on Linux, `0x80`.
#[verifier::external_body]
fn libc_ms_dirsync() -> (bits: u64)
    ensures
        bits == MS_DIRSYNC,
{
    libc::MS_DIRSYNC as u64
}

/// Reads `libc::MS_NOATIME`. The contract claims the value that libc gives
/// the constant on Linux, `0x0400`.
#[verifier::external_body]
fn libc_ms_noatime() -> (bits: u64)
    ensures
        bits == MS_NOATIME,
{
    libc::MS_NOATIME as u64
}

/// Reads `libc::MS_NODIRATIME`. The contract claims the value that libc gives
/// the constant on Linux, `0x0800`.
#[verifier::external_body]
fn libc_ms_nodiratime() -> (bits: u64)
    ensures
        bits == MS_NODIRATIME,
{
    libc::MS_NODIRATIME as u64
}

/// Reads `libc::MS_MOVE`. The contract claims the value that libc gives
/// the constant on Linux, `0x2000`.
#[verifier::external_body]
fn libc_ms_move() -> (bits: u64)
    ensures
        bits == MS_MOVE,
{
    libc::MS_MOVE as u64
}

/// Reads `libc::MS_RELATIME`. The contract claims the value that libc gives
/// the constant on Linux, `0x20_0000`.
#[verifier::external_body]
fn libc_ms_relatime() -> (bits: u64)
    ensures
        bits == MS_RELATIME,
{
    libc::MS_RELATIME as u64
}

/// Reads `libc::MNT_DETACH`. The contract claims the value that libc
/// gives the constant on Linux, `0x2`.
#[verifier::external_body]
fn libc_mnt_detach() -> (flags: i32)
    ensures
        flags == MNT_DETACH,
{
    libc::MNT_DETACH
}

/// A set of `MS_*` mount flags, held as the bit pattern the kernel reads.
/// A value is built afresh for each mount and carries no other state.
#[derive(Clone, Copy, Debug, PartialEq, Eq, Structural)]
pub struct MountFlags {
    pub bits: u64,
}

impl MountFlags {
    /// The set with the bit pattern `bits`.
    pub open spec fn of(bits: u64) -> MountFlags {
        MountFlags { bits }
    }

    /// Whether every flag of `other` is in `self`.
    pub open spec fn spec_contains(self, other: MountFlags) -> bool {
        self.bits & other.bits == other.bits
    }

    /// The set that holds the flags of both.
    pub open spec fn spec_union(self, other: MountFlags) -> MountFlags {
        MountFlags { bits: self.bits | other.bits }
    }

    /// The set that holds the flags common to both.
    pub open spec fn spec_intersection(self, other: MountFlags) -> MountFlags {
        MountFlags { bits: self.bits & other.bits }
    }

    /// The flags of `self` that are not in `other`.
    pub open spec fn spec_difference(self, other: MountFlags) -> MountFlags {
        MountFlags { bits: self.bits & !other.bits }
    }

    /// Whether the set is a single flag: exactly one bit.
    pub open spec fn is_single(self) -> bool {
        self.bits != 0 && self.bits & ((self.bits - 1) as u64) == 0
    }

    /// The empty set.
    pub fn empty() -> (r: MountFlags)
        ensures
            r.bits == 0,
    {
        MountFlags { bits: 0 }
    }

    /// Every named flag.
    pub fn all() -> (r: MountFlags)
        ensures
            r.bits == MS_ALL,
    {
        MountFlags { bits: MS_ALL }
    }

    /// Mount read-only.
    #[allow(non_snake_case)]
    pub fn RDONLY() -> (r: MountFlags)
        ensures
            r.bits == MS_RDONLY,
    {
        MountFlags { bits: libc_ms_rdonly() }
    }

    /// Ignore set-user-id and set-group-id bits.
    #[allow(non_snake_case)]
    pub fn NOSUID() -> (r: MountFlags)
        ensures
            r.bits == MS_NOSUID,
    {
        MountFlags { bits: libc_ms_nosuid() }
    }

    /// Disallow access to device special files.
    #[allow(non_snake_case)]
    pub fn NODEV() -> (r: MountFlags)
        ensures
            r.bits == MS_NODEV,
    {
        MountFlags { bits: libc_ms_nodev() }
    }

    /// Disallow program execution.
    #[allow(non_snake_case)]
    pub fn NOEXEC() -> (r: MountFlags)
        ensures
            r.bits == MS_NOEXEC,
    {
        MountFlags { bits: libc_ms_noexec() }
    }

    /// Sync writes at once.
    #[allow(non_snake_case)]
    pub fn SYNCHRONOUS() -> (r: MountFlags)
        ensures
            r.bits == MS_SYNCHRONOUS,
    {
        MountFlags { bits: libc_ms_synchronous() }
    }

    /// Alter the flags of a mounted filesystem.
    #[allow(non_snake_case)]
    pub fn REMOUNT() -> (r: MountFlags)
        ensures
            r.bits == MS_REMOUNT,
    {
        MountFlags { bits: libc_ms_remount() }
    }

    /// Allow mandatory locks.
    #[allow(non_snake_case)]
    pub fn MANDLOCK() -> (r: MountFlags)
        ensures
            r.bits == MS_MANDLOCK,
    {
        MountFlags { bits: libc_ms_mandlock() }
    }

    /// Make directory modifications synchronous.
    #[allow(non_snake_case)]
    pub fn DIRSYNC() -> (r: MountFlags)
        ensures
            r.bits == MS_DIRSYNC,
    {
        MountFlags { bits: libc_ms_dirsync() }
    }

    /// Do not update access times.
    #[allow(non_snake_case)]
    pub fn NOATIME() -> (r: MountFlags)
        ensures
            r.bits == MS_NOATIME,
    {
        MountFlags { bits: libc_ms_noatime() }
    }

    /// Do not update directory access times.
    #[allow(non_snake_case)]
    pub fn NODIRATIME() -> (r: MountFlags)
        ensures
            r.bits == MS_NODIRATIME,
    {
        MountFlags { bits: libc_ms_nodiratime() }
    }

    /// Relocate an existing mount.
    #[allow(non_snake_case)]
    pub fn MOVE() -> (r: MountFlags)
        ensures
            r.bits == MS_MOVE,
    {
        MountFlags { bits: libc_ms_move() }
    }

    /// Update access times relative to modification.
    #[allow(non_snake_case)]
    pub fn RELATIME() -> (r: MountFlags)
        ensures
            r.bits == MS_RELATIME,
    {
        MountFlags { bits: libc_ms_relatime() }
    }

    /// The bit pattern handed to the kernel.
    pub fn bits(&self) -> (r: u64)
        ensures
            r == self.bits,
    {
        self.bits
    }

    /// The set with exactly the bits of `bits`, or `None` where `bits`
    /// holds a bit that has no name.
    pub fn from_bits(bits: u64) -> (r: Option<MountFlags>)
        ensures
            r == if bits & !MS_ALL == 0 {
                Some(MountFlags { bits })
            } else {
                None
            },
    {
        if bits & !MS_ALL == 0 {
            Some(MountFlags { bits })
        } else {
            None
        }
    }

    /// The set with the named bits of `bits`; the others are dropped.
    pub fn from_bits_truncate(bits: u64) -> (r: MountFlags)
        ensures
            r.bits == bits & MS_ALL,
    {
        MountFlags { bits: bits & MS_ALL }
    }

    /// Whether no flag is set.
    pub fn is_empty(&self) -> (r: bool)
        ensures
            r == (self.bits == 0),
    {
        self.bits == 0
    }

    /// Whether every flag of `other` is set in `self`.
    #[verifier::when_used_as_spec(spec_contains)]
    pub fn contains(self, other: MountFlags) -> (r: bool)
        ensures
            r == self.spec_contains(other),
    {
        self.bits & other.bits == other.bits
    }

    /// The flags of both sets.
    #[verifier::when_used_as_spec(spec_union)]
    pub fn union(self, other: MountFlags) -> (r: MountFlags)
        ensures
            r == self.spec_union(other),
    {
        MountFlags { bits: self.bits | other.bits }
    }

    /// The flags common to both sets.
    #[verifier::when_used_as_spec(spec_intersection)]
    pub fn intersection(self, other: MountFlags) -> (r: MountFlags)
        ensures
            r == self.spec_intersection(other),
    {
        MountFlags { bits: self.bits & other.bits }
    }

    /// The flags of `self` without those of `other`.
    #[verifier::when_used_as_spec(spec_difference)]
    pub fn difference(self, other: MountFlags) -> (r: MountFlags)
        ensures
            r == self.spec_difference(other),
    {
        MountFlags { bits: self.bits & !other.bits }
    }
}

impl core::ops::BitOr for MountFlags {
    type Output = MountFlags;

    fn bitor(self, rhs: MountFlags) -> (r: MountFlags) {
        MountFlags { bits: self.bits | rhs.bits }
    }
}

impl vstd::std_specs::ops::BitOrSpecImpl for MountFlags {
    open spec fn obeys_bitor_spec() -> bool {
        true
    }

    open spec fn bitor_req(self, rhs: MountFlags) -> bool {
        true
    }

    open spec fn bitor_spec(self, rhs: MountFlags) -> MountFlags {
        self.spec_union(rhs)
    }
}

/// A union holds each of its operands, whatever else is set.
pub proof fn lemma_union_contains_operands(a: MountFlags, b: MountFlags)
    ensures
        a.union(b).contains(a),
        a.union(b).contains(b),
{
    let x = a.bits;
    let y = b.bits;
    assert((x | y) & x == x && (x | y) & y == y) by (bit_vector);
}

/// Flags do not interfere: a single flag is set in a union exactly when
/// it is set in one of the operands.
pub proof fn lemma_union_independent(a: MountFlags, b: MountFlags, flag: MountFlags)
    requires
        flag.is_single(),
    ensures
        a.union(b).contains(flag) <==> a.contains(flag) || b.contains(flag),
{
    let x = a.bits;
    let y = b.bits;
    let f = flag.bits;
    assert(f != 0 && f & ((f - 1) as u64) == 0 ==> (((x | y) & f == f) <==> (x & f == f || y
        & f == f))) by (bit_vector);
}

/// Union is commutative, associative and idempotent, with the empty set
/// as its unit: the order in which flags are combined does not matter.
pub proof fn lemma_union_laws(a: MountFlags, b: MountFlags, c: MountFlags)
    ensures
        a.union(b) == b.union(a),
        a.union(b).union(c) == a.union(b.union(c)),
        a.union(a) == a,
        a.union(MountFlags::of(0)) == a,
{
    let x = a.bits;
    let y = b.bits;
    let z = c.bits;
    assert(x | y == y | x && (x | y) | z == x | (y | z) && x | x == x && x | 0 == x)
        by (bit_vector);
}

/// Read-only, no-dev and no-exec together: all three are set, each one
/// alone is a single bit, and no other named flag is set with them.
pub proof fn lemma_restrictive_flags()
    ensures
        ({
            let f = MountFlags::of(MS_RDONLY).union(MountFlags::of(MS_NODEV)).union(
                MountFlags::of(MS_NOEXEC),
            );
            &&& f.bits == 0x0D
            &&& f.contains(MountFlags::of(MS_RDONLY))
            &&& f.contains(MountFlags::of(MS_NODEV))
            &&& f.contains(MountFlags::of(MS_NOEXEC))
            &&& !f.contains(MountFlags::of(MS_NOSUID))
            &&& !f.contains(MountFlags::of(MS_SYNCHRONOUS))
            &&& !f.contains(MountFlags::of(MS_REMOUNT))
            &&& !f.contains(MountFlags::of(MS_MANDLOCK))
            &&& !f.contains(MountFlags::of(MS_DIRSYNC))
            &&& !f.contains(MountFlags::of(MS_NOATIME))
            &&& !f.contains(MountFlags::of(MS_NODIRATIME))
            &&& !f.contains(MountFlags::of(MS_MOVE))
            &&& !f.contains(MountFlags::of(MS_RELATIME))
            &&& f.difference(MountFlags::of(MS_NODEV)).bits == 0x09
        }),
{
    assert((0x01u64 | 0x04u64) | 0x08u64 == 0x0Du64) by (bit_vector);
    assert(0x0Du64 & 0x01u64 == 0x01u64 && 0x0Du64 & 0x04u64 == 0x04u64 && 0x0Du64 & 0x08u64
        == 0x08u64) by (bit_vector);
    assert(0x0Du64 & 0x02u64 != 0x02u64 && 0x0Du64 & 0x10u64 != 0x10u64 && 0x0Du64 & 0x20u64
        != 0x20u64 && 0x0Du64 & 0x40u64 != 0x40u64 && 0x0Du64 & 0x80u64 != 0x80u64 && 0x0Du64
        & 0x0400u64 != 0x0400u64 && 0x0Du64 & 0x0800u64 != 0x0800u64 && 0x0Du64 & 0x2000u64
        != 0x2000u64 && 0x0Du64 & 0x20_0000u64 != 0x20_0000u64) by (bit_vector);
    assert(0x0Du64 & !0x04u64 == 0x09u64) by (bit_vector);
}

/// The bytes that hand `s` to the kernel: its UTF-8 encoding followed
/// by a NUL byte. A text that holds a NUL byte itself has none.
pub open spec fn c_string(s: Seq<char>) -> Option<Seq<u8>> {
    let bytes = encode_utf8(s);
    if bytes.contains(0u8) {
        None
    } else {
        Some(bytes.push(0u8))
    }
}

/// Encodes `s` as a NUL-terminated byte string, or rejects it where it
/// holds a NUL byte.
pub fn to_c_string(s: &str) -> (r: Result<Vec<u8>, Error>)
    ensures
        match r {
            Ok(bytes) => c_string(s@) == Some(bytes@),
            Err(e) => c_string(s@) is None && e@ == ErrorView::InteriorNul,
        },
{
    let bytes = s.as_bytes();
    let mut out: Vec<u8> = Vec::new();
    let mut i: usize = 0;
    while i < bytes.len()
        invariant
            i <= bytes@.len(),
            bytes@ == encode_utf8(s@),
            out@ == bytes@.take(i as int),
            !out@.contains(0u8),
        decreases bytes@.len() - i,
    {
        let b = bytes[i];
        if b == 0 {
            assert(bytes@[i as int] == 0u8);
            return Err(Error::InteriorNul);
        }
        proof {
            let before = out@;
            assert(before.push(b) =~= bytes@.take(i + 1));
            assert forall|j: int| 0 <= j < before.push(b).len() implies before.push(b)[j]
                != 0u8 by {
                if j < before.len() {
                    assert(before.contains(before[j]));
                }
            }
        }
        out.push(b);
        i += 1;
    }
    assert(out@ =~= bytes@);
    out.push(0);
    Ok(out)
}

/// The arguments of one `mount(2)` call, ready for the kernel: each text
/// a NUL-terminated byte string, the flags as their bit pattern. The
/// call passes no filesystem-specific data.
#[derive(Clone, Debug, PartialEq, Eq)]
pub struct MountCall {
    pub source: Vec<u8>,
    pub target: Vec<u8>,
    /// The filesystem type, or `None` for a null pointer.
    pub fstype: Option<Vec<u8>>,
    pub flags: u64,
}

/// The mathematical content of a [`MountCall`].
pub struct MountCallView {
    pub source: Seq<u8>,
    pub target: Seq<u8>,
    pub fstype: Option<Seq<u8>>,
    pub flags: u64,
}

impl View for MountCall {
    type V = MountCallView;

    open spec fn view(&self) -> MountCallView {
        MountCallView {
            source: self.source@,
            target: self.target@,
            fstype: match self.fstype {
                Some(t) => Some(t@),
                None => None,
            },
            flags: self.flags,
        }
    }
}

/// The arguments of one `umount2(2)` call, ready for the kernel.
#[derive(Clone, Debug, PartialEq, Eq)]
pub struct UmountCall {
    pub target: Vec<u8>,
    pub flags: i32,
}

/// The mathematical content of an [`UmountCall`].
pub struct UmountCallView {
    pub target: Seq<u8>,
    pub flags: i32,
}

impl View for UmountCall {
    type V = UmountCallView;

    open spec fn view(&self) -> UmountCallView {
        UmountCallView { target: self.target@, flags: self.flags }
    }
}

/// The call that mounts `source` on `target`, or the input error where
/// one of the texts holds a NUL byte. The flags go into the call as
/// they are: no bit is added, dropped or carried over from another call.
pub open spec fn spec_mount(
    source: Seq<char>,
    target: Seq<char>,
    fstype: Option<Seq<char>>,
    flags: MountFlags,
) -> Result<MountCallView, ErrorView> {
    if c_string(source) is None || c_string(target) is None || (fstype matches Some(t)
        && c_string(t) is None) {
        Err(ErrorView::InteriorNul)
    } else {
        Ok(
            MountCallView {
                source: c_string(source)->0,
                target: c_string(target)->0,
                fstype: match fstype {
                    Some(t) => Some(c_string(t)->0),
                    None => None,
                },
                flags: flags.bits,
            },
        )
    }
}

/// The call that detaches the mount at `target`, or the input error
/// where the text holds a NUL byte.
pub open spec fn spec_umount(target: Seq<char>) -> Result<UmountCallView, ErrorView> {
    match c_string(target) {
        Some(bytes) => Ok(UmountCallView { target: bytes, flags: MNT_DETACH }),
        None => Err(ErrorView::InteriorNul),
    }
}

/// The view of a text that may be there.
pub open spec fn optional_text(text: Option<&str>) -> Option<Seq<char>> {
    match text {
        Some(t) => Some(t@),
        None => None,
    }
}

/// Prepares the `mount(2)` call that mounts `source` on `target` as a
/// filesystem of type `fstype` with `flags`. A text with a NUL byte in
/// it is rejected here, as an input error and before the kernel is
/// asked. The caller makes the call; what the kernel returns is read by
/// [`crate::sys::Reply::completion`]: zero is success, anything else
/// the error that `errno` names. Nothing is tried twice.
pub fn mount(source: &str, target: &str, fstype: Option<&str>, flags: MountFlags) -> (r: Result<
    MountCall,
    Error,
>)
    ensures
        match r {
            Ok(call) => spec_mount(source@, target@, optional_text(fstype), flags) == Ok::<
                MountCallView,
                ErrorView,
            >(call@),
            Err(e) => spec_mount(source@, target@, optional_text(fstype), flags) == Err::<
                MountCallView,
                ErrorView,
            >(e@),
        },
{
    let source_c = match to_c_string(source) {
        Ok(bytes) => bytes,
        Err(e) => {
            return Err(e);
        },
    };
    let target_c = match to_c_string(target) {
        Ok(bytes) => bytes,
        Err(e) => {
            return Err(e);
        },
    };
    let fstype_c = match fstype {
        Some(t) => match to_c_string(t) {
            Ok(bytes) => Some(bytes),
            Err(e) => {
                return Err(e);
            },
        },
        None => None,
    };
    Ok(MountCall { source: source_c, target: target_c, fstype: fstype_c, flags: flags.bits() })
}

/// Prepares the `umount2(2)` call that detaches the mount at `target`
/// even while it is in use.
pub fn umount(target: &str) -> (r: Result<UmountCall, Error>)
    ensures
        match r {
            Ok(call) => spec_umount(target@) == Ok::<UmountCallView, ErrorView>(call@),
            Err(e) => spec_umount(target@) == Err::<UmountCallView, ErrorView>(e@),
        },
{
    match to_c_string(target) {
        Ok(bytes) => Ok(UmountCall { target: bytes, flags: libc_mnt_detach() }),
        Err(e) => Err(e),
    }
}

} // verus!
