use vstd::prelude::*;
use crate::text::string_from_chars;

verus! {

/// The file-type letter of a Unix mode: 'd' for a directory, 'l' for a
/// symbolic link, '-' for anything else.
pub open spec fn file_type_char(mode: u32) -> char {
    if mode & 0o170000 == 0o040000 {
        'd'
    } else if mode & 0o170000 == 0o120000 {
        'l'
    } else {
        '-'
    }
}

/// "rwx" for three permission bits, with '-' for each bit that is clear.
pub open spec fn rwx(bits: u32) -> Seq<char> {
    seq![
        if bits & 4 != 0 { 'r' } else { '-' },
        if bits & 2 != 0 { 'w' } else { '-' },
        if bits & 1 != 0 { 'x' } else { '-' },
    ]
}

/// The ten-character permission string of a Unix mode, as `ls -l` shows it.
pub open spec fn permissions_spec(mode: u32) -> Seq<char> {
    seq![file_type_char(mode)] + rwx((mode >> 6) & 7) + rwx((mode >> 3) & 7) + rwx(mode & 7)
}

fn push_rwx(out: &mut Vec<char>, bits: u32)
    ensures
        final(out)@ == old(out)@ + rwx(bits),
{
    out.push(if bits & 4 != 0 { 'r' } else { '-' });
    out.push(if bits & 2 != 0 { 'w' } else { '-' });
    out.push(if bits & 1 != 0 { 'x' } else { '-' });
    assert(final(out)@ =~= old(out)@ + rwx(bits));
}

/// Renders a Unix mode as a permission string such as "drwxr-xr-x".
pub fn get_permissions(mode: u32) -> (r: String)
    ensures
        r@ == permissions_spec(mode),
        r@.len() == 10,
{
    let file_type = if mode & 0o170000 == 0o040000 {
        'd'
    } else if mode & 0o170000 == 0o120000 {
        'l'
    } else {
        '-'
    };
    let owner = (mode >> 6) & 0o7;
    let group = (mode >> 3) & 0o7;
    let other = mode & 0o7;
    let mut out: Vec<char> = Vec::new();
    out.push(file_type);
    push_rwx(&mut out, owner);
    push_rwx(&mut out, group);
    push_rwx(&mut out, other);
    assert(out@ =~= permissions_spec(mode));
    string_from_chars(&out)
}

/// Whether a non-directory counts as executable: some execute bit (owner,
/// group or other) is set in the mode that the entry's target has.
pub open spec fn is_executable_spec(is_dir: bool, target_mode: u32) -> bool {
    !is_dir && target_mode & 0o111 != 0
}

/// See [`is_executable_spec`].
pub fn is_executable(is_dir: bool, target_mode: u32) -> (r: bool)
    ensures
        r == is_executable_spec(is_dir, target_mode),
{
    !is_dir && (target_mode & 0o111) != 0
}

/// `secs` read as a two's-complement 64-bit integer (what `secs as i64` gives).
pub open spec fn wrap_i64(secs: u64) -> int {
    if secs < 0x8000_0000_0000_0000 {
        secs as int
    } else {
        secs - 0x1_0000_0000_0000_0000
    }
}

/// Seconds from the Unix epoch to a modification time, negative for a time
/// before the epoch. `after_epoch` and `secs` describe the distance from the
/// epoch: `secs` whole seconds, after it or before it.
pub fn timestamp_seconds(after_epoch: bool, secs: u64) -> (r: i64)
    requires
        after_epoch || secs != 0x8000_0000_0000_0000,
    ensures
        r as int == if after_epoch { wrap_i64(secs) } else { -wrap_i64(secs) },
{
    let v: i64 = if secs <= 0x7fff_ffff_ffff_ffff {
        secs as i64
    } else {
        let above: u64 = secs - 0x8000_0000_0000_0000;
        (above as i64) + i64::MIN
    };
    if after_epoch {
        v
    } else {
        -v
    }
}

/// A non-directory is executable as soon as any one execute bit is set in its
/// target's mode: the owner's (0o100), the group's (0o010) or the others' (0o001).
pub proof fn law_any_execute_bit_makes_executable(target_mode: u32)
    ensures
        target_mode & 0o100 != 0 ==> is_executable_spec(false, target_mode),
        target_mode & 0o010 != 0 ==> is_executable_spec(false, target_mode),
        target_mode & 0o001 != 0 ==> is_executable_spec(false, target_mode),
        target_mode & 0o100 == 0 && target_mode & 0o010 == 0 && target_mode & 0o001 == 0
            ==> !is_executable_spec(false, target_mode),
{
    assert(target_mode & 0o100 != 0 ==> target_mode & 0o111 != 0) by (bit_vector);
    assert(target_mode & 0o010 != 0 ==> target_mode & 0o111 != 0) by (bit_vector);
    assert(target_mode & 0o001 != 0 ==> target_mode & 0o111 != 0) by (bit_vector);
    assert(target_mode & 0o100 == 0 && target_mode & 0o010 == 0 && target_mode & 0o001 == 0
        ==> target_mode & 0o111 == 0) by (bit_vector);
}

/// A directory is never shown as executable, whatever its mode.
pub proof fn law_directories_are_not_executable(target_mode: u32)
    ensures
        !is_executable_spec(true, target_mode),
{
}

} // verus!
