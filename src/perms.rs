use vstd::prelude::*;
use crate::model::{RemoteStat, stat_is_dir};
use crate::text::push_char;

verus! {

/// `c` when the bit `mask` is set in `perm`, `-` otherwise.
pub open spec fn flag_char(perm: u32, mask: u32, c: char) -> char {
    if perm & mask != 0 {
        c
    } else {
        '-'
    }
}

/// `<type><user rwx><group rwx><other rwx>`, the type being `d` for a directory.
pub open spec fn permission_string(perm: u32, dir: bool) -> Seq<char> {
    seq![
        if dir { 'd' } else { '-' },
        flag_char(perm, 0o400, 'r'),
        flag_char(perm, 0o200, 'w'),
        flag_char(perm, 0o100, 'x'),
        flag_char(perm, 0o040, 'r'),
        flag_char(perm, 0o020, 'w'),
        flag_char(perm, 0o010, 'x'),
        flag_char(perm, 0o004, 'r'),
        flag_char(perm, 0o002, 'w'),
        flag_char(perm, 0o001, 'x'),
    ]
}

/// The permission string of a stat; a missing mode counts as 0.
pub open spec fn stat_permissions(s: RemoteStat) -> Seq<char> {
    permission_string(s.perm.unwrap_or(0u32), stat_is_dir(s))
}

fn flag(perm: u32, mask: u32, c: char) -> (r: char)
    ensures
        r == flag_char(perm, mask, c),
{
    if perm & mask != 0 {
        c
    } else {
        '-'
    }
}

/// Renders the mode bits of a stat as a ten-character string such as `drwxr-xr-x`.
pub fn format_permissions(stat: &RemoteStat) -> (r: String)
    ensures
        r@ == stat_permissions(*stat),
        r@.len() == 10,
{
    let perm: u32 = match stat.perm {
        Some(p) => p,
        None => 0,
    };
    let mut s = String::new();
    push_char(&mut s, if stat.is_dir() { 'd' } else { '-' });
    push_char(&mut s, flag(perm, 0o400, 'r'));
    push_char(&mut s, flag(perm, 0o200, 'w'));
    push_char(&mut s, flag(perm, 0o100, 'x'));
    push_char(&mut s, flag(perm, 0o040, 'r'));
    push_char(&mut s, flag(perm, 0o020, 'w'));
    push_char(&mut s, flag(perm, 0o010, 'x'));
    push_char(&mut s, flag(perm, 0o004, 'r'));
    push_char(&mut s, flag(perm, 0o002, 'w'));
    push_char(&mut s, flag(perm, 0o001, 'x'));
    assert(s@ =~= stat_permissions(*stat));
    s
}

} // verus!
