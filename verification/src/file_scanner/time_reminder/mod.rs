//! Time reminders written in notes: their grammar, what a match holds, the
//! tracking of running countdowns, and which files are not read.
pub mod grammar;
pub mod model;
pub mod tracker;
pub mod countdown;

use crate::text::{chars_of, ends_with, ends_with_chars};
use vstd::prelude::*;

verus! {

pub open spec fn ascii_lower(c: char) -> char {
    if 'A' <= c && c <= 'Z' {
        ((c as u32) + 32) as char
    } else {
        c
    }
}

/// `p` ends with `.` and then the letters `ext` in either case.
pub open spec fn has_extension(p: Seq<char>, ext: Seq<char>) -> bool {
    &&& p.len() >= ext.len() + 1
    &&& p[p.len() - ext.len() - 1] == '.'
    &&& forall|i: int| 0 <= i < ext.len() ==> ascii_lower(#[trigger] p[p.len() - ext.len() + i]) == ext[i]
}

/// The files whose reminders are not read: `.DS_Store` files and `.jpg`,
/// `.jpeg`, `.png` images (the extension in any case).
pub open spec fn ignored_file_spec(p: Seq<char>) -> bool {
    ||| ends_with(p, "/.DS_Store"@)
    ||| has_extension(p, seq!['j', 'p', 'g'])
    ||| has_extension(p, seq!['j', 'p', 'e', 'g'])
    ||| has_extension(p, seq!['p', 'n', 'g'])
}

/// The directories whose notes are not read: those whose path relative to
/// the vault root is one character and then `trash` (the `.trash` folder).
pub open spec fn ignored_dir_spec(rel: Seq<char>) -> bool {
    &&& rel.len() >= 6
    &&& rel[0] != '\n'
    &&& rel.subrange(1, 6) == seq!['t', 'r', 'a', 's', 'h']
}

fn lower(c: char) -> (r: char)
    ensures
        r == ascii_lower(c),
{
    if 'A' <= c && c <= 'Z' {
        let v = (c as u32) + 32;
        assert(0x61 <= v <= 0x7a);
        (v as u8) as char
    } else {
        c
    }
}

fn extension_is(p: &[char], ext: &[char]) -> (r: bool)
    ensures
        r == has_extension(p@, ext@),
{
    let n = p.len();
    if ext.len() >= n {
        return false;
    }
    if p[n - ext.len() - 1] != '.' {
        return false;
    }
    let mut i: usize = 0;
    while i < ext.len()
        invariant
            ext@.len() < n == p@.len(),
            0 <= i <= ext@.len(),
            forall|t: int| 0 <= t < i ==> ascii_lower(#[trigger] p@[p@.len() - ext@.len() + t]) == ext@[t],
        decreases ext.len() - i,
    {
        if lower(p[n - ext.len() + i]) != ext[i] {
            return false;
        }
        i += 1;
    }
    true
}

/// Whether the reminders of the file at `path` are not read.
pub fn ignored_file(path: &str) -> (r: bool)
    ensures
        r == ignored_file_spec(path@),
{
    let p = chars_of(path);
    let ds = chars_of("/.DS_Store");
    if ends_with_chars(p.as_slice(), ds.as_slice()) {
        return true;
    }
    let jpg = ['j', 'p', 'g'];
    let jpeg = ['j', 'p', 'e', 'g'];
    let png = ['p', 'n', 'g'];
    assert(jpg@ =~= seq!['j', 'p', 'g']);
    assert(jpeg@ =~= seq!['j', 'p', 'e', 'g']);
    assert(png@ =~= seq!['p', 'n', 'g']);
    extension_is(p.as_slice(), jpg.as_slice()) || extension_is(p.as_slice(), jpeg.as_slice())
        || extension_is(p.as_slice(), png.as_slice())
}

/// Whether the notes under the directory at `relative_path` (relative to the
/// vault root) are not read.
pub fn ignored_dir(relative_path: &str) -> (r: bool)
    ensures
        r == ignored_dir_spec(relative_path@),
{
    let p = chars_of(relative_path);
    if p.len() < 6 || p[0] == '\n' {
        return false;
    }
    let r = p[1] == 't' && p[2] == 'r' && p[3] == 'a' && p[4] == 's' && p[5] == 'h';
    proof {
        if r {
            assert(p@.subrange(1, 6) =~= seq!['t', 'r', 'a', 's', 'h']);
        } else {
            let want = seq!['t', 'r', 'a', 's', 'h'];
            if p@.subrange(1, 6) == want {
                assert(p@.subrange(1, 6)[0] == p@[1]);
                assert(p@.subrange(1, 6)[1] == p@[2]);
                assert(p@.subrange(1, 6)[2] == p@[3]);
                assert(p@.subrange(1, 6)[3] == p@[4]);
                assert(p@.subrange(1, 6)[4] == p@[5]);
            }
        }
    }
    r
}

/// `.jpg`, `.jpeg` and `.png` images are not read, whatever the letter case
/// of their extension, and neither are `.DS_Store` files; a `.md` note is
/// read.
pub proof fn law_images_ignored_in_any_case(s: Seq<char>, a: char, b: char, c: char, d: char)
    ensures
        (a == 'p' || a == 'P') && (b == 'n' || b == 'N') && (c == 'g' || c == 'G')
            ==> ignored_file_spec(s + seq!['.', a, b, c]),
        (a == 'j' || a == 'J') && (b == 'p' || b == 'P') && (c == 'g' || c == 'G')
            ==> ignored_file_spec(s + seq!['.', a, b, c]),
        (a == 'j' || a == 'J') && (b == 'p' || b == 'P') && (c == 'e' || c == 'E') && (d == 'g'
            || d == 'G') ==> ignored_file_spec(s + seq!['.', a, b, c, d]),
        ignored_file_spec(s + "/.DS_Store"@),
        !ignored_file_spec(s + seq!['.', 'm', 'd']),
{
    let p3 = s + seq!['.', a, b, c];
    let p4 = s + seq!['.', a, b, c, d];
    assert(p3[p3.len() - 4] == '.');
    assert(p3[p3.len() - 3] == a);
    assert(p3[p3.len() - 2] == b);
    assert(p3[p3.len() - 1] == c);
    assert(p4[p4.len() - 5] == '.');
    assert(p4[p4.len() - 4] == a);
    assert(p4[p4.len() - 3] == b);
    assert(p4[p4.len() - 2] == c);
    assert(p4[p4.len() - 1] == d);
    assert(('P' as u32) + 32 == 'p' as u32);
    assert((s + "/.DS_Store"@).skip(s.len() as int) =~= "/.DS_Store"@);
    let md = s + seq!['.', 'm', 'd'];
    assert(md[md.len() - 1] == 'd');
    assert(md[md.len() - 2] == 'm');
    assert(md[md.len() - 3] == '.');
    reveal_strlit("/.DS_Store");
    if ends_with(md, "/.DS_Store"@) {
        assert(md.skip(md.len() - 10)[9] == md[md.len() - 1]);
        assert("/.DS_Store"@[9] == 'e');
    }
    if has_extension(md, seq!['j', 'p', 'g']) {
        assert(ascii_lower(md[md.len() - 3 + 0]) == 'j');
    }
    if has_extension(md, seq!['p', 'n', 'g']) {
        assert(ascii_lower(md[md.len() - 3 + 0]) == 'p');
    }
    if has_extension(md, seq!['j', 'p', 'e', 'g']) {
        assert(ascii_lower(md[md.len() - 4 + 1]) == 'p');
    }
}

/// The `.trash` folder, and whatever lies under it, is not read; a folder
/// whose relative path does not hold `trash` after its first character is
/// read.
pub proof fn law_trash_folder_ignored(x: char, rest: Seq<char>, rel: Seq<char>)
    requires
        x != '\n',
    ensures
        ignored_dir_spec(seq![x, 't', 'r', 'a', 's', 'h'] + rest),
        !(rel.len() >= 6 && rel.subrange(1, 6) == seq!['t', 'r', 'a', 's', 'h']) ==> !ignored_dir_spec(rel),
{
    let d = seq![x, 't', 'r', 'a', 's', 'h'] + rest;
    assert(d.subrange(1, 6) =~= seq!['t', 'r', 'a', 's', 'h']);
}

} // verus!
