//! A vault: a folder of notes, where its messages go, and where its TODO list
//! lives.
use crate::text::{chars_of, string_from_chars};
use vstd::prelude::*;

verus! {

/// A vault as configured.
#[derive(Clone, Debug)]
pub struct Vault {
    /// The destination (by name) for the vault's reminders and reports.
    pub destination: String,
    /// The destination (by name) for the vault's debugging messages.
    pub debug_destination: String,
    /// The folder of the vault's notes.
    pub root_dir: String,
    /// Whether the TODO digest is also sent when the bot starts.
    pub daily_on_start: bool,
    /// The TODO note, relative to the root folder.
    pub todo_path: String,
    /// The heading of the TODO section of the TODO note.
    pub todo_section_header: String,
}

/// Where the TODO list lives when the configuration does not say.
pub fn default_todo_path() -> (r: String)
    ensures
        r@ == "General/TODO.md"@,
{
    String::from_str("General/TODO.md")
}

/// The heading of the TODO section when the configuration does not say.
pub fn default_todo_header() -> (r: String)
    ensures
        r@ == "TODO"@,
{
    String::from_str("TODO")
}

/// Whether the digest goes out at start when the configuration does not
/// say: it does not.
pub fn default_daily_on_start() -> (r: bool)
    ensures
        r == false,
{
    false
}

/// `s` without the `/` characters it starts with.
pub open spec fn trim_leading_slashes(s: Seq<char>) -> Seq<char>
    decreases s.len(),
{
    if s.len() > 0 && s[0] == '/' {
        trim_leading_slashes(s.drop_first())
    } else {
        s
    }
}

/// `PathBuf::from(base).join(rel)` on Unix for a relative `rel` (one that
/// does not start with `/`): `rel` after `base`, with a `/` between them
/// unless `base` is empty or already ends with one.
pub open spec fn join_relative(base: Seq<char>, rel: Seq<char>) -> Seq<char> {
    if base.len() == 0 || base.last() == '/' {
        base + rel
    } else {
        base + seq!['/'] + rel
    }
}

impl Vault {
    /// A vault from its configured values, the left-out ones taken from the
    /// defaults.
    pub fn new(
        destination: String,
        debug_destination: String,
        root_dir: String,
        daily_on_start: Option<bool>,
        todo_path: Option<String>,
        todo_section_header: Option<String>,
    ) -> (r: Vault)
        ensures
            r.destination@ == destination@,
            r.debug_destination@ == debug_destination@,
            r.root_dir@ == root_dir@,
            r.daily_on_start == match daily_on_start {
                Some(b) => b,
                None => false,
            },
            r.todo_path@ == match todo_path {
                Some(p) => p@,
                None => "General/TODO.md"@,
            },
            r.todo_section_header@ == match todo_section_header {
                Some(h) => h@,
                None => "TODO"@,
            },
    {
        Vault {
            destination,
            debug_destination,
            root_dir,
            daily_on_start: match daily_on_start {
                Some(b) => b,
                None => default_daily_on_start(),
            },
            todo_path: match todo_path {
                Some(p) => p,
                None => default_todo_path(),
            },
            todo_section_header: match todo_section_header {
                Some(h) => h,
                None => default_todo_header(),
            },
        }
    }

    /// The path of the vault's TODO note: the TODO path, leading `/`s
    /// dropped, under the root folder.
    pub fn todo_file_path(&self) -> (r: String)
        ensures
            r@ == join_relative(self.root_dir@, trim_leading_slashes(self.todo_path@)),
    {
        let base = chars_of(self.root_dir.as_str());
        let rel = chars_of(self.todo_path.as_str());
        let mut i: usize = 0;
        assert(rel@.skip(0) =~= rel@);
        while i < rel.len() && rel[i] == '/'
            invariant
                0 <= i <= rel@.len(),
                trim_leading_slashes(rel@) == trim_leading_slashes(rel@.skip(i as int)),
            decreases rel.len() - i,
        {
            proof {
                assert(rel@.skip(i as int).drop_first() =~= rel@.skip(i + 1));
            }
            i += 1;
        }
        let mut out: Vec<char> = Vec::new();
        let mut k: usize = 0;
        while k < base.len()
            invariant
                0 <= k <= base@.len(),
                out@ =~= base@.take(k as int),
            decreases base.len() - k,
        {
            out.push(base[k]);
            k += 1;
        }
        if base.len() > 0 && base[base.len() - 1] != '/' {
            out.push('/');
        }
        let ghost mid = out@;
        let mut j = i;
        while j < rel.len()
            invariant
                i <= j <= rel@.len(),
                out@ =~= mid + rel@.subrange(i as int, j as int),
            decreases rel.len() - j,
        {
            out.push(rel[j]);
            j += 1;
        }
        proof {
            assert(base@.take(base@.len() as int) =~= base@);
            assert(rel@.subrange(i as int, rel@.len() as int) =~= rel@.skip(i as int));
            assert(trim_leading_slashes(rel@.skip(i as int)) == rel@.skip(i as int));
        }
        string_from_chars(out.as_slice())
    }
}

} // verus!

verus! {

/// `s` without the `/` characters it ends with.
pub open spec fn trim_trailing_slashes(s: Seq<char>) -> Seq<char>
    decreases s.len(),
{
    if s.len() > 0 && s.last() == '/' {
        trim_trailing_slashes(s.drop_last())
    } else {
        s
    }
}

/// `str::trim_matches('/')`: `s` without its leading and trailing `/`s.
pub open spec fn trim_slashes(s: Seq<char>) -> Seq<char> {
    trim_trailing_slashes(trim_leading_slashes(s))
}

pub fn trim_slashes_chars(s: &[char]) -> (r: Vec<char>)
    ensures
        r@ == trim_slashes(s@),
{
    let mut a: usize = 0;
    assert(s@.skip(0) =~= s@);
    while a < s.len() && s[a] == '/'
        invariant
            0 <= a <= s@.len(),
            trim_leading_slashes(s@) == trim_leading_slashes(s@.skip(a as int)),
        decreases s.len() - a,
    {
        proof {
            assert(s@.skip(a as int).drop_first() =~= s@.skip(a + 1));
        }
        a += 1;
    }
    let ghost lead = s@.skip(a as int);
    assert(trim_leading_slashes(lead) == lead);
    let mut b: usize = s.len();
    assert(lead.take(lead.len() as int) =~= lead);
    while b > a && s[b - 1] == '/'
        invariant
            a <= b <= s@.len(),
            lead == s@.skip(a as int),
            trim_trailing_slashes(lead) == trim_trailing_slashes(s@.subrange(a as int, b as int)),
        decreases b,
    {
        proof {
            assert(s@.subrange(a as int, b as int).drop_last() =~= s@.subrange(a as int, b - 1));
        }
        b -= 1;
    }
    let mut out: Vec<char> = Vec::new();
    let mut k = a;
    while k < b
        invariant
            a <= k <= b <= s@.len(),
            out@ =~= s@.subrange(a as int, k as int),
        decreases b - k,
    {
        out.push(s[k]);
        k += 1;
    }
    proof {
        assert(lead =~= s@.subrange(a as int, s@.len() as int));
    }
    out
}

} // verus!
