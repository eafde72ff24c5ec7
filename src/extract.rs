use vstd::prelude::*;
use crate::escape::{escape_chars, escaped};
use crate::header::{
    emitted_prefix, find_header, lookup_spec, needs_prefix, prefix_for, HeaderLookup, QdosHeader,
    PREFIX_LEN,
};
use crate::text::{chars_of, string_of};

verus! {

/// A condition worth reporting that does not stop the extraction.
#[derive(Clone, Debug, PartialEq, Eq)]
pub enum Warning {
    /// The entry's QDOS block carries this size tag instead of the expected one.
    BadHeaderSize(u16),
    /// The archive's size of the entry differs from the QDOS header's file length.
    SizeMismatch { zip: u64, qdos: i32 },
    /// The entry, named here, is a directory, which is not extracted.
    NoDirectory(String),
    /// The emulator prefix was not written whole.
    ShortHeaderWrite,
}

/// What to do with one archive entry.
#[derive(Clone, Debug, PartialEq, Eq)]
pub enum EntryAction {
    /// The entry's extra field is malformed: the extraction stops.
    Abort,
    /// Nothing is written for the entry.
    Skip,
    /// Create the file at `path`, write `prefix` if there is one, then the content.
    Extract { path: String, prefix: Option<Vec<u8>> },
}

/// The warnings to report for one entry, in order, and what to do with it.
#[derive(Clone, Debug, PartialEq, Eq)]
pub struct EntryPlan {
    pub warnings: Vec<Warning>,
    pub action: EntryAction,
}

/// The name denotes a directory.
pub open spec fn is_dir_name(name: Seq<char>) -> bool {
    name.len() > 0 && name.last() == '/'
}

/// `name` with every `/` replaced by `_`.
pub open spec fn flattened(name: Seq<char>) -> Seq<char> {
    name.map_values(|c: char| if c == '/' { '_' } else { c })
}

/// Where the entry named `name` is written.
pub open spec fn output_path(name: Seq<char>, escape: bool, directory: Seq<char>) -> Seq<char> {
    let f = flattened(name);
    let n = if escape {
        escaped(f)
    } else {
        f
    };
    if directory.len() > 0 {
        directory + seq!['/'] + n
    } else {
        n
    }
}

/// The archive's size of an entry and the header's file length disagree.
pub open spec fn sizes_differ(size: u64, h: QdosHeader) -> bool {
    size as int != h.f_length as int
}

/// The warning that the extra field's lookup `r` calls for, if any.
pub open spec fn lookup_warnings(r: HeaderLookup, size: u64) -> Seq<Warning> {
    match r {
        HeaderLookup::BadSize(n) => seq![Warning::BadHeaderSize(n)],
        HeaderLookup::Decoded(h) => if sizes_differ(size, h) {
            seq![Warning::SizeMismatch { zip: size, qdos: h.f_length }]
        } else {
            Seq::empty()
        },
        _ => Seq::empty(),
    }
}

/// The prefix owed to an entry whose extra field gave `r`.
pub open spec fn prefix_spec(r: HeaderLookup) -> Option<Seq<u8>> {
    match r {
        HeaderLookup::Decoded(h) => if needs_prefix(h) {
            Some(prefix_for(h.f_access, h.f_type, h.f_datalen))
        } else {
            None
        },
        _ => None,
    }
}

pub open spec fn prefix_view(p: Option<Vec<u8>>) -> Option<Seq<u8>> {
    match p {
        Some(v) => Some(v@),
        None => None,
    }
}

fn flatten(cs: &Vec<char>) -> (r: Vec<char>)
    ensures
        r@ == flattened(cs@),
{
    let mut r: Vec<char> = Vec::new();
    let mut i: usize = 0;
    while i < cs.len()
        invariant
            i <= cs@.len(),
            r@ == flattened(cs@).subrange(0, i as int),
        decreases cs@.len() - i,
    {
        let c = cs[i];
        r.push(
            if c == '/' {
                '_'
            } else {
                c
            },
        );
        i = i + 1;
        assert(r@ =~= flattened(cs@).subrange(0, i as int));
    }
    assert(r@ =~= flattened(cs@));
    r
}

/// The path at which the entry named `name` is written: separators flattened into
/// `_`, the name escaped if `escape` holds, and put under `directory` unless that is empty.
pub fn resolve_path(name: &str, escape: bool, directory: &str) -> (r: String)
    ensures
        r@ == output_path(name@, escape, directory@),
{
    let cs = chars_of(name);
    let f = flatten(&cs);
    let n = if escape {
        escape_chars(&f)
    } else {
        f
    };
    if directory.unicode_len() > 0 {
        let mut p = chars_of(directory);
        p.push('/');
        let mut i: usize = 0;
        let ghost start = p@;
        while i < n.len()
            invariant
                i <= n@.len(),
                p@ == start + n@.subrange(0, i as int),
            decreases n@.len() - i,
        {
            p.push(n[i]);
            i = i + 1;
            assert(p@ =~= start + n@.subrange(0, i as int));
        }
        assert(n@.subrange(0, i as int) =~= n@);
        string_of(&p)
    } else {
        string_of(&n)
    }
}

/// Decides what to do with one archive entry: its name, the size the archive
/// gives it, its extra field, whether names are escaped, and the destination
/// directory (empty for the current one).
///
/// A malformed QDOS block stops the extraction with nothing reported. Otherwise a
/// wrong size tag, or a header whose file length differs from the archive's size,
/// is reported first; a directory entry is then reported and skipped; any other
/// entry is extracted at its resolved path, behind the emulator prefix that its
/// header calls for.
pub fn plan_entry(name: &str, size: u64, extra: &[u8], escape: bool, directory: &str) -> (p:
    EntryPlan)
    ensures
        forall|r: HeaderLookup| #[trigger]
            lookup_spec(extra@, r) ==> {
                if r is Malformed {
                    p.warnings@.len() == 0 && p.action is Abort
                } else if is_dir_name(name@) {
                    &&& p.warnings@.len() == lookup_warnings(r, size).len() + 1
                    &&& p.warnings@.drop_last() == lookup_warnings(r, size)
                    &&& p.warnings@.last() is NoDirectory
                    &&& p.warnings@.last()->NoDirectory_0@ == name@
                    &&& p.action is Skip
                } else {
                    &&& p.warnings@ == lookup_warnings(r, size)
                    &&& p.action is Extract
                    &&& p.action->path@ == output_path(name@, escape, directory@)
                    &&& prefix_view(p.action->prefix) == prefix_spec(r)
                }
            },
{
    let r = find_header(extra);
    let mut warnings: Vec<Warning> = Vec::new();
    let mut prefix: Option<Vec<u8>> = None;
    match &r {
        HeaderLookup::Malformed => {
            return EntryPlan { warnings, action: EntryAction::Abort };
        },
        HeaderLookup::BadSize(n) => {
            warnings.push(Warning::BadHeaderSize(*n));
        },
        HeaderLookup::Decoded(h) => {
            if h.f_length < 0 || size != h.f_length as u64 {
                warnings.push(Warning::SizeMismatch { zip: size, qdos: h.f_length });
            }
            prefix = emitted_prefix(h);
        },
        HeaderLookup::Absent => {},
    }
    assert(warnings@ =~= lookup_warnings(r, size));
    assert(prefix_view(prefix) == prefix_spec(r));
    let cs = chars_of(name);
    if cs.len() > 0 && cs[cs.len() - 1] == '/' {
        let ghost before = warnings@;
        warnings.push(Warning::NoDirectory(string_of(&cs)));
        assert(warnings@.drop_last() =~= before);
        EntryPlan { warnings, action: EntryAction::Skip }
    } else {
        let path = resolve_path(name, escape, directory);
        EntryPlan { warnings, action: EntryAction::Extract { path, prefix } }
    }
}

/// The warning owed after writing the emulator prefix, given how many of its bytes
/// were written.
pub fn check_prefix_write(written: usize) -> (w: Option<Warning>)
    ensures
        w is Some <==> written != PREFIX_LEN,
        w is Some ==> w->Some_0 is ShortHeaderWrite,
{
    if written != PREFIX_LEN {
        Some(Warning::ShortHeaderWrite)
    } else {
        None
    }
}

} // verus!
