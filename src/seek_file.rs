use vstd::prelude::*;

use crate::check_path::{
    is_valid_directory, outcome_view, validation, CanonicalPath, ErrorModel, PathError, PathKind,
};

verus! {

/// An immediate entry of a directory: its file name, and what it denotes once symlinks
/// are followed.
#[derive(Clone, Debug)]
pub struct Entry {
    pub name: String,
    pub kind: PathKind,
}

/// The index of the last `.` in `s`, or -1 where there is none.
pub open spec fn last_dot(s: Seq<char>) -> int
    decreases s.len(),
{
    if s.len() == 0 {
        -1
    } else if s.last() == '.' {
        s.len() - 1
    } else {
        last_dot(s.drop_last())
    }
}

/// The last dot lies inside the name.
proof fn lemma_last_dot_bounds(s: Seq<char>)
    ensures
        -1 <= last_dot(s) < s.len(),
    decreases s.len(),
{
    if s.len() > 0 && s.last() != '.' {
        lemma_last_dot_bounds(s.drop_last());
    }
}

/// The extension of a file name: what follows its last dot, where that dot is not the
/// name's first character. `..` has none.
pub open spec fn extension_of(name: Seq<char>) -> Option<Seq<char>> {
    let k = last_dot(name);
    if k <= 0 || name == seq!['.', '.'] {
        None
    } else {
        Some(name.subrange(k + 1, name.len() as int))
    }
}

/// The path of `name` inside the directory `dir`, with one separator between them.
pub open spec fn joined(dir: Seq<char>, name: Seq<char>) -> Seq<char> {
    if dir.len() == 0 || dir.last() == '/' {
        dir + name
    } else {
        dir + seq!['/'] + name
    }
}

/// Whether the entry is a regular file whose extension is exactly `ext`.
pub open spec fn is_selected(e: Entry, ext: Seq<char>) -> bool {
    e.kind == PathKind::File && extension_of(e.name@) == Some(ext)
}

/// The paths, inside `dir`, of the entries that are regular files with extension `ext`,
/// in the order of `entries`.
pub open spec fn selection(dir: Seq<char>, entries: Seq<Entry>, ext: Seq<char>) -> Seq<Seq<char>>
    decreases entries.len(),
{
    if entries.len() == 0 {
        Seq::empty()
    } else {
        let rest = selection(dir, entries.drop_last(), ext);
        let e = entries.last();
        if is_selected(e, ext) {
            rest.push(joined(dir, e.name@))
        } else {
            rest
        }
    }
}

/// Strings seen as sequences of characters.
pub open spec fn texts(v: Seq<String>) -> Seq<Seq<char>> {
    v.map_values(|s: String| s@)
}

/// The outcome of a request to search `directory` for files with extension `ext`, before
/// the directory is read: the directory must validate, then the extension must not be
/// empty.
pub open spec fn request_outcome(directory: Result<CanonicalPath, String>, ext: Seq<char>) -> Result<
    Seq<char>,
    ErrorModel,
> {
    match validation(directory, PathKind::Directory) {
        Err(e) => Err(e),
        Ok(d) => if ext.len() == 0 {
            Err(ErrorModel::MissingExtension)
        } else {
            Ok(d)
        },
    }
}

/// The outcome of a search of `directory` for files with extension `ext`, where `listing`
/// is the directory's entries or the message of the failure to read them.
pub open spec fn seek_outcome(
    directory: Result<CanonicalPath, String>,
    ext: Seq<char>,
    listing: Result<Vec<Entry>, String>,
) -> Result<Seq<Seq<char>>, ErrorModel> {
    match request_outcome(directory, ext) {
        Err(e) => Err(e),
        Ok(d) => match listing {
            Err(m) => Err(ErrorModel::Io(m@)),
            Ok(entries) => Ok(selection(d, entries@, ext)),
        },
    }
}

/// A search's result with its strings seen as sequences of characters.
pub open spec fn found_view(r: Result<Vec<String>, PathError>) -> Result<Seq<Seq<char>>, ErrorModel> {
    match r {
        Ok(v) => Ok(texts(v@)),
        Err(e) => Err(e@),
    }
}

/// The entries seen as their names' characters and their kinds.
pub open spec fn entry_views(entries: Seq<Entry>) -> Seq<(Seq<char>, PathKind)> {
    entries.map_values(|e: Entry| (e.name@, e.kind))
}

/// A path is selected exactly when some selected entry lies at it.
pub proof fn lemma_selection_contains(
    dir: Seq<char>,
    entries: Seq<Entry>,
    ext: Seq<char>,
    p: Seq<char>,
)
    ensures
        selection(dir, entries, ext).contains(p) <==> exists|i: int|
            0 <= i < entries.len() && is_selected(#[trigger] entries[i], ext) && joined(
                dir,
                entries[i].name@,
            ) == p,
    decreases entries.len(),
{
    if entries.len() > 0 {
        let init = entries.drop_last();
        let rest = selection(dir, init, ext);
        let last = entries.last();
        lemma_selection_contains(dir, init, ext, p);
        assert forall|i: int| 0 <= i < init.len() implies init[i] == entries[i] by {}
        if is_selected(last, ext) {
            assert(rest.push(joined(dir, last.name@)).contains(p) <==> (rest.contains(p) || joined(
                dir,
                last.name@,
            ) == p)) by {
                if rest.contains(p) {
                    let j = choose|j: int| 0 <= j < rest.len() && rest[j] == p;
                    assert(rest.push(joined(dir, last.name@))[j] == p);
                }
                if joined(dir, last.name@) == p {
                    assert(rest.push(joined(dir, last.name@))[rest.len() as int] == p);
                }
            }
        }
        if exists|i: int|
            0 <= i < entries.len() && is_selected(#[trigger] entries[i], ext) && joined(
                dir,
                entries[i].name@,
            ) == p {
            let i = choose|i: int|
                0 <= i < entries.len() && is_selected(#[trigger] entries[i], ext) && joined(
                    dir,
                    entries[i].name@,
                ) == p;
            if i < init.len() {
                assert(init[i] == entries[i]);
            }
        }
    }
}

/// A search with an empty extension fails with `MissingExtension` once the directory
/// validates, whatever the listing.
pub proof fn lemma_empty_extension_rejected(
    directory: Result<CanonicalPath, String>,
    listing: Result<Vec<Entry>, String>,
)
    requires
        validation(directory, PathKind::Directory) is Ok,
    ensures
        seek_outcome(directory, Seq::empty(), listing) == Err::<Seq<Seq<char>>, ErrorModel>(
            ErrorModel::MissingExtension,
        ),
{
}

/// A search of an empty directory that validates, for a non-empty extension, finds
/// nothing and does not fail.
pub proof fn lemma_empty_directory(
    directory: Result<CanonicalPath, String>,
    ext: Seq<char>,
    entries: Vec<Entry>,
)
    requires
        validation(directory, PathKind::Directory) is Ok,
        ext.len() > 0,
        entries@.len() == 0,
    ensures
        seek_outcome(directory, ext, Ok(entries)) == Ok::<Seq<Seq<char>>, ErrorModel>(
            Seq::empty(),
        ),
{
}

/// A search of a directory that validates, for a non-empty extension, finds nothing when
/// no entry is a regular file with that extension.
pub proof fn lemma_no_match_found_nothing(
    directory: Result<CanonicalPath, String>,
    ext: Seq<char>,
    entries: Vec<Entry>,
)
    requires
        validation(directory, PathKind::Directory) is Ok,
        ext.len() > 0,
        forall|i: int| 0 <= i < entries@.len() ==> !is_selected(#[trigger] entries@[i], ext),
    ensures
        seek_outcome(directory, ext, Ok(entries)) == Ok::<Seq<Seq<char>>, ErrorModel>(
            Seq::empty(),
        ),
{
    let d = validation(directory, PathKind::Directory)->Ok_0;
    let found = selection(d, entries@, ext);
    if found.len() > 0 {
        lemma_selection_contains(d, entries@, ext, found[0]);
        assert(found.contains(found[0]));
    }
    assert(found =~= Seq::empty());
}

/// Two listings of the same entries, in whatever order, give searches with the same
/// outcome: the same error, or the same set of paths.
pub proof fn lemma_same_entries_same_paths(
    directory: Result<CanonicalPath, String>,
    ext: Seq<char>,
    first: Vec<Entry>,
    second: Vec<Entry>,
)
    requires
        entry_views(first@).to_set() == entry_views(second@).to_set(),
    ensures
        match (seek_outcome(directory, ext, Ok(first)), seek_outcome(directory, ext, Ok(second))) {
            (Ok(a), Ok(b)) => a.to_set() == b.to_set(),
            (Err(x), Err(y)) => x == y,
            _ => false,
        },
{
    if let Ok(d) = request_outcome(directory, ext) {
        lemma_listed_paths_included(d, ext, first@, second@);
        lemma_listed_paths_included(d, ext, second@, first@);
        assert(selection(d, first@, ext).to_set() =~= selection(d, second@, ext).to_set());
    }
}

/// Every path selected from `a` is selected from `b` when `b` holds every entry of `a`.
proof fn lemma_listed_paths_included(
    dir: Seq<char>,
    ext: Seq<char>,
    a: Seq<Entry>,
    b: Seq<Entry>,
)
    requires
        entry_views(a).to_set().subset_of(entry_views(b).to_set()),
    ensures
        forall|p: Seq<char>|
            selection(dir, a, ext).contains(p) ==> #[trigger] selection(dir, b, ext).contains(p),
{
    assert forall|p: Seq<char>| selection(dir, a, ext).contains(p) implies #[trigger] selection(
        dir,
        b,
        ext,
    ).contains(p) by {
        lemma_selection_contains(dir, a, ext, p);
        let i = choose|i: int|
            0 <= i < a.len() && is_selected(#[trigger] a[i], ext) && joined(dir, a[i].name@) == p;
        let v = (a[i].name@, a[i].kind);
        assert(entry_views(a)[i] == v);
        assert(entry_views(a).to_set().contains(v));
        assert(entry_views(b).to_set().contains(v));
        let j = choose|j: int| 0 <= j < entry_views(b).len() && entry_views(b)[j] == v;
        assert(is_selected(b[j], ext));
        lemma_selection_contains(dir, b, ext, p);
    }
}

/// The index of the last `.` in `name`.
fn last_dot_index(name: &str) -> (r: Option<usize>)
    ensures
        match r {
            Some(k) => k as int == last_dot(name@),
            None => last_dot(name@) == -1,
        },
{
    let mut i: usize = name.unicode_len();
    assert(name@.subrange(0, i as int) =~= name@);
    while i > 0
        invariant
            i <= name@.len(),
            last_dot(name@.subrange(0, i as int)) == last_dot(name@),
        decreases i,
    {
        assert(name@.subrange(0, i as int).drop_last() =~= name@.subrange(0, i - 1));
        if name.get_char(i - 1) == '.' {
            return Some(i - 1);
        }
        i = i - 1;
    }
    None
}

/// The extension of a file name, without its dot.
pub fn file_extension(name: &str) -> (r: Option<String>)
    ensures
        match r {
            Some(x) => extension_of(name@) == Some(x@),
            None => extension_of(name@) is None,
        },
{
    let k = match last_dot_index(name) {
        Some(k) => k,
        None => return None,
    };
    if k == 0 {
        return None;
    }
    let n = name.unicode_len();
    proof {
        lemma_last_dot_bounds(name@);
    }
    if n == 2 && name.get_char(0) == '.' && name.get_char(1) == '.' {
        assert(name@ =~= seq!['.', '.']);
        return None;
    }
    assert(name@ != seq!['.', '.']) by {
        if name@ == seq!['.', '.'] {
            assert(name@.len() == 2);
        }
    }
    Some(String::from_str(name.substring_char(k + 1, n)))
}

/// The path of `name` inside the directory `dir`.
fn join_path(dir: &str, name: &str) -> (r: String)
    ensures
        r@ == joined(dir@, name@),
{
    let mut path = String::from_str(dir);
    let n = dir.unicode_len();
    if n > 0 && dir.get_char(n - 1) != '/' {
        proof {
            reveal_strlit("/");
        }
        path.append("/");
    }
    path.append(name);
    path
}

/// The paths, inside `directory`, of the entries that are regular files with extension
/// `extension`, in the order of `entries`.
pub fn select_by_extension(directory: &str, entries: &Vec<Entry>, extension: &str) -> (r: Vec<
    String,
>)
    ensures
        texts(r@) == selection(directory@, entries@, extension@),
{
    let mut found: Vec<String> = Vec::new();
    let mut i: usize = 0;
    while i < entries.len()
        invariant
            i <= entries@.len(),
            texts(found@) == selection(directory@, entries@.subrange(0, i as int), extension@),
        decreases entries@.len() - i,
    {
        let entry = &entries[i];
        let ghost prefix = entries@.subrange(0, i + 1);
        assert(prefix.drop_last() =~= entries@.subrange(0, i as int));
        assert(prefix.last() == *entry);
        let selected = if entry.kind == PathKind::File {
            match file_extension(entry.name.as_str()) {
                Some(x) => x == String::from_str(extension),
                None => false,
            }
        } else {
            false
        };
        if selected {
            let path = join_path(directory, entry.name.as_str());
            let ghost before = found@;
            found.push(path);
            assert(texts(found@) =~= texts(before).push(path@));
        }
        i = i + 1;
    }
    assert(entries@.subrange(0, i as int) =~= entries@);
    found
}

/// Checks a request to search `directory` for files with extension `extension`: the
/// directory must validate, then the extension must not be empty. Returns the canonical
/// path of the directory to read.
pub fn check_request(directory: Result<CanonicalPath, String>, extension: &str) -> (r: Result<
    String,
    PathError,
>)
    ensures
        outcome_view(r) == request_outcome(directory, extension@),
{
    let dir = is_valid_directory(directory)?;
    if extension.is_empty() {
        return Err(PathError::MissingExtension);
    }
    Ok(dir)
}

/// Searches `directory` for the regular files with extension `extension`, not descending
/// into subdirectories. `listing` is the directory's entries, or the message of the
/// failure to read them. Returns their canonical paths.
pub fn seek_file_by_extension(
    directory: Result<CanonicalPath, String>,
    extension: &str,
    listing: Result<Vec<Entry>, String>,
) -> (r: Result<Vec<String>, PathError>)
    ensures
        found_view(r) == seek_outcome(directory, extension@, listing),
{
    let dir = check_request(directory, extension)?;
    match listing {
        Err(m) => Err(PathError::Io(m)),
        Ok(entries) => Ok(select_by_extension(dir.as_str(), &entries, extension)),
    }
}

} // verus!
