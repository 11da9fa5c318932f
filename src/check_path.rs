use vstd::prelude::*;

verus! {

/// What a canonical path denotes, as the filesystem's metadata reports it.
#[derive(Clone, Copy, Debug, PartialEq, Eq, Structural)]
pub enum PathKind {
    Directory,
    File,
    Other,
}

/// A path resolved to its absolute, symlink-free form.
///
/// `text` is the canonical path as a string, or `None` where it cannot be written as one;
/// `kind` is what the canonical path denotes.
#[derive(Clone, Debug)]
pub struct CanonicalPath {
    pub text: Option<String>,
    pub kind: PathKind,
}

/// Why a path, or a request to search a directory, was refused.
#[derive(Clone, Debug)]
pub enum PathError {
    /// The path could not be resolved, its canonical form is not text, or the directory
    /// could not be read; carries the message.
    Io(String),
    /// The canonical path exists but is not a directory; carries the canonical path.
    NotADirectory(String),
    /// The canonical path exists but is not a regular file; carries the canonical path.
    NotAFile(String),
    /// An empty extension was asked for.
    MissingExtension,
}

/// A `PathError` with its strings seen as sequences of characters.
pub enum ErrorModel {
    Io(Seq<char>),
    NotADirectory(Seq<char>),
    NotAFile(Seq<char>),
    MissingExtension,
}

impl View for PathError {
    type V = ErrorModel;

    open spec fn view(&self) -> ErrorModel {
        match self {
            PathError::Io(m) => ErrorModel::Io(m@),
            PathError::NotADirectory(p) => ErrorModel::NotADirectory(p@),
            PathError::NotAFile(p) => ErrorModel::NotAFile(p@),
            PathError::MissingExtension => ErrorModel::MissingExtension,
        }
    }
}

/// A validation's outcome with its strings seen as sequences of characters.
pub open spec fn outcome_view(r: Result<String, PathError>) -> Result<Seq<char>, ErrorModel> {
    match r {
        Ok(p) => Ok(p@),
        Err(e) => Err(e@),
    }
}

/// The message of the error for a canonical path that is not text.
pub open spec fn conversion_message() -> Seq<char> {
    "Failed to convert path to string"@
}

/// The outcome of checking that `resolved` denotes something of kind `want`.
///
/// A failed resolution gives its message as an I/O error, a canonical path that is not
/// text gives the conversion error, and a path of another kind gives the error of `want`;
/// otherwise the canonical path is returned.
pub open spec fn validation(resolved: Result<CanonicalPath, String>, want: PathKind) -> Result<
    Seq<char>,
    ErrorModel,
> {
    match resolved {
        Err(m) => Err(ErrorModel::Io(m@)),
        Ok(c) => match c.text {
            None => Err(ErrorModel::Io(conversion_message())),
            Some(t) => if c.kind == want {
                Ok(t@)
            } else if want == PathKind::Directory {
                Err(ErrorModel::NotADirectory(t@))
            } else {
                Err(ErrorModel::NotAFile(t@))
            },
        },
    }
}

/// Only a path that resolves, whose canonical form is text, and that denotes something
/// of the kind asked for validates; the result is then its canonical path.
pub proof fn lemma_validated_kind(resolved: Result<CanonicalPath, String>, want: PathKind)
    ensures
        validation(resolved, want) is Ok ==> {
            &&& resolved is Ok
            &&& resolved->Ok_0.kind == want
            &&& resolved->Ok_0.text is Some
            &&& validation(resolved, want)->Ok_0 == resolved->Ok_0.text->Some_0@
        },
{
}

/// An existing directory whose canonical path is text validates as a directory, with
/// that canonical path as the result.
pub proof fn lemma_directory_accepted(c: CanonicalPath)
    requires
        c.kind == PathKind::Directory,
        c.text is Some,
    ensures
        validation(Ok(c), PathKind::Directory) == Ok::<Seq<char>, ErrorModel>(c.text->Some_0@),
{
}

/// A path that cannot be resolved fails both validations with the resolution's I/O error.
pub proof fn lemma_unresolved_rejected(message: String)
    ensures
        validation(Err(message), PathKind::Directory) == Err::<Seq<char>, ErrorModel>(
            ErrorModel::Io(message@),
        ),
        validation(Err(message), PathKind::File) == Err::<Seq<char>, ErrorModel>(
            ErrorModel::Io(message@),
        ),
{
}

/// An existing regular file whose canonical path is text validates as a file, and fails
/// the directory validation with `NotADirectory`.
pub proof fn lemma_file_accepted(c: CanonicalPath)
    requires
        c.kind == PathKind::File,
        c.text is Some,
    ensures
        validation(Ok(c), PathKind::File) == Ok::<Seq<char>, ErrorModel>(c.text->Some_0@),
        validation(Ok(c), PathKind::Directory) == Err::<Seq<char>, ErrorModel>(
            ErrorModel::NotADirectory(c.text->Some_0@),
        ),
{
}

/// An existing directory whose canonical path is text fails the file validation with
/// `NotAFile`.
pub proof fn lemma_directory_not_file(c: CanonicalPath)
    requires
        c.kind == PathKind::Directory,
        c.text is Some,
    ensures
        validation(Ok(c), PathKind::File) == Err::<Seq<char>, ErrorModel>(
            ErrorModel::NotAFile(c.text->Some_0@),
        ),
{
}

/// The canonical path as text, or the conversion error where it is not text.
fn get_path_str(text: &Option<String>) -> (r: Result<String, PathError>)
    ensures
        match text {
            Some(t) => outcome_view(r) == Ok::<Seq<char>, ErrorModel>(t@),
            None => outcome_view(r) == Err::<Seq<char>, ErrorModel>(
                ErrorModel::Io(conversion_message()),
            ),
        },
{
    match text {
        Some(t) => Ok(t.clone()),
        None => Err(PathError::Io(String::from_str("Failed to convert path to string"))),
    }
}

/// Checks that `resolved` denotes something of kind `want`, and returns its canonical path.
fn validate_kind(resolved: Result<CanonicalPath, String>, want: PathKind) -> (r: Result<
    String,
    PathError,
>)
    ensures
        outcome_view(r) == validation(resolved, want),
{
    let canonical = match resolved {
        Ok(c) => c,
        Err(m) => return Err(PathError::Io(m)),
    };
    let text = get_path_str(&canonical.text)?;
    if canonical.kind == want {
        Ok(text)
    } else if want == PathKind::Directory {
        Err(PathError::NotADirectory(text))
    } else {
        Err(PathError::NotAFile(text))
    }
}

/// Checks that the resolved path is a directory, and returns its canonical path.
pub fn is_valid_directory(resolved: Result<CanonicalPath, String>) -> (r: Result<
    String,
    PathError,
>)
    ensures
        outcome_view(r) == validation(resolved, PathKind::Directory),
{
    validate_kind(resolved, PathKind::Directory)
}

/// Checks that the resolved path is a regular file, and returns its canonical path.
pub fn is_valid_file(resolved: Result<CanonicalPath, String>) -> (r: Result<String, PathError>)
    ensures
        outcome_view(r) == validation(resolved, PathKind::File),
{
    validate_kind(resolved, PathKind::File)
}

} // verus!
